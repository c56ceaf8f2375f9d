//! Reassembly of typed values from a stream of 64-bit words.
//!
//! The only thing that crosses the boundary to the host is a single 64-bit
//! word per call. A [`WordAccumulator`] turns a run of such calls back into
//! values: it holds a list of rules, each of which takes a fixed number of
//! words, and fills them one after the other. When the last rule has taken
//! its last word the sequence is complete, the values can be read, and the
//! next word starts the following sequence.

use vstd::prelude::*;
use vstd::bytes::*;
use crate::error::HostError;
use crate::words::{overwrite, word_at, words_of};

verus! {

/// One value to be filled from the word stream.
pub enum Rule {
    /// A byte buffer and the number of words it takes. Every word fills the
    /// next eight bytes of the buffer, least significant byte first, so a
    /// buffer for `n` words is `8 * n` bytes long.
    FixedBytes(Vec<u8>, u32),
    /// A single 64-bit value, which takes one word.
    SingleWord(u64),
}

/// What a [`Rule`] holds, as a mathematical value.
pub enum RuleView {
    FixedBytes { bytes: Seq<u8>, words: nat },
    SingleWord { value: u64 },
}

impl View for Rule {
    type V = RuleView;

    open spec fn view(&self) -> RuleView {
        match *self {
            Rule::FixedBytes(buffer, words) => RuleView::FixedBytes {
                bytes: buffer@,
                words: words as nat,
            },
            Rule::SingleWord(value) => RuleView::SingleWord { value },
        }
    }
}

impl RuleView {
    /// A byte rule takes at least one word and its buffer has room for
    /// exactly the words it takes.
    pub open spec fn wf(self) -> bool {
        match self {
            RuleView::FixedBytes { bytes, words } => words >= 1 && bytes.len() == 8 * words,
            RuleView::SingleWord { .. } => true,
        }
    }

    /// The number of words that fill the rule.
    pub open spec fn span(self) -> nat {
        match self {
            RuleView::FixedBytes { words, .. } => words,
            RuleView::SingleWord { .. } => 1,
        }
    }

    /// The rule after it has taken `word` as its word number `offset`.
    pub open spec fn absorb(self, offset: nat, word: u64) -> RuleView {
        match self {
            RuleView::FixedBytes { bytes, words } => RuleView::FixedBytes {
                bytes: overwrite(bytes, 8 * (offset as int), spec_u64_to_le_bytes(word)),
                words,
            },
            RuleView::SingleWord { .. } => RuleView::SingleWord { value: word },
        }
    }
}

/// The views of a list of rules, in order.
pub open spec fn rule_views(rules: Seq<Rule>) -> Seq<RuleView> {
    Seq::new(rules.len(), |i: int| rules[i]@)
}

/// A list of rules that an accumulator can be made of: it is not empty and
/// each of its rules is well formed.
pub open spec fn rules_wf(rules: Seq<RuleView>) -> bool {
    &&& rules.len() >= 1
    &&& forall|i: int| 0 <= i < rules.len() ==> (#[trigger] rules[i]).wf()
}

/// What a [`WordAccumulator`] holds, as a mathematical value.
pub struct AccumulatorView {
    /// The rules, in the order in which they are filled.
    pub rules: Seq<RuleView>,
    /// The index of the rule that takes the next word.
    pub cursor: nat,
    /// The number of words that this rule has taken in the current sequence.
    pub offset: nat,
}

impl AccumulatorView {
    /// The accumulator that starts a sequence over the given rules.
    pub open spec fn fresh(rules: Seq<RuleView>) -> AccumulatorView {
        AccumulatorView { rules, cursor: 0, offset: 0 }
    }

    /// The accumulator that starts on one value of 32 bytes, which it takes
    /// in four words, with zeros in its buffer.
    pub open spec fn bytes32() -> AccumulatorView {
        AccumulatorView::fresh(
            seq![RuleView::FixedBytes { bytes: Seq::new(32, |i: int| 0u8), words: 4 }],
        )
    }

    /// The accumulator that starts on one 64-bit value, which is 0.
    pub open spec fn word() -> AccumulatorView {
        AccumulatorView::fresh(seq![RuleView::SingleWord { value: 0 }])
    }

    /// The cursor names a rule, and that rule still has room for a word.
    pub open spec fn wf(self) -> bool {
        &&& rules_wf(self.rules)
        &&& self.cursor < self.rules.len()
        &&& self.offset < self.rules[self.cursor as int].span()
    }

    /// No word of the current sequence has been taken yet.
    pub open spec fn idle(self) -> bool {
        self.cursor == 0 && self.offset == 0
    }

    /// The rule that takes the next word.
    pub open spec fn active(self) -> RuleView {
        self.rules[self.cursor as int]
    }

    /// The next word fills the active rule.
    pub open spec fn fills_rule(self) -> bool {
        self.offset + 1 == self.active().span()
    }

    /// The next word completes the sequence.
    pub open spec fn completes(self) -> bool {
        self.fills_rule() && self.cursor + 1 == self.rules.len()
    }

    /// The accumulator after it has taken `word`.
    pub open spec fn fed(self, word: u64) -> AccumulatorView {
        AccumulatorView {
            rules: self.rules.update(
                self.cursor as int,
                self.active().absorb(self.offset, word),
            ),
            cursor: if !self.fills_rule() {
                self.cursor
            } else if self.cursor + 1 == self.rules.len() {
                0
            } else {
                self.cursor + 1
            },
            offset: if self.fills_rule() {
                0
            } else {
                self.offset + 1
            },
        }
    }

    /// The accumulator after it has taken each of `words`, first to last.
    pub open spec fn fed_all(self, words: Seq<u64>) -> AccumulatorView
        decreases words.len(),
    {
        if words.len() == 0 {
            self
        } else {
            self.fed_all(words.drop_last()).fed(words.last())
        }
    }

    /// The rule that was filled last: the one before the cursor, and the
    /// last rule of the list when the cursor stands at the start.
    pub open spec fn latest(self) -> RuleView {
        if self.cursor == 0 {
            self.rules[self.rules.len() - 1]
        } else {
            self.rules[self.cursor - 1]
        }
    }

    /// The accumulator has one rule, a byte buffer for `words` words.
    pub open spec fn is_bytes(self, words: nat) -> bool {
        &&& self.rules.len() == 1
        &&& self.rules[0] is FixedBytes
        &&& self.rules[0]->words == words
    }

    /// The accumulator has one rule, a single word.
    pub open spec fn is_word(self) -> bool {
        &&& self.rules.len() == 1
        &&& self.rules[0] is SingleWord
    }
}

/// A cursor over a list of rules that are filled from a stream of words.
pub struct WordAccumulator {
    rules: Vec<Rule>,
    cursor: usize,
    offset: usize,
}

impl View for WordAccumulator {
    type V = AccumulatorView;

    closed spec fn view(&self) -> AccumulatorView {
        AccumulatorView {
            rules: rule_views(self.rules@),
            cursor: self.cursor as nat,
            offset: self.offset as nat,
        }
    }
}

/// Writes the eight bytes of `word` into `buffer` from offset `at` on, least
/// significant byte first.
fn store_word(buffer: &mut Vec<u8>, at: usize, word: u64)
    requires
        at + 8 <= old(buffer).len(),
    ensures
        final(buffer)@ == overwrite(old(buffer)@, at as int, spec_u64_to_le_bytes(word)),
    no_unwind
{
    proof {
        spec_u64_to_le_bytes_to_open(word);
    }
    buffer[at] = (word & 0xff) as u8;
    buffer[at + 1] = ((word >> 8) & 0xff) as u8;
    buffer[at + 2] = ((word >> 16) & 0xff) as u8;
    buffer[at + 3] = ((word >> 24) & 0xff) as u8;
    buffer[at + 4] = ((word >> 32) & 0xff) as u8;
    buffer[at + 5] = ((word >> 40) & 0xff) as u8;
    buffer[at + 6] = ((word >> 48) & 0xff) as u8;
    buffer[at + 7] = ((word >> 56) & 0xff) as u8;
    assert(buffer@ =~= overwrite(old(buffer)@, at as int, spec_u64_to_le_bytes(word)));
}

impl Rule {
    /// Whether the rule can be part of an accumulator.
    pub fn is_valid(&self) -> (valid: bool)
        ensures
            valid == self@.wf(),
    {
        match self {
            Rule::FixedBytes(buffer, words) => {
                *words >= 1 && buffer.len() as u64 == 8 * (*words as u64)
            },
            Rule::SingleWord(_) => true,
        }
    }
}

impl WordAccumulator {
    /// What every accumulator satisfies: see [`AccumulatorView::wf`].
    pub open spec fn wf(&self) -> bool {
        self@.wf()
    }

    /// Makes the accumulator that fills the given rules in order, starting
    /// with the first.
    ///
    /// Fails with `PreconditionViolation` if there is no rule, or if one of
    /// the rules is not well formed.
    pub fn new(rules: Vec<Rule>) -> (made: Result<WordAccumulator, HostError>)
        ensures
            rules_wf(rule_views(rules@)) ==> made is Ok && made->Ok_0@ == AccumulatorView::fresh(
                rule_views(rules@),
            ) && made->Ok_0.wf(),
            !rules_wf(rule_views(rules@)) ==> made == Err::<WordAccumulator, HostError>(
                HostError::PreconditionViolation,
            ),
    {
        if rules.len() == 0 {
            return Err(HostError::PreconditionViolation);
        }
        let mut i: usize = 0;
        while i < rules.len()
            invariant
                i <= rules.len(),
                forall|j: int| 0 <= j < i ==> (#[trigger] rule_views(rules@)[j]).wf(),
            decreases rules.len() - i,
        {
            if !rules[i].is_valid() {
                assert(!rule_views(rules@)[i as int].wf());
                return Err(HostError::PreconditionViolation);
            }
            i = i + 1;
        }
        Ok(WordAccumulator { rules, cursor: 0, offset: 0 })
    }

    /// Makes the accumulator for one value of 32 bytes, which is read in
    /// four words. Its buffer holds zeros at first.
    pub fn bytes32() -> (acc: WordAccumulator)
        ensures
            acc.wf(),
            acc@ == AccumulatorView::bytes32(),
    {
        let buffer = vec![0u8; 32];
        assert(buffer@ =~= Seq::new(32, |i: int| 0u8));
        let rules = vec![Rule::FixedBytes(buffer, 4)];
        assert(rule_views(rules@) =~= seq![
            RuleView::FixedBytes { bytes: Seq::new(32, |i: int| 0u8), words: 4 },
        ]);
        WordAccumulator { rules, cursor: 0, offset: 0 }
    }

    /// Makes the accumulator for one 64-bit value, which is 0 at first.
    pub fn word() -> (acc: WordAccumulator)
        ensures
            acc.wf(),
            acc@ == AccumulatorView::word(),
    {
        let rules = vec![Rule::SingleWord(0)];
        assert(rule_views(rules@) =~= seq![RuleView::SingleWord { value: 0 }]);
        WordAccumulator { rules, cursor: 0, offset: 0 }
    }

    /// The index of the rule that takes the next word.
    pub fn cursor(&self) -> (cursor: usize)
        ensures
            cursor == self@.cursor,
    {
        self.cursor
    }

    /// The number of words that the active rule has taken in the current
    /// sequence.
    pub fn offset(&self) -> (offset: usize)
        ensures
            offset == self@.offset,
    {
        self.offset
    }

    /// Hands the next word of the stream to the active rule.
    ///
    /// A byte rule stores the word's eight bytes at the next free offset of
    /// its buffer, a single-word rule stores the word. When this fills the
    /// rule the cursor moves on to the next rule, and from the last rule back
    /// to the first. The result says whether the word completed the sequence.
    pub fn feed(&mut self, word: u64) -> (done: bool)
        requires
            old(self).wf(),
        ensures
            final(self).wf(),
            final(self)@ == old(self)@.fed(word),
            done == old(self)@.completes(),
        no_unwind
    {
        let cursor = self.cursor;
        let offset = self.offset;
        let count = self.rules.len();
        assert(rule_views(self.rules@)[cursor as int].wf());
        let filled = match &mut self.rules[cursor] {
            Rule::FixedBytes(buffer, words) => {
                assert(buffer.len() == 8 * *words && offset < *words);
                store_word(buffer, 8 * offset, word);
                offset + 1 == *words as usize
            },
            Rule::SingleWord(value) => {
                *value = word;
                true
            },
        };
        assert(rule_views(self.rules@) =~= old(self)@.fed(word).rules);
        if filled {
            self.offset = 0;
            if cursor + 1 == count {
                self.cursor = 0;
                true
            } else {
                self.cursor = cursor + 1;
                false
            }
        } else {
            self.offset = offset + 1;
            false
        }
    }

    /// The bytes of the rule that was filled last.
    ///
    /// Fails with `TypeMismatch` if that rule holds a single word.
    pub fn current_value_as_bytes(&self) -> (value: Result<Vec<u8>, HostError>)
        requires
            self.wf(),
        ensures
            match self@.latest() {
                RuleView::FixedBytes { bytes, .. } => value is Ok && value->Ok_0@ == bytes,
                RuleView::SingleWord { .. } => value == Err::<Vec<u8>, HostError>(
                    HostError::TypeMismatch,
                ),
            },
    {
        let at = if self.cursor == 0 {
            self.rules.len() - 1
        } else {
            self.cursor - 1
        };
        assert(rule_views(self.rules@)[at as int] == self@.latest());
        match &self.rules[at] {
            Rule::FixedBytes(buffer, _) => Ok(buffer.clone()),
            Rule::SingleWord(_) => Err(HostError::TypeMismatch),
        }
    }

    /// The word of the rule that was filled last.
    ///
    /// Fails with `TypeMismatch` if that rule holds bytes.
    pub fn current_value_as_u64(&self) -> (value: Result<u64, HostError>)
        requires
            self.wf(),
        ensures
            match self@.latest() {
                RuleView::FixedBytes { .. } => value == Err::<u64, HostError>(
                    HostError::TypeMismatch,
                ),
                RuleView::SingleWord { value: word } => value == Ok::<u64, HostError>(word),
            },
    {
        let at = if self.cursor == 0 {
            self.rules.len() - 1
        } else {
            self.cursor - 1
        };
        assert(rule_views(self.rules@)[at as int] == self@.latest());
        match &self.rules[at] {
            Rule::FixedBytes(_, _) => Err(HostError::TypeMismatch),
            Rule::SingleWord(value) => Ok(*value),
        }
    }
}

/// Taking a word keeps an accumulator well formed: the cursor still names a
/// rule. The word goes to the active rule and to no other, the kinds and
/// sizes of the rules stay as they are, and a word that completes the
/// sequence leaves the accumulator at the start.
pub proof fn lemma_fed_wf(acc: AccumulatorView, word: u64)
    requires
        acc.wf(),
    ensures
        acc.fed(word).wf(),
        acc.fed(word).rules.len() == acc.rules.len(),
        forall|i: int|
            0 <= i < acc.rules.len() && i != acc.cursor ==> #[trigger] acc.fed(word).rules[i]
                == acc.rules[i],
        acc.completes() ==> acc.fed(word).idle(),
        forall|words: nat| acc.is_bytes(words) ==> acc.fed(word).is_bytes(words),
        acc.is_word() ==> acc.fed(word).is_word(),
{
    let next = acc.fed(word);
    assert forall|i: int| 0 <= i < next.rules.len() implies (#[trigger] next.rules[i]).wf() by {
        assert(acc.rules[i].wf());
    }
    assert(acc.rules[next.cursor as int].wf());
}

/// An accumulator of one byte rule that has taken the first `count` words of
/// a value holds the first `8 * count` bytes of that value, and expects the
/// word after them.
pub proof fn lemma_bytes_prefix(acc: AccumulatorView, bytes: Seq<u8>, count: nat)
    requires
        acc.wf(),
        acc.idle(),
        acc.rules.len() == 1,
        acc.rules[0] is FixedBytes,
        bytes.len() == 8 * acc.rules[0]->words,
        count <= acc.rules[0]->words,
    ensures
        ({
            let words = acc.rules[0]->words;
            let then = acc.fed_all(words_of(bytes).take(count as int));
            &&& then.wf()
            &&& then.is_bytes(words)
            &&& then.cursor == 0
            &&& then.offset == (if count == words { 0 } else { count })
            &&& then.rules[0]->bytes.take(8 * count as int) == bytes.take(8 * count as int)
        }),
    decreases count,
{
    let words = acc.rules[0]->words;
    let stream = words_of(bytes);
    assert(stream.len() == words);
    if count == 0 {
        assert(stream.take(0) =~= Seq::<u64>::empty());
        assert(acc.rules[0]->bytes.take(0) =~= bytes.take(0));
    } else {
        let before: int = count - 1;
        lemma_bytes_prefix(acc, bytes, before as nat);
        let prev = acc.fed_all(stream.take(before));
        let word = stream[before];
        assert(stream.take(count as int).drop_last() =~= stream.take(before));
        assert(stream.take(count as int).last() == word);
        let then = prev.fed(word);
        assert(then == acc.fed_all(stream.take(count as int)));
        lemma_fed_wf(prev, word);
        let chunk = bytes.subrange(8 * before, 8 * before + 8);
        assert(word == word_at(bytes, before));
        lemma_auto_spec_u64_to_from_le_bytes();
        assert(spec_u64_to_le_bytes(word) == chunk);
        let old_bytes = prev.rules[0]->bytes;
        let new_bytes = then.rules[0]->bytes;
        assert(new_bytes == overwrite(old_bytes, 8 * before, chunk));
        assert forall|j: int| 0 <= j < 8 * count implies new_bytes[j] == bytes[j] by {
            if j < 8 * before {
                assert(old_bytes.take(8 * before)[j] == bytes.take(8 * before)[j]);
            } else {
                assert(chunk[j - 8 * before] == bytes[j]);
            }
        }
        assert(new_bytes.take(8 * count as int) =~= bytes.take(8 * count as int));
    }
}

/// Feeding the words of a value into an accumulator of one byte rule, in
/// order, makes the value readable exactly as it was, whatever the buffer
/// held before; only the last of these words completes the sequence, and the
/// accumulator then stands at the start again.
pub proof fn lemma_bytes_round_trip(acc: AccumulatorView, bytes: Seq<u8>)
    requires
        acc.wf(),
        acc.idle(),
        acc.rules.len() == 1,
        acc.rules[0] is FixedBytes,
        bytes.len() == 8 * acc.rules[0]->words,
    ensures
        acc.fed_all(words_of(bytes)).wf(),
        acc.fed_all(words_of(bytes)).idle(),
        acc.fed_all(words_of(bytes)).latest() == (RuleView::FixedBytes {
            bytes,
            words: acc.rules[0]->words,
        }),
        forall|count: int|
            0 <= count < acc.rules[0]->words ==> (#[trigger] acc.fed_all(
                words_of(bytes).take(count),
            )).completes() == (count + 1 == acc.rules[0]->words),
{
    let words = acc.rules[0]->words;
    let stream = words_of(bytes);
    lemma_bytes_prefix(acc, bytes, words);
    assert(stream.take(words as int) =~= stream);
    let end = acc.fed_all(stream);
    assert(end.rules[0]->bytes.take(8 * words as int) =~= end.rules[0]->bytes);
    assert(bytes.take(8 * words as int) =~= bytes);
    assert forall|count: int| 0 <= count < words implies (#[trigger] acc.fed_all(
        stream.take(count),
    )).completes() == (count + 1 == words) by {
        lemma_bytes_prefix(acc, bytes, count as nat);
    }
}

/// A value of 32 bytes passes through its accumulator in four words. None of
/// the first three completes the sequence and each moves the offset on by
/// one; the fourth completes it, the value is then read exactly as it was
/// sent, and the accumulator stands at the start again.
pub proof fn lemma_four_words(acc: AccumulatorView, bytes: Seq<u8>)
    requires
        acc.wf(),
        acc.idle(),
        acc.is_bytes(4),
        bytes.len() == 32,
    ensures
        ({
            let words = words_of(bytes);
            let first = acc.fed(words[0]);
            let second = first.fed(words[1]);
            let third = second.fed(words[2]);
            let fourth = third.fed(words[3]);
            &&& !acc.completes() && !first.completes() && !second.completes()
            &&& third.completes()
            &&& first.wf() && first.is_bytes(4) && first.cursor == 0 && first.offset == 1
            &&& second.wf() && second.is_bytes(4) && second.cursor == 0 && second.offset == 2
            &&& third.wf() && third.is_bytes(4) && third.cursor == 0 && third.offset == 3
            &&& fourth.wf() && fourth.is_bytes(4) && fourth.idle()
            &&& fourth.latest() == (RuleView::FixedBytes { bytes, words: 4 })
            &&& fourth == acc.fed_all(words)
        }),
{
    let words = words_of(bytes);
    lemma_bytes_prefix(acc, bytes, 0);
    lemma_bytes_prefix(acc, bytes, 1);
    lemma_bytes_prefix(acc, bytes, 2);
    lemma_bytes_prefix(acc, bytes, 3);
    lemma_bytes_prefix(acc, bytes, 4);
    assert(words.take(0) =~= Seq::<u64>::empty());
    assert(words.take(1).drop_last() =~= words.take(0));
    assert(words.take(2).drop_last() =~= words.take(1));
    assert(words.take(3).drop_last() =~= words.take(2));
    assert(words.take(4).drop_last() =~= words.take(3));
    assert(words.take(4) =~= words);
    let first = acc.fed_all(words.take(1));
    let second = acc.fed_all(words.take(2));
    let third = acc.fed_all(words.take(3));
    let fourth = acc.fed_all(words.take(4));
    assert(acc.fed_all(words.take(0)) == acc);
    assert(first == acc.fed(words[0]));
    assert(second == first.fed(words[1]));
    assert(third == second.fed(words[2]));
    assert(fourth == third.fed(words[3]));
    assert(fourth.rules[0]->bytes.take(32) =~= fourth.rules[0]->bytes);
    assert(bytes.take(32) =~= bytes);
}

/// An accumulator of one single-word rule always stands at the start: any
/// word completes its sequence and is the value that is read afterwards.
pub proof fn lemma_single_word(acc: AccumulatorView, word: u64)
    requires
        acc.wf(),
        acc.is_word(),
    ensures
        acc.idle(),
        acc.completes(),
        acc.fed(word).wf(),
        acc.fed(word).is_word(),
        acc.fed(word).idle(),
        acc.fed(word).latest() == (RuleView::SingleWord { value: word }),
{
}

} // verus!
