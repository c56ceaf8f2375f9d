//! Records of words that the host stores under 32-byte keys.
//!
//! The guest chooses a mode, sends the words of a record if it wants to
//! store one, and then sends the key, four words. With the fourth word of the
//! key the record goes to the host, or is asked of it. A fetched record is
//! read back one word per call: the first read gives the number of words, so
//! that the guest can make room for them, and the reads after it give the
//! words.

use vstd::prelude::*;
use crate::accumulator::{AccumulatorView, WordAccumulator, lemma_four_words};
use crate::error::HostError;
use crate::oracle::{RecordQuery, RecordQueryView, RecordUpdate, RecordUpdateView};
use crate::words::{to_array, words_of};

verus! {

/// The mode in which a completed key asks the host for the record.
pub const FETCH_MODE: u64 = 0;

/// The mode in which a completed key sends the collected words to the host.
pub const STORE_MODE: u64 = 1;

/// What a completed key asks of the host.
#[derive(Debug, PartialEq, Eq)]
pub enum RecordRequest {
    Fetch(RecordQuery),
    Store(RecordUpdate),
}

/// What a [`RecordRequest`] holds, as a mathematical value.
pub enum RecordRequestView {
    Fetch(RecordQueryView),
    Store(RecordUpdateView),
}

impl View for RecordRequest {
    type V = RecordRequestView;

    open spec fn view(&self) -> RecordRequestView {
        match *self {
            RecordRequest::Fetch(query) => RecordRequestView::Fetch(query@),
            RecordRequest::Store(update) => RecordRequestView::Store(update@),
        }
    }
}

/// The outcome of a key word, as a mathematical value.
pub open spec fn request_view(request: Option<RecordRequest>) -> Option<RecordRequestView> {
    match request {
        Some(request) => Some(request@),
        None => None,
    }
}

/// The state of the guest's dealings with the record store.
pub struct CacheContext {
    mode: u64,
    hash: WordAccumulator,
    data: Vec<u64>,
    fetch: bool,
}

/// What a [`CacheContext`] holds, as a mathematical value.
pub struct CacheView {
    /// The mode that was chosen last.
    pub mode: u64,
    /// Collects the words of the key.
    pub hash: AccumulatorView,
    /// The words collected for storing, or what is left of a fetched record.
    pub data: Seq<u64>,
    /// Whether the length of the fetched record has been read.
    pub fetch: bool,
}

impl CacheView {
    /// What holds of every context: the accumulator for the key takes one
    /// value of 32 bytes.
    pub open spec fn wf(self) -> bool {
        self.hash.wf() && self.hash.is_bytes(4)
    }

    /// The context in fetch mode, with no words collected and no word of a
    /// key taken.
    pub open spec fn initial() -> CacheView {
        CacheView {
            mode: FETCH_MODE,
            hash: AccumulatorView::bytes32(),
            data: Seq::empty(),
            fetch: false,
        }
    }

    /// The context after `mode` has been chosen: the collected words are
    /// dropped.
    pub open spec fn mode_set(self, mode: u64) -> CacheView {
        CacheView { mode, data: Seq::empty(), ..self }
    }

    /// The context after `word` has been added to the words to store.
    pub open spec fn stored(self, word: u64) -> CacheView {
        CacheView { data: self.data.push(word), ..self }
    }

    /// The context after each of `words` has been added, first to last.
    pub open spec fn stored_all(self, words: Seq<u64>) -> CacheView
        decreases words.len(),
    {
        if words.len() == 0 {
            self
        } else {
            self.stored_all(words.drop_last()).stored(words.last())
        }
    }

    /// What the fourth word of a key asks of the host, the key being `key`:
    /// in fetch mode the record, in store mode to store the collected words
    /// if there are any, and nothing otherwise.
    pub open spec fn request(self, key: Seq<u8>) -> Option<RecordRequestView> {
        if self.mode == FETCH_MODE {
            Some(RecordRequestView::Fetch(RecordQueryView { key }))
        } else if self.mode == STORE_MODE && self.data.len() > 0 {
            Some(RecordRequestView::Store(RecordUpdateView { key, data: self.data }))
        } else {
            None
        }
    }

    /// What sending one word of the key does: the word is taken, and the
    /// fourth word of a key gives the request for the host, if there is one.
    pub open spec fn key_fed(self, word: u64) -> (Option<RecordRequestView>, CacheView) {
        let hash = self.hash.fed(word);
        (
            if self.hash.completes() {
                self.request(hash.latest()->bytes)
            } else {
                None
            },
            CacheView { hash, ..self },
        )
    }

    /// What sending the four words of `key` does: the outcomes of the four
    /// calls, in order, and the context after them.
    pub open spec fn key_sent(self, key: Seq<u8>) -> (Seq<Option<RecordRequestView>>, CacheView) {
        let words = words_of(key);
        let first = self.key_fed(words[0]);
        let second = first.1.key_fed(words[1]);
        let third = second.1.key_fed(words[2]);
        let fourth = third.1.key_fed(words[3]);
        (seq![first.0, second.0, third.0, fourth.0], fourth.1)
    }

    /// The context after the host has answered a [`RecordQuery`] with
    /// `record`: the record is there to be read, from its length on.
    pub open spec fn record_accepted(self, record: Seq<u64>) -> CacheView {
        CacheView { data: record, fetch: false, ..self }
    }

    /// What one read does. The first read after a record has arrived gives
    /// the number of its words and turns the words around, so that the first
    /// word comes to stand at the end. Every read after that takes the word
    /// at the end, and is refused when no word is left.
    pub open spec fn fetched(self) -> (Result<u64, HostError>, CacheView) {
        if !self.fetch {
            (Ok(self.data.len() as u64), CacheView { data: self.data.reverse(), fetch: true, ..self })
        } else if self.data.len() == 0 {
            (Err(HostError::PreconditionViolation), self)
        } else {
            (Ok(self.data.last()), CacheView { data: self.data.drop_last(), ..self })
        }
    }

    /// The context after `count` reads.
    pub open spec fn after_reads(self, count: nat) -> CacheView
        decreases count,
    {
        if count == 0 {
            self
        } else {
            self.after_reads((count - 1) as nat).fetched().1
        }
    }
}

impl View for CacheContext {
    type V = CacheView;

    closed spec fn view(&self) -> CacheView {
        CacheView { mode: self.mode, hash: self.hash@, data: self.data@, fetch: self.fetch }
    }
}

/// Turns the order of the words around.
fn reverse(data: &mut Vec<u64>)
    ensures
        final(data)@ == old(data)@.reverse(),
{
    let count = data.len();
    let mut low: usize = 0;
    while low < count / 2
        invariant
            count == data.len() == old(data).len(),
            low <= count / 2,
            forall|i: int| 0 <= i < low ==> data@[i] == old(data)@[count - 1 - i],
            forall|i: int| count - low <= i < count ==> data@[i] == old(data)@[count - 1 - i],
            forall|i: int| low <= i < count - low ==> data@[i] == old(data)@[i],
        decreases count / 2 - low,
    {
        let high = count - 1 - low;
        let first = data[low];
        let last = data[high];
        data[low] = last;
        data[high] = first;
        low = low + 1;
    }
    assert(data@ =~= old(data)@.reverse());
}

impl CacheContext {
    /// What every context satisfies, at all times.
    #[verifier::type_invariant]
    pub open spec fn inv(self) -> bool {
        self@.wf()
    }

    /// Makes the context in fetch mode, with no words collected.
    pub fn new() -> (context: Self)
        ensures
            context@ == CacheView::initial(),
            context@.wf(),
    {
        CacheContext {
            mode: FETCH_MODE,
            hash: WordAccumulator::bytes32(),
            data: Vec::new(),
            fetch: false,
        }
    }

    /// The mode that was chosen last.
    pub fn mode(&self) -> (mode: u64)
        ensures
            mode == self@.mode,
    {
        self.mode
    }

    /// The number of words that are collected for storing, or left to read.
    pub fn len(&self) -> (count: usize)
        ensures
            count == self@.data.len(),
    {
        self.data.len()
    }

    /// Chooses the mode, [`FETCH_MODE`] or [`STORE_MODE`], and drops the
    /// words collected so far. In any other mode a key asks nothing of the
    /// host.
    pub fn set_mode(&mut self, v: u64)
        ensures
            final(self)@ == old(self)@.mode_set(v),
            final(self)@.wf(),
    {
        proof {
            use_type_invariant(&*self);
        }
        self.mode = v;
        self.data = Vec::new();
    }

    /// Takes one word of the key. The fourth word of a key gives the request
    /// that the caller is to put to the host, if there is one: in fetch mode
    /// the query for the record, whose answer goes to
    /// [`accept_record`](Self::accept_record); in store mode the collected
    /// words, unless there are none, in which case nothing is stored.
    pub fn set_data_hash(&mut self, v: u64) -> (request: Option<RecordRequest>)
        ensures
            (request_view(request), final(self)@) == old(self)@.key_fed(v),
            final(self)@.wf(),
    {
        proof {
            use_type_invariant(&*self);
        }
        let done = self.hash.feed(v);
        if !done {
            return None;
        }
        let key = to_array(&self.hash.current_value_as_bytes().unwrap());
        if self.mode == FETCH_MODE {
            Some(RecordRequest::Fetch(RecordQuery { key }))
        } else if self.mode == STORE_MODE && !self.data.is_empty() {
            Some(RecordRequest::Store(RecordUpdate { key, data: self.data.clone() }))
        } else {
            None
        }
    }

    /// Takes the record that the host returned for a [`RecordQuery`]. The
    /// next read gives its length.
    pub fn accept_record(&mut self, record: Vec<u64>)
        ensures
            final(self)@ == old(self)@.record_accepted(record@),
            final(self)@.wf(),
    {
        proof {
            use_type_invariant(&*self);
        }
        self.data = record;
        self.fetch = false;
    }

    /// Reads the fetched record: first the number of its words, then the
    /// words in the order in which the host returned them.
    ///
    /// Fails with `PreconditionViolation`, and changes nothing, when the
    /// length has been read and no word is left.
    pub fn fetch_data(&mut self) -> (word: Result<u64, HostError>)
        ensures
            (word, final(self)@) == old(self)@.fetched(),
            final(self)@.wf(),
    {
        proof {
            use_type_invariant(&*self);
        }
        let mut data = Vec::new();
        core::mem::swap(&mut data, &mut self.data);
        if !self.fetch {
            let count = data.len() as u64;
            reverse(&mut data);
            self.data = data;
            self.fetch = true;
            Ok(count)
        } else {
            let last = data.pop();
            self.data = data;
            match last {
                Some(word) => Ok(word),
                None => Err(HostError::PreconditionViolation),
            }
        }
    }

    /// Adds `v` to the words that the next key stores.
    pub fn store_data(&mut self, v: u64)
        ensures
            final(self)@ == old(self)@.stored(v),
            final(self)@.wf(),
    {
        proof {
            use_type_invariant(&*self);
        }
        let mut data = Vec::new();
        core::mem::swap(&mut data, &mut self.data);
        data.push(v);
        self.data = data;
    }
}

/// Collecting words keeps them in the order in which they came, behind the
/// words that were there, and touches nothing else.
pub proof fn lemma_stored_all(cache: CacheView, words: Seq<u64>)
    ensures
        cache.stored_all(words) == (CacheView { data: cache.data + words, ..cache }),
    decreases words.len(),
{
    if words.len() == 0 {
        assert(cache.data + words =~= cache.data);
    } else {
        lemma_stored_all(cache, words.drop_last());
        assert((cache.data + words.drop_last()).push(words.last()) =~= cache.data + words);
    }
}

/// A key is sent as its four words. The first three ask nothing of the host;
/// the fourth asks what the mode calls for, with exactly the key that was
/// sent. Mode, collected words and reading state are as before, and the next
/// word starts the next key.
pub proof fn lemma_key_sent(cache: CacheView, key: Seq<u8>)
    requires
        cache.wf(),
        cache.hash.idle(),
        key.len() == 32,
    ensures
        cache.key_sent(key).0 == seq![None, None, None, cache.request(key)],
        cache.key_sent(key).1.wf(),
        cache.key_sent(key).1.hash.idle(),
        cache.key_sent(key).1.mode == cache.mode,
        cache.key_sent(key).1.data == cache.data,
        cache.key_sent(key).1.fetch == cache.fetch,
{
    lemma_four_words(cache.hash, key);
    assert(cache.key_sent(key).0 =~= seq![None, None, None, cache.request(key)]);
}

/// Storing and fetching under one key. After store mode has been chosen and
/// the words of a record collected, the key sends exactly these words to the
/// host, and sends nothing if there are none. After fetch mode has been
/// chosen, the same key asks the host for the record under it. The words
/// collected for storing do not survive the change of mode.
pub proof fn lemma_store_then_fetch(cache: CacheView, key: Seq<u8>, record: Seq<u64>)
    requires
        cache.wf(),
        cache.hash.idle(),
        key.len() == 32,
    ensures
        ({
            let storing = cache.mode_set(STORE_MODE).stored_all(record);
            let stored = storing.key_sent(key);
            let fetching = stored.1.mode_set(FETCH_MODE).key_sent(key);
            &&& storing.data == record
            &&& stored.0 == seq![
                None,
                None,
                None,
                if record.len() > 0 {
                    Some(RecordRequestView::Store(RecordUpdateView { key, data: record }))
                } else {
                    None
                },
            ]
            &&& fetching.0 == seq![
                None,
                None,
                None,
                Some(RecordRequestView::Fetch(RecordQueryView { key })),
            ]
            &&& fetching.1.wf()
            &&& fetching.1.hash.idle()
            &&& fetching.1.data == Seq::<u64>::empty()
        }),
{
    let start = cache.mode_set(STORE_MODE);
    lemma_stored_all(start, record);
    assert(start.data + record =~= record);
    let storing = start.stored_all(record);
    lemma_key_sent(storing, key);
    let stored = storing.key_sent(key);
    lemma_key_sent(stored.1.mode_set(FETCH_MODE), key);
}

/// A fetched record is read back as its length followed by its words in the
/// order in which the host returned them: the first read after the record
/// has arrived gives the number of words, read number `i + 1` gives word
/// number `i`, and every read after the last word is refused.
pub proof fn lemma_record_read_in_order(cache: CacheView, record: Seq<u64>, i: nat)
    requires
        record.len() <= u64::MAX,
    ensures
        cache.record_accepted(record).fetched().0 == Ok::<u64, HostError>(record.len() as u64),
        cache.record_accepted(record).after_reads(i + 1).fetched().0 == (if i < record.len() {
            Ok::<u64, HostError>(record[i as int])
        } else {
            Err::<u64, HostError>(HostError::PreconditionViolation)
        }),
        cache.record_accepted(record).after_reads(i + 1).fetch,
        cache.record_accepted(record).after_reads(i + 1).data == record.reverse().take(
            if i < record.len() {
                record.len() - i
            } else {
                0
            },
        ),
    decreases i,
{
    let start = cache.record_accepted(record);
    let count = record.len();
    assert(start.after_reads(0) == start);
    if i == 0 {
        assert(start.after_reads(1) == start.fetched().1);
        assert(record.reverse().take(count as int) =~= record.reverse());
    } else {
        let before = (i - 1) as nat;
        lemma_record_read_in_order(cache, record, before);
        let prev = start.after_reads(before + 1);
        assert(start.after_reads(i + 1) == prev.fetched().1);
        if before < count {
            assert(prev.data.drop_last() =~= record.reverse().take(count - i));
        } else {
            assert(record.reverse().take(0) =~= Seq::<u64>::empty());
        }
    }
}

/// A record that reads the same from both ends comes out last word first as
/// well: read number `i + 1` gives the word that stands `i` places from the
/// end.
pub proof fn lemma_symmetric_record_read_backwards(cache: CacheView, record: Seq<u64>, i: nat)
    requires
        record.len() <= u64::MAX,
        record == record.reverse(),
        i < record.len(),
    ensures
        cache.record_accepted(record).fetched().0 == Ok::<u64, HostError>(record.len() as u64),
        cache.record_accepted(record).after_reads(i + 1).fetched().0 == Ok::<u64, HostError>(
            record[record.len() - 1 - i],
        ),
{
    lemma_record_read_in_order(cache, record, i);
    assert(record.reverse()[i as int] == record[record.len() - 1 - i]);
}

} // verus!
