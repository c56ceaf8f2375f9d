//! Access to the leaves of a Merkle tree, one word at a time.
//!
//! The tree itself is kept by the host; all that is kept here is its current
//! root. The guest selects a leaf by its address, and then either writes the
//! leaf, four words that make up its 32 bytes, or reads it, four words again.
//! A write goes to the host when its fourth word has arrived, and the root
//! that the host returns takes the place of the current one. The first read
//! after an address has been selected fetches the leaf from the host, and the
//! reads after it are served from that copy.

use vstd::prelude::*;
use crate::accumulator::{AccumulatorView, WordAccumulator, lemma_fed_wf, lemma_four_words};
use crate::error::HostError;
use crate::oracle::{LeafQuery, LeafQueryView, LeafUpdate, LeafUpdateView};
use crate::words::{
    bytes_of, lemma_bytes_of_words_of, read_word, split_words, to_array, word_at, words_of,
};

verus! {

/// The number of levels below the root of the tree.
pub const MERKLE_TREE_HEIGHT: usize = 32;

/// The position of a leaf among all nodes of the tree, counted from the root
/// level by level: the leaves follow the `2^32 - 1` inner nodes. Only the low
/// 32 bits of an address count.
pub open spec fn leaf_index(address: u64) -> u64 {
    ((address as int) % 0x1_0000_0000 + 0xffff_ffff) as u64
}

/// What a read of the selected leaf gives back.
#[derive(Debug, Clone, Copy, PartialEq, Eq)]
pub enum LeafRead {
    /// The next word of the leaf.
    Word(u64),
    /// The leaf has not been fetched yet: this is what to ask the host.
    Query(LeafQuery),
}

/// What a [`LeafRead`] holds, as a mathematical value.
pub enum LeafReadView {
    Word(u64),
    Query(LeafQueryView),
}

impl View for LeafRead {
    type V = LeafReadView;

    open spec fn view(&self) -> LeafReadView {
        match *self {
            LeafRead::Word(word) => LeafReadView::Word(word),
            LeafRead::Query(query) => LeafReadView::Query(query@),
        }
    }
}

/// The outcome of a leaf write, as a mathematical value.
pub open spec fn update_view(request: Result<Option<LeafUpdate>, HostError>) -> Result<
    Option<LeafUpdateView>,
    HostError,
> {
    match request {
        Ok(Some(update)) => Ok(Some(update@)),
        Ok(None) => Ok(None),
        Err(error) => Err(error),
    }
}

/// The outcome of a leaf read, as a mathematical value.
pub open spec fn read_view(read: Result<LeafRead, HostError>) -> Result<LeafReadView, HostError> {
    match read {
        Ok(read) => Ok(read@),
        Err(error) => Err(error),
    }
}

/// The outcomes of the four calls that write a leaf when the first three ask
/// nothing of the host and the fourth asks it for `update`.
pub open spec fn write_outcomes(update: LeafUpdateView) -> Seq<
    Result<Option<LeafUpdateView>, HostError>,
> {
    seq![Ok(None), Ok(None), Ok(None), Ok(Some(update))]
}

/// The outcomes of reads that give `words`, one after the other.
pub open spec fn word_reads(words: Seq<u64>) -> Seq<Result<LeafReadView, HostError>> {
    Seq::new(words.len(), |i: int| Ok(LeafReadView::Word(words[i])))
}

/// The state of the guest's dealings with the tree.
pub struct MerkleContext {
    k: u32,
    set_root: WordAccumulator,
    get_root: WordAccumulator,
    address: WordAccumulator,
    set: WordAccumulator,
    data: [u64; 4],
    data_cursor: usize,
    root: [u8; 32],
    used_round: usize,
}

/// What a [`MerkleContext`] holds, as a mathematical value.
pub struct MerkleView {
    /// The size parameter that the context was made with.
    pub k: u32,
    /// Collects the words of a root that the guest sets.
    pub set_root: AccumulatorView,
    /// Counts the words of the root that the guest has read.
    pub get_root: AccumulatorView,
    /// Holds the address that was selected last.
    pub address: AccumulatorView,
    /// Collects the words of a leaf that the guest writes.
    pub set: AccumulatorView,
    /// The words of the leaf that was fetched for reading.
    pub data: Seq<u64>,
    /// The number of words of the selected leaf that have been read.
    pub data_cursor: nat,
    /// The root of the tree as it is now.
    pub root: Seq<u8>,
    /// The number of times an address has been selected.
    pub used_round: nat,
}

impl MerkleView {
    /// What holds of every context: the three accumulators for roots and
    /// leaves take one value of 32 bytes, the one for addresses takes one
    /// word, and no more than the four words of a leaf have been read.
    pub open spec fn wf(self) -> bool {
        &&& self.set_root.wf() && self.set_root.is_bytes(4)
        &&& self.get_root.wf() && self.get_root.is_bytes(4)
        &&& self.set.wf() && self.set.is_bytes(4)
        &&& self.address.wf() && self.address.is_word()
        &&& self.data.len() == 4
        &&& self.data_cursor <= 4
        &&& self.root.len() == 32
        &&& self.used_round <= usize::MAX
    }

    /// The context for the tree whose root is 32 zero bytes, with no address
    /// selected and no word of a root or a leaf taken.
    pub open spec fn initial(k: u32) -> MerkleView {
        MerkleView {
            k,
            set_root: AccumulatorView::bytes32(),
            get_root: AccumulatorView::bytes32(),
            address: AccumulatorView::word(),
            set: AccumulatorView::bytes32(),
            data: Seq::new(4, |i: int| 0u64),
            data_cursor: 0,
            root: Seq::new(32, |i: int| 0u8),
            used_round: 0,
        }
    }

    /// An address has been selected at some time.
    pub open spec fn addressed(self) -> bool {
        self.used_round > 0
    }

    /// The position in the tree of the leaf that is selected.
    pub open spec fn index(self) -> u64 {
        leaf_index(self.address.latest()->value)
    }

    /// The context after the guest has sent one word of a new root: the
    /// fourth word of a root puts that root in the place of the current one.
    pub open spec fn root_fed(self, word: u64) -> MerkleView {
        let set_root = self.set_root.fed(word);
        MerkleView {
            set_root,
            root: if self.set_root.completes() {
                set_root.latest()->bytes
            } else {
                self.root
            },
            ..self
        }
    }

    /// The word of the root that the guest reads next.
    pub open spec fn root_word(self) -> u64 {
        word_at(self.root, self.get_root.offset as int)
    }

    /// The context after the guest has read one word of the root.
    pub open spec fn root_read(self) -> MerkleView {
        MerkleView { get_root: self.get_root.fed(self.root_word()), ..self }
    }

    /// The context after the guest has selected the leaf at `address`: the
    /// copy of the leaf that was read before is dropped, and the selection is
    /// counted. The count stops at the largest number it can hold.
    pub open spec fn address_fed(self, address: u64) -> MerkleView {
        MerkleView {
            address: self.address.fed(address),
            data: Seq::new(4, |i: int| 0u64),
            data_cursor: 0,
            used_round: if self.address.idle() && self.used_round < usize::MAX {
                self.used_round + 1
            } else {
                self.used_round
            },
            ..self
        }
    }

    /// What sending one word of a leaf does: before any address has been
    /// selected it is refused; else the word is taken, and the fourth word of
    /// a leaf gives the request to store that leaf at the selected position
    /// of the current tree.
    pub open spec fn leaf_fed(self, word: u64) -> (
        Result<Option<LeafUpdateView>, HostError>,
        MerkleView,
    ) {
        if !self.addressed() {
            (Err(HostError::PreconditionViolation), self)
        } else {
            let set = self.set.fed(word);
            (
                Ok(
                    if self.set.completes() {
                        Some(
                            LeafUpdateView {
                                root: self.root,
                                index: self.index(),
                                leaf: set.latest()->bytes,
                            },
                        )
                    } else {
                        None
                    },
                ),
                MerkleView { set, ..self },
            )
        }
    }

    /// What sending the four words of `leaf` does: the outcomes of the four
    /// calls, in order, and the context after them.
    pub open spec fn leaf_sent(self, leaf: Seq<u8>) -> (
        Seq<Result<Option<LeafUpdateView>, HostError>>,
        MerkleView,
    ) {
        let words = words_of(leaf);
        let first = self.leaf_fed(words[0]);
        let second = first.1.leaf_fed(words[1]);
        let third = second.1.leaf_fed(words[2]);
        let fourth = third.1.leaf_fed(words[3]);
        (seq![first.0, second.0, third.0, fourth.0], fourth.1)
    }

    /// The context after the host has answered a [`LeafUpdate`] with `root`.
    pub open spec fn root_accepted(self, root: Seq<u8>) -> MerkleView {
        MerkleView { root, ..self }
    }

    /// What reading one word of the selected leaf does. Before any address
    /// has been selected, and after the fourth word, it is refused. The first
    /// read after a selection changes nothing and gives the request for the
    /// leaf; the reads after give the second, third and fourth word.
    pub open spec fn leaf_read(self) -> (Result<LeafReadView, HostError>, MerkleView) {
        if !self.addressed() || self.data_cursor >= 4 {
            (Err(HostError::PreconditionViolation), self)
        } else if self.data_cursor == 0 {
            (Ok(LeafReadView::Query(LeafQueryView { root: self.root, index: self.index() })), self)
        } else {
            (
                Ok(LeafReadView::Word(self.data[self.data_cursor as int])),
                MerkleView { data_cursor: self.data_cursor + 1, ..self },
            )
        }
    }

    /// What the host's answer to a [`LeafQuery`] does: the leaf is kept as
    /// four words and its first word is read. It is refused unless an address
    /// has been selected and no word of its leaf has been read.
    pub open spec fn leaf_accepted(self, leaf: Seq<u8>) -> (Result<u64, HostError>, MerkleView) {
        if !self.addressed() || self.data_cursor != 0 {
            (Err(HostError::PreconditionViolation), self)
        } else {
            (Ok(word_at(leaf, 0)), MerkleView { data: words_of(leaf), data_cursor: 1, ..self })
        }
    }
}

impl MerkleView {
    /// The context after the guest has sent the four words of `root`.
    pub open spec fn root_sent(self, root: Seq<u8>) -> MerkleView {
        let words = words_of(root);
        self.root_fed(words[0]).root_fed(words[1]).root_fed(words[2]).root_fed(words[3])
    }

    /// What reading the root four times does: the four words that the guest
    /// receives, in order, and the context after them.
    pub open spec fn root_streamed(self) -> (Seq<u64>, MerkleView) {
        let second = self.root_read();
        let third = second.root_read();
        let fourth = third.root_read();
        (
            seq![self.root_word(), second.root_word(), third.root_word(), fourth.root_word()],
            fourth.root_read(),
        )
    }

    /// What reading a whole leaf does when the host answers the query with
    /// `leaf`: the outcome of the first read, the four words that the guest
    /// receives, in order, and the context after them.
    pub open spec fn leaf_fetched(self, leaf: Seq<u8>) -> (
        Result<LeafReadView, HostError>,
        Seq<Result<LeafReadView, HostError>>,
        MerkleView,
    ) {
        let asked = self.leaf_read();
        let first = asked.1.leaf_accepted(leaf);
        let second = first.1.leaf_read();
        let third = second.1.leaf_read();
        let fourth = third.1.leaf_read();
        (
            asked.0,
            seq![
                match first.0 {
                    Ok(word) => Ok(LeafReadView::Word(word)),
                    Err(error) => Err(error),
                },
                second.0,
                third.0,
                fourth.0,
            ],
            fourth.1,
        )
    }
}

impl View for MerkleContext {
    type V = MerkleView;

    closed spec fn view(&self) -> MerkleView {
        MerkleView {
            k: self.k,
            set_root: self.set_root@,
            get_root: self.get_root@,
            address: self.address@,
            set: self.set@,
            data: self.data@,
            data_cursor: self.data_cursor as nat,
            root: self.root@,
            used_round: self.used_round as nat,
        }
    }
}

impl MerkleContext {
    /// What every context satisfies, at all times.
    #[verifier::type_invariant]
    pub open spec fn inv(self) -> bool {
        self@.wf()
    }

    /// Makes the context for the tree whose root is 32 zero bytes, with no
    /// address selected. The size parameter `k` is kept and not used.
    pub fn new(k: u32) -> (context: Self)
        ensures
            context@ == MerkleView::initial(k),
            context@.wf(),
    {
        let root = [0u8; 32];
        let data = [0u64; 4];
        assert(root@ =~= Seq::new(32, |i: int| 0u8));
        assert(data@ =~= Seq::new(4, |i: int| 0u64));
        MerkleContext {
            k,
            set_root: WordAccumulator::bytes32(),
            get_root: WordAccumulator::bytes32(),
            address: WordAccumulator::word(),
            set: WordAccumulator::bytes32(),
            data,
            data_cursor: 0,
            root,
            used_round: 0,
        }
    }

    /// The size parameter that the context was made with.
    pub fn k(&self) -> (k: u32)
        ensures
            k == self@.k,
    {
        self.k
    }

    /// The root of the tree as it is now.
    pub fn root(&self) -> (root: [u8; 32])
        ensures
            root@ == self@.root,
    {
        self.root
    }

    /// The number of times an address has been selected.
    pub fn used_round(&self) -> (count: usize)
        ensures
            count == self@.used_round,
    {
        self.used_round
    }

    /// Takes one word of a root that the guest sets. The fourth word of a
    /// root makes it the current root. The host is not asked.
    pub fn merkle_setroot(&mut self, v: u64)
        ensures
            final(self)@ == old(self)@.root_fed(v),
            final(self)@.wf(),
    {
        proof {
            use_type_invariant(&*self);
        }
        let done = self.set_root.feed(v);
        if done {
            self.root = to_array(&self.set_root.current_value_as_bytes().unwrap());
        }
    }

    /// Hands out the root, one word per call: the word at the lowest offset
    /// first, and after the fourth word the first again.
    pub fn merkle_getroot(&mut self) -> (word: u64)
        ensures
            word == old(self)@.root_word(),
            final(self)@ == old(self)@.root_read(),
            final(self)@.wf(),
    {
        proof {
            use_type_invariant(&*self);
        }
        let word = read_word(&self.root, self.get_root.offset());
        self.get_root.feed(word);
        word
    }

    /// Selects the leaf at address `v` for the writes and reads that follow,
    /// and drops what was read of the leaf selected before.
    pub fn merkle_address(&mut self, v: u64)
        ensures
            final(self)@ == old(self)@.address_fed(v),
            final(self)@.wf(),
    {
        proof {
            use_type_invariant(&*self);
        }
        if self.address.cursor() == 0 && self.address.offset() == 0 && self.used_round
            < usize::MAX {
            self.used_round = self.used_round + 1;
        }
        self.data = [0u64; 4];
        self.data_cursor = 0;
        self.address.feed(v);
        assert(self.data@ =~= Seq::new(4, |i: int| 0u64));
    }

    /// The position in the tree of the leaf that is selected.
    fn index(&self) -> (index: u64)
        ensures
            index == self@.index(),
    {
        proof {
            use_type_invariant(self);
        }
        let address = self.address.current_value_as_u64().unwrap();
        address % 0x1_0000_0000 + 0xffff_ffff
    }

    /// Takes one word of a leaf that the guest writes to the selected
    /// address. The fourth word of a leaf gives the request that the caller
    /// is to put to the host; the host's answer goes to
    /// [`accept_root`](Self::accept_root).
    ///
    /// Fails with `PreconditionViolation`, and changes nothing, if no address
    /// has been selected yet.
    pub fn merkle_set(&mut self, v: u64) -> (request: Result<Option<LeafUpdate>, HostError>)
        ensures
            (update_view(request), final(self)@) == old(self)@.leaf_fed(v),
            final(self)@.wf(),
    {
        proof {
            use_type_invariant(&*self);
        }
        if self.used_round == 0 {
            return Err(HostError::PreconditionViolation);
        }
        let done = self.set.feed(v);
        if !done {
            return Ok(None);
        }
        let leaf = to_array(&self.set.current_value_as_bytes().unwrap());
        Ok(Some(LeafUpdate { root: self.root, index: self.index(), leaf }))
    }

    /// Takes the root that the host returned for a [`LeafUpdate`]: it is the
    /// root of the tree from now on.
    pub fn accept_root(&mut self, root: [u8; 32])
        ensures
            final(self)@ == old(self)@.root_accepted(root@),
            final(self)@.wf(),
    {
        proof {
            use_type_invariant(&*self);
        }
        self.root = root;
    }

    /// Reads one word of the selected leaf. The first read after an address
    /// has been selected gives the request that the caller is to put to the
    /// host, whose answer goes to [`accept_leaf`](Self::accept_leaf) and
    /// yields the first word; the next three reads give the other words.
    ///
    /// Fails with `PreconditionViolation`, and changes nothing, if no address
    /// has been selected yet or if all four words have been read.
    pub fn merkle_get(&mut self) -> (read: Result<LeafRead, HostError>)
        ensures
            (read_view(read), final(self)@) == old(self)@.leaf_read(),
            final(self)@.wf(),
    {
        proof {
            use_type_invariant(&*self);
        }
        if self.used_round == 0 || self.data_cursor >= 4 {
            return Err(HostError::PreconditionViolation);
        }
        if self.data_cursor == 0 {
            return Ok(LeafRead::Query(LeafQuery { root: self.root, index: self.index() }));
        }
        let word = self.data[self.data_cursor];
        self.data_cursor = self.data_cursor + 1;
        Ok(LeafRead::Word(word))
    }

    /// Takes the leaf that the host returned for a [`LeafQuery`], keeps it
    /// for the reads that follow, and gives its first word.
    ///
    /// Fails with `PreconditionViolation`, and changes nothing, unless an
    /// address has been selected and no word of its leaf has been read.
    pub fn accept_leaf(&mut self, leaf: [u8; 32]) -> (word: Result<u64, HostError>)
        ensures
            (word, final(self)@) == old(self)@.leaf_accepted(leaf@),
            final(self)@.wf(),
    {
        proof {
            use_type_invariant(&*self);
        }
        if self.used_round == 0 || self.data_cursor != 0 {
            return Err(HostError::PreconditionViolation);
        }
        self.data = split_words(&leaf);
        self.data_cursor = 1;
        Ok(self.data[0])
    }
}

/// A root is set by sending its four words: the root stays as it is through
/// the first three, and is exactly the root that was sent after the fourth.
/// The next word starts the next root.
pub proof fn lemma_root_sent(merkle: MerkleView, root: Seq<u8>)
    requires
        merkle.wf(),
        merkle.set_root.idle(),
        root.len() == 32,
    ensures
        ({
            let words = words_of(root);
            let third = merkle.root_fed(words[0]).root_fed(words[1]).root_fed(words[2]);
            &&& merkle.root_fed(words[0]).root == merkle.root
            &&& merkle.root_fed(words[0]).root_fed(words[1]).root == merkle.root
            &&& third.root == merkle.root
            &&& merkle.root_sent(root).root == root
            &&& merkle.root_sent(root).wf()
            &&& merkle.root_sent(root).set_root.idle()
        }),
{
    lemma_four_words(merkle.set_root, root);
}

/// The root is read in four calls, which give its four words from the lowest
/// offset up, so that they spell the root exactly. The root is not changed by
/// being read, and the call after the fourth gives the first word again.
pub proof fn lemma_root_streamed(merkle: MerkleView)
    requires
        merkle.wf(),
        merkle.get_root.idle(),
    ensures
        merkle.root_streamed().0 == words_of(merkle.root),
        bytes_of(merkle.root_streamed().0) == merkle.root,
        merkle.root_streamed().1.wf(),
        merkle.root_streamed().1.get_root.idle(),
        merkle.root_streamed().1.root == merkle.root,
{
    let root = merkle.root;
    let words = words_of(root);
    let acc = merkle.get_root;
    lemma_four_words(acc, root);
    let second = merkle.root_read();
    let third = second.root_read();
    let fourth = third.root_read();
    assert(second.get_root == acc.fed(words[0]));
    assert(third.get_root == second.get_root.fed(words[1]));
    assert(fourth.get_root == third.get_root.fed(words[2]));
    assert(merkle.root_streamed().0 =~= words);
    lemma_bytes_of_words_of(root);
}

/// For an address that fits in 32 bits, the position of the leaf is the
/// address counted on from the last inner node.
pub proof fn lemma_leaf_index_in_range(address: u64)
    requires
        address < 0x1_0000_0000,
    ensures
        leaf_index(address) == address + 0xffff_ffff,
{
}

/// A leaf is written by selecting its address and sending its four words.
/// The first three words ask nothing of the host; the fourth asks it to store
/// exactly the leaf that was sent, at the position of the selected address,
/// in the tree with the current root. Nothing else changes but the count of
/// selections, and the next word starts the next leaf.
pub proof fn lemma_leaf_sent(merkle: MerkleView, address: u64, leaf: Seq<u8>)
    requires
        merkle.wf(),
        merkle.set.idle(),
        leaf.len() == 32,
    ensures
        ({
            let sent = merkle.address_fed(address).leaf_sent(leaf);
            &&& sent.0 == write_outcomes(
                LeafUpdateView { root: merkle.root, index: leaf_index(address), leaf },
            )
            &&& sent.1.wf()
            &&& sent.1.set.idle()
            &&& sent.1.addressed()
            &&& sent.1.index() == leaf_index(address)
            &&& sent.1.root == merkle.root
            &&& sent.1.set_root == merkle.set_root
            &&& sent.1.get_root == merkle.get_root
            &&& sent.1.data_cursor == 0
        }),
{
    let start = merkle.address_fed(address);
    lemma_fed_wf(merkle.address, address);
    lemma_four_words(start.set, leaf);
    assert(start.leaf_sent(leaf).0 =~= write_outcomes(
        LeafUpdateView { root: merkle.root, index: leaf_index(address), leaf },
    ));
}

/// A leaf is read by selecting its address and reading four times. The
/// first read asks the host for the leaf at the position of the selected
/// address in the tree with the current root, and asks only once; the four
/// words that the guest receives are the words of the leaf that the host
/// returned, in order, so that they spell the leaf exactly. A fifth read is
/// refused.
pub proof fn lemma_leaf_fetched(merkle: MerkleView, address: u64, leaf: Seq<u8>)
    requires
        merkle.wf(),
        leaf.len() == 32,
    ensures
        ({
            let start = merkle.address_fed(address);
            let fetched = start.leaf_fetched(leaf);
            &&& start.leaf_read().1 == start
            &&& fetched.0 == Ok::<LeafReadView, HostError>(
                LeafReadView::Query(
                    LeafQueryView { root: merkle.root, index: leaf_index(address) },
                ),
            )
            &&& fetched.1 == word_reads(words_of(leaf))
            &&& bytes_of(words_of(leaf)) == leaf
            &&& fetched.2.wf()
            &&& fetched.2.root == merkle.root
            &&& fetched.2.leaf_read() == (
                Err::<LeafReadView, HostError>(HostError::PreconditionViolation),
                fetched.2,
            )
        }),
{
    let start = merkle.address_fed(address);
    lemma_fed_wf(merkle.address, address);
    assert(start.leaf_fetched(leaf).1 =~= word_reads(words_of(leaf)));
    lemma_bytes_of_words_of(leaf);
}

/// Writing a leaf and reading it back. The write asks the host to store the
/// leaf in the tree with the current root; once the host's answer is the
/// root, a read at the same address asks for the leaf at the same position
/// of the tree with that new root. If the host returns there what it was
/// given to store, the guest reads the four words that it wrote.
pub proof fn lemma_leaf_round_trip(
    merkle: MerkleView,
    address: u64,
    leaf: Seq<u8>,
    new_root: Seq<u8>,
)
    requires
        merkle.wf(),
        merkle.set.idle(),
        leaf.len() == 32,
        new_root.len() == 32,
    ensures
        ({
            let sent = merkle.address_fed(address).leaf_sent(leaf);
            let fetched = sent.1.root_accepted(new_root).address_fed(address).leaf_fetched(leaf);
            &&& sent.0[3] == Ok::<Option<LeafUpdateView>, HostError>(
                Some(LeafUpdateView { root: merkle.root, index: leaf_index(address), leaf }),
            )
            &&& fetched.0 == Ok::<LeafReadView, HostError>(
                LeafReadView::Query(LeafQueryView { root: new_root, index: leaf_index(address) }),
            )
            &&& fetched.1 == word_reads(words_of(leaf))
            &&& bytes_of(words_of(leaf)) == leaf
        }),
{
    lemma_leaf_sent(merkle, address, leaf);
    let sent = merkle.address_fed(address).leaf_sent(leaf);
    lemma_leaf_fetched(sent.1.root_accepted(new_root), address, leaf);
}

/// The last write wins. A second write is put to the host against the root
/// that the host returned for the first, so the second tree is built on the
/// first; and a read after the second write asks for the leaf in the tree
/// that the host returned for the second.
pub proof fn lemma_second_write_builds_on_first(
    merkle: MerkleView,
    address: u64,
    first: Seq<u8>,
    second: Seq<u8>,
    first_root: Seq<u8>,
    second_root: Seq<u8>,
)
    requires
        merkle.wf(),
        merkle.set.idle(),
        first.len() == 32,
        second.len() == 32,
        first_root.len() == 32,
        second_root.len() == 32,
    ensures
        ({
            let once = merkle.address_fed(address).leaf_sent(first);
            let twice = once.1.root_accepted(first_root).address_fed(address).leaf_sent(second);
            let after = twice.1.root_accepted(second_root).address_fed(address);
            &&& once.0[3] == Ok::<Option<LeafUpdateView>, HostError>(
                Some(
                    LeafUpdateView { root: merkle.root, index: leaf_index(address), leaf: first },
                ),
            )
            &&& twice.0[3] == Ok::<Option<LeafUpdateView>, HostError>(
                Some(
                    LeafUpdateView { root: first_root, index: leaf_index(address), leaf: second },
                ),
            )
            &&& after.leaf_read().0 == Ok::<LeafReadView, HostError>(
                LeafReadView::Query(
                    LeafQueryView { root: second_root, index: leaf_index(address) },
                ),
            )
        }),
{
    lemma_leaf_sent(merkle, address, first);
    let once = merkle.address_fed(address).leaf_sent(first);
    lemma_leaf_sent(once.1.root_accepted(first_root), address, second);
    let twice = once.1.root_accepted(first_root).address_fed(address).leaf_sent(second);
    lemma_leaf_fetched(twice.1.root_accepted(second_root), address, second);
}

} // verus!
