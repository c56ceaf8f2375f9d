//! What the library asks of the host.
//!
//! The Merkle tree and the record store live on the other side of the call
//! boundary. The library never reaches them itself: where an operation needs
//! the host, it hands its caller one of the four requests below, and the
//! caller brings the host's answer back. A request is made at the moment at
//! which the last word that it needs has arrived, and at no other.

use vstd::prelude::*;

verus! {

/// Asks the host to store `leaf` at position `index` of the tree with root
/// `root`. The answer is the root of the tree that results.
#[derive(Debug, Clone, Copy, PartialEq, Eq)]
pub struct LeafUpdate {
    pub root: [u8; 32],
    pub index: u64,
    pub leaf: [u8; 32],
}

/// Asks the host for the leaf at position `index` of the tree with root
/// `root`. The answer is the 32 bytes of that leaf.
#[derive(Debug, Clone, Copy, PartialEq, Eq)]
pub struct LeafQuery {
    pub root: [u8; 32],
    pub index: u64,
}

/// Asks the host for the record stored under `key`. The answer is the words
/// of the record.
#[derive(Debug, Clone, Copy, PartialEq, Eq)]
pub struct RecordQuery {
    pub key: [u8; 32],
}

/// Asks the host to store the words `data` under `key`. There is no answer.
#[derive(Debug, PartialEq, Eq)]
pub struct RecordUpdate {
    pub key: [u8; 32],
    pub data: Vec<u64>,
}

/// What a [`LeafUpdate`] holds, as a mathematical value.
pub struct LeafUpdateView {
    pub root: Seq<u8>,
    pub index: u64,
    pub leaf: Seq<u8>,
}

/// What a [`LeafQuery`] holds, as a mathematical value.
pub struct LeafQueryView {
    pub root: Seq<u8>,
    pub index: u64,
}

/// What a [`RecordQuery`] holds, as a mathematical value.
pub struct RecordQueryView {
    pub key: Seq<u8>,
}

/// What a [`RecordUpdate`] holds, as a mathematical value.
pub struct RecordUpdateView {
    pub key: Seq<u8>,
    pub data: Seq<u64>,
}

impl View for LeafUpdate {
    type V = LeafUpdateView;

    open spec fn view(&self) -> LeafUpdateView {
        LeafUpdateView { root: self.root@, index: self.index, leaf: self.leaf@ }
    }
}

impl View for LeafQuery {
    type V = LeafQueryView;

    open spec fn view(&self) -> LeafQueryView {
        LeafQueryView { root: self.root@, index: self.index }
    }
}

impl View for RecordQuery {
    type V = RecordQueryView;

    open spec fn view(&self) -> RecordQueryView {
        RecordQueryView { key: self.key@ }
    }
}

impl View for RecordUpdate {
    type V = RecordUpdateView;

    open spec fn view(&self) -> RecordUpdateView {
        RecordUpdateView { key: self.key@, data: self.data@ }
    }
}

} // verus!
