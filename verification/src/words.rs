//! Little-endian packing of 64-bit words into byte strings.
//!
//! Every value that crosses the word-at-a-time boundary is cut into words of
//! eight bytes, least significant byte first, and the word at the lowest
//! offset travels first.

use vstd::prelude::*;
use vstd::bytes::*;
use vstd::slice::slice_subrange;

verus! {

/// The word held in the eight bytes of `bytes` that start at byte `8 * i`.
pub open spec fn word_at(bytes: Seq<u8>, i: int) -> u64 {
    spec_u64_from_le_bytes(bytes.subrange(8 * i, 8 * i + 8))
}

/// The words that `bytes` is made of, lowest offset first.
pub open spec fn words_of(bytes: Seq<u8>) -> Seq<u64> {
    Seq::new((bytes.len() / 8) as nat, |i: int| word_at(bytes, i))
}

/// The bytes that a sequence of words occupies, eight per word.
pub open spec fn bytes_of(words: Seq<u64>) -> Seq<u8> {
    Seq::new(8 * words.len(), |j: int| spec_u64_to_le_bytes(words[j / 8])[j % 8])
}

/// `bytes` with the bytes from offset `at` on replaced by `patch`.
pub open spec fn overwrite(bytes: Seq<u8>, at: int, patch: Seq<u8>) -> Seq<u8> {
    Seq::new(
        bytes.len(),
        |j: int| if at <= j < at + patch.len() { patch[j - at] } else { bytes[j] },
    )
}

/// Cutting a byte string into words and laying the words out again gives the
/// byte string back, provided it consists of whole words.
pub proof fn lemma_bytes_of_words_of(bytes: Seq<u8>)
    requires
        bytes.len() % 8 == 0,
    ensures
        bytes_of(words_of(bytes)) == bytes,
{
    lemma_auto_spec_u64_to_from_le_bytes();
    let back = bytes_of(words_of(bytes));
    assert(back.len() == bytes.len());
    assert forall|j: int| 0 <= j < bytes.len() implies back[j] == bytes[j] by {
        let i = j / 8;
        let chunk = bytes.subrange(8 * i, 8 * i + 8);
        assert(chunk.len() == 8);
        assert(spec_u64_to_le_bytes(spec_u64_from_le_bytes(chunk)) == chunk);
        assert(chunk[j % 8] == bytes[j]);
    }
    assert(back =~= bytes);
}

/// Laying words out as bytes and cutting the bytes into words again gives the
/// words back.
pub proof fn lemma_words_of_bytes_of(words: Seq<u64>)
    ensures
        bytes_of(words).len() == 8 * words.len(),
        words_of(bytes_of(words)) == words,
{
    lemma_auto_spec_u64_to_from_le_bytes();
    let bytes = bytes_of(words);
    let back = words_of(bytes);
    assert(back.len() == words.len());
    assert forall|i: int| 0 <= i < words.len() implies back[i] == words[i] by {
        let chunk = bytes.subrange(8 * i, 8 * i + 8);
        let le = spec_u64_to_le_bytes(words[i]);
        assert(le.len() == 8);
        assert forall|k: int| 0 <= k < 8 implies chunk[k] == le[k] by {
            assert((8 * i + k) / 8 == i);
            assert((8 * i + k) % 8 == k);
        }
        assert(chunk =~= le);
    }
    assert(back =~= words);
}

/// Reads the word at word offset `i` of a 32-byte value.
pub fn read_word(bytes: &[u8; 32], i: usize) -> (word: u64)
    requires
        i < 4,
    ensures
        word == word_at(bytes@, i as int),
{
    u64_from_le_bytes(slice_subrange(bytes.as_slice(), 8 * i, 8 * i + 8))
}

/// Cuts a 32-byte value into its four words.
pub fn split_words(bytes: &[u8; 32]) -> (words: [u64; 4])
    ensures
        words@ == words_of(bytes@),
{
    let words = [read_word(bytes, 0), read_word(bytes, 1), read_word(bytes, 2), read_word(bytes, 3)];
    assert(words@ =~= words_of(bytes@));
    words
}

/// Copies a vector of 32 bytes into an array.
pub fn to_array(bytes: &Vec<u8>) -> (out: [u8; 32])
    requires
        bytes.len() == 32,
    ensures
        out@ == bytes@,
{
    let mut out = [0u8; 32];
    let mut i: usize = 0;
    while i < 32
        invariant
            i <= 32,
            bytes.len() == 32,
            forall|j: int| 0 <= j < i ==> out@[j] == bytes@[j],
        decreases 32 - i,
    {
        out[i] = bytes[i];
        i = i + 1;
    }
    assert(out@ =~= bytes@);
    out
}

} // verus!
