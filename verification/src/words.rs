//! The bytes of 32-bit words as the GPU reads them.
//!
//! Instance data reaches the GPU as the memory image of an array of 32-bit
//! words, so a word's bytes come in the byte order of the machine. Nothing
//! here assumes which order that is: what is said of a memory image is said
//! for both.

use vstd::prelude::*;

verus! {

/// The order in which the bytes of a word lie in memory.
#[derive(Clone, Copy, Debug, PartialEq, Eq)]
pub enum ByteOrder {
    /// Least significant byte first.
    Little,
    /// Most significant byte first.
    Big,
}

/// Byte `k` of `word`, counted from the least significant byte.
pub open spec fn significance_byte(word: u32, k: int) -> u8 {
    if k == 0 {
        (word & 0xff) as u8
    } else if k == 1 {
        ((word >> 8) & 0xff) as u8
    } else if k == 2 {
        ((word >> 16) & 0xff) as u8
    } else {
        ((word >> 24) & 0xff) as u8
    }
}

/// Byte `k` of `word` in memory, for `0 <= k < 4`.
pub open spec fn word_byte(word: u32, k: int, order: ByteOrder) -> u8 {
    match order {
        ByteOrder::Little => significance_byte(word, k),
        ByteOrder::Big => significance_byte(word, 3 - k),
    }
}

/// The memory image of a sequence of words: four bytes per word, words in
/// order.
pub open spec fn words_bytes(words: Seq<u32>, order: ByteOrder) -> Seq<u8> {
    Seq::new(4 * words.len(), |i: int| word_byte(words[i / 4], i % 4, order))
}

/// Whether `bytes` is the memory image of `words` in one of the two byte
/// orders.
pub open spec fn is_image_of(bytes: Seq<u8>, words: Seq<u32>) -> bool {
    bytes == words_bytes(words, ByteOrder::Little) || bytes == words_bytes(words, ByteOrder::Big)
}

/// The word whose bytes, from least to most significant, are `b0..b3`.
pub open spec fn word_of(b0: u8, b1: u8, b2: u8, b3: u8) -> u32 {
    (b0 as u32) | ((b1 as u32) << 8) | ((b2 as u32) << 16) | ((b3 as u32) << 24)
}

/// The word stored at word index `i` of a memory image.
pub open spec fn read_word(bytes: Seq<u8>, i: int, order: ByteOrder) -> u32 {
    match order {
        ByteOrder::Little => word_of(
            bytes[4 * i],
            bytes[4 * i + 1],
            bytes[4 * i + 2],
            bytes[4 * i + 3],
        ),
        ByteOrder::Big => word_of(
            bytes[4 * i + 3],
            bytes[4 * i + 2],
            bytes[4 * i + 1],
            bytes[4 * i],
        ),
    }
}

/// The words stored in a memory image whose length is a multiple of four.
pub open spec fn bytes_words(bytes: Seq<u8>, order: ByteOrder) -> Seq<u32> {
    Seq::new(bytes.len() / 4, |i: int| read_word(bytes, i, order))
}

/// A word is the combination of its four bytes.
pub proof fn lemma_word_of_bytes(word: u32)
    ensures
        word_of(
            significance_byte(word, 0),
            significance_byte(word, 1),
            significance_byte(word, 2),
            significance_byte(word, 3),
        ) == word,
{
    assert(((word & 0xff) as u8 as u32) | ((((word >> 8) & 0xff) as u8 as u32) << 8) | ((((word
        >> 16) & 0xff) as u8 as u32) << 16) | ((((word >> 24) & 0xff) as u8 as u32) << 24) == word)
        by (bit_vector);
}

/// Reading back the memory image of a sequence of words, in the byte order
/// in which it was written, gives the same words.
pub proof fn lemma_words_roundtrip(words: Seq<u32>, order: ByteOrder)
    ensures
        words_bytes(words, order).len() == 4 * words.len(),
        bytes_words(words_bytes(words, order), order) == words,
{
    let bytes = words_bytes(words, order);
    assert forall|i: int| 0 <= i < words.len() implies read_word(bytes, i, order)
        == words[i] by {
        lemma_word_of_bytes(words[i]);
        assert(bytes[4 * i] == word_byte(words[i], 0, order));
        assert(bytes[4 * i + 1] == word_byte(words[i], 1, order));
        assert(bytes[4 * i + 2] == word_byte(words[i], 2, order));
        assert(bytes[4 * i + 3] == word_byte(words[i], 3, order));
    }
    assert(bytes_words(bytes, order) =~= words);
}

/// `bytemuck::cast_slice` from `u32` to `u8`: the same memory seen as bytes.
/// The cast cannot fail in this direction, since a byte needs no alignment
/// and any number of words is a whole number of bytes. The result is copied
/// out, so it holds four bytes per word, in the byte order of the machine,
/// which is one of the two.
#[verifier::external_body]
pub(crate) fn cast_words(words: &[u32]) -> (bytes: Vec<u8>)
    ensures
        is_image_of(bytes@, words@),
{
    bytemuck::cast_slice::<u32, u8>(words).to_vec()
}

} // verus!
