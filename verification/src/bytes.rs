//! 32-bit words as bytes, in either byte order.
//!
//! Dimension prefixes of auxiliary buffers are big-endian; payload words are
//! laid out as the machine holds them in memory. Both orders are therefore
//! described here, and everything that depends on the machine's own order is
//! stated for either.

use vstd::prelude::*;

verus! {

/// The order in which the four bytes of a word are written.
#[derive(Debug, Clone, Copy, PartialEq, Eq, Structural)]
pub enum ByteOrder {
    /// Least significant byte first.
    Little,
    /// Most significant byte first.
    Big,
}

/// The four bytes of `x`, most significant first.
pub open spec fn be_bytes(x: u32) -> Seq<u8> {
    seq![
        (x / 0x100_0000) as u8,
        ((x / 0x1_0000) % 0x100) as u8,
        ((x / 0x100) % 0x100) as u8,
        (x % 0x100) as u8,
    ]
}

/// The four bytes of `x`, least significant first.
pub open spec fn le_bytes(x: u32) -> Seq<u8> {
    seq![
        (x % 0x100) as u8,
        ((x / 0x100) % 0x100) as u8,
        ((x / 0x1_0000) % 0x100) as u8,
        (x / 0x100_0000) as u8,
    ]
}

/// The four bytes of `x` in the given order.
pub open spec fn word_bytes(x: u32, order: ByteOrder) -> Seq<u8> {
    match order {
        ByteOrder::Little => le_bytes(x),
        ByteOrder::Big => be_bytes(x),
    }
}

/// The word whose bytes in the given order are the first four of `b`.
pub open spec fn word_of(b: Seq<u8>, order: ByteOrder) -> u32 {
    match order {
        ByteOrder::Little => (b[0] + b[1] * 0x100 + b[2] * 0x1_0000 + b[3] * 0x100_0000) as u32,
        ByteOrder::Big => (b[3] + b[2] * 0x100 + b[1] * 0x1_0000 + b[0] * 0x100_0000) as u32,
    }
}

/// The bytes of each word in turn, four per word.
pub open spec fn words_bytes(words: Seq<u32>, order: ByteOrder) -> Seq<u8>
    decreases words.len(),
{
    if words.len() == 0 {
        Seq::<u8>::empty()
    } else {
        words_bytes(words.drop_last(), order) + word_bytes(words.last(), order)
    }
}

/// The words held by `bytes`, four bytes each; a tail shorter than four bytes
/// is ignored.
pub open spec fn words_of(bytes: Seq<u8>, order: ByteOrder) -> Seq<u32> {
    Seq::new((bytes.len() / 4) as nat, |i: int| word_of(bytes.subrange(4 * i, 4 * i + 4), order))
}

/// Reading back the bytes of a word gives the word.
pub proof fn lemma_word_round_trip(x: u32, order: ByteOrder)
    ensures
        word_bytes(x, order).len() == 4,
        word_of(word_bytes(x, order), order) == x,
{
}

/// `words_bytes` writes four bytes per word, and the bytes of word `i` stand
/// at offset `4 * i`.
pub proof fn lemma_words_bytes_layout(words: Seq<u32>, order: ByteOrder)
    ensures
        words_bytes(words, order).len() == 4 * words.len(),
        forall|i: int|
            0 <= i < words.len() ==> #[trigger] words_bytes(words, order).subrange(
                4 * i,
                4 * i + 4,
            ) == word_bytes(words[i], order),
    decreases words.len(),
{
    if words.len() > 0 {
        let front = words.drop_last();
        lemma_words_bytes_layout(front, order);
        let all = words_bytes(words, order);
        let head = words_bytes(front, order);
        assert(word_bytes(words.last(), order).len() == 4);
        assert forall|i: int| 0 <= i < words.len() implies #[trigger] all.subrange(
            4 * i,
            4 * i + 4,
        ) == word_bytes(words[i], order) by {
            if i < front.len() {
                assert(head.subrange(4 * i, 4 * i + 4) == word_bytes(front[i], order));
                assert(all.subrange(4 * i, 4 * i + 4) =~= head.subrange(4 * i, 4 * i + 4));
            } else {
                assert(all.subrange(4 * i, 4 * i + 4) =~= word_bytes(words.last(), order));
            }
        }
    }
}

/// Words written as bytes and read back in the same order are unchanged.
pub proof fn lemma_words_round_trip(words: Seq<u32>, order: ByteOrder)
    ensures
        words_of(words_bytes(words, order), order) == words,
{
    lemma_words_bytes_layout(words, order);
    let bytes = words_bytes(words, order);
    assert forall|i: int| 0 <= i < words.len() implies words_of(bytes, order)[i] == words[i] by {
        assert(bytes.subrange(4 * i, 4 * i + 4) == word_bytes(words[i], order));
        lemma_word_round_trip(words[i], order);
    }
    assert(words_of(bytes, order) =~= words);
}

/// Bytes of all-zero words are all zero, in either order.
pub proof fn lemma_zero_words_bytes(words: Seq<u32>, order: ByteOrder)
    requires
        forall|i: int| 0 <= i < words.len() ==> words[i] == 0,
    ensures
        words_bytes(words, order) == Seq::new(4 * words.len(), |i: int| 0u8),
    decreases words.len(),
{
    if words.len() > 0 {
        lemma_zero_words_bytes(words.drop_last(), order);
        lemma_words_bytes_layout(words.drop_last(), order);
        assert(words.last() == 0);
    }
    assert(words_bytes(words, order) =~= Seq::new(4 * words.len(), |i: int| 0u8));
}

/// Appends the four bytes of `x`, most significant first.
pub fn push_be_bytes(out: &mut Vec<u8>, x: u32)
    ensures
        final(out)@ == old(out)@ + be_bytes(x),
{
    out.push((x / 0x100_0000) as u8);
    out.push(((x / 0x1_0000) % 0x100) as u8);
    out.push(((x / 0x100) % 0x100) as u8);
    out.push((x % 0x100) as u8);
    assert(out@ =~= old(out)@ + be_bytes(x));
}

/// Appends every byte of `tail` to `out`.
pub fn push_all(out: &mut Vec<u8>, tail: &Vec<u8>)
    ensures
        final(out)@ == old(out)@ + tail@,
{
    let n = tail.len();
    let mut i: usize = 0;
    while i < n
        invariant
            n == tail@.len(),
            i <= n,
            out@ == old(out)@ + tail@.subrange(0, i as int),
        decreases n - i,
    {
        out.push(tail[i]);
        assert(out@ =~= old(out)@ + tail@.subrange(0, i + 1));
        i += 1;
    }
    assert(tail@.subrange(0, n as int) =~= tail@);
}

/// The memory image of `words`, as `bytemuck::cast_slice` gives it for a slice
/// of `u32` read as `u8`: four bytes per word, in the byte order of the
/// machine that runs the call. The contract claims that this image is the
/// little-endian or the big-endian layout of the words, which is all that can
/// be said without knowing the machine.
#[verifier::external_body]
pub(crate) fn words_as_native_bytes(words: &Vec<u32>) -> (bytes: Vec<u8>)
    ensures
        bytes@ == words_bytes(words@, ByteOrder::Little) || bytes@ == words_bytes(
            words@,
            ByteOrder::Big,
        ),
{
    bytemuck::cast_slice::<u32, u8>(words.as_slice()).to_vec()
}

} // verus!
