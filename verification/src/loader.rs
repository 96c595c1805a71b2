//! The loader: a byte stream read as big-endian 32-bit words.

use vstd::prelude::*;

verus! {

/// A byte stream that does not consist of whole words.
#[derive(Clone, Copy, Debug, PartialEq, Eq, Structural)]
pub struct LoadError {
    /// The length of the rejected stream, which is not a multiple of four.
    pub length: usize,
}

/// The word whose four bytes are, from the most significant down, `b0` to `b3`.
pub open spec fn word_of(b0: u8, b1: u8, b2: u8, b3: u8) -> u32 {
    (b0 as int * 0x100_0000 + b1 as int * 0x1_0000 + b2 as int * 0x100 + b3 as int) as u32
}

/// The words of a byte stream: word `i` is made of bytes `4 * i` to `4 * i + 3`.
pub open spec fn words_of(bytes: Seq<u8>) -> Seq<u32> {
    Seq::new(
        bytes.len() / 4,
        |i: int| word_of(bytes[4 * i], bytes[4 * i + 1], bytes[4 * i + 2], bytes[4 * i + 3]),
    )
}

proof fn lemma_word_of_bits(b0: u8, b1: u8, b2: u8, b3: u8)
    ensures
        (b0 as u32) << 24 | (b1 as u32) << 16 | (b2 as u32) << 8 | (b3 as u32) == word_of(b0, b1, b2, b3),
{
    assert((b0 as u32) << 24 | (b1 as u32) << 16 | (b2 as u32) << 8 | (b3 as u32)
        == (b0 as u32) * 0x100_0000 + (b1 as u32) * 0x1_0000 + (b2 as u32) * 0x100 + (b3 as u32))
        by (bit_vector);
}

/// Reads a program image.
///
/// A stream of whole words yields those words in order; a stream of any
/// other length is rejected, and the error carries its length.
pub fn from_bytes(buf: &[u8]) -> (r: Result<Vec<u32>, LoadError>)
    ensures
        match r {
            Ok(words) => buf@.len() % 4 == 0 && words@ == words_of(buf@),
            Err(e) => buf@.len() % 4 != 0 && e.length == buf@.len(),
        },
{
    let len: usize = buf.len();
    if len % 4 != 0 {
        return Err(LoadError { length: len });
    }
    let count: usize = len / 4;
    let mut v: Vec<u32> = Vec::with_capacity(count);
    let mut i: usize = 0;
    while i < count
        invariant
            len == buf@.len(),
            count == len / 4,
            i <= count,
            v@.len() == i,
            forall|k: int| 0 <= k < i ==> v@[k] == #[trigger] words_of(buf@)[k],
        decreases count - i,
    {
        let b0: u8 = buf[4 * i];
        let b1: u8 = buf[4 * i + 1];
        let b2: u8 = buf[4 * i + 2];
        let b3: u8 = buf[4 * i + 3];
        let word: u32 = (b0 as u32) << 24 | (b1 as u32) << 16 | (b2 as u32) << 8 | (b3 as u32);
        proof {
            lemma_word_of_bits(b0, b1, b2, b3);
        }
        v.push(word);
        i = i + 1;
    }
    Ok(v)
}

} // verus!
