//! The byte image of a buffer of integer codes, as it is handed to the
//! graphics device.

use vstd::prelude::*;

verus! {

/// Byte `k` of a 32-bit word, byte 0 being the least significant.
pub open spec fn byte_of(word: u32, k: int) -> int {
    if k == 0 {
        word as int % 256
    } else if k == 1 {
        (word as int / 256) % 256
    } else if k == 2 {
        (word as int / 65536) % 256
    } else {
        word as int / 16777216
    }
}

/// Every word occupies four consecutive bytes, least significant first.
pub open spec fn little_endian(words: Seq<u32>, bytes: Seq<u8>) -> bool {
    forall|i: int, k: int|
        0 <= i < words.len() && 0 <= k < 4 ==> bytes[4 * i + k] == #[trigger] byte_of(
            words[i],
            k,
        )
}

/// Every word occupies four consecutive bytes, most significant first.
pub open spec fn big_endian(words: Seq<u32>, bytes: Seq<u8>) -> bool {
    forall|i: int, k: int|
        0 <= i < words.len() && 0 <= k < 4 ==> bytes[4 * i + (3 - k)] == #[trigger] byte_of(
            words[i],
            k,
        )
}

/// The bytes are the words as the machine keeps them in memory: four bytes
/// per word, in order, all words in one and the same byte order.
pub open spec fn native_layout(words: Seq<u32>, bytes: Seq<u8>) -> bool {
    &&& bytes.len() == 4 * words.len()
    &&& little_endian(words, bytes) || big_endian(words, bytes)
}

/// Reinterprets the words as bytes with `bytemuck::cast_slice` and copies
/// them out.
///
/// Not proved: that the cast yields the memory image of the words, which is
/// four bytes per word in the byte order of the machine. The cast cannot
/// fail here, since bytes need no alignment and every word is a whole number
/// of bytes.
#[verifier::external_body]
pub(crate) fn words_as_bytes(words: &Vec<u32>) -> (bytes: Vec<u8>)
    ensures
        native_layout(words@, bytes@),
{
    bytemuck::cast_slice::<u32, u8>(words.as_slice()).to_vec()
}

} // verus!
