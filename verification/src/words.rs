//! Packing a byte stream into 32-bit words.
//!
//! Shader bytecode arrives as raw bytes whose length must be a whole number
//! of words; anything else is a fatal misread of the file.

use vstd::prelude::*;

verus! {

/// The byte stream does not hold a whole number of words.
#[derive(Clone, Copy, PartialEq, Eq, Structural, Debug)]
pub enum WordsError {
    UnevenLength,
}

/// The 32-bit word laid down by four bytes, least significant byte first.
pub open spec fn word_of(b0: u8, b1: u8, b2: u8, b3: u8) -> u32 {
    (b0 + b1 * 0x100 + b2 * 0x10000 + b3 * 0x1000000) as u32
}

/// Pack the byte stream into 32-bit words, four bytes each, least
/// significant byte first. Fails exactly when the length is not a multiple
/// of four.
pub fn words_from_bytes(bytes: &Vec<u8>) -> (r: Result<Vec<u32>, WordsError>)
    ensures
        (r is Ok) <==> bytes@.len() % 4 == 0,
        r matches Err(e) ==> e == WordsError::UnevenLength,
        r matches Ok(words) ==> {
            &&& words@.len() == bytes@.len() / 4
            &&& forall|i: int|
                0 <= i < words@.len() ==> #[trigger] words@[i] == word_of(
                    bytes@[4 * i],
                    bytes@[4 * i + 1],
                    bytes@[4 * i + 2],
                    bytes@[4 * i + 3],
                )
        },
{
    let n = bytes.len();
    if n % 4 != 0 {
        return Err(WordsError::UnevenLength);
    }
    let count = n / 4;
    let mut words: Vec<u32> = Vec::new();
    let mut i: usize = 0;
    while i < count
        invariant
            0 <= i <= count,
            count == bytes@.len() / 4,
            bytes@.len() % 4 == 0,
            bytes@.len() <= usize::MAX,
            words@.len() == i,
            forall|k: int|
                0 <= k < i ==> #[trigger] words@[k] == word_of(
                    bytes@[4 * k],
                    bytes@[4 * k + 1],
                    bytes@[4 * k + 2],
                    bytes@[4 * k + 3],
                ),
        decreases count - i,
    {
        proof {
            assert(4 * (i as int) + 3 < bytes@.len()) by (nonlinear_arith)
                requires
                    0 <= i < bytes@.len() / 4,
                    bytes@.len() % 4 == 0,
            {
            }
        }
        let base = 4 * i;
        let b0 = bytes[base];
        let b1 = bytes[base + 1];
        let b2 = bytes[base + 2];
        let b3 = bytes[base + 3];
        let w = (b0 as u32) + (b1 as u32) * 0x100 + (b2 as u32) * 0x10000 + (b3 as u32)
            * 0x1000000;
        words.push(w);
        i += 1;
    }
    Ok(words)
}

} // verus!
