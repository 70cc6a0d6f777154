//! Reading a program image: a flat byte stream of even length,
//! little-endian 16-bit words in order.

use vstd::prelude::*;

use crate::vm::Error;

verus! {

/// The words an even-length byte stream denotes: byte pairs in order,
/// low byte first.
pub open spec fn spec_words_of(bytes: Seq<u8>) -> Seq<u16> {
    Seq::new((bytes.len() / 2) as nat, |i: int| (bytes[2 * i] + 256 * bytes[2 * i + 1]) as u16)
}

/// Interpret a byte stream as little-endian words; an odd length is a
/// load-time failure.
pub fn read_binary(binary: &[u8]) -> (r: Result<Vec<u16>, Error>)
    ensures
        binary@.len() % 2 != 0 ==> r == Err::<Vec<u16>, Error>(Error::BadBinary),
        binary@.len() % 2 == 0 ==> (r matches Ok(v) && v@ == spec_words_of(binary@)),
{
    if binary.len() % 2 != 0 {
        return Err(Error::BadBinary);
    }
    let mut words: Vec<u16> = Vec::new();
    let mut i: usize = 0;
    while i + 1 < binary.len()
        invariant
            binary@.len() % 2 == 0,
            i % 2 == 0,
            i <= binary@.len(),
            words@.len() == i / 2,
            forall|j: int| 0 <= j < i / 2 ==> words@[j] == spec_words_of(binary@)[j],
        decreases binary@.len() - i,
    {
        let w = binary[i] as u16 + 256 * (binary[i + 1] as u16);
        words.push(w);
        i = i + 2;
    }
    proof {
        assert(words@ =~= spec_words_of(binary@));
    }
    Ok(words)
}

} // verus!
