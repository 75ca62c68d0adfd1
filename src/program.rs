//! A compiled program and the memory entries it occupies.
use crate::error::Error;
use crate::field::field_modulus;
use crate::public_input::MemoryEntry;
use crate::uint::Uint256;
use crate::word::Word;
use vstd::prelude::*;
use vstd::utf8::encode_utf8;

verus! {

/// A program's words and the field it was compiled for (`prime`, as hex).
#[derive(Clone, Debug)]
pub struct CompiledProgram {
    pub data: Vec<Uint256>,
    pub prime: String,
}

/// An ASCII byte in lower case.
pub open spec fn ascii_lower(c: u8) -> u8 {
    if 65 <= c <= 90 { (c + 32) as u8 } else { c }
}

/// Hex digit `i` of the field's modulus, `0x800000000000011` followed by 47
/// zeros and a one.
pub open spec fn modulus_digit(i: int) -> u8 {
    if i == 0 {
        56u8
    } else if i == 13 || i == 14 || i == 62 {
        49u8
    } else {
        48u8
    }
}

/// The text is the field's modulus in hex, `0x` first, in any case.
pub open spec fn names_modulus(s: Seq<u8>) -> bool {
    &&& s.len() == 65
    &&& s[0] == 48u8
    &&& ascii_lower(s[1]) == 120u8
    &&& forall|i: int| 0 <= i < 63 ==> ascii_lower(#[trigger] s[i + 2]) == modulus_digit(i)
}

fn lower(c: u8) -> (r: u8)
    ensures
        r == ascii_lower(c),
{
    if 65 <= c && c <= 90 { c + 32 } else { c }
}

impl CompiledProgram {
    /// Whether the program was compiled for the field's modulus.
    pub fn validate(&self) -> (r: bool)
        ensures
            r == names_modulus(encode_utf8(self.prime@)),
    {
        let b = self.prime.as_str().as_bytes();
        if b.len() != 65 || b[0] != 48 || lower(b[1]) != 120 {
            return false;
        }
        let mut i: usize = 0;
        while i < 63
            invariant
                b@ == encode_utf8(self.prime@),
                b@.len() == 65,
                i <= 63,
                forall|j: int| 0 <= j < i ==> ascii_lower(#[trigger] b@[j + 2]) == modulus_digit(j),
            decreases 63 - i,
        {
            let d: u8 = if i == 0 {
                56
            } else if i == 13 || i == 14 || i == 62 {
                49
            } else {
                48
            };
            if lower(b[i + 2]) != d {
                return false;
            }
            i = i + 1;
        }
        true
    }

    /// The program's words as memory entries from address 1 on (address 0 is
    /// kept for dummy accesses), each value as a field element.
    pub fn program_memory(&self) -> (r: Result<Vec<MemoryEntry<Uint256>>, Error>)
        ensures
            !names_modulus(encode_utf8(self.prime@)) ==> r == Err::<Vec<MemoryEntry<Uint256>>, Error>(Error::UnexpectedModulus),
            names_modulus(encode_utf8(self.prime@)) && self.data@.len() >= u32::MAX ==> r == Err::<Vec<MemoryEntry<Uint256>>, Error>(Error::InvalidAddress),
            r is Ok <==> names_modulus(encode_utf8(self.prime@)) && self.data@.len() < u32::MAX,
            r matches Ok(v) ==> v@.len() == self.data@.len() && forall|i: int| 0 <= i < v@.len() ==> {
                &&& (#[trigger] v@[i]).address == i + 1
                &&& v@[i].value.val() == self.data@[i].val() % field_modulus()
            },
    {
        if !self.validate() {
            return Err(Error::UnexpectedModulus);
        }
        if self.data.len() >= u32::MAX as usize {
            return Err(Error::InvalidAddress);
        }
        let mut out: Vec<MemoryEntry<Uint256>> = Vec::new();
        let mut i: usize = 0;
        while i < self.data.len()
            invariant
                self.data@.len() < u32::MAX,
                i <= self.data@.len(),
                out@.len() == i,
                forall|j: int| 0 <= j < i ==> {
                    &&& (#[trigger] out@[j]).address == j + 1
                    &&& out@[j].value.val() == self.data@[j].val() % field_modulus()
                },
            decreases self.data@.len() - i,
        {
            out.push(MemoryEntry { address: i as u32 + 1, value: Word::new(self.data[i]).into_felt() });
            i = i + 1;
        }
        Ok(out)
    }
}

} // verus!
