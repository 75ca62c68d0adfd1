//! Witness generation for a Cairo-style virtual machine: trace and memory
//! decoding, the instruction word model, the public input and its flat
//! verifier encoding, and the ECDSA builtin's double-and-add trace.
use vstd::prelude::*;

pub mod aux_input;
pub mod curve;
pub mod ecdsa;
pub mod error;
pub mod field;
pub mod layout;
pub mod memory;
pub mod program;
pub mod public_input;
pub mod uint;
pub mod word;

verus! {

} // verus!
