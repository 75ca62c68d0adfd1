//! The circuit layouts, and the verifier's code for each supported one.
use crate::error::Error;
use vstd::prelude::*;

verus! {

/// The verifier's code of the Starknet layout.
pub const SHARP_CODE_STARKNET: u64 = 8319381555716711796;

/// A circuit configuration.
#[derive(Clone, Copy, Debug, PartialEq, Eq, Structural)]
pub enum Layout {
    Plain,
    Small,
    Dex,
    Recursive,
    Starknet,
    RecursiveLargeOutput,
    AllSolidity,
    StarknetWithKeccak,
}

impl Layout {
    /// Whether the layout has a verifier code.
    pub open spec fn is_supported(self) -> bool {
        self == Layout::Starknet
    }

    /// The verifier's code for this layout; only the Starknet layout has one.
    pub fn sharp_code(&self) -> (r: Result<u64, Error>)
        ensures
            self.is_supported() ==> r == Ok::<u64, Error>(SHARP_CODE_STARKNET),
            !self.is_supported() ==> r == Err::<u64, Error>(Error::UnsupportedLayout),
    {
        match self {
            Layout::Starknet => Ok(SHARP_CODE_STARKNET),
            _ => Err(Error::UnsupportedLayout),
        }
    }

    /// The layout that a verifier code stands for.
    pub fn from_sharp_code(code: u64) -> (r: Result<Layout, Error>)
        ensures
            code == SHARP_CODE_STARKNET ==> r == Ok::<Layout, Error>(Layout::Starknet),
            code != SHARP_CODE_STARKNET ==> r == Err::<Layout, Error>(Error::UnsupportedLayout),
    {
        if code == SHARP_CODE_STARKNET {
            Ok(Layout::Starknet)
        } else {
            Err(Error::UnsupportedLayout)
        }
    }
}

} // verus!
