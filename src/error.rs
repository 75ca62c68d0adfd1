use vstd::prelude::*;

verus! {

/// Why decoding, encoding or trace generation stopped.
#[derive(Clone, Copy, Debug, PartialEq, Eq, Structural)]
pub enum Error {
    /// A record of the trace or memory stream is cut short.
    MalformedTraceFile,
    /// A value read is not below the field's modulus.
    ValueOutOfFieldRange,
    /// An address read through holds no value.
    UnresolvedMemoryReference,
    /// A computed address is negative or does not fit a machine word.
    InvalidAddress,
    /// The instruction's flags form no legal combination.
    InvalidInstructionEncoding,
    /// A segment that the layout's encoding needs is absent.
    MissingRequiredSegment,
    /// The layout has no verifier code.
    UnsupportedLayout,
    /// No public memory entry stands at the padding address.
    MissingPaddingEntry,
    /// A program was compiled for another field.
    UnexpectedModulus,
    /// The step count is not a power of two.
    InvalidStepCount,
    /// The page digest does not have 32 bytes.
    InvalidDigest,
    /// The signature does not verify for either candidate public key.
    InvalidSignature,
    /// A scalar is zero or too wide for the double-and-add circuit.
    ScalarOutOfRange,
    /// An addition of a point to itself or its negation was reached.
    DegenerateECOperation,
    /// The public key's x-coordinate has no point on the curve.
    PointNotOnCurve,
    /// A recomputed value disagrees with the one it must equal.
    InternalConsistencyFailure,
}

} // verus!
