use vstd::prelude::*;

verus! {

/// Why a capture stream could not be decoded.
#[derive(Debug, Clone, Copy, PartialEq, Eq, Structural)]
pub enum PcapError {
    /// The first four bytes are none of the recognised magic numbers.
    UnknownMagicNumber,
    /// The stream ended in the middle of a header, a record header or a payload.
    Truncated,
}

} // verus!
