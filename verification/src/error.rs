//! The ways in which decoding a lump can fail.

use vstd::prelude::*;

verus! {

/// Why a lump, or the directory itself, could not be decoded.
#[derive(Debug, Clone, Copy, PartialEq, Eq, Structural)]
pub enum LumpError {
    /// A read or a slice reaches past the end of its byte region.
    OutOfRange,
    /// The compressed body of a lump is not a stream the LZMA decoder accepts.
    DecompressionFailure,
    /// The pattern engine refused one of the entity patterns.
    PatternRejected,
}

} // verus!
