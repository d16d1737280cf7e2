//! The ways in which the analysis of one file fails.
use vstd::prelude::*;

verus! {

/// Why one file could not be analysed. Every kind is recoverable: the caller may
/// skip the file or report it.
#[derive(Debug, Clone, Copy, PartialEq, Eq, Structural)]
pub enum AnalysisError {
    /// The file name's extension names no known format.
    UnsupportedFormat,
    /// A font, NSIS or Inno Setup magic value did not match.
    InvalidSignature,
    /// The stored checksum of an Inno Setup loader differs from the computed one.
    ChecksumMismatch { actual: u32, expected: u32 },
    /// A fixed-size structure ran past the end of the data.
    TruncatedData,
    /// A Burn install condition is not a sentence of the grammar.
    MalformedExpression,
    /// The decoded size of a solid NSIS header disagrees with the declared length.
    DecodedSizeMismatch,
    /// A stored value lies outside the range of its type.
    InvalidData,
    /// A stored text cannot be decoded: its code page is unknown, or it is
    /// too long.
    UndecodableText,
    /// Font and application installers stand in one manifest.
    MixedPackageTypes,
}

} // verus!
