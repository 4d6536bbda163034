use vstd::prelude::*;

verus! {

/// Failure conditions of a parsing session. Every one of them is fatal to the
/// session: the archive is malformed, of the wrong type, or encrypted with an
/// unknown key, and no partial result is returned.
#[derive(Clone, Copy, Debug, PartialEq, Eq, Structural)]
pub enum WzError {
    /// A read requested bytes past the end of the buffer: the input is
    /// truncated or corrupt.
    OutOfBounds,
    /// The first four bytes are not the archive signature: wrong file type.
    InvalidMagic,
    /// The sample string's length prefix was non-negative where an encrypted
    /// (negative-length-marked) string was required.
    UnexpectedEncoding,
    /// Every candidate key failed the printable-text check: the archive uses
    /// a key outside the known set.
    KeyDeductionFailed,
}

impl WzError {
    /// A short human-readable description of the failure.
    pub fn describe(&self) -> (r: &'static str)
        ensures
            r@ == match self {
                WzError::OutOfBounds => "read past end of buffer"@,
                WzError::InvalidMagic => "not a valid WZ file"@,
                WzError::UnexpectedEncoding => "sample string length was not negative"@,
                WzError::KeyDeductionFailed => "failed to deduce key"@,
            },
    {
        match self {
            WzError::OutOfBounds => "read past end of buffer",
            WzError::InvalidMagic => "not a valid WZ file",
            WzError::UnexpectedEncoding => "sample string length was not negative",
            WzError::KeyDeductionFailed => "failed to deduce key",
        }
    }
}

} // verus!
