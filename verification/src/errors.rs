use vstd::prelude::*;

verus! {

/// The two classes of decode failure: the stream ran out of bytes, or the
/// bytes were read but violate the format.
#[derive(Debug, Clone, Copy, PartialEq, Eq, Structural)]
pub enum ErrorKind {
    Io,
    InvalidData,
}

/// Why a decode failed.  Every variant that reports malformed data carries
/// the offending value.
#[derive(Debug, Clone, Copy, PartialEq, Eq, Structural)]
pub enum DecodeError {
    /// The stream could not supply the requested number of bytes.
    UnexpectedEnd,
    /// A length-prefixed string held bytes that are not valid UTF-8.
    InvalidUtf8,
    /// A structural-role code outside the closed enumeration.
    InvalidStructuralRole(u16),
    /// A record frame whose on-wire size is negative.
    NegativeFrameSize(i64),
    /// A list frame whose on-wire size is positive.
    PositiveFrameSize(i64),
}

impl DecodeError {
    /// Which of the two failure classes this error belongs to.
    pub open spec fn spec_kind(&self) -> ErrorKind {
        match self {
            DecodeError::UnexpectedEnd => ErrorKind::Io,
            _ => ErrorKind::InvalidData,
        }
    }

    /// Which of the two failure classes this error belongs to.
    pub fn kind(&self) -> (k: ErrorKind)
        ensures
            k == self.spec_kind(),
    {
        match self {
            DecodeError::UnexpectedEnd => ErrorKind::Io,
            _ => ErrorKind::InvalidData,
        }
    }
}

} // verus!
