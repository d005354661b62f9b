//! The error type of the codec.

use vstd::prelude::*;

verus! {

/// `std::string::FromUtf8Error`, carried through as an opaque value.
#[verifier::external_type_specification]
#[verifier::external_body]
pub struct ExFromUtf8Error(std::string::FromUtf8Error);

/// `std::io::Error`, carried through as an opaque value.
#[verifier::external_type_specification]
#[verifier::external_body]
pub struct ExIoError(std::io::Error);

/// Why decoding or encoding a song failed.
#[derive(Debug)]
pub enum NbsError {
    /// The data does not have the shape that the format asks for: a field
    /// that the target format needs is absent, a length or a jump is out of
    /// range, or a note lies outside the layers that were announced.
    InvalidFormat,
    /// A string field does not hold UTF-8.
    InvalidString(std::string::FromUtf8Error),
    /// The byte source or sink failed; a source that ends too early is the
    /// failure that the codec itself reports this way.
    IoError(std::io::Error),
}

/// The three kinds of [`NbsError`], without what they carry.
#[derive(Debug, Clone, Copy, PartialEq, Eq, Structural)]
pub enum NbsErrorKind {
    InvalidFormat,
    InvalidString,
    IoError,
}

impl NbsError {
    /// The kind of this error.
    pub open spec fn spec_kind(&self) -> NbsErrorKind {
        match self {
            NbsError::InvalidFormat => NbsErrorKind::InvalidFormat,
            NbsError::InvalidString(_) => NbsErrorKind::InvalidString,
            NbsError::IoError(_) => NbsErrorKind::IoError,
        }
    }

    /// The kind of this error.
    #[verifier::when_used_as_spec(spec_kind)]
    pub fn kind(&self) -> (k: NbsErrorKind)
        ensures
            k == self.spec_kind(),
    {
        match self {
            NbsError::InvalidFormat => NbsErrorKind::InvalidFormat,
            NbsError::InvalidString(_) => NbsErrorKind::InvalidString,
            NbsError::IoError(_) => NbsErrorKind::IoError,
        }
    }
}

/// `std::io::Error::from` on `ErrorKind::UnexpectedEof`: the error that a
/// reader gives when its source ends inside a field. Nothing is claimed of
/// the value.
#[verifier::external_body]
pub(crate) fn unexpected_eof() -> (e: std::io::Error) {
    std::io::Error::from(std::io::ErrorKind::UnexpectedEof)
}

} // verus!
