use vstd::prelude::*;

verus! {

/// Why a parse failed.
#[derive(Debug, PartialEq, Eq)]
pub enum ErrorKind {
    /// The KDL parser rejected every candidate window that was tried for an
    /// opened fragment; carries its error from the last attempt.
    KdlError(kdl::KdlError),
    /// An opening marker had no usable closing marker anywhere after it.
    UnclosedKdl,
}

/// The error returned when a document cannot be parsed.
///
/// Both kinds are fatal to the whole parse: no fragments are returned.
#[derive(Debug, PartialEq, Eq)]
pub struct Error {
    /// Kind of the error.
    pub kind: ErrorKind,
}

impl View for Error {
    type V = ErrorKind;

    open spec fn view(&self) -> ErrorKind {
        self.kind
    }
}

} // verus!
