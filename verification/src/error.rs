//! The closed error taxonomy shared by every fallible operation of the core.
//!
//! Dialog cancellation and file-system failure are the only two failure
//! families; platform error objects are normalized into `IoErrorKind` at the
//! host boundary and never cross into the core.

use vstd::prelude::*;

verus! {

/// Category of a file-system failure, a closed set: platform-specific error
/// representations are mapped into one of these four by the host before a
/// completion event reaches the session.
#[derive(Clone, Copy, Debug, PartialEq, Eq, Structural)]
pub enum IoErrorKind {
    NotFound,
    PermissionDenied,
    AlreadyExists,
    Other,
}

/// Failure of a file or dialog operation.
///
/// `DialogClosed` is a user-driven cancellation of a file-picker interaction,
/// not a failure of the system; `IOFailed` carries the category of an
/// environment failure.
#[derive(Clone, Copy, Debug, PartialEq, Eq, Structural)]
pub enum Error {
    DialogClosed,
    IOFailed(IoErrorKind),
}

/// The short human-readable label of a failure category.
pub open spec fn kind_label(k: IoErrorKind) -> Seq<char> {
    match k {
        IoErrorKind::NotFound => "file not found"@,
        IoErrorKind::PermissionDenied => "permission denied"@,
        IoErrorKind::AlreadyExists => "file already exists"@,
        IoErrorKind::Other => "i/o error"@,
    }
}

impl IoErrorKind {
    /// A short human-readable label for the failure category, for the host's
    /// status display.
    pub fn describe(&self) -> (r: &'static str)
        ensures
            r@ == kind_label(*self),
    {
        match self {
            IoErrorKind::NotFound => "file not found",
            IoErrorKind::PermissionDenied => "permission denied",
            IoErrorKind::AlreadyExists => "file already exists",
            IoErrorKind::Other => "i/o error",
        }
    }
}

} // verus!
