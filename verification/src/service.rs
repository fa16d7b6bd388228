//! Decision logic of the file access service.
//!
//! The service reads and writes files and talks to the file-picker
//! collaborator, all of which the host performs. What is decided — whether a
//! save must first prompt for a path, what a cancelled dialog means, how a
//! finished read or write is folded into a completion event — is plain logic
//! and lives here. Failures are never swallowed: every outcome becomes a
//! `Result` the controller receives as a completion event, and nothing is
//! retried automatically.
//!
//! A save overwrites the destination whole, with no temporary-file-then-
//! rename atomicity: a failed write may leave the destination in an
//! indeterminate state, a deliberate simplicity trade-off that test writers
//! must tolerate.

use crate::error::Error;
use crate::error::IoErrorKind;
use vstd::prelude::*;

verus! {

/// What a save must do next: write to the path it already has, or first
/// obtain one from the save dialog.
#[derive(Debug, PartialEq, Eq)]
pub enum SaveStep {
    PromptForPath,
    WriteTo(String),
}

/// The path of the well-known default document a fresh session loads at
/// startup, relative to the host's working directory.
pub fn default_file() -> (r: String)
    ensures
        r@ == "src/main.rs"@,
{
    String::from_str("src/main.rs")
}

/// Where a save with the given optional path goes: straight to the known
/// path, or to the save dialog first when none is known. The dialog is
/// consulted only in that case, always before any write.
pub fn save_target(path: Option<String>) -> (r: SaveStep)
    ensures
        match path {
            Some(p) => r matches SaveStep::WriteTo(q) && q == p,
            None => r matches SaveStep::PromptForPath,
        },
{
    match path {
        Some(p) => SaveStep::WriteTo(p),
        None => SaveStep::PromptForPath,
    }
}

/// The outcome of a file-picker interaction: a cancelled dialog is the
/// `DialogClosed` error, a picked path is passed through. On cancellation no
/// read or write follows.
pub fn picked_path(picked: Option<String>) -> (r: Result<String, Error>)
    ensures
        match picked {
            Some(p) => r matches Ok(q) && q == p,
            None => r matches Err(e) && e == Error::DialogClosed,
        },
{
    match picked {
        Some(p) => Ok(p),
        None => Err(Error::DialogClosed),
    }
}

/// Folds a finished read into the load completion: the path and content on
/// success, the normalized failure category otherwise.
pub fn load_outcome(path: String, read: Result<String, IoErrorKind>) -> (r: Result<
    (String, String),
    Error,
>)
    ensures
        match read {
            Ok(content) => r matches Ok(pc) && pc.0 == path && pc.1 == content,
            Err(k) => r matches Err(e) && e == Error::IOFailed(k),
        },
{
    match read {
        Ok(content) => Ok((path, content)),
        Err(k) => Err(Error::IOFailed(k)),
    }
}

/// Folds a finished write into the save completion: the path written on
/// success, the normalized failure category otherwise.
pub fn save_outcome(path: String, wrote: Result<(), IoErrorKind>) -> (r: Result<String, Error>)
    ensures
        match wrote {
            Ok(u) => r matches Ok(q) && q == path,
            Err(k) => r matches Err(e) && e == Error::IOFailed(k),
        },
{
    match wrote {
        Ok(_) => Ok(path),
        Err(k) => Err(Error::IOFailed(k)),
    }
}

} // verus!
