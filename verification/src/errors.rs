use vstd::prelude::*;

verus! {

/// Errors reported to a WebSocket client. `Silent` means that the request
/// was handled and no reply is due.
#[derive(Debug, Clone, PartialEq, Eq)]
pub enum ServerMessageError {
    Silent,
    FileNotFound(String),
    FileAlreadyExists(String),
    InvalidFilePath(String),
    InvalidOperation(String),
    NotAccessible,
    NotOwner,
    ProjectNotFound(u128),
    ReadonlyPermission,
    PasswordTooLong,
    ProjectFileLimit,
}

} // verus!
