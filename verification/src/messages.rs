//! The messages exchanged over a project's WebSocket, and the texts of the
//! errors reported to a client.

use operational_transform::OperationSeq;
use vstd::arithmetic::power::pow;
use vstd::prelude::*;

use crate::access::AccessLevel;
use crate::document::{ComposeError, DocumentInfo, UserOperation, MAX_DOCUMENT_BYTES};
use crate::errors::ServerMessageError;
use crate::lsp::{dec, push_decimal, JsonValue};
use crate::strmap::StrMap;
use crate::text::{push_chars, string_from_chars};

verus! {

/// The stream a piece of program output was read from.
#[derive(Debug, Clone, Copy, PartialEq, Eq, Structural)]
pub enum OutputChannel {
    Stdout,
    Stderr,
}

/// Asks the executor of a project to compile and run its main file.
#[derive(Debug, Clone, Copy, PartialEq, Eq, Structural)]
pub struct Execute;

/// A request sent by a client.
pub enum ClientMessage {
    Config { name: Option<String>, is_public: Option<bool>, password: Option<String> },
    Execute,
    FileCreate { file: String },
    FileDelete { file: String },
    PermitAccess { user_id: String, access: AccessLevel },
    StopExecute,
    Sync { file: String, revision: usize, actions: OperationSeq },
    SyncCursor { file: String, cursors: Vec<(u32, u32)> },
    SyncFiles,
    /// A JSON-RPC message for the language server.
    Lsp { message: JsonValue },
}

/// A message sent to a client.
#[derive(Debug, Clone)]
pub enum ServerMessage {
    Error { message: String },
    ProjectConfig { name: String, is_public: bool },
    ProjectFiles { files: StrMap<DocumentInfo> },
    UpdateAccess { access: AccessLevel, user_id: String },
    UserConnected { user_id: String, user_name: String },
    RequestAccess { user_id: String, user_name: String },
    Sync { file: String, revision: usize, actions: Vec<UserOperation> },
    SyncCursors { file: String, cursors: StrMap<Vec<(u32, u32)>> },
    SyncOutput { channel: OutputChannel, buf: Vec<u8> },
    SyncOutputStart,
    SyncOutputEnd { exit_code: u8 },
    Welcome {
        session_id: String,
        files: StrMap<DocumentInfo>,
        users: StrMap<(String, AccessLevel)>,
        /// Present for the owner only.
        requests: Option<StrMap<String>>,
    },
}

/// A notice passed between the sessions of one project.
#[derive(Debug, Clone, PartialEq, Eq)]
pub enum InternalMessage {
    Edit { path: String },
    Create { path: String },
    Delete { path: String },
}

/// The text of `s` as `{:?}` formats it: quoted, with escapes.
pub uninterp spec fn debug_quoted(s: Seq<char>) -> Seq<char>;

/// The lower-case hexadecimal digit of `d`, for `0 <= d < 16`.
pub open spec fn hex_digit(d: int) -> char {
    if d < 10 {
        (48 + d) as char
    } else {
        (87 + d) as char
    }
}

/// The `k`-th of the 32 hexadecimal digits of `id`, most significant first.
pub open spec fn uuid_nibble(id: u128, k: int) -> int {
    (id as int / pow(16, (31 - k) as nat)) % 16
}

/// The hyphenated lower-case form of the UUID with these 128 bits (taken
/// big-endian): the 32 hexadecimal digits in groups of 8, 4, 4, 4 and 12,
/// joined by hyphens.
pub open spec fn uuid_text(id: u128) -> Seq<char> {
    Seq::new(
        36,
        |i: int|
            if i == 8 || i == 13 || i == 18 || i == 23 {
                '-'
            } else {
                hex_digit(
                    uuid_nibble(
                        id,
                        i - (if i < 8 {
                            0int
                        } else if i < 13 {
                            1
                        } else if i < 18 {
                            2
                        } else if i < 23 {
                            3
                        } else {
                            4
                        }),
                    ),
                )
            },
    )
}

/// Formats `s` with `{:?}` (std's `Debug` for `str`).
#[verifier::external_body]
fn quote_debug(s: &str) -> (r: String)
    ensures
        r@ == debug_quoted(s@),
{
    format!("{s:?}")
}

/// The 32 lower-case hexadecimal digits of the UUID with these 128 bits,
/// most significant first, without hyphens.
pub open spec fn uuid_simple_text(id: u128) -> Seq<char> {
    Seq::new(32, |i: int| hex_digit(uuid_nibble(id, i)))
}

/// Formats `uuid::Uuid::from_u128(id).simple()` with `{}`: the crate's
/// `Display` for `Simple` writes the 32 lower-case hexadecimal digits of the
/// big-endian bytes.
#[verifier::external_body]
pub(crate) fn format_uuid_simple(id: u128) -> (r: String)
    ensures
        r@ == uuid_simple_text(id),
{
    format!("{}", uuid::Uuid::from_u128(id).simple())
}

/// Formats `uuid::Uuid::from_u128(id)` with `{:?}`: the crate's `Debug`
/// writes the hyphenated lower-case form of the big-endian bytes.
#[verifier::external_body]
pub(crate) fn format_uuid(id: u128) -> (r: String)
    ensures
        r@ == uuid_text(id),
{
    format!("{:?}", uuid::Uuid::from_u128(id))
}

pub open spec fn error_text(e: ServerMessageError) -> Seq<char> {
    match e {
        ServerMessageError::Silent => Seq::empty(),
        ServerMessageError::FileNotFound(f) => "File "@ + debug_quoted(f@) + " not found"@,
        ServerMessageError::FileAlreadyExists(f) => "File "@ + debug_quoted(f@) + " already exists"@,
        ServerMessageError::InvalidFilePath(f) => "Invalid file path "@ + debug_quoted(f@),
        ServerMessageError::InvalidOperation(m) => "Invalid document operation: "@ + m@,
        ServerMessageError::NotAccessible => "You don't have read permission"@,
        ServerMessageError::NotOwner => "You are not the owner: fork the project"@,
        ServerMessageError::ProjectNotFound(id) => "Project "@ + uuid_text(id) + " not found"@,
        ServerMessageError::ReadonlyPermission => "Denied permission: read-only access"@,
        ServerMessageError::PasswordTooLong => "Project password exceeds 256 bytes"@,
        ServerMessageError::ProjectFileLimit => "Project file limit reached"@,
    }
}

/// The text a client is shown for `e`.
pub fn error_message(e: &ServerMessageError) -> (r: String)
    ensures
        r@ == error_text(*e),
{
    let mut out: Vec<char> = Vec::new();
    match e {
        ServerMessageError::Silent => {},
        ServerMessageError::FileNotFound(f) => {
            push_chars(&mut out, "File ");
            push_chars(&mut out, quote_debug(f.as_str()).as_str());
            push_chars(&mut out, " not found");
        },
        ServerMessageError::FileAlreadyExists(f) => {
            push_chars(&mut out, "File ");
            push_chars(&mut out, quote_debug(f.as_str()).as_str());
            push_chars(&mut out, " already exists");
        },
        ServerMessageError::InvalidFilePath(f) => {
            push_chars(&mut out, "Invalid file path ");
            push_chars(&mut out, quote_debug(f.as_str()).as_str());
        },
        ServerMessageError::InvalidOperation(m) => {
            push_chars(&mut out, "Invalid document operation: ");
            push_chars(&mut out, m.as_str());
        },
        ServerMessageError::NotAccessible => {
            push_chars(&mut out, "You don't have read permission");
        },
        ServerMessageError::NotOwner => {
            push_chars(&mut out, "You are not the owner: fork the project");
        },
        ServerMessageError::ProjectNotFound(id) => {
            push_chars(&mut out, "Project ");
            push_chars(&mut out, format_uuid(*id).as_str());
            push_chars(&mut out, " not found");
        },
        ServerMessageError::ReadonlyPermission => {
            push_chars(&mut out, "Denied permission: read-only access");
        },
        ServerMessageError::PasswordTooLong => {
            push_chars(&mut out, "Project password exceeds 256 bytes");
        },
        ServerMessageError::ProjectFileLimit => {
            push_chars(&mut out, "Project file limit reached");
        },
    }
    assert(out@ =~= error_text(*e));
    string_from_chars(out.as_slice())
}

/// The error message that reports `e` to a client.
pub fn error_reply(e: &ServerMessageError) -> (r: ServerMessage)
    ensures
        r matches ServerMessage::Error { message } && message@ == error_text(*e),
{
    ServerMessage::Error { message: error_message(e) }
}

pub open spec fn compose_error_text(e: ComposeError) -> Seq<char> {
    match e {
        ComposeError::FutureRevision { revision, current } => "got revision "@ + dec(
            revision as nat,
        ) + ", but current is "@ + dec(current as nat),
        ComposeError::IncompatibleLengths => "incompatible lengths"@,
        ComposeError::TooLarge { target_len } => "target length "@ + dec(target_len as nat)
            + " is greater than "@ + dec((MAX_DOCUMENT_BYTES / 1024) as nat) + " KiB maximum"@,
    }
}

/// The text that explains why an edit was refused.
pub fn compose_error_message(e: &ComposeError) -> (r: String)
    ensures
        r@ == compose_error_text(*e),
{
    let mut out: Vec<char> = Vec::new();
    match e {
        ComposeError::FutureRevision { revision, current } => {
            push_chars(&mut out, "got revision ");
            push_decimal(&mut out, *revision);
            push_chars(&mut out, ", but current is ");
            push_decimal(&mut out, *current);
        },
        ComposeError::IncompatibleLengths => {
            push_chars(&mut out, "incompatible lengths");
        },
        ComposeError::TooLarge { target_len } => {
            push_chars(&mut out, "target length ");
            push_decimal(&mut out, *target_len);
            push_chars(&mut out, " is greater than ");
            push_decimal(&mut out, MAX_DOCUMENT_BYTES / 1024);
            push_chars(&mut out, " KiB maximum");
        },
    }
    assert(out@ =~= compose_error_text(*e));
    string_from_chars(out.as_slice())
}

} // verus!
