//! The decisions of one client's WebSocket session: what each request does
//! to the project and what is sent back, which broadcasts reach the client,
//! and which edits it still has to receive.
//!
//! The caller performs the effects an outcome names: it sends the reply and
//! the broadcast, passes on the internal notice and runs the runner action.

use operational_transform::OperationSeq;
use vstd::prelude::*;
use vstd::utf8::encode_utf8;

use crate::access::AccessLevel;
use crate::document::{
    compose_outcome, compose_result, compose_result_is_determined, lemma_revision_fits,
    DocumentInfo, DocumentState, UserOperation,
};
use crate::errors::ServerMessageError;
use crate::lsp::{
    validate_lsp_message, validate_spec, JsonValue, LspEnvelopeError, MAX_LSP_MESSAGE_BYTES,
};
use crate::messages::{
    compose_error_message, compose_error_text, error_reply, error_text, ClientMessage,
    InternalMessage, ServerMessage,
};
use crate::project::{
    config_outcome, create_outcome, delete_outcome, permit_outcome, Project,
};
use crate::strmap::StrMap;
use crate::text::{push_chars, string_from_chars};
use crate::users::UserRegistry;

verus! {

/// The revision a session starts tracking a document from.
pub const INITIAL_REVISION: usize = 0;

/// Work for the project's runner that a request asks for.
#[derive(Debug, Clone, PartialEq, Eq)]
pub enum RunnerAction {
    Nothing,
    /// Compile and run the project's main file.
    Execute,
    /// Stop the running program.
    StopExecute,
    /// Write `text` to the file `path` of the runner's home.
    WriteFile { path: String, text: String },
    /// Remove the file `path` from the runner's home.
    RemoveFile { path: String },
    /// Forward the request's JSON-RPC message to the language server.
    ForwardLsp,
}

/// What a request leads to.
pub struct Outcome {
    /// The reply to the client; `Err(Silent)` means no reply.
    pub reply: Result<ServerMessage, ServerMessageError>,
    /// A notice for the other sessions of the project.
    pub internal: Option<InternalMessage>,
    /// A message for every client of the project.
    pub broadcast: Option<ServerMessage>,
    pub action: RunnerAction,
}

/// The state of one client's connection.
pub struct Session {
    pub session_id: String,
    pub user_id: String,
    pub user_name: String,
    pub access: AccessLevel,
    /// The revision of each document up to which the client has been sent
    /// the edits.
    pub sync_docs: StrMap<usize>,
}

/// An outcome with nothing to send and nothing to run.
pub open spec fn no_effects(out: Outcome) -> bool {
    &&& out.internal is None
    &&& out.broadcast is None
    &&& out.action == RunnerAction::Nothing
}

/// A request refused with `e`.
pub open spec fn refused(out: Outcome, e: ServerMessageError) -> bool {
    out.reply == Err::<ServerMessage, ServerMessageError>(e) && no_effects(out)
}

/// A request that succeeded without a reply.
pub open spec fn silent(out: Outcome) -> bool {
    out.reply == Err::<ServerMessage, ServerMessageError>(ServerMessageError::Silent)
}

/// A reply read back as the result of the project operation behind it.
pub open spec fn as_unit_result(reply: Result<ServerMessage, ServerMessageError>) -> Result<
    (),
    ServerMessageError,
> {
    match reply {
        Err(ServerMessageError::Silent) => Ok(()),
        Err(e) => Err(e),
        Ok(_) => Ok(()),
    }
}

/// The text and revision of every file of a project.
pub open spec fn project_files(p: Project<DocumentState>) -> Map<Seq<char>, (Seq<char>, nat)> {
    p.documents.view().map_values(|d: DocumentState| (d.text_view(), d.revision_view()))
}

/// The text and revision of every file in a file listing.
pub open spec fn listed_files(files: StrMap<DocumentInfo>) -> Map<Seq<char>, (Seq<char>, nat)> {
    files.view().map_values(|i: DocumentInfo| (i.text@, i.revision as nat))
}

/// Every document of a project is well formed.
pub open spec fn documents_wf(p: Project<DocumentState>) -> bool {
    forall|k: Seq<char>| #[trigger] p.documents.view().contains_key(k) ==> p.documents.view()[k].wf()
}

/// A document without text, history or cursors.
pub open spec fn fresh_document(d: DocumentState) -> bool {
    &&& d.wf()
    &&& d.text_view() == Seq::<char>::empty()
    &&& d.history() == Seq::<(Seq<char>, Seq<crate::ot::OpView>)>::empty()
    &&& d.cursor_view() == Map::<Seq<char>, Seq<(u32, u32)>>::empty()
}

/// The text reported for a language-server message that is refused.
pub open spec fn lsp_refusal_text(e: LspEnvelopeError) -> Seq<char> {
    "invalid language-server message: "@ + e.message_spec()@
}

/// The project changes only in the documents' contents at `file`.
pub open spec fn only_document_changed(
    old: Project<DocumentState>,
    new: Project<DocumentState>,
    file: Seq<char>,
) -> bool {
    &&& new.documents.view() == old.documents.view().insert(file, new.documents.view()[file])
    &&& new.allowed_users == old.allowed_users
    &&& new.requests == old.requests
    &&& new.owner == old.owner
    &&& new.name == old.name
    &&& new.is_public == old.is_public
    &&& new.password == old.password
    &&& new.id == old.id
}

/// The project as it was.
pub open spec fn project_unchanged(old: Project<DocumentState>, new: Project<DocumentState>) -> bool {
    &&& new.documents.view() == old.documents.view()
    &&& new.allowed_users == old.allowed_users
    &&& new.requests == old.requests
    &&& new.owner == old.owner
    &&& new.name == old.name
    &&& new.is_public == old.is_public
    &&& new.password == old.password
    &&& new.id == old.id
}

/// What a session's request does, given the session's access. Every request
/// needs read access; changes need editor access (configuration and access
/// grants are the owner's instead).
pub open spec fn request_outcome(
    session: Session,
    old: Project<DocumentState>,
    new: Project<DocumentState>,
    msg: ClientMessage,
    out: Outcome,
) -> bool {
    if !session.access.spec_can_read() {
        refused(out, ServerMessageError::NotAccessible) && project_unchanged(old, new)
    } else {
        match msg {
            ClientMessage::Config { name, is_public, password } => {
                &&& config_outcome(
                    old,
                    new,
                    session.user_id@,
                    name,
                    is_public,
                    password,
                    as_unit_result(out.reply),
                )
                &&& out.reply is Err
                &&& out.internal is None
                &&& out.action == RunnerAction::Nothing
                &&& silent(out) ==> out.broadcast == Some(
                    ServerMessage::ProjectConfig { name: new.name, is_public: new.is_public },
                )
                &&& !silent(out) ==> out.broadcast is None
            },
            ClientMessage::Execute => if session.access is Editor {
                silent(out) && out.internal is None && out.broadcast is None && out.action
                    == RunnerAction::Execute && project_unchanged(old, new)
            } else {
                refused(out, ServerMessageError::ReadonlyPermission) && project_unchanged(old, new)
            },
            ClientMessage::StopExecute => if session.access is Editor {
                silent(out) && out.internal is None && out.broadcast is None && out.action
                    == RunnerAction::StopExecute && project_unchanged(old, new)
            } else {
                refused(out, ServerMessageError::ReadonlyPermission) && project_unchanged(old, new)
            },
            ClientMessage::FileCreate { file } => {
                &&& create_outcome(
                    old,
                    new,
                    session.access,
                    file,
                    new.documents.view()[file@],
                    as_unit_result(out.reply),
                )
                &&& out.reply is Err
                &&& silent(out) ==> {
                    &&& fresh_document(new.documents.view()[file@])
                    &&& out.internal == Some(InternalMessage::Create { path: file })
                    &&& out.action matches RunnerAction::WriteFile { path, text } && path == file
                        && text@ == Seq::<char>::empty()
                    &&& out.broadcast matches Some(ServerMessage::ProjectFiles { files })
                        && listed_files(files) == project_files(new)
                }
                &&& !silent(out) ==> no_effects(out)
            },
            ClientMessage::FileDelete { file } => {
                &&& delete_outcome(
                    old,
                    new,
                    session.access,
                    file,
                    match out.reply {
                        Err(ServerMessageError::Silent) => Ok(old.documents.view()[file@]),
                        Err(e) => Err(e),
                        Ok(_) => Ok(old.documents.view()[file@]),
                    },
                )
                &&& out.reply is Err
                &&& silent(out) ==> {
                    &&& out.internal == Some(InternalMessage::Delete { path: file })
                    &&& out.action == RunnerAction::RemoveFile { path: file }
                    &&& out.broadcast matches Some(ServerMessage::ProjectFiles { files })
                        && listed_files(files) == project_files(new)
                }
                &&& !silent(out) ==> no_effects(out)
            },
            ClientMessage::PermitAccess { user_id, access } => {
                &&& permit_outcome(
                    old,
                    new,
                    session.user_id@,
                    user_id@,
                    access,
                    as_unit_result(out.reply),
                )
                &&& out.reply is Err
                &&& out.internal is None
                &&& out.action == RunnerAction::Nothing
                &&& silent(out) ==> out.broadcast == Some(
                    ServerMessage::UpdateAccess { access, user_id },
                )
                &&& !silent(out) ==> out.broadcast is None
            },
            ClientMessage::Sync { file, revision, actions } => if !(session.access is Editor) {
                refused(out, ServerMessageError::ReadonlyPermission) && project_unchanged(old, new)
            } else if !old.documents.view().contains_key(file@) {
                refused(out, ServerMessageError::FileNotFound(file)) && project_unchanged(old, new)
            } else {
                &&& only_document_changed(old, new, file@)
                &&& out.broadcast is None
                &&& compose_outcome(
                    old.documents.view()[file@],
                    new.documents.view()[file@],
                    session.session_id@,
                    revision,
                    actions,
                    compose_result(old.documents.view()[file@], revision, actions),
                )
                &&& match compose_result(old.documents.view()[file@], revision, actions) {
                    Ok(()) => silent(out) && out.internal == Some(InternalMessage::Edit { path: file })
                        && (out.action matches RunnerAction::WriteFile { path, text } && path == file
                        && text@ == new.documents.view()[file@].text_view()),
                    Err(ce) => no_effects(out) && (out.reply matches Err(
                        ServerMessageError::InvalidOperation(m),
                    ) && m@ == compose_error_text(ce)),
                }
            },
            ClientMessage::SyncCursor { file, cursors } => if !(session.access is Editor) {
                refused(out, ServerMessageError::ReadonlyPermission) && project_unchanged(old, new)
            } else if !old.documents.view().contains_key(file@) {
                refused(out, ServerMessageError::FileNotFound(file)) && project_unchanged(old, new)
            } else {
                let d0 = old.documents.view()[file@];
                let d1 = new.documents.view()[file@];
                &&& only_document_changed(old, new, file@)
                &&& d1.wf()
                &&& d1.text_view() == d0.text_view()
                &&& d1.history() == d0.history()
                &&& d1.cursor_view() == (if cursors@.len() == 0 {
                    d0.cursor_view().remove(session.user_id@)
                } else {
                    d0.cursor_view().insert(session.user_id@, cursors@)
                })
                &&& silent(out)
                &&& out.internal is None
                &&& out.action == RunnerAction::Nothing
                &&& out.broadcast matches Some(ServerMessage::SyncCursors { file: f, cursors: c })
                    && f == file && c.view().map_values(|v: Vec<(u32, u32)>| v@)
                    == d1.cursor_view()
            },
            ClientMessage::SyncFiles => {
                &&& project_unchanged(old, new)
                &&& no_effects(out)
                &&& out.reply matches Ok(ServerMessage::ProjectFiles { files }) && listed_files(
                    files,
                ) == project_files(old)
            },
            ClientMessage::Lsp { message } => {
                &&& project_unchanged(old, new)
                &&& out.internal is None
                &&& out.broadcast is None
                &&& match validate_spec(message) {
                    Ok(()) => silent(out) && out.action == RunnerAction::ForwardLsp,
                    Err(e) => out.action == RunnerAction::Nothing && (out.reply matches Err(
                        ServerMessageError::InvalidOperation(m),
                    ) && m@ == lsp_refusal_text(e)),
                }
            },
        }
    }
}

/// What the session's tracked revisions and reply become after a notice
/// from another session, for a client that can read.
pub open spec fn internal_outcome(
    old: Map<Seq<char>, usize>,
    new: Map<Seq<char>, usize>,
    project: Project<DocumentState>,
    msg: InternalMessage,
    r: Result<ServerMessage, ServerMessageError>,
) -> bool {
    match msg {
        InternalMessage::Edit { path } => if !project.documents.view().contains_key(path@) {
            r == Err::<ServerMessage, ServerMessageError>(ServerMessageError::FileNotFound(path))
                && new == old
        } else {
            let doc = project.documents.view()[path@];
            let seen = if old.contains_key(path@) {
                old[path@]
            } else {
                INITIAL_REVISION
            };
            if doc.revision_view() > seen {
                &&& new == old.insert(path@, doc.revision_view() as usize)
                &&& r matches Ok(ServerMessage::Sync { file, revision, actions }) && file == path
                    && revision == seen && actions@.map_values(|u: UserOperation| u.view())
                    == doc.history().skip(seen as int)
            } else {
                &&& new == old.insert(path@, seen)
                &&& r == Err::<ServerMessage, ServerMessageError>(ServerMessageError::Silent)
            }
        },
        InternalMessage::Create { path } => r == Err::<ServerMessage, ServerMessageError>(
            ServerMessageError::Silent,
        ) && new == old.insert(path@, INITIAL_REVISION),
        InternalMessage::Delete { path } => r == Err::<ServerMessage, ServerMessageError>(
            ServerMessageError::Silent,
        ) && new == old.remove(path@),
    }
}

/// `users` lists each user with access whose name is known, with that name
/// and the access.
pub open spec fn visible_users_of(
    project: Project<DocumentState>,
    names: Map<Seq<char>, Seq<char>>,
    users: StrMap<(String, AccessLevel)>,
) -> bool {
    &&& forall|k: Seq<char>|
        #[trigger] users.view().contains_key(k) <==> (project.allowed_users.view().contains_key(k)
            && names.contains_key(k))
    &&& forall|k: Seq<char>|
        #[trigger] users.view().contains_key(k) ==> users.view()[k].0@ == names[k]
            && users.view()[k].1 == project.allowed_users.view()[k]
}

/// `requests` lists each pending request whose user's name is known, with
/// that name.
pub open spec fn visible_requests_of(
    project: Project<DocumentState>,
    names: Map<Seq<char>, Seq<char>>,
    requests: StrMap<String>,
) -> bool {
    &&& forall|k: Seq<char>|
        #[trigger] requests.view().contains_key(k) <==> (project.requests.view().contains_key(k)
            && names.contains_key(k))
    &&& forall|k: Seq<char>|
        #[trigger] requests.view().contains_key(k) ==> requests.view()[k]@ == names[k]
}

/// The current revision of every document of `project`.
pub fn tracked_revisions(project: &Project<DocumentState>) -> (r: StrMap<usize>)
    requires
        project.wf(),
    ensures
        r.wf(),
        r.view() == project.documents.view().map_values(|d: DocumentState| d.revision_view() as usize),
{
    let keys = project.documents.keys();
    let mut out: StrMap<usize> = StrMap::new();
    let mut i: usize = 0;
    while i < keys.len()
        invariant
            i <= keys@.len(),
            project.wf(),
            out.wf(),
            forall|j: int|
                0 <= j < keys@.len() ==> project.documents.view().contains_key(#[trigger] keys@[j]@),
            forall|k: Seq<char>|
                #[trigger] out.view().contains_key(k) <==> exists|j: int|
                    0 <= j < i && #[trigger] keys@[j]@ == k,
            forall|k: Seq<char>|
                #[trigger] out.view().contains_key(k) ==> out.view()[k]
                    == project.documents.view()[k].revision_view(),
        decreases keys@.len() - i,
    {
        let key = &keys[i];
        let rev = project.documents.get(key).unwrap().revision();
        out.insert(key.clone(), rev);
        proof {
            assert forall|k: Seq<char>|
                #[trigger] out.view().contains_key(k) <==> exists|j: int|
                    0 <= j < i + 1 && #[trigger] keys@[j]@ == k by {
                if exists|j: int| 0 <= j < i + 1 && #[trigger] keys@[j]@ == k {
                    let j = choose|j: int| 0 <= j < i + 1 && #[trigger] keys@[j]@ == k;
                    if j < i {
                        assert(exists|j2: int| 0 <= j2 < i && #[trigger] keys@[j2]@ == k);
                    }
                }
                if exists|j: int| 0 <= j < i && #[trigger] keys@[j]@ == k {
                    let j = choose|j: int| 0 <= j < i && #[trigger] keys@[j]@ == k;
                    assert(0 <= j < i + 1 && keys@[j]@ == k);
                }
            }
        }
        i = i + 1;
    }
    proof {
        assert forall|k: Seq<char>| project.documents.view().contains_key(k) implies #[trigger] out.view().contains_key(k) by {
            assert(exists|j: int| 0 <= j < keys@.len() && #[trigger] keys@[j]@ == k);
        }
        assert(out.view().dom() =~= project.documents.view().dom());
        assert(out.view() =~= project.documents.view().map_values(
            |d: DocumentState| d.revision_view() as usize,
        ));
    }
    out
}

/// What is sent for a reply: nothing for `Silent`, the error's message for
/// another error, the message itself otherwise.
pub fn response(reply: Result<ServerMessage, ServerMessageError>) -> (r: Option<ServerMessage>)
    ensures
        reply matches Ok(m) ==> r == Some(m),
        reply == Err::<ServerMessage, ServerMessageError>(ServerMessageError::Silent) ==> r is None,
        (reply is Err && reply != Err::<ServerMessage, ServerMessageError>(
            ServerMessageError::Silent,
        )) ==> (r matches Some(ServerMessage::Error { message }) && message@ == error_text(
            reply->Err_0,
        )),
{
    match reply {
        Ok(m) => Some(m),
        Err(ServerMessageError::Silent) => None,
        Err(e) => Some(error_reply(&e)),
    }
}

/// The serialised language-server message must fit in one frame.
pub fn check_lsp_payload(payload: &str) -> (r: Result<(), ServerMessageError>)
    ensures
        r is Ok <==> encode_utf8(payload@).len() <= MAX_LSP_MESSAGE_BYTES,
        r matches Err(e) ==> (e matches ServerMessageError::InvalidOperation(m) && m@
            == "language-server message exceeds the maximum size"@),
{
    if payload.as_bytes().len() > MAX_LSP_MESSAGE_BYTES {
        Err(ServerMessageError::InvalidOperation("language-server message exceeds the maximum size".to_owned()))
    } else {
        Ok(())
    }
}

fn refuse(e: ServerMessageError) -> (r: Outcome)
    ensures
        refused(r, e),
{
    Outcome { reply: Err(e), internal: None, broadcast: None, action: RunnerAction::Nothing }
}

/// The text and revision of every file of `project`.
pub fn project_file_list(project: &Project<DocumentState>) -> (r: StrMap<DocumentInfo>)
    requires
        project.wf(),
    ensures
        r.wf(),
        listed_files(r) == project_files(*project),
{
    let keys = project.documents.keys();
    let mut out: StrMap<DocumentInfo> = StrMap::new();
    let mut i: usize = 0;
    while i < keys.len()
        invariant
            i <= keys@.len(),
            project.wf(),
            out.wf(),
            forall|j: int|
                0 <= j < keys@.len() ==> project.documents.view().contains_key(#[trigger] keys@[j]@),
            forall|k: Seq<char>|
                #[trigger] out.view().contains_key(k) <==> exists|j: int|
                    0 <= j < i && #[trigger] keys@[j]@ == k,
            forall|k: Seq<char>|
                #[trigger] out.view().contains_key(k) ==> out.view()[k].text@
                    == project.documents.view()[k].text_view() && out.view()[k].revision
                    == project.documents.view()[k].revision_view(),
        decreases keys@.len() - i,
    {
        let key = &keys[i];
        let info = project.documents.get(key).unwrap().info();
        out.insert(key.clone(), info);
        proof {
            assert forall|k: Seq<char>|
                #[trigger] out.view().contains_key(k) <==> exists|j: int|
                    0 <= j < i + 1 && #[trigger] keys@[j]@ == k by {
                if exists|j: int| 0 <= j < i + 1 && #[trigger] keys@[j]@ == k {
                    let j = choose|j: int| 0 <= j < i + 1 && #[trigger] keys@[j]@ == k;
                    if j < i {
                        assert(exists|j2: int| 0 <= j2 < i && #[trigger] keys@[j2]@ == k);
                    }
                }
                if exists|j: int| 0 <= j < i && #[trigger] keys@[j]@ == k {
                    let j = choose|j: int| 0 <= j < i && #[trigger] keys@[j]@ == k;
                    assert(0 <= j < i + 1 && keys@[j]@ == k);
                }
            }
        }
        i = i + 1;
    }
    proof {
        assert forall|k: Seq<char>| project.documents.view().contains_key(k) implies #[trigger] out.view().contains_key(k) by {
            assert(exists|j: int| 0 <= j < keys@.len() && #[trigger] keys@[j]@ == k);
        }
        assert(listed_files(out).dom() =~= project_files(*project).dom());
        assert(listed_files(out) =~= project_files(*project));
    }
    out
}

impl Session {

    fn config(
        &self,
        project: &mut Project<DocumentState>,
        name: Option<String>,
        is_public: Option<bool>,
        password: Option<String>,
    ) -> (r: Outcome)
        requires
            old(project).wf(),
            self.access.spec_can_read(),
        ensures
            final(project).wf(),
            final(project).documents == old(project).documents,
            request_outcome(
                *self,
                *old(project),
                *final(project),
                ClientMessage::Config { name, is_public, password },
                r,
            ),
    {
        match project.apply_config(&self.user_id, name, is_public, password) {
            Ok(()) => Outcome {
                reply: Err(ServerMessageError::Silent),
                internal: None,
                broadcast: Some(
                    ServerMessage::ProjectConfig {
                        name: project.name.clone(),
                        is_public: project.is_public,
                    },
                ),
                action: RunnerAction::Nothing,
            },
            Err(e) => refuse(e),
        }
    }

    fn create(&self, project: &mut Project<DocumentState>, file: String) -> (r: Outcome)
        requires
            old(project).wf(),
            documents_wf(*old(project)),
            self.access.spec_can_read(),
        ensures
            final(project).wf(),
            documents_wf(*final(project)),
            request_outcome(*self, *old(project), *final(project), ClientMessage::FileCreate { file }, r),
    {
        let ghost key = file@;
        let doc = DocumentState::new();
        let ghost d = doc;
        match project.create_file(self.access, file.clone(), doc) {
            Ok(()) => {
                assert(project.documents.view()[key] == d);
                let files = project_file_list(project);
                Outcome {
                    reply: Err(ServerMessageError::Silent),
                    internal: Some(InternalMessage::Create { path: file.clone() }),
                    broadcast: Some(ServerMessage::ProjectFiles { files }),
                    action: RunnerAction::WriteFile { path: file, text: String::new() },
                }
            },
            Err(e) => refuse(e),
        }
    }

    fn delete(&self, project: &mut Project<DocumentState>, file: String) -> (r: Outcome)
        requires
            old(project).wf(),
            documents_wf(*old(project)),
            self.access.spec_can_read(),
        ensures
            final(project).wf(),
            documents_wf(*final(project)),
            request_outcome(*self, *old(project), *final(project), ClientMessage::FileDelete { file }, r),
    {
        match project.delete_file(self.access, file.clone()) {
            Ok(_) => {
                let files = project_file_list(project);
                Outcome {
                    reply: Err(ServerMessageError::Silent),
                    internal: Some(InternalMessage::Delete { path: file.clone() }),
                    broadcast: Some(ServerMessage::ProjectFiles { files }),
                    action: RunnerAction::RemoveFile { path: file },
                }
            },
            Err(e) => refuse(e),
        }
    }

    fn permit(&self, project: &mut Project<DocumentState>, user_id: String, access: AccessLevel) -> (r:
        Outcome)
        requires
            old(project).wf(),
            self.access.spec_can_read(),
        ensures
            final(project).wf(),
            final(project).documents.view() == old(project).documents.view(),
            request_outcome(
                *self,
                *old(project),
                *final(project),
                ClientMessage::PermitAccess { user_id, access },
                r,
            ),
    {
        match project.permit_access_by(&self.user_id, user_id.clone(), access) {
            Ok(()) => Outcome {
                reply: Err(ServerMessageError::Silent),
                internal: None,
                broadcast: Some(ServerMessage::UpdateAccess { access, user_id }),
                action: RunnerAction::Nothing,
            },
            Err(e) => refuse(e),
        }
    }

    fn sync(
        &self,
        project: &mut Project<DocumentState>,
        file: String,
        revision: usize,
        actions: OperationSeq,
    ) -> (r: Outcome)
        requires
            old(project).wf(),
            documents_wf(*old(project)),
            self.access.spec_can_read(),
        ensures
            final(project).wf(),
            documents_wf(*final(project)),
            request_outcome(
                *self,
                *old(project),
                *final(project),
                ClientMessage::Sync { file, revision, actions },
                r,
            ),
    {
        match self.access.need_editor() {
            Ok(()) => {},
            Err(e) => {
                return refuse(e);
            },
        }
        let ghost key = file@;
        match project.documents.remove(&file) {
            None => {
                assert(project.documents.view() =~= old(project).documents.view());
                refuse(ServerMessageError::FileNotFound(file))
            },
            Some(mut doc) => {
                let ghost d0 = doc;
                let res = doc.compose(self.session_id.clone(), revision, actions);
                let text = doc.text();
                let ghost d1 = doc;
                project.documents.insert(file.clone(), doc);
                proof {
                    assert(project.documents.view() =~= old(project).documents.view().insert(key, d1));
                    compose_result_is_determined(d0, d1, self.session_id@, revision, actions, res);
                }
                match res {
                    Ok(()) => Outcome {
                        reply: Err(ServerMessageError::Silent),
                        internal: Some(InternalMessage::Edit { path: file.clone() }),
                        broadcast: None,
                        action: RunnerAction::WriteFile { path: file, text },
                    },
                    Err(ce) => refuse(
                        ServerMessageError::InvalidOperation(compose_error_message(&ce)),
                    ),
                }
            },
        }
    }

    fn sync_cursor(&self, project: &mut Project<DocumentState>, file: String, cursors: Vec<(u32, u32)>) -> (r:
        Outcome)
        requires
            old(project).wf(),
            documents_wf(*old(project)),
            self.access.spec_can_read(),
        ensures
            final(project).wf(),
            documents_wf(*final(project)),
            request_outcome(
                *self,
                *old(project),
                *final(project),
                ClientMessage::SyncCursor { file, cursors },
                r,
            ),
    {
        match self.access.need_editor() {
            Ok(()) => {},
            Err(e) => {
                return refuse(e);
            },
        }
        let ghost key = file@;
        match project.documents.remove(&file) {
            None => {
                assert(project.documents.view() =~= old(project).documents.view());
                refuse(ServerMessageError::FileNotFound(file))
            },
            Some(mut doc) => {
                doc.set_cursors(self.user_id.clone(), cursors);
                let all = doc.cursor_map();
                let ghost d1 = doc;
                project.documents.insert(file.clone(), doc);
                assert(project.documents.view() =~= old(project).documents.view().insert(key, d1));
                Outcome {
                    reply: Err(ServerMessageError::Silent),
                    internal: None,
                    broadcast: Some(ServerMessage::SyncCursors { file, cursors: all }),
                    action: RunnerAction::Nothing,
                }
            },
        }
    }

    fn lsp(&self, message: &JsonValue) -> (r: Outcome)
        ensures
            r.internal is None,
            r.broadcast is None,
            match validate_spec(*message) {
                Ok(()) => silent(r) && r.action == RunnerAction::ForwardLsp,
                Err(e) => r.action == RunnerAction::Nothing && (r.reply matches Err(
                    ServerMessageError::InvalidOperation(m),
                ) && m@ == lsp_refusal_text(e)),
            },
    {
        match validate_lsp_message(message) {
            Ok(()) => Outcome {
                reply: Err(ServerMessageError::Silent),
                internal: None,
                broadcast: None,
                action: RunnerAction::ForwardLsp,
            },
            Err(e) => {
                let mut text: Vec<char> = Vec::new();
                push_chars(&mut text, "invalid language-server message: ");
                push_chars(&mut text, e.message());
                refuse(ServerMessageError::InvalidOperation(string_from_chars(text.as_slice())))
            },
        }
    }

    /// Handles a request of this session's client against its project.
    pub fn handle_client_message(&self, project: &mut Project<DocumentState>, msg: ClientMessage) -> (r:
        Outcome)
        requires
            old(project).wf(),
            documents_wf(*old(project)),
        ensures
            final(project).wf(),
            documents_wf(*final(project)),
            request_outcome(*self, *old(project), *final(project), msg, r),
    {
        match self.access.need_read() {
            Ok(()) => {},
            Err(e) => {
                return refuse(e);
            },
        }
        match msg {
            ClientMessage::Config { name, is_public, password } => self.config(
                project,
                name,
                is_public,
                password,
            ),
            ClientMessage::Execute => match self.access.need_editor() {
                Ok(()) => Outcome {
                    reply: Err(ServerMessageError::Silent),
                    internal: None,
                    broadcast: None,
                    action: RunnerAction::Execute,
                },
                Err(e) => refuse(e),
            },
            ClientMessage::StopExecute => match self.access.need_editor() {
                Ok(()) => Outcome {
                    reply: Err(ServerMessageError::Silent),
                    internal: None,
                    broadcast: None,
                    action: RunnerAction::StopExecute,
                },
                Err(e) => refuse(e),
            },
            ClientMessage::FileCreate { file } => self.create(project, file),
            ClientMessage::FileDelete { file } => self.delete(project, file),
            ClientMessage::PermitAccess { user_id, access } => self.permit(project, user_id, access),
            ClientMessage::Sync { file, revision, actions } => self.sync(
                project,
                file,
                revision,
                actions,
            ),
            ClientMessage::SyncCursor { file, cursors } => self.sync_cursor(project, file, cursors),
            ClientMessage::SyncFiles => Outcome {
                reply: Ok(ServerMessage::ProjectFiles { files: project_file_list(project) }),
                internal: None,
                broadcast: None,
                action: RunnerAction::Nothing,
            },
            ClientMessage::Lsp { message } => self.lsp(&message),
        }
    }
    /// A session of a user who joined with `access`; it tracks no document.
    pub fn new(session_id: String, user_id: String, user_name: String, access: AccessLevel) -> (r:
        Session)
        ensures
            r.session_id == session_id,
            r.user_id == user_id,
            r.user_name == user_name,
            r.access == access,
            r.sync_docs.wf(),
            r.sync_docs.view() == Map::<Seq<char>, usize>::empty(),
    {
        Session { session_id, user_id, user_name, access, sync_docs: StrMap::new() }
    }

    /// Passes on a message broadcast to the project: a change of this
    /// session's own access is applied and passed on, a request for access
    /// reaches the owner only, and anything else reaches clients that can
    /// read.
    pub fn handle_broadcast(&mut self, msg: ServerMessage, owner: Option<&String>) -> (r: Option<
        ServerMessage,
    >)
        ensures
            final(self).session_id == old(self).session_id,
            final(self).user_id == old(self).user_id,
            final(self).user_name == old(self).user_name,
            final(self).sync_docs == old(self).sync_docs,
            match msg {
                ServerMessage::UpdateAccess { access, user_id } => if user_id@ == old(self).user_id@ {
                    final(self).access == access && r == Some(msg)
                } else {
                    final(self).access == old(self).access && r == (if old(self).access.spec_can_read() {
                        Some(msg)
                    } else {
                        None
                    })
                },
                ServerMessage::RequestAccess { .. } => final(self).access == old(self).access && r
                    == (if owner matches Some(o) && o@ == old(self).user_id@ {
                    Some(msg)
                } else {
                    None
                }),
                _ => final(self).access == old(self).access && r == (if old(self).access.spec_can_read() {
                    Some(msg)
                } else {
                    None
                }),
            },
    {
        let own_update = match &msg {
            ServerMessage::UpdateAccess { access, user_id } => {
                if *user_id == self.user_id {
                    self.access = *access;
                    true
                } else {
                    false
                }
            },
            _ => false,
        };
        if own_update {
            return Some(msg);
        }
        let is_request = match &msg {
            ServerMessage::RequestAccess { .. } => true,
            _ => false,
        };
        if is_request {
            match owner {
                Some(o) => {
                    if *o == self.user_id {
                        Some(msg)
                    } else {
                        None
                    }
                },
                None => None,
            }
        } else if self.access.can_read() {
            Some(msg)
        } else {
            None
        }
    }

    /// Handles a notice from another session of the project. A client that
    /// cannot read gets nothing. After an edit the client is sent the edits
    /// it has not seen yet (a document it does not track yet is tracked from
    /// its first revision); a created document is tracked from its first
    /// revision, a deleted one no longer.
    pub fn handle_internal(&mut self, msg: InternalMessage, project: &Project<DocumentState>) -> (r:
        Result<ServerMessage, ServerMessageError>)
        requires
            old(self).sync_docs.wf(),
            project.wf(),
        ensures
            final(self).sync_docs.wf(),
            final(self).session_id == old(self).session_id,
            final(self).user_id == old(self).user_id,
            final(self).user_name == old(self).user_name,
            final(self).access == old(self).access,
            !old(self).access.spec_can_read() ==> r == Err::<ServerMessage, ServerMessageError>(
                ServerMessageError::Silent,
            ) && final(self).sync_docs.view() == old(self).sync_docs.view(),
            old(self).access.spec_can_read() ==> internal_outcome(
                old(self).sync_docs.view(),
                final(self).sync_docs.view(),
                *project,
                msg,
                r,
            ),
    {
        if !self.access.can_read() {
            return Err(ServerMessageError::Silent);
        }
        match msg {
            InternalMessage::Edit { path } => {
                let known = self.sync_docs.contains_key(&path);
                let doc = match project.documents.get(&path) {
                    Some(d) => d,
                    None => {
                        return Err(ServerMessageError::FileNotFound(path));
                    },
                };
                let revision: usize = if known {
                    *self.sync_docs.get(&path).unwrap()
                } else {
                    INITIAL_REVISION
                };
                if doc.revision() > revision {
                    let (new_revision, actions) = doc.send_history(revision);
                    self.sync_docs.insert(path.clone(), new_revision);
                    match actions {
                        Some(actions) => Ok(ServerMessage::Sync { file: path, revision, actions }),
                        None => Err(ServerMessageError::Silent),
                    }
                } else {
                    self.sync_docs.insert(path, revision);
                    Err(ServerMessageError::Silent)
                }
            },
            InternalMessage::Create { path } => {
                self.sync_docs.insert(path, INITIAL_REVISION);
                Err(ServerMessageError::Silent)
            },
            InternalMessage::Delete { path } => {
                let _ = self.sync_docs.remove(&path);
                Err(ServerMessageError::Silent)
            },
        }
    }

    /// Greets a client that can read: the other clients learn that it
    /// connected, the session tracks every document from its current
    /// revision, and the client gets the files, the users with access whose
    /// names are known and, for the owner only, the pending requests.
    /// Returns the broadcast and the reply.
    pub fn compose_welcome(&mut self, project: &Project<DocumentState>, names: &UserRegistry) -> (r: (
        Option<ServerMessage>,
        Option<ServerMessage>,
    ))
        requires
            project.wf(),
            names.wf(),
            old(self).sync_docs.wf(),
        ensures
            final(self).sync_docs.wf(),
            final(self).session_id == old(self).session_id,
            final(self).user_id == old(self).user_id,
            final(self).user_name == old(self).user_name,
            final(self).access == old(self).access,
            !old(self).access.spec_can_read() ==> r.0 is None && r.1 is None && final(self).sync_docs.view() == old(self).sync_docs.view(),
            old(self).access.spec_can_read() ==> {
                &&& r.0 == Some(
                    ServerMessage::UserConnected {
                        user_id: old(self).user_id,
                        user_name: old(self).user_name,
                    },
                )
                &&& final(self).sync_docs.view() == project.documents.view().map_values(
                    |d: DocumentState| d.revision_view() as usize,
                )
                &&& r.1 matches Some(
                    ServerMessage::Welcome { session_id, files, users, requests },
                ) && session_id == old(self).session_id && listed_files(files) == project_files(
                    *project,
                ) && visible_users_of(*project, names.view(), users) && match requests {
                    Some(m) => project.owner@ == old(self).user_id@ && visible_requests_of(
                        *project,
                        names.view(),
                        m,
                    ),
                    None => project.owner@ != old(self).user_id@,
                }
            },
    {
        if !self.access.can_read() {
            return (None, None);
        }
        let connected = ServerMessage::UserConnected {
            user_id: self.user_id.clone(),
            user_name: self.user_name.clone(),
        };
        self.sync_docs = tracked_revisions(project);
        let files = project_file_list(project);
        let users = project.visible_users(names);
        let requests = project.visible_requests(&self.user_id, names);
        (
            Some(connected),
            Some(ServerMessage::Welcome { session_id: self.session_id.clone(), files, users, requests }),
        )
    }

}

/// A user waiting in the queue can do nothing: every request is refused as
/// not accessible and the project stays as it was.
pub proof fn queued_user_changes_nothing(
    session: Session,
    old: Project<DocumentState>,
    new: Project<DocumentState>,
    msg: ClientMessage,
    out: Outcome,
)
    requires
        request_outcome(session, old, new, msg, out),
        session.access is Queue,
    ensures
        refused(out, ServerMessageError::NotAccessible),
        project_unchanged(old, new),
{
}

/// A reader never changes the files of a project, nor runs anything.
pub proof fn reader_leaves_files_unchanged(
    session: Session,
    old: Project<DocumentState>,
    new: Project<DocumentState>,
    msg: ClientMessage,
    out: Outcome,
)
    requires
        request_outcome(session, old, new, msg, out),
        session.access is ReadOnly,
    ensures
        new.documents.view() == old.documents.view(),
        out.internal is None,
        out.action == RunnerAction::Nothing || out.action == RunnerAction::ForwardLsp,
{
}

/// Only the owner changes the settings or grants access: anyone else is
/// refused and the project stays as it was.
pub proof fn only_owner_configures(
    session: Session,
    old: Project<DocumentState>,
    new: Project<DocumentState>,
    msg: ClientMessage,
    out: Outcome,
)
    requires
        request_outcome(session, old, new, msg, out),
        session.access.spec_can_read(),
        msg is Config || msg is PermitAccess,
        session.user_id@ != old.owner@,
    ensures
        refused(out, ServerMessageError::NotOwner),
        new == old,
{
}

/// After an edit notice the client is never behind: the revision it has
/// been sent up to is at least the document's revision.
pub proof fn edit_notice_catches_up(
    old: Map<Seq<char>, usize>,
    new: Map<Seq<char>, usize>,
    project: Project<DocumentState>,
    path: String,
    r: Result<ServerMessage, ServerMessageError>,
)
    requires
        internal_outcome(old, new, project, InternalMessage::Edit { path }, r),
        project.documents.view().contains_key(path@),
    ensures
        new.contains_key(path@),
        new[path@] >= project.documents.view()[path@].revision_view(),
{
    lemma_revision_fits(project.documents.view()[path@]);
}

/// A file an editor creates starts empty at revision zero, and every client
/// is sent a file list that includes it.
pub proof fn created_file_starts_empty(
    session: Session,
    old: Project<DocumentState>,
    new: Project<DocumentState>,
    file: String,
    out: Outcome,
)
    requires
        request_outcome(session, old, new, ClientMessage::FileCreate { file }, out),
        silent(out),
    ensures
        new.documents.view().contains_key(file@),
        new.documents.view()[file@].text_view() == Seq::<char>::empty(),
        new.documents.view()[file@].revision_view() == 0,
        out.broadcast matches Some(ServerMessage::ProjectFiles { files }) && listed_files(
            files,
        ).contains_key(file@),
{
}

/// A file an editor deletes is gone, and the other files stay as they were.
pub proof fn deleted_file_is_gone(
    session: Session,
    old: Project<DocumentState>,
    new: Project<DocumentState>,
    file: String,
    out: Outcome,
)
    requires
        request_outcome(session, old, new, ClientMessage::FileDelete { file }, out),
        silent(out),
    ensures
        !new.documents.view().contains_key(file@),
        forall|k: Seq<char>|
            k != file@ && #[trigger] old.documents.view().contains_key(k) ==> new.documents.view().contains_key(k)
                && new.documents.view()[k] == old.documents.view()[k],
{
}

} // verus!
