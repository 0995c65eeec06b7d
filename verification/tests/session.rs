use operational_transform::OperationSeq;
use rsground::access::AccessLevel;
use rsground::document::DocumentState;
use rsground::errors::ServerMessageError;
use rsground::lsp::{JsonValue, JsonNumber};
use rsground::messages::{error_message, ClientMessage, InternalMessage, ServerMessage};
use rsground::project::{Project, MAIN_FILE};
use rsground::session::{project_file_list, RunnerAction, Session};
use rsground::users::UserRegistry;

fn insert_at(base: u64, text: &str) -> OperationSeq {
    let mut op = OperationSeq::default();
    op.retain(base);
    op.insert(text);
    op
}

fn setup() -> (Project<DocumentState>, Session, Session, UserRegistry) {
    let mut project = Project::with_main_file("owner".into(), "demo".into());
    project.permit_access("owner".into(), AccessLevel::Editor);
    let mut names = UserRegistry::new(10);
    names.add_username("owner".into(), "Owner".into());
    names.add_username("guest".into(), "Guest".into());
    let owner = Session::new("s1".into(), "owner".into(), "Owner".into(), AccessLevel::Editor);
    let access = project.join_project("guest".into(), None).unwrap();
    let guest = Session::new("s2".into(), "guest".into(), "Guest".into(), access);
    (project, owner, guest, names)
}

#[test]
fn two_users_share_a_project() {
    let (mut project, mut owner, mut guest, names) = setup();

    // Welcome: the files, the users with their names, the requests for the owner.
    let (connected, welcome) = owner.compose_welcome(&project, &names);
    assert!(matches!(connected, Some(ServerMessage::UserConnected { ref user_id, .. }) if user_id == "owner"));
    match welcome {
        Some(ServerMessage::Welcome { session_id, files, users, requests }) => {
            assert_eq!(session_id, "s1");
            assert!(files.contains_key(&MAIN_FILE.to_string()));
            assert!(users.contains_key(&"owner".to_string()));
            assert!(users.contains_key(&"guest".to_string()));
            assert!(requests.is_some());
        }
        other => panic!("unexpected {other:?}"),
    }
    let (_, welcome) = guest.compose_welcome(&project, &names);
    assert!(matches!(welcome, Some(ServerMessage::Welcome { requests: None, .. })));

    // The guest reads but cannot edit.
    let out = guest.handle_client_message(&mut project, ClientMessage::FileCreate { file: "test".into() });
    assert_eq!(out.reply.err(), Some(ServerMessageError::ReadonlyPermission));

    // The owner makes the guest an editor; the broadcast updates the guest.
    let out = owner.handle_client_message(
        &mut project,
        ClientMessage::PermitAccess { user_id: "guest".into(), access: AccessLevel::Editor },
    );
    assert_eq!(out.reply.err(), Some(ServerMessageError::Silent));
    let update = out.broadcast.unwrap();
    let forwarded = guest.handle_broadcast(update, Some(&"owner".to_string()));
    assert!(matches!(forwarded, Some(ServerMessage::UpdateAccess { access: AccessLevel::Editor, .. })));
    assert_eq!(guest.access, AccessLevel::Editor);

    // The guest creates a file; everyone gets the new file list.
    let out = guest.handle_client_message(&mut project, ClientMessage::FileCreate { file: "test".into() });
    assert_eq!(out.reply.as_ref().err(), Some(&ServerMessageError::Silent));
    assert_eq!(out.internal, Some(InternalMessage::Create { path: "test".into() }));
    assert_eq!(out.action, RunnerAction::WriteFile { path: "test".into(), text: String::new() });
    match out.broadcast {
        Some(ServerMessage::ProjectFiles { files }) => {
            assert_eq!(files.len(), 2);
            assert_eq!(files.get(&"test".to_string()).unwrap().revision, 0);
        }
        other => panic!("unexpected {other:?}"),
    }
    owner.handle_internal(InternalMessage::Create { path: "test".into() }, &project).unwrap_err();

    // The guest edits; the owner is sent the edit.
    let out = guest.handle_client_message(
        &mut project,
        ClientMessage::Sync { file: "test".into(), revision: 0, actions: insert_at(0, "hi") },
    );
    assert_eq!(out.reply.as_ref().err(), Some(&ServerMessageError::Silent));
    assert_eq!(out.action, RunnerAction::WriteFile { path: "test".into(), text: "hi".into() });
    let notice = out.internal.unwrap();
    match owner.handle_internal(notice, &project) {
        Ok(ServerMessage::Sync { file, revision, actions }) => {
            assert_eq!(file, "test");
            assert_eq!(revision, 0);
            assert_eq!(actions.len(), 1);
            assert_eq!(actions[0].user_id, "s2");
        }
        other => panic!("unexpected {other:?}"),
    }
    // A second notice for the same edit sends nothing more.
    assert_eq!(
        owner.handle_internal(InternalMessage::Edit { path: "test".into() }, &project).err(),
        Some(ServerMessageError::Silent)
    );

    // The guest deletes the file.
    let out = guest.handle_client_message(&mut project, ClientMessage::FileDelete { file: "test".into() });
    assert_eq!(out.internal, Some(InternalMessage::Delete { path: "test".into() }));
    assert_eq!(out.action, RunnerAction::RemoveFile { path: "test".into() });
    assert_eq!(project_file_list(&project).len(), 1);
}

#[test]
fn queued_users_can_do_nothing() {
    let (mut project, _, _, _) = setup();
    let queued = Session::new("s3".into(), "q".into(), "Q".into(), AccessLevel::Queue);
    let out = queued.handle_client_message(&mut project, ClientMessage::SyncFiles);
    assert_eq!(out.reply.err(), Some(ServerMessageError::NotAccessible));
    let out = queued.handle_client_message(&mut project, ClientMessage::Execute);
    assert_eq!(out.action, RunnerAction::Nothing);
}

#[test]
fn requests_reach_the_owner_only() {
    let (_, mut owner, mut guest, _) = setup();
    let request = ServerMessage::RequestAccess { user_id: "x".into(), user_name: "X".into() };
    assert!(owner.handle_broadcast(request.clone(), Some(&"owner".to_string())).is_some());
    assert!(guest.handle_broadcast(request, Some(&"owner".to_string())).is_none());
    let mut queued = Session::new("s3".into(), "q".into(), "Q".into(), AccessLevel::Queue);
    let files = ServerMessage::SyncOutputStart;
    assert!(queued.handle_broadcast(files, Some(&"owner".to_string())).is_none());
}

#[test]
fn stale_edits_are_refused_with_their_reason() {
    let (mut project, owner, _, _) = setup();
    let out = owner.handle_client_message(
        &mut project,
        ClientMessage::Sync { file: MAIN_FILE.into(), revision: 5, actions: insert_at(0, "x") },
    );
    match out.reply {
        Err(ServerMessageError::InvalidOperation(m)) => assert_eq!(m, "got revision 5, but current is 0"),
        other => panic!("unexpected {other:?}"),
    }
    let out = owner.handle_client_message(
        &mut project,
        ClientMessage::Sync { file: "missing".into(), revision: 0, actions: insert_at(0, "x") },
    );
    assert_eq!(out.reply.err(), Some(ServerMessageError::FileNotFound("missing".into())));
}

#[test]
fn cursors_are_shared() {
    let (mut project, owner, _, _) = setup();
    let out = owner.handle_client_message(
        &mut project,
        ClientMessage::SyncCursor { file: MAIN_FILE.into(), cursors: vec![(1, 2)] },
    );
    match out.broadcast {
        Some(ServerMessage::SyncCursors { file, cursors }) => {
            assert_eq!(file, MAIN_FILE);
            assert_eq!(cursors.get(&"owner".to_string()), Some(&vec![(1, 2)]));
        }
        other => panic!("unexpected {other:?}"),
    }
}

#[test]
fn execution_and_language_server_requests() {
    let (mut project, owner, guest, _) = setup();
    assert_eq!(owner.handle_client_message(&mut project, ClientMessage::Execute).action, RunnerAction::Execute);
    assert_eq!(owner.handle_client_message(&mut project, ClientMessage::StopExecute).action, RunnerAction::StopExecute);
    assert_eq!(guest.handle_client_message(&mut project, ClientMessage::Execute).reply.err(), Some(ServerMessageError::ReadonlyPermission));

    let ok = JsonValue::Object(vec![
        ("jsonrpc".into(), JsonValue::Str("2.0".into())),
        ("id".into(), JsonValue::Number(JsonNumber::PosInt(1))),
        ("method".into(), JsonValue::Str("initialize".into())),
    ]);
    assert_eq!(guest.handle_client_message(&mut project, ClientMessage::Lsp { message: ok }).action, RunnerAction::ForwardLsp);
    let bad = JsonValue::Array(vec![]);
    match guest.handle_client_message(&mut project, ClientMessage::Lsp { message: bad }).reply {
        Err(ServerMessageError::InvalidOperation(m)) => {
            assert_eq!(m, "invalid language-server message: LSP message must be a JSON object")
        }
        other => panic!("unexpected {other:?}"),
    }
}

#[test]
fn configuration_is_broadcast() {
    let (mut project, owner, guest, _) = setup();
    let out = owner.handle_client_message(
        &mut project,
        ClientMessage::Config { name: Some("renamed".into()), is_public: None, password: None },
    );
    assert!(matches!(out.broadcast, Some(ServerMessage::ProjectConfig { ref name, is_public: true }) if name == "renamed"));
    let out = guest.handle_client_message(
        &mut project,
        ClientMessage::Config { name: Some("x".into()), is_public: None, password: None },
    );
    assert_eq!(out.reply.err(), Some(ServerMessageError::NotOwner));
    assert_eq!(project.name, "renamed");
}

#[test]
fn error_texts_match_the_protocol() {
    assert_eq!(error_message(&ServerMessageError::FileNotFound("a\"b".into())), "File \"a\\\"b\" not found");
    assert_eq!(error_message(&ServerMessageError::NotAccessible), "You don't have read permission");
    assert_eq!(
        error_message(&ServerMessageError::ProjectNotFound(0x67e5504410b1426f9247bb680e5fe0c8)),
        "Project 67e55044-10b1-426f-9247-bb680e5fe0c8 not found"
    );
    assert_eq!(error_message(&ServerMessageError::Silent), "");
}
