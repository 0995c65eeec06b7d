use rsground::access::AccessLevel;
use rsground::auth::HttpErrors;
use rsground::document::DocumentState;
use rsground::errors::ServerMessageError;
use rsground::paths::{is_patchable_binary, is_relative_home_path, is_valid_file_path};
use rsground::project::{fork_name, is_valid_name, Project, MAIN_FILE, MAIN_SOURCE};

fn owner() -> String {
    "owner".to_string()
}

#[test]
fn project_names_are_trimmed_bounded_and_printable() {
    assert!(is_valid_name("My project"));
    assert!(is_valid_name("  padded  "));
    assert!(!is_valid_name("   "));
    assert!(!is_valid_name(&"a".repeat(129)));
    assert!(is_valid_name(&"a".repeat(128)));
    assert!(!is_valid_name("bad\u{7}name"));
}

#[test]
fn file_paths_stay_relative_and_normal() {
    assert!(is_valid_file_path("main.rs"));
    assert!(is_valid_file_path("src/lib.rs"));
    assert!(!is_valid_file_path(""));
    assert!(!is_valid_file_path("/etc/passwd"));
    assert!(!is_valid_file_path("../main.rs"));
    assert!(!is_valid_file_path("./a"));
    assert!(is_valid_file_path("a/./b"));
    assert!(!is_valid_file_path("a\0b"));
    assert!(!is_valid_file_path(&"a".repeat(513)));
    assert!(is_relative_home_path("a/b"));
    assert!(!is_relative_home_path("a/../b"));
    assert!(!is_relative_home_path("/home/a"));
    for path in ["main.rs", "src/lib.rs", "a/./b"] {
        assert!(is_valid_file_path(path) && is_relative_home_path(path));
    }
    assert!(is_patchable_binary("/home/main"));
    assert!(!is_patchable_binary("/bin/sh"));
    assert!(!is_patchable_binary("/home/../bin/sh"));
}

#[test]
fn forks_are_named_once() {
    assert_eq!(fork_name("Demo"), "Demo (fork)");
    assert_eq!(fork_name("Demo (fork)"), "Demo (fork)");
    assert_eq!(fork_name(""), " (fork)");
}

#[test]
fn new_projects_hold_the_greeting_program() {
    let project = Project::with_main_file(owner(), "Demo".into());
    let main = project.get_file(&MAIN_FILE.to_string()).unwrap();
    assert_eq!(main.text(), MAIN_SOURCE);
    assert_eq!(main.revision(), 0);
    assert!(project.is_public);
    assert!(project.password.is_none());
}

#[test]
fn forking_copies_texts_but_not_history_or_users() {
    let mut project = Project::with_main_file(owner(), "Demo".into());
    project.permit_access("guest".into(), AccessLevel::Editor);
    let fork = project.fork("guest".into());
    assert_eq!(fork.owner, "guest");
    assert_eq!(fork.name, "Demo (fork)");
    assert_ne!(fork.id, project.id);
    assert_eq!(fork.get_file(&MAIN_FILE.to_string()).unwrap().text(), MAIN_SOURCE);
    assert!(fork.allowed_users.is_empty());
}

#[test]
fn joining_a_public_project_without_password_gives_read_access() {
    let mut project: Project<DocumentState> = Project::new(owner(), "p".into());
    assert_eq!(project.join_project("u".into(), None), Ok(AccessLevel::ReadOnly));
    // A user with access keeps it.
    project.permit_access("u".into(), AccessLevel::Editor);
    assert_eq!(project.join_project("u".into(), None), Ok(AccessLevel::Editor));
}

#[test]
fn joining_a_private_project_queues() {
    let mut project: Project<DocumentState> = Project::new(owner(), "p".into());
    project.is_public = false;
    assert_eq!(project.join_project("u".into(), None), Ok(AccessLevel::Queue));
    assert!(project.add_request("u".into()));
    assert!(!project.add_request("u".into()));
}

#[test]
fn project_passwords_are_checked() {
    let mut project: Project<DocumentState> = Project::new(owner(), "p".into());
    assert_eq!(
        project.apply_config(&owner(), None, None, Some("hunter2".into())),
        Ok(())
    );
    let hash = project.password.clone().unwrap();
    assert_ne!(hash, "hunter2");
    assert_eq!(
        project.join_project("u".into(), None),
        Err(HttpErrors::InvalidPassword)
    );
    assert_eq!(
        project.join_project("u".into(), Some("wrong".into())),
        Err(HttpErrors::InvalidPassword)
    );
    assert_eq!(
        project.join_project("u".into(), Some("hunter2".into())),
        Ok(AccessLevel::ReadOnly)
    );
}

#[test]
fn only_the_owner_configures() {
    let mut project: Project<DocumentState> = Project::new(owner(), "p".into());
    assert_eq!(
        project.apply_config(&"intruder".to_string(), Some("x".into()), None, None),
        Err(ServerMessageError::NotOwner)
    );
    assert_eq!(project.name, "p");
    assert_eq!(
        project.apply_config(&owner(), Some("q".into()), Some(false), None),
        Ok(())
    );
    assert_eq!(project.name, "q");
    assert!(!project.is_public);
    // A password on a private project is not set.
    assert_eq!(project.apply_config(&owner(), None, None, Some("pw".into())), Ok(()));
    assert!(project.password.is_none());
    assert_eq!(
        project.apply_config(&owner(), None, None, Some("x".repeat(257))),
        Err(ServerMessageError::PasswordTooLong)
    );
}

#[test]
fn an_empty_password_removes_it() {
    let mut project: Project<DocumentState> = Project::new(owner(), "p".into());
    project.apply_config(&owner(), None, None, Some("pw".into())).unwrap();
    assert!(project.password.is_some());
    project.apply_config(&owner(), None, None, Some(String::new())).unwrap();
    assert!(project.password.is_none());
}

#[test]
fn file_creation_checks_access_path_limit_and_duplicates() {
    let mut project: Project<DocumentState> = Project::new(owner(), "p".into());
    assert_eq!(
        project.create_file(AccessLevel::ReadOnly, "a.rs".into(), DocumentState::new()),
        Err(ServerMessageError::ReadonlyPermission)
    );
    assert_eq!(
        project.create_file(AccessLevel::Editor, "../a.rs".into(), DocumentState::new()),
        Err(ServerMessageError::InvalidFilePath("../a.rs".into()))
    );
    assert_eq!(
        project.create_file(AccessLevel::Editor, "a.rs".into(), DocumentState::new()),
        Ok(())
    );
    assert_eq!(
        project.create_file(AccessLevel::Editor, "a.rs".into(), DocumentState::new()),
        Err(ServerMessageError::FileAlreadyExists("a.rs".into()))
    );
    for i in 1..256 {
        project
            .create_file(AccessLevel::Editor, format!("f{i}.rs"), DocumentState::new())
            .unwrap();
    }
    assert_eq!(
        project.create_file(AccessLevel::Editor, "last.rs".into(), DocumentState::new()),
        Err(ServerMessageError::ProjectFileLimit)
    );
    assert!(project.delete_file(AccessLevel::Editor, "a.rs".into()).is_ok());
    assert_eq!(
        project.delete_file(AccessLevel::Editor, "a.rs".into()).err(),
        Some(ServerMessageError::FileNotFound("a.rs".into()))
    );
    assert_eq!(
        project.delete_file(AccessLevel::Queue, "f1.rs".into()).err(),
        Some(ServerMessageError::NotAccessible)
    );
}

#[test]
fn passwords_are_stored_as_argon2id_phc_strings() {
    let mut project: Project<DocumentState> = Project::new(owner(), "p".into());
    assert_eq!(project.set_password(Some("hunter2")), Ok(()));
    let hash = project.password.clone().unwrap();
    assert!(hash.starts_with("$argon2id$v=19$m=19456,t=2,p=1$"));
    assert_ne!(hash, "hunter2");
    assert_eq!(project.set_password(None), Ok(()));
    assert!(project.password.is_none());
}
