use rsground::access::AccessLevel;
use rsground::errors::ServerMessageError;

#[test]
fn access_levels_have_expected_permissions() {
    assert!(!AccessLevel::Queue.can_read());
    assert!(AccessLevel::ReadOnly.can_read());
    assert!(AccessLevel::Editor.can_read());

    assert!(!AccessLevel::Queue.is_readonly());
    assert!(AccessLevel::ReadOnly.is_readonly());
    assert!(!AccessLevel::Editor.is_readonly());

    assert!(!AccessLevel::Queue.is_editor());
    assert!(!AccessLevel::ReadOnly.is_editor());
    assert!(AccessLevel::Editor.is_editor());
}

#[test]
fn read_and_edit_guards_return_specific_errors() {
    assert!(matches!(
        AccessLevel::Queue.need_read(),
        Err(ServerMessageError::NotAccessible)
    ));
    assert!(AccessLevel::ReadOnly.need_read().is_ok());
    assert!(AccessLevel::Editor.need_read().is_ok());

    assert!(matches!(
        AccessLevel::Queue.need_editor(),
        Err(ServerMessageError::NotAccessible)
    ));
    assert!(matches!(
        AccessLevel::ReadOnly.need_editor(),
        Err(ServerMessageError::ReadonlyPermission)
    ));
    assert!(AccessLevel::Editor.need_editor().is_ok());
}

#[test]
fn new_users_start_in_the_queue() {
    assert_eq!(AccessLevel::default(), AccessLevel::Queue);
}

#[test]
fn editors_can_read() {
    for level in [AccessLevel::Queue, AccessLevel::ReadOnly, AccessLevel::Editor] {
        if level.need_editor().is_ok() {
            assert!(level.need_read().is_ok());
        }
    }
}
