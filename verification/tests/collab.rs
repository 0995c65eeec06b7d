use operational_transform::OperationSeq;
use rsground::document::{ComposeError, DocumentState, MAX_DOCUMENT_BYTES};
use rsground::messages::compose_error_message;
use rsground::ot::transform_index;

fn append(base_len: u32, text: &str) -> OperationSeq {
    let mut operation = OperationSeq::default();
    operation.retain(base_len as u64);
    operation.insert(text);
    operation
}

fn prepend(base_len: u32, text: &str) -> OperationSeq {
    let mut operation = OperationSeq::default();
    operation.insert(text);
    operation.retain(base_len as u64);
    operation
}

#[test]
fn insertion_shifts_positions_by_unicode_character_count() {
    let mut operation = OperationSeq::default();
    operation.insert("🌎");
    operation.retain(4);

    assert_eq!(transform_index(&operation, 0), 1);
    assert_eq!(transform_index(&operation, 2), 3);
    assert_eq!(transform_index(&operation, 4), 5);
}

#[test]
fn deletion_collapses_positions_inside_deleted_range() {
    let mut operation = OperationSeq::default();
    operation.retain(2);
    operation.delete(2);
    operation.retain(2);

    assert_eq!(transform_index(&operation, 1), 1);
    assert_eq!(transform_index(&operation, 2), 2);
    assert_eq!(transform_index(&operation, 3), 2);
    assert_eq!(transform_index(&operation, 6), 4);
}

#[test]
fn compose_updates_text_history_and_cursors() {
    let mut document = DocumentState::new_with("hello".to_owned());
    document.set_cursors("client".into(), vec![(1, 4)]);

    document.compose("first".into(), 0, append(5, " world")).unwrap();
    assert_eq!(document.text(), "hello world");
    assert_eq!(document.revision(), 1);
    assert_eq!(document.cursors_of(&"client".to_string()), Some(vec![(1, 4)]));

    // This operation was authored against revision zero and must be
    // transformed over the append above.
    document.compose("second".into(), 0, prepend(5, "X")).unwrap();
    assert_eq!(document.text(), "Xhello world");
    assert_eq!(document.revision(), 2);
    assert_eq!(document.cursors_of(&"client".to_string()), Some(vec![(2, 5)]));

    let (revision, history) = document.send_history(1);
    let history = history.expect("revision one should have one operation");
    assert_eq!(revision, 2);
    assert_eq!(history.len(), 1);
    assert_eq!(history[0].user_id.as_str(), "second");

    let (revision, history) = document.send_history(2);
    assert_eq!(revision, 2);
    assert!(history.is_none());
}

#[test]
fn rejects_future_revisions_and_oversized_documents() {
    let mut document = DocumentState::new_with("hello".to_owned());
    let error = document
        .compose("client".into(), 1, append(5, "!"))
        .expect_err("future revisions must be rejected");
    assert_eq!(error, ComposeError::FutureRevision { revision: 1, current: 0 });
    assert!(compose_error_message(&error).contains("current is 0"));
    assert_eq!(document.revision(), 0);

    let mut oversized = DocumentState::new();
    let mut operation = OperationSeq::default();
    operation.insert(&"a".repeat(MAX_DOCUMENT_BYTES + 1));
    let error = oversized
        .compose("client".into(), 0, operation)
        .expect_err("oversized documents must be rejected");
    assert_eq!(error, ComposeError::TooLarge { target_len: MAX_DOCUMENT_BYTES + 1 });
    assert!(compose_error_message(&error).contains("greater than"));
    assert_eq!(oversized.text(), "");
    assert_eq!(oversized.revision(), 0);
}

#[test]
fn fork_copies_text_without_history_or_cursors() {
    let mut document = DocumentState::new_with("hello".to_owned());
    document.set_cursors("client".into(), vec![(0, 1)]);
    document.compose("client".into(), 0, append(5, "!")).unwrap();

    let fork = document.fork();
    assert_eq!(fork.text(), "hello!");
    assert_eq!(fork.revision(), 0);
    assert!(!fork.has_cursors());
}

#[test]
fn compose_rejects_operations_of_the_wrong_length() {
    let mut document = DocumentState::new_with("hello".to_owned());
    let error = document.compose("client".into(), 0, append(4, "!")).unwrap_err();
    assert_eq!(error, ComposeError::IncompatibleLengths);
    assert_eq!(document.text(), "hello");
    assert_eq!(document.revision(), 0);
}

#[test]
fn empty_cursor_list_removes_the_selections() {
    let mut document = DocumentState::new_with("hello".to_owned());
    document.set_cursors("client".into(), vec![(0, 1)]);
    assert!(document.has_cursors());
    document.set_cursors("client".into(), Vec::new());
    assert!(!document.has_cursors());
    assert_eq!(document.cursors_of(&"client".to_string()), None);
}

#[test]
fn compose_error_texts_are_exact() {
    assert_eq!(
        compose_error_message(&ComposeError::FutureRevision { revision: 7, current: 3 }),
        "got revision 7, but current is 3"
    );
    assert_eq!(compose_error_message(&ComposeError::IncompatibleLengths), "incompatible lengths");
    assert_eq!(
        compose_error_message(&ComposeError::TooLarge { target_len: 262145 }),
        "target length 262145 is greater than 256 KiB maximum"
    );
}

#[test]
fn concurrent_edits_converge() {
    // Two clients edit revision zero; the second edit is transformed over
    // the first, and both orders give the same text.
    let mut document = DocumentState::new_with("ab".to_owned());
    document.compose("one".into(), 0, append(2, "c")).unwrap();
    document.compose("two".into(), 0, prepend(2, "z")).unwrap();
    assert_eq!(document.text(), "zabc");
    assert_eq!(document.revision(), 2);
    assert_eq!(document.info().text, "zabc");
    assert_eq!(document.info().revision, 2);
}

#[test]
fn cursor_map_lists_every_client() {
    let mut document = DocumentState::new_with("hello".to_owned());
    document.set_cursors("a".into(), vec![(0, 1)]);
    document.set_cursors("b".into(), vec![(2, 3), (4, 4)]);
    let map = document.cursor_map();
    assert_eq!(map.len(), 2);
    assert_eq!(map.get(&"a".to_string()), Some(&vec![(0, 1)]));
    assert_eq!(map.get(&"b".to_string()), Some(&vec![(2, 3), (4, 4)]));
    let mut users = document.cursor_users();
    users.sort();
    assert_eq!(users, vec!["a".to_string(), "b".to_string()]);
}

#[test]
fn replaying_sent_edits_reaches_the_document_text() {
    let mut document = DocumentState::new_with("ab".to_owned());
    document.compose("one".into(), 0, append(2, "c")).unwrap();
    document.compose("two".into(), 0, prepend(2, "z")).unwrap();
    document.compose("three".into(), 2, append(4, "!")).unwrap();

    // A client that has the text of revision one is sent the rest.
    let mut client_text = "abc".to_owned();
    let (revision, history) = document.send_history(1);
    assert_eq!(revision, 3);
    for op in history.unwrap() {
        client_text = op.operation.apply(&client_text).unwrap();
    }
    assert_eq!(client_text, document.text());
}

#[test]
fn transform_index_keeps_order_and_ends_at_the_target_length() {
    let mut operation = OperationSeq::default();
    operation.retain(2);
    operation.delete(3);
    operation.insert("xyz!");
    operation.retain(1);
    let mut last = 0;
    for p in 0..=6u32 {
        let q = transform_index(&operation, p);
        assert!(last <= q && q <= 7);
        last = q;
    }
    assert_eq!(transform_index(&operation, 6), 7);
    let mut retains = OperationSeq::default();
    retains.retain(4);
    assert_eq!(transform_index(&retains, 3), 3);
    assert_eq!(transform_index(&retains, 9), 9);
}

#[test]
fn sequences_built_by_the_crate_fit_its_counters() {
    let mut operation = OperationSeq::default();
    operation.retain(3);
    operation.delete(2);
    operation.insert("héllo");
    assert!(rsground::ot::op_seq_fits(&operation));
    assert!(rsground::ot::op_seq_fits(&OperationSeq::default()));
}
