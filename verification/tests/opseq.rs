use rsground::opseq::{check_json_limits, OpSeq};

#[test]
fn applies_unicode_insertions_and_deletions() {
    let mut operation = OpSeq::new();
    operation.retain(5);
    operation.insert(" brave");
    operation.retain(6);

    assert_eq!(operation.base_len(), 11);
    assert_eq!(operation.target_len(), 17);
    assert_eq!(
        operation.apply("hello world"),
        Some("hello brave world".to_owned())
    );

    let mut delete = OpSeq::new();
    delete.retain(5);
    delete.delete(6);
    assert_eq!(delete.apply("hello world"), Some("hello".to_owned()));
}

#[test]
fn inverse_reverts_an_operation() {
    let mut operation = OpSeq::new();
    operation.retain(5);
    operation.insert(" brave");
    operation.retain(6);

    let changed = operation.apply("hello world").unwrap();
    let inverse = operation.invert("hello world");

    assert_eq!(inverse.apply(&changed), Some("hello world".to_owned()));
}

#[test]
fn composes_consecutive_operations() {
    let mut first = OpSeq::new();
    first.insert("hello");

    let mut second = OpSeq::new();
    second.retain(5);
    second.insert(" world");

    let composed = first.compose(&second).unwrap();
    assert_eq!(composed.apply(""), Some("hello world".to_owned()));

    let mut incompatible = OpSeq::new();
    incompatible.retain(1);
    assert!(first.compose(&incompatible).is_none());
}

#[test]
fn transforms_concurrent_operations_in_both_orders() {
    let mut local = OpSeq::new();
    local.retain(5);
    local.insert("!");

    let mut remote = OpSeq::new();
    remote.retain(5);
    remote.insert("?");

    let pair = local.transform(&remote).unwrap();
    let local_then_remote = pair.second().apply(&local.apply("hello").unwrap()).unwrap();
    let remote_then_local = pair.first().apply(&remote.apply("hello").unwrap()).unwrap();

    assert_eq!(local_then_remote, remote_then_local);
    assert_eq!(
        local.transform_raw(&remote).unwrap(),
        (pair.first(), pair.second())
    );

    let mut incompatible = OpSeq::new();
    incompatible.retain(4);
    assert!(local.transform(&incompatible).is_none());
}

#[test]
fn transforms_indexes_for_insertions_and_deletions() {
    let mut insertion = OpSeq::new();
    insertion.insert("🌎");
    insertion.retain(4);

    assert_eq!(insertion.transform_index(0), 1);
    assert_eq!(insertion.transform_index(2), 3);
    assert_eq!(insertion.transform_index(4), 5);

    let mut deletion = OpSeq::new();
    deletion.retain(2);
    deletion.delete(2);
    deletion.retain(2);

    assert_eq!(deletion.transform_index(1), 1);
    assert_eq!(deletion.transform_index(2), 2);
    assert_eq!(deletion.transform_index(3), 2);
    assert_eq!(deletion.transform_index(6), 4);
}

#[test]
fn serializes_and_deserializes_operations() {
    let mut operation = OpSeq::with_capacity(3);
    operation.retain(5);
    operation.insert(" brave");
    operation.retain(6);

    let serialized = operation.to_string();
    assert_eq!(serialized, r#"[5," brave",6]"#);
    assert_eq!(OpSeq::from_str(&serialized), Some(operation.clone()));
    assert!(OpSeq::from_str("not json").is_none());
    assert!(OpSeq::from_str(r#"{"invalid":true}"#).is_none());
}

#[test]
fn reports_noop_and_length_metadata() {
    let operation = OpSeq::new();
    assert!(operation.is_noop());
    assert_eq!(operation.base_len(), 0);
    assert_eq!(operation.target_len(), 0);

    let mut retain = OpSeq::new();
    retain.retain(3);
    assert!(retain.is_noop());
    assert_eq!(retain.base_len(), 3);
    assert_eq!(retain.target_len(), 3);

    let mut changed = OpSeq::new();
    changed.insert("x");
    assert!(!changed.is_noop());
}

#[test]
fn deletes_serialize_as_negative_numbers() {
    let mut operation = OpSeq::default();
    operation.retain(2);
    operation.delete(3);
    assert_eq!(operation.to_string(), "[2,-3]");
    assert_eq!(OpSeq::from_str("[2,-3]").unwrap().base_len(), 5);
}

#[test]
fn inverse_of_a_deletion_restores_the_text() {
    let mut operation = OpSeq::new();
    operation.retain(1);
    operation.delete(2);
    let inverse = operation.invert("abc");
    assert_eq!(inverse.apply("a"), Some("abc".to_owned()));
}

#[test]
fn numbers_beyond_the_reader_limits_are_refused() {
    assert!(OpSeq::from_str("[-9223372036854775808]").is_none());
    assert!(OpSeq::from_str(r#"[18446744073709551615,"a",1]"#).is_none());
    assert!(!check_json_limits("[18446744073709551615]"));
    assert!(check_json_limits(r#"[5," 99999999999999999999 ",6]"#));
    let parsed = OpSeq::from_str(r#"[5," 99999999999999999999 ",6]"#).unwrap();
    assert_eq!(parsed.base_len(), 11);
    assert_eq!(parsed.target_len(), 33);
    assert_eq!(OpSeq::from_str("[9223372036854775807]").unwrap().base_len(), 9223372036854775807);
}

#[test]
fn json_text_reads_back_the_same_sequence() {
    let mut operation = OpSeq::new();
    operation.retain(2);
    operation.delete(3);
    operation.insert("a\"b");
    let text = operation.to_string();
    assert_eq!(OpSeq::from_str(&text), Some(operation));
}
