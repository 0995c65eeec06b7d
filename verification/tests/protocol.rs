use rsground::auth::HttpErrors;
use rsground::protocol::parse_protocol_header;

#[test]
fn splits_protocols_and_key_value_pairs() {
    let (protocols, pairs) = parse_protocol_header(Some("auth.token123, json ,, password.secret.x")).unwrap();
    assert_eq!(protocols, vec!["json".to_string()]);
    assert_eq!(
        pairs,
        vec![
            ("auth".to_string(), "token123".to_string()),
            ("password".to_string(), "secret.x".to_string())
        ]
    );
}

#[test]
fn missing_header_or_empty_parts_are_refused() {
    assert_eq!(parse_protocol_header(None), Err(HttpErrors::NoTokenProvided));
    assert_eq!(parse_protocol_header(Some("auth.")), Err(HttpErrors::NoTokenProvided));
    assert_eq!(parse_protocol_header(Some(".token")), Err(HttpErrors::NoTokenProvided));
    assert_eq!(parse_protocol_header(Some("ok, auth.")), Err(HttpErrors::NoTokenProvided));
}

#[test]
fn an_empty_header_has_no_entries() {
    assert_eq!(parse_protocol_header(Some("")), Ok((vec![], vec![])));
    assert_eq!(parse_protocol_header(Some(" , ")), Ok((vec![], vec![])));
}
