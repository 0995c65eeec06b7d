use rsground::lsp::{
    content_length, decode_content, header_push, read_lsp_message, validate_lsp_message,
    write_lsp_message, ByteReader, HeaderStep, JsonNumber, JsonValue, LspEnvelopeError,
    LspFrameError, MAX_LSP_MESSAGE_BYTES,
};

fn obj(members: Vec<(&str, JsonValue)>) -> JsonValue {
    JsonValue::Object(members.into_iter().map(|(k, v)| (k.to_string(), v)).collect())
}

fn s(text: &str) -> JsonValue {
    JsonValue::Str(text.to_string())
}

fn num(n: u64) -> JsonValue {
    JsonValue::Number(JsonNumber::PosInt(n))
}

#[test]
fn round_trips_lsp_frames() {
    let message = r#"{"jsonrpc":"2.0","id":1}"#;
    let mut frame = Vec::new();

    write_lsp_message(&mut frame, message).unwrap();

    assert_eq!(
        read_lsp_message(&mut ByteReader::new(frame)).unwrap(),
        Some(message.into())
    );
}

#[test]
fn accepts_additional_headers_and_mixed_case() {
    let frame = b"content-length: 2\r\nContent-Type: application/json\r\n\r\n{}";

    assert_eq!(
        read_lsp_message(&mut ByteReader::new(frame.to_vec())).unwrap(),
        Some("{}".into())
    );
}

#[test]
fn validates_requests_and_notifications() {
    assert!(validate_lsp_message(&obj(vec![
        ("jsonrpc", s("2.0")),
        ("id", num(1)),
        ("method", s("initialize")),
    ]))
    .is_ok());
    assert!(validate_lsp_message(&obj(vec![("jsonrpc", s("2.0")), ("method", s("initialized"))]))
        .is_ok());
}

#[test]
fn rejects_malformed_json_rpc_envelopes() {
    for message in [
        JsonValue::Array(vec![]),
        obj(vec![("jsonrpc", s("1.0")), ("method", s("initialize"))]),
        obj(vec![("jsonrpc", s("2.0"))]),
        obj(vec![("jsonrpc", s("2.0")), ("id", JsonValue::Bool(true)), ("method", s("initialize"))]),
        obj(vec![("jsonrpc", s("2.0")), ("id", num(1))]),
    ] {
        assert!(validate_lsp_message(&message).is_err(), "{message:?}");
    }
}

#[test]
fn envelope_errors_are_specific() {
    assert_eq!(validate_lsp_message(&JsonValue::Null), Err(LspEnvelopeError::NotObject));
    assert_eq!(
        validate_lsp_message(&obj(vec![("jsonrpc", s("1.0")), ("method", s("x"))])),
        Err(LspEnvelopeError::WrongVersion)
    );
    assert_eq!(
        validate_lsp_message(&obj(vec![("jsonrpc", s("2.0")), ("method", s(""))])),
        Err(LspEnvelopeError::InvalidMethod)
    );
    assert_eq!(
        validate_lsp_message(&obj(vec![("jsonrpc", s("2.0")), ("id", num(1)), ("result", JsonValue::Null)])),
        Ok(())
    );
    assert_eq!(
        LspEnvelopeError::NotObject.message(),
        "LSP message must be a JSON object"
    );
}

#[test]
fn frames_announce_the_byte_length() {
    let mut frame = Vec::new();
    write_lsp_message(&mut frame, "é").unwrap();
    assert_eq!(frame, b"Content-Length: 2\r\n\r\n\xc3\xa9".to_vec());
}

#[test]
fn oversized_messages_are_not_written() {
    let mut frame = vec![1u8];
    let big = "a".repeat(MAX_LSP_MESSAGE_BYTES + 1);
    assert_eq!(write_lsp_message(&mut frame, &big), Err(LspFrameError::MessageTooLarge));
    assert_eq!(frame, vec![1u8]);
}

#[test]
fn two_frames_are_read_in_order_then_end_of_input() {
    let mut data = Vec::new();
    write_lsp_message(&mut data, "first").unwrap();
    write_lsp_message(&mut data, "second").unwrap();
    let mut reader = ByteReader::new(data);
    assert_eq!(read_lsp_message(&mut reader), Ok(Some("first".to_string())));
    assert_eq!(read_lsp_message(&mut reader), Ok(Some("second".to_string())));
    assert_eq!(read_lsp_message(&mut reader), Ok(None));
}

#[test]
fn broken_frames_are_reported() {
    let truncated = b"Content-Length: 10\r\n\r\nabc".to_vec();
    assert_eq!(
        read_lsp_message(&mut ByteReader::new(truncated)),
        Err(LspFrameError::TruncatedContent)
    );
    let no_length = b"Content-Type: x\r\n\r\n".to_vec();
    assert_eq!(
        read_lsp_message(&mut ByteReader::new(no_length)),
        Err(LspFrameError::MissingLength)
    );
    let bad_length = b"Content-Length: x1\r\n\r\n".to_vec();
    assert_eq!(
        read_lsp_message(&mut ByteReader::new(bad_length)),
        Err(LspFrameError::InvalidLength)
    );
}

#[test]
fn header_is_read_byte_by_byte() {
    let mut header = Vec::new();
    let bytes = b"Content-Length: 5\r\n\r\n";
    for (i, b) in bytes.iter().enumerate() {
        let step = header_push(&mut header, *b);
        if i + 1 < bytes.len() {
            assert_eq!(step, HeaderStep::Continue);
        } else {
            assert_eq!(step, HeaderStep::Complete(5));
        }
    }
    assert_eq!(content_length(&header), Ok(5));
    assert_eq!(decode_content(&b"hello".to_vec()), Ok("hello".to_string()));
    assert_eq!(decode_content(&vec![0xff]), Err(LspFrameError::InvalidContentEncoding));
}

#[test]
fn an_oversized_header_takes_one_byte_past_the_limit() {
    let mut data = vec![b'a'; 8193];
    data.push(b'Z');
    let mut reader = ByteReader::new(data);
    assert_eq!(read_lsp_message(&mut reader), Err(LspFrameError::HeaderTooLarge));
    assert_eq!(reader.read_byte(), Some(b'Z'));
    assert_eq!(reader.read_byte(), None);
}

#[test]
fn a_length_beyond_the_limit_reads_no_body_byte() {
    let mut data = b"Content-Length: 2000000\r\n\r\n".to_vec();
    data.extend_from_slice(b"body");
    let mut reader = ByteReader::new(data);
    assert_eq!(read_lsp_message(&mut reader), Err(LspFrameError::MessageTooLarge));
    assert_eq!(reader.read_byte(), Some(b'b'));
}
