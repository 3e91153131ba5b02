use codetrackr::framing::{decode_body, frame_message, read_message, MessageReader, ReadStep};

#[test]
fn frame_message_writes_header_then_body() {
    assert_eq!(frame_message(b"hello"), b"Content-Length: 5\r\n\r\nhello".to_vec());
    assert_eq!(frame_message(b""), b"Content-Length: 0\r\n\r\n".to_vec());
}

#[test]
fn frame_message_counts_bytes_not_chars() {
    let body = "héllo".as_bytes();
    assert_eq!(body.len(), 6);
    let framed = frame_message(body);
    assert!(framed.starts_with(b"Content-Length: 6\r\n\r\n"));
}

#[test]
fn read_message_reads_back_a_framed_body() {
    let body = r#"{"jsonrpc":"2.0","method":"initialized"}"#;
    let mut input = frame_message(body.as_bytes());
    let framed_len = input.len();
    input.extend_from_slice(b"Content-Length: 2\r\n\r\n{}");
    let (text, used) = read_message(&input).unwrap();
    assert_eq!(text, body);
    assert_eq!(used, framed_len);
    let (second, used2) = read_message(&input[used..]).unwrap();
    assert_eq!(second, "{}");
    assert_eq!(used + used2, input.len());
}

#[test]
fn read_message_skips_other_headers() {
    let input = b"Content-Type: application/vscode-jsonrpc\r\nContent-Length: 3\r\n\r\nabcdef";
    assert_eq!(read_message(input), Some(("abc".to_string(), input.len() - 3)));
}

#[test]
fn read_message_last_length_header_wins() {
    let input = b"Content-Length: 1\r\nContent-Length: 2\r\n\r\nxyz";
    assert_eq!(read_message(input).map(|(t, _)| t), Some("xy".to_string()));
}

#[test]
fn read_message_bad_length_discards_earlier_one() {
    let input = b"Content-Length: 2\r\nContent-Length: two\r\n\r\nxy";
    assert_eq!(read_message(input), None);
}

#[test]
fn read_message_without_length_fails() {
    assert_eq!(read_message(b"Content-Type: x\r\n\r\nbody"), None);
    assert_eq!(read_message(b"\r\nbody"), None);
}

#[test]
fn read_message_at_end_of_input_fails() {
    assert_eq!(read_message(b""), None);
    assert_eq!(read_message(b"Content-Length: 3\r\n"), None);
}

#[test]
fn read_message_short_body_fails() {
    assert_eq!(read_message(b"Content-Length: 10\r\n\r\nabc"), None);
}

#[test]
fn read_message_accepts_plus_sign_and_spaces() {
    let input = b"  Content-Length:   +4 \n\n\tabcd";
    assert_eq!(read_message(input), Some(("\tabc".to_string(), input.len() - 1)));
}

#[test]
fn read_message_body_not_utf8_is_empty_text() {
    let input = b"Content-Length: 2\r\n\r\n\xff\xfe";
    assert_eq!(read_message(input), Some((String::new(), input.len())));
}

#[test]
fn read_message_header_not_utf8_fails() {
    assert_eq!(read_message(b"X-\xff: 1\r\nContent-Length: 1\r\n\r\na"), None);
}

#[test]
fn read_message_length_overflow_fails() {
    assert_eq!(read_message(b"Content-Length: 99999999999999999999999\r\n\r\na"), None);
}

#[test]
fn message_reader_steps() {
    let mut r = MessageReader::new();
    assert_eq!(r.on_line(Some("Content-Length: 12\r\n")), ReadStep::NextLine);
    assert_eq!(r.content_length, Some(12));
    assert_eq!(r.on_line(Some("X: y\r\n")), ReadStep::NextLine);
    assert_eq!(r.content_length, Some(12));
    assert_eq!(r.on_line(Some("\r\n")), ReadStep::ReadBody(12));

    let mut r = MessageReader::new();
    assert_eq!(r.on_line(Some("\r\n")), ReadStep::Stop);
    let mut r = MessageReader::new();
    assert_eq!(r.on_line(None), ReadStep::Stop);
    let mut r = MessageReader::new();
    assert_eq!(r.on_line(Some("content-length: 5\r\n")), ReadStep::NextLine);
    assert_eq!(r.content_length, None);
}

#[test]
fn decode_body_decodes_utf8() {
    assert_eq!(decode_body("héllo wörld".as_bytes().to_vec()), "héllo wörld");
    assert_eq!(decode_body(vec![0xc3]), "");
}
