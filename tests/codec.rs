use gleam_lsp::codec::{decode_body, next_header, FrameError, HeaderStep};
use gleam_lsp::{parse_transport_message, write_method_message, write_transport_message};

fn framed(text: &str) -> Vec<u8> {
    let mut out = Vec::new();
    write_transport_message(text, &mut out);
    out
}

#[test]
fn write_puts_byte_length_header_before_body() {
    assert_eq!(framed("hello"), b"Content-Length: 5\r\n\r\nhello".to_vec());
}

#[test]
fn write_counts_bytes_not_characters() {
    let out = framed("h\u{e9}llo \u{2713}");
    let text = String::from_utf8(out).unwrap();
    assert_eq!(text, "Content-Length: 10\r\n\r\nh\u{e9}llo \u{2713}");
}

#[test]
fn write_appends_after_existing_bytes() {
    let mut out = b"xy".to_vec();
    write_transport_message("{}", &mut out);
    assert_eq!(out, b"xyContent-Length: 2\r\n\r\n{}".to_vec());
}

#[test]
fn round_trip_ascii() {
    let out = framed("{\"jsonrpc\":\"2.0\"}");
    let frame = parse_transport_message(&out).unwrap();
    assert_eq!(frame.body, "{\"jsonrpc\":\"2.0\"}");
    assert_eq!(frame.consumed, out.len());
}

#[test]
fn round_trip_non_ascii_with_trailing_bytes() {
    let body = "\u{3b1}\u{3b2}\u{3b3} \u{1f600}";
    let mut out = framed(body);
    let len = out.len();
    out.extend_from_slice(b"Content-Length: 3\r\n\r\nnext");
    let frame = parse_transport_message(&out).unwrap();
    assert_eq!(frame.body, body);
    assert_eq!(frame.consumed, len);
    let second = parse_transport_message(&out[len..]).unwrap();
    assert_eq!(second.body, "nex");
}

#[test]
fn short_body_is_truncated() {
    let r = parse_transport_message(b"Content-Length: 5\r\n\r\nabc");
    assert_eq!(r.err(), Some(FrameError::Truncated));
}

#[test]
fn missing_length_header_is_invalid() {
    let r = parse_transport_message(b"\r\n{}");
    assert_eq!(r.err(), Some(FrameError::HeaderInvalid));
    let r = parse_transport_message(b"Content-Type: text\r\n\r\n{}");
    assert_eq!(r.err(), Some(FrameError::HeaderInvalid));
}

#[test]
fn missing_length_message_text() {
    assert_eq!(FrameError::HeaderInvalid.message(), "Content-Length: not defined or invalid.");
    assert_eq!(FrameError::EndOfStream.message(), "End of stream reached.");
}

#[test]
fn zero_length_is_invalid() {
    let r = parse_transport_message(b"Content-Length: 0\r\n\r\n");
    assert_eq!(r.err(), Some(FrameError::HeaderInvalid));
}

#[test]
fn malformed_length_is_invalid() {
    for input in [
        &b"Content-Length: abc\r\n\r\n{}"[..],
        &b"Content-Length: 1 2\r\n\r\n{}"[..],
        &b"Content-Length: \r\n\r\n{}"[..],
        &b"Content-Length: 4294967296\r\n\r\n{}"[..],
        &b"Content-Length: -2\r\n\r\n{}"[..],
    ] {
        assert_eq!(parse_transport_message(input).err(), Some(FrameError::HeaderInvalid));
    }
}

#[test]
fn stream_ending_in_headers_is_end_of_stream() {
    assert_eq!(parse_transport_message(b"").err(), Some(FrameError::EndOfStream));
    let r = parse_transport_message(b"Content-Length: 5\r\n");
    assert_eq!(r.err(), Some(FrameError::EndOfStream));
}

#[test]
fn other_headers_are_ignored_and_last_length_counts() {
    let input = b"Content-Type: application/json\r\nContent-Length: 9\r\nContent-Length:2\r\n\r\n{}";
    let frame = parse_transport_message(input).unwrap();
    assert_eq!(frame.body, "{}");
    assert_eq!(frame.consumed, input.len());
}

#[test]
fn length_with_sign_and_tabs_is_read() {
    let frame = parse_transport_message(b"Content-Length:\t+2 \r\n\r\n{}").unwrap();
    assert_eq!(frame.body, "{}");
}

#[test]
fn body_that_is_not_utf8_is_rejected() {
    let r = parse_transport_message(b"Content-Length: 2\r\n\r\n\xff\xfe");
    assert_eq!(r.err(), Some(FrameError::NotUtf8));
}

#[test]
fn header_steps_one_line_at_a_time() {
    assert_eq!(next_header(0, b"Content-Length: 12\r\n"), HeaderStep::Continue(12));
    assert_eq!(next_header(12, b"X-Other: 1\r\n"), HeaderStep::Continue(12));
    assert_eq!(next_header(12, b"\r\n"), HeaderStep::Body(12));
    assert_eq!(next_header(0, b"\r\n"), HeaderStep::Fail(FrameError::HeaderInvalid));
    assert_eq!(next_header(3, b""), HeaderStep::Fail(FrameError::EndOfStream));
    assert_eq!(next_header(3, b"Content-Length: x\r\n"), HeaderStep::Fail(FrameError::HeaderInvalid));
}

#[test]
fn body_decoding() {
    assert_eq!(decode_body(b"{\"a\":1}".to_vec()).unwrap(), "{\"a\":1}");
    assert_eq!(decode_body(vec![0xc3, 0x28]).err(), Some(FrameError::NotUtf8));
}

#[test]
fn method_message_layout() {
    let mut out = Vec::new();
    write_method_message("window/showMessage", 1000, "{\"x\":1}", &mut out);
    let body = "{\"jsonrpc\": \"2.0\", \"method\": \"window/showMessage\", \"id\": 1000, \"params\": {\"x\":1}}";
    let expected = format!("Content-Length: {}\r\n\r\n{}", body.len(), body);
    assert_eq!(String::from_utf8(out).unwrap(), expected);
}

#[test]
fn method_message_with_zero_id() {
    let mut out = Vec::new();
    write_method_message("m", 0, "[]", &mut out);
    let frame = parse_transport_message(&out).unwrap();
    assert_eq!(frame.body, "{\"jsonrpc\": \"2.0\", \"method\": \"m\", \"id\": 0, \"params\": []}");
}

#[test]
fn unicode_whitespace_around_length_is_trimmed() {
    let input = "Content-Length:\u{a0}2\u{3000}\u{2028}\r\n\r\n{}".as_bytes();
    let frame = parse_transport_message(input).unwrap();
    assert_eq!(frame.body, "{}");
    assert_eq!(frame.consumed, input.len());
    let input = "Content-Length:\u{1680}\u{2009}\u{85}3\u{202f}\u{205f}\r\n\r\nabc".as_bytes();
    assert_eq!(parse_transport_message(input).unwrap().body, "abc");
}

#[test]
fn other_non_ascii_around_length_is_invalid() {
    let input = "Content-Length: 2\u{e9}\r\n\r\n{}".as_bytes();
    assert_eq!(parse_transport_message(input).err(), Some(FrameError::HeaderInvalid));
    let input = "Content-Length:\u{200b}2\r\n\r\n{}".as_bytes();
    assert_eq!(parse_transport_message(input).err(), Some(FrameError::HeaderInvalid));
}
