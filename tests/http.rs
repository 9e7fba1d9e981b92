use ticket_store::data::{Status, Ticket, TicketDescription, TicketId, TicketTitle};
use ticket_store::http::{
    assemble_body, build_response, classify_head, content_length, frame_response, missing_body_len,
    parse_digits, parse_length, read_head, route, ticket_id_in_path, ticket_json_with, write_decimal,
    HeaderField, RawHead, RequestHead, Response, Route, MAX_HEADERS,
};

fn header(name: &str, value: &str) -> HeaderField {
    HeaderField { name: name.as_bytes().to_vec(), value: value.as_bytes().to_vec() }
}

fn padded(text: &str) -> Vec<u8> {
    let mut buf = vec![0u8; 1024];
    buf[..text.len()].copy_from_slice(text.as_bytes());
    buf
}

#[test]
fn digits_parse_within_bound() {
    assert_eq!(parse_digits(b"0", 10), Some(0));
    assert_eq!(parse_digits(b"123", 1000), Some(123));
    assert_eq!(parse_digits(b"18446744073709551615", u64::MAX), Some(u64::MAX));
    assert_eq!(parse_digits(b"18446744073709551616", u64::MAX), None);
    assert_eq!(parse_digits(b"11", 10), None);
    assert_eq!(parse_digits(b"", 10), None);
    assert_eq!(parse_digits(b"1a", 100), None);
}

#[test]
fn length_accepts_plus_sign() {
    assert_eq!(parse_length(b"39"), Some(39));
    assert_eq!(parse_length(b"+7"), Some(7));
    assert_eq!(parse_length(b"+"), None);
    assert_eq!(parse_length(b"-1"), None);
    assert_eq!(parse_length(b" 5"), None);
}

#[test]
fn content_length_from_headers() {
    assert_eq!(content_length(&[]), 0);
    assert_eq!(content_length(&[header("Host", "x"), header("Content-Length", "12")]), 12);
    assert_eq!(content_length(&[header("CONTENT-length", "3")]), 3);
    assert_eq!(content_length(&[header("Content-Length", "abc"), header("Content-Length", "4")]), 0);
    assert_eq!(content_length(&[header("Content-Type", "4")]), 0);
}

#[test]
fn routes_match_the_table() {
    assert_eq!(route(b"POST", b"/tickets"), Route::Create);
    assert_eq!(route(b"GET", b"/tickets/0"), Route::Get(TicketId(0)));
    assert_eq!(route(b"GET", b"/tickets/42"), Route::Get(TicketId(42)));
    assert_eq!(route(b"PATCH", b"/tickets/7"), Route::Patch(TicketId(7)));
    assert_eq!(route(b"GET", b"/tickets"), Route::Unmatched);
    assert_eq!(route(b"POST", b"/tickets/1"), Route::Unmatched);
    assert_eq!(route(b"GET", b"/tickets/abc"), Route::Unmatched);
    assert_eq!(route(b"GET", b"/tickets/"), Route::Unmatched);
    assert_eq!(route(b"GET", b"/tickets/1/x"), Route::Unmatched);
    assert_eq!(route(b"DELETE", b"/tickets/1"), Route::Unmatched);
    assert_eq!(route(b"get", b"/tickets/1"), Route::Unmatched);
    assert_eq!(route(b"GET", b"/tickets/99999999999999999999"), Route::Unmatched);
    assert_eq!(ticket_id_in_path(b"/tickets/15"), Some(TicketId(15)));
    assert_eq!(ticket_id_in_path(b"/ticket/15"), None);
}

#[test]
fn head_is_read_off_the_buffer() {
    let text = "POST /tickets HTTP/1.1\r\nHost: localhost\r\ncontent-length: 5\r\n\r\nhello";
    let buf = padded(text);
    let head = read_head(&buf).unwrap();
    assert_eq!(head, RequestHead { route: Route::Create, content_length: 5, body_start: text.len() - 5 });
    let body = assemble_body(&buf, head.body_start, &[]);
    assert_eq!(body, b"hello".to_vec());
}

#[test]
fn get_head_without_body() {
    let buf = padded("GET /tickets/3 HTTP/1.1\r\n\r\n");
    let head = read_head(&buf).unwrap();
    assert_eq!(head.route, Route::Get(TicketId(3)));
    assert_eq!(head.content_length, 0);
    assert_eq!(head.body_start, 27);
}

#[test]
fn malformed_or_incomplete_head_is_rejected() {
    assert_eq!(read_head(b"GET /tickets/3 HTTP/1.1\r\nHost: x"), None);
    assert_eq!(read_head(b"\x01\x02 nonsense\r\n\r\n"), None);
    assert_eq!(read_head(b""), None);
    let mut text = String::from("GET / HTTP/1.1\r\n");
    for i in 0..(MAX_HEADERS + 1) {
        text.push_str(&format!("X-{}: v\r\n", i));
    }
    text.push_str("\r\n");
    assert_eq!(read_head(text.as_bytes()), None);
}

#[test]
fn classify_checks_body_offset_and_parts() {
    let raw = RawHead {
        method: Some(b"PATCH".to_vec()),
        path: Some(b"/tickets/9".to_vec()),
        headers: vec![header("Content-Length", "20")],
        body_start: 30,
    };
    assert_eq!(
        classify_head(&raw, 100),
        Some(RequestHead { route: Route::Patch(TicketId(9)), content_length: 20, body_start: 30 })
    );
    assert_eq!(classify_head(&raw, 29), None);
    let raw = RawHead { method: None, path: Some(b"/".to_vec()), headers: vec![], body_start: 0 };
    assert_eq!(classify_head(&raw, 10), None);
}

#[test]
fn body_completion() {
    assert_eq!(missing_body_len(10, 25), 15);
    assert_eq!(missing_body_len(25, 25), 0);
    assert_eq!(missing_body_len(30, 25), 0);
    let buf = b"HEAD{\"a\"".to_vec();
    let body = assemble_body(&buf, 4, b":1}");
    assert_eq!(body, b"{\"a\":1}".to_vec());
    let body = assemble_body(b"\0\0ab\0c\0\0", 0, b"\0");
    assert_eq!(body, b"ab\0c".to_vec());
    assert_eq!(assemble_body(b"xx\0\0", 2, b""), Vec::<u8>::new());
}

#[test]
fn decimal_digits() {
    let mut out = b"n=".to_vec();
    write_decimal(&mut out, 0);
    assert_eq!(out, b"n=0".to_vec());
    let mut out = Vec::new();
    write_decimal(&mut out, 1234567890);
    assert_eq!(out, b"1234567890".to_vec());
    let mut out = Vec::new();
    write_decimal(&mut out, u64::MAX);
    assert_eq!(out, b"18446744073709551615".to_vec());
}

#[test]
fn responses_are_framed() {
    assert_eq!(frame_response(b"200 OK", b"abc"), b"HTTP/1.1 200 OK\r\nContent-Length: 3\r\n\r\nabc".to_vec());
    assert_eq!(
        build_response(&Response::Created(TicketId(12))),
        b"HTTP/1.1 201 Created\r\nContent-Length: 2\r\n\r\n12".to_vec()
    );
    assert_eq!(
        build_response(&Response::NoContent),
        b"HTTP/1.1 204 No Content\r\nContent-Length: 0\r\n\r\n".to_vec()
    );
    assert_eq!(
        build_response(&Response::NotFound),
        b"HTTP/1.1 404 Not Found\r\nContent-Length: 9\r\n\r\nNot Found".to_vec()
    );
    assert_eq!(
        build_response(&Response::Unavailable),
        b"HTTP/1.1 503 Service Unavailable\r\nContent-Length: 0\r\n\r\n".to_vec()
    );
}

#[test]
fn record_json_escapes_strings() {
    let t = Ticket {
        id: TicketId(4),
        title: TicketTitle("Say \"hi\"".to_string()),
        description: TicketDescription("a\\b\nc".to_string()),
        status: Status::InProgress,
    };
    let expected = "{\"id\":4,\"title\":\"Say \\\"hi\\\"\",\"description\":\"a\\\\b\\nc\",\"status\":\"InProgress\"}";
    let expected_response = format!("HTTP/1.1 200 OK\r\nContent-Length: {}\r\n\r\n{}", expected.len(), expected);
    assert_eq!(build_response(&Response::Found(t)), expected_response.into_bytes());
    assert_eq!(
        ticket_json_with(TicketId(1), b"\"x\"", b"\"y\"", Status::Done),
        b"{\"id\":1,\"title\":\"x\",\"description\":\"y\",\"status\":\"Done\"}".to_vec()
    );
}

#[test]
fn record_json_escapes_control_bytes() {
    let t = Ticket {
        id: TicketId(0),
        title: TicketTitle("a\tb\u{1}\u{1f}/é".to_string()),
        description: TicketDescription("\r\u{8}\u{c}".to_string()),
        status: Status::ToDo,
    };
    let expected = "{\"id\":0,\"title\":\"a\\tb\\u0001\\u001f/é\",\"description\":\"\\r\\b\\f\",\"status\":\"ToDo\"}";
    let expected_response = format!("HTTP/1.1 200 OK\r\nContent-Length: {}\r\n\r\n{}", expected.len(), expected);
    assert_eq!(build_response(&Response::Found(t)), expected_response.into_bytes());
}
