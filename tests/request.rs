#![allow(deprecated)]

use http_request::request::{FIRST_HEADER_SLOTS, MAX_HEADER_SLOTS};
use http_request::text::{eq_ignoring_case, parse_decimal};
use http_request::{decode, encode, Request, RequestError, Version};
use tokio_core::io::EasyBuf;

fn buffer(bytes: &[u8]) -> EasyBuf {
    EasyBuf::from(bytes.to_vec())
}

fn decode_one(bytes: &[u8]) -> Request {
    let mut buf = buffer(bytes);
    decode(&mut buf).unwrap().unwrap()
}

fn head_with_headers(n: usize) -> Vec<u8> {
    let mut head = b"GET / HTTP/1.1\r\n".to_vec();
    for i in 0..n {
        head.extend_from_slice(format!("X-H{}: v\r\n", i).as_bytes());
    }
    head.extend_from_slice(b"\r\n");
    head
}

#[test]
fn empty_buffer_is_incomplete() {
    let mut buf = buffer(b"");
    assert!(matches!(decode(&mut buf), Ok(None)));
    assert_eq!(buf.as_slice(), b"");
}

#[test]
fn decodes_head_and_leaves_body() {
    let mut buf = buffer(b"GET /a HTTP/1.1\r\nHost: x\r\nContent-Length: 5\r\n\r\nHELLO");
    let req = decode(&mut buf).unwrap().unwrap();
    assert_eq!(req.method(), Ok("GET"));
    assert_eq!(req.path(), Ok("/a"));
    assert_eq!(req.version(), Version::Http11);
    assert_eq!(req.content_length(), Some(5));
    assert_eq!(buf.as_slice(), b"HELLO");
}

#[test]
fn request_line_alone_is_incomplete() {
    let mut buf = buffer(b"GET /a HTTP/1.1\r\n");
    assert!(matches!(decode(&mut buf), Ok(None)));
    assert_eq!(buf.as_slice(), b"GET /a HTTP/1.1\r\n");
}

#[test]
fn http2_version_is_unsupported() {
    let mut buf = buffer(b"GET /a HTTP/2.0\r\nHost: x\r\n\r\n");
    assert!(matches!(decode(&mut buf), Err(RequestError::UnsupportedVersion)));
    assert_eq!(buf.as_slice(), b"GET /a HTTP/2.0\r\nHost: x\r\n\r\n");
}

#[test]
fn too_many_headers_is_malformed() {
    let head = head_with_headers(MAX_HEADER_SLOTS + 1);
    let mut buf = buffer(&head);
    assert!(matches!(
        decode(&mut buf),
        Err(RequestError::MalformedRequest(httparse::Error::TooManyHeaders))
    ));
    assert_eq!(buf.as_slice(), &head[..]);
}

#[test]
fn more_headers_than_first_table_are_read() {
    let head = head_with_headers(FIRST_HEADER_SLOTS + 1);
    let req = decode_one(&head);
    let mut it = req.headers();
    let mut count = 0;
    while let Some(h) = it.next() {
        let (name, value) = h.unwrap();
        assert_eq!(name, format!("X-H{}", count));
        assert_eq!(value, b"v");
        count += 1;
    }
    assert_eq!(count, FIRST_HEADER_SLOTS + 1);
}

#[test]
fn largest_table_is_enough() {
    let head = head_with_headers(MAX_HEADER_SLOTS);
    let req = decode_one(&head);
    let mut out = Vec::new();
    encode(req, &mut out);
    assert_eq!(out, head);
}

#[test]
fn malformed_grammar_is_an_error() {
    let mut buf = buffer(b"GET /a HTTP/1.1\r\nBad Header\r\n\r\n");
    assert!(matches!(decode(&mut buf), Err(RequestError::MalformedRequest(_))));
}

#[test]
fn trailing_bytes_stay_in_buffer() {
    let mut buf = buffer(b"POST /x HTTP/1.0\r\nA: b\r\n\r\nGET /y HTTP/1.1\r\n");
    let req = decode(&mut buf).unwrap().unwrap();
    assert_eq!(req.version(), Version::Http10);
    assert_eq!(req.method(), Ok("POST"));
    assert_eq!(buf.as_slice(), b"GET /y HTTP/1.1\r\n");
    assert!(matches!(decode(&mut buf), Ok(None)));
    assert_eq!(buf.as_slice(), b"GET /y HTTP/1.1\r\n");
}

#[test]
fn two_requests_in_one_buffer() {
    let mut buf = buffer(b"GET /1 HTTP/1.1\r\n\r\nGET /2 HTTP/1.1\r\n\r\n");
    let first = decode(&mut buf).unwrap().unwrap();
    let second = decode(&mut buf).unwrap().unwrap();
    assert_eq!(first.path(), Ok("/1"));
    assert_eq!(second.path(), Ok("/2"));
    assert_eq!(buf.as_slice(), b"");
}

#[test]
fn encode_reproduces_head() {
    let head = b"GET  /odd%20path HTTP/1.1\r\nhOsT:   spaced  \r\nX: 1\r\n\r\n";
    let mut buf = buffer(head);
    match decode(&mut buf) {
        Ok(Some(req)) => {
            let mut out = b"prefix".to_vec();
            encode(req, &mut out);
            let mut expected = b"prefix".to_vec();
            expected.extend_from_slice(head);
            assert_eq!(out, expected);
        }
        other => assert!(matches!(other, Err(RequestError::MalformedRequest(_)))),
    }
}

#[test]
fn encode_after_decode_round_trip() {
    let head = b"PUT /r?q=1 HTTP/1.1\r\nHost: example\r\nAccept: */*\r\n\r\n";
    let req = decode_one(head);
    let mut out = Vec::new();
    encode(req, &mut out);
    assert_eq!(out, head.to_vec());
}

#[test]
fn content_length_name_case_is_ignored() {
    for name in ["Content-Length", "CONTENT-LENGTH", "content-length", "cOnTeNt-LeNgTh"] {
        let head = format!("GET / HTTP/1.1\r\n{}: 42\r\n\r\n", name);
        assert_eq!(decode_one(head.as_bytes()).content_length(), Some(42));
    }
}

#[test]
fn content_length_absent_is_none() {
    let req = decode_one(b"GET / HTTP/1.1\r\nHost: x\r\nContent-Type: text/plain\r\n\r\n");
    assert_eq!(req.content_length(), None);
}

#[test]
fn content_length_not_a_number_is_none() {
    for value in ["abc", "-1", "1.5", "5x", "+", "18446744073709551616"] {
        let head = format!("GET / HTTP/1.1\r\nContent-Length: {}\r\n\r\n", value);
        assert_eq!(decode_one(head.as_bytes()).content_length(), None, "{}", value);
    }
}

#[test]
fn content_length_reads_like_from_str() {
    for value in ["0", "007", "+5", "18446744073709551615"] {
        let head = format!("GET / HTTP/1.1\r\nContent-Length: {}\r\n\r\n", value);
        let expected = value.parse::<usize>().ok();
        assert_eq!(decode_one(head.as_bytes()).content_length(), expected, "{}", value);
    }
}

#[test]
fn only_first_content_length_counts() {
    let req = decode_one(b"GET / HTTP/1.1\r\nContent-Length: x\r\ncontent-length: 7\r\n\r\n");
    assert_eq!(req.content_length(), None);
    let req = decode_one(b"GET / HTTP/1.1\r\nContent-Length: 3\r\ncontent-length: 7\r\n\r\n");
    assert_eq!(req.content_length(), Some(3));
}

#[test]
fn headers_in_wire_order_with_duplicates() {
    let req = decode_one(b"GET / HTTP/1.1\r\nB: 1\r\nA: 2\r\nB: 3\r\n\r\n");
    let mut it = req.headers();
    let mut seen: Vec<(String, Vec<u8>)> = Vec::new();
    while let Some(h) = it.next() {
        let (name, value) = h.unwrap();
        seen.push((name.to_string(), value.to_vec()));
    }
    assert_eq!(
        seen,
        vec![
            ("B".to_string(), b"1".to_vec()),
            ("A".to_string(), b"2".to_vec()),
            ("B".to_string(), b"3".to_vec()),
        ]
    );
    assert!(it.next().is_none());
}

#[test]
fn headers_restart_from_the_first() {
    let req = decode_one(b"GET / HTTP/1.1\r\nA: 1\r\n\r\n");
    let mut first = req.headers();
    assert!(first.next().is_some());
    let mut again = req.headers();
    assert_eq!(again.next().unwrap().unwrap().0, "A");
}

#[test]
fn append_data_keeps_fields() {
    let mut req = decode_one(b"POST /u HTTP/1.1\r\nContent-Length: 2\r\n\r\n");
    req.append_data(b"hi");
    assert_eq!(req.method(), Ok("POST"));
    assert_eq!(req.path(), Ok("/u"));
    assert_eq!(req.content_length(), Some(2));
    let mut out = Vec::new();
    encode(req, &mut out);
    assert_eq!(out, b"POST /u HTTP/1.1\r\nContent-Length: 2\r\n\r\nhi".to_vec());
}

#[test]
fn leading_blank_lines_are_skipped() {
    let req = decode_one(b"\r\nGET /z HTTP/1.1\r\n\r\n");
    assert_eq!(req.method(), Ok("GET"));
    assert_eq!(req.path(), Ok("/z"));
}

#[test]
fn case_insensitive_compare() {
    assert!(eq_ignoring_case(b"Content-Length", b"content-length"));
    assert!(!eq_ignoring_case(b"Content-Lengt", b"content-length"));
    assert!(!eq_ignoring_case(b"[", b"{"));
}

#[test]
fn decimal_values() {
    assert_eq!(parse_decimal(b"1234"), Some(1234));
    assert_eq!(parse_decimal(b"+9"), Some(9));
    assert_eq!(parse_decimal(b""), None);
    assert_eq!(parse_decimal(b"1 "), None);
}
