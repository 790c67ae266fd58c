use http_server::headers::{Header, content_length_of, lookup_header};
use http_server::num::{parse_decimal, usize_to_decimal};
use http_server::request::{
    ParseError, header_step, line_is_blank, parse_header_line, parse_request,
    parse_request_line, tokenize,
};

fn header(name: &[u8], value: &[u8]) -> Header {
    Header { name: name.to_vec(), value: value.to_vec() }
}

#[test]
fn tokenize_splits_on_whitespace_runs() {
    let toks = tokenize(b"GET /echo/abc HTTP/1.1\r\n");
    assert_eq!(toks.len(), 3);
    assert_eq!(toks[0], b"GET".to_vec());
    assert_eq!(toks[1], b"/echo/abc".to_vec());
    assert_eq!(toks[2], b"HTTP/1.1".to_vec());

    let toks = tokenize(b"  a \t b  ");
    assert_eq!(toks.len(), 2);
    assert_eq!(toks[0], b"a".to_vec());
    assert_eq!(toks[1], b"b".to_vec());

    let toks = tokenize(b" \r\n ");
    assert_eq!(toks.len(), 0);
}

#[test]
fn request_line_needs_three_tokens() {
    let r = parse_request_line(b"GET /echo/abc HTTP/1.1\r\n").unwrap();
    assert_eq!(r.0, b"GET".to_vec());
    assert_eq!(r.1, b"/echo/abc".to_vec());
    assert_eq!(r.2, b"HTTP/1.1".to_vec());

    assert_eq!(
        parse_request_line(b"GET /echo/abc\r\n"),
        Err(ParseError::MalformedRequestLine)
    );
    assert_eq!(parse_request_line(b"\r\n"), Err(ParseError::MalformedRequestLine));
    assert_eq!(parse_request_line(b""), Err(ParseError::MalformedRequestLine));
}

#[test]
fn request_line_ignores_extra_tokens() {
    let r = parse_request_line(b"GET /a b HTTP/1.1\r\n").unwrap();
    assert_eq!(r.0, b"GET".to_vec());
    assert_eq!(r.1, b"/a".to_vec());
    assert_eq!(r.2, b"b".to_vec());
}

#[test]
fn header_line_splits_on_first_delimiter() {
    let h = parse_header_line(b"User-Agent: curl/7.1\r\n").unwrap();
    assert_eq!(h.name, b"User-Agent".to_vec());
    assert_eq!(h.value, b"curl/7.1".to_vec());

    let h = parse_header_line(b"A: b: c\r\n").unwrap();
    assert_eq!(h.name, b"A".to_vec());
    assert_eq!(h.value, b"b: c".to_vec());

    assert!(parse_header_line(b"no delimiter here\r\n").is_none());
    assert!(parse_header_line(b"colon:but-no-space\r\n").is_none());
    assert!(parse_header_line(b"\n").is_none());
}

#[test]
fn header_value_keeps_inner_but_not_trailing_whitespace() {
    let h = parse_header_line(b"X: a b \t\r\n").unwrap();
    assert_eq!(h.value, b"a b".to_vec());
    let h = parse_header_line(b"X: \r\n").unwrap();
    assert_eq!(h.value, b"".to_vec());
}

#[test]
fn blank_line_ends_header_block() {
    assert!(line_is_blank(b""));
    assert!(line_is_blank(b"\r\n"));
    assert!(!line_is_blank(b"\n"));
    assert!(!line_is_blank(b"X: y\r\n"));

    let mut hs: Vec<Header> = Vec::new();
    assert!(!header_step(&mut hs, b"Host: here\r\n"));
    assert!(!header_step(&mut hs, b"junk line\r\n"));
    assert!(header_step(&mut hs, b"\r\n"));
    assert_eq!(hs.len(), 1);
    assert_eq!(hs[0].name, b"Host".to_vec());
}

#[test]
fn lookup_is_last_write_wins() {
    let hs = vec![header(b"A", b"1"), header(b"B", b"2"), header(b"A", b"3")];
    assert_eq!(lookup_header(&hs, b"A"), Some(b"3".to_vec()));
    assert_eq!(lookup_header(&hs, b"B"), Some(b"2".to_vec()));
    assert_eq!(lookup_header(&hs, b"C"), None);
}

#[test]
fn content_length_reads_the_header_or_zero() {
    let hs = vec![header(b"Content-Length", b"5")];
    assert_eq!(content_length_of(&hs), 5);
    let hs = vec![header(b"Content-Length", b"nonsense")];
    assert_eq!(content_length_of(&hs), 0);
    let hs = vec![header(b"Content-Length", b"99999999999999999999999999")];
    assert_eq!(content_length_of(&hs), 0);
    let hs: Vec<Header> = Vec::new();
    assert_eq!(content_length_of(&hs), 0);
}

#[test]
fn decimal_parse_and_render() {
    assert_eq!(usize_to_decimal(0), b"0".to_vec());
    assert_eq!(usize_to_decimal(3), b"3".to_vec());
    assert_eq!(usize_to_decimal(10), b"10".to_vec());
    assert_eq!(usize_to_decimal(40975), b"40975".to_vec());
    assert_eq!(parse_decimal(b"0"), Some(0));
    assert_eq!(parse_decimal(b"007"), Some(7));
    assert_eq!(parse_decimal(b"40975"), Some(40975));
    assert_eq!(parse_decimal(b""), None);
    assert_eq!(parse_decimal(b"12a"), None);
    assert_eq!(parse_decimal(b"-3"), None);
}

#[test]
fn parse_request_reads_headers_and_post_body() {
    let req = parse_request(
        b"POST /files/a.txt HTTP/1.1\r\nContent-Length: 5\r\n\r\nhello"
    )
    .unwrap();
    assert_eq!(req.method, b"POST".to_vec());
    assert_eq!(req.path, b"/files/a.txt".to_vec());
    assert_eq!(req.version, b"HTTP/1.1".to_vec());
    assert_eq!(req.headers.len(), 1);
    assert_eq!(req.body, b"hello".to_vec());
}

#[test]
fn parse_request_leaves_extra_bytes_unread() {
    let req = parse_request(
        b"POST /files/a HTTP/1.1\r\nContent-Length: 2\r\n\r\nhi and more"
    )
    .unwrap();
    assert_eq!(req.body, b"hi".to_vec());
}

#[test]
fn parse_request_get_has_empty_body() {
    let req = parse_request(b"GET / HTTP/1.1\r\nContent-Length: 4\r\n\r\n").unwrap();
    assert_eq!(req.body, b"".to_vec());
}

#[test]
fn parse_request_malformed_line() {
    assert_eq!(
        parse_request(b"GET /\r\n\r\n"),
        Err(ParseError::MalformedRequestLine)
    );
}

#[test]
fn parse_request_truncated_body() {
    assert_eq!(
        parse_request(b"POST /files/a HTTP/1.1\r\nContent-Length: 9\r\n\r\nhi"),
        Err(ParseError::TruncatedBody)
    );
}

#[test]
fn parse_request_ignores_undelimited_header_lines() {
    let req = parse_request(b"GET / HTTP/1.1\r\njunk\r\nA: b\r\n\r\n").unwrap();
    assert_eq!(req.headers.len(), 1);
    assert_eq!(req.headers[0].name, b"A".to_vec());
}

#[test]
fn duplicate_content_length_last_write_wins() {
    let req = parse_request(
        b"POST /files/a HTTP/1.1\r\nContent-Length: 9\r\nContent-Length: 2\r\n\r\nxy"
    )
    .unwrap();
    assert_eq!(req.body, b"xy".to_vec());
}
