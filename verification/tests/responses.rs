use http_server::handlers::{
    echo_response, file_get_response, file_post_response, not_found_response, root_response,
    user_agent_response,
};
use http_server::headers::Header;
use http_server::response::{Response, StatusCode, create_headers, serialize_response};

#[test]
fn create_headers_names_type_and_length() {
    let hs = create_headers(b"text/plain", 3, false);
    assert_eq!(hs.len(), 2);
    assert_eq!(hs[0], Header { name: b"Content-Type".to_vec(), value: b"text/plain".to_vec() });
    assert_eq!(hs[1], Header { name: b"Content-Length".to_vec(), value: b"3".to_vec() });
}

#[test]
fn create_headers_can_mark_gzip() {
    let hs = create_headers(b"text/plain", 0, true);
    assert_eq!(hs.len(), 3);
    assert_eq!(
        hs[2],
        Header { name: b"Content-Encoding".to_vec(), value: b"gzip".to_vec() }
    );
    assert_eq!(hs[1].value, b"0".to_vec());
}

#[test]
fn serialize_response_emits_exact_wire_bytes() {
    let resp = Response {
        status: StatusCode::Okay,
        headers: create_headers(b"text/plain", 3, false),
        body: b"abc".to_vec(),
    };
    let wire = serialize_response(&resp);
    assert_eq!(
        wire,
        b"HTTP/1.1 200 OK\r\nContent-Type: text/plain\r\nContent-Length: 3\r\n\r\nabc".to_vec()
    );
}

#[test]
fn serialize_response_without_headers_has_bare_empty_line() {
    let wire = serialize_response(&root_response());
    assert_eq!(wire, b"HTTP/1.1 200 OK\r\n\r\n".to_vec());
    let wire = serialize_response(&not_found_response());
    assert_eq!(wire, b"HTTP/1.1 404 Not Found\r\n\r\n".to_vec());
}

#[test]
fn status_lines_and_codes_agree() {
    assert_eq!(StatusCode::Okay.code(), 200);
    assert_eq!(StatusCode::Created.code(), 201);
    assert_eq!(StatusCode::NotFound.code(), 404);
    assert_eq!(StatusCode::MethodNotAllowed.code(), 405);
    assert_eq!(StatusCode::InternalServerError.code(), 500);
    assert_eq!(StatusCode::Created.status_line(), b"HTTP/1.1 201 Created".to_vec());
    assert_eq!(
        StatusCode::MethodNotAllowed.status_line(),
        b"HTTP/1.1 405 Method Not Allowed".to_vec()
    );
    assert_eq!(
        StatusCode::InternalServerError.status_line(),
        b"HTTP/1.1 500 Internal Server Error".to_vec()
    );
}

#[test]
fn echo_response_reflects_the_string() {
    let r = echo_response(b"hello");
    assert_eq!(r.status.code(), 200);
    assert_eq!(r.body, b"hello".to_vec());
    assert_eq!(r.headers[1].value, b"5".to_vec());
    let r = echo_response(b"");
    assert_eq!(r.body, b"".to_vec());
    assert_eq!(r.headers[1].value, b"0".to_vec());
}

#[test]
fn user_agent_response_reads_the_header() {
    let hs = vec![
        Header { name: b"Host".to_vec(), value: b"here".to_vec() },
        Header { name: b"User-Agent".to_vec(), value: b"curl/8".to_vec() },
    ];
    let r = user_agent_response(&hs);
    assert_eq!(r.status.code(), 200);
    assert_eq!(r.body, b"curl/8".to_vec());
    assert_eq!(r.headers[0].value, b"text/plain".to_vec());
    assert_eq!(r.headers[1].value, b"6".to_vec());
}

#[test]
fn file_get_response_wraps_the_bytes_or_404s() {
    let r = file_get_response(Some(b"data".to_vec()));
    assert_eq!(r.status.code(), 200);
    assert_eq!(r.body, b"data".to_vec());
    assert_eq!(
        r.headers[0],
        Header {
            name: b"Content-Type".to_vec(),
            value: b"application/octet-stream".to_vec(),
        }
    );
    assert_eq!(r.headers[1].value, b"4".to_vec());

    let r = file_get_response(None);
    assert_eq!(r.status.code(), 404);
    assert!(r.body.is_empty());
    assert!(r.headers.is_empty());
}

#[test]
fn file_post_response_reports_the_outcome() {
    let r = file_post_response(true);
    assert_eq!(r.status.code(), 201);
    assert!(r.body.is_empty());
    let r = file_post_response(false);
    assert_eq!(r.status.code(), 500);
    assert!(r.body.is_empty());
}

#[test]
fn wire_constants_are_the_protocol_bytes() {
    assert_eq!(http_server::wire::crlf(), b"\r\n".to_vec());
    assert_eq!(http_server::wire::colon_space(), b": ".to_vec());
    assert_eq!(http_server::wire::method_get(), b"GET".to_vec());
    assert_eq!(http_server::wire::method_post(), b"POST".to_vec());
    assert_eq!(http_server::wire::http_version(), b"HTTP/1.1".to_vec());
    assert_eq!(http_server::wire::echo_prefix(), b"/echo/".to_vec());
    assert_eq!(http_server::wire::files_prefix(), b"/files/".to_vec());
    assert_eq!(http_server::wire::user_agent_path(), b"/user-agent".to_vec());
    assert_eq!(http_server::wire::octet_stream(), b"application/octet-stream".to_vec());
}
