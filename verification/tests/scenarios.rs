use http_server::handlers::{Action, file_get_response, file_post_response, handle_request};
use http_server::request::{ParseError, parse_request};
use http_server::response::serialize_response;

#[test]
fn echo_request_end_to_end() {
    let req = parse_request(b"GET /echo/abc HTTP/1.1\r\n\r\n").unwrap();
    let wire = match handle_request(&req) {
        Action::Respond(resp) => serialize_response(&resp),
        _ => panic!("the echo route answers at once"),
    };
    assert_eq!(
        wire,
        b"HTTP/1.1 200 OK\r\nContent-Type: text/plain\r\nContent-Length: 3\r\n\r\nabc".to_vec()
    );
}

#[test]
fn echo_request_without_version_token_is_malformed() {
    assert_eq!(
        parse_request(b"GET /echo/abc\r\n\r\n"),
        Err(ParseError::MalformedRequestLine)
    );
}

#[test]
fn file_post_end_to_end() {
    let req = parse_request(
        b"POST /files/test.txt HTTP/1.1\r\nContent-Length: 5\r\n\r\nhello"
    )
    .unwrap();
    match handle_request(&req) {
        Action::WriteFile(name, data) => {
            assert_eq!(name, b"test.txt".to_vec());
            assert_eq!(data, b"hello".to_vec());
        },
        _ => panic!("a safe file write is handed out"),
    }
    let wire = serialize_response(&file_post_response(true));
    assert_eq!(wire, b"HTTP/1.1 201 Created\r\n\r\n".to_vec());
}

#[test]
fn file_round_trip_through_the_two_routes() {
    let posted = parse_request(
        b"POST /files/notes HTTP/1.1\r\nContent-Length: 9\r\n\r\nsome text"
    )
    .unwrap();
    let written = match handle_request(&posted) {
        Action::WriteFile(name, data) => {
            assert_eq!(name, b"notes".to_vec());
            data
        },
        _ => panic!("a safe file write is handed out"),
    };

    let fetched = parse_request(b"GET /files/notes HTTP/1.1\r\n\r\n").unwrap();
    match handle_request(&fetched) {
        Action::ReadFile(name) => assert_eq!(name, b"notes".to_vec()),
        _ => panic!("a safe file read is handed out"),
    }
    let resp = file_get_response(Some(written));
    assert_eq!(resp.status.code(), 200);
    assert_eq!(resp.body, b"some text".to_vec());
}

#[test]
fn missing_file_answers_404_with_empty_body() {
    let req = parse_request(b"GET /files/absent HTTP/1.1\r\n\r\n").unwrap();
    match handle_request(&req) {
        Action::ReadFile(name) => assert_eq!(name, b"absent".to_vec()),
        _ => panic!("a safe file read is handed out"),
    }
    let wire = serialize_response(&file_get_response(None));
    assert_eq!(wire, b"HTTP/1.1 404 Not Found\r\n\r\n".to_vec());
}

#[test]
fn unknown_path_answers_404() {
    let req = parse_request(b"GET /missing HTTP/1.1\r\n\r\n").unwrap();
    let wire = match handle_request(&req) {
        Action::Respond(resp) => serialize_response(&resp),
        _ => panic!("an unknown path is answered at once"),
    };
    assert_eq!(wire, b"HTTP/1.1 404 Not Found\r\n\r\n".to_vec());
}

#[test]
fn unsupported_method_answers_405_end_to_end() {
    let req = parse_request(b"PUT / HTTP/1.1\r\n\r\n").unwrap();
    let wire = match handle_request(&req) {
        Action::Respond(resp) => serialize_response(&resp),
        _ => panic!("an unsupported method is answered at once"),
    };
    assert_eq!(wire, b"HTTP/1.1 405 Method Not Allowed\r\n\r\n".to_vec());
}

#[test]
fn user_agent_end_to_end() {
    let req = parse_request(
        b"GET /user-agent HTTP/1.1\r\nHost: h\r\nUser-Agent: foobar/1.2.3\r\n\r\n"
    )
    .unwrap();
    let wire = match handle_request(&req) {
        Action::Respond(resp) => serialize_response(&resp),
        _ => panic!("the user-agent route answers at once"),
    };
    assert_eq!(
        wire,
        b"HTTP/1.1 200 OK\r\nContent-Type: text/plain\r\nContent-Length: 12\r\n\r\nfoobar/1.2.3"
            .to_vec()
    );
}

#[test]
fn echo_body_is_not_url_decoded() {
    let req = parse_request(b"GET /echo/a%20b HTTP/1.1\r\n\r\n").unwrap();
    match handle_request(&req) {
        Action::Respond(resp) => assert_eq!(resp.body, b"a%20b".to_vec()),
        _ => panic!("the echo route answers at once"),
    }
}
