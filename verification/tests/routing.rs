use http_server::handlers::{Action, handle_request, filename_is_safe};
use http_server::headers::Header;
use http_server::request::Request;
use http_server::router::{Route, route};

fn request(method: &[u8], path: &[u8]) -> Request {
    Request {
        method: method.to_vec(),
        path: path.to_vec(),
        version: b"HTTP/1.1".to_vec(),
        headers: Vec::new(),
        body: Vec::new(),
    }
}

#[test]
fn route_table_in_priority_order() {
    assert_eq!(route(b"GET", b"/"), Route::Root);
    assert_eq!(route(b"GET", b"/echo/abc"), Route::Echo(b"abc".to_vec()));
    assert_eq!(route(b"GET", b"/echo/"), Route::Echo(b"".to_vec()));
    assert_eq!(route(b"GET", b"/user-agent"), Route::UserAgent);
    assert_eq!(route(b"GET", b"/files/a.txt"), Route::FileGet(b"a.txt".to_vec()));
    assert_eq!(route(b"POST", b"/files/a.txt"), Route::FilePost(b"a.txt".to_vec()));
}

#[test]
fn root_is_not_captured_by_prefix_rules() {
    assert_eq!(route(b"GET", b"/"), Route::Root);
    assert_eq!(route(b"GET", b"/echo"), Route::NotFound);
    assert_eq!(route(b"GET", b"/files"), Route::NotFound);
    assert_eq!(route(b"GET", b"/elsewhere"), Route::NotFound);
    assert_eq!(route(b"POST", b"/"), Route::NotFound);
    assert_eq!(route(b"POST", b"/echo/abc"), Route::NotFound);
}

#[test]
fn unsupported_methods_are_rejected_whatever_the_path() {
    assert_eq!(route(b"PUT", b"/"), Route::MethodNotAllowed);
    assert_eq!(route(b"DELETE", b"/echo/abc"), Route::MethodNotAllowed);
    assert_eq!(route(b"get", b"/"), Route::MethodNotAllowed);
    assert_eq!(route(b"", b"/"), Route::MethodNotAllowed);
}

#[test]
fn put_request_answers_405() {
    let a = handle_request(&request(b"PUT", b"/"));
    match a {
        Action::Respond(r) => {
            assert_eq!(r.status.code(), 405);
            assert!(r.body.is_empty());
        },
        _ => panic!("expected an immediate response"),
    }
    let a = handle_request(&request(b"PUT", b"/echo/abc"));
    match a {
        Action::Respond(r) => assert_eq!(r.status.code(), 405),
        _ => panic!("expected an immediate response"),
    }
}

#[test]
fn root_answers_200_with_no_headers() {
    let a = handle_request(&request(b"GET", b"/"));
    match a {
        Action::Respond(r) => {
            assert_eq!(r.status.code(), 200);
            assert!(r.body.is_empty());
            assert!(r.headers.is_empty());
        },
        _ => panic!("expected an immediate response"),
    }
}

#[test]
fn echo_answers_with_the_remainder() {
    let a = handle_request(&request(b"GET", b"/echo/abc"));
    match a {
        Action::Respond(r) => {
            assert_eq!(r.status.code(), 200);
            assert_eq!(r.body, b"abc".to_vec());
            assert_eq!(r.headers[0], Header {
                name: b"Content-Type".to_vec(),
                value: b"text/plain".to_vec(),
            });
            assert_eq!(r.headers[1], Header {
                name: b"Content-Length".to_vec(),
                value: b"3".to_vec(),
            });
        },
        _ => panic!("expected an immediate response"),
    }
}

#[test]
fn user_agent_answers_with_the_header_value() {
    let mut req = request(b"GET", b"/user-agent");
    req.headers.push(Header { name: b"User-Agent".to_vec(), value: b"foobar/1.2.3".to_vec() });
    let a = handle_request(&req);
    match a {
        Action::Respond(r) => {
            assert_eq!(r.status.code(), 200);
            assert_eq!(r.body, b"foobar/1.2.3".to_vec());
            assert_eq!(r.headers[1].value, b"12".to_vec());
        },
        _ => panic!("expected an immediate response"),
    }
}

#[test]
fn user_agent_missing_means_empty_body() {
    let a = handle_request(&request(b"GET", b"/user-agent"));
    match a {
        Action::Respond(r) => {
            assert_eq!(r.status.code(), 200);
            assert!(r.body.is_empty());
            assert_eq!(r.headers[1].value, b"0".to_vec());
        },
        _ => panic!("expected an immediate response"),
    }
}

#[test]
fn file_routes_hand_the_file_work_out() {
    let a = handle_request(&request(b"GET", b"/files/a.txt"));
    assert_eq!(a, Action::ReadFile(b"a.txt".to_vec()));

    let mut req = request(b"POST", b"/files/a.txt");
    req.body = b"hello".to_vec();
    let a = handle_request(&req);
    assert_eq!(a, Action::WriteFile(b"a.txt".to_vec(), b"hello".to_vec()));
}

#[test]
fn unsafe_filenames_never_reach_the_filesystem() {
    assert!(filename_is_safe(b"a.txt"));
    assert!(filename_is_safe(b"."));
    assert!(!filename_is_safe(b""));
    assert!(!filename_is_safe(b".."));
    assert!(!filename_is_safe(b"../secret"));
    assert!(!filename_is_safe(b"a/b"));
    assert!(!filename_is_safe(b"a\\b"));

    let a = handle_request(&request(b"GET", b"/files/../secret"));
    match a {
        Action::Respond(r) => assert_eq!(r.status.code(), 404),
        _ => panic!("an escaping read must be answered, not performed"),
    }
    let mut req = request(b"POST", b"/files/../secret");
    req.body = b"x".to_vec();
    let a = handle_request(&req);
    match a {
        Action::Respond(r) => assert_eq!(r.status.code(), 500),
        _ => panic!("an escaping write must be answered, not performed"),
    }
}
