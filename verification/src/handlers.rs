//! The route handlers. Routes without file work build their response at
//! once; the file routes validate the filename and hand the read or write
//! out as an [`Action`], and a verified function builds the response from
//! whatever the filesystem returned.

use vstd::prelude::*;

use crate::bytes::copy_bytes;
use crate::headers::{Header, HeaderData, headers_view, spec_lookup, lookup_header};
use crate::request::{ReqData, Request};
use crate::response::{Response, RespData, StatusCode, spec_create_headers, create_headers};
use crate::router::{Route, RouteData, spec_route, route};
use crate::wire::{
    spec_text_plain, text_plain, spec_octet_stream, octet_stream, spec_user_agent_name,
    user_agent_name,
};

verus! {

/// The root route's response: 200 with no headers and no body.
pub open spec fn spec_root_response() -> RespData {
    RespData { status: StatusCode::Okay, headers: seq![], body: seq![] }
}

/// Builds the root route's response.
pub fn root_response() -> (r: Response)
    ensures
        r@ == spec_root_response(),
{
    let r = Response { status: StatusCode::Okay, headers: Vec::new(), body: Vec::new() };
    proof {
        assert(r@ =~= spec_root_response());
    }
    r
}

/// The not-found response: 404 with no headers and no body.
pub open spec fn spec_not_found_response() -> RespData {
    RespData { status: StatusCode::NotFound, headers: seq![], body: seq![] }
}

/// Builds the not-found response.
pub fn not_found_response() -> (r: Response)
    ensures
        r@ == spec_not_found_response(),
{
    let r = Response { status: StatusCode::NotFound, headers: Vec::new(), body: Vec::new() };
    proof {
        assert(r@ =~= spec_not_found_response());
    }
    r
}

/// The response to a request whose method is neither GET nor POST: 405 with
/// no headers and no body.
pub open spec fn spec_method_not_allowed_response() -> RespData {
    RespData { status: StatusCode::MethodNotAllowed, headers: seq![], body: seq![] }
}

/// Builds the method-not-allowed response.
pub fn method_not_allowed_response() -> (r: Response)
    ensures
        r@ == spec_method_not_allowed_response(),
{
    let r = Response {
        status: StatusCode::MethodNotAllowed,
        headers: Vec::new(),
        body: Vec::new(),
    };
    proof {
        assert(r@ =~= spec_method_not_allowed_response());
    }
    r
}

/// The echo route's response: 200, the captured path remainder verbatim as
/// the body, with plain-text content headers for its exact byte length.
pub open spec fn spec_echo_response(s: Seq<u8>) -> RespData {
    RespData {
        status: StatusCode::Okay,
        headers: spec_create_headers(spec_text_plain(), s.len(), false),
        body: s,
    }
}

/// Builds the echo route's response for a captured path remainder.
pub fn echo_response(s: &[u8]) -> (r: Response)
    ensures
        r@ == spec_echo_response(s@),
{
    let ct = text_plain();
    let headers = create_headers(ct.as_slice(), s.len(), false);
    let r = Response { status: StatusCode::Okay, headers, body: copy_bytes(s) };
    proof {
        assert(r@ =~= spec_echo_response(s@));
    }
    r
}

/// The user-agent route's response: 200 with the request's `User-Agent`
/// value as the body, or an empty body when the header is absent, with
/// plain-text content headers either way.
pub open spec fn spec_user_agent_response(hs: Seq<HeaderData>) -> RespData {
    let v = match spec_lookup(hs, spec_user_agent_name()) {
        Some(v) => v,
        None => seq![],
    };
    RespData {
        status: StatusCode::Okay,
        headers: spec_create_headers(spec_text_plain(), v.len(), false),
        body: v,
    }
}

/// Builds the user-agent route's response from the request headers.
pub fn user_agent_response(hs: &Vec<Header>) -> (r: Response)
    ensures
        r@ == spec_user_agent_response(headers_view(hs@)),
{
    let name = user_agent_name();
    let body: Vec<u8> = match lookup_header(hs, name.as_slice()) {
        Some(v) => v,
        None => Vec::new(),
    };
    let ct = text_plain();
    let headers = create_headers(ct.as_slice(), body.len(), false);
    let r = Response { status: StatusCode::Okay, headers, body };
    proof {
        assert(r@ =~= spec_user_agent_response(headers_view(hs@)));
    }
    r
}

/// The file-read response: 200 with octet-stream content headers and the
/// file's bytes when the read succeeded, 404 with an empty body when it did
/// not.
pub open spec fn spec_file_get_response(contents: Option<Seq<u8>>) -> RespData {
    match contents {
        Some(b) => RespData {
            status: StatusCode::Okay,
            headers: spec_create_headers(spec_octet_stream(), b.len(), false),
            body: b,
        },
        None => spec_not_found_response(),
    }
}

/// Builds the response to a file read, given what the read returned.
pub fn file_get_response(contents: Option<Vec<u8>>) -> (r: Response)
    ensures
        r@ == spec_file_get_response(
            match contents {
                Some(b) => Some(b@),
                None => None,
            },
        ),
{
    match contents {
        Some(b) => {
            let ct = octet_stream();
            let headers = create_headers(ct.as_slice(), b.len(), false);
            let r = Response { status: StatusCode::Okay, headers, body: b };
            proof {
                assert(r@ =~= spec_file_get_response(Some(r.body@)));
            }
            r
        },
        None => not_found_response(),
    }
}

/// The file-write response: 201 when the write succeeded, 500 when it did
/// not, an empty body either way.
pub open spec fn spec_file_post_response(ok: bool) -> RespData {
    if ok {
        RespData { status: StatusCode::Created, headers: seq![], body: seq![] }
    } else {
        RespData { status: StatusCode::InternalServerError, headers: seq![], body: seq![] }
    }
}

/// Builds the response to a file write, given whether the write succeeded.
pub fn file_post_response(ok: bool) -> (r: Response)
    ensures
        r@ == spec_file_post_response(ok),
{
    let status = if ok {
        StatusCode::Created
    } else {
        StatusCode::InternalServerError
    };
    let r = Response { status, headers: Vec::new(), body: Vec::new() };
    proof {
        assert(r@ =~= spec_file_post_response(ok));
    }
    r
}

/// A filename that resolves inside the serving directory: nonempty, holds no
/// path-separator byte, and is not the parent-directory name `..`.
pub open spec fn spec_filename_safe(f: Seq<u8>) -> bool {
    &&& f.len() > 0
    &&& forall|i: int| 0 <= i < f.len() ==> #[trigger] f[i] != 47 && f[i] != 92
    &&& f != seq![46u8, 46u8]
}

/// Tests whether a filename resolves inside the serving directory.
pub fn filename_is_safe(f: &[u8]) -> (r: bool)
    ensures
        r == spec_filename_safe(f@),
{
    if f.len() == 0 {
        return false;
    }
    if f.len() == 2 && f[0] == 46 && f[1] == 46 {
        proof {
            assert(f@ =~= seq![46u8, 46u8]);
        }
        return false;
    }
    proof {
        if f@ == seq![46u8, 46u8] {
            assert(f@.len() == 2 && f@[0] == 46 && f@[1] == 46);
        }
    }
    let mut i: usize = 0;
    while i < f.len()
        invariant
            0 <= i <= f@.len(),
            forall|k: int| 0 <= k < i ==> #[trigger] f@[k] != 47 && f@[k] != 92,
        decreases f@.len() - i,
    {
        if f[i] == 47 || f[i] == 92 {
            return false;
        }
        i = i + 1;
    }
    true
}

/// What a connection must do next: send a finished response, or read or
/// write the named file and then build the response from the outcome with
/// `file_get_response` or `file_post_response`.
#[derive(Clone, Debug, PartialEq, Eq)]
pub enum Action {
    Respond(Response),
    ReadFile(Vec<u8>),
    WriteFile(Vec<u8>, Vec<u8>),
}

/// The mathematical model of the next step.
#[verifier::ext_equal]
pub enum ActionData {
    Respond(RespData),
    ReadFile(Seq<u8>),
    WriteFile(Seq<u8>, Seq<u8>),
}

impl View for Action {
    type V = ActionData;

    open spec fn view(&self) -> ActionData {
        match self {
            Action::Respond(r) => ActionData::Respond(r@),
            Action::ReadFile(f) => ActionData::ReadFile(f@),
            Action::WriteFile(f, b) => ActionData::WriteFile(f@, b@),
        }
    }
}

/// The step a parsed request calls for. Routes with no file work answer at
/// once; the file routes first check that the filename stays inside the
/// serving directory — an unsafe name reads as missing (404) and writes as a
/// server fault (500) — and otherwise hand the file work out.
pub open spec fn spec_handle(req: ReqData) -> ActionData {
    match spec_route(req.method, req.path) {
        RouteData::Root => ActionData::Respond(spec_root_response()),
        RouteData::Echo(s) => ActionData::Respond(spec_echo_response(s)),
        RouteData::UserAgent => ActionData::Respond(spec_user_agent_response(req.headers)),
        RouteData::FileGet(f) => if spec_filename_safe(f) {
            ActionData::ReadFile(f)
        } else {
            ActionData::Respond(spec_not_found_response())
        },
        RouteData::FilePost(f) => if spec_filename_safe(f) {
            ActionData::WriteFile(f, req.body)
        } else {
            ActionData::Respond(spec_file_post_response(false))
        },
        RouteData::NotFound => ActionData::Respond(spec_not_found_response()),
        RouteData::MethodNotAllowed => ActionData::Respond(spec_method_not_allowed_response()),
    }
}

/// Decides the next step for a parsed request.
pub fn handle_request(req: &Request) -> (a: Action)
    ensures
        a@ == spec_handle(req@),
{
    match route(req.method.as_slice(), req.path.as_slice()) {
        Route::Root => Action::Respond(root_response()),
        Route::Echo(s) => Action::Respond(echo_response(s.as_slice())),
        Route::UserAgent => Action::Respond(user_agent_response(&req.headers)),
        Route::FileGet(f) => {
            if filename_is_safe(f.as_slice()) {
                Action::ReadFile(f)
            } else {
                Action::Respond(not_found_response())
            }
        },
        Route::FilePost(f) => {
            if filename_is_safe(f.as_slice()) {
                Action::WriteFile(f, copy_bytes(req.body.as_slice()))
            } else {
                Action::Respond(file_post_response(false))
            }
        },
        Route::NotFound => Action::Respond(not_found_response()),
        Route::MethodNotAllowed => Action::Respond(method_not_allowed_response()),
    }
}

} // verus!
