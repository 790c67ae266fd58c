//! The route table: maps a method and a path to a handler, checking exact
//! matches before prefix matches.

use vstd::prelude::*;

use crate::bytes::{bytes_eq, starts_with, spec_starts_with, subrange_to_vec};
use crate::wire::{
    spec_method_get, method_get, spec_method_post, method_post, spec_root_path, root_path,
    spec_echo_prefix, echo_prefix, spec_user_agent_path, user_agent_path, spec_files_prefix,
    files_prefix,
};

verus! {

/// Where a request is sent: one of the fixed routes, with the path remainder
/// that prefix routes capture, or one of the two terminal outcomes.
#[derive(Clone, Debug, PartialEq, Eq)]
pub enum Route {
    Root,
    Echo(Vec<u8>),
    UserAgent,
    FileGet(Vec<u8>),
    FilePost(Vec<u8>),
    NotFound,
    MethodNotAllowed,
}

/// The mathematical model of a routing decision.
#[verifier::ext_equal]
pub enum RouteData {
    Root,
    Echo(Seq<u8>),
    UserAgent,
    FileGet(Seq<u8>),
    FilePost(Seq<u8>),
    NotFound,
    MethodNotAllowed,
}

impl View for Route {
    type V = RouteData;

    open spec fn view(&self) -> RouteData {
        match self {
            Route::Root => RouteData::Root,
            Route::Echo(s) => RouteData::Echo(s@),
            Route::UserAgent => RouteData::UserAgent,
            Route::FileGet(s) => RouteData::FileGet(s@),
            Route::FilePost(s) => RouteData::FilePost(s@),
            Route::NotFound => RouteData::NotFound,
            Route::MethodNotAllowed => RouteData::MethodNotAllowed,
        }
    }
}

/// The route table: exact matches before prefix matches, GET routes for the
/// root, the echo prefix, the user-agent page and file reads, one POST route
/// for file writes, not-found for any other path, and method-not-allowed for
/// any method other than GET and POST.
pub open spec fn spec_route(m: Seq<u8>, p: Seq<u8>) -> RouteData {
    if m == spec_method_get() {
        if p == spec_root_path() {
            RouteData::Root
        } else if spec_starts_with(p, spec_echo_prefix()) {
            RouteData::Echo(p.skip(spec_echo_prefix().len() as int))
        } else if p == spec_user_agent_path() {
            RouteData::UserAgent
        } else if spec_starts_with(p, spec_files_prefix()) {
            RouteData::FileGet(p.skip(spec_files_prefix().len() as int))
        } else {
            RouteData::NotFound
        }
    } else if m == spec_method_post() {
        if spec_starts_with(p, spec_files_prefix()) {
            RouteData::FilePost(p.skip(spec_files_prefix().len() as int))
        } else {
            RouteData::NotFound
        }
    } else {
        RouteData::MethodNotAllowed
    }
}

/// Maps a method and a path to their route.
pub fn route(method: &[u8], path: &[u8]) -> (r: Route)
    ensures
        r@ == spec_route(method@, path@),
{
    let get = method_get();
    let post = method_post();
    if bytes_eq(method, get.as_slice()) {
        let root = root_path();
        let echo = echo_prefix();
        let ua = user_agent_path();
        let files = files_prefix();
        if bytes_eq(path, root.as_slice()) {
            Route::Root
        } else if starts_with(path, echo.as_slice()) {
            let rest = subrange_to_vec(path, echo.len(), path.len());
            proof {
                assert(rest@ =~= path@.skip(spec_echo_prefix().len() as int));
            }
            Route::Echo(rest)
        } else if bytes_eq(path, ua.as_slice()) {
            Route::UserAgent
        } else if starts_with(path, files.as_slice()) {
            let rest = subrange_to_vec(path, files.len(), path.len());
            proof {
                assert(rest@ =~= path@.skip(spec_files_prefix().len() as int));
            }
            Route::FileGet(rest)
        } else {
            Route::NotFound
        }
    } else if bytes_eq(method, post.as_slice()) {
        let files = files_prefix();
        if starts_with(path, files.as_slice()) {
            let rest = subrange_to_vec(path, files.len(), path.len());
            proof {
                assert(rest@ =~= path@.skip(spec_files_prefix().len() as int));
            }
            Route::FilePost(rest)
        } else {
            Route::NotFound
        }
    } else {
        Route::MethodNotAllowed
    }
}

} // verus!
