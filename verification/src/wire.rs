//! The byte constants of the protocol: method names, route paths, header
//! names and values, and status lines. Each comes twice: a spec function
//! giving the byte sequence, and an executable constructor proved to return
//! exactly it.

use vstd::prelude::*;

verus! {

/// The byte sequence `"\r\n"`.
pub open spec fn spec_crlf() -> Seq<u8> {
    seq!['\r' as u8, '\n' as u8]
}

/// Returns the byte sequence `"\r\n"`.
pub fn crlf() -> (r: Vec<u8>)
    ensures
        r@ == spec_crlf(),
{
    let v: Vec<u8> = vec!['\r' as u8, '\n' as u8];
    proof {
        assert(v@ =~= spec_crlf());
    }
    v
}

/// The byte sequence `": "`.
pub open spec fn spec_colon_space() -> Seq<u8> {
    seq![':' as u8, ' ' as u8]
}

/// Returns the byte sequence `": "`.
pub fn colon_space() -> (r: Vec<u8>)
    ensures
        r@ == spec_colon_space(),
{
    let v: Vec<u8> = vec![':' as u8, ' ' as u8];
    proof {
        assert(v@ =~= spec_colon_space());
    }
    v
}

/// The byte sequence `"GET"`.
pub open spec fn spec_method_get() -> Seq<u8> {
    seq!['G' as u8, 'E' as u8, 'T' as u8]
}

/// Returns the byte sequence `"GET"`.
pub fn method_get() -> (r: Vec<u8>)
    ensures
        r@ == spec_method_get(),
{
    let v: Vec<u8> = vec!['G' as u8, 'E' as u8, 'T' as u8];
    proof {
        assert(v@ =~= spec_method_get());
    }
    v
}

/// The byte sequence `"POST"`.
pub open spec fn spec_method_post() -> Seq<u8> {
    seq!['P' as u8, 'O' as u8, 'S' as u8, 'T' as u8]
}

/// Returns the byte sequence `"POST"`.
pub fn method_post() -> (r: Vec<u8>)
    ensures
        r@ == spec_method_post(),
{
    let v: Vec<u8> = vec!['P' as u8, 'O' as u8, 'S' as u8, 'T' as u8];
    proof {
        assert(v@ =~= spec_method_post());
    }
    v
}

/// The byte sequence `"/"`.
pub open spec fn spec_root_path() -> Seq<u8> {
    seq!['/' as u8]
}

/// Returns the byte sequence `"/"`.
pub fn root_path() -> (r: Vec<u8>)
    ensures
        r@ == spec_root_path(),
{
    let v: Vec<u8> = vec!['/' as u8];
    proof {
        assert(v@ =~= spec_root_path());
    }
    v
}

/// The byte sequence `"/echo/"`.
pub open spec fn spec_echo_prefix() -> Seq<u8> {
    seq!['/' as u8, 'e' as u8, 'c' as u8, 'h' as u8, 'o' as u8, '/' as u8]
}

/// Returns the byte sequence `"/echo/"`.
pub fn echo_prefix() -> (r: Vec<u8>)
    ensures
        r@ == spec_echo_prefix(),
{
    let v: Vec<u8> = vec!['/' as u8, 'e' as u8, 'c' as u8, 'h' as u8, 'o' as u8, '/' as u8];
    proof {
        assert(v@ =~= spec_echo_prefix());
    }
    v
}

/// The byte sequence `"/user-agent"`.
pub open spec fn spec_user_agent_path() -> Seq<u8> {
    seq!['/' as u8, 'u' as u8, 's' as u8, 'e' as u8, 'r' as u8, '-' as u8, 'a' as u8, 'g' as u8, 'e' as u8, 'n' as u8, 't' as u8]
}

/// Returns the byte sequence `"/user-agent"`.
pub fn user_agent_path() -> (r: Vec<u8>)
    ensures
        r@ == spec_user_agent_path(),
{
    let v: Vec<u8> = vec!['/' as u8, 'u' as u8, 's' as u8, 'e' as u8, 'r' as u8, '-' as u8, 'a' as u8, 'g' as u8, 'e' as u8, 'n' as u8, 't' as u8];
    proof {
        assert(v@ =~= spec_user_agent_path());
    }
    v
}

/// The byte sequence `"/files/"`.
pub open spec fn spec_files_prefix() -> Seq<u8> {
    seq!['/' as u8, 'f' as u8, 'i' as u8, 'l' as u8, 'e' as u8, 's' as u8, '/' as u8]
}

/// Returns the byte sequence `"/files/"`.
pub fn files_prefix() -> (r: Vec<u8>)
    ensures
        r@ == spec_files_prefix(),
{
    let v: Vec<u8> = vec!['/' as u8, 'f' as u8, 'i' as u8, 'l' as u8, 'e' as u8, 's' as u8, '/' as u8];
    proof {
        assert(v@ =~= spec_files_prefix());
    }
    v
}

/// The byte sequence `"Content-Type"`.
pub open spec fn spec_content_type_name() -> Seq<u8> {
    seq!['C' as u8, 'o' as u8, 'n' as u8, 't' as u8, 'e' as u8, 'n' as u8, 't' as u8, '-' as u8, 'T' as u8, 'y' as u8, 'p' as u8, 'e' as u8]
}

/// Returns the byte sequence `"Content-Type"`.
pub fn content_type_name() -> (r: Vec<u8>)
    ensures
        r@ == spec_content_type_name(),
{
    let v: Vec<u8> = vec!['C' as u8, 'o' as u8, 'n' as u8, 't' as u8, 'e' as u8, 'n' as u8, 't' as u8, '-' as u8, 'T' as u8, 'y' as u8, 'p' as u8, 'e' as u8];
    proof {
        assert(v@ =~= spec_content_type_name());
    }
    v
}

/// The byte sequence `"Content-Length"`.
pub open spec fn spec_content_length_name() -> Seq<u8> {
    seq!['C' as u8, 'o' as u8, 'n' as u8, 't' as u8, 'e' as u8, 'n' as u8, 't' as u8, '-' as u8, 'L' as u8, 'e' as u8, 'n' as u8, 'g' as u8, 't' as u8, 'h' as u8]
}

/// Returns the byte sequence `"Content-Length"`.
pub fn content_length_name() -> (r: Vec<u8>)
    ensures
        r@ == spec_content_length_name(),
{
    let v: Vec<u8> = vec!['C' as u8, 'o' as u8, 'n' as u8, 't' as u8, 'e' as u8, 'n' as u8, 't' as u8, '-' as u8, 'L' as u8, 'e' as u8, 'n' as u8, 'g' as u8, 't' as u8, 'h' as u8];
    proof {
        assert(v@ =~= spec_content_length_name());
    }
    v
}

/// The byte sequence `"Content-Encoding"`.
pub open spec fn spec_content_encoding_name() -> Seq<u8> {
    seq!['C' as u8, 'o' as u8, 'n' as u8, 't' as u8, 'e' as u8, 'n' as u8, 't' as u8, '-' as u8, 'E' as u8, 'n' as u8, 'c' as u8, 'o' as u8, 'd' as u8, 'i' as u8, 'n' as u8, 'g' as u8]
}

/// Returns the byte sequence `"Content-Encoding"`.
pub fn content_encoding_name() -> (r: Vec<u8>)
    ensures
        r@ == spec_content_encoding_name(),
{
    let v: Vec<u8> = vec!['C' as u8, 'o' as u8, 'n' as u8, 't' as u8, 'e' as u8, 'n' as u8, 't' as u8, '-' as u8, 'E' as u8, 'n' as u8, 'c' as u8, 'o' as u8, 'd' as u8, 'i' as u8, 'n' as u8, 'g' as u8];
    proof {
        assert(v@ =~= spec_content_encoding_name());
    }
    v
}

/// The byte sequence `"User-Agent"`.
pub open spec fn spec_user_agent_name() -> Seq<u8> {
    seq!['U' as u8, 's' as u8, 'e' as u8, 'r' as u8, '-' as u8, 'A' as u8, 'g' as u8, 'e' as u8, 'n' as u8, 't' as u8]
}

/// Returns the byte sequence `"User-Agent"`.
pub fn user_agent_name() -> (r: Vec<u8>)
    ensures
        r@ == spec_user_agent_name(),
{
    let v: Vec<u8> = vec!['U' as u8, 's' as u8, 'e' as u8, 'r' as u8, '-' as u8, 'A' as u8, 'g' as u8, 'e' as u8, 'n' as u8, 't' as u8];
    proof {
        assert(v@ =~= spec_user_agent_name());
    }
    v
}

/// The byte sequence `"text/plain"`.
pub open spec fn spec_text_plain() -> Seq<u8> {
    seq!['t' as u8, 'e' as u8, 'x' as u8, 't' as u8, '/' as u8, 'p' as u8, 'l' as u8, 'a' as u8, 'i' as u8, 'n' as u8]
}

/// Returns the byte sequence `"text/plain"`.
pub fn text_plain() -> (r: Vec<u8>)
    ensures
        r@ == spec_text_plain(),
{
    let v: Vec<u8> = vec!['t' as u8, 'e' as u8, 'x' as u8, 't' as u8, '/' as u8, 'p' as u8, 'l' as u8, 'a' as u8, 'i' as u8, 'n' as u8];
    proof {
        assert(v@ =~= spec_text_plain());
    }
    v
}

/// The byte sequence `"application/octet-stream"`.
pub open spec fn spec_octet_stream() -> Seq<u8> {
    seq!['a' as u8, 'p' as u8, 'p' as u8, 'l' as u8, 'i' as u8, 'c' as u8, 'a' as u8, 't' as u8, 'i' as u8, 'o' as u8, 'n' as u8, '/' as u8, 'o' as u8, 'c' as u8, 't' as u8, 'e' as u8, 't' as u8, '-' as u8, 's' as u8, 't' as u8, 'r' as u8, 'e' as u8, 'a' as u8, 'm' as u8]
}

/// Returns the byte sequence `"application/octet-stream"`.
pub fn octet_stream() -> (r: Vec<u8>)
    ensures
        r@ == spec_octet_stream(),
{
    let v: Vec<u8> = vec!['a' as u8, 'p' as u8, 'p' as u8, 'l' as u8, 'i' as u8, 'c' as u8, 'a' as u8, 't' as u8, 'i' as u8, 'o' as u8, 'n' as u8, '/' as u8, 'o' as u8, 'c' as u8, 't' as u8, 'e' as u8, 't' as u8, '-' as u8, 's' as u8, 't' as u8, 'r' as u8, 'e' as u8, 'a' as u8, 'm' as u8];
    proof {
        assert(v@ =~= spec_octet_stream());
    }
    v
}

/// The byte sequence `"gzip"`.
pub open spec fn spec_gzip_token() -> Seq<u8> {
    seq!['g' as u8, 'z' as u8, 'i' as u8, 'p' as u8]
}

/// Returns the byte sequence `"gzip"`.
pub fn gzip_token() -> (r: Vec<u8>)
    ensures
        r@ == spec_gzip_token(),
{
    let v: Vec<u8> = vec!['g' as u8, 'z' as u8, 'i' as u8, 'p' as u8];
    proof {
        assert(v@ =~= spec_gzip_token());
    }
    v
}

/// The byte sequence `"HTTP/1.1"`.
pub open spec fn spec_http_version() -> Seq<u8> {
    seq!['H' as u8, 'T' as u8, 'T' as u8, 'P' as u8, '/' as u8, '1' as u8, '.' as u8, '1' as u8]
}

/// Returns the byte sequence `"HTTP/1.1"`.
pub fn http_version() -> (r: Vec<u8>)
    ensures
        r@ == spec_http_version(),
{
    let v: Vec<u8> = vec!['H' as u8, 'T' as u8, 'T' as u8, 'P' as u8, '/' as u8, '1' as u8, '.' as u8, '1' as u8];
    proof {
        assert(v@ =~= spec_http_version());
    }
    v
}

/// The byte sequence `"HTTP/1.1 200 OK"`.
pub open spec fn spec_status_line_ok() -> Seq<u8> {
    seq!['H' as u8, 'T' as u8, 'T' as u8, 'P' as u8, '/' as u8, '1' as u8, '.' as u8, '1' as u8, ' ' as u8, '2' as u8, '0' as u8, '0' as u8, ' ' as u8, 'O' as u8, 'K' as u8]
}

/// Returns the byte sequence `"HTTP/1.1 200 OK"`.
pub fn status_line_ok() -> (r: Vec<u8>)
    ensures
        r@ == spec_status_line_ok(),
{
    let v: Vec<u8> = vec!['H' as u8, 'T' as u8, 'T' as u8, 'P' as u8, '/' as u8, '1' as u8, '.' as u8, '1' as u8, ' ' as u8, '2' as u8, '0' as u8, '0' as u8, ' ' as u8, 'O' as u8, 'K' as u8];
    proof {
        assert(v@ =~= spec_status_line_ok());
    }
    v
}

/// The byte sequence `"HTTP/1.1 201 Created"`.
pub open spec fn spec_status_line_created() -> Seq<u8> {
    seq!['H' as u8, 'T' as u8, 'T' as u8, 'P' as u8, '/' as u8, '1' as u8, '.' as u8, '1' as u8, ' ' as u8, '2' as u8, '0' as u8, '1' as u8, ' ' as u8, 'C' as u8, 'r' as u8, 'e' as u8, 'a' as u8, 't' as u8, 'e' as u8, 'd' as u8]
}

/// Returns the byte sequence `"HTTP/1.1 201 Created"`.
pub fn status_line_created() -> (r: Vec<u8>)
    ensures
        r@ == spec_status_line_created(),
{
    let v: Vec<u8> = vec!['H' as u8, 'T' as u8, 'T' as u8, 'P' as u8, '/' as u8, '1' as u8, '.' as u8, '1' as u8, ' ' as u8, '2' as u8, '0' as u8, '1' as u8, ' ' as u8, 'C' as u8, 'r' as u8, 'e' as u8, 'a' as u8, 't' as u8, 'e' as u8, 'd' as u8];
    proof {
        assert(v@ =~= spec_status_line_created());
    }
    v
}

/// The byte sequence `"HTTP/1.1 404 Not Found"`.
pub open spec fn spec_status_line_not_found() -> Seq<u8> {
    seq!['H' as u8, 'T' as u8, 'T' as u8, 'P' as u8, '/' as u8, '1' as u8, '.' as u8, '1' as u8, ' ' as u8, '4' as u8, '0' as u8, '4' as u8, ' ' as u8, 'N' as u8, 'o' as u8, 't' as u8, ' ' as u8, 'F' as u8, 'o' as u8, 'u' as u8, 'n' as u8, 'd' as u8]
}

/// Returns the byte sequence `"HTTP/1.1 404 Not Found"`.
pub fn status_line_not_found() -> (r: Vec<u8>)
    ensures
        r@ == spec_status_line_not_found(),
{
    let v: Vec<u8> = vec!['H' as u8, 'T' as u8, 'T' as u8, 'P' as u8, '/' as u8, '1' as u8, '.' as u8, '1' as u8, ' ' as u8, '4' as u8, '0' as u8, '4' as u8, ' ' as u8, 'N' as u8, 'o' as u8, 't' as u8, ' ' as u8, 'F' as u8, 'o' as u8, 'u' as u8, 'n' as u8, 'd' as u8];
    proof {
        assert(v@ =~= spec_status_line_not_found());
    }
    v
}

/// The byte sequence `"HTTP/1.1 405 Method Not Allowed"`.
pub open spec fn spec_status_line_method_not_allowed() -> Seq<u8> {
    seq!['H' as u8, 'T' as u8, 'T' as u8, 'P' as u8, '/' as u8, '1' as u8, '.' as u8, '1' as u8, ' ' as u8, '4' as u8, '0' as u8, '5' as u8, ' ' as u8, 'M' as u8, 'e' as u8, 't' as u8, 'h' as u8, 'o' as u8, 'd' as u8, ' ' as u8, 'N' as u8, 'o' as u8, 't' as u8, ' ' as u8, 'A' as u8, 'l' as u8, 'l' as u8, 'o' as u8, 'w' as u8, 'e' as u8, 'd' as u8]
}

/// Returns the byte sequence `"HTTP/1.1 405 Method Not Allowed"`.
pub fn status_line_method_not_allowed() -> (r: Vec<u8>)
    ensures
        r@ == spec_status_line_method_not_allowed(),
{
    let v: Vec<u8> = vec!['H' as u8, 'T' as u8, 'T' as u8, 'P' as u8, '/' as u8, '1' as u8, '.' as u8, '1' as u8, ' ' as u8, '4' as u8, '0' as u8, '5' as u8, ' ' as u8, 'M' as u8, 'e' as u8, 't' as u8, 'h' as u8, 'o' as u8, 'd' as u8, ' ' as u8, 'N' as u8, 'o' as u8, 't' as u8, ' ' as u8, 'A' as u8, 'l' as u8, 'l' as u8, 'o' as u8, 'w' as u8, 'e' as u8, 'd' as u8];
    proof {
        assert(v@ =~= spec_status_line_method_not_allowed());
    }
    v
}

/// The byte sequence `"HTTP/1.1 500 Internal Server Error"`.
pub open spec fn spec_status_line_internal_error() -> Seq<u8> {
    seq!['H' as u8, 'T' as u8, 'T' as u8, 'P' as u8, '/' as u8, '1' as u8, '.' as u8, '1' as u8, ' ' as u8, '5' as u8, '0' as u8, '0' as u8, ' ' as u8, 'I' as u8, 'n' as u8, 't' as u8, 'e' as u8, 'r' as u8, 'n' as u8, 'a' as u8, 'l' as u8, ' ' as u8, 'S' as u8, 'e' as u8, 'r' as u8, 'v' as u8, 'e' as u8, 'r' as u8, ' ' as u8, 'E' as u8, 'r' as u8, 'r' as u8, 'o' as u8, 'r' as u8]
}

/// Returns the byte sequence `"HTTP/1.1 500 Internal Server Error"`.
pub fn status_line_internal_error() -> (r: Vec<u8>)
    ensures
        r@ == spec_status_line_internal_error(),
{
    let v: Vec<u8> = vec!['H' as u8, 'T' as u8, 'T' as u8, 'P' as u8, '/' as u8, '1' as u8, '.' as u8, '1' as u8, ' ' as u8, '5' as u8, '0' as u8, '0' as u8, ' ' as u8, 'I' as u8, 'n' as u8, 't' as u8, 'e' as u8, 'r' as u8, 'n' as u8, 'a' as u8, 'l' as u8, ' ' as u8, 'S' as u8, 'e' as u8, 'r' as u8, 'v' as u8, 'e' as u8, 'r' as u8, ' ' as u8, 'E' as u8, 'r' as u8, 'r' as u8, 'o' as u8, 'r' as u8];
    proof {
        assert(v@ =~= spec_status_line_internal_error());
    }
    v
}

} // verus!
