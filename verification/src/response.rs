//! Responses and their wire form: status codes and lines, the content
//! headers that announce a body, and serialization proved to emit the exact
//! bytes.

use vstd::prelude::*;

use crate::bytes::{copy_bytes, extend_bytes};
use crate::headers::{Header, HeaderData, headers_view};
use crate::num::{spec_digits, usize_to_decimal};
use crate::wire::{
    spec_colon_space, colon_space, spec_crlf, crlf, spec_content_type_name, content_type_name,
    spec_content_length_name, content_length_name, spec_content_encoding_name,
    content_encoding_name, spec_gzip_token, gzip_token, spec_status_line_ok, status_line_ok,
    spec_status_line_created, status_line_created, spec_status_line_not_found,
    status_line_not_found, spec_status_line_method_not_allowed, status_line_method_not_allowed,
    spec_status_line_internal_error, status_line_internal_error,
};

verus! {

/// The status of a response, one of the codes this server emits.
#[derive(Clone, Copy, Debug, PartialEq, Eq, Structural)]
pub enum StatusCode {
    Okay,
    Created,
    NotFound,
    MethodNotAllowed,
    InternalServerError,
}

impl StatusCode {
    /// The numeric code.
    pub open spec fn spec_code(self) -> int {
        match self {
            StatusCode::Okay => 200,
            StatusCode::Created => 201,
            StatusCode::NotFound => 404,
            StatusCode::MethodNotAllowed => 405,
            StatusCode::InternalServerError => 500,
        }
    }

    /// Returns the numeric code.
    pub fn code(&self) -> (r: u16)
        ensures
            r as int == self.spec_code(),
    {
        match self {
            StatusCode::Okay => 200,
            StatusCode::Created => 201,
            StatusCode::NotFound => 404,
            StatusCode::MethodNotAllowed => 405,
            StatusCode::InternalServerError => 500,
        }
    }

    /// The status line that announces this code, without its CRLF.
    pub open spec fn spec_status_line(self) -> Seq<u8> {
        match self {
            StatusCode::Okay => spec_status_line_ok(),
            StatusCode::Created => spec_status_line_created(),
            StatusCode::NotFound => spec_status_line_not_found(),
            StatusCode::MethodNotAllowed => spec_status_line_method_not_allowed(),
            StatusCode::InternalServerError => spec_status_line_internal_error(),
        }
    }

    /// Returns the status line that announces this code, without its CRLF.
    pub fn status_line(&self) -> (r: Vec<u8>)
        ensures
            r@ == self.spec_status_line(),
    {
        match self {
            StatusCode::Okay => status_line_ok(),
            StatusCode::Created => status_line_created(),
            StatusCode::NotFound => status_line_not_found(),
            StatusCode::MethodNotAllowed => status_line_method_not_allowed(),
            StatusCode::InternalServerError => status_line_internal_error(),
        }
    }
}

/// One response: status, headers and body.
#[derive(Clone, Debug, PartialEq, Eq)]
pub struct Response {
    pub status: StatusCode,
    pub headers: Vec<Header>,
    pub body: Vec<u8>,
}

/// The mathematical model of a response.
#[verifier::ext_equal]
pub struct RespData {
    pub status: StatusCode,
    pub headers: Seq<HeaderData>,
    pub body: Seq<u8>,
}

impl View for Response {
    type V = RespData;

    open spec fn view(&self) -> RespData {
        RespData {
            status: self.status,
            headers: headers_view(self.headers@),
            body: self.body@,
        }
    }
}

/// The content headers that announce a body: its type, its byte length in
/// decimal and, when `gzip` is set, a gzip content-encoding mark.
pub open spec fn spec_create_headers(
    content_type: Seq<u8>,
    content_length: nat,
    gzip: bool,
) -> Seq<HeaderData> {
    let base = seq![
        HeaderData { name: spec_content_type_name(), value: content_type },
        HeaderData { name: spec_content_length_name(), value: spec_digits(content_length) },
    ];
    if gzip {
        base.push(HeaderData { name: spec_content_encoding_name(), value: spec_gzip_token() })
    } else {
        base
    }
}

/// Builds the content headers for a body of the given type and byte length.
pub fn create_headers(content_type: &[u8], content_length: usize, gzip: bool) -> (r: Vec<Header>)
    ensures
        headers_view(r@) == spec_create_headers(content_type@, content_length as nat, gzip),
{
    let mut hs: Vec<Header> = Vec::new();
    hs.push(Header { name: content_type_name(), value: copy_bytes(content_type) });
    hs.push(Header { name: content_length_name(), value: usize_to_decimal(content_length) });
    if gzip {
        hs.push(Header { name: content_encoding_name(), value: gzip_token() });
    }
    proof {
        assert(headers_view(hs@) =~= spec_create_headers(
            content_type@,
            content_length as nat,
            gzip,
        ));
    }
    hs
}

/// The wire form of one header field: name, `": "`, value, CRLF.
pub open spec fn spec_serialize_header(h: HeaderData) -> Seq<u8> {
    h.name + spec_colon_space() + h.value + spec_crlf()
}

/// The wire form of a header list, in order.
pub open spec fn spec_serialize_headers(hs: Seq<HeaderData>) -> Seq<u8>
    decreases hs.len(),
{
    if hs.len() == 0 {
        seq![]
    } else {
        spec_serialize_header(hs[0]) + spec_serialize_headers(hs.skip(1))
    }
}

/// Serialization of a header list grows one field at a time.
pub proof fn lemma_serialize_headers_snoc(hs: Seq<HeaderData>, i: int)
    requires
        0 <= i < hs.len(),
    ensures
        spec_serialize_headers(hs.take(i + 1)) == spec_serialize_headers(hs.take(i))
            + spec_serialize_header(hs[i]),
    decreases i,
{
    if i == 0 {
        assert(hs.take(1).skip(1) =~= Seq::<HeaderData>::empty());
        assert(hs.take(0) =~= Seq::<HeaderData>::empty());
        assert(spec_serialize_headers(hs.take(1)) =~= spec_serialize_header(hs[0]));
        assert(spec_serialize_headers(hs.take(0)) + spec_serialize_header(hs[0])
            =~= spec_serialize_header(hs[0]));
    } else {
        lemma_serialize_headers_snoc(hs.skip(1), i - 1);
        assert(hs.take(i + 1).skip(1) =~= hs.skip(1).take(i));
        assert(hs.take(i).skip(1) =~= hs.skip(1).take(i - 1));
        assert(spec_serialize_headers(hs.take(i + 1)) == spec_serialize_header(hs[0])
            + spec_serialize_headers(hs.skip(1).take(i)));
        assert(spec_serialize_headers(hs.take(i)) == spec_serialize_header(hs[0])
            + spec_serialize_headers(hs.skip(1).take(i - 1)));
        assert(spec_serialize_headers(hs.take(i + 1)) =~= spec_serialize_headers(hs.take(i))
            + spec_serialize_header(hs.skip(1)[i - 1]));
    }
}

/// The wire form of a whole response: status line, CRLF, the headers, an
/// empty line, then the body.
pub open spec fn spec_serialize_response(r: RespData) -> Seq<u8> {
    r.status.spec_status_line() + spec_crlf() + spec_serialize_headers(r.headers) + spec_crlf()
        + r.body
}

/// Serializes a response onto a fresh byte vector.
pub fn serialize_response(resp: &Response) -> (r: Vec<u8>)
    ensures
        r@ == spec_serialize_response(resp@),
{
    let mut out: Vec<u8> = Vec::new();
    let sl = resp.status.status_line();
    extend_bytes(&mut out, sl.as_slice());
    let sep = crlf();
    extend_bytes(&mut out, sep.as_slice());
    let ghost hv = headers_view(resp.headers@);
    let ghost prefix = resp.status.spec_status_line() + spec_crlf();
    proof {
        assert(out@ =~= prefix + spec_serialize_headers(hv.take(0)));
    }
    let mut i: usize = 0;
    while i < resp.headers.len()
        invariant
            0 <= i <= resp.headers@.len(),
            hv == headers_view(resp.headers@),
            hv.len() == resp.headers@.len(),
            prefix == resp.status.spec_status_line() + spec_crlf(),
            out@ == prefix + spec_serialize_headers(hv.take(i as int)),
        decreases resp.headers@.len() - i,
    {
        let h = &resp.headers[i];
        extend_bytes(&mut out, h.name.as_slice());
        let cs = colon_space();
        extend_bytes(&mut out, cs.as_slice());
        extend_bytes(&mut out, h.value.as_slice());
        let sep2 = crlf();
        extend_bytes(&mut out, sep2.as_slice());
        proof {
            lemma_serialize_headers_snoc(hv, i as int);
            assert(hv[i as int] == resp.headers@[i as int]@);
            assert(out@ =~= prefix + spec_serialize_headers(hv.take(i + 1)));
        }
        i = i + 1;
    }
    proof {
        assert(hv.take(hv.len() as int) =~= hv);
    }
    let sep3 = crlf();
    extend_bytes(&mut out, sep3.as_slice());
    extend_bytes(&mut out, resp.body.as_slice());
    proof {
        assert(out@ =~= spec_serialize_response(resp@));
    }
    out
}

} // verus!
