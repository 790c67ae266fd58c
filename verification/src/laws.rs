//! The laws the server obeys, each proved once and for all: what every echo,
//! user-agent, root, file and unsupported-method request is answered with,
//! and — end to end on the wire — which exact reply bytes follow from which
//! exact request bytes.

use vstd::prelude::*;

use crate::handlers::{
    ActionData, spec_handle, spec_echo_response, spec_file_get_response, spec_file_post_response,
    spec_filename_safe, spec_root_response, spec_user_agent_response,
};
use crate::bytes::spec_starts_with;
use crate::headers::{HeaderData, spec_content_length, spec_lookup};
use crate::num::{is_digit, lemma_decimal_round_trip, lemma_digits_are_digits, spec_digits};
use crate::request::{
    ReqData, find_delim, is_ws, spec_header_split, spec_line_end, spec_parse_headers,
    spec_parse_request, spec_tokens, spec_trim_end, lemma_find_delim_no_hit,
    lemma_line_end_no_lf, lemma_tokens_cons, lemma_tokens_skip_ws,
};
use crate::response::{
    spec_create_headers, spec_serialize_header, spec_serialize_headers, spec_serialize_response,
    StatusCode,
};
use crate::wire::{
    spec_method_get, spec_method_post, spec_root_path, spec_echo_prefix, spec_user_agent_path,
    spec_files_prefix, spec_user_agent_name, spec_content_length_name, spec_content_type_name,
    spec_colon_space, spec_crlf, spec_http_version, spec_status_line_created,
    spec_status_line_ok, spec_text_plain,
};

verus! {

/// Law: a GET request whose path is the echo prefix followed by `s` is
/// answered at once with 200, the body is exactly `s`, and the
/// `Content-Length` header holds the decimal byte length of `s`.
pub proof fn lemma_echo(req: ReqData, s: Seq<u8>)
    requires
        req.method == spec_method_get(),
        req.path == spec_echo_prefix() + s,
        forall|i: int| 0 <= i < s.len() ==> #[trigger] s[i] != 13 && s[i] != 10,
    ensures
        spec_handle(req) matches ActionData::Respond(r) && r.status == StatusCode::Okay && r.body
            == s && spec_lookup(r.headers, spec_content_length_name()) == Some(
            spec_digits(s.len()),
        ),
{
    let p = req.path;
    let e = spec_echo_prefix();
    assert(spec_starts_with(p, e)) by {
        assert(p.subrange(0, e.len() as int) =~= e);
    }
    assert(p.skip(e.len() as int) =~= s);
}

/// Law: a GET request for the user-agent page that carries a `User-Agent`
/// header with value `v` is answered at once with 200 and body exactly `v`.
pub proof fn lemma_user_agent(req: ReqData, v: Seq<u8>)
    requires
        req.method == spec_method_get(),
        req.path == spec_user_agent_path(),
        spec_lookup(req.headers, spec_user_agent_name()) == Some(v),
    ensures
        spec_handle(req) matches ActionData::Respond(r) && r.status == StatusCode::Okay && r.body
            == v,
{
    let p = req.path;
    let e = spec_echo_prefix();
    assert(!spec_starts_with(p, e)) by {
        if spec_starts_with(p, e) {
            assert(p.subrange(0, e.len() as int)[1] == p[1]);
        }
    }
}

/// Law: for a filename `f` that stays inside the serving directory, a POST
/// to the file route with body `b` writes exactly `b` to the file named `f`,
/// a GET of the same route reads the file named `f`, and a read that hands
/// back `b` is answered with 200 and body exactly `b`.
pub proof fn lemma_file_round_trip(post_req: ReqData, get_req: ReqData, f: Seq<u8>, b: Seq<u8>)
    requires
        post_req.method == spec_method_post(),
        post_req.path == spec_files_prefix() + f,
        post_req.body == b,
        get_req.method == spec_method_get(),
        get_req.path == spec_files_prefix() + f,
        spec_filename_safe(f),
    ensures
        spec_handle(post_req) == ActionData::WriteFile(f, b),
        spec_handle(get_req) == ActionData::ReadFile(f),
        spec_file_get_response(Some(b)).status == StatusCode::Okay,
        spec_file_get_response(Some(b)).body == b,
{
    let p = get_req.path;
    let fp = spec_files_prefix();
    let e = spec_echo_prefix();
    assert(spec_starts_with(p, fp)) by {
        assert(p.subrange(0, fp.len() as int) =~= fp);
    }
    assert(!spec_starts_with(p, e)) by {
        if spec_starts_with(p, e) {
            assert(p.subrange(0, e.len() as int)[1] == p[1]);
        }
    }
    assert(p != spec_user_agent_path()) by {
        if p == spec_user_agent_path() {
            assert(p[1] == spec_user_agent_path()[1]);
        }
    }
    assert(p.skip(fp.len() as int) =~= f);
}

/// Law: a GET of the file route for a safe filename `f` reads the file named
/// `f`, and a read that found no file is answered with 404 and an empty
/// body.
pub proof fn lemma_file_missing(get_req: ReqData, f: Seq<u8>)
    requires
        get_req.method == spec_method_get(),
        get_req.path == spec_files_prefix() + f,
        spec_filename_safe(f),
    ensures
        spec_handle(get_req) == ActionData::ReadFile(f),
        spec_file_get_response(None).status == StatusCode::NotFound,
        spec_file_get_response(None).body.len() == 0,
        spec_file_get_response(None).headers.len() == 0,
{
    let p = get_req.path;
    let fp = spec_files_prefix();
    let e = spec_echo_prefix();
    assert(spec_starts_with(p, fp)) by {
        assert(p.subrange(0, fp.len() as int) =~= fp);
    }
    assert(!spec_starts_with(p, e)) by {
        if spec_starts_with(p, e) {
            assert(p.subrange(0, e.len() as int)[1] == p[1]);
        }
    }
    assert(p != spec_user_agent_path()) by {
        if p == spec_user_agent_path() {
            assert(p[1] == spec_user_agent_path()[1]);
        }
    }
    assert(p.skip(fp.len() as int) =~= f);
}

/// Law: a GET of the root path is answered at once with 200, an empty body,
/// and no headers at all — in particular no `Content-Length` header.
pub proof fn lemma_root(req: ReqData)
    requires
        req.method == spec_method_get(),
        req.path == spec_root_path(),
    ensures
        spec_handle(req) == ActionData::Respond(spec_root_response()),
        spec_root_response().status == StatusCode::Okay,
        spec_root_response().body.len() == 0,
        spec_root_response().headers.len() == 0,
        spec_lookup(spec_root_response().headers, spec_content_length_name()) is None,
{
}

/// The wire form of a GET request for the echo route whose captured
/// remainder is `s`: request line, then an empty header block.
pub open spec fn spec_echo_request_wire(s: Seq<u8>) -> Seq<u8> {
    spec_method_get() + seq![32u8] + spec_echo_prefix() + s + seq![32u8] + spec_http_version()
        + spec_crlf() + spec_crlf()
}

/// The exact bytes of a 200 reply that carries `s` as a plain-text body:
/// status line, content headers for the byte length of `s`, then `s`.
pub open spec fn spec_plain_reply_wire(s: Seq<u8>) -> Seq<u8> {
    spec_status_line_ok() + spec_crlf() + spec_content_type_name() + spec_colon_space()
        + spec_text_plain() + spec_crlf() + spec_content_length_name() + spec_colon_space()
        + spec_digits(s.len()) + spec_crlf() + spec_crlf() + s
}

/// Law, end to end on the wire: for a whitespace-free `s`, the request bytes
/// `GET /echo/<s> HTTP/1.1` followed by an empty header block parse to a
/// request that the echo route answers at once, and the serialized answer is
/// byte for byte the 200 reply carrying `s`.
pub proof fn lemma_echo_wire(s: Seq<u8>)
    requires
        forall|i: int| 0 <= i < s.len() ==> !is_ws(#[trigger] s[i]),
    ensures
        spec_parse_request(spec_echo_request_wire(s)) matches Ok(req) && spec_handle(req)
            == ActionData::Respond(spec_echo_response(s)) && spec_serialize_response(
            spec_echo_response(s),
        ) == spec_plain_reply_wire(s),
{
    let g = spec_method_get();
    let sp = seq![32u8];
    let e = spec_echo_prefix();
    let v = spec_http_version();
    let c = spec_crlf();
    let input = spec_echo_request_wire(s);
    let n = s.len() as int;
    let t2 = e + s;
    let pe = 19 + n;

    assert(g[0] == 71 && g[1] == 69 && g[2] == 84);
    assert(e[0] == 47 && e[1] == 101 && e[2] == 99 && e[3] == 104 && e[4] == 111 && e[5] == 47);
    assert(v[0] == 72 && v[1] == 84 && v[2] == 84 && v[3] == 80 && v[4] == 47 && v[5] == 49
        && v[6] == 46 && v[7] == 49);
    assert(c[0] == 13 && c[1] == 10);
    assert(input.len() == pe + 4);

    // The request line runs up to the first CRLF.
    assert(input[pe] == 13 && input[pe + 1] == 10 && input[pe + 2] == 13 && input[pe + 3] == 10);
    assert forall|k: int| 0 <= k < pe + 1 implies input[k] != 10 by {
        if k < 3 {
            assert(input[k] == g[k]);
        } else if k == 3 {
            assert(input[k] == 32);
        } else if k < 10 {
            assert(input[k] == e[k - 4]);
        } else if k < 10 + n {
            assert(input[k] == s[k - 10]);
        } else if k == 10 + n {
            assert(input[k] == 32);
        } else if k < 19 + n {
            assert(input[k] == v[k - 11 - n]);
        } else {
            assert(input[k] == 13);
        }
    }
    lemma_line_end_no_lf(input, 0, pe + 1);
    assert(spec_line_end(input, 0) == pe + 2);

    // The request line tokenizes into exactly the three tokens.
    let rl = input.take(pe + 2);
    let rest0 = sp + t2 + sp + v + c;
    let rest1 = t2 + sp + v + c;
    let rest2 = sp + v + c;
    let rest3 = v + c;
    assert forall|k: int| 0 <= k < t2.len() implies !is_ws(#[trigger] t2[k]) by {
        if k < 6 {
            assert(t2[k] == e[k]);
        } else {
            assert(t2[k] == s[k - 6]);
        }
    }
    assert(rl =~= g + rest0);
    lemma_tokens_cons(g, rest0);
    lemma_tokens_skip_ws(rest0);
    assert(rest0.skip(1) =~= rest1);
    lemma_tokens_cons(t2, rest2);
    assert(rest1 =~= t2 + rest2);
    lemma_tokens_skip_ws(rest2);
    assert(rest2.skip(1) =~= rest3);
    lemma_tokens_cons(v, c);
    assert(rest3 =~= v + c);
    lemma_tokens_skip_ws(c);
    assert(c.skip(1) =~= seq![10u8]);
    lemma_tokens_skip_ws(seq![10u8]);
    assert(seq![10u8].skip(1) =~= Seq::<u8>::empty());
    assert(spec_tokens(c) =~= Seq::<Seq<u8>>::empty());
    assert(spec_tokens(rl) =~= seq![g, t2, v]);

    // The header block is empty: the next line is the bare CRLF.
    assert(spec_line_end(input, pe + 3) == pe + 4);
    assert(spec_line_end(input, pe + 2) == pe + 4);
    assert(input.subrange(pe + 2, pe + 4) =~= spec_crlf());
    assert(spec_parse_headers(input, pe + 2) == (Seq::<HeaderData>::empty(), pe
        + 4));

    // GET carries no body, so parsing succeeds with an empty one.
    assert(g != spec_method_post());
    assert(input.subrange(pe + 4, pe + 4) =~= Seq::<u8>::empty());
    let req = ReqData {
        method: g,
        path: t2,
        version: v,
        headers: Seq::<HeaderData>::empty(),
        body: Seq::<u8>::empty(),
    };
    assert(spec_parse_request(input) matches Ok(r) && r =~= req);

    // The echo route captures `s` and answers at once.
    assert(spec_starts_with(t2, e)) by {
        assert(t2.subrange(0, 6) =~= e);
    }
    assert(t2.skip(6) =~= s);
    assert(spec_handle(req) == ActionData::Respond(spec_echo_response(s)));

    // The serialized answer, byte for byte.
    let hd = spec_create_headers(spec_text_plain(), s.len(), false);
    assert(hd.skip(1) =~= seq![hd[1]]);
    assert(seq![hd[1]].skip(1) =~= Seq::<HeaderData>::empty());
    assert(spec_serialize_headers(Seq::<HeaderData>::empty()) == Seq::<
        u8,
    >::empty());
    assert(spec_serialize_headers(seq![hd[1]]) == spec_serialize_header(hd[1]) + Seq::<
        u8,
    >::empty());
    assert(spec_serialize_headers(hd) == spec_serialize_header(hd[0]) + spec_serialize_headers(
        hd.skip(1),
    ));
    assert(spec_serialize_response(spec_echo_response(s)) =~= spec_plain_reply_wire(s));
}

/// The wire form of a POST to the file route: request line for the filename
/// `f`, a Content-Length header declaring the byte length of `b`, an empty
/// line, then `b` itself.
pub open spec fn spec_file_post_request_wire(f: Seq<u8>, b: Seq<u8>) -> Seq<u8> {
    spec_method_post() + seq![32u8] + spec_files_prefix() + f + seq![32u8] + spec_http_version()
        + spec_crlf() + spec_content_length_name() + spec_colon_space() + spec_digits(b.len())
        + spec_crlf() + spec_crlf() + b
}

/// The exact bytes a successful file write is answered with.
pub open spec fn spec_created_reply_wire() -> Seq<u8> {
    spec_status_line_created() + spec_crlf() + spec_crlf()
}

/// Law, end to end on the wire: for a whitespace-free filename `f` that
/// stays inside the serving directory and any body `b` whose length fits in
/// `usize`, the request bytes `POST /files/<f>` carrying `b` parse to a
/// request whose handling writes exactly `b` to the file named `f`, and the
/// serialized answer to a successful write is byte for byte the 201 reply.
#[verifier::rlimit(40)]
pub proof fn lemma_file_post_wire(f: Seq<u8>, b: Seq<u8>)
    requires
        forall|i: int| 0 <= i < f.len() ==> !is_ws(#[trigger] f[i]),
        spec_filename_safe(f),
        b.len() <= usize::MAX,
    ensures
        spec_parse_request(spec_file_post_request_wire(f, b)) matches Ok(req) && spec_handle(req)
            == ActionData::WriteFile(f, b) && spec_serialize_response(
            spec_file_post_response(true),
        ) == spec_created_reply_wire(),
{
    let p = spec_method_post();
    let sp = seq![32u8];
    let fp = spec_files_prefix();
    let v = spec_http_version();
    let c = spec_crlf();
    let h = spec_content_length_name();
    let cs = spec_colon_space();
    let d = spec_digits(b.len());
    let input = spec_file_post_request_wire(f, b);
    let fl = f.len() as int;
    let dl = d.len() as int;
    let bl = b.len() as int;
    let path = fp + f;
    let pe = 21 + fl;
    let e0 = pe + 2;
    let e1 = e0 + 16 + dl;
    let bs = e1 + 4;

    assert(p[0] == 80 && p[1] == 79 && p[2] == 83 && p[3] == 84);
    assert(fp[0] == 47 && fp[1] == 102 && fp[2] == 105 && fp[3] == 108 && fp[4] == 101 && fp[5]
        == 115 && fp[6] == 47);
    assert(v[0] == 72 && v[1] == 84 && v[2] == 84 && v[3] == 80 && v[4] == 47 && v[5] == 49
        && v[6] == 46 && v[7] == 49);
    assert(h[0] == 67 && h[1] == 111 && h[2] == 110 && h[3] == 116 && h[4] == 101 && h[5] == 110
        && h[6] == 116 && h[7] == 45 && h[8] == 76 && h[9] == 101 && h[10] == 110 && h[11] == 103
        && h[12] == 116 && h[13] == 104);
    assert(cs[0] == 58 && cs[1] == 32);
    assert(c[0] == 13 && c[1] == 10);
    lemma_digits_are_digits(b.len());
    assert(input.len() == bs + bl);

    // The request line runs up to the first CRLF.
    assert(input[pe] == 13 && input[pe + 1] == 10);
    assert forall|k: int| 0 <= k < pe + 1 implies input[k] != 10 by {
        if k < 4 {
            assert(input[k] == p[k]);
        } else if k == 4 {
            assert(input[k] == 32);
        } else if k < 12 {
            assert(input[k] == fp[k - 5]);
        } else if k < 12 + fl {
            assert(input[k] == f[k - 12]);
        } else if k == 12 + fl {
            assert(input[k] == 32);
        } else if k < 21 + fl {
            assert(input[k] == v[k - 13 - fl]);
        } else {
            assert(input[k] == 13);
        }
    }
    lemma_line_end_no_lf(input, 0, pe + 1);
    assert(spec_line_end(input, 0) == e0);

    // The request line tokenizes into exactly the three tokens.
    let rl = input.take(e0);
    let rest0 = sp + path + sp + v + c;
    let rest1 = path + sp + v + c;
    let rest2 = sp + v + c;
    let rest3 = v + c;
    assert forall|k: int| 0 <= k < path.len() implies !is_ws(#[trigger] path[k]) by {
        if k < 7 {
            assert(path[k] == fp[k]);
        } else {
            assert(path[k] == f[k - 7]);
        }
    }
    assert(rl =~= p + rest0);
    lemma_tokens_cons(p, rest0);
    lemma_tokens_skip_ws(rest0);
    assert(rest0.skip(1) =~= rest1);
    lemma_tokens_cons(path, rest2);
    assert(rest1 =~= path + rest2);
    lemma_tokens_skip_ws(rest2);
    assert(rest2.skip(1) =~= rest3);
    lemma_tokens_cons(v, c);
    assert(rest3 =~= v + c);
    lemma_tokens_skip_ws(c);
    assert(c.skip(1) =~= seq![10u8]);
    lemma_tokens_skip_ws(seq![10u8]);
    assert(seq![10u8].skip(1) =~= Seq::<u8>::empty());
    assert(spec_tokens(c) =~= Seq::<Seq<u8>>::empty());
    assert(spec_tokens(rl) =~= seq![p, path, v]);

    // The one header line carries the Content-Length field.
    let hl = input.subrange(e0, e1 + 2);
    assert(hl =~= h + cs + d + c);
    assert forall|k: int| e0 <= k < e1 + 1 implies input[k] != 10 by {
        assert(input[k] == hl[k - e0]);
        let j = k - e0;
        if j < 14 {
            assert(hl[j] == h[j]);
        } else if j < 16 {
            assert(hl[j] == cs[j - 14]);
        } else if j < 16 + dl {
            assert(hl[j] == d[j - 16]);
            assert(is_digit(d[j - 16]));
        } else {
            assert(hl[j] == 13);
        }
    }
    assert(input[e1] == 13 && input[e1 + 1] == 10);
    lemma_line_end_no_lf(input, e0, e1 + 1);
    assert(spec_line_end(input, e0) == e1 + 2);

    assert(hl.len() != 2);
    assert forall|k: int| 0 <= k < 14 implies !(#[trigger] hl[k] == 58 && k + 1 < hl.len()
        && hl[k + 1] == 32) by {
        assert(hl[k] == h[k]);
    }
    lemma_find_delim_no_hit(hl, 0, 14);
    assert(hl[14] == 58 && hl[15] == 32);
    assert(find_delim(hl, 0) == Some(14int));
    assert(hl.take(14) =~= h);
    assert(hl.skip(16) =~= d + c);
    assert((d + c).drop_last() =~= d + seq![13u8]);
    assert((d + seq![13u8]).drop_last() =~= d);
    assert(is_ws((d + c).last()));
    assert(is_ws((d + seq![13u8]).last()));
    assert(is_digit(d.last()) && !is_ws(d.last()));
    assert(spec_trim_end(d + c) == spec_trim_end(d + seq![13u8]));
    assert(spec_trim_end(d + seq![13u8]) == spec_trim_end(d));
    assert(spec_trim_end(d) == d);
    let hd = HeaderData { name: h, value: d };
    assert(spec_header_split(hl) == Some(hd));

    // The header block ends at the bare CRLF after it.
    assert(input[e1 + 2] == 13 && input[e1 + 3] == 10);
    assert(spec_line_end(input, e1 + 3) == bs);
    assert(spec_line_end(input, e1 + 2) == bs);
    assert(input.subrange(e1 + 2, bs) =~= spec_crlf());
    assert(spec_parse_headers(input, e1 + 2) == (Seq::<HeaderData>::empty(), bs));
    assert(spec_parse_headers(input, e0) == (seq![hd] + Seq::<
        HeaderData,
    >::empty(), bs));
    assert(seq![hd] + Seq::<HeaderData>::empty() =~= seq![hd]);

    // The declared length reads back as the body's length, and that many
    // bytes follow, so parsing succeeds.
    lemma_decimal_round_trip(b.len());
    assert(spec_lookup(seq![hd], spec_content_length_name()) == Some(d));
    assert(spec_content_length(seq![hd]) == b.len());
    assert(input.subrange(bs, bs + bl) =~= b);
    let req = ReqData { method: p, path: path, version: v, headers: seq![hd], body: b };
    assert(spec_parse_request(input) matches Ok(r) && r =~= req);

    // The file route captures `f`, finds it safe, and hands the write out.
    assert(p != spec_method_get());
    assert(spec_starts_with(path, fp)) by {
        assert(path.subrange(0, 7) =~= fp);
    }
    assert(path.skip(7) =~= f);
    assert(spec_handle(req) == ActionData::WriteFile(f, b));

    // The serialized answer to a successful write, byte for byte.
    assert(spec_serialize_headers(Seq::<HeaderData>::empty()) == Seq::<
        u8,
    >::empty());
    assert(spec_serialize_response(spec_file_post_response(true)) =~= spec_created_reply_wire());
}

/// The wire form of a GET of the user-agent page that carries a
/// `User-Agent` header with value `v`.
pub open spec fn spec_user_agent_request_wire(v: Seq<u8>) -> Seq<u8> {
    spec_method_get() + seq![32u8] + spec_user_agent_path() + seq![32u8] + spec_http_version()
        + spec_crlf() + spec_user_agent_name() + spec_colon_space() + v + spec_crlf()
        + spec_crlf()
}

/// Law, end to end on the wire: for a `v` free of line feeds, a GET of the
/// user-agent page carrying `User-Agent: <v>` parses to a request that is
/// answered at once with 200, the body is `v` less its trailing whitespace,
/// and the serialized answer is byte for byte the 200 plain-text reply
/// carrying that body.
#[verifier::rlimit(40)]
pub proof fn lemma_user_agent_wire(v: Seq<u8>)
    requires
        forall|i: int| 0 <= i < v.len() ==> #[trigger] v[i] != 10,
    ensures
        spec_parse_request(spec_user_agent_request_wire(v)) matches Ok(req) && spec_handle(req)
            matches ActionData::Respond(r) && r.status == StatusCode::Okay && r.body
            == spec_trim_end(v) && spec_serialize_response(r) == spec_plain_reply_wire(
            spec_trim_end(v),
        ),
{
    let g = spec_method_get();
    let sp = seq![32u8];
    let ua = spec_user_agent_path();
    let vt = spec_http_version();
    let c = spec_crlf();
    let h = spec_user_agent_name();
    let cs = spec_colon_space();
    let input = spec_user_agent_request_wire(v);
    let vl = v.len() as int;
    let pe: int = 24;
    let e0: int = 26;
    let e1 = e0 + 12 + vl;
    let bs = e1 + 4;

    assert(g[0] == 71 && g[1] == 69 && g[2] == 84);
    assert(ua[0] == 47 && ua[1] == 117 && ua[2] == 115 && ua[3] == 101 && ua[4] == 114 && ua[5]
        == 45 && ua[6] == 97 && ua[7] == 103 && ua[8] == 101 && ua[9] == 110 && ua[10] == 116);
    assert(vt[0] == 72 && vt[1] == 84 && vt[2] == 84 && vt[3] == 80 && vt[4] == 47 && vt[5] == 49
        && vt[6] == 46 && vt[7] == 49);
    assert(h[0] == 85 && h[1] == 115 && h[2] == 101 && h[3] == 114 && h[4] == 45 && h[5] == 65
        && h[6] == 103 && h[7] == 101 && h[8] == 110 && h[9] == 116);
    assert(cs[0] == 58 && cs[1] == 32);
    assert(c[0] == 13 && c[1] == 10);
    assert(input.len() == bs);

    // The request line runs up to the first CRLF.
    assert(input[pe] == 13 && input[pe + 1] == 10);
    assert forall|k: int| 0 <= k < pe + 1 implies input[k] != 10 by {
        if k < 3 {
            assert(input[k] == g[k]);
        } else if k == 3 {
            assert(input[k] == 32);
        } else if k < 15 {
            assert(input[k] == ua[k - 4]);
        } else if k == 15 {
            assert(input[k] == 32);
        } else if k < 24 {
            assert(input[k] == vt[k - 16]);
        } else {
            assert(input[k] == 13);
        }
    }
    lemma_line_end_no_lf(input, 0, pe + 1);
    assert(spec_line_end(input, 0) == e0);

    // The request line tokenizes into exactly the three tokens.
    let rl = input.take(e0);
    let rest0 = sp + ua + sp + vt + c;
    let rest1 = ua + sp + vt + c;
    let rest2 = sp + vt + c;
    let rest3 = vt + c;
    assert(rl =~= g + rest0);
    lemma_tokens_cons(g, rest0);
    lemma_tokens_skip_ws(rest0);
    assert(rest0.skip(1) =~= rest1);
    lemma_tokens_cons(ua, rest2);
    assert(rest1 =~= ua + rest2);
    lemma_tokens_skip_ws(rest2);
    assert(rest2.skip(1) =~= rest3);
    lemma_tokens_cons(vt, c);
    assert(rest3 =~= vt + c);
    lemma_tokens_skip_ws(c);
    assert(c.skip(1) =~= seq![10u8]);
    lemma_tokens_skip_ws(seq![10u8]);
    assert(seq![10u8].skip(1) =~= Seq::<u8>::empty());
    assert(spec_tokens(c) =~= Seq::<Seq<u8>>::empty());
    assert(spec_tokens(rl) =~= seq![g, ua, vt]);

    // The one header line carries the User-Agent field.
    let hl = input.subrange(e0, e1 + 2);
    assert(hl =~= h + cs + v + c);
    assert forall|k: int| e0 <= k < e1 + 1 implies input[k] != 10 by {
        assert(input[k] == hl[k - e0]);
        let j = k - e0;
        if j < 10 {
            assert(hl[j] == h[j]);
        } else if j < 12 {
            assert(hl[j] == cs[j - 10]);
        } else if j < 12 + vl {
            assert(hl[j] == v[j - 12]);
        } else {
            assert(hl[j] == 13);
        }
    }
    assert(input[e1] == 13 && input[e1 + 1] == 10);
    lemma_line_end_no_lf(input, e0, e1 + 1);
    assert(spec_line_end(input, e0) == e1 + 2);

    assert(hl.len() != 2);
    assert forall|k: int| 0 <= k < 10 implies !(#[trigger] hl[k] == 58 && k + 1 < hl.len()
        && hl[k + 1] == 32) by {
        assert(hl[k] == h[k]);
    }
    lemma_find_delim_no_hit(hl, 0, 10);
    assert(hl[10] == 58 && hl[11] == 32);
    assert(find_delim(hl, 0) == Some(10int));
    assert(hl.take(10) =~= h);
    assert(hl.skip(12) =~= v + c);
    assert((v + c).drop_last() =~= v + seq![13u8]);
    assert((v + seq![13u8]).drop_last() =~= v);
    assert(is_ws((v + c).last()));
    assert(is_ws((v + seq![13u8]).last()));
    assert(spec_trim_end(v + c) == spec_trim_end(v + seq![13u8]));
    assert(spec_trim_end(v + seq![13u8]) == spec_trim_end(v));
    let hd = HeaderData { name: h, value: spec_trim_end(v) };
    assert(spec_header_split(hl) == Some(hd));

    // The header block ends at the bare CRLF after it.
    assert(input[e1 + 2] == 13 && input[e1 + 3] == 10);
    assert(spec_line_end(input, e1 + 3) == bs);
    assert(spec_line_end(input, e1 + 2) == bs);
    assert(input.subrange(e1 + 2, bs) =~= spec_crlf());
    assert(spec_parse_headers(input, e1 + 2) == (Seq::<HeaderData>::empty(), bs));
    assert(spec_parse_headers(input, e0) == (seq![hd] + Seq::<
        HeaderData,
    >::empty(), bs));
    assert(seq![hd] + Seq::<HeaderData>::empty() =~= seq![hd]);

    // GET carries no body, so parsing succeeds with an empty one.
    assert(g != spec_method_post());
    assert(input.subrange(bs, bs) =~= Seq::<u8>::empty());
    let req = ReqData {
        method: g,
        path: ua,
        version: vt,
        headers: seq![hd],
        body: Seq::<u8>::empty(),
    };
    assert(spec_parse_request(input) matches Ok(r) && r =~= req);

    // The user-agent route reads the header and answers at once.
    assert(!spec_starts_with(ua, spec_echo_prefix())) by {
        if spec_starts_with(ua, spec_echo_prefix()) {
            assert(ua.subrange(0, 6)[1] == ua[1]);
        }
    }
    assert(spec_lookup(seq![hd], spec_user_agent_name()) == Some(spec_trim_end(v)));
    assert(spec_handle(req) == ActionData::Respond(spec_user_agent_response(seq![hd])));

    // The serialized answer, byte for byte.
    let resp = spec_user_agent_response(seq![hd]);
    let hds = spec_create_headers(spec_text_plain(), spec_trim_end(v).len(), false);
    assert(resp.headers == hds);
    assert(hds.skip(1) =~= seq![hds[1]]);
    assert(seq![hds[1]].skip(1) =~= Seq::<HeaderData>::empty());
    assert(spec_serialize_headers(Seq::<HeaderData>::empty()) == Seq::<
        u8,
    >::empty());
    assert(spec_serialize_headers(seq![hds[1]]) == spec_serialize_header(hds[1]) + Seq::<
        u8,
    >::empty());
    assert(spec_serialize_headers(hds) == spec_serialize_header(hds[0]) + spec_serialize_headers(
        hds.skip(1),
    ));
    assert(spec_serialize_response(resp) =~= spec_plain_reply_wire(spec_trim_end(v)));
}

/// Law: a request whose method is neither GET nor POST is answered with 405,
/// whatever its path.
pub proof fn lemma_method_not_allowed(req: ReqData)
    requires
        req.method != spec_method_get(),
        req.method != spec_method_post(),
    ensures
        spec_handle(req) matches ActionData::Respond(r) && r.status
            == StatusCode::MethodNotAllowed && r.status.spec_code() == 405 && r.body.len() == 0,
{
}

} // verus!
