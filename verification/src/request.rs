//! Reading a request off bytes: the whitespace tokenizer for the request
//! line, header-line splitting, and the whole-buffer request parser, each
//! proved against a mathematical model of the grammar.

use vstd::prelude::*;

use crate::bytes::{bytes_eq, subrange_to_vec};
use crate::headers::{Header, HeaderData, headers_view, spec_content_length, content_length_of};
use crate::wire::{spec_crlf, spec_method_post, method_post};

verus! {

/// Why a request could not be read: the first line did not hold three
/// tokens, or the stream ended before the declared body length arrived.
#[derive(Clone, Copy, Debug, PartialEq, Eq, Structural)]
pub enum ParseError {
    MalformedRequestLine,
    TruncatedBody,
}

/// The bytes that the request-line tokenizer treats as whitespace: space,
/// horizontal tab, carriage return and line feed.
pub open spec fn is_ws(b: u8) -> bool {
    b == 32 || b == 9 || b == 13 || b == 10
}

/// Tests a byte for whitespace.
pub fn byte_is_ws(b: u8) -> (r: bool)
    ensures
        r == is_ws(b),
{
    b == 32 || b == 9 || b == 13 || b == 10
}

/// The length of the leading run of non-whitespace bytes.
pub open spec fn token_end(s: Seq<u8>) -> int
    decreases s.len(),
{
    if s.len() == 0 || is_ws(s[0]) {
        0
    } else {
        1 + token_end(s.skip(1))
    }
}

/// `token_end` always lies between zero and the length of the sequence.
pub proof fn lemma_token_end_bounds(s: Seq<u8>)
    ensures
        0 <= token_end(s) <= s.len(),
    decreases s.len(),
{
    if s.len() == 0 || is_ws(s[0]) {
    } else {
        lemma_token_end_bounds(s.skip(1));
    }
}

/// The whitespace-separated tokens of `s`, in order.
pub open spec fn spec_tokens(s: Seq<u8>) -> Seq<Seq<u8>>
    decreases s.len(),
    via spec_tokens_dec
{
    if s.len() == 0 {
        seq![]
    } else if is_ws(s[0]) {
        spec_tokens(s.skip(1))
    } else {
        seq![s.take(token_end(s))] + spec_tokens(s.skip(token_end(s)))
    }
}

#[via_fn]
proof fn spec_tokens_dec(s: Seq<u8>) {
    lemma_token_end_bounds(s);
    if s.len() > 0 && !is_ws(s[0]) {
        lemma_token_end_bounds(s.skip(1));
    }
}

/// The position just past the line that starts at `i`: one past the first
/// line feed at or after `i`, or the end of the sequence when no line feed
/// follows.
pub open spec fn spec_line_end(s: Seq<u8>, i: int) -> int
    decreases s.len() - i when 0 <= i <= s.len()
{
    if i >= s.len() {
        i
    } else if s[i] == 10 {
        i + 1
    } else {
        spec_line_end(s, i + 1)
    }
}

/// A line always ends after where it starts and no later than the end of
/// the input; a line that starts before the end of the input is nonempty.
pub proof fn lemma_line_end_bounds(s: Seq<u8>, i: int)
    requires
        0 <= i <= s.len(),
    ensures
        i <= spec_line_end(s, i) <= s.len(),
        i < s.len() ==> i + 1 <= spec_line_end(s, i),
    decreases s.len() - i,
{
    if i < s.len() && s[i] != 10 {
        lemma_line_end_bounds(s, i + 1);
    }
}

/// Finds the position just past the line that starts at `from`.
pub fn find_line_end(input: &[u8], from: usize) -> (e: usize)
    requires
        from <= input@.len(),
    ensures
        e as int == spec_line_end(input@, from as int),
        from <= e <= input@.len(),
        from < input@.len() ==> from < e,
{
    proof {
        lemma_line_end_bounds(input@, from as int);
    }
    let mut j: usize = from;
    while j < input.len()
        invariant
            from <= j <= input@.len(),
            spec_line_end(input@, from as int) == spec_line_end(input@, j as int),
        decreases input@.len() - j,
    {
        if input[j] == 10 {
            return j + 1;
        }
        j = j + 1;
    }
    j
}

/// A stretch with no line feed in it does not move a line's end.
pub proof fn lemma_line_end_no_lf(s: Seq<u8>, i: int, j: int)
    requires
        0 <= i <= j <= s.len(),
        forall|k: int| i <= k < j ==> s[k] != 10,
    ensures
        spec_line_end(s, i) == spec_line_end(s, j),
    decreases j - i,
{
    if i < j {
        lemma_line_end_no_lf(s, i + 1, j);
    }
}

/// A whitespace-free stretch followed by whitespace (or by nothing) is one
/// whole token.
pub proof fn lemma_token_end_concat(t: Seq<u8>, rest: Seq<u8>)
    requires
        forall|k: int| 0 <= k < t.len() ==> !is_ws(#[trigger] t[k]),
        rest.len() == 0 || is_ws(rest[0]),
    ensures
        token_end(t + rest) == t.len(),
    decreases t.len(),
{
    if t.len() == 0 {
        assert(t + rest =~= rest);
    } else {
        assert((t + rest)[0] == t[0]);
        assert((t + rest).skip(1) =~= t.skip(1) + rest);
        lemma_token_end_concat(t.skip(1), rest);
    }
}

/// The tokens of a whitespace-free stretch followed by whitespace (or by
/// nothing) are that stretch and then the tokens of what follows.
pub proof fn lemma_tokens_cons(t: Seq<u8>, rest: Seq<u8>)
    requires
        t.len() > 0,
        forall|k: int| 0 <= k < t.len() ==> !is_ws(#[trigger] t[k]),
        rest.len() == 0 || is_ws(rest[0]),
    ensures
        spec_tokens(t + rest) == seq![t] + spec_tokens(rest),
{
    lemma_token_end_concat(t, rest);
    assert((t + rest).take(t.len() as int) =~= t);
    assert((t + rest).skip(t.len() as int) =~= rest);
}

/// A leading whitespace byte carries no token.
pub proof fn lemma_tokens_skip_ws(rest: Seq<u8>)
    requires
        rest.len() > 0,
        is_ws(rest[0]),
    ensures
        spec_tokens(rest) == spec_tokens(rest.skip(1)),
{
}

/// The view of a token list as a sequence of byte sequences.
pub open spec fn tokens_view(ts: Seq<Vec<u8>>) -> Seq<Seq<u8>> {
    ts.map_values(|t: Vec<u8>| t@)
}

/// Splits `line` into its whitespace-separated tokens.
pub fn tokenize(line: &[u8]) -> (r: Vec<Vec<u8>>)
    ensures
        tokens_view(r@) == spec_tokens(line@),
{
    let mut toks: Vec<Vec<u8>> = Vec::new();
    let mut i: usize = 0;
    proof {
        assert(line@.skip(0) =~= line@);
        assert(tokens_view(toks@) + spec_tokens(line@.skip(0)) =~= spec_tokens(line@));
    }
    while i < line.len()
        invariant
            0 <= i <= line@.len(),
            spec_tokens(line@) == tokens_view(toks@) + spec_tokens(line@.skip(i as int)),
        decreases line@.len() - i,
    {
        if byte_is_ws(line[i]) {
            proof {
                assert(line@.skip(i as int).skip(1) =~= line@.skip(i + 1));
                assert(tokens_view(toks@) + spec_tokens(line@.skip(i as int)) =~= tokens_view(
                    toks@,
                ) + spec_tokens(line@.skip(i + 1)));
            }
            i = i + 1;
        } else {
            let ghost suffix = line@.skip(i as int);
            let mut j: usize = i;
            proof {
                lemma_token_end_bounds(suffix);
            }
            while j < line.len() && !byte_is_ws(line[j])
                invariant
                    i <= j <= line@.len(),
                    suffix == line@.skip(i as int),
                    i < line@.len(),
                    !is_ws(line@[i as int]),
                    token_end(suffix) == (j - i) + token_end(line@.skip(j as int)),
                    forall|k: int| i <= k < j ==> !is_ws(#[trigger] line@[k]),
                decreases line@.len() - j,
            {
                proof {
                    assert(line@.skip(j as int).skip(1) =~= line@.skip(j + 1));
                    lemma_token_end_bounds(line@.skip(j + 1));
                }
                j = j + 1;
            }
            proof {
                assert(token_end(line@.skip(j as int)) == 0);
                assert(token_end(suffix) == j - i);
            }
            let tok = subrange_to_vec(line, i, j);
            proof {
                assert(suffix.take(token_end(suffix)) =~= line@.subrange(i as int, j as int));
                assert(suffix.skip(token_end(suffix)) =~= line@.skip(j as int));
                assert(spec_tokens(suffix) == seq![tok@] + spec_tokens(line@.skip(j as int)));
            }
            let ghost toks0 = toks@;
            toks.push(tok);
            proof {
                assert(tokens_view(toks@) =~= tokens_view(toks0) + seq![tok@]);
                assert(tokens_view(toks@) + spec_tokens(line@.skip(j as int)) =~= tokens_view(
                    toks0,
                ) + spec_tokens(suffix));
            }
            i = j;
        }
    }
    proof {
        assert(spec_tokens(line@.skip(i as int)) =~= Seq::<Seq<u8>>::empty());
        assert(tokens_view(toks@) =~= tokens_view(toks@) + spec_tokens(line@.skip(i as int)));
    }
    toks
}

/// Splits a request line into its method, path and version tokens; the line
/// is malformed when it holds fewer than three tokens. Tokens past the third
/// are ignored.
pub fn parse_request_line(line: &[u8]) -> (r: Result<(Vec<u8>, Vec<u8>, Vec<u8>), ParseError>)
    ensures
        match r {
            Ok(t) => spec_tokens(line@).len() >= 3 && t.0@ == spec_tokens(line@)[0] && t.1@
                == spec_tokens(line@)[1] && t.2@ == spec_tokens(line@)[2],
            Err(e) => spec_tokens(line@).len() < 3 && e == ParseError::MalformedRequestLine,
        },
{
    let mut toks = tokenize(line);
    if toks.len() < 3 {
        return Err(ParseError::MalformedRequestLine);
    }
    let ghost all = toks@;
    let method = toks.remove(0);
    let path = toks.remove(0);
    let version = toks.remove(0);
    proof {
        assert(method@ == tokens_view(all)[0]);
        assert(path@ == tokens_view(all)[1]);
        assert(version@ == tokens_view(all)[2]);
    }
    Ok((method, path, version))
}

/// The position of the first `": "` delimiter at or after `i`, if any.
pub open spec fn find_delim(s: Seq<u8>, i: int) -> Option<int>
    decreases s.len() - i when 0 <= i <= s.len()
{
    if i + 2 > s.len() {
        None
    } else if s[i] == 58 && s[i + 1] == 32 {
        Some(i)
    } else {
        find_delim(s, i + 1)
    }
}

/// Wherever the delimiter is found, its position lies inside the sequence.
pub proof fn lemma_find_delim_bounds(s: Seq<u8>, i: int)
    requires
        0 <= i <= s.len(),
    ensures
        match find_delim(s, i) {
            Some(k) => i <= k && k + 2 <= s.len() && s[k] == 58 && s[k + 1] == 32,
            None => true,
        },
    decreases s.len() - i,
{
    if i + 2 <= s.len() && !(s[i] == 58 && s[i + 1] == 32) {
        lemma_find_delim_bounds(s, i + 1);
    }
}

/// A stretch with no `": "` in it does not move the first delimiter.
pub proof fn lemma_find_delim_no_hit(s: Seq<u8>, i: int, j: int)
    requires
        0 <= i <= j <= s.len(),
        forall|k: int| i <= k < j ==> !(#[trigger] s[k] == 58 && k + 1 < s.len() && s[k + 1]
            == 32),
    ensures
        find_delim(s, i) == find_delim(s, j),
    decreases j - i,
{
    if i < j {
        lemma_find_delim_no_hit(s, i + 1, j);
    }
}

/// `s` with every trailing whitespace byte removed.
pub open spec fn spec_trim_end(s: Seq<u8>) -> Seq<u8>
    decreases s.len(),
{
    if s.len() == 0 {
        s
    } else if is_ws(s.last()) {
        spec_trim_end(s.drop_last())
    } else {
        s
    }
}

/// The header field that a header line carries: the part before the first
/// `": "` names it, the part after it, trimmed of trailing whitespace, is
/// its value. A line without the delimiter carries none.
pub open spec fn spec_header_split(line: Seq<u8>) -> Option<HeaderData> {
    match find_delim(line, 0) {
        Some(k) => Some(
            HeaderData { name: line.take(k), value: spec_trim_end(line.skip(k + 2)) },
        ),
        None => None,
    }
}

/// Parses one header line; lines without the `": "` delimiter carry no
/// header and are ignored by the caller.
pub fn parse_header_line(line: &[u8]) -> (r: Option<Header>)
    ensures
        match r {
            Some(h) => spec_header_split(line@) == Some(h@),
            None => spec_header_split(line@) is None,
        },
{
    let mut k: usize = 0;
    while line.len() >= 2 && k <= line.len() - 2 && !(line[k] == 58 && line[k + 1] == 32)
        invariant
            0 <= k <= line@.len(),
            find_delim(line@, 0) == find_delim(line@, k as int),
        decreases line@.len() - k,
    {
        k = k + 1;
    }
    if line.len() < 2 || k > line.len() - 2 {
        return None;
    }
    let name = subrange_to_vec(line, 0, k);
    proof {
        assert(name@ =~= line@.take(k as int));
    }
    let mut e: usize = line.len();
    proof {
        assert(line@.subrange(k + 2, e as int) =~= line@.skip(k + 2));
    }
    while e > k + 2 && byte_is_ws(line[e - 1])
        invariant
            k + 2 <= e <= line@.len(),
            spec_trim_end(line@.skip(k + 2)) == spec_trim_end(line@.subrange(k + 2, e as int)),
        decreases e,
    {
        proof {
            assert(line@.subrange(k + 2, e as int).last() == line@[e - 1]);
            assert(line@.subrange(k + 2, e as int).drop_last() =~= line@.subrange(k + 2, e - 1));
        }
        e = e - 1;
    }
    let value = subrange_to_vec(line, k + 2, e);
    proof {
        let sub = line@.subrange(k + 2, e as int);
        if e == k + 2 {
            assert(spec_trim_end(sub) =~= sub);
        } else {
            assert(!is_ws(sub.last()));
            assert(spec_trim_end(sub) =~= sub);
        }
    }
    Some(Header { name, value })
}

/// A line that ends the header block: a bare CRLF, or nothing at all (the
/// stream ended).
pub open spec fn spec_line_blank(line: Seq<u8>) -> bool {
    line.len() == 0 || line == spec_crlf()
}

/// Tests whether a line ends the header block.
pub fn line_is_blank(line: &[u8]) -> (r: bool)
    ensures
        r == spec_line_blank(line@),
{
    if line.len() == 0 {
        return true;
    }
    if line.len() == 2 && line[0] == 13 && line[1] == 10 {
        proof {
            assert(line@ =~= spec_crlf());
        }
        return true;
    }
    proof {
        if line@ == spec_crlf() {
            assert(line@.len() == 2);
            assert(line@[0] == 13 && line@[1] == 10);
        }
    }
    false
}

/// Adds to `hs` whatever header the line carries. Returns true exactly when
/// the line ends the header block, in which case `hs` is left as it was.
pub fn header_step(hs: &mut Vec<Header>, line: &[u8]) -> (done: bool)
    ensures
        done == spec_line_blank(line@),
        headers_view(final(hs)@) == if spec_line_blank(line@) {
            headers_view(old(hs)@)
        } else {
            match spec_header_split(line@) {
                Some(h) => headers_view(old(hs)@).push(h),
                None => headers_view(old(hs)@),
            }
        },
{
    if line_is_blank(line) {
        return true;
    }
    match parse_header_line(line) {
        Some(h) => {
            let ghost hs0 = hs@;
            let ghost hd = h@;
            hs.push(h);
            proof {
                assert(headers_view(hs@) =~= headers_view(hs0).push(hd));
            }
        },
        None => {},
    }
    false
}

/// One parsed request.
#[derive(Clone, Debug, PartialEq, Eq)]
pub struct Request {
    pub method: Vec<u8>,
    pub path: Vec<u8>,
    pub version: Vec<u8>,
    pub headers: Vec<Header>,
    pub body: Vec<u8>,
}

/// The mathematical model of a request.
#[verifier::ext_equal]
pub struct ReqData {
    pub method: Seq<u8>,
    pub path: Seq<u8>,
    pub version: Seq<u8>,
    pub headers: Seq<HeaderData>,
    pub body: Seq<u8>,
}

impl View for Request {
    type V = ReqData;

    open spec fn view(&self) -> ReqData {
        ReqData {
            method: self.method@,
            path: self.path@,
            version: self.version@,
            headers: headers_view(self.headers@),
            body: self.body@,
        }
    }
}

/// The headers carried by the lines from position `i` up to the blank line
/// (or the end of the input), paired with the position just past the header
/// block. Lines without the `": "` delimiter are ignored.
pub open spec fn spec_parse_headers(s: Seq<u8>, i: int) -> (Seq<HeaderData>, int)
    decreases s.len() - i when 0 <= i <= s.len()
    via spec_parse_headers_dec
{
    if i >= s.len() {
        (seq![], i)
    } else {
        let e = spec_line_end(s, i);
        let line = s.subrange(i, e);
        if line == spec_crlf() {
            (seq![], e)
        } else {
            let rest = spec_parse_headers(s, e);
            match spec_header_split(line) {
                Some(h) => (seq![h] + rest.0, rest.1),
                None => rest,
            }
        }
    }
}

#[via_fn]
proof fn spec_parse_headers_dec(s: Seq<u8>, i: int) {
    if 0 <= i < s.len() {
        lemma_line_end_bounds(s, i);
    }
}

/// The header block ends at or after where it starts, and within the input.
pub proof fn lemma_parse_headers_bounds(s: Seq<u8>, i: int)
    requires
        0 <= i <= s.len(),
    ensures
        i <= spec_parse_headers(s, i).1 <= s.len(),
    decreases s.len() - i,
{
    if i < s.len() {
        lemma_line_end_bounds(s, i);
        let e = spec_line_end(s, i);
        if !(s.subrange(i, e) == spec_crlf()) {
            lemma_parse_headers_bounds(s, e);
        }
    }
}

/// The request that a byte sequence holds: a request line of at least three
/// tokens, then headers up to a blank line, then — for a POST — as many body
/// bytes as the headers declare.
pub open spec fn spec_parse_request(s: Seq<u8>) -> Result<ReqData, ParseError> {
    let e0 = spec_line_end(s, 0);
    let toks = spec_tokens(s.take(e0));
    if toks.len() < 3 {
        Err(ParseError::MalformedRequestLine)
    } else {
        let ph = spec_parse_headers(s, e0);
        let clen: nat = if toks[0] == spec_method_post() {
            spec_content_length(ph.0)
        } else {
            0
        };
        if ph.1 + clen > s.len() {
            Err(ParseError::TruncatedBody)
        } else {
            Ok(
                ReqData {
                    method: toks[0],
                    path: toks[1],
                    version: toks[2],
                    headers: ph.0,
                    body: s.subrange(ph.1, ph.1 + clen),
                },
            )
        }
    }
}

/// Reads one request off a byte buffer.
pub fn parse_request(input: &[u8]) -> (r: Result<Request, ParseError>)
    ensures
        match r {
            Ok(req) => spec_parse_request(input@) == Ok::<ReqData, ParseError>(req@),
            Err(e) => spec_parse_request(input@) == Err::<ReqData, ParseError>(e),
        },
{
    let e0 = find_line_end(input, 0);
    let line0 = subrange_to_vec(input, 0, e0);
    proof {
        assert(line0@ =~= input@.take(e0 as int));
    }
    let (method, path, version) = match parse_request_line(line0.as_slice()) {
        Ok(t) => t,
        Err(e) => {
            return Err(e);
        },
    };
    let mut hs: Vec<Header> = Vec::new();
    let mut pos: usize = e0;
    let ghost total = spec_parse_headers(input@, e0 as int);
    proof {
        assert(headers_view(hs@) =~= Seq::<HeaderData>::empty());
        assert(headers_view(hs@) + spec_parse_headers(input@, pos as int).0 =~= total.0);
    }
    loop
        invariant_except_break
            total.0 == headers_view(hs@) + spec_parse_headers(input@, pos as int).0,
            total.1 == spec_parse_headers(input@, pos as int).1,
        invariant
            e0 <= pos <= input@.len(),
            total == spec_parse_headers(input@, e0 as int),
        ensures
            total.0 == headers_view(hs@),
            total.1 == pos,
            pos <= input@.len(),
        decreases input@.len() - pos,
    {
        if pos == input.len() {
            proof {
                assert(total.0 =~= headers_view(hs@));
            }
            break;
        }
        let e = find_line_end(input, pos);
        let line = subrange_to_vec(input, pos, e);
        let ghost pending = spec_parse_headers(input@, pos as int);
        if line.len() == 2 && line[0] == 13 && line[1] == 10 {
            proof {
                assert(line@ =~= spec_crlf());
                assert(total.0 =~= headers_view(hs@));
            }
            pos = e;
            break;
        }
        proof {
            assert(line@ != spec_crlf());
        }
        match parse_header_line(line.as_slice()) {
            Some(h) => {
                let ghost hs0 = hs@;
                let ghost hd = h@;
                hs.push(h);
                proof {
                    assert(pending.0 == seq![hd] + spec_parse_headers(input@, e as int).0);
                    assert(headers_view(hs@) =~= headers_view(hs0) + seq![hd]);
                    assert(headers_view(hs@) + spec_parse_headers(input@, e as int).0
                        =~= headers_view(hs0) + pending.0);
                }
            },
            None => {},
        }
        pos = e;
    }
    let is_post = {
        let post = method_post();
        bytes_eq(method.as_slice(), post.as_slice())
    };
    let clen: usize = if is_post {
        content_length_of(&hs)
    } else {
        0
    };
    if clen > input.len() - pos {
        return Err(ParseError::TruncatedBody);
    }
    let body = subrange_to_vec(input, pos, pos + clen);
    let req = Request { method, path, version, headers: hs, body };
    proof {
        assert(spec_parse_request(input@) == Ok::<ReqData, ParseError>(req@));
    }
    Ok(req)
}

} // verus!
