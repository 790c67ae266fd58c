//! Header fields and header lists. A list keeps its fields in arrival
//! order; a lookup scans from the end, so on duplicate names the last write
//! wins.

use vstd::prelude::*;

use crate::bytes::{bytes_eq, copy_bytes};
use crate::num::{all_digits, spec_decimal_value, parse_decimal};
use crate::wire::{spec_content_length_name, content_length_name};

verus! {

/// One header field: a name and a value.
#[derive(Clone, Debug, PartialEq, Eq)]
pub struct Header {
    pub name: Vec<u8>,
    pub value: Vec<u8>,
}

/// The mathematical model of a header field.
#[verifier::ext_equal]
pub struct HeaderData {
    pub name: Seq<u8>,
    pub value: Seq<u8>,
}

impl View for Header {
    type V = HeaderData;

    open spec fn view(&self) -> HeaderData {
        HeaderData { name: self.name@, value: self.value@ }
    }
}

/// The model of a whole header list.
pub open spec fn headers_view(hs: Seq<Header>) -> Seq<HeaderData> {
    hs.map_values(|h: Header| h@)
}

/// The value bound to `name`, scanning from the end so that on duplicate
/// names the last write wins.
pub open spec fn spec_lookup(hs: Seq<HeaderData>, name: Seq<u8>) -> Option<Seq<u8>>
    decreases hs.len(),
{
    if hs.len() == 0 {
        None
    } else if hs.last().name == name {
        Some(hs.last().value)
    } else {
        spec_lookup(hs.drop_last(), name)
    }
}

/// Looks `name` up in a header list; on duplicate names the header added
/// last wins.
pub fn lookup_header(hs: &Vec<Header>, name: &[u8]) -> (r: Option<Vec<u8>>)
    ensures
        match r {
            Some(v) => spec_lookup(headers_view(hs@), name@) == Some(v@),
            None => spec_lookup(headers_view(hs@), name@) is None,
        },
{
    let mut i: usize = hs.len();
    proof {
        assert(headers_view(hs@).take(i as int) =~= headers_view(hs@));
    }
    while i > 0
        invariant
            0 <= i <= hs@.len(),
            headers_view(hs@).len() == hs@.len(),
            spec_lookup(headers_view(hs@), name@) == spec_lookup(
                headers_view(hs@).take(i as int),
                name@,
            ),
        decreases i,
    {
        let h = &hs[i - 1];
        proof {
            assert(headers_view(hs@).take(i as int).last() == hs@[i - 1]@);
            assert(headers_view(hs@).take(i as int).drop_last() =~= headers_view(hs@).take(
                i - 1,
            ));
        }
        if bytes_eq(h.name.as_slice(), name) {
            return Some(copy_bytes(h.value.as_slice()));
        }
        i = i - 1;
    }
    None
}

/// The body length that a header list declares: the value of the
/// `Content-Length` header read as a decimal numeral, or zero when the
/// header is absent, is not a numeral, or does not fit in `usize`.
pub open spec fn spec_content_length(hs: Seq<HeaderData>) -> nat {
    match spec_lookup(hs, spec_content_length_name()) {
        Some(v) => if v.len() > 0 && all_digits(v) && spec_decimal_value(v) <= usize::MAX {
            spec_decimal_value(v)
        } else {
            0
        },
        None => 0,
    }
}

/// Reads the declared body length off a header list.
pub fn content_length_of(hs: &Vec<Header>) -> (r: usize)
    ensures
        r as nat == spec_content_length(headers_view(hs@)),
{
    let name = content_length_name();
    match lookup_header(hs, name.as_slice()) {
        Some(v) => match parse_decimal(v.as_slice()) {
            Some(n) => n,
            None => 0,
        },
        None => 0,
    }
}

} // verus!
