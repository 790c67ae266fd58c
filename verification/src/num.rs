//! Decimal numerals: rendering a number as digit bytes, reading digit bytes
//! back, and the law that the two round-trip.

use vstd::prelude::*;

verus! {

/// The decimal digit bytes of `n`, most significant first, with no leading
/// zeros (except for `n == 0`, which is the single byte `'0'`).
pub open spec fn spec_digits(n: nat) -> Seq<u8>
    decreases n,
{
    if n < 10 {
        seq![((n % 10) + 48) as u8]
    } else {
        spec_digits(n / 10) + seq![((n % 10) + 48) as u8]
    }
}

/// Whether `b` is an ASCII decimal digit.
pub open spec fn is_digit(b: u8) -> bool {
    48 <= b <= 57
}

/// Whether every byte of `s` is an ASCII decimal digit.
pub open spec fn all_digits(s: Seq<u8>) -> bool {
    forall|i: int| 0 <= i < s.len() ==> is_digit(#[trigger] s[i])
}

/// The numeric value of a digit byte; bytes below `'0'` count as zero so the
/// value is total.
pub open spec fn digit_val(b: u8) -> nat {
    if b >= 48 {
        (b - 48) as nat
    } else {
        0
    }
}

/// The value of `s` read as a decimal numeral, most significant digit first.
pub open spec fn spec_decimal_value(s: Seq<u8>) -> nat
    decreases s.len(),
{
    if s.len() == 0 {
        0
    } else {
        spec_decimal_value(s.drop_last()) * 10 + digit_val(s.last())
    }
}

/// A decimal numeral's value never shrinks when digits are appended: the
/// value of any prefix is at most the value of the whole.
pub proof fn lemma_decimal_value_prefix(s: Seq<u8>, i: int)
    requires
        0 <= i <= s.len(),
    ensures
        spec_decimal_value(s.take(i)) <= spec_decimal_value(s),
    decreases s.len(),
{
    if i < s.len() {
        assert(s.drop_last().take(i) =~= s.take(i));
        lemma_decimal_value_prefix(s.drop_last(), i);
        assert(spec_decimal_value(s.drop_last()) * 10 >= spec_decimal_value(s.drop_last()));
    } else {
        assert(s.take(i) =~= s);
    }
}

/// A rendered numeral is nonempty and holds digit bytes only.
pub proof fn lemma_digits_are_digits(n: nat)
    ensures
        spec_digits(n).len() >= 1,
        all_digits(spec_digits(n)),
    decreases n,
{
    if n >= 10 {
        lemma_digits_are_digits(n / 10);
        let d = spec_digits(n);
        let head = spec_digits(n / 10);
        assert forall|i: int| 0 <= i < d.len() implies is_digit(#[trigger] d[i]) by {
            if i < head.len() {
                assert(d[i] == head[i]);
            }
        }
    }
}

/// Law: rendering a number in decimal and reading the numeral back returns
/// the number.
pub proof fn lemma_decimal_round_trip(n: nat)
    ensures
        spec_decimal_value(spec_digits(n)) == n,
    decreases n,
{
    if n < 10 {
        assert(spec_digits(n).drop_last() =~= Seq::<u8>::empty());
        assert(spec_decimal_value(Seq::<u8>::empty()) == 0);
        assert(digit_val(((n % 10) + 48) as u8) == n);
    } else {
        lemma_decimal_round_trip(n / 10);
        assert(spec_digits(n).drop_last() =~= spec_digits(n / 10));
        assert(spec_digits(n).last() == ((n % 10) + 48) as u8);
        assert(digit_val(((n % 10) + 48) as u8) == n % 10);
        assert(n == (n / 10) * 10 + n % 10);
    }
}

/// Renders `n` in decimal.
pub fn usize_to_decimal(n: usize) -> (r: Vec<u8>)
    ensures
        r@ == spec_digits(n as nat),
{
    let mut v: Vec<u8> = Vec::new();
    let mut m: usize = n;
    proof {
        assert(spec_digits(n as nat) =~= spec_digits(m as nat) + v@);
    }
    loop
        invariant
            spec_digits(n as nat) == spec_digits(m as nat) + v@,
        decreases m,
    {
        let d: u8 = (m % 10) as u8 + 48;
        let ghost v0 = v@;
        v.insert(0, d);
        proof {
            assert(v@ =~= seq![d] + v0);
        }
        if m < 10 {
            proof {
                assert(spec_digits(m as nat) =~= seq![d]);
                assert(spec_digits(n as nat) =~= v@);
            }
            return v;
        }
        proof {
            assert(spec_digits(m as nat) =~= spec_digits((m / 10) as nat) + seq![d]);
            assert(spec_digits(n as nat) =~= spec_digits((m / 10) as nat) + v@);
        }
        m = m / 10;
    }
}

/// Parses `s` as a decimal numeral. Returns the value exactly when `s` is
/// nonempty, consists of digits only, and the value fits in `usize`.
pub fn parse_decimal(s: &[u8]) -> (r: Option<usize>)
    ensures
        r is Some <==> (s@.len() > 0 && all_digits(s@) && spec_decimal_value(s@) <= usize::MAX),
        r matches Some(v) ==> v as nat == spec_decimal_value(s@),
{
    if s.len() == 0 {
        return None;
    }
    let mut acc: usize = 0;
    let mut i: usize = 0;
    while i < s.len()
        invariant
            0 <= i <= s@.len(),
            s@.len() > 0,
            forall|k: int| 0 <= k < i ==> is_digit(#[trigger] s@[k]),
            acc as nat == spec_decimal_value(s@.take(i as int)),
        decreases s@.len() - i,
    {
        let b = s[i];
        if b < 48 || b > 57 {
            return None;
        }
        let d: usize = (b - 48) as usize;
        let stepped: Option<usize> = acc.checked_mul(10);
        let next: Option<usize> = match stepped {
            Some(t) => t.checked_add(d),
            None => None,
        };
        proof {
            assert(s@.take(i + 1).drop_last() =~= s@.take(i as int));
            assert(s@.take(i + 1).last() == s@[i as int]);
            assert(spec_decimal_value(s@.take(i + 1)) == acc * 10 + d);
        }
        match next {
            Some(t) => {
                acc = t;
            },
            None => {
                proof {
                    if all_digits(s@) {
                        lemma_decimal_value_prefix(s@, i + 1);
                    }
                }
                return None;
            },
        }
        i = i + 1;
    }
    proof {
        assert(s@.take(s@.len() as int) =~= s@);
    }
    Some(acc)
}

} // verus!
