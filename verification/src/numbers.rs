use vstd::prelude::*;
use crate::http::{all_radix_digits, decimal, decimal_string, hex_value, is_radix_digit, lemma_radix_value_prefix, radix_value};
use crate::text::concat2;

verus! {

/// The decimal text of an integer, with `-` before a negative one.
pub open spec fn int_text(n: int) -> Seq<char> {
    if n < 0 {
        "-"@ + decimal((-n) as nat)
    } else {
        decimal(n as nat)
    }
}

/// Writes an `i64` in decimal.
pub fn i64_string(n: i64) -> (s: String)
    ensures
        s@ == int_text(n as int),
{
    if n < 0 {
        let m: u64 = if n == i64::MIN {
            9223372036854775808u64
        } else {
            (-n) as u64
        };
        concat2("-", decimal_string(m).as_str())
    } else {
        decimal_string(n as u64)
    }
}

/// The value of a non-empty run of decimal digits, when it fits in `u64`.
pub open spec fn u64_digits(d: Seq<char>) -> Option<nat> {
    if d.len() > 0 && all_radix_digits(d, 10) && radix_value(d, 10) <= u64::MAX {
        Some(radix_value(d, 10))
    } else {
        None
    }
}

pub fn parse_u64_digits(d: &[char]) -> (r: Option<u64>)
    ensures
        match u64_digits(d@) {
            Some(v) => r == Some(v as u64),
            None => r is None,
        },
{
    if d.len() == 0 {
        return None;
    }
    let mut value: u64 = 0;
    let mut i: usize = 0;
    while i < d.len()
        invariant
            i <= d@.len(),
            d@.len() > 0,
            value as nat == radix_value(d@.take(i as int), 10),
            forall|j: int| 0 <= j < i ==> is_radix_digit(#[trigger] d@[j], 10),
        decreases d.len() - i,
    {
        let c = d[i];
        if !('0' <= c && c <= '9') {
            assert(!is_radix_digit(d@[i as int], 10));
            assert(!all_radix_digits(d@, 10));
            return None;
        }
        let digit: u64 = (c as u32 - '0' as u32) as u64;
        assert(d@.take(i + 1).drop_last() =~= d@.take(i as int));
        assert(d@.take(i + 1).last() == c);
        assert(digit as nat == hex_value(c));
        if value > (u64::MAX - digit) / 10 {
            proof {
                let vv = value as int;
                let dd = digit as int;
                let mx = u64::MAX as int;
                assert(10 * vv + dd > mx) by (nonlinear_arith)
                    requires vv > (mx - dd) / 10, 0 <= dd <= mx;
                assert(radix_value(d@.take(i + 1), 10) == 10 * vv + dd);
                lemma_radix_value_prefix(d@, i + 1, 10);
            }
            return None;
        }
        proof {
            let vv = value as int;
            let dd = digit as int;
            let mx = u64::MAX as int;
            assert(vv * 10 + dd <= mx) by (nonlinear_arith)
                requires vv <= (mx - dd) / 10, 0 <= dd <= mx, vv >= 0;
            assert(radix_value(d@.take(i + 1), 10) == vv * 10 + dd);
        }
        value = value * 10 + digit;
        i = i + 1;
    }
    assert(d@.take(i as int) =~= d@);
    Some(value)
}

/// `str::parse::<i64>`: an optional sign, then at least one digit, with a
/// value in range.
pub open spec fn parse_i64(s: Seq<char>) -> Option<int> {
    if s.len() > 0 && s[0] == '-' {
        match u64_digits(s.drop_first()) {
            Some(v) => if v <= 9223372036854775808 {
                Some(-v)
            } else {
                None
            },
            None => None,
        }
    } else {
        let d = if s.len() > 0 && s[0] == '+' { s.drop_first() } else { s };
        match u64_digits(d) {
            Some(v) => if v <= i64::MAX {
                Some(v as int)
            } else {
                None
            },
            None => None,
        }
    }
}

pub fn parse_i64_chars(s: &[char]) -> (r: Option<i64>)
    ensures
        match parse_i64(s@) {
            Some(v) => r == Some(v as i64),
            None => r is None,
        },
{
    if s.len() > 0 && s[0] == '-' {
        let rest = vstd::slice::slice_subrange(s, 1, s.len());
        assert(rest@ =~= s@.drop_first());
        match parse_u64_digits(rest) {
            Some(v) => {
                if v <= 9223372036854775808u64 {
                    if v == 9223372036854775808u64 {
                        Some(i64::MIN)
                    } else {
                        Some(-(v as i64))
                    }
                } else {
                    None
                }
            },
            None => None,
        }
    } else {
        let start: usize = if s.len() > 0 && s[0] == '+' { 1 } else { 0 };
        let rest = vstd::slice::slice_subrange(s, start, s.len());
        assert(rest@ =~= (if s@.len() > 0 && s@[0] == '+' { s@.drop_first() } else { s@ }));
        match parse_u64_digits(rest) {
            Some(v) => {
                if v <= i64::MAX as u64 {
                    Some(v as i64)
                } else {
                    None
                }
            },
            None => None,
        }
    }
}

} // verus!
