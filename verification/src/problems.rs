//! Problems of the bank: the difficulty rank as stored.
use vstd::prelude::*;
use crate::text::{chars_of, is_str, trim, trim_of, string_of};

verus! {

/// What `str::to_uppercase` returns for a text: the Unicode upper-case mapping
/// of each character, concatenated.
pub uninterp spec fn upper_case(s: Seq<char>) -> Seq<char>;

/// Calls `str::to_uppercase`. Trusted: the result is `upper_case` of the
/// argument, which depends on the argument alone (no locale is consulted).
#[verifier::external_body]
fn to_uppercase(s: &str) -> (r: String)
    ensures
        r@ == upper_case(s@),
{
    s.to_uppercase()
}

/// A difficulty rank as stored: the trimmed, upper-cased rank where it is one
/// of A to D, else none.
pub open spec fn rank_of(rank: Option<Seq<char>>) -> Option<Seq<char>> {
    match rank {
        Some(r) => {
            let u = upper_case(trim(r));
            if u == "A"@ || u == "B"@ || u == "C"@ || u == "D"@ {
                Some(u)
            } else {
                None
            }
        },
        None => None,
    }
}

pub fn normalize_rank(rank: Option<String>) -> (r: Option<String>)
    ensures
        r matches Some(x) ==> rank_of(crate::models::opt_string_view(rank)) == Some(x@),
        r is None ==> rank_of(crate::models::opt_string_view(rank)) is None,
{
    match rank {
        Some(r) => {
            let t = string_of(&trim_of(&chars_of(r.as_str())));
            let u = to_uppercase(t.as_str());
            let uv = chars_of(u.as_str());
            if is_str(&uv, "A") || is_str(&uv, "B") || is_str(&uv, "C") || is_str(&uv, "D") {
                Some(u)
            } else {
                None
            }
        },
        None => None,
    }
}

/// An integer in decimal, with a minus sign where it is negative.
pub open spec fn signed_decimal(n: i64) -> Seq<char> {
    if n < 0 {
        "-"@ + crate::text::decimal((-n) as nat)
    } else {
        crate::text::decimal(n as nat)
    }
}

/// The refusal of an edit made against an older version: `CONFLICT:` and the current version.
pub open spec fn conflict(expected: Option<i64>, current: i64) -> Option<Seq<char>> {
    match expected {
        Some(e) if e != current => Some("CONFLICT:"@ + signed_decimal(current)),
        _ => None,
    }
}

/// Optimistic locking: an edit that names the version it was made against is
/// refused when the stored version has moved on.
pub fn check_expected_version(expected: Option<i64>, current: i64) -> (r: Result<(), String>)
    ensures
        match conflict(expected, current) {
            Some(m) => r matches Err(e) && e@ == m,
            None => r is Ok,
        },
{
    match expected {
        Some(e) if e != current => {
            let mut m = chars_of("CONFLICT:");
            if current < 0 {
                crate::text::push_str(&mut m, "-");
                let mag: u128 = (0i128 - current as i128) as u128;
                crate::text::push_all(&mut m, &crate::text::decimal_of_wide(mag));
            } else {
                crate::text::push_all(&mut m, &crate::text::decimal_of_wide(current as u128));
            }
            Err(string_of(&m))
        },
        _ => Ok(()),
    }
}

} // verus!
