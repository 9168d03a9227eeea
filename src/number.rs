//! Reading a signed decimal number at the start of a text.
use vstd::prelude::*;

verus! {

pub open spec fn is_digit(c: char) -> bool {
    '0' <= c && c <= '9'
}

/// The first index at or after `i` that holds no decimal digit, or the length.
pub open spec fn digit_end(s: Seq<char>, i: int) -> int
    decreases s.len() - i,
{
    if 0 <= i < s.len() && is_digit(s[i]) {
        digit_end(s, i + 1)
    } else {
        i
    }
}

/// The value of a run of decimal digits.
pub open spec fn digits_value(d: Seq<char>) -> int
    decreases d.len(),
{
    if d.len() == 0 {
        0
    } else {
        digits_value(d.drop_last()) * 10 + (d.last() as int - '0' as int)
    }
}

/// The length of a leading `+` or `-`.
pub open spec fn sign_len(s: Seq<char>) -> int {
    if s.len() > 0 && (s[0] == '+' || s[0] == '-') {
        1
    } else {
        0
    }
}

/// The number that `s` starts with: an optional sign, then the longest run
/// of decimal digits, of which there must be at least one.
pub open spec fn leading_int(s: Seq<char>) -> Option<int> {
    let k = sign_len(s);
    let e = digit_end(s, k);
    if e == k {
        None
    } else {
        let v = digits_value(s.subrange(k, e));
        Some(
            if k == 1 && s[0] == '-' {
                -v
            } else {
                v
            },
        )
    }
}

/// The leading number of `s`, where there is one and it fits in an `i32`.
pub open spec fn leading_i32(s: Seq<char>) -> Option<i32> {
    match leading_int(s) {
        Some(v) => if i32::MIN <= v <= i32::MAX {
            Some(v as i32)
        } else {
            None
        },
        None => None,
    }
}

/// The first index at or after `i` that holds no decimal digit, or the length.
pub(crate) fn scan_digits(cs: &Vec<char>, i: usize) -> (r: usize)
    requires
        i <= cs.len(),
    ensures
        r == digit_end(cs@, i as int),
{
    let mut j: usize = i;
    while j < cs.len() && '0' <= cs[j] && cs[j] <= '9'
        invariant
            i <= j <= cs.len(),
            digit_end(cs@, i as int) == digit_end(cs@, j as int),
        decreases cs.len() - j,
    {
        j = j + 1;
    }
    j
}

/// The text is an optional sign followed by decimal digits, and nothing else.
pub open spec fn all_number(a: Seq<char>) -> bool {
    digit_end(a, sign_len(a)) == a.len()
}

/// Whether all of `a` is an optional sign followed by decimal digits.
pub fn is_number_text(a: &str) -> (r: bool)
    ensures
        r == all_number(a@),
{
    let cs = crate::token::chars_of(a);
    let k: usize = if cs.len() > 0 && (cs[0] == '+' || cs[0] == '-') {
        1
    } else {
        0
    };
    scan_digits(&cs, k) == cs.len()
}

/// Relies on nom::character::complete::i32 (nom 7): it takes an optional sign,
/// then the longest run of ASCII digits, at least one, as a decimal number,
/// and fails where there is no digit or the value leaves the range of `i32`.
/// What follows the digits is left over and not looked at.
#[verifier::external_body]
pub(crate) fn leading_number(s: &str) -> (r: Option<i32>)
    ensures
        r == leading_i32(s@),
{
    match nom::character::complete::i32::<&str, nom::error::Error<&str>>(s) {
        Ok((_, v)) => Some(v),
        Err(_) => None,
    }
}

} // verus!
