//! Coordinate-pair string parsing.

use vstd::prelude::*;
use crate::errors::MyError;
use crate::math::Complex;
use crate::mp;

verus! {

/// Precision in bits used when parsing numbers from strings.
pub const PREC: usize = 200;

/// A decimal digit.
pub open spec fn is_digit_char(c: char) -> bool {
    '0' <= c && c <= '9'
}

/// Every character is a decimal digit.
pub open spec fn all_digits(s: Seq<char>) -> bool {
    forall|i: int| 0 <= i < s.len() ==> is_digit_char(#[trigger] s[i])
}

/// The number the decimal digit string denotes.
pub open spec fn digits_value(s: Seq<char>) -> int
    decreases s.len(),
{
    if s.len() == 0 {
        0
    } else {
        digits_value(s.drop_last()) * 10 + (s.last() as int - '0' as int)
    }
}

/// The digits of an unsigned decimal string: a single leading `+` is
/// allowed and dropped.
pub open spec fn unsigned_body(s: Seq<char>) -> Seq<char> {
    if s.len() > 0 && s[0] == '+' {
        s.subrange(1, s.len() as int)
    } else {
        s
    }
}

/// The string is an unsigned decimal number that fits in `usize`.
pub open spec fn usize_parses(s: Seq<char>) -> bool {
    let b = unsigned_body(s);
    b.len() > 0 && all_digits(b) && digits_value(b) <= usize::MAX
}

/// The string carries a leading minus sign.
pub open spec fn signed_negative(s: Seq<char>) -> bool {
    s.len() > 0 && s[0] == '-'
}

/// The digits of a signed decimal string: a single leading `+` or `-` is
/// allowed and dropped.
pub open spec fn signed_body(s: Seq<char>) -> Seq<char> {
    if s.len() > 0 && (s[0] == '+' || s[0] == '-') {
        s.subrange(1, s.len() as int)
    } else {
        s
    }
}

/// The number the signed decimal string denotes.
pub open spec fn i32_value(s: Seq<char>) -> int {
    if signed_negative(s) {
        -digits_value(signed_body(s))
    } else {
        digits_value(signed_body(s))
    }
}

/// The string is a signed decimal number that fits in `i32`.
pub open spec fn i32_parses(s: Seq<char>) -> bool {
    let b = signed_body(s);
    b.len() > 0 && all_digits(b) && i32::MIN <= i32_value(s) <= i32::MAX
}

/// Relies on FromStr for usize (std): accepts exactly an optional `+`
/// followed by one or more decimal digits whose value fits in `usize`,
/// and returns that value.
#[verifier::external_body]
fn parse_usize_str(s: &str) -> (r: Option<usize>)
    ensures
        r is Some <==> usize_parses(s@),
        r matches Some(v) ==> v == digits_value(unsigned_body(s@)),
{
    s.parse::<usize>().ok()
}

/// Relies on FromStr for i32 (std): accepts exactly an optional `+` or
/// `-` followed by one or more decimal digits whose signed value fits in
/// `i32`, and returns that value.
#[verifier::external_body]
fn parse_i32_str(s: &str) -> (r: Option<i32>)
    ensures
        r is Some <==> i32_parses(s@),
        r matches Some(v) ==> v == i32_value(s@),
{
    s.parse::<i32>().ok()
}

/// A value that can be parsed from a string.
pub trait Parseable: Sized {
    /// Whether `from_str` accepts the string.
    spec fn parses(s: Seq<char>) -> bool;

    /// The value `from_str` yields for an accepted string.
    spec fn spec_value(s: Seq<char>) -> Self;

    /// Parses the string.
    fn from_str(s: &str) -> (r: Result<Self, MyError>)
        ensures
            r is Ok <==> Self::parses(s@),
            r matches Ok(v) ==> v == Self::spec_value(s@),
    ;
}

impl Parseable for usize {
    open spec fn parses(s: Seq<char>) -> bool {
        usize_parses(s)
    }

    open spec fn spec_value(s: Seq<char>) -> usize {
        digits_value(unsigned_body(s)) as usize
    }

    fn from_str(s: &str) -> (r: Result<Self, MyError>)
        ensures
            r is Ok <==> Self::parses(s@),
            r matches Ok(v) ==> v == Self::spec_value(s@),
    {
        match parse_usize_str(s) {
            Some(v) => Ok(v),
            None => Err(MyError::InvalidArgument("not an unsigned integer".to_owned())),
        }
    }
}

impl Parseable for i32 {
    open spec fn parses(s: Seq<char>) -> bool {
        i32_parses(s)
    }

    open spec fn spec_value(s: Seq<char>) -> i32 {
        i32_value(s) as i32
    }

    fn from_str(s: &str) -> (r: Result<Self, MyError>)
        ensures
            r is Ok <==> Self::parses(s@),
            r matches Ok(v) ==> v == Self::spec_value(s@),
    {
        match parse_i32_str(s) {
            Some(v) => Ok(v),
            None => Err(MyError::InvalidArgument("not a signed integer".to_owned())),
        }
    }
}

impl Parseable for astro_float::BigFloat {
    open spec fn parses(s: Seq<char>) -> bool {
        mp::float_parses(s)
    }

    open spec fn spec_value(s: Seq<char>) -> astro_float::BigFloat {
        mp::float_value_of(s, PREC)
    }

    fn from_str(s: &str) -> (r: Result<Self, MyError>)
        ensures
            r is Ok <==> Self::parses(s@),
            r matches Ok(v) ==> v == Self::spec_value(s@),
    {
        match mp::float_from_str(s, PREC) {
            Some(v) => Ok(v),
            None => Err(MyError::InvalidArgument("not a number".to_owned())),
        }
    }
}

/// Parse the string `s` as a coordinate pair, like `"400x600"` or
/// `"1.0,0.5"`.
///
/// Specifically, `s` should have the form <left><sep><right>, where <sep>
/// is the character given by the `separator` argument (split at its first
/// occurrence), and <left> and <right> are both strings that
/// `T::from_str` accepts.  If `s` has the proper form, return
/// `Some((left, right))`; if it doesn't parse correctly, return `None`.
pub fn parse_pair<T: Parseable>(s: &str, separator: char) -> (r: Option<(T, T)>)
    ensures
        (forall|i: int| 0 <= i < s@.len() ==> s@[i] != separator) ==> r is None,
        forall|i: int|
            0 <= i < s@.len() && s@[i] == separator && (forall|j: int|
                0 <= j < i ==> s@[j] != separator) ==> ((r is Some <==> (T::parses(
                #[trigger] s@.subrange(0, i),
            ) && T::parses(s@.subrange(i + 1, s@.len() as int)))) && (r matches Some(pair)
                ==> pair.0 == T::spec_value(s@.subrange(0, i)) && pair.1 == T::spec_value(
                s@.subrange(i + 1, s@.len() as int),
            ))),
{
    let n = s.unicode_len();

    let mut idx: usize = 0;
    while idx < n
        invariant
            idx <= n,
            n == s@.len(),
            forall|j: int| 0 <= j < idx ==> s@[j] != separator,
        ensures
            idx <= n,
            n == s@.len(),
            forall|j: int| 0 <= j < idx ==> s@[j] != separator,
            idx < n ==> s@[idx as int] == separator,
        decreases n - idx,
    {
        if s.get_char(idx) == separator {
            break ;
        }
        idx = idx + 1;
    }

    if idx >= n {
        return None;
    }

    let left = s.substring_char(0, idx);
    let right = s.substring_char(idx + 1, n);

    let parsed_left = T::from_str(left);
    let parsed_right = T::from_str(right);

    match (parsed_left, parsed_right) {
        (Ok(l), Ok(r)) => Some((l, r)),
        _ => None,
    }
}

/// Parse a pair of numbers separated by a comma as a complex number, at
/// the parsing precision.
pub fn parse_complex(s: &str) -> (r: Option<Complex>)
    ensures
        (forall|i: int| 0 <= i < s@.len() ==> s@[i] != ',') ==> r is None,
        forall|i: int|
            0 <= i < s@.len() && s@[i] == ',' && (forall|j: int| 0 <= j < i ==> s@[j] != ',') ==> ((
            r is Some <==> (mp::float_parses(#[trigger] s@.subrange(0, i)) && mp::float_parses(
                s@.subrange(i + 1, s@.len() as int),
            ))) && (r matches Some(c) ==> c.re == mp::float_value_of(s@.subrange(0, i), PREC)
                && c.im == mp::float_value_of(s@.subrange(i + 1, s@.len() as int), PREC))),
{
    match parse_pair::<astro_float::BigFloat>(s, ',') {
        None => None,
        Some((re, im)) => Some(Complex::new(re, im)),
    }
}

} // verus!
