//! Trusted boundary to the `astro-float` arbitrary-precision arithmetic
//! crate.
//!
//! Every call into `astro-float` that the renderer makes goes through
//! exactly one of the wrappers below.  The value of a `BigFloat` is opaque
//! here: the wrappers state only what the `astro-float` sources plainly
//! show, and the numeric behaviour is exercised by the crate's tests, which
//! run against the real library.
//!
//! All operations round to nearest (ties to even) at an explicitly given
//! precision in bits, mirroring the renderer's rule that every arithmetic
//! step happens at the configured precision.  `astro-float` never panics on
//! these calls: an unusable precision yields NaN, and NaN propagates.

use vstd::prelude::*;

verus! {

#[verifier::external_type_specification]
#[verifier::external_body]
pub struct ExBigFloat(astro_float::BigFloat);

/// Whether `astro_float::BigFloat::parse` accepts the string: decimal
/// parsing is a function of the characters alone.
pub uninterp spec fn float_parses(s: Seq<char>) -> bool;

/// The number `astro_float::BigFloat::parse` yields for an accepted
/// string, rounded to nearest at `prec` bits: a function of the
/// characters and the precision alone.
pub uninterp spec fn float_value_of(s: Seq<char>, prec: usize) -> astro_float::BigFloat;

/// What `astro_float::BigFloat::from_u32` returns (at no less than 32
/// bits; an exact integer either way).
pub uninterp spec fn u32_of(value: u32, prec: usize) -> astro_float::BigFloat;

/// What `astro_float::BigFloat::from_u64` returns (at no less than 64
/// bits; an exact integer either way).
pub uninterp spec fn u64_of(value: u64, prec: usize) -> astro_float::BigFloat;

/// What `astro_float::BigFloat::add` returns: the sum rounded to nearest
/// at `prec` bits.
pub uninterp spec fn add_of(
    a: astro_float::BigFloat,
    b: astro_float::BigFloat,
    prec: usize,
) -> astro_float::BigFloat;

/// What `astro_float::BigFloat::sub` returns: the difference rounded to
/// nearest at `prec` bits.
pub uninterp spec fn sub_of(
    a: astro_float::BigFloat,
    b: astro_float::BigFloat,
    prec: usize,
) -> astro_float::BigFloat;

/// What `astro_float::BigFloat::mul` returns: the product rounded to
/// nearest at `prec` bits.
pub uninterp spec fn mul_of(
    a: astro_float::BigFloat,
    b: astro_float::BigFloat,
    prec: usize,
) -> astro_float::BigFloat;

/// What `astro_float::BigFloat::div` returns: the quotient rounded to
/// nearest at `prec` bits.
pub uninterp spec fn div_of(
    a: astro_float::BigFloat,
    b: astro_float::BigFloat,
    prec: usize,
) -> astro_float::BigFloat;

/// What `astro_float::BigFloat::ln` returns: the natural logarithm
/// rounded to nearest at `prec` bits.
pub uninterp spec fn ln_of(x: astro_float::BigFloat, prec: usize) -> astro_float::BigFloat;

/// What `a > b` returns under PartialOrd for astro_float::BigFloat.
pub uninterp spec fn gt_of(a: astro_float::BigFloat, b: astro_float::BigFloat) -> bool;

/// What `a < b` returns under PartialOrd for astro_float::BigFloat.
pub uninterp spec fn lt_of(a: astro_float::BigFloat, b: astro_float::BigFloat) -> bool;

/// What `a <= b` returns under PartialOrd for astro_float::BigFloat.
pub uninterp spec fn le_of(a: astro_float::BigFloat, b: astro_float::BigFloat) -> bool;

/// Relies on Clone for astro_float::BigFloat: a copy of the value (the
/// copy is left unspecified here; no verified code depends on it).
pub assume_specification[ <astro_float::BigFloat as Clone>::clone ](
    x: &astro_float::BigFloat,
) -> astro_float::BigFloat;

/// Relies on astro_float::BigFloat::from_u32: an exact small constant.
/// `astro-float` refuses to build an integer at a precision below the
/// integer's width, so the value is built at no less than 32 bits; being
/// an exact integer, it has the same value at every allowed precision.
#[verifier::external_body]
pub(crate) fn float_from_u32(value: u32, prec: usize) -> (r: astro_float::BigFloat)
    ensures
        r == u32_of(value, prec),
{
    let wide_enough = if prec < 32 {
        32
    } else {
        prec
    };
    astro_float::BigFloat::from_u32(value, wide_enough)
}

/// Relies on astro_float::BigFloat::from_u64: an exact pixel coordinate,
/// dimension or iteration count.  `astro-float` refuses to build an
/// integer at a precision below the integer's width, so the value is
/// built at no less than 64 bits; being an exact integer, it has the same
/// value at every allowed precision.
#[verifier::external_body]
pub(crate) fn float_from_u64(value: u64, prec: usize) -> (r: astro_float::BigFloat)
    ensures
        r == u64_of(value, prec),
{
    let wide_enough = if prec < 64 {
        64
    } else {
        prec
    };
    astro_float::BigFloat::from_u64(value, wide_enough)
}

/// Relies on astro_float::BigFloat::add, rounding to nearest at `prec` bits.
#[verifier::external_body]
pub(crate) fn float_add(
    a: &astro_float::BigFloat,
    b: &astro_float::BigFloat,
    prec: usize,
) -> (r: astro_float::BigFloat)
    ensures
        r == add_of(*a, *b, prec),
{
    a.add(b, prec, astro_float::RoundingMode::ToEven)
}

/// Relies on astro_float::BigFloat::sub, rounding to nearest at `prec` bits.
#[verifier::external_body]
pub(crate) fn float_sub(
    a: &astro_float::BigFloat,
    b: &astro_float::BigFloat,
    prec: usize,
) -> (r: astro_float::BigFloat)
    ensures
        r == sub_of(*a, *b, prec),
{
    a.sub(b, prec, astro_float::RoundingMode::ToEven)
}

/// Relies on astro_float::BigFloat::mul, rounding to nearest at `prec` bits.
#[verifier::external_body]
pub(crate) fn float_mul(
    a: &astro_float::BigFloat,
    b: &astro_float::BigFloat,
    prec: usize,
) -> (r: astro_float::BigFloat)
    ensures
        r == mul_of(*a, *b, prec),
{
    a.mul(b, prec, astro_float::RoundingMode::ToEven)
}

/// Relies on astro_float::BigFloat::div, rounding to nearest at `prec` bits.
#[verifier::external_body]
pub(crate) fn float_div(
    a: &astro_float::BigFloat,
    b: &astro_float::BigFloat,
    prec: usize,
) -> (r: astro_float::BigFloat)
    ensures
        r == div_of(*a, *b, prec),
{
    a.div(b, prec, astro_float::RoundingMode::ToEven)
}

/// Relies on astro_float::BigFloat::ln, rounding to nearest at `prec` bits
/// (NaN for negative arguments, negative infinity at zero).
#[verifier::external_body]
pub(crate) fn float_ln(x: &astro_float::BigFloat, prec: usize) -> (r: astro_float::BigFloat)
    ensures
        r == ln_of(*x, prec),
{
    match astro_float::Consts::new() {
        Ok(mut cc) => x.ln(prec, astro_float::RoundingMode::ToEven, &mut cc),
        Err(_) => astro_float::BigFloat::nan(None),
    }
}

/// Relies on PartialOrd for astro_float::BigFloat: `a > b`, false when
/// either side is NaN.
#[verifier::external_body]
pub(crate) fn float_gt(a: &astro_float::BigFloat, b: &astro_float::BigFloat) -> (r: bool)
    ensures
        r == gt_of(*a, *b),
{
    a > b
}

/// Relies on PartialOrd for astro_float::BigFloat: `a < b`, false when
/// either side is NaN.
#[verifier::external_body]
pub(crate) fn float_lt(a: &astro_float::BigFloat, b: &astro_float::BigFloat) -> (r: bool)
    ensures
        r == lt_of(*a, *b),
{
    a < b
}

/// Relies on PartialOrd for astro_float::BigFloat: `a <= b`, false when
/// either side is NaN.
#[verifier::external_body]
pub(crate) fn float_le(a: &astro_float::BigFloat, b: &astro_float::BigFloat) -> (r: bool)
    ensures
        r == le_of(*a, *b),
{
    a <= b
}

/// Relies on astro_float::BigFloat::parse (decimal): `None` exactly when
/// the string is not a number `astro-float` accepts, which depends on the
/// characters alone.  On memory exhaustion the process stops here rather
/// than return a value the contract does not cover.
#[verifier::external_body]
pub(crate) fn float_from_str(s: &str, prec: usize) -> (r: Option<astro_float::BigFloat>)
    requires
        1 <= prec <= 0x1000_0000,
    ensures
        r is Some <==> float_parses(s@),
        r matches Some(v) ==> v == float_value_of(s@, prec),
{
    let mut cc = astro_float::Consts::new().expect("constants cache allocation");
    let rm = astro_float::RoundingMode::ToEven;
    let v = astro_float::BigFloat::parse(s, astro_float::Radix::Dec, prec, rm, &mut cc);
    match v.err() {
        Some(astro_float::Error::MemoryAllocation) => {
            Err::<Option<astro_float::BigFloat>, &str>("oom").expect("allocation during parse")
        },
        _ => if v.is_nan() { None } else { Some(v) },
    }
}

} // verus!
