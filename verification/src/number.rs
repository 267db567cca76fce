//! IEEE binary64 numbers, held as their bit patterns.
//!
//! The engine stores a floating-point number as the 64 bits of its IEEE
//! binary64 representation; the all-zero pattern is positive zero. All
//! floating-point work — reading a literal, rendering, arithmetic and
//! comparison — is done by `rustc_apfloat`'s software implementation of
//! IEEE binary64 (`rustc_apfloat::ieee::Double`), rounding to nearest with
//! ties to even. Each operation below is deterministic in the operand bits
//! alone, so its result is named by an uninterpreted function.

use rustc_apfloat::Float;
use rustc_apfloat::Round;
use rustc_apfloat::ieee::Double;
use vstd::prelude::*;

verus! {

/// The bits denoted by a number literal token, if it is well formed.
pub uninterp spec fn number_from_text(t: Seq<char>) -> Option<u64>;

/// The decimal rendering of the number with the given bits.
pub uninterp spec fn number_text(bits: u64) -> Seq<char>;

pub uninterp spec fn number_sum(a: u64, b: u64) -> u64;

pub uninterp spec fn number_difference(a: u64, b: u64) -> u64;

pub uninterp spec fn number_product(a: u64, b: u64) -> u64;

pub uninterp spec fn number_quotient(a: u64, b: u64) -> u64;

/// IEEE equality: zeros of both signs are equal, nothing equals a NaN.
pub uninterp spec fn number_eq(a: u64, b: u64) -> bool;

/// IEEE strict order: false whenever either operand is a NaN.
pub uninterp spec fn number_lt(a: u64, b: u64) -> bool;

/// Relies on `rustc_apfloat::ieee::Double::from_str_r`: the parse outcome
/// depends on the token alone.
#[verifier::external_body]
pub fn parse_number_bits(t: &str) -> (r: Option<u64>)
    ensures
        r == number_from_text(t@),
{
    match Double::from_str_r(t, Round::NearestTiesToEven) {
        Ok(sa) => Some(sa.value.to_bits() as u64),
        Err(_) => None,
    }
}

/// Relies on `rustc_apfloat::ieee::Double`'s `Display`: the rendering
/// depends on the bits alone.
#[verifier::external_body]
pub fn number_display(bits: u64) -> (r: String)
    ensures
        r@ == number_text(bits),
{
    format!("{}", Double::from_bits(bits as u128))
}

/// Relies on `rustc_apfloat::ieee::Double::add_r`, IEEE binary64 addition.
#[verifier::external_body]
pub fn number_add(a: u64, b: u64) -> (r: u64)
    ensures
        r == number_sum(a, b),
{
    let x = Double::from_bits(a as u128);
    let y = Double::from_bits(b as u128);
    x.add_r(y, Round::NearestTiesToEven).value.to_bits() as u64
}

/// Relies on `rustc_apfloat::ieee::Double::sub_r`, IEEE binary64 subtraction.
#[verifier::external_body]
pub fn number_subtract(a: u64, b: u64) -> (r: u64)
    ensures
        r == number_difference(a, b),
{
    let x = Double::from_bits(a as u128);
    let y = Double::from_bits(b as u128);
    x.sub_r(y, Round::NearestTiesToEven).value.to_bits() as u64
}

/// Relies on `rustc_apfloat::ieee::Double::mul_r`, IEEE binary64 multiplication.
#[verifier::external_body]
pub fn number_multiply(a: u64, b: u64) -> (r: u64)
    ensures
        r == number_product(a, b),
{
    let x = Double::from_bits(a as u128);
    let y = Double::from_bits(b as u128);
    x.mul_r(y, Round::NearestTiesToEven).value.to_bits() as u64
}

/// Relies on `rustc_apfloat::ieee::Double::div_r`, IEEE binary64 division;
/// division by zero yields an infinity or a NaN, never a trap.
#[verifier::external_body]
pub fn number_divide(a: u64, b: u64) -> (r: u64)
    ensures
        r == number_quotient(a, b),
{
    let x = Double::from_bits(a as u128);
    let y = Double::from_bits(b as u128);
    x.div_r(y, Round::NearestTiesToEven).value.to_bits() as u64
}

/// Relies on `rustc_apfloat::ieee::Double`'s `PartialEq`, IEEE equality.
#[verifier::external_body]
pub fn number_equal(a: u64, b: u64) -> (r: bool)
    ensures
        r == number_eq(a, b),
{
    Double::from_bits(a as u128) == Double::from_bits(b as u128)
}

/// Relies on `rustc_apfloat::ieee::Double`'s `PartialOrd`, IEEE ordering.
#[verifier::external_body]
pub fn number_less(a: u64, b: u64) -> (r: bool)
    ensures
        r == number_lt(a, b),
{
    Double::from_bits(a as u128) < Double::from_bits(b as u128)
}

} // verus!
