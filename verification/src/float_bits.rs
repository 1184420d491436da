use vstd::prelude::*;
use rustc_apfloat::Float;
use rustc_apfloat::ieee::Double;

verus! {

// Numeric values of the language are IEEE-754 binary64 numbers, held here
// as their 64-bit patterns so that the interpreter's logic can be reasoned
// about exactly.  The operations themselves are carried out in software by
// the `rustc_apfloat` crate; each result below is a pure function of the
// operand bits, so it is given a name that the contracts share.

/// The shape of a numeric literal: digits with at most one embedded dot,
/// starting with a digit.
pub open spec fn decimal_shape(s: Seq<char>) -> bool {
    &&& s.len() > 0
    &&& '0' <= s[0] <= '9'
    &&& forall|i: int| 0 <= i < s.len() ==> ('0' <= #[trigger] s[i] <= '9' || s[i] == '.')
    &&& forall|i: int, j: int| 0 <= i < j < s.len() && s[i] == '.' ==> s[j] != '.'
}

/// The binary64 value nearest to the decimal numeral `s`.
pub uninterp spec fn float_of_decimal(s: Seq<char>) -> u64;

/// The rounded binary64 sum of the two operand bit patterns.
pub uninterp spec fn float_add(a: u64, b: u64) -> u64;

/// The rounded binary64 difference of the two operand bit patterns.
pub uninterp spec fn float_sub(a: u64, b: u64) -> u64;

/// The rounded binary64 product of the two operand bit patterns.
pub uninterp spec fn float_mul(a: u64, b: u64) -> u64;

/// The rounded binary64 quotient of the two operand bit patterns.
pub uninterp spec fn float_div(a: u64, b: u64) -> u64;

/// IEEE-754 `<` on the two operand bit patterns.
pub uninterp spec fn float_lt(a: u64, b: u64) -> bool;

/// IEEE-754 `<=` on the two operand bit patterns.
pub uninterp spec fn float_le(a: u64, b: u64) -> bool;

/// IEEE-754 `>` on the two operand bit patterns.
pub uninterp spec fn float_gt(a: u64, b: u64) -> bool;

/// IEEE-754 `>=` on the two operand bit patterns.
pub uninterp spec fn float_ge(a: u64, b: u64) -> bool;

/// IEEE-754 equality on the two operand bit patterns.
pub uninterp spec fn float_eq(a: u64, b: u64) -> bool;

/// The binary64 value nearest to the signed integer `i`.
pub uninterp spec fn float_of_i64(i: i64) -> u64;

/// The bit pattern `b` truncated toward zero to a signed integer.
pub uninterp spec fn float_to_i64(b: u64) -> i64;

/// Relies on rustc_apfloat's `Double::from_str_r`: the correctly rounded
/// binary64 value of a decimal numeral, a function of the text alone.
#[verifier::external_body]
pub fn parse_float_bits(s: &str) -> (r: u64)
    requires
        decimal_shape(s@),
    ensures
        r == float_of_decimal(s@),
{
    match Double::from_str_r(s, rustc_apfloat::Round::NearestTiesToEven) {
        Ok(sa) => sa.value.to_bits() as u64,
        Err(_) => 0,
    }
}

/// Relies on rustc_apfloat's `add_r` (round to nearest, ties to even),
/// a function of the operand bits alone.
#[verifier::external_body]
pub fn add_bits(a: u64, b: u64) -> (r: u64)
    ensures
        r == float_add(a, b),
{
    (Double::from_bits(a as u128) + Double::from_bits(b as u128)).value.to_bits() as u64
}

/// Relies on rustc_apfloat's `sub_r` (round to nearest, ties to even),
/// a function of the operand bits alone.
#[verifier::external_body]
pub fn sub_bits(a: u64, b: u64) -> (r: u64)
    ensures
        r == float_sub(a, b),
{
    (Double::from_bits(a as u128) - Double::from_bits(b as u128)).value.to_bits() as u64
}

/// Relies on rustc_apfloat's `mul_r` (round to nearest, ties to even),
/// a function of the operand bits alone.
#[verifier::external_body]
pub fn mul_bits(a: u64, b: u64) -> (r: u64)
    ensures
        r == float_mul(a, b),
{
    (Double::from_bits(a as u128) * Double::from_bits(b as u128)).value.to_bits() as u64
}

/// Relies on rustc_apfloat's `div_r` (round to nearest, ties to even),
/// a function of the operand bits alone.
#[verifier::external_body]
pub fn div_bits(a: u64, b: u64) -> (r: u64)
    ensures
        r == float_div(a, b),
{
    (Double::from_bits(a as u128) / Double::from_bits(b as u128)).value.to_bits() as u64
}

/// Relies on rustc_apfloat's `PartialOrd` for `Double`, which implements
/// the IEEE-754 ordering (incomparable when either operand is a NaN).
#[verifier::external_body]
pub fn lt_bits(a: u64, b: u64) -> (r: bool)
    ensures
        r == float_lt(a, b),
{
    Double::from_bits(a as u128) < Double::from_bits(b as u128)
}

/// Relies on rustc_apfloat's `PartialOrd` for `Double`, as `lt_bits` does.
#[verifier::external_body]
pub fn le_bits(a: u64, b: u64) -> (r: bool)
    ensures
        r == float_le(a, b),
{
    Double::from_bits(a as u128) <= Double::from_bits(b as u128)
}

/// Relies on rustc_apfloat's `PartialOrd` for `Double`, as `lt_bits` does.
#[verifier::external_body]
pub fn gt_bits(a: u64, b: u64) -> (r: bool)
    ensures
        r == float_gt(a, b),
{
    Double::from_bits(a as u128) > Double::from_bits(b as u128)
}

/// Relies on rustc_apfloat's `PartialOrd` for `Double`, as `lt_bits` does.
#[verifier::external_body]
pub fn ge_bits(a: u64, b: u64) -> (r: bool)
    ensures
        r == float_ge(a, b),
{
    Double::from_bits(a as u128) >= Double::from_bits(b as u128)
}

/// Relies on rustc_apfloat's `PartialEq` for `Double`: IEEE-754 equality,
/// under which a NaN differs from everything, itself included.
#[verifier::external_body]
pub fn eq_bits(a: u64, b: u64) -> (r: bool)
    ensures
        r == float_eq(a, b),
{
    Double::from_bits(a as u128) == Double::from_bits(b as u128)
}

/// Relies on rustc_apfloat's `from_i128`: the binary64 value nearest to a
/// signed integer, a function of the integer alone.
#[verifier::external_body]
pub fn i64_to_bits(i: i64) -> (r: u64)
    ensures
        r == float_of_i64(i),
{
    Double::from_i128(i as i128).value.to_bits() as u64
}

/// Relies on rustc_apfloat's `to_i128`: truncation toward zero, clamped to
/// the 64-bit range, zero for a NaN; a function of the bits alone.
#[verifier::external_body]
pub fn bits_to_i64(b: u64) -> (r: i64)
    ensures
        r == float_to_i64(b),
{
    Double::from_bits(b as u128).to_i128(64).value as i64
}


/// The decimal rendering of the bit pattern `b`.
pub uninterp spec fn float_text(b: u64) -> Seq<char>;

/// Relies on rustc_apfloat's `Display` for `Double`: a decimal rendering
/// determined by the bits alone.
#[verifier::external_body]
pub fn bits_to_text(b: u64) -> (r: String)
    ensures
        r@ == float_text(b),
{
    format!("{}", Double::from_bits(b as u128))
}

} // verus!
