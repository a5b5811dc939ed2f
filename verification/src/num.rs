//! Single-precision (IEEE 754 binary32) operations over plain bit patterns.
//!
//! The language's numbers are binary32 values, carried as their `u32` bit
//! patterns. The operations themselves are performed by `rustc_apfloat`'s
//! software implementation of IEEE 754 arithmetic, behind the trusted
//! wrappers below; each result is named by an uninterpreted spec function,
//! since stating IEEE 754 arithmetic itself would take pages.

use rustc_apfloat::ieee::Single;
use rustc_apfloat::Float;
use vstd::prelude::*;

verus! {

/// The bit pattern of the binary32 sum of two bit patterns, rounding to
/// nearest, ties to even.
pub uninterp spec fn add_bits(a: u32, b: u32) -> u32;

/// The bit pattern of the binary32 difference of two bit patterns, rounding
/// to nearest, ties to even.
pub uninterp spec fn sub_bits(a: u32, b: u32) -> u32;

/// The bit pattern of the binary32 product of two bit patterns, rounding to
/// nearest, ties to even.
pub uninterp spec fn mul_bits(a: u32, b: u32) -> u32;

/// Whether the binary32 value of `a` is strictly greater than that of `b`
/// (false whenever either is a NaN).
pub uninterp spec fn gt_bits(a: u32, b: u32) -> bool;

/// The bit pattern of the binary32 value that the text `s` spells, if it
/// spells one.
pub uninterp spec fn float_bits_of(s: Seq<char>) -> Option<u32>;

/// Relies on `rustc_apfloat::ieee::Single`'s `Add` impl (`add_r` with
/// round-to-nearest-even): binary32 addition, a function of the two bit
/// patterns alone.
#[verifier::external_body]
pub(crate) fn single_add(a: u32, b: u32) -> (r: u32)
    ensures
        r == add_bits(a, b),
{
    let x = Single::from_bits(a as u128);
    let y = Single::from_bits(b as u128);
    (x + y).value.to_bits() as u32
}

/// Relies on `rustc_apfloat::ieee::Single`'s `Sub` impl (`sub_r` with
/// round-to-nearest-even): binary32 subtraction, a function of the two bit
/// patterns alone.
#[verifier::external_body]
pub(crate) fn single_sub(a: u32, b: u32) -> (r: u32)
    ensures
        r == sub_bits(a, b),
{
    let x = Single::from_bits(a as u128);
    let y = Single::from_bits(b as u128);
    (x - y).value.to_bits() as u32
}

/// Relies on `rustc_apfloat::ieee::Single`'s `Mul` impl (`mul_r` with
/// round-to-nearest-even): binary32 multiplication, a function of the two
/// bit patterns alone.
#[verifier::external_body]
pub(crate) fn single_mul(a: u32, b: u32) -> (r: u32)
    ensures
        r == mul_bits(a, b),
{
    let x = Single::from_bits(a as u128);
    let y = Single::from_bits(b as u128);
    (x * y).value.to_bits() as u32
}

/// Relies on `rustc_apfloat::ieee::Single`'s `PartialOrd` impl: the IEEE 754
/// comparison of two binary32 values (`None` on NaN, so `>` is then false),
/// a function of the two bit patterns alone.
#[verifier::external_body]
pub(crate) fn single_gt(a: u32, b: u32) -> (r: bool)
    ensures
        r == gt_bits(a, b),
{
    Single::from_bits(a as u128) > Single::from_bits(b as u128)
}

/// Relies on `rustc_apfloat::ieee::Single`'s `FromStr` impl (`from_str_r`
/// with round-to-nearest-even): reads a binary32 value from text, a function
/// of the characters alone; every failure is reported as an error value.
#[verifier::external_body]
pub(crate) fn single_from_str(s: &str) -> (r: Option<u32>)
    ensures
        r == float_bits_of(s@),
{
    match s.parse::<Single>() {
        Ok(v) => Some(v.to_bits() as u32),
        Err(_) => None,
    }
}

} // verus!
