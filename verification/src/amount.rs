//! Monetary amounts.
//!
//! All money in the ledger is a `casper_types::U512`: an unsigned 512-bit
//! integer made of eight 64-bit limbs. The type is opaque to the verifier;
//! `u512_value` names the number a value holds, and the wrappers below state
//! how the arithmetic of `casper_types` acts on that number.

use vstd::prelude::*;
use casper_types::U512;

verus! {

/// Declares `casper_types::U512` to the verifier as an opaque value type.
#[verifier::external_type_specification]
#[verifier::external_body]
pub struct ExU512(U512);

/// The number a `U512` holds.
pub uninterp spec fn u512_value(v: U512) -> nat;

/// One more than the largest number a `U512` can hold: 2^512.
pub open spec fn u512_limit() -> nat {
    0x10000000000000000000000000000000000000000000000000000000000000000000000000000000000000000000000000000000000000000000000000000000nat
}

/// Relies on `U512::zero`: the value with every limb zero.
#[verifier::external_body]
pub fn amount_zero() -> (r: U512)
    ensures
        u512_value(r) == 0,
{
    U512::zero()
}

/// Relies on `U512`'s `From<u64>`: the value whose lowest limb is `x` and
/// whose other limbs are zero.
#[verifier::external_body]
pub fn amount_from_u64(x: u64) -> (r: U512)
    ensures
        u512_value(r) == x as nat,
{
    U512::from(x)
}

/// Relies on `U512`'s `Add`: limb-wise addition with carry. The precondition
/// rules out the overflow on which that impl panics.
#[verifier::external_body]
pub fn amount_add(a: U512, b: U512) -> (r: U512)
    requires
        u512_value(a) + u512_value(b) < u512_limit(),
    ensures
        u512_value(r) == u512_value(a) + u512_value(b),
{
    a + b
}

/// Relies on `U512`'s `Sub`: limb-wise subtraction with borrow. The
/// precondition rules out the underflow on which that impl panics.
#[verifier::external_body]
pub fn amount_sub(a: U512, b: U512) -> (r: U512)
    requires
        u512_value(b) <= u512_value(a),
    ensures
        u512_value(r) == u512_value(a) - u512_value(b),
{
    a - b
}

/// Relies on `U512`'s `Mul<u64>`. The precondition rules out the overflow on
/// which that impl panics.
#[verifier::external_body]
pub fn amount_mul_u64(a: U512, m: u64) -> (r: U512)
    requires
        u512_value(a) * m < u512_limit(),
    ensures
        u512_value(r) == u512_value(a) * m,
{
    a * m
}

/// Relies on `U512`'s `Div<u64>`: truncating division. The precondition rules
/// out the division by zero on which that impl panics.
#[verifier::external_body]
pub fn amount_div_u64(a: U512, d: u64) -> (r: U512)
    requires
        d != 0,
    ensures
        u512_value(r) == u512_value(a) / d as nat,
{
    a / d
}

/// Relies on `U512`'s `Ord`: limbs are compared most significant first, which
/// orders values by the number they hold.
#[verifier::external_body]
pub fn amount_lt(a: U512, b: U512) -> (r: bool)
    ensures
        r == (u512_value(a) < u512_value(b)),
{
    a < b
}

/// Relies on `U512`'s `PartialEq`: limbs are equal exactly when the numbers
/// they hold are equal.
#[verifier::external_body]
pub fn amount_eq(a: U512, b: U512) -> (r: bool)
    ensures
        r == (u512_value(a) == u512_value(b)),
{
    a == b
}

} // verus!
