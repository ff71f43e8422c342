use multiversx_sc::codec::num_bigint::BigUint;
use vstd::prelude::*;

verus! {

/// Declares `num_bigint::BigUint`, the arbitrary-size unsigned integer that the
/// contracts' `BigUint` amounts convert to off chain, as an opaque type.
#[verifier::external_type_specification]
#[verifier::external_body]
pub struct ExBigUint(BigUint);

/// A token amount: an unbounded natural number, as the contracts' `BigUint` is.
pub type Amount = BigUint;

/// The number an amount holds.
pub uninterp spec fn amount_value(a: BigUint) -> nat;

/// Calls `BigUint::from` on a `u128`. Trusted: the amount holds `x`.
#[verifier::external_body]
pub(crate) fn amount_from_u128(x: u128) -> (r: BigUint)
    ensures
        amount_value(r) == x,
{
    BigUint::from(x)
}

/// Calls `BigUint + BigUint` (by reference). Trusted: the sum of the two numbers.
#[verifier::external_body]
pub(crate) fn amount_add(a: &BigUint, b: &BigUint) -> (r: BigUint)
    ensures
        amount_value(r) == amount_value(*a) + amount_value(*b),
{
    a + b
}

/// Calls `BigUint - BigUint` (by reference), which panics when `b` exceeds `a`.
/// Trusted: the difference of the two numbers.
#[verifier::external_body]
pub(crate) fn amount_sub(a: &BigUint, b: &BigUint) -> (r: BigUint)
    requires
        amount_value(*b) <= amount_value(*a),
    ensures
        amount_value(r) == amount_value(*a) - amount_value(*b),
{
    a - b
}

/// Calls `BigUint <= BigUint`. Trusted: the numbers are compared.
#[verifier::external_body]
pub(crate) fn amount_le(a: &BigUint, b: &BigUint) -> (r: bool)
    ensures
        r == (amount_value(*a) <= amount_value(*b)),
{
    a <= b
}

/// Calls `BigUint::clone`. Trusted: the copy holds the same number.
#[verifier::external_body]
pub(crate) fn amount_clone(a: &BigUint) -> (r: BigUint)
    ensures
        amount_value(r) == amount_value(*a),
{
    a.clone()
}

/// The amount zero.
pub fn amount_zero() -> (r: BigUint)
    ensures
        amount_value(r) == 0,
{
    amount_from_u128(0)
}

/// Whether an amount is zero.
pub fn amount_is_zero(a: &BigUint) -> (r: bool)
    ensures
        r == (amount_value(*a) == 0),
{
    let z = amount_zero();
    amount_le(a, &z)
}

} // verus!
