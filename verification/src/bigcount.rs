//! The arbitrary-precision generation counter. The counter is a
//! `num_bigint::BigUint`, so the simulation can run indefinitely without
//! overflow; the contracts speak of the natural number the counter holds.

use vstd::prelude::*;
use num_bigint::BigUint;

verus! {

/// Declares `num_bigint::BigUint` so the counter can live in a verified
/// struct; the value it holds is reached only through `biguint_nat`.
#[verifier::external_type_specification]
#[verifier::external_body]
pub struct ExBigUint(BigUint);

/// The natural number that a `BigUint` holds.
pub uninterp spec fn biguint_nat(b: BigUint) -> nat;

/// Relies on `num_bigint`'s `AddAssign<usize>` for `BigUint`: adding 1 to the
/// stored number, with no upper bound.
#[verifier::external_body]
pub(crate) fn biguint_increment(b: &mut BigUint)
    ensures
        biguint_nat(*final(b)) == biguint_nat(*old(b)) + 1,
{
    *b += 1usize;
}

/// The decimal rendering of a natural number, as `num_bigint`'s `Display`
/// implementation for `BigUint` produces it. It depends on the number alone.
pub uninterp spec fn decimal_chars(n: nat) -> Seq<char>;

/// Relies on `num_bigint`'s `Display` for `BigUint`: the decimal digits of
/// the stored number, a function of that number alone.
#[verifier::external_body]
pub(crate) fn biguint_decimal(b: &BigUint) -> (r: String)
    ensures
        r@ == decimal_chars(biguint_nat(*b)),
{
    format!("{}", b)
}

} // verus!
