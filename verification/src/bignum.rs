//! Arbitrary-precision unsigned integers, as provided by `num_bigint`.
//!
//! The protocol works over 1024-bit moduli, so every group element and
//! exponent is carried as a `num_bigint::BigUint`.  Verus sees the type
//! through the declaration below and reasons about a value only through
//! `big_value`, the natural number it holds.

use vstd::prelude::*;
use num_bigint::BigUint;

verus! {

#[verifier::external_type_specification]
#[verifier::external_body]
pub struct ExBigUint(BigUint);

/// The natural number that a `BigUint` holds.  Each wrapper below states
/// what one operation of `num_bigint` does to this value; nothing else is
/// assumed of the type.
pub uninterp spec fn big_value(b: BigUint) -> nat;

/// The number written by a byte string read in big-endian order.
pub open spec fn nat_of_be(s: Seq<u8>) -> nat
    decreases s.len(),
{
    if s.len() == 0 {
        0
    } else {
        (nat_of_be(s.drop_last()) * 256 + s.last()) as nat
    }
}

/// A canonical big-endian byte string: nonempty, with no leading zero but
/// for the single byte that writes zero itself.
pub open spec fn canonical_be(s: Seq<u8>) -> bool {
    s.len() >= 1 && (s.len() == 1 || s[0] != 0)
}

/// Relies on `num_bigint::BigUint: From<u64>`: a lossless conversion.
#[verifier::external_body]
pub(crate) fn big_from_u64(n: u64) -> (r: BigUint)
    ensures
        big_value(r) == n as nat,
{
    BigUint::from(n)
}

/// Relies on `num_bigint::BigUint::from_bytes_be`: reads the bytes as an
/// unsigned integer in big-endian order (an empty slice gives zero).
#[verifier::external_body]
pub(crate) fn big_from_bytes_be(bytes: &[u8]) -> (r: BigUint)
    ensures
        big_value(r) == nat_of_be(bytes@),
{
    BigUint::from_bytes_be(bytes)
}

/// Relies on `num_bigint::BigUint::to_bytes_be`: the minimal big-endian
/// byte representation, with `[0]` for zero.
#[verifier::external_body]
pub(crate) fn big_to_bytes_be(b: &BigUint) -> (r: Vec<u8>)
    ensures
        nat_of_be(r@) == big_value(*b),
        canonical_be(r@),
{
    b.to_bytes_be()
}

/// Relies on `Mul` for `&num_bigint::BigUint`: the arbitrary-precision product.
#[verifier::external_body]
pub(crate) fn big_mul(a: &BigUint, b: &BigUint) -> (r: BigUint)
    ensures
        big_value(r) == big_value(*a) * big_value(*b),
{
    a * b
}

/// Relies on `Sub` for `&num_bigint::BigUint`: the difference; it panics on
/// underflow, so the smaller operand must stand on the right.
#[verifier::external_body]
pub(crate) fn big_sub(a: &BigUint, b: &BigUint) -> (r: BigUint)
    requires
        big_value(*b) <= big_value(*a),
    ensures
        big_value(r) == big_value(*a) - big_value(*b),
{
    a - b
}

/// Relies on `PartialOrd` for `num_bigint::BigUint`: comparison by numeric value.
#[verifier::external_body]
pub(crate) fn big_ge(a: &BigUint, b: &BigUint) -> (r: bool)
    ensures
        r == (big_value(*a) >= big_value(*b)),
{
    a >= b
}

/// Relies on `PartialEq` for `num_bigint::BigUint`: equality of numeric values.
#[verifier::external_body]
pub(crate) fn big_eq(a: &BigUint, b: &BigUint) -> (r: bool)
    ensures
        r == (big_value(*a) == big_value(*b)),
{
    a == b
}

/// Relies on `Clone` for `num_bigint::BigUint`: an equal, independent copy.
#[verifier::external_body]
pub(crate) fn big_clone(a: &BigUint) -> (r: BigUint)
    ensures
        big_value(r) == big_value(*a),
{
    a.clone()
}

} // verus!
