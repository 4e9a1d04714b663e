//! The constants of the scalar field, as the field libraries give them.

use curve25519_dalek::scalar::Scalar;
use scalarff::Curve25519FieldElement;
use scalarff::FieldElement;
use vstd::prelude::*;
use crate::encoding::le_bytes;

verus! {

/// The 32-byte little-endian encoding of the field element one.
pub open spec fn one_encoding() -> Seq<u8> {
    le_bytes(1, 32)
}

/// The 32-byte encoding of the field element zero.
pub open spec fn zero_encoding() -> Seq<u8> {
    le_bytes(0, 32)
}

/// Trusted: `Curve25519FieldElement::from(1)` of scalarff, read through its
/// `to_bytes_le`. The element wraps a curve25519 scalar built from the `u64`,
/// whose bytes are the integer's little-endian bytes followed by zeros, so
/// the result is a one followed by 31 zero bytes.
#[verifier::external_body]
pub(crate) fn one_bytes() -> (r: Vec<u8>)
    ensures
        r@ == one_encoding(),
{
    Curve25519FieldElement::from(1u64).to_bytes_le()
}

/// Trusted: `Scalar::ZERO.to_bytes()` of curve25519-dalek, the constant
/// whose 32 bytes are all zero.
#[verifier::external_body]
pub(crate) fn zero_bytes() -> (r: [u8; 32])
    ensures
        r@ == zero_encoding(),
{
    Scalar::ZERO.to_bytes()
}

} // verus!
