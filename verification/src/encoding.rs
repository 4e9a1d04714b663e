//! Fixed-width little-endian encodings of field elements.

use vstd::prelude::*;
use crate::error::TransformError;

verus! {

/// The fixed width, in bytes, of an encoded field element.
pub const WIDTH: usize = 32;

/// The number that a byte string denotes, least significant byte first.
pub open spec fn le_value(bytes: Seq<u8>) -> nat
    decreases bytes.len(),
{
    if bytes.len() == 0 {
        0
    } else {
        bytes[0] as nat + 256 * le_value(bytes.drop_first())
    }
}

/// The `n` least significant bytes of `e`, least significant first.
pub open spec fn le_bytes(e: nat, n: nat) -> Seq<u8>
    decreases n,
{
    if n == 0 {
        Seq::empty()
    } else {
        seq![(e % 256) as u8] + le_bytes(e / 256, (n - 1) as nat)
    }
}

/// 256 to the power `n`: the number of byte strings of length `n`.
pub open spec fn pow256(n: nat) -> nat
    decreases n,
{
    if n == 0 {
        1
    } else {
        256 * pow256((n - 1) as nat)
    }
}

/// The order of the scalar field: 2^252 + 27742317777372353535851937790883648493.
pub open spec fn field_modulus() -> nat {
    7237005577332262213973186563042994240857116359379907606001950938285454250989nat
}

/// Whether a 32-byte string is the canonical encoding of a field element.
pub open spec fn is_canonical(bytes: Seq<u8>) -> bool {
    bytes.len() == 32 && le_value(bytes) < field_modulus()
}

/// `v` followed by zero bytes up to 32 bytes in all.
pub open spec fn pad_32(v: Seq<u8>) -> Seq<u8> {
    Seq::new(32, |i: int| if i < v.len() { v[i] } else { 0u8 })
}

/// Copies a little-endian byte string into a 32-byte array, zero-filling the
/// high end. A longer string is refused, never cut.
pub fn encode_32(v: &Vec<u8>) -> (r: Result<[u8; 32], TransformError>)
    ensures
        v@.len() <= 32 ==> r.is_ok() && r.unwrap()@ == pad_32(v@),
        v@.len() > 32 ==> r == Err::<[u8; 32], TransformError>(TransformError::Encoding),
{
    if v.len() > WIDTH {
        return Err(TransformError::Encoding);
    }
    let mut out: [u8; 32] = [0u8; 32];
    let mut i: usize = 0;
    while i < v.len()
        invariant
            v@.len() <= 32,
            i <= v@.len(),
            forall|k: int| 0 <= k < i ==> out@[k] == v@[k],
            forall|k: int| i <= k < 32 ==> out@[k] == 0u8,
        decreases v@.len() - i,
    {
        out[i] = v[i];
        i += 1;
    }
    assert(out@ =~= pad_32(v@));
    Ok(out)
}

/// Convert a byte vector into a fixed-size array: shorter input is
/// zero-filled at the high end, input longer than 32 bytes is an error.
pub fn to_32(v: Vec<u8>) -> (r: Result<[u8; 32], TransformError>)
    ensures
        v@.len() <= 32 ==> r.is_ok() && r.unwrap()@ == pad_32(v@),
        v@.len() > 32 ==> r == Err::<[u8; 32], TransformError>(TransformError::Encoding),
{
    encode_32(&v)
}

/// Tells whether a little-endian byte string denotes zero, whatever its length.
pub fn is_zero(v: &Vec<u8>) -> (r: bool)
    ensures
        r == (le_value(v@) == 0),
{
    let mut i: usize = 0;
    while i < v.len()
        invariant
            i <= v@.len(),
            forall|k: int| 0 <= k < i ==> v@[k] == 0u8,
        decreases v@.len() - i,
    {
        if v[i] != 0 {
            proof {
                lemma_zero_value(v@);
            }
            return false;
        }
        i += 1;
    }
    proof {
        lemma_zero_value(v@);
    }
    true
}

/// A byte string denotes zero exactly if every byte of it is zero.
pub proof fn lemma_zero_value(bytes: Seq<u8>)
    ensures
        le_value(bytes) == 0 <==> (forall|i: int| 0 <= i < bytes.len() ==> bytes[i] == 0u8),
    decreases bytes.len(),
{
    if bytes.len() > 0 {
        let rest = bytes.drop_first();
        lemma_zero_value(rest);
        if forall|i: int| 0 <= i < bytes.len() ==> bytes[i] == 0u8 {
            assert forall|i: int| 0 <= i < rest.len() implies rest[i] == 0u8 by {
                assert(rest[i] == bytes[i + 1]);
            }
        }
        if le_value(bytes) == 0 {
            assert(bytes[0] == 0u8);
            assert(le_value(rest) == 0);
            assert forall|i: int| 0 <= i < bytes.len() implies bytes[i] == 0u8 by {
                if i > 0 {
                    assert(bytes[i] == rest[i - 1]);
                }
            }
        }
    }
}

/// Decoding the `n`-byte encoding of a number below 256^n gives the number back.
pub proof fn lemma_decode_encode(e: nat, n: nat)
    requires
        e < pow256(n),
    ensures
        le_bytes(e, n).len() == n,
        le_value(le_bytes(e, n)) == e,
    decreases n,
{
    if n > 0 {
        let rest = le_bytes(e / 256, (n - 1) as nat);
        lemma_decode_encode(e / 256, (n - 1) as nat);
        assert(le_bytes(e, n).drop_first() =~= rest);
        assert(le_bytes(e, n)[0] == (e % 256) as u8);
    }
}

/// Encoding the value of an `n`-byte string gives the string back.
pub proof fn lemma_encode_decode(bytes: Seq<u8>)
    ensures
        le_bytes(le_value(bytes), bytes.len()) == bytes,
    decreases bytes.len(),
{
    if bytes.len() > 0 {
        let rest = bytes.drop_first();
        lemma_encode_decode(rest);
        let e = le_value(bytes);
        assert(e % 256 == bytes[0] as nat);
        assert(e / 256 == le_value(rest));
        assert(le_bytes(e, bytes.len()) =~= bytes);
    } else {
        assert(le_bytes(le_value(bytes), 0) =~= bytes);
    }
}

/// Zero bytes at the high end do not change the value of a byte string.
pub proof fn lemma_pad_keeps_value(v: Seq<u8>, zeros: nat)
    ensures
        le_value(v + Seq::new(zeros, |i: int| 0u8)) == le_value(v),
    decreases v.len(), zeros,
{
    let z = Seq::new(zeros, |i: int| 0u8);
    if v.len() == 0 {
        assert(v + z =~= z);
        if zeros > 0 {
            assert(z.drop_first() =~= Seq::new((zeros - 1) as nat, |i: int| 0u8));
            lemma_pad_keeps_value(v, (zeros - 1) as nat);
            assert(Seq::<u8>::empty() + z.drop_first() =~= z.drop_first());
            assert(v =~= Seq::<u8>::empty());
        }
    } else {
        lemma_pad_keeps_value(v.drop_first(), zeros);
        assert((v + z).drop_first() =~= v.drop_first() + z);
    }
}

/// The encoding round trip: the 32-byte encoding of a byte string of at most
/// 32 bytes denotes the same number, and is the 32-byte encoding of that number.
pub proof fn encoding_round_trip(v: Seq<u8>)
    requires
        v.len() <= 32,
    ensures
        le_value(pad_32(v)) == le_value(v),
        pad_32(v) == le_bytes(le_value(v), 32),
{
    let zeros = (32 - v.len()) as nat;
    assert(pad_32(v) =~= v + Seq::new(zeros, |i: int| 0u8));
    lemma_pad_keeps_value(v, zeros);
    lemma_encode_decode(pad_32(v));
}

/// Every field element survives the round trip: decoding the 32-byte
/// little-endian encoding of a number below the field modulus gives that
/// number, and the encoding is canonical.
pub proof fn field_element_round_trip(e: nat)
    requires
        e < field_modulus(),
    ensures
        le_value(le_bytes(e, 32)) == e,
        is_canonical(le_bytes(e, 32)),
        pad_32(le_bytes(e, 32)) == le_bytes(e, 32),
{
    lemma_modulus_fits();
    lemma_decode_encode(e, 32);
    assert(pad_32(le_bytes(e, 32)) =~= le_bytes(e, 32));
}

/// The field modulus is below 2^256, so every element fits in 32 bytes.
pub proof fn lemma_modulus_fits()
    ensures
        field_modulus() < pow256(32),
{
    reveal_with_fuel(pow256, 33);
}

} // verus!
