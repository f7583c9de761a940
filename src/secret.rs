//! Overwriting key material before it is released.

use vstd::prelude::*;
use zeroize::Zeroize;

verus! {

/// 32 zero bytes.
pub open spec fn zero_key() -> Seq<u8> {
    Seq::new(32, |i: int| 0u8)
}

/// Relies on zeroize's `Zeroize for [u8; N]`: a volatile write of zero to
/// every element, which the compiler may not elide.
#[verifier::external_body]
pub(crate) fn wipe_key(key: &mut [u8; 32])
    ensures
        final(key)@ == zero_key(),
    opens_invariants none
    no_unwind
{
    key.zeroize();
}

/// Relies on zeroize's `Zeroize for Vec<u8>`: zeroes the elements and the
/// spare capacity, then clears the vector.
#[verifier::external_body]
pub(crate) fn wipe_bytes(bytes: &mut Vec<u8>)
    ensures
        final(bytes)@.len() == 0,
    opens_invariants none
    no_unwind
{
    bytes.zeroize();
}

/// Relies on zeroize's `Zeroize for String`: zeroes the underlying bytes,
/// then clears the string.
#[verifier::external_body]
pub(crate) fn wipe_string(s: &mut String)
    ensures
        final(s)@.len() == 0,
    opens_invariants none
    no_unwind
{
    s.zeroize();
}

} // verus!
