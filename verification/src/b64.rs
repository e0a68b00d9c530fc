//! Text armour for binary payloads, through the `base64` crate.

use vstd::prelude::*;

verus! {

/// The base64 text form of a byte string (standard alphabet, padded). Named
/// only; what is known of it is stated on the two functions below.
pub uninterp spec fn base64_of(b: Seq<u8>) -> Seq<char>;

/// Relies on `base64::encode`: the standard, padded base64 rendering of the
/// bytes, a pure function of the bytes alone.
#[verifier::external_body]
pub fn base64_encode(b: &Vec<u8>) -> (r: String)
    ensures
        r@ == base64_of(b@),
{
    base64::encode(b.as_slice())
}

/// Relies on `base64::decode`: decoding inverts `base64::encode`, so on the
/// encoding of any byte string it returns exactly that byte string.
#[verifier::external_body]
pub fn base64_decode(s: &str) -> (r: Option<Vec<u8>>)
    ensures
        r is Some <== exists|b: Seq<u8>| s@ == base64_of(b),
        r matches Some(d) ==> forall|b: Seq<u8>| s@ == base64_of(b) ==> d@ == b,
{
    base64::decode(s).ok()
}

} // verus!
