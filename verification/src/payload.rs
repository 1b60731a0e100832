//! Message payloads: shared immutable bytes.

use bytes::Bytes;
use vstd::prelude::*;

verus! {

/// Declares `bytes::Bytes`, a reference-counted slice of bytes.
#[verifier::external_type_specification]
#[verifier::external_body]
pub struct ExBytes(bytes::Bytes);

/// The bytes that a `Bytes` value holds.
pub uninterp spec fn contents(b: Bytes) -> Seq<u8>;

/// `Bytes::new` makes a value that holds no bytes.
pub assume_specification[ bytes::Bytes::new ]() -> (b: Bytes)
    ensures
        contents(b) == Seq::<u8>::empty(),
;

/// `Bytes::clone` makes a value that holds the same bytes; it shares them with the original.
pub assume_specification[ <bytes::Bytes as Clone>::clone ](b: &Bytes) -> (r: Bytes)
    ensures
        contents(r) == contents(*b),
;

/// Calls `Bytes::from` on a vector: the value takes over the bytes of the vector.
#[verifier::external_body]
pub(crate) fn from_vec(v: Vec<u8>) -> (b: Bytes)
    ensures
        contents(b) == v@,
{
    Bytes::from(v)
}

/// Calls `Bytes::deref`: the bytes held, as a slice.
#[verifier::external_body]
pub(crate) fn as_slice(b: &Bytes) -> (r: &[u8])
    ensures
        r@ == contents(*b),
{
    b
}

/// A copy of the bytes in a vector.
pub fn to_vec(b: &Bytes) -> (r: Vec<u8>)
    ensures
        r@ == contents(*b),
{
    copy_bytes(as_slice(b))
}

/// A copy of a slice of bytes.
pub fn copy_bytes(s: &[u8]) -> (r: Vec<u8>)
    ensures
        r@ == s@,
{
    let mut r: Vec<u8> = Vec::new();
    let mut i: usize = 0;
    while i < s.len()
        invariant
            i <= s@.len(),
            r@ == s@.take(i as int),
        decreases s@.len() - i,
    {
        r.push(s[i]);
        i += 1;
        assert(r@ == s@.take(i as int));
    }
    assert(s@.take(s@.len() as int) == s@);
    r
}

} // verus!
