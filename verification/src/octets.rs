//! Shared byte buffers.

use bytes::Bytes;
use vstd::prelude::*;

verus! {

/// `bytes::Bytes`, a shared immutable byte buffer.
#[verifier::external_type_specification]
#[verifier::external_body]
pub struct ExBytes(bytes::Bytes);

/// The bytes that a buffer holds.
pub uninterp spec fn octets(buffer: bytes::Bytes) -> Seq<u8>;

/// `Bytes::len` is the number of bytes held.
#[verifier::external_body]
pub(crate) fn bytes_len(buffer: &Bytes) -> (r: usize)
    ensures
        r == octets(*buffer).len(),
{
    buffer.len()
}

/// `Clone` of `Bytes` gives a buffer that holds the same bytes.
pub assume_specification[ <bytes::Bytes as Clone>::clone ](buffer: &bytes::Bytes) -> (r: bytes::Bytes)
    ensures
        octets(r) == octets(*buffer),
;

/// `From<Vec<u8>>` of `Bytes` gives a buffer that holds the bytes of the vector.
#[verifier::external_body]
pub(crate) fn bytes_from_vec(bytes: Vec<u8>) -> (r: Bytes)
    ensures
        octets(r) == bytes@,
{
    Bytes::from(bytes)
}

/// `AsRef<[u8]>` of `Bytes` gives the bytes held.
#[verifier::external_body]
pub(crate) fn bytes_as_slice(buffer: &Bytes) -> (r: &[u8])
    ensures
        r@ == octets(*buffer),
{
    buffer.as_ref()
}

/// Tells whether two buffers hold the same bytes.
pub fn same_bytes(a: &Bytes, b: &Bytes) -> (r: bool)
    ensures
        r == (octets(*a) == octets(*b)),
{
    let left = bytes_as_slice(a);
    let right = bytes_as_slice(b);
    if left.len() != right.len() {
        return false;
    }
    let mut i: usize = 0;
    while i < left.len()
        invariant
            i <= left@.len(),
            left@.len() == right@.len(),
            left@ == octets(*a),
            right@ == octets(*b),
            forall|k: int| 0 <= k < i ==> #[trigger] left@[k] == right@[k],
        decreases left@.len() - i,
    {
        if left[i] != right[i] {
            return false;
        }
        i += 1;
    }
    proof {
        assert(left@ =~= right@);
    }
    true
}

} // verus!
