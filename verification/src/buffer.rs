use vstd::prelude::*;

use bytes::Bytes;

verus! {

// The payload of an RTP packet is held as a reference-counted, immutable
// byte buffer, so that the per-subscriber clone on the fan-out path is O(1)
// and copy-free. The buffer type comes from the `bytes` crate; the trusted
// items below give it contents.
#[verifier::external_type_specification]
#[verifier::external_body]
pub struct ExBytes(Bytes);

/// The byte contents of a shared payload buffer. A buffer is immutable, so
/// its contents are a function of the value alone.
pub uninterp spec fn payload_bytes(b: Bytes) -> Seq<u8>;

/// Relies on `<Bytes as From<Vec<u8>>>::from`: the new buffer holds exactly
/// the bytes of the vector.
#[verifier::external_body]
pub(crate) fn bytes_from_vec(v: Vec<u8>) -> (r: Bytes)
    ensures
        payload_bytes(r) == v@,
{
    Bytes::from(v)
}

/// Relies on `<Bytes as Clone>::clone`: the clone shares the same backing
/// storage and therefore holds the same bytes.
#[verifier::external_body]
pub(crate) fn bytes_clone(b: &Bytes) -> (r: Bytes)
    ensures
        payload_bytes(r) == payload_bytes(*b),
{
    b.clone()
}

/// Relies on `Bytes::len`: the length of the contents.
#[verifier::external_body]
pub(crate) fn bytes_len(b: &Bytes) -> (r: usize)
    ensures
        r == payload_bytes(*b).len(),
{
    b.len()
}

/// Relies on the `Deref<Target = [u8]>` impl of `Bytes`: reads the byte at
/// index `i`.
#[verifier::external_body]
pub(crate) fn bytes_get(b: &Bytes, i: usize) -> (r: u8)
    requires
        i < payload_bytes(*b).len(),
    ensures
        r == payload_bytes(*b)[i as int],
{
    b[i]
}

} // verus!
