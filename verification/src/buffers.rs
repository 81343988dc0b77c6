//! The byte buffers of the `bytes` crate that hold compiled code: a growable
//! `BytesMut` while code is written, and a frozen `Bytes` while it runs.

use bytes::{BufMut, Bytes, BytesMut};
use vstd::prelude::*;

verus! {

#[verifier::external_type_specification]
#[verifier::external_body]
pub struct ExBytesMut(BytesMut);

#[verifier::external_type_specification]
#[verifier::external_body]
pub struct ExBytes(Bytes);

/// The bytes a growable buffer holds, in order.
pub uninterp spec fn bytes_mut_view(b: BytesMut) -> Seq<u8>;

/// The bytes a frozen buffer holds, in order.
pub uninterp spec fn bytes_view(b: Bytes) -> Seq<u8>;

/// `BytesMut::new`: an empty buffer.
#[verifier::external_body]
pub(crate) fn bytes_mut_new() -> (r: BytesMut)
    ensures
        bytes_mut_view(r) == Seq::<u8>::empty(),
{
    BytesMut::new()
}

/// `BytesMut::from(&[u8])`: a buffer that holds a copy of the slice.
#[verifier::external_body]
pub(crate) fn bytes_mut_from_slice(s: &[u8]) -> (r: BytesMut)
    ensures
        bytes_mut_view(r) == s@,
{
    BytesMut::from(s)
}

/// `BufMut::put_u8` on a `BytesMut`: appends one byte. The buffer panics
/// when its length would pass `usize::MAX`, which `requires` leaves out.
#[verifier::external_body]
pub(crate) fn bytes_mut_put_u8(b: &mut BytesMut, x: u8)
    requires
        bytes_mut_view(*old(b)).len() < usize::MAX,
    ensures
        bytes_mut_view(*final(b)) == bytes_mut_view(*old(b)).push(x),
{
    b.put_u8(x)
}

/// `BytesMut::extend_from_slice`: appends the slice's bytes. The buffer
/// panics when its length would pass `usize::MAX`, which `requires` leaves out.
#[verifier::external_body]
pub(crate) fn bytes_mut_extend(b: &mut BytesMut, s: &[u8])
    requires
        bytes_mut_view(*old(b)).len() + s@.len() <= usize::MAX,
    ensures
        bytes_mut_view(*final(b)) == bytes_mut_view(*old(b)) + s@,
{
    b.extend_from_slice(s)
}

/// `BytesMut::len`: the number of bytes held.
#[verifier::external_body]
pub(crate) fn bytes_mut_len(b: &BytesMut) -> (r: usize)
    ensures
        r == bytes_mut_view(*b).len(),
{
    b.len()
}


/// Indexing a `BytesMut` (through its mutable slice) to overwrite one byte.
#[verifier::external_body]
pub(crate) fn bytes_mut_set(b: &mut BytesMut, i: usize, x: u8)
    requires
        i < bytes_mut_view(*old(b)).len(),
    ensures
        bytes_mut_view(*final(b)) == bytes_mut_view(*old(b)).update(i as int, x),
{
    b[i] = x;
}

/// `BytesMut::to_vec` (through its slice): a vector of the same bytes.
#[verifier::external_body]
pub(crate) fn bytes_mut_to_vec(b: &BytesMut) -> (r: Vec<u8>)
    ensures
        r@ == bytes_mut_view(*b),
{
    b.to_vec()
}

/// `BytesMut::freeze`: the same bytes as an immutable buffer.
#[verifier::external_body]
pub(crate) fn bytes_mut_freeze(b: BytesMut) -> (r: Bytes)
    ensures
        bytes_view(r) == bytes_mut_view(b),
{
    b.freeze()
}


/// `Bytes::len`: the number of bytes held.
#[verifier::external_body]
pub(crate) fn bytes_len(b: &Bytes) -> (r: usize)
    ensures
        r == bytes_view(*b).len(),
{
    b.len()
}

/// Indexing a `Bytes` (through its slice) to read one byte.
#[verifier::external_body]
pub(crate) fn bytes_get(b: &Bytes, i: usize) -> (r: u8)
    requires
        i < bytes_view(*b).len(),
    ensures
        r == bytes_view(*b)[i as int],
{
    b[i]
}

/// `Bytes::to_vec` (through its slice): a vector of the same bytes.
#[verifier::external_body]
pub(crate) fn bytes_to_vec(b: &Bytes) -> (r: Vec<u8>)
    ensures
        r@ == bytes_view(*b),
{
    b.to_vec()
}

/// `BytesMut::from(&[u8])` on the slice of a `Bytes`: a growable copy.
#[verifier::external_body]
pub(crate) fn bytes_mut_from_bytes(b: &Bytes) -> (r: BytesMut)
    ensures
        bytes_mut_view(r) == bytes_view(*b),
{
    BytesMut::from(&b[..])
}


} // verus!
