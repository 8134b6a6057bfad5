//! The growable byte buffer that collects a connection's inbound bytes,
//! `bytes::BytesMut`, as the handshake sees it: a sequence of bytes.
use bytes::BytesMut;
use vstd::prelude::*;

verus! {

#[verifier::external_type_specification]
#[verifier::external_body]
pub struct ExBytesMut(bytes::BytesMut);

/// The bytes that a `BytesMut` holds, in order.
pub uninterp spec fn buffered(b: bytes::BytesMut) -> Seq<u8>;

/// Relies on `BytesMut::new`: a new buffer holds no bytes.
pub assume_specification[ bytes::BytesMut::new ]() -> (r: bytes::BytesMut)
    ensures
        buffered(r) == Seq::<u8>::empty(),
;

/// Relies on `BytesMut::extend_from_slice`: the slice's bytes are appended.
/// It reserves room first, which panics when the new length overflows the
/// largest allocation, so that is excluded.
pub assume_specification[ bytes::BytesMut::extend_from_slice ](
    b: &mut bytes::BytesMut,
    extend: &[u8],
)
    requires
        buffered(*old(b)).len() + extend@.len() <= isize::MAX,
    ensures
        buffered(*final(b)) == buffered(*old(b)) + extend@,
;

/// Relies on `BytesMut::clear`: all bytes are removed.
pub assume_specification[ bytes::BytesMut::clear ](b: &mut bytes::BytesMut)
    ensures
        buffered(*final(b)) == Seq::<u8>::empty(),
;

/// Relies on `BytesMut::split_to`: the first `at` bytes are returned and the
/// rest stay. It panics when `at` is past the end, so that is excluded.
pub assume_specification[ bytes::BytesMut::split_to ](b: &mut bytes::BytesMut, at: usize) -> (r:
    bytes::BytesMut)
    requires
        at <= buffered(*old(b)).len(),
    ensures
        buffered(r) == buffered(*old(b)).subrange(0, at as int),
        buffered(*final(b)) == buffered(*old(b)).subrange(at as int, buffered(*old(b)).len() as int),
;

/// Relies on `<BytesMut as AsRef<[u8]>>::as_ref`: a slice of the bytes held.
#[verifier::external_body]
pub(crate) fn held(b: &BytesMut) -> (r: &[u8])
    ensures
        r@ == buffered(*b),
{
    b.as_ref()
}

/// Relies on `impl From<BytesMut> for Vec<u8>`: the same bytes, as a vector.
#[verifier::external_body]
pub(crate) fn into_vec(b: BytesMut) -> (r: Vec<u8>)
    ensures
        r@ == buffered(b),
{
    Vec::from(b)
}

} // verus!
