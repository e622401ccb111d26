//! The growable byte buffer that request bytes accumulate in.
use tokio_core::io::EasyBuf;
use vstd::prelude::*;

verus! {

#[verifier::external_type_specification]
#[verifier::external_body]
pub struct ExEasyBuf(EasyBuf);

/// The bytes that an `EasyBuf` holds, in order.
pub uninterp spec fn buf_bytes(b: EasyBuf) -> Seq<u8>;

/// Relies on `EasyBuf::as_slice`: a view of exactly the bytes the buffer holds.
#[verifier::external_body]
pub(crate) fn as_bytes(b: &EasyBuf) -> (r: &[u8])
    ensures
        r@ == buf_bytes(*b),
{
    b.as_slice()
}

/// Relies on `EasyBuf::drain_to`: the first `at` bytes move to the returned
/// buffer and the rest stay, in order. It panics when `at` exceeds the length.
#[verifier::external_body]
pub(crate) fn drain_prefix(b: &mut EasyBuf, at: usize) -> (r: EasyBuf)
    requires
        at <= buf_bytes(*old(b)).len(),
    ensures
        buf_bytes(r) == buf_bytes(*old(b)).take(at as int),
        buf_bytes(*final(b)) == buf_bytes(*old(b)).skip(at as int),
{
    b.drain_to(at)
}

/// Relies on `EasyBuf::get_mut` and `Vec::extend_from_slice`: the buffer keeps
/// its bytes and gains `extra` at the end.
#[verifier::external_body]
pub(crate) fn append_bytes(b: &mut EasyBuf, extra: &[u8])
    ensures
        buf_bytes(*final(b)) == buf_bytes(*old(b)) + extra@,
{
    b.get_mut().extend_from_slice(extra)
}

} // verus!
