//! The destination of a read: tokio's `ReadBuf`, a byte buffer that is filled
//! from the front and knows how much room is left.
use std::task::Poll;
use tokio::io::ReadBuf;
use vstd::prelude::*;

verus! {

/// `tokio::io::ReadBuf`. What it holds is spoken of through `filled` and
/// `capacity`.
#[verifier::external_type_specification]
#[verifier::external_body]
pub struct ExReadBuf<'a>(ReadBuf<'a>);

/// `std::io::Error`, the error type in the signature of a read. No read of a
/// rope makes one.
#[verifier::external_type_specification]
#[verifier::external_body]
pub struct ExIoError(std::io::Error);

/// `std::task::Poll`, with its variants `Ready` and `Pending`.
#[verifier::external_type_specification]
#[verifier::reject_recursive_types(T)]
pub struct ExPoll<T>(Poll<T>);

/// The bytes in the filled region of a `ReadBuf`, in order.
pub uninterp spec fn filled(buf: &ReadBuf<'_>) -> Seq<u8>;

/// The total capacity of a `ReadBuf`: the length of the memory it was made
/// over.
pub uninterp spec fn capacity(buf: &ReadBuf<'_>) -> nat;

/// The room left in a `ReadBuf`.
pub open spec fn room(buf: &ReadBuf<'_>) -> int {
    capacity(buf) - filled(buf).len()
}

/// `ReadBuf::remaining` of tokio: the capacity less the length of the filled
/// region, which is never longer than the capacity.
#[verifier::external_body]
pub(crate) fn remaining(buf: &ReadBuf<'_>) -> (left: usize)
    ensures
        left + filled(buf).len() == capacity(buf),
{
    buf.remaining()
}

/// `ReadBuf::put_slice` of tokio: copies `bytes` to the end of the filled
/// region, which grows by them. It panics when they do not fit in the room
/// that is left, so callers must show that they fit.
#[verifier::external_body]
pub(crate) fn put_slice(buf: &mut ReadBuf<'_>, bytes: &[u8])
    requires
        bytes@.len() <= room(old(buf)),
    ensures
        filled(final(buf)) == filled(old(buf)) + bytes@,
        capacity(final(buf)) == capacity(old(buf)),
{
    buf.put_slice(bytes)
}

} // verus!
