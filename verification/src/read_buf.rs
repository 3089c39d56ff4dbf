//! What a reader left in the buffer it was given.
use tokio::io::ReadBuf;
use vstd::prelude::*;

use crate::bridge::BridgeEvent;
use crate::receiver::CopyEvent;

verus! {

/// The buffer that tokio's readers fill.
#[verifier::external_type_specification]
#[verifier::external_body]
pub struct ExReadBuf<'a>(ReadBuf<'a>);

/// The bytes that were put into a [`ReadBuf`].
pub uninterp spec fn read_buf_bytes(buf: ReadBuf<'_>) -> Seq<u8>;

/// The number of bytes that a [`ReadBuf`] was made to hold.
pub uninterp spec fn read_buf_limit(buf: ReadBuf<'_>) -> nat;

/// `ReadBuf::filled` returns the bytes that were put into the buffer.
pub assume_specification<'a, 'b>[ ReadBuf::<'a>::filled ](buf: &'b ReadBuf<'a>) -> (bytes:
    &'b [u8])
    ensures
        bytes@ == read_buf_bytes(*buf),
;

/// `ReadBuf::capacity` returns the length of the slice that the buffer was
/// made from.
pub assume_specification<'a>[ ReadBuf::<'a>::capacity ](buf: &ReadBuf<'a>) -> (capacity: usize)
    ensures
        capacity == read_buf_limit(*buf),
;

/// `ReadBuf::remaining` returns how many bytes of the capacity are not filled.
pub assume_specification<'a>[ ReadBuf::<'a>::remaining ](buf: &ReadBuf<'a>) -> (remaining: usize)
    ensures
        remaining == read_buf_limit(*buf) - read_buf_bytes(*buf).len(),
;

impl<'a, E> CopyEvent<'a, E> {
    /// The event that a reader has filled `buf`.
    pub fn from_read(buf: &'a ReadBuf<'_>) -> (event: CopyEvent<'a, E>)
        ensures
            (event is Read),
            event->Read_0@ == read_buf_bytes(*buf),
    {
        CopyEvent::Read(buf.filled())
    }
}

impl<E> BridgeEvent<E> {
    /// The event that a reader has filled `buf`.
    pub fn from_read(buf: &ReadBuf<'_>) -> (event: BridgeEvent<E>)
        ensures
            (event is Read),
            event->Read_n == read_buf_bytes(*buf).len(),
    {
        let n: usize = buf.capacity() - buf.remaining();
        BridgeEvent::Read { n }
    }
}

} // verus!
