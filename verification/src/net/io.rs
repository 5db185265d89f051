//! What a socket operation returned, as plain values.

use vstd::prelude::*;
use vstd::slice::{slice_subrange, slice_to_vec};

verus! {

/// The kinds of failure that the servers tell apart.
#[derive(Clone, Copy, Debug, PartialEq, Eq, Structural)]
pub enum IoErrorKind {
    /// The stream ended where more was expected.
    UnexpectedEof,
    /// The operation would have had to wait.
    WouldBlock,
    /// Any other failure.
    Other,
}

/// A failed socket operation: its kind and the text of the cause.
#[derive(Debug)]
pub struct IoFailure {
    pub kind: IoErrorKind,
    pub cause: String,
}

/// The first `size` bytes of a buffer; all of it when it holds fewer.
pub open spec fn filled(buffer: Seq<u8>, size: usize) -> Seq<u8> {
    if size <= buffer.len() {
        buffer.subrange(0, size as int)
    } else {
        buffer
    }
}

/// The part of a buffer that an operation filled: its first `size` bytes,
/// no more and no fewer.
pub fn filled_bytes(buffer: &[u8], size: usize) -> (bytes: Vec<u8>)
    ensures
        bytes@ == filled(buffer@, size),
{
    if size <= buffer.len() {
        slice_to_vec(slice_subrange(buffer, 0, size))
    } else {
        slice_to_vec(buffer)
    }
}

} // verus!
