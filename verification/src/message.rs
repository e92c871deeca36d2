//! The unit that the relay forwards: an owned sequence of bytes.

use vstd::prelude::*;
use vstd::slice::slice_to_vec;

verus! {

/// One message: an immutable, ordered sequence of bytes.
///
/// A message has no identity beyond its content. It is created from the
/// payload that an input endpoint hands over, and is moved from there on.
#[derive(Debug, PartialEq, Eq)]
pub struct Message {
    bytes: Vec<u8>,
}

impl View for Message {
    type V = Seq<u8>;

    closed spec fn view(&self) -> Seq<u8> {
        self.bytes@
    }
}

impl Message {
    /// Copies a borrowed payload into a message of its own.
    ///
    /// The payload that an input endpoint passes to its callback is valid only
    /// during that call, so nothing of it may be kept: the message owns a copy.
    pub fn copy_of(payload: &[u8]) -> (message: Message)
        ensures
            message@ == payload@,
    {
        Message { bytes: slice_to_vec(payload) }
    }

    /// Takes over a buffer that the caller already owns.
    pub fn from_bytes(bytes: Vec<u8>) -> (message: Message)
        ensures
            message@ == bytes@,
    {
        Message { bytes }
    }

    /// The bytes of the message, in order.
    pub fn as_slice(&self) -> (bytes: &[u8])
        ensures
            bytes@ == self@,
    {
        self.bytes.as_slice()
    }

    /// The number of bytes in the message.
    pub fn len(&self) -> (n: usize)
        ensures
            n == self@.len(),
    {
        self.bytes.len()
    }
}

} // verus!
