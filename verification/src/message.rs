//! Tenant identifiers and length-bounded messages.

use vstd::prelude::*;
use vstd::slice::slice_to_vec;

verus! {

/// The longest message, in bytes, that a queue takes.
pub const MAX_MESSAGE_LEN: u32 = 256;

/// Identifies the tenant that owns a sub-queue.
#[derive(Clone, Copy, Debug, PartialEq, Eq, Structural)]
pub struct ParaId(pub u32);

/// The one way a message is turned away before it reaches a queue.
#[derive(Clone, Copy, Debug, PartialEq, Eq, Structural)]
pub enum EnqueueError {
    /// The message is longer than `MAX_MESSAGE_LEN`.
    MessageTooLong,
}

/// An immutable byte string of at most `MAX_MESSAGE_LEN` bytes.
#[derive(Debug)]
pub struct BoundedMessage {
    bytes: Vec<u8>,
}

impl View for BoundedMessage {
    type V = Seq<u8>;

    closed spec fn view(&self) -> Seq<u8> {
        self.bytes@
    }
}

impl BoundedMessage {
    #[verifier::type_invariant]
    spec fn bounded(self) -> bool {
        self.bytes@.len() <= MAX_MESSAGE_LEN
    }

    /// Checks the length at the boundary: a message is built from `bytes` exactly when they
    /// number at most `MAX_MESSAGE_LEN`.
    pub fn try_from_slice(bytes: &[u8]) -> (made: Result<BoundedMessage, EnqueueError>)
        ensures
            bytes@.len() <= MAX_MESSAGE_LEN ==> made.is_ok() && made.unwrap()@ == bytes@,
            bytes@.len() > MAX_MESSAGE_LEN ==> made == Err::<BoundedMessage, EnqueueError>(
                EnqueueError::MessageTooLong,
            ),
    {
        if bytes.len() > MAX_MESSAGE_LEN as usize {
            Err(EnqueueError::MessageTooLong)
        } else {
            Ok(BoundedMessage { bytes: slice_to_vec(bytes) })
        }
    }

    pub fn len(&self) -> (n: usize)
        ensures
            n == self@.len(),
            n <= MAX_MESSAGE_LEN,
    {
        proof {
            use_type_invariant(self);
        }
        self.bytes.len()
    }

    pub fn as_slice(&self) -> (bytes: &[u8])
        ensures
            bytes@ == self@,
            bytes@.len() <= MAX_MESSAGE_LEN,
    {
        proof {
            use_type_invariant(self);
        }
        self.bytes.as_slice()
    }

    pub fn to_vec(&self) -> (bytes: Vec<u8>)
        ensures
            bytes@ == self@,
            bytes@.len() <= MAX_MESSAGE_LEN,
    {
        proof {
            use_type_invariant(self);
        }
        slice_to_vec(self.bytes.as_slice())
    }
}

/// The byte strings that `msgs` stand for, in the same order.
pub open spec fn message_views(msgs: Seq<BoundedMessage>) -> Seq<Seq<u8>> {
    msgs.map_values(|m: BoundedMessage| m@)
}

impl Clone for BoundedMessage {
    fn clone(&self) -> (copy: BoundedMessage)
        ensures
            copy@ == self@,
    {
        proof {
            use_type_invariant(self);
        }
        BoundedMessage { bytes: slice_to_vec(self.bytes.as_slice()) }
    }
}

} // verus!
