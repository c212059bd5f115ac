//! The ways a queue operation can fail.

use vstd::prelude::*;

verus! {

/// The decoder's own error, carried through unread.
#[verifier::external_type_specification]
#[verifier::external_body]
pub struct ExCodecFailure(parity_scale_codec::Error);

/// Why a queue operation did not succeed. Nothing is retried inside the
/// queue: the caller decides what to do next.
#[derive(Debug, PartialEq, Eq)]
pub enum QueueError {
    /// A push met an in-memory queue already at capacity.
    QueueFull,
    /// A pop or a clear met an empty queue.
    QueueEmpty,
    /// Bytes taken from the store were no valid encoding; the decoder's
    /// error is passed on as it came.
    CodecError(parity_scale_codec::Error),
    /// The store failed or answered out of protocol; the message is passed
    /// on as it came.
    IoError(String),
}

} // verus!
