//! Durable queues: FIFO, LIFO and priority, kept in a remote store.
//!
//! A handle owns the connection and names the queue by its key, but it does
//! no I/O. Each operation is two steps: the handle says which command goes to
//! the store, and an outcome function says what the store's reply means. The
//! owner of the handle sends the command over the handle's connection in
//! between.
//!
//! A reply that reports a failure leaves the handle as it was: the next
//! operation may succeed.

use crate::collections::codec::{CodecSerialization, Encodable};
use crate::collections::store::{StoreCommand, StoreCommandView, StoreReply, StoreReplyView};
use crate::error::QueueError;
use vstd::prelude::*;

verus! {

/// The score of an element pushed without a priority.
pub const DEFAULT_PRIORITY: i32 = 1;

/// The text of the error for a reply of a kind that the operation cannot
/// have been answered with.
pub const UNEXPECTED_REPLY: &'static str = "unexpected reply from the store";

/// A durable queue over a list in the store. Elements are pushed at the
/// left end; which end a pop takes from is the implementor's choice, told by
/// `pop_command`.
pub trait HasAsyncQueue<T: Clone + Encodable> {
    /// The key that names the queue in the store.
    spec fn store_key(&self) -> Seq<char>;

    /// The command by which this kind of queue takes an element out.
    spec fn pop_command(key: Seq<char>) -> StoreCommandView;

    /// The command that stores `element`: its encoding goes to the left end
    /// of the list.
    fn push(&self, element: &Box<T>) -> (command: StoreCommand)
        requires
            self.store_key().len() > 0,
            T::representable(element@),
        ensures
            command@ == (StoreCommandView::ListPushLeft {
                key: self.store_key(),
                payload: T::encoding(element@),
            }),
    ;

    /// The command that takes the next element out.
    fn pop(&self) -> (command: StoreCommand)
        requires
            self.store_key().len() > 0,
        ensures
            command@ == Self::pop_command(self.store_key()),
    ;

    /// The command that empties the queue: it deletes the key.
    fn clear(&self) -> (command: StoreCommand)
        requires
            self.store_key().len() > 0,
        ensures
            command@ == (StoreCommandView::Delete { key: self.store_key() }),
    ;

    /// The command that asks for the number of elements.
    fn len(&self) -> (command: StoreCommand)
        requires
            self.store_key().len() > 0,
        ensures
            command@ == (StoreCommandView::ListLength { key: self.store_key() }),
    ;
}

/// A durable queue over a sorted set in the store: the element with the
/// lowest score leaves first.
pub trait HasAsyncPriorityQueue<T: Clone + Encodable> {
    /// The key that names the queue in the store.
    spec fn store_key(&self) -> Seq<char>;

    /// The command that stores `element` with `priority` as its score, or
    /// with `DEFAULT_PRIORITY` where none is given.
    fn push(&self, element: &Box<T>, priority: Option<i32>) -> (command: StoreCommand)
        requires
            self.store_key().len() > 0,
            T::representable(element@),
        ensures
            command@ == (StoreCommandView::SortedSetAdd {
                key: self.store_key(),
                score: score_of(priority),
                member: T::encoding(element@),
            }),
    ;

    /// The command that reads and removes the element with the lowest
    /// score: one command, hence one step of the store, so that no two
    /// poppers are handed the same element.
    fn pop(&self) -> (command: StoreCommand)
        requires
            self.store_key().len() > 0,
        ensures
            command@ == (StoreCommandView::SortedSetTakeLowest { key: self.store_key() }),
    ;

    /// The command that empties the queue: it deletes the key.
    fn clear(&self) -> (command: StoreCommand)
        requires
            self.store_key().len() > 0,
        ensures
            command@ == (StoreCommandView::Delete { key: self.store_key() }),
    ;

    /// The command that asks for the number of elements.
    fn len(&self) -> (command: StoreCommand)
        requires
            self.store_key().len() > 0,
        ensures
            command@ == (StoreCommandView::SortedSetCardinality { key: self.store_key() }),
    ;
}

/// The score under which an element pushed with `priority` is stored.
pub open spec fn score_of(priority: Option<i32>) -> int {
    match priority {
        Some(score) => score as int,
        None => DEFAULT_PRIORITY as int,
    }
}

/// The value that a pop hands out when the store answers `reply`, if the
/// pop succeeds.
pub open spec fn popped_value<T: Encodable>(reply: StoreReplyView) -> Option<T::V> {
    match reply {
        StoreReplyView::Payload(bytes) => T::decoding(bytes),
        _ => None,
    }
}

/// What `reply` means for a push: done, unless the store failed.
pub fn push_outcome(reply: StoreReply) -> (r: Result<(), QueueError>)
    ensures
        match reply@ {
            StoreReplyView::Failed(text) => r matches Err(QueueError::IoError(t)) && t@ == text,
            _ => r == Ok::<(), QueueError>(()),
        },
{
    match reply {
        StoreReply::Failed(text) => Err(QueueError::IoError(text)),
        _ => Ok(()),
    }
}

/// What `reply` means for a clear: done, unless the store failed.
pub fn clear_outcome(reply: StoreReply) -> (r: Result<(), QueueError>)
    ensures
        match reply@ {
            StoreReplyView::Failed(text) => r matches Err(QueueError::IoError(t)) && t@ == text,
            _ => r == Ok::<(), QueueError>(()),
        },
{
    match reply {
        StoreReply::Failed(text) => Err(QueueError::IoError(text)),
        _ => Ok(()),
    }
}

/// What `reply` means for a len: the number that the store gave. A reply
/// of another kind is a failure of the protocol.
pub fn len_outcome(reply: StoreReply) -> (r: Result<usize, QueueError>)
    ensures
        match reply@ {
            StoreReplyView::Length(n) => r == Ok::<usize, QueueError>(n as usize),
            StoreReplyView::Failed(text) => r matches Err(QueueError::IoError(t)) && t@ == text,
            _ => r matches Err(QueueError::IoError(t)) && t@ == UNEXPECTED_REPLY@,
        },
{
    match reply {
        StoreReply::Length(n) => Ok(n),
        StoreReply::Failed(text) => Err(QueueError::IoError(text)),
        _ => Err(QueueError::IoError(UNEXPECTED_REPLY.to_owned())),
    }
}

/// What the decoder's answer means for a pop that took `payload_len` bytes
/// from the store.
///
/// A decoded element is handed out as it is. A failure to decode no bytes
/// at all means that the queue was empty; a failure to decode any other
/// bytes is a codec error that carries the decoder's error as it came.
pub fn decoded_outcome<T: Encodable>(
    payload_len: usize,
    decoded: Result<T, parity_scale_codec::Error>,
) -> (r: Result<Box<T>, QueueError>)
    ensures
        match decoded {
            Ok(element) => r matches Ok(boxed) && *boxed == element,
            Err(e) => if payload_len == 0 {
                r == Err::<Box<T>, QueueError>(QueueError::QueueEmpty)
            } else {
                r matches Err(QueueError::CodecError(carried)) && carried == e
            },
        },
{
    match decoded {
        Ok(element) => Ok(Box::new(element)),
        Err(e) => if payload_len == 0 {
            Err(QueueError::QueueEmpty)
        } else {
            Err(QueueError::CodecError(e))
        },
    }
}

/// What `reply` means for a pop.
///
/// Bytes that decode give the element. No item, or empty bytes that do not
/// decode, mean that the queue was empty. Other bytes that do not decode are
/// a codec error; `decoded_outcome`, which this function hands the decoder's
/// answer to, says that the error inside is the decoder's own. A failed
/// store is an I/O error with the store's text, and a reply of another kind
/// is a failure of the protocol.
pub fn pop_outcome<T: Encodable>(reply: StoreReply) -> (r: Result<Box<T>, QueueError>)
    ensures
        r is Ok <==> popped_value::<T>(reply@) is Some,
        r matches Ok(element) ==> popped_value::<T>(reply@) == Some(element@),
        match reply@ {
            StoreReplyView::Payload(bytes) => T::decoding(bytes) is None ==> if bytes.len() == 0 {
                r == Err::<Box<T>, QueueError>(QueueError::QueueEmpty)
            } else {
                r matches Err(QueueError::CodecError(_))
            },
            StoreReplyView::Missing => r == Err::<Box<T>, QueueError>(QueueError::QueueEmpty),
            StoreReplyView::Failed(text) => r matches Err(QueueError::IoError(t)) && t@ == text,
            _ => r matches Err(QueueError::IoError(t)) && t@ == UNEXPECTED_REPLY@,
        },
{
    match reply {
        StoreReply::Payload(bytes) => decoded_outcome(bytes.len(), T::from_bytes(bytes.as_slice())),
        StoreReply::Missing => Err(QueueError::QueueEmpty),
        StoreReply::Failed(text) => Err(QueueError::IoError(text)),
        _ => Err(QueueError::IoError(UNEXPECTED_REPLY.to_owned())),
    }
}

/// The handle of a durable LIFO queue: the newest element leaves first.
pub struct RedisLifoQueue<'a, C> {
    pub redis_connection: C,
    pub key: &'a str,
}

impl<'a, C> RedisLifoQueue<'a, C> {
    /// A handle is well formed when its key is not empty.
    pub open spec fn well_formed(&self) -> bool {
        self.key@.len() > 0
    }

    /// The handle of the queue named `key`, on a connection that it takes
    /// over.
    pub fn new(redis_connection: C, key: &'a str) -> (q: RedisLifoQueue<'a, C>)
        requires
            key@.len() > 0,
        ensures
            q.well_formed(),
            q.redis_connection == redis_connection,
            q.key@ == key@,
    {
        RedisLifoQueue { redis_connection, key }
    }
}

impl<'a, C, T: Clone + Encodable> CodecSerialization<T> for RedisLifoQueue<'a, C> {
    open spec fn kind_name() -> Seq<char> {
        "redis-lifo-queue"@
    }

    fn name(&self) -> (n: &'static str) {
        "redis-lifo-queue"
    }
}

impl<'a, C, T: Clone + Encodable> HasAsyncQueue<T> for RedisLifoQueue<'a, C> {
    open spec fn store_key(&self) -> Seq<char> {
        self.key@
    }

    open spec fn pop_command(key: Seq<char>) -> StoreCommandView {
        StoreCommandView::ListPopLeft { key }
    }

    fn push(&self, element: &Box<T>) -> (command: StoreCommand) {
        let payload = self.encode(element);
        StoreCommand::ListPushLeft { key: self.key.to_owned(), payload }
    }

    fn pop(&self) -> (command: StoreCommand) {
        StoreCommand::ListPopLeft { key: self.key.to_owned() }
    }

    fn clear(&self) -> (command: StoreCommand) {
        StoreCommand::Delete { key: self.key.to_owned() }
    }

    fn len(&self) -> (command: StoreCommand) {
        StoreCommand::ListLength { key: self.key.to_owned() }
    }
}

/// The handle of a durable FIFO queue: the oldest element leaves first.
pub struct RedisFifoQueue<'a, C> {
    pub redis_connection: C,
    pub key: &'a str,
}

impl<'a, C> RedisFifoQueue<'a, C> {
    /// A handle is well formed when its key is not empty.
    pub open spec fn well_formed(&self) -> bool {
        self.key@.len() > 0
    }

    /// The handle of the queue named `key`, on a connection that it takes
    /// over.
    pub fn new(redis_connection: C, key: &'a str) -> (q: RedisFifoQueue<'a, C>)
        requires
            key@.len() > 0,
        ensures
            q.well_formed(),
            q.redis_connection == redis_connection,
            q.key@ == key@,
    {
        RedisFifoQueue { redis_connection, key }
    }
}

impl<'a, C, T: Clone + Encodable> CodecSerialization<T> for RedisFifoQueue<'a, C> {
    open spec fn kind_name() -> Seq<char> {
        "redis-fifo-queue"@
    }

    fn name(&self) -> (n: &'static str) {
        "redis-fifo-queue"
    }
}

impl<'a, C, T: Clone + Encodable> HasAsyncQueue<T> for RedisFifoQueue<'a, C> {
    open spec fn store_key(&self) -> Seq<char> {
        self.key@
    }

    open spec fn pop_command(key: Seq<char>) -> StoreCommandView {
        StoreCommandView::ListPopRight { key }
    }

    fn push(&self, element: &Box<T>) -> (command: StoreCommand) {
        let payload = self.encode(element);
        StoreCommand::ListPushLeft { key: self.key.to_owned(), payload }
    }

    fn pop(&self) -> (command: StoreCommand) {
        StoreCommand::ListPopRight { key: self.key.to_owned() }
    }

    fn clear(&self) -> (command: StoreCommand) {
        StoreCommand::Delete { key: self.key.to_owned() }
    }

    fn len(&self) -> (command: StoreCommand) {
        StoreCommand::ListLength { key: self.key.to_owned() }
    }
}

/// The handle of a durable priority queue: the element with the lowest
/// score leaves first.
pub struct RedisPriorityQueue<'a, C> {
    pub redis_connection: C,
    pub key: &'a str,
}

impl<'a, C> RedisPriorityQueue<'a, C> {
    /// A handle is well formed when its key is not empty.
    pub open spec fn well_formed(&self) -> bool {
        self.key@.len() > 0
    }

    /// The handle of the queue named `key`, on a connection that it takes
    /// over.
    pub fn new(redis_connection: C, key: &'a str) -> (q: RedisPriorityQueue<'a, C>)
        requires
            key@.len() > 0,
        ensures
            q.well_formed(),
            q.redis_connection == redis_connection,
            q.key@ == key@,
    {
        RedisPriorityQueue { redis_connection, key }
    }
}

impl<'a, C, T: Clone + Encodable> CodecSerialization<T> for RedisPriorityQueue<'a, C> {
    open spec fn kind_name() -> Seq<char> {
        "redis-priority-queue"@
    }

    fn name(&self) -> (n: &'static str) {
        "redis-priority-queue"
    }
}

impl<'a, C, T: Clone + Encodable> HasAsyncPriorityQueue<T> for RedisPriorityQueue<'a, C> {
    open spec fn store_key(&self) -> Seq<char> {
        self.key@
    }

    fn push(&self, element: &Box<T>, priority: Option<i32>) -> (command: StoreCommand) {
        let member = self.encode(element);
        let score: i32 = match priority {
            Some(given) => given,
            None => DEFAULT_PRIORITY,
        };
        StoreCommand::SortedSetAdd { key: self.key.to_owned(), score, member }
    }

    fn pop(&self) -> (command: StoreCommand) {
        StoreCommand::SortedSetTakeLowest { key: self.key.to_owned() }
    }

    fn clear(&self) -> (command: StoreCommand) {
        StoreCommand::Delete { key: self.key.to_owned() }
    }

    fn len(&self) -> (command: StoreCommand) {
        StoreCommand::SortedSetCardinality { key: self.key.to_owned() }
    }
}

} // verus!
