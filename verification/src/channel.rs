//! The fan-out channel of a room and the source of participant
//! identifiers. Both are provided by other crates; what this library
//! relies on about them is stated here and nowhere proved.

use vstd::prelude::*;
use vstd::utf8::*;
use tokio::sync::broadcast::{Receiver, Sender};
use crate::protocol::ServerMessage;

verus! {

/// Publishing half of a `tokio` broadcast channel. Its contents are shared
/// with every other handle of the channel and are not visible here.
#[verifier::external_type_specification]
#[verifier::external_body]
#[verifier::reject_recursive_types(T)]
pub struct ExSender<T>(tokio::sync::broadcast::Sender<T>);

/// Subscribing half of a `tokio` broadcast channel.
#[verifier::external_type_specification]
#[verifier::external_body]
#[verifier::reject_recursive_types(T)]
pub struct ExReceiver<T>(tokio::sync::broadcast::Receiver<T>);

/// Whether two publish handles belong to one channel: the answer of
/// `Sender::same_channel`.
pub uninterp spec fn same_channel(a: Sender<ServerMessage>, b: Sender<ServerMessage>) -> bool;

/// The capacity that was asked for when the channel of a publish handle
/// was created: the argument of `broadcast::channel`. The channel itself
/// rounds it up to a power of two, so this is the least number of pending
/// messages that it keeps for a subscriber, not the exact one.
pub uninterp spec fn backlog_limit(tx: Sender<ServerMessage>) -> nat;

/// Creates a channel with `broadcast::channel` and keeps its publish handle;
/// the first subscription is dropped at once, so the channel starts without
/// subscribers. The outside function panics on a capacity of zero or above
/// `usize::MAX / 2`, which the precondition leaves out. The contract only
/// records the capacity that was asked for.
#[verifier::external_body]
pub(crate) fn open_channel(capacity: usize) -> (tx: Sender<ServerMessage>)
    requires
        0 < capacity <= usize::MAX / 2,
    ensures
        backlog_limit(tx) == capacity,
{
    let (tx, _rx) = tokio::sync::broadcast::channel(capacity);
    tx
}

/// Hands `msg` to `Sender::send`, which queues it for every current
/// subscriber and fails when there is none. The outcome depends on who else
/// holds the channel, so it is dropped and nothing is claimed.
#[verifier::external_body]
pub(crate) fn publish(tx: &Sender<ServerMessage>, msg: ServerMessage) {
    let _ = tx.send(msg);
}

/// `Sender::clone`: the copy is a handle of the same channel, and so of a
/// channel of the same capacity.
#[verifier::external_body]
pub(crate) fn share(tx: &Sender<ServerMessage>) -> (copy: Sender<ServerMessage>)
    ensures
        same_channel(*tx, copy),
        backlog_limit(copy) == backlog_limit(*tx),
{
    tx.clone()
}

/// `Sender::subscribe`: a new subscription that sees what is published from
/// now on. Nothing is claimed of it. The outside function panics only when
/// the channel already has `usize::MAX / 4` subscribers, more than memory
/// can hold.
#[verifier::external_body]
pub(crate) fn subscribe(tx: &Sender<ServerMessage>) -> (rx: Receiver<ServerMessage>) {
    tx.subscribe()
}

/// `Sender::same_channel`.
#[verifier::external_body]
pub(crate) fn shares_channel(a: &Sender<ServerMessage>, b: &Sender<ServerMessage>) -> (same: bool)
    ensures
        same == same_channel(*a, *b),
{
    a.same_channel(b)
}

/// A random version 4 identifier from `Uuid::new_v4`, in the text form that
/// `Uuid` displays: 36 ASCII characters, digits in lower case with hyphens
/// between the groups. Which identifier comes is left open. The outside
/// function panics where the system has no random numbers to give.
#[verifier::external_body]
pub(crate) fn fresh_identifier() -> (id: String)
    ensures
        id@.len() == 36,
        is_ascii_chars(id@),
{
    uuid::Uuid::new_v4().to_string()
}

} // verus!
