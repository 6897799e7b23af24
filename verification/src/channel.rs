//! The reclamation channel: std's multi-producer channel, as far as the pool
//! and its handles use it.
//!
//! What travels over the channel is an `Option<T>`: `Some(object)` is an
//! object coming back for reuse, `None` is a marker saying that a counted
//! object will never come back.
//!
//! Each function here makes one call into `std::sync::mpsc`. What a channel
//! holds depends on every holder of a sender, on any thread, so a send and
//! a poll promise nothing about their results.

use vstd::prelude::*;
use std::sync::mpsc::Receiver;
use std::sync::mpsc::Sender;
use std::sync::mpsc::TryRecvError;

verus! {

/// `std::sync::mpsc::Sender`, the producing end of a channel. Opaque.
#[verifier::external_type_specification]
#[verifier::external_body]
#[verifier::reject_recursive_types(T)]
pub struct ExSender<T>(Sender<T>);

/// `std::sync::mpsc::Receiver`, the consuming end of a channel. Opaque.
#[verifier::external_type_specification]
#[verifier::external_body]
#[verifier::reject_recursive_types(T)]
pub struct ExReceiver<T>(Receiver<T>);

/// What one non-blocking look at the channel brought.
pub enum Polled<T> {
    /// A message was waiting: an object, or the marker `None`.
    Message(Option<T>),
    /// Nothing is waiting right now.
    Drained,
    /// Nothing is waiting and no sender is left.
    Disconnected,
}

/// `std::sync::mpsc::channel`: a new channel with its two ends.
#[verifier::external_body]
pub(crate) fn open<T>() -> (ends: (Sender<Option<T>>, Receiver<Option<T>>)) {
    std::sync::mpsc::channel()
}

/// `Sender::send`: hands `message` to the channel and says whether it was
/// taken. It is not taken when the receiver is gone; the message is dropped
/// in that case. Never blocks.
#[verifier::external_body]
pub(crate) fn send<T>(sender: &Sender<Option<T>>, message: Option<T>) -> (taken: bool) {
    sender.send(message).is_ok()
}

/// `Receiver::try_recv`: takes the message at the front of the channel if
/// one is waiting, and tells the two ways of finding none apart. Never
/// blocks.
#[verifier::external_body]
pub(crate) fn poll<T>(receiver: &Receiver<Option<T>>) -> (polled: Polled<T>) {
    match receiver.try_recv() {
        Ok(message) => Polled::Message(message),
        Err(TryRecvError::Empty) => Polled::Drained,
        Err(TryRecvError::Disconnected) => Polled::Disconnected,
    }
}

/// `Sender::clone`: one more sender for the same channel. A sender is
/// nothing but its channel, so the twin equals the sender it was made from.
#[verifier::external_body]
pub(crate) fn another<T>(sender: &Sender<Option<T>>) -> (twin: Sender<Option<T>>)
    ensures
        twin == *sender,
{
    sender.clone()
}

} // verus!
