//! The two bounded channels, as far as the worker and the adapter touch
//! them: a blocking send and a blocking receive of `std::sync::mpsc`.
//!
//! What a send or a receive answers depends on the thread at the other end,
//! so nothing is promised of it here; whoever calls one of them says what
//! holds for each answer.

use vstd::prelude::*;
use std::sync::mpsc::{Receiver, SyncSender};
use crate::event::Request;

verus! {

/// `std::sync::mpsc::SyncSender`, carried as an opaque value.
#[verifier::external_type_specification]
#[verifier::external_body]
#[verifier::reject_recursive_types(T)]
pub struct ExSyncSender<T>(SyncSender<T>);

/// `std::sync::mpsc::Receiver`, carried as an opaque value.
#[verifier::external_type_specification]
#[verifier::external_body]
#[verifier::reject_recursive_types(T)]
pub struct ExReceiver<T>(Receiver<T>);

/// `SyncSender::send`: waits while the channel is full, then queues `item`.
/// The answer is `false` when the receiver is gone and the item was dropped.
#[verifier::external_body]
pub(crate) fn send_on<T>(channel: &SyncSender<T>, item: T) -> (delivered: bool) {
    channel.send(item).is_ok()
}

/// `Receiver::recv`: waits for the next item. The answer is `None` when
/// every sender is gone and the channel is empty.
#[verifier::external_body]
pub(crate) fn receive_from<T>(channel: &Receiver<T>) -> (incoming: Option<T>) {
    channel.recv().ok()
}

/// The other end of a channel is gone.
#[derive(Clone, Copy, Debug, PartialEq, Eq, Structural)]
pub struct ChannelClosed;

/// What a submission comes to, given whether the send was delivered: a
/// send that was not delivered found the channel closed.
pub open spec fn submission_of(delivered: bool) -> Result<(), ChannelClosed> {
    if delivered {
        Ok(())
    } else {
        Err(ChannelClosed)
    }
}

/// What a submission comes to, given whether the send was delivered.
pub fn submission(delivered: bool) -> (taken: Result<(), ChannelClosed>)
    ensures
        taken == submission_of(delivered),
{
    if delivered {
        Ok(())
    } else {
        Err(ChannelClosed)
    }
}

/// Submits `request` to the worker, waiting while the request channel is
/// full. It fails once the worker has terminated; whether it has is the
/// worker's matter, so nothing is promised of the answer. What each answer
/// of the channel comes to is said by [`submission`].
pub fn submit(requests: &SyncSender<Request>, request: Request) -> (taken: Result<
    (),
    ChannelClosed,
>) {
    submission(send_on(requests, request))
}

} // verus!
