//! The client-side supervisor as its callers see it: a handle through which
//! events are submitted to whichever connection is live.

use crate::error::LoquiError;
use futures::sync::mpsc::{SendError, UnboundedReceiver, UnboundedSender};
use vstd::prelude::*;

verus! {

/// `futures::sync::mpsc::UnboundedSender`: the sending half of an unbounded
/// channel. Nothing is known of what a value holds.
#[verifier::external_type_specification]
#[verifier::external_body]
#[verifier::reject_recursive_types(T)]
pub struct ExUnboundedSender<T>(UnboundedSender<T>);

/// `futures::sync::mpsc::UnboundedReceiver`: the receiving half of an
/// unbounded channel. Nothing is known of what a value holds.
#[verifier::external_type_specification]
#[verifier::external_body]
#[verifier::reject_recursive_types(T)]
pub struct ExUnboundedReceiver<T>(UnboundedReceiver<T>);

/// `futures::sync::mpsc::SendError`: the refusal of a send, holding the
/// message that was refused. Nothing is known of what a value holds.
#[verifier::external_type_specification]
#[verifier::external_body]
#[verifier::reject_recursive_types(T)]
pub struct ExSendError<T>(SendError<T>);

/// `futures::sync::mpsc::unbounded`: makes the two halves of a new in-memory
/// channel without a bound. The halves are opaque here, so nothing is
/// claimed of them.
pub assume_specification<T>[ futures::sync::mpsc::unbounded::<T> ]() -> (halves: (
    UnboundedSender<T>,
    UnboundedReceiver<T>,
))
;

/// `futures::sync::mpsc::UnboundedSender::unbounded_send`: queues `msg`
/// without blocking, or refuses it when the receiving half is closed or
/// dropped. Which of the two happens depends on the other end of the
/// channel, so nothing is claimed of the result. The call gives up only
/// where as many messages are queued as half a machine word counts, which
/// memory does not hold.
pub assume_specification<T>[ futures::sync::mpsc::UnboundedSender::<T>::unbounded_send ](
    sender: &UnboundedSender<T>,
    msg: T,
) -> (sent: Result<(), SendError<T>>)
;

/// The behaviour that a connection runs for its application. One handler is
/// made per connection attempt.
pub trait ConnectionHandler {
    /// The messages that the application hands to a live connection.
    type InternalEvent;
}

/// Handle of a running supervisor: the capability to submit events to
/// whichever connection is live. It holds no socket.
pub struct Supervisor<C: ConnectionHandler> {
    self_sender: UnboundedSender<C::InternalEvent>,
}

/// What a caller of `event` is told for each answer of the event queue.
pub open spec fn submission_result<T>(sent: Result<(), SendError<T>>) -> Result<(), LoquiError> {
    match sent {
        Ok(_) => Ok(()),
        Err(_) => Err(LoquiError::ConnectionSupervisorDead),
    }
}

/// Turns the queue's answer to a send into the caller's: a refusal means
/// that the background loop, which holds the receiving half, is gone.
pub fn submission_outcome<T>(sent: Result<(), SendError<T>>) -> (result: Result<(), LoquiError>)
    ensures
        result == submission_result(sent),
{
    match sent {
        Ok(_) => Ok(()),
        Err(_) => Err(LoquiError::ConnectionSupervisorDead),
    }
}

impl<C: ConnectionHandler> Supervisor<C> {
    /// A new event queue: the handle that submits to it, and the receiving
    /// half for the background loop to drain. The queue belongs to no
    /// connection: it lives as long as the loop does.
    pub fn channel() -> (made: (Self, UnboundedReceiver<C::InternalEvent>)) {
        let (self_sender, receiver) = futures::sync::mpsc::unbounded();
        (Supervisor { self_sender }, receiver)
    }

    /// Queues `event` for the connection that is live now or the next one
    /// that will be. Fails only when the background loop has exited, and
    /// then with `ConnectionSupervisorDead`. Whether the loop has exited is
    /// the queue's to say: the answer is one of the two, whichever it is.
    pub fn event(&self, event: C::InternalEvent) -> (result: Result<(), LoquiError>)
        ensures
            result == Ok::<(), LoquiError>(()) || result == Err::<(), LoquiError>(
                LoquiError::ConnectionSupervisorDead,
            ),
    {
        submission_outcome(self.self_sender.unbounded_send(event))
    }
}

} // verus!
