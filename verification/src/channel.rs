//! The bounded channels between the two services.
//!
//! A channel is a `tokio::sync::mpsc` channel of small, fixed capacity. The
//! sending side never waits: when the channel is full the send fails at
//! once, and the failure reaches the user as "try again shortly". Whether a
//! given send finds room depends on how fast the other loop consumes, so
//! nothing here says which sends succeed; an [`Outbox`] records which did.

use crate::error::CoordinatorError;
use tokio::sync::mpsc::error::TrySendError;
use tokio::sync::mpsc::{Receiver, Sender};
use vstd::prelude::*;

verus! {

/// `tokio::sync::mpsc::Sender`, the sending half of a bounded channel.
#[verifier::external_type_specification]
#[verifier::external_body]
#[verifier::reject_recursive_types(T)]
pub struct ExSender<T>(Sender<T>);

/// `tokio::sync::mpsc::Receiver`, the receiving half of a bounded channel.
/// The consumer awaits its messages outside this crate.
#[verifier::external_type_specification]
#[verifier::external_body]
#[verifier::reject_recursive_types(T)]
pub struct ExReceiver<T>(Receiver<T>);

/// How an attempt to enqueue a message ended.
#[derive(Clone, Copy, Debug, PartialEq, Eq, Structural)]
pub enum SendOutcome {
    /// The message is in the channel.
    Sent,
    /// The channel held as many messages as its capacity allows; the message
    /// was dropped.
    Full,
    /// The receiving half is gone; the message was dropped.
    Closed,
}

impl SendOutcome {
    /// What the sender reports for this outcome: a full channel is
    /// `ChannelFull`, and a channel whose other end is gone is `Fatal`,
    /// because neither service is of use without the other.
    pub open spec fn report(self) -> Result<(), CoordinatorError> {
        match self {
            SendOutcome::Sent => Ok(()),
            SendOutcome::Full => Err(CoordinatorError::ChannelFull),
            SendOutcome::Closed => Err(CoordinatorError::Fatal),
        }
    }

    /// The same report in the shape of a command's reply, which carries the
    /// text of a token when it succeeds.
    pub open spec fn report_for_token(self) -> Result<Seq<char>, CoordinatorError>
        recommends
            self != SendOutcome::Sent,
    {
        match self {
            SendOutcome::Full => Err(CoordinatorError::ChannelFull),
            _ => Err(CoordinatorError::Fatal),
        }
    }

    /// The outcome as a result.
    pub fn into_result(self) -> (result: Result<(), CoordinatorError>)
        ensures
            result == self.report(),
    {
        match self {
            SendOutcome::Sent => Ok(()),
            SendOutcome::Full => Err(CoordinatorError::ChannelFull),
            SendOutcome::Closed => Err(CoordinatorError::Fatal),
        }
    }
}

/// Whether a channel can be made with this capacity: at least one message,
/// and no more than the channel's semaphore can count.
pub open spec fn valid_capacity(capacity: usize) -> bool {
    0 < capacity <= usize::MAX / 8
}

/// `tokio::sync::mpsc::channel`: a new bounded channel and its two halves.
/// The call panics on a capacity of zero or above an eighth of `usize::MAX`,
/// which the precondition leaves out.
#[verifier::external_body]
fn open_channel<T>(capacity: usize) -> (halves: (Sender<T>, Receiver<T>))
    requires
        valid_capacity(capacity),
{
    tokio::sync::mpsc::channel(capacity)
}

/// `Sender::try_send`: enqueues the message if the channel has room and its
/// receiving half is alive, and never waits. Which of the three outcomes a
/// call has depends on the other side of the channel.
#[verifier::external_body]
fn offer<T>(sender: &Sender<T>, message: T) -> (outcome: SendOutcome) {
    match sender.try_send(message) {
        Ok(()) => SendOutcome::Sent,
        Err(TrySendError::Full(_)) => SendOutcome::Full,
        Err(TrySendError::Closed(_)) => SendOutcome::Closed,
    }
}

/// The sending half of a channel, together with a record of the messages
/// that it has put into the channel.
#[verifier::reject_recursive_types(T)]
pub struct Outbox<T: View> {
    sender: Sender<T>,
    sent: Ghost<Seq<T::V>>,
}

impl<T: View> Outbox<T> {
    /// The messages that went into the channel through this outbox, oldest
    /// first. The channel hands them to its consumer in this order.
    pub closed spec fn sent(&self) -> Seq<T::V> {
        self.sent@
    }

    /// Tries to enqueue `message` without waiting. The message counts as
    /// sent exactly when the outcome is `Sent`; otherwise it is dropped and
    /// the record stays as it was.
    pub fn try_send(&mut self, message: T) -> (outcome: SendOutcome)
        ensures
            outcome == SendOutcome::Sent ==> final(self).sent() == old(self).sent().push(message@),
            outcome != SendOutcome::Sent ==> final(self).sent() == old(self).sent(),
    {
        let ghost view = message@;
        let outcome = offer(&self.sender, message);
        if outcome == SendOutcome::Sent {
            self.sent = Ghost(self.sent@.push(view));
        }
        outcome
    }

    /// Tries to enqueue `message` without waiting, and reports a full or
    /// closed channel as the failure that [`SendOutcome::report`] names.
    pub fn send(&mut self, message: T) -> (result: Result<(), CoordinatorError>)
        ensures
            result is Ok ==> final(self).sent() == old(self).sent().push(message@),
            result is Err ==> final(self).sent() == old(self).sent(),
            result is Err ==> result == Err::<(), CoordinatorError>(CoordinatorError::ChannelFull)
                || result == Err::<(), CoordinatorError>(CoordinatorError::Fatal),
    {
        self.try_send(message).into_result()
    }
}

/// Opens a channel that holds at most `capacity` messages, and returns its
/// sending half as an outbox that has sent nothing yet, and its receiving
/// half. A capacity that no channel can have gives `None`.
pub fn bounded<T: View>(capacity: usize) -> (halves: Option<(Outbox<T>, Receiver<T>)>)
    ensures
        halves is Some <==> valid_capacity(capacity),
        halves matches Some(pair) ==> pair.0.sent() == Seq::<T::V>::empty(),
{
    if capacity == 0 || capacity > usize::MAX / 8 {
        return None;
    }
    let (sender, receiver) = open_channel(capacity);
    Some((Outbox { sender, sent: Ghost(Seq::empty()) }, receiver))
}

} // verus!
