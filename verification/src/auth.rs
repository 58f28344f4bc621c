//! What the auth service loop decides.
//!
//! The loop takes one request at a time from the channel and drives the web
//! handshake with the request's token as its state parameter. The handshake
//! belongs to the surrounding program and ends in success, with the name of
//! an account, or in failure. This module says what is sent back to the bot
//! for each ending.

use crate::channel::{Outbox, SendOutcome};
use crate::error::CoordinatorError;
use crate::message::{AuthRequest, AuthRequestView, SuccessfulAuth, SuccessfulAuthView};
use vstd::prelude::*;

verus! {

/// How a handshake ended.
pub enum HandshakeOutcome {
    /// The identity provider vouched for the account of this name.
    Success { account: String },
    /// The handshake failed or timed out.
    Failure,
}

/// A [`HandshakeOutcome`] as plain values.
pub enum HandshakeView {
    Success { account: Seq<char> },
    Failure,
}

impl View for HandshakeOutcome {
    type V = HandshakeView;

    open spec fn view(&self) -> HandshakeView {
        match *self {
            HandshakeOutcome::Success { account } => HandshakeView::Success { account: account@ },
            HandshakeOutcome::Failure => HandshakeView::Failure,
        }
    }
}

/// What the auth loop did with a handshake that ended.
#[derive(Clone, Copy, Debug, PartialEq, Eq, Structural)]
pub enum Conclusion {
    /// The completion is in the channel.
    Announced,
    /// The handshake failed and nothing was sent. The bot learns of it only
    /// when its sweep finds the verification too old.
    Silent,
}

/// The completion that a handshake calls for: on success one that carries
/// the user of the request and the account, on failure none.
pub open spec fn completion_of(request: AuthRequestView, outcome: HandshakeView) -> Option<
    SuccessfulAuthView,
> {
    match outcome {
        HandshakeView::Success { account } => Some(
            SuccessfulAuthView { user: request.user, account },
        ),
        HandshakeView::Failure => None,
    }
}

/// The completions that went into the channel, and what the loop reports,
/// after a handshake ended in `outcome` and the attempt to enqueue its
/// completion, if it has one, ended in `send`.
pub open spec fn on_handshake(
    sent: Seq<SuccessfulAuthView>,
    request: AuthRequestView,
    outcome: HandshakeView,
    send: SendOutcome,
) -> (Seq<SuccessfulAuthView>, Result<Conclusion, CoordinatorError>) {
    match completion_of(request, outcome) {
        None => (sent, Ok(Conclusion::Silent)),
        Some(message) => match send {
            SendOutcome::Sent => (sent.push(message), Ok(Conclusion::Announced)),
            SendOutcome::Full => (sent, Err(CoordinatorError::ChannelFull)),
            SendOutcome::Closed => (sent, Err(CoordinatorError::Fatal)),
        },
    }
}

/// A failed handshake sends nothing, whatever the state of the channel.
pub proof fn lemma_failure_is_silent(
    sent: Seq<SuccessfulAuthView>,
    request: AuthRequestView,
    send: SendOutcome,
)
    ensures
        on_handshake(sent, request, HandshakeView::Failure, send) == (
            sent,
            Ok::<Conclusion, CoordinatorError>(Conclusion::Silent),
        ),
{
}

/// At most one completion is sent for a handshake, and it names the user of
/// the request that the handshake belonged to.
pub proof fn lemma_completion_names_requester(
    sent: Seq<SuccessfulAuthView>,
    request: AuthRequestView,
    outcome: HandshakeView,
    send: SendOutcome,
)
    ensures
        ({
            let after = on_handshake(sent, request, outcome, send).0;
            after == sent || (after.len() == sent.len() + 1 && after.drop_last() == sent
                && after.last().user == request.user)
        }),
{
    let after = on_handshake(sent, request, outcome, send).0;
    if after != sent {
        assert(after.drop_last() =~= sent);
    }
}

/// The completion to send for a handshake that ended, if any.
pub fn completion_for(request: AuthRequest, outcome: HandshakeOutcome) -> (message: Option<
    SuccessfulAuth,
>)
    ensures
        message is Some <==> completion_of(request@, outcome@) is Some,
        message matches Some(m) ==> Some(m@) == completion_of(request@, outcome@),
{
    match outcome {
        HandshakeOutcome::Success { account } => Some(SuccessfulAuth::new(request.user, account)),
        HandshakeOutcome::Failure => None,
    }
}

/// What the loop reports once it is known how the attempt to enqueue a
/// completion ended.
pub fn settle_completion(send: SendOutcome) -> (report: Result<Conclusion, CoordinatorError>)
    ensures
        send == SendOutcome::Sent ==> report == Ok::<Conclusion, CoordinatorError>(
            Conclusion::Announced,
        ),
        send == SendOutcome::Full ==> report == Err::<Conclusion, CoordinatorError>(
            CoordinatorError::ChannelFull,
        ),
        send == SendOutcome::Closed ==> report == Err::<Conclusion, CoordinatorError>(
            CoordinatorError::Fatal,
        ),
{
    match send.into_result() {
        Ok(()) => Ok(Conclusion::Announced),
        Err(e) => Err(e),
    }
}

/// Concludes the handshake of `request`. On success the completion is
/// offered to the channel without waiting; a full or closed channel is
/// reported and the completion is dropped. On failure nothing is sent.
pub fn conclude(
    completions: &mut Outbox<SuccessfulAuth>,
    request: AuthRequest,
    outcome: HandshakeOutcome,
) -> (report: Result<Conclusion, CoordinatorError>)
    ensures
        exists|send: SendOutcome|
            (final(completions).sent(), report) == #[trigger] on_handshake(
                old(completions).sent(),
                request@,
                outcome@,
                send,
            ),
{
    let ghost request_view = request@;
    let ghost outcome_view = outcome@;
    match completion_for(request, outcome) {
        None => {
            assert((completions.sent(), Ok::<Conclusion, CoordinatorError>(Conclusion::Silent))
                == on_handshake(
                old(completions).sent(),
                request_view,
                outcome_view,
                SendOutcome::Sent,
            ));
            Ok(Conclusion::Silent)
        },
        Some(message) => {
            let send = completions.try_send(message);
            let report = settle_completion(send);
            assert((completions.sent(), report) == on_handshake(
                old(completions).sent(),
                request_view,
                outcome_view,
                send,
            ));
            report
        },
    }
}

} // verus!
