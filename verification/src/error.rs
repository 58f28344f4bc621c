//! The failures that the coordinator reports.

use vstd::prelude::*;

verus! {

/// What can go wrong while a verification is started, completed or handed
/// from one service to the other.
#[derive(Clone, Copy, Debug, PartialEq, Eq, Structural)]
pub enum CoordinatorError {
    /// The user already has a verification in flight; no new token is issued.
    AlreadyPending,
    /// The channel holds as many messages as its capacity allows; the user
    /// may try again shortly.
    ChannelFull,
    /// No verification is in flight for the user.
    NotFound,
    /// The other service loop is gone or the setup is unusable; the whole
    /// process has to stop.
    Fatal,
}

impl CoordinatorError {
    /// Whether the user can recover from the failure by issuing the command
    /// again later.
    pub open spec fn user_recoverable(self) -> bool {
        self == CoordinatorError::AlreadyPending || self == CoordinatorError::ChannelFull
    }

    /// Whether the failure is shown to the end user. A completion that finds
    /// no pending verification is dropped without a word, and a fatal failure
    /// goes to the supervisor.
    pub fn is_user_visible(&self) -> (visible: bool)
        ensures
            visible == self.user_recoverable(),
    {
        match self {
            CoordinatorError::AlreadyPending => true,
            CoordinatorError::ChannelFull => true,
            CoordinatorError::NotFound => false,
            CoordinatorError::Fatal => false,
        }
    }

    /// Whether the failure ends the process.
    pub fn is_fatal(&self) -> (fatal: bool)
        ensures
            fatal == (*self == CoordinatorError::Fatal),
    {
        match self {
            CoordinatorError::Fatal => true,
            _ => false,
        }
    }

    /// A short text for the failure, fit for a log line or a command reply.
    pub fn message(&self) -> (text: &'static str)
        ensures
            text@ == Self::message_text(*self),
    {
        match self {
            CoordinatorError::AlreadyPending => "a verification is already in progress",
            CoordinatorError::ChannelFull => "the verification service is busy, try again shortly",
            CoordinatorError::NotFound => "no verification is pending",
            CoordinatorError::Fatal => "the coordinator cannot continue",
        }
    }

    /// The text that [`CoordinatorError::message`] returns.
    pub open spec fn message_text(e: CoordinatorError) -> Seq<char> {
        match e {
            CoordinatorError::AlreadyPending => "a verification is already in progress"@,
            CoordinatorError::ChannelFull => "the verification service is busy, try again shortly"@,
            CoordinatorError::NotFound => "no verification is pending"@,
            CoordinatorError::Fatal => "the coordinator cannot continue"@,
        }
    }
}

} // verus!
