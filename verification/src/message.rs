//! The two messages that travel between the services.
//!
//! Neither can be copied: a message is made once, by one loop, and consumed
//! once, by the other.

use crate::identity::{UserIdentity, VerificationToken};
use vstd::prelude::*;

verus! {

/// "Start a verification": sent by the bot loop, consumed by the auth loop.
pub struct AuthRequest {
    /// Who asked to be verified.
    pub user: UserIdentity,
    /// The token that the web handshake carries as its state parameter.
    pub token: VerificationToken,
    /// Where the request came from, such as the identifier of the chat
    /// server, if the bot knows it.
    pub context: Option<u64>,
}

/// An [`AuthRequest`] as plain values.
pub struct AuthRequestView {
    pub user: u64,
    pub token: Seq<char>,
    pub context: Option<u64>,
}

impl View for AuthRequest {
    type V = AuthRequestView;

    open spec fn view(&self) -> AuthRequestView {
        AuthRequestView { user: self.user.id, token: self.token@, context: self.context }
    }
}

impl AuthRequest {
    pub fn new(user: UserIdentity, token: VerificationToken, context: Option<u64>) -> (request:
        AuthRequest)
        ensures
            request@ == (AuthRequestView { user: user.id, token: token@, context }),
    {
        AuthRequest { user, token, context }
    }
}

/// "The verification succeeded": sent by the auth loop, consumed by the bot
/// loop.
pub struct SuccessfulAuth {
    /// The user of the request that the handshake belonged to.
    pub user: UserIdentity,
    /// The name of the account that the identity provider vouched for.
    pub account: String,
}

/// A [`SuccessfulAuth`] as plain values.
pub struct SuccessfulAuthView {
    pub user: u64,
    pub account: Seq<char>,
}

impl View for SuccessfulAuth {
    type V = SuccessfulAuthView;

    open spec fn view(&self) -> SuccessfulAuthView {
        SuccessfulAuthView { user: self.user.id, account: self.account@ }
    }
}

impl SuccessfulAuth {
    pub fn new(user: UserIdentity, account: String) -> (message: SuccessfulAuth)
        ensures
            message@ == (SuccessfulAuthView { user: user.id, account: account@ }),
    {
        SuccessfulAuth { user, account }
    }
}

} // verus!
