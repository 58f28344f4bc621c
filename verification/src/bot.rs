//! What the bot service loop decides.
//!
//! The loop itself, which waits for commands, completions and the sweep
//! timer, belongs to the surrounding program. For each of the three events it
//! calls one function of [`Data`], which changes the registry, enqueues what
//! has to be enqueued, and says what the loop has to do for the user.
//!
//! Seen through the registry, a user is idle or pending. A command moves an
//! idle user to pending; a completion or a sweep moves a pending user back.

use crate::channel::{Outbox, SendOutcome};
use crate::config::CoordinatorConfig;
use crate::error::CoordinatorError;
use crate::identity::{UserIdentity, VerificationToken};
use crate::message::{AuthRequest, AuthRequestView, SuccessfulAuth, SuccessfulAuthView};
use crate::model;
use crate::model::{is_expired, issued_token, tokens_unique, Pending, Registry};
use crate::registry::{told, user_ids, PendingRequestRegistry};
use vstd::prelude::*;

verus! {

/// Where a user stands, as far as the registry shows it.
#[derive(Clone, Copy, Debug, PartialEq, Eq, Structural)]
pub enum UserState {
    /// Nothing is in flight: the user never asked, was verified, or let the
    /// attempt lapse.
    Idle,
    /// A token is stored and the request was enqueued.
    Pending,
}

/// The state of a user in a registry.
pub open spec fn state_of(registry: Registry, user: u64) -> UserState {
    if registry.contains_key(user) {
        UserState::Pending
    } else {
        UserState::Idle
    }
}

/// The bot's side of the coordinator as plain values.
pub struct BotView {
    /// The verifications in flight.
    pub registry: Registry,
    /// The requests that were enqueued for the auth loop, oldest first.
    pub sent: Seq<AuthRequestView>,
    /// The options that the bot runs with.
    pub config: CoordinatorConfig,
}

/// What the loop has to do about a completion, as plain values.
pub enum CompletionView {
    /// Apply the visible effect for the user, who proved to own `account`.
    Grant { user: u64, account: Seq<char>, token: Seq<char> },
    /// Log the message and drop it.
    Dropped { user: u64 },
}

/// The bot after a command of `user`, and what the user is told. `token` is
/// the token that is issued if the user is idle: one that no pending user
/// holds. `outcome` is how the attempt to enqueue the request
/// ended; it plays no part when the user is pending already, since nothing is
/// enqueued then.
pub open spec fn on_command(
    bot: BotView,
    user: u64,
    context: Option<u64>,
    token: Seq<char>,
    now: u64,
    outcome: SendOutcome,
) -> (BotView, Result<Seq<char>, CoordinatorError>) {
    if bot.registry.contains_key(user) {
        (bot, Err(CoordinatorError::AlreadyPending))
    } else {
        match outcome {
            SendOutcome::Sent => (
                BotView {
                    registry: bot.registry.insert(user, Pending { token, started_at: now }),
                    sent: bot.sent.push(AuthRequestView { user, token, context }),
                    config: bot.config,
                },
                Ok(token),
            ),
            SendOutcome::Full => (bot, Err(CoordinatorError::ChannelFull)),
            SendOutcome::Closed => (bot, Err(CoordinatorError::Fatal)),
        }
    }
}

/// The bot after a completion arrived, and what the loop has to do about it.
pub open spec fn on_completion(bot: BotView, message: SuccessfulAuthView) -> (
    BotView,
    CompletionView,
) {
    if bot.registry.contains_key(message.user) {
        (
            BotView {
                registry: bot.registry.remove(message.user),
                sent: bot.sent,
                config: bot.config,
            },
            CompletionView::Grant {
                user: message.user,
                account: message.account,
                token: bot.registry[message.user].token,
            },
        )
    } else {
        (bot, CompletionView::Dropped { user: message.user })
    }
}

/// The bot after the sweep timer fired at the time `now`, and the users who
/// have to be told that their verification lapsed.
pub open spec fn on_sweep(bot: BotView, now: u64) -> (BotView, Set<u64>) {
    (
        BotView {
            registry: model::sweep(bot.registry, bot.config.expiry_age, now),
            sent: bot.sent,
            config: bot.config,
        },
        model::expired_users(bot.registry, bot.config.expiry_age, now),
    )
}

/// A command of a user who is pending changes nothing and enqueues nothing,
/// however the channel would have answered.
pub proof fn lemma_command_while_pending(
    bot: BotView,
    user: u64,
    context: Option<u64>,
    token: Seq<char>,
    now: u64,
    outcome: SendOutcome,
)
    requires
        state_of(bot.registry, user) == UserState::Pending,
    ensures
        on_command(bot, user, context, token, now, outcome) == (
            bot,
            Err::<Seq<char>, CoordinatorError>(CoordinatorError::AlreadyPending),
        ),
{
}

/// A command of an idle user that finds the channel full or closed leaves
/// the bot as it was: the user is idle again and may retry, and no request
/// is in the channel.
pub proof fn lemma_refused_send_changes_nothing(
    bot: BotView,
    user: u64,
    context: Option<u64>,
    token: Seq<char>,
    now: u64,
    outcome: SendOutcome,
)
    requires
        outcome != SendOutcome::Sent,
    ensures
        on_command(bot, user, context, token, now, outcome).0 == bot,
        on_command(bot, user, context, token, now, outcome).1 is Err,
        state_of(bot.registry, user) == UserState::Idle ==> on_command(
            bot,
            user,
            context,
            token,
            now,
            outcome,
        ).1 == outcome.report_for_token(),
{
}

/// When a user issues the command twice with no completion and no sweep in
/// between and the first command succeeds, the second is refused with
/// `AlreadyPending`, and exactly one request was enqueued for the two: the
/// one that carries the first token.
pub proof fn lemma_second_command_refused(
    bot: BotView,
    user: u64,
    first_context: Option<u64>,
    first_token: Seq<char>,
    first_now: u64,
    first_outcome: SendOutcome,
    second_context: Option<u64>,
    second_token: Seq<char>,
    second_now: u64,
    second_outcome: SendOutcome,
)
    requires
        on_command(bot, user, first_context, first_token, first_now, first_outcome).1 is Ok,
    ensures
        ({
            let (after_first, first) = on_command(
                bot,
                user,
                first_context,
                first_token,
                first_now,
                first_outcome,
            );
            let (after_second, second) = on_command(
                after_first,
                user,
                second_context,
                second_token,
                second_now,
                second_outcome,
            );
            &&& first == Ok::<Seq<char>, CoordinatorError>(first_token)
            &&& second == Err::<Seq<char>, CoordinatorError>(CoordinatorError::AlreadyPending)
            &&& after_second == after_first
            &&& after_second.sent == bot.sent.push(
                AuthRequestView { user, token: first_token, context: first_context },
            )
        }),
{
}

/// A completion for an idle user changes nothing and asks for no effect.
pub proof fn lemma_completion_for_idle_user(bot: BotView, message: SuccessfulAuthView)
    requires
        state_of(bot.registry, message.user) == UserState::Idle,
    ensures
        on_completion(bot, message) == (bot, CompletionView::Dropped { user: message.user }),
{
}

/// A completion that is delivered twice is acted on at most once: whatever
/// the first delivery did, the second changes nothing and asks for no
/// effect.
pub proof fn lemma_completion_applies_once(
    bot: BotView,
    first: SuccessfulAuthView,
    second: SuccessfulAuthView,
)
    requires
        first.user == second.user,
    ensures
        ({
            let (after_first, _) = on_completion(bot, first);
            on_completion(after_first, second) == (
                after_first,
                CompletionView::Dropped { user: second.user },
            )
        }),
{
}

/// From command to effect: an idle user issues the command and the channel
/// takes the request. Then the registry holds the user with the token, and
/// exactly one request was enqueued, which carries the user and the token.
/// When the completion arrives, the loop is told to apply the effect for the
/// user with that token, and the registry is as it was before the command.
pub proof fn lemma_round_trip(
    bot: BotView,
    user: u64,
    context: Option<u64>,
    token: Seq<char>,
    now: u64,
    account: Seq<char>,
)
    requires
        state_of(bot.registry, user) == UserState::Idle,
    ensures
        ({
            let (pending, reply) = on_command(bot, user, context, token, now, SendOutcome::Sent);
            let (done, action) = on_completion(pending, SuccessfulAuthView { user, account });
            &&& reply == Ok::<Seq<char>, CoordinatorError>(token)
            &&& pending.registry.contains_pair(user, Pending { token, started_at: now })
            &&& pending.sent == bot.sent.push(AuthRequestView { user, token, context })
            &&& action == CompletionView::Grant { user, account, token }
            &&& done.registry == bot.registry
            &&& done.sent == pending.sent
        }),
{
    let (pending, reply) = on_command(bot, user, context, token, now, SendOutcome::Sent);
    assert(pending.registry.remove(user) =~= bot.registry);
}

/// A verification that is older than the configured age when the sweep runs
/// is removed and its user is among those to notify. A completion that
/// arrives for the user afterwards changes nothing and asks for no effect.
pub proof fn lemma_lapsed_attempt(bot: BotView, now: u64, message: SuccessfulAuthView)
    requires
        bot.registry.contains_key(message.user),
        is_expired(bot.registry[message.user].started_at, now, bot.config.expiry_age),
    ensures
        ({
            let (swept, lapsed) = on_sweep(bot, now);
            &&& lapsed.contains(message.user)
            &&& state_of(swept.registry, message.user) == UserState::Idle
            &&& on_completion(swept, message) == (
                swept,
                CompletionView::Dropped { user: message.user },
            )
        }),
{
}

/// A sweep touches no verification that is within the configured age, and
/// enqueues nothing.
pub proof fn lemma_sweep_spares_the_young(bot: BotView, now: u64, user: u64)
    requires
        bot.registry.contains_key(user),
        !is_expired(bot.registry[user].started_at, now, bot.config.expiry_age),
    ensures
        on_sweep(bot, now).0.registry.contains_pair(user, bot.registry[user]),
        !on_sweep(bot, now).1.contains(user),
        on_sweep(bot, now).0.sent == bot.sent,
{
}

/// What the loop has to do about a completion.
pub enum CompletionAction {
    /// Apply the visible effect for `user`, who proved to own `account`. The
    /// token is the one that the verification was begun with.
    Grant { user: UserIdentity, account: String, token: VerificationToken },
    /// No verification was in flight for `user`: log the message and drop
    /// it. This is no error; the completion may have lost a race with the
    /// sweep.
    Dropped { user: UserIdentity },
}

impl View for CompletionAction {
    type V = CompletionView;

    open spec fn view(&self) -> CompletionView {
        match *self {
            CompletionAction::Grant { user, account, token } => CompletionView::Grant {
                user: user.id,
                account: account@,
                token: token@,
            },
            CompletionAction::Dropped { user } => CompletionView::Dropped { user: user.id },
        }
    }
}

/// What every command handler of the bot shares: the verifications in
/// flight, the sending half of the request channel, and the options.
pub struct Data {
    ongoing_auth_requests: PendingRequestRegistry,
    new_auth_reqs_send: Outbox<AuthRequest>,
    config: CoordinatorConfig,
}

impl View for Data {
    type V = BotView;

    closed spec fn view(&self) -> BotView {
        BotView {
            registry: self.ongoing_auth_requests@,
            sent: self.new_auth_reqs_send.sent(),
            config: self.config,
        }
    }
}

impl Data {
    /// The bot's state at startup: nothing is in flight.
    pub fn new(config: CoordinatorConfig, requests: Outbox<AuthRequest>) -> (data: Data)
        ensures
            data@ == (BotView {
                registry: Map::<u64, Pending>::empty(),
                sent: requests.sent(),
                config,
            }),
    {
        Data {
            ongoing_auth_requests: PendingRequestRegistry::new(),
            new_auth_reqs_send: requests,
            config,
        }
    }

    /// The options that the bot runs with.
    pub fn config(&self) -> (config: CoordinatorConfig)
        ensures
            config == self@.config,
    {
        self.config
    }

    /// The number of verifications in flight.
    pub fn pending_count(&self) -> (count: usize)
        ensures
            self@.registry.dom().finite(),
            count == self@.registry.len(),
    {
        self.ongoing_auth_requests.len()
    }

    /// Where `user` stands.
    pub fn user_state(&self, user: UserIdentity) -> (state: UserState)
        ensures
            state == state_of(self@.registry, user.id),
    {
        if self.ongoing_auth_requests.is_pending(user) {
            UserState::Pending
        } else {
            UserState::Idle
        }
    }

    /// Handles the verification command of `user` at the time `now`.
    ///
    /// A user who is pending already is told so; no token is made and
    /// nothing is enqueued. Otherwise a token is issued that no other
    /// pending user holds, made from `entropy` or from the first entropy
    /// after it whose token is free; the verification is begun, and the
    /// request is offered to the channel without waiting. If the channel
    /// takes it, the token is returned. If not, the verification is
    /// withdrawn, so that the user can try again, and the failure is
    /// returned; the bot does not retry by itself.
    pub fn request_verification(
        &mut self,
        user: UserIdentity,
        context: Option<u64>,
        entropy: [u8; 16],
        now: u64,
    ) -> (reply: Result<VerificationToken, CoordinatorError>)
        ensures
            state_of(old(self)@.registry, user.id) == UserState::Pending ==> final(self)@ == old(
                self,
            )@ && told(reply) == Err::<Seq<char>, CoordinatorError>(
                CoordinatorError::AlreadyPending,
            ),
            state_of(old(self)@.registry, user.id) == UserState::Idle ==> model::is_issued(
                old(self)@.registry,
                entropy@,
                issued_token(old(self)@.registry, entropy@),
            ),
            exists|outcome: SendOutcome|
                (final(self)@, told(reply)) == #[trigger] on_command(
                    old(self)@,
                    user.id,
                    context,
                    issued_token(old(self)@.registry, entropy@),
                    now,
                    outcome,
                ),
            reply matches Ok(token) ==> forall|other: u64|
                old(self)@.registry.contains_key(other) ==> (#[trigger] old(
                    self,
                )@.registry[other]).token != token@,
            tokens_unique(final(self)@.registry),
    {
        match self.ongoing_auth_requests.begin(user, entropy, now) {
            Err(e) => {
                assert((self@, Err::<Seq<char>, CoordinatorError>(e)) == on_command(
                    old(self)@,
                    user.id,
                    context,
                    issued_token(old(self)@.registry, entropy@),
                    now,
                    SendOutcome::Sent,
                ));
                Err(e)
            },
            Ok(token) => {
                proof {
                    model::lemma_issued_token_is_fresh(old(self)@.registry, entropy@, token@);
                }
                let request = AuthRequest::new(user, token.clone(), context);
                let outcome = self.new_auth_reqs_send.try_send(request);
                let ghost begun = self@;
                let reply = self.settle_request(user, token, outcome);
                proof {
                    assert(begun.registry.remove(user.id) =~= old(self)@.registry);
                    assert((self@, told(reply)) == on_command(
                        old(self)@,
                        user.id,
                        context,
                        issued_token(old(self)@.registry, entropy@),
                        now,
                        outcome,
                    ));
                }
                reply
            },
        }
    }

    /// Finishes a command once it is known how the attempt to enqueue its
    /// request ended. If the request is in the channel, the token is handed
    /// to the user. If it is not, the verification that was begun for it is
    /// withdrawn and the failure is reported: a full channel as
    /// `ChannelFull`, a closed one as `Fatal`.
    pub fn settle_request(
        &mut self,
        user: UserIdentity,
        token: VerificationToken,
        outcome: SendOutcome,
    ) -> (reply: Result<VerificationToken, CoordinatorError>)
        ensures
            final(self)@.sent == old(self)@.sent,
            final(self)@.config == old(self)@.config,
            outcome == SendOutcome::Sent ==> final(self)@.registry == old(self)@.registry && told(
                reply,
            ) == Ok::<Seq<char>, CoordinatorError>(token@),
            outcome == SendOutcome::Full ==> final(self)@.registry == old(self)@.registry.remove(
                user.id,
            ) && told(reply) == Err::<Seq<char>, CoordinatorError>(CoordinatorError::ChannelFull),
            outcome == SendOutcome::Closed ==> final(self)@.registry == old(
                self,
            )@.registry.remove(user.id) && told(reply) == Err::<Seq<char>, CoordinatorError>(
                CoordinatorError::Fatal,
            ),
            tokens_unique(old(self)@.registry) ==> tokens_unique(final(self)@.registry),
    {
        match outcome.into_result() {
            Ok(()) => Ok(token),
            Err(e) => {
                let _ = self.ongoing_auth_requests.complete(user);
                assert(self@.registry =~= old(self)@.registry.remove(user.id));
                Err(e)
            },
        }
    }

    /// Handles a completion that the auth loop sent.
    ///
    /// If the user is pending, the verification is consumed and the loop is
    /// told to apply the visible effect. If not, nothing changes and the loop
    /// is told to drop the message: a completion is acted on at most once,
    /// however often it is delivered.
    pub fn handle_completion(&mut self, message: SuccessfulAuth) -> (action: CompletionAction)
        ensures
            (final(self)@, action@) == on_completion(old(self)@, message@),
            tokens_unique(final(self)@.registry),
    {
        let SuccessfulAuth { user, account } = message;
        match self.ongoing_auth_requests.complete(user) {
            Ok(token) => CompletionAction::Grant { user, account, token },
            Err(_) => CompletionAction::Dropped { user },
        }
    }

    /// Handles a tick of the sweep timer at the time `now`: removes every
    /// verification that is older than the configured age, and returns the
    /// users to notify, each once.
    pub fn sweep(&mut self, now: u64) -> (lapsed: Vec<UserIdentity>)
        ensures
            final(self)@ == on_sweep(old(self)@, now).0,
            user_ids(lapsed@).no_duplicates(),
            user_ids(lapsed@).to_set() == on_sweep(old(self)@, now).1,
            tokens_unique(final(self)@.registry),
    {
        self.ongoing_auth_requests.expire_older_than(self.config.expiry_age, now)
    }
}

} // verus!
