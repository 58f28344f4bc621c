//! What holds of the bot after any sequence of events.
//!
//! Commands, completions and sweep ticks reach the bot in some order, and
//! each changes it as [`on_command`], [`on_completion`] and [`on_sweep`] say.
//! This module follows a whole sequence and keeps the books: every request
//! that went to the auth loop ends in exactly one of three ways. Its effect
//! is applied, once; or it lapses, once; or it is still pending.

use crate::bot::{on_command, on_completion, on_sweep, BotView};
use crate::channel::SendOutcome;
use crate::message::{AuthRequestView, SuccessfulAuthView};
use vstd::prelude::*;

verus! {

/// One thing that happens to the bot.
pub enum BotEvent {
    /// A user issued the verification command. `token` is the token that is
    /// issued if the user is idle, one that no pending user holds, and
    /// `outcome` is how the request channel answers.
    Command { user: u64, context: Option<u64>, token: Seq<char>, now: u64, outcome: SendOutcome },
    /// A completion arrived from the auth loop.
    Completion { message: SuccessfulAuthView },
    /// The sweep timer fired.
    SweepTick { now: u64 },
}

/// The bot after one event.
pub open spec fn after(bot: BotView, event: BotEvent) -> BotView {
    match event {
        BotEvent::Command { user, context, token, now, outcome } => on_command(
            bot,
            user,
            context,
            token,
            now,
            outcome,
        ).0,
        BotEvent::Completion { message } => on_completion(bot, message).0,
        BotEvent::SweepTick { now } => on_sweep(bot, now).0,
    }
}

/// The bot after a sequence of events, oldest first.
pub open spec fn after_all(bot: BotView, events: Seq<BotEvent>) -> BotView
    decreases events.len(),
{
    if events.len() == 0 {
        bot
    } else {
        after(after_all(bot, events.drop_last()), events.last())
    }
}

/// One if `condition` holds, zero if not.
pub open spec fn one_if(condition: bool) -> nat {
    if condition {
        1
    } else {
        0
    }
}

/// Whether `event`, reaching `bot`, makes the loop apply the effect for
/// `user`.
pub open spec fn grants(bot: BotView, event: BotEvent, user: u64) -> bool {
    event matches BotEvent::Completion { message } && message.user == user && on_completion(
        bot,
        message,
    ).1 is Grant
}

/// Whether `event`, reaching `bot`, makes the verification of `user` lapse.
pub open spec fn lapses(bot: BotView, event: BotEvent, user: u64) -> bool {
    event matches BotEvent::SweepTick { now } && on_sweep(bot, now).1.contains(user)
}

/// How often the effect was applied for `user` in the course of `events`.
pub open spec fn grant_count(bot: BotView, events: Seq<BotEvent>, user: u64) -> nat
    decreases events.len(),
{
    if events.len() == 0 {
        0
    } else {
        let earlier = events.drop_last();
        grant_count(bot, earlier, user) + one_if(
            grants(after_all(bot, earlier), events.last(), user),
        )
    }
}

/// How often a verification of `user` lapsed in the course of `events`.
pub open spec fn lapse_count(bot: BotView, events: Seq<BotEvent>, user: u64) -> nat
    decreases events.len(),
{
    if events.len() == 0 {
        0
    } else {
        let earlier = events.drop_last();
        lapse_count(bot, earlier, user) + one_if(
            lapses(after_all(bot, earlier), events.last(), user),
        )
    }
}

/// The number of requests in `sent` that were made for `user`.
pub open spec fn request_count(sent: Seq<AuthRequestView>, user: u64) -> nat
    decreases sent.len(),
{
    if sent.len() == 0 {
        0
    } else {
        request_count(sent.drop_last(), user) + one_if(sent.last().user == user)
    }
}

/// One if `user` is pending, zero if not.
pub open spec fn pending_count(bot: BotView, user: u64) -> nat {
    one_if(bot.registry.contains_key(user))
}

/// One more request in the record counts for its user and for nobody else.
pub proof fn lemma_request_count_push(sent: Seq<AuthRequestView>, request: AuthRequestView, user: u64)
    ensures
        request_count(sent.push(request), user) == request_count(sent, user) + one_if(
            request.user == user,
        ),
{
    assert(sent.push(request).drop_last() =~= sent);
    assert(sent.push(request).last() == request);
}

/// What one event does to the books of one user: the requests sent and the
/// pending verification on one side, the effects applied and the lapses on
/// the other.
pub proof fn lemma_one_event_balances(bot: BotView, event: BotEvent, user: u64)
    ensures
        request_count(after(bot, event).sent, user) + pending_count(bot, user) == request_count(
            bot.sent,
            user,
        ) + one_if(grants(bot, event, user)) + one_if(lapses(bot, event, user)) + pending_count(
            after(bot, event),
            user,
        ),
{
    match event {
        BotEvent::Command { user: who, context, token, now, outcome } => {
            if !bot.registry.contains_key(who) && outcome == SendOutcome::Sent {
                lemma_request_count_push(
                    bot.sent,
                    AuthRequestView { user: who, token, context },
                    user,
                );
            }
        },
        BotEvent::Completion { message } => {},
        BotEvent::SweepTick { now } => {},
    }
}

/// Every request ends in exactly one way. After any sequence of events, the
/// requests that were sent for a user, beyond those sent before, are as many
/// as the effects applied for the user, the lapses of the user, and the
/// verification still pending, less the one that was pending at the start.
/// So no request has its effect applied twice, none both lapses and takes
/// effect, and nothing takes effect without a request.
pub proof fn lemma_every_request_ends_once(bot: BotView, events: Seq<BotEvent>, user: u64)
    ensures
        request_count(after_all(bot, events).sent, user) + pending_count(bot, user)
            == request_count(bot.sent, user) + grant_count(bot, events, user) + lapse_count(
            bot,
            events,
            user,
        ) + pending_count(after_all(bot, events), user),
    decreases events.len(),
{
    if events.len() > 0 {
        let earlier = events.drop_last();
        lemma_every_request_ends_once(bot, earlier, user);
        lemma_one_event_balances(after_all(bot, earlier), events.last(), user);
    }
}

/// From a bot that has sent nothing and holds nothing, the effects applied
/// for a user never outnumber the requests sent for the user.
pub proof fn lemma_no_effect_without_request(bot: BotView, events: Seq<BotEvent>, user: u64)
    requires
        bot.sent.len() == 0,
        !bot.registry.contains_key(user),
    ensures
        grant_count(bot, events, user) <= request_count(after_all(bot, events).sent, user),
{
    lemma_every_request_ends_once(bot, events, user);
}

/// No event removes a request from the record: what was sent stays sent, in
/// the order in which it was sent.
pub proof fn lemma_sent_only_grows(bot: BotView, events: Seq<BotEvent>)
    ensures
        bot.sent.is_prefix_of(after_all(bot, events).sent),
        after_all(bot, events).config == bot.config,
    decreases events.len(),
{
    if events.len() > 0 {
        let earlier = events.drop_last();
        lemma_sent_only_grows(bot, earlier);
        let before = after_all(bot, earlier);
        assert(before.sent.is_prefix_of(after(before, events.last()).sent));
    }
}

} // verus!
