//! Starting and stopping the two service loops.
//!
//! The surrounding program spawns the loops, waits for the termination
//! signal and for the loops to end, and reports each of these to the
//! [`Supervisor`], which says what to do next. Neither service is of use
//! without the other: as soon as one loop ends, for whatever reason, the
//! other is stopped too. The process exits when both have ended, with a
//! non-zero code if either reported a failure.

use crate::channel::{bounded, valid_capacity, Outbox};
use crate::config::CoordinatorConfig;
use crate::error::CoordinatorError;
use crate::message::{AuthRequest, AuthRequestView, SuccessfulAuth, SuccessfulAuthView};
use tokio::sync::mpsc::Receiver;
use vstd::prelude::*;

verus! {

/// The two channels between the services, each as its two halves. The bot
/// loop owns `requests` and `completion_receiver`, the auth loop the other
/// two.
pub struct Channels {
    /// The sending half of the request channel.
    pub requests: Outbox<AuthRequest>,
    /// The receiving half of the request channel.
    pub request_receiver: Receiver<AuthRequest>,
    /// The sending half of the completion channel.
    pub completions: Outbox<SuccessfulAuth>,
    /// The receiving half of the completion channel.
    pub completion_receiver: Receiver<SuccessfulAuth>,
}

/// Opens both channels with the configured capacities. Nothing has been sent
/// on either. Capacities that no channel can have are a fatal setup error.
pub fn open_channels(config: &CoordinatorConfig) -> (channels: Result<Channels, CoordinatorError>)
    ensures
        channels is Ok <==> valid_capacity(config.request_capacity) && valid_capacity(
            config.completion_capacity,
        ),
        channels matches Ok(c) ==> c.requests.sent() == Seq::<AuthRequestView>::empty()
            && c.completions.sent() == Seq::<SuccessfulAuthView>::empty(),
        channels matches Err(e) ==> e == CoordinatorError::Fatal,
{
    let requests = bounded::<AuthRequest>(config.request_capacity);
    let completions = bounded::<SuccessfulAuth>(config.completion_capacity);
    match (requests, completions) {
        (Some((requests, request_receiver)), Some((completions, completion_receiver))) => Ok(
            Channels { requests, request_receiver, completions, completion_receiver },
        ),
        _ => Err(CoordinatorError::Fatal),
    }
}

/// One of the two service loops.
#[derive(Clone, Copy, Debug, PartialEq, Eq, Structural)]
pub enum ServiceLoop {
    Bot,
    Auth,
}

/// What the surrounding program reports to the supervisor.
#[derive(Clone, Copy, Debug, PartialEq, Eq, Structural)]
pub enum LifecycleEvent {
    /// The process was asked to terminate.
    TerminationSignal,
    /// A loop ended. `failed` says whether it reported a failure, such as a
    /// client that could not be set up; a loop that was stopped by the
    /// supervisor did not fail.
    LoopEnded { which: ServiceLoop, failed: bool },
}

/// What the surrounding program has to do next.
#[derive(Clone, Copy, Debug, PartialEq, Eq, Structural)]
pub enum SupervisorAction {
    /// Keep waiting for the next event.
    Wait,
    /// Stop accepting sends on both channels and stop the loops that still
    /// run. Handshakes in flight may finish or be abandoned.
    StopLoops,
    /// Both loops have ended: exit with this code.
    Exit { code: u8 },
}

/// The lifecycle of the two loops.
#[derive(Clone, Copy, Debug, PartialEq, Eq, Structural)]
pub struct Supervisor {
    /// Whether the bot loop has not ended yet.
    pub bot_running: bool,
    /// Whether the auth loop has not ended yet.
    pub auth_running: bool,
    /// Whether the loops were told to stop.
    pub stop_requested: bool,
    /// Whether a loop reported a failure.
    pub failed: bool,
}

impl Supervisor {
    /// The state right after both loops were spawned.
    pub open spec fn started() -> Supervisor {
        Supervisor { bot_running: true, auth_running: true, stop_requested: false, failed: false }
    }

    /// Whether both loops have ended.
    pub open spec fn finished(self) -> bool {
        !self.bot_running && !self.auth_running
    }

    /// The exit code of the process: zero unless a loop reported a failure.
    pub open spec fn exit_code(self) -> u8 {
        if self.failed {
            1
        } else {
            0
        }
    }

    /// Whether the channels still take new messages: both loops run and
    /// nobody asked them to stop.
    pub open spec fn accepting(self) -> bool {
        self.bot_running && self.auth_running && !self.stop_requested
    }

    /// The state after `event`.
    pub open spec fn after(self, event: LifecycleEvent) -> Supervisor {
        match event {
            LifecycleEvent::TerminationSignal => Supervisor {
                bot_running: self.bot_running,
                auth_running: self.auth_running,
                stop_requested: true,
                failed: self.failed,
            },
            LifecycleEvent::LoopEnded { which, failed } => Supervisor {
                bot_running: self.bot_running && which != ServiceLoop::Bot,
                auth_running: self.auth_running && which != ServiceLoop::Auth,
                stop_requested: true,
                failed: self.failed || failed,
            },
        }
    }

    /// What to do about `event` in this state.
    pub open spec fn action_for(self, event: LifecycleEvent) -> SupervisorAction {
        if self.after(event).finished() {
            SupervisorAction::Exit { code: self.after(event).exit_code() }
        } else if !self.stop_requested {
            SupervisorAction::StopLoops
        } else {
            SupervisorAction::Wait
        }
    }

    /// The state after a sequence of events, oldest first.
    pub open spec fn after_all(self, events: Seq<LifecycleEvent>) -> Supervisor
        decreases events.len(),
    {
        if events.len() == 0 {
            self
        } else {
            self.after_all(events.drop_last()).after(events.last())
        }
    }

    /// The supervisor right after both loops were spawned.
    pub fn new() -> (supervisor: Supervisor)
        ensures
            supervisor == Supervisor::started(),
    {
        Supervisor { bot_running: true, auth_running: true, stop_requested: false, failed: false }
    }

    /// Whether the channels still take new messages.
    pub fn is_accepting(&self) -> (accepting: bool)
        ensures
            accepting == self.accepting(),
    {
        self.bot_running && self.auth_running && !self.stop_requested
    }

    /// Takes note of `event` and says what to do next.
    pub fn handle(&mut self, event: LifecycleEvent) -> (action: SupervisorAction)
        ensures
            *final(self) == old(self).after(event),
            action == old(self).action_for(event),
    {
        let was_stopping = self.stop_requested;
        match event {
            LifecycleEvent::TerminationSignal => {},
            LifecycleEvent::LoopEnded { which, failed } => {
                match which {
                    ServiceLoop::Bot => {
                        self.bot_running = false;
                    },
                    ServiceLoop::Auth => {
                        self.auth_running = false;
                    },
                }
                if failed {
                    self.failed = true;
                }
            },
        }
        self.stop_requested = true;
        if !self.bot_running && !self.auth_running {
            SupervisorAction::Exit { code: if self.failed { 1 } else { 0 } }
        } else if !was_stopping {
            SupervisorAction::StopLoops
        } else {
            SupervisorAction::Wait
        }
    }
}

/// The process exits only when both loops have ended, and its code is
/// non-zero exactly when a failure was reported up to then.
pub proof fn lemma_exit_needs_both_ended(state: Supervisor, event: LifecycleEvent)
    ensures
        state.action_for(event) is Exit <==> state.after(event).finished(),
        state.action_for(event) matches SupervisorAction::Exit { code } ==> (code != 0
            <==> state.after(event).failed),
{
}

/// Every event makes the supervisor stop the loops: after the first event,
/// whether it was the signal or the end of a loop, the channels take no new
/// messages, and the loops are told to stop unless both have ended already.
pub proof fn lemma_first_event_stops_loops(state: Supervisor, event: LifecycleEvent)
    requires
        state.accepting(),
    ensures
        !state.after(event).accepting(),
        state.action_for(event) == SupervisorAction::StopLoops,
{
}

/// Nothing restarts a loop, takes back a request to stop, or forgets a
/// failure.
pub proof fn lemma_lifecycle_is_monotone(state: Supervisor, events: Seq<LifecycleEvent>)
    ensures
        state.after_all(events).bot_running ==> state.bot_running,
        state.after_all(events).auth_running ==> state.auth_running,
        state.stop_requested ==> state.after_all(events).stop_requested,
        state.failed ==> state.after_all(events).failed,
    decreases events.len(),
{
    if events.len() > 0 {
        lemma_lifecycle_is_monotone(state, events.drop_last());
    }
}

/// What the supervisor keeps of the events it has seen.
pub enum Report {
    /// A loop ended and reported a failure.
    Failure,
    /// The loop `which` ended.
    EndOf { which: ServiceLoop },
}

/// Whether `event` reports `what`.
pub open spec fn reports(event: LifecycleEvent, what: Report) -> bool {
    match what {
        Report::Failure => event matches LifecycleEvent::LoopEnded { failed, .. } && failed,
        Report::EndOf { which } => event matches LifecycleEvent::LoopEnded { which: ended, .. }
            && ended == which,
    }
}

/// Whether one of `events` reports `what`.
pub open spec fn reported(events: Seq<LifecycleEvent>, what: Report) -> bool {
    exists|i: int| 0 <= i < events.len() && reports(#[trigger] events[i], what)
}

/// Whether `state` has `what` on record.
pub open spec fn records(state: Supervisor, what: Report) -> bool {
    match what {
        Report::Failure => state.failed,
        Report::EndOf { which: ServiceLoop::Bot } => !state.bot_running,
        Report::EndOf { which: ServiceLoop::Auth } => !state.auth_running,
    }
}

/// After any sequence of events from the start, the supervisor has on
/// record exactly what the events reported: a failure if a loop that ended
/// had failed, and the end of a loop if its end was among the events.
pub proof fn lemma_state_records_reports(events: Seq<LifecycleEvent>, what: Report)
    ensures
        records(Supervisor::started().after_all(events), what) <==> reported(events, what),
    decreases events.len(),
{
    if events.len() > 0 {
        let earlier = events.drop_last();
        lemma_state_records_reports(earlier, what);
        if reported(earlier, what) {
            let i = choose|i: int| 0 <= i < earlier.len() && reports(#[trigger] earlier[i], what);
            assert(reports(events[i], what));
        }
        if reports(events.last(), what) {
            assert(reports(events[events.len() - 1], what));
        }
        if reported(events, what) {
            let i = choose|i: int| 0 <= i < events.len() && reports(#[trigger] events[i], what);
            if i < earlier.len() {
                assert(reports(earlier[i], what));
            }
        }
    }
}

/// After any sequence of events from the start, the exit code is non-zero
/// exactly when one of the events was the end of a loop that failed, and
/// both loops have ended exactly when the end of each was reported.
pub proof fn lemma_exit_code_tells_failure(events: Seq<LifecycleEvent>)
    ensures
        Supervisor::started().after_all(events).exit_code() != 0 <==> reported(
            events,
            Report::Failure,
        ),
        Supervisor::started().after_all(events).finished() <==> reported(
            events,
            Report::EndOf { which: ServiceLoop::Bot },
        ) && reported(events, Report::EndOf { which: ServiceLoop::Auth }),
{
    lemma_state_records_reports(events, Report::Failure);
    lemma_state_records_reports(events, Report::EndOf { which: ServiceLoop::Bot });
    lemma_state_records_reports(events, Report::EndOf { which: ServiceLoop::Auth });
}

} // verus!
