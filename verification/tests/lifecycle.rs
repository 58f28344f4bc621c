use wikiauthbot::config::{
    CoordinatorConfig, DEFAULT_CHANNEL_CAPACITY, DEFAULT_EXPIRY_AGE, DEFAULT_SWEEP_INTERVAL,
};
use wikiauthbot::error::CoordinatorError;
use wikiauthbot::supervisor::{
    open_channels, LifecycleEvent, ServiceLoop, Supervisor, SupervisorAction,
};

fn ended(which: ServiceLoop, failed: bool) -> LifecycleEvent {
    LifecycleEvent::LoopEnded { which, failed }
}

#[test]
fn defaults_are_small_and_usable() {
    let options = CoordinatorConfig::default();
    assert_eq!(options.request_capacity, 10);
    assert_eq!(options.completion_capacity, 10);
    assert_eq!(options.sweep_interval, 30);
    assert_eq!(options.expiry_age, 300);
    assert_eq!(DEFAULT_CHANNEL_CAPACITY, 10);
    assert_eq!(DEFAULT_SWEEP_INTERVAL, 30);
    assert_eq!(DEFAULT_EXPIRY_AGE, 300);
    assert!(options.is_usable());
    assert_eq!(options.validated(), Ok(options));
}

#[test]
fn unusable_options_are_a_fatal_setup_error() {
    let good = CoordinatorConfig::default();
    let no_requests = CoordinatorConfig { request_capacity: 0, ..good };
    let no_completions = CoordinatorConfig { completion_capacity: 0, ..good };
    let huge = CoordinatorConfig { request_capacity: usize::MAX, ..good };
    let no_period = CoordinatorConfig { sweep_interval: 0, ..good };
    for options in [no_requests, no_completions, huge, no_period] {
        assert!(!options.is_usable());
        assert_eq!(options.validated(), Err(CoordinatorError::Fatal));
    }
    let no_patience = CoordinatorConfig { expiry_age: 0, ..good };
    assert!(no_patience.is_usable());
}

#[test]
fn channels_open_exactly_for_capacities_that_exist() {
    let good = CoordinatorConfig::default();
    assert!(open_channels(&good).is_ok());
    let no_requests = CoordinatorConfig { request_capacity: 0, ..good };
    assert_eq!(open_channels(&no_requests).err(), Some(CoordinatorError::Fatal));
    let no_completions = CoordinatorConfig { completion_capacity: 0, ..good };
    assert_eq!(open_channels(&no_completions).err(), Some(CoordinatorError::Fatal));
    let no_period = CoordinatorConfig { sweep_interval: 0, ..good };
    assert!(open_channels(&no_period).is_ok());
}

#[test]
fn clean_shutdown_exits_with_zero() {
    let mut supervisor = Supervisor::new();
    assert!(supervisor.is_accepting());
    assert_eq!(supervisor.handle(LifecycleEvent::TerminationSignal), SupervisorAction::StopLoops);
    assert!(!supervisor.is_accepting());
    assert_eq!(supervisor.handle(ended(ServiceLoop::Auth, false)), SupervisorAction::Wait);
    assert_eq!(
        supervisor.handle(ended(ServiceLoop::Bot, false)),
        SupervisorAction::Exit { code: 0 }
    );
    assert_eq!(
        supervisor,
        Supervisor { bot_running: false, auth_running: false, stop_requested: true, failed: false }
    );
}

#[test]
fn failure_of_one_loop_stops_the_other_and_exits_non_zero() {
    let mut supervisor = Supervisor::new();
    assert_eq!(supervisor.handle(ended(ServiceLoop::Bot, true)), SupervisorAction::StopLoops);
    assert!(!supervisor.is_accepting());
    assert!(supervisor.auth_running);
    assert_eq!(
        supervisor.handle(ended(ServiceLoop::Auth, false)),
        SupervisorAction::Exit { code: 1 }
    );
}

#[test]
fn failure_during_shutdown_still_exits_non_zero() {
    let mut supervisor = Supervisor::new();
    assert_eq!(supervisor.handle(LifecycleEvent::TerminationSignal), SupervisorAction::StopLoops);
    assert_eq!(supervisor.handle(ended(ServiceLoop::Auth, true)), SupervisorAction::Wait);
    assert_eq!(
        supervisor.handle(ended(ServiceLoop::Bot, false)),
        SupervisorAction::Exit { code: 1 }
    );
}

#[test]
fn a_loop_that_ends_by_itself_takes_the_other_down() {
    let mut supervisor = Supervisor::new();
    assert_eq!(supervisor.handle(ended(ServiceLoop::Auth, false)), SupervisorAction::StopLoops);
    assert_eq!(supervisor.handle(LifecycleEvent::TerminationSignal), SupervisorAction::Wait);
    assert_eq!(
        supervisor.handle(ended(ServiceLoop::Bot, false)),
        SupervisorAction::Exit { code: 0 }
    );
}

#[test]
fn repeated_reports_change_nothing() {
    let mut supervisor = Supervisor::new();
    assert_eq!(supervisor.handle(LifecycleEvent::TerminationSignal), SupervisorAction::StopLoops);
    assert_eq!(supervisor.handle(LifecycleEvent::TerminationSignal), SupervisorAction::Wait);
    assert_eq!(supervisor.handle(ended(ServiceLoop::Bot, false)), SupervisorAction::Wait);
    assert_eq!(supervisor.handle(ended(ServiceLoop::Bot, false)), SupervisorAction::Wait);
    assert!(supervisor.auth_running);
    assert_eq!(
        supervisor.handle(ended(ServiceLoop::Auth, false)),
        SupervisorAction::Exit { code: 0 }
    );
    assert_eq!(
        supervisor.handle(LifecycleEvent::TerminationSignal),
        SupervisorAction::Exit { code: 0 }
    );
}
