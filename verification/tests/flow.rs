use tokio::sync::mpsc::error::TryRecvError;
use wikiauthbot::auth::{completion_for, conclude, settle_completion, Conclusion, HandshakeOutcome};
use wikiauthbot::bot::{CompletionAction, Data, UserState};
use wikiauthbot::channel::{bounded, SendOutcome};
use wikiauthbot::config::CoordinatorConfig;
use wikiauthbot::error::CoordinatorError;
use wikiauthbot::identity::{next_entropy, UserIdentity, VerificationToken};
use wikiauthbot::message::{AuthRequest, SuccessfulAuth};
use wikiauthbot::supervisor::open_channels;

fn entropy(seed: u8) -> [u8; 16] {
    let mut bytes = [0u8; 16];
    for (i, byte) in bytes.iter_mut().enumerate() {
        *byte = seed.wrapping_mul(17).wrapping_add(i as u8);
    }
    bytes
}

fn config(capacity: usize, expiry_age: u64) -> CoordinatorConfig {
    CoordinatorConfig {
        request_capacity: capacity,
        completion_capacity: capacity,
        sweep_interval: 5,
        expiry_age,
    }
}

fn sorted_ids(users: &[UserIdentity]) -> Vec<u64> {
    let mut ids: Vec<u64> = users.iter().map(|user| user.id).collect();
    ids.sort();
    ids
}

#[test]
fn verification_round_trip() {
    let options = CoordinatorConfig::default();
    let channels = open_channels(&options).ok().unwrap();
    let mut request_receiver = channels.request_receiver;
    let mut completion_receiver = channels.completion_receiver;
    let mut completions = channels.completions;
    let mut data = Data::new(options, channels.requests);
    let alice = UserIdentity::new(1001);

    // The command: one pending entry with the token, one request with both.
    let token = data.request_verification(alice, Some(77), entropy(1), 5_000).unwrap();
    assert_eq!(data.user_state(alice), UserState::Pending);
    assert_eq!(data.pending_count(), 1);
    let request = request_receiver.try_recv().unwrap();
    assert_eq!(request.user, alice);
    assert_eq!(request.token.as_str(), token.as_str());
    assert_eq!(request.context, Some(77));
    assert_eq!(request_receiver.try_recv().err(), Some(TryRecvError::Empty));

    // The handshake succeeds: one completion for the same user.
    let outcome = HandshakeOutcome::Success { account: String::from("Alice on wiki") };
    assert_eq!(conclude(&mut completions, request, outcome), Ok(Conclusion::Announced));
    let completion = completion_receiver.try_recv().unwrap();
    assert_eq!(completion.user, alice);
    assert_eq!(completion.account, "Alice on wiki");
    assert_eq!(completion_receiver.try_recv().err(), Some(TryRecvError::Empty));

    // The completion: the effect for the user, and the entry is gone.
    match data.handle_completion(completion) {
        CompletionAction::Grant { user, account, token: consumed } => {
            assert_eq!(user, alice);
            assert_eq!(account, "Alice on wiki");
            assert!(consumed.same_as(&token));
        }
        CompletionAction::Dropped { .. } => panic!("the completion was dropped"),
    }
    assert_eq!(data.user_state(alice), UserState::Idle);
    assert_eq!(data.pending_count(), 0);
}

#[test]
fn second_command_is_already_pending_and_sends_nothing() {
    let options = CoordinatorConfig::default();
    let channels = open_channels(&options).ok().unwrap();
    let mut request_receiver = channels.request_receiver;
    let mut data = Data::new(options, channels.requests);
    let bob = UserIdentity::new(2002);

    let first = data.request_verification(bob, None, entropy(1), 100);
    let second = data.request_verification(bob, None, entropy(2), 101);
    assert!(first.is_ok());
    assert_eq!(second.err(), Some(CoordinatorError::AlreadyPending));
    assert_eq!(data.pending_count(), 1);

    let request = request_receiver.try_recv().unwrap();
    assert_eq!(request.user, bob);
    assert_eq!(request.token.as_str(), VerificationToken::from_entropy(entropy(1)).as_str());
    assert_eq!(request.context, None);
    assert_eq!(request_receiver.try_recv().err(), Some(TryRecvError::Empty));
}

#[test]
fn lapsed_verification_is_swept_and_its_completion_dropped() {
    let options = config(10, 60);
    let channels = open_channels(&options).ok().unwrap();
    let _request_receiver = channels.request_receiver;
    let mut data = Data::new(options, channels.requests);
    let carol = UserIdentity::new(3003);
    let t0 = 1_700_000_000;

    data.request_verification(carol, None, entropy(3), t0).unwrap();
    assert!(data.sweep(t0 + 60).is_empty());
    assert_eq!(data.user_state(carol), UserState::Pending);

    assert_eq!(sorted_ids(&data.sweep(t0 + 61)), vec![3003]);
    assert_eq!(data.user_state(carol), UserState::Idle);

    let late = SuccessfulAuth::new(carol, String::from("Carol"));
    match data.handle_completion(late) {
        CompletionAction::Dropped { user } => assert_eq!(user, carol),
        CompletionAction::Grant { .. } => panic!("a lapsed verification was completed"),
    }
    assert_eq!(data.pending_count(), 0);
}

#[test]
fn send_beyond_capacity_fails_with_channel_full() {
    let options = config(2, 60);
    let channels = open_channels(&options).ok().unwrap();
    let mut request_receiver = channels.request_receiver;
    let mut data = Data::new(options, channels.requests);

    assert!(data.request_verification(UserIdentity::new(1), None, entropy(1), 10).is_ok());
    assert!(data.request_verification(UserIdentity::new(2), None, entropy(2), 10).is_ok());
    let third = data.request_verification(UserIdentity::new(3), None, entropy(3), 10);
    assert_eq!(third.err(), Some(CoordinatorError::ChannelFull));

    // The refused user is idle again and nothing of the attempt is left.
    assert_eq!(data.user_state(UserIdentity::new(3)), UserState::Idle);
    assert_eq!(data.pending_count(), 2);

    // Once the consumer took a message, the user's retry goes through.
    assert_eq!(request_receiver.try_recv().unwrap().user, UserIdentity::new(1));
    let retry = data.request_verification(UserIdentity::new(3), None, entropy(4), 11).unwrap();
    assert_eq!(retry.as_str(), VerificationToken::from_entropy(entropy(4)).as_str());
    assert_eq!(request_receiver.try_recv().unwrap().user, UserIdentity::new(2));
    let retried = request_receiver.try_recv().unwrap();
    assert_eq!(retried.user, UserIdentity::new(3));
    assert_eq!(retried.token.as_str(), retry.as_str());
    assert_eq!(request_receiver.try_recv().err(), Some(TryRecvError::Empty));
}

#[test]
fn send_on_a_closed_channel_is_fatal_and_leaves_no_entry() {
    let options = CoordinatorConfig::default();
    let channels = open_channels(&options).ok().unwrap();
    drop(channels.request_receiver);
    let mut data = Data::new(options, channels.requests);
    let user = UserIdentity::new(5);
    let reply = data.request_verification(user, None, entropy(5), 10);
    assert_eq!(reply.err(), Some(CoordinatorError::Fatal));
    assert_eq!(data.user_state(user), UserState::Idle);
    assert_eq!(data.pending_count(), 0);
}

#[test]
fn requests_arrive_in_the_order_they_were_sent() {
    let (mut outbox, mut receiver) = bounded::<AuthRequest>(4).unwrap();
    for id in 1..=4u64 {
        let token = VerificationToken::from_entropy(entropy(id as u8));
        let request = AuthRequest::new(UserIdentity::new(id), token, Some(id * 10));
        assert_eq!(outbox.try_send(request), SendOutcome::Sent);
    }
    let overflow = AuthRequest::new(
        UserIdentity::new(5),
        VerificationToken::from_entropy(entropy(5)),
        None,
    );
    assert_eq!(outbox.try_send(overflow), SendOutcome::Full);
    for id in 1..=4u64 {
        let request = receiver.try_recv().unwrap();
        assert_eq!(request.user.id, id);
        assert_eq!(request.context, Some(id * 10));
    }
    assert_eq!(receiver.try_recv().err(), Some(TryRecvError::Empty));
}

#[test]
fn outbox_send_reports_full_and_closed() {
    let (mut outbox, receiver) = bounded::<SuccessfulAuth>(1).unwrap();
    let message = |id: u64| SuccessfulAuth::new(UserIdentity::new(id), String::from("name"));
    assert_eq!(outbox.send(message(1)), Ok(()));
    assert_eq!(outbox.send(message(2)), Err(CoordinatorError::ChannelFull));
    drop(receiver);
    assert_eq!(outbox.send(message(3)), Err(CoordinatorError::Fatal));
    assert_eq!(outbox.try_send(message(4)), SendOutcome::Closed);
}

#[test]
fn no_channel_has_capacity_zero_or_beyond_the_limit() {
    assert!(bounded::<SuccessfulAuth>(0).is_none());
    assert!(bounded::<SuccessfulAuth>(usize::MAX).is_none());
    assert!(bounded::<SuccessfulAuth>(usize::MAX / 8 + 1).is_none());
    assert!(bounded::<SuccessfulAuth>(1).is_some());
}

#[test]
fn send_outcome_as_result() {
    assert_eq!(SendOutcome::Sent.into_result(), Ok(()));
    assert_eq!(SendOutcome::Full.into_result(), Err(CoordinatorError::ChannelFull));
    assert_eq!(SendOutcome::Closed.into_result(), Err(CoordinatorError::Fatal));
}

#[test]
fn settle_request_keeps_or_withdraws_the_entry() {
    let options = CoordinatorConfig::default();
    let channels = open_channels(&options).ok().unwrap();
    let mut data = Data::new(options, channels.requests);
    let user = UserIdentity::new(8);
    let token = VerificationToken::from_entropy(entropy(8));

    let kept = data.settle_request(user, token.clone(), SendOutcome::Sent).unwrap();
    assert!(kept.same_as(&token));
    assert_eq!(data.pending_count(), 0);

    data.request_verification(user, None, entropy(8), 1).unwrap();
    let full = data.settle_request(user, token.clone(), SendOutcome::Full);
    assert_eq!(full.err(), Some(CoordinatorError::ChannelFull));
    assert_eq!(data.user_state(user), UserState::Idle);

    data.request_verification(user, None, entropy(8), 2).unwrap();
    let closed = data.settle_request(user, token, SendOutcome::Closed);
    assert_eq!(closed.err(), Some(CoordinatorError::Fatal));
    assert_eq!(data.user_state(user), UserState::Idle);
}

#[test]
fn completion_for_unknown_user_is_dropped_without_effect() {
    let options = CoordinatorConfig::default();
    let channels = open_channels(&options).ok().unwrap();
    let mut data = Data::new(options, channels.requests);
    data.request_verification(UserIdentity::new(1), None, entropy(1), 1).unwrap();
    let spoofed = SuccessfulAuth::new(UserIdentity::new(2), String::from("Mallory"));
    match data.handle_completion(spoofed) {
        CompletionAction::Dropped { user } => assert_eq!(user.id, 2),
        CompletionAction::Grant { .. } => panic!("a completion without a request was acted on"),
    }
    assert_eq!(data.pending_count(), 1);
    assert_eq!(data.user_state(UserIdentity::new(1)), UserState::Pending);
}

#[test]
fn duplicate_completion_applies_the_effect_once() {
    let options = CoordinatorConfig::default();
    let channels = open_channels(&options).ok().unwrap();
    let mut data = Data::new(options, channels.requests);
    let user = UserIdentity::new(6);
    let token = data.request_verification(user, None, entropy(6), 1).unwrap();

    let mut grants = 0;
    let mut drops = 0;
    for _ in 0..2 {
        match data.handle_completion(SuccessfulAuth::new(user, String::from("Sixth"))) {
            CompletionAction::Grant { user: granted, account, token: consumed } => {
                assert_eq!(granted, user);
                assert_eq!(account, "Sixth");
                assert!(consumed.same_as(&token));
                grants += 1;
            }
            CompletionAction::Dropped { user: dropped } => {
                assert_eq!(dropped, user);
                drops += 1;
            }
        }
    }
    assert_eq!((grants, drops), (1, 1));
}

#[test]
fn failed_handshake_sends_nothing() {
    let (mut completions, mut receiver) = bounded::<SuccessfulAuth>(1).unwrap();
    let request = AuthRequest::new(
        UserIdentity::new(4),
        VerificationToken::from_entropy(entropy(4)),
        None,
    );
    assert_eq!(
        conclude(&mut completions, request, HandshakeOutcome::Failure),
        Ok(Conclusion::Silent)
    );
    assert_eq!(receiver.try_recv().err(), Some(TryRecvError::Empty));
}

#[test]
fn completion_that_finds_the_channel_full_is_reported() {
    let (mut completions, mut receiver) = bounded::<SuccessfulAuth>(1).unwrap();
    let request = |id: u64| {
        AuthRequest::new(UserIdentity::new(id), VerificationToken::from_entropy(entropy(1)), None)
    };
    let success = || HandshakeOutcome::Success { account: String::from("Name") };
    assert_eq!(conclude(&mut completions, request(1), success()), Ok(Conclusion::Announced));
    assert_eq!(
        conclude(&mut completions, request(2), success()),
        Err(CoordinatorError::ChannelFull)
    );
    assert_eq!(receiver.try_recv().unwrap().user.id, 1);
    assert_eq!(receiver.try_recv().err(), Some(TryRecvError::Empty));
    drop(receiver);
    assert_eq!(conclude(&mut completions, request(3), success()), Err(CoordinatorError::Fatal));
}

#[test]
fn completion_carries_the_user_of_the_request() {
    let request = AuthRequest::new(
        UserIdentity::new(31),
        VerificationToken::from_entropy(entropy(9)),
        Some(1),
    );
    let message = completion_for(
        request,
        HandshakeOutcome::Success { account: String::from("Thirty-one") },
    )
    .unwrap();
    assert_eq!(message.user.id, 31);
    assert_eq!(message.account, "Thirty-one");

    let again = AuthRequest::new(
        UserIdentity::new(31),
        VerificationToken::from_entropy(entropy(9)),
        Some(1),
    );
    assert!(completion_for(again, HandshakeOutcome::Failure).is_none());
}

#[test]
fn settle_completion_names_each_outcome() {
    assert_eq!(settle_completion(SendOutcome::Sent), Ok(Conclusion::Announced));
    assert_eq!(settle_completion(SendOutcome::Full), Err(CoordinatorError::ChannelFull));
    assert_eq!(settle_completion(SendOutcome::Closed), Err(CoordinatorError::Fatal));
}

#[test]
fn sweep_uses_the_configured_age() {
    let options = config(10, 5);
    let channels = open_channels(&options).ok().unwrap();
    let _request_receiver = channels.request_receiver;
    let mut data = Data::new(options, channels.requests);
    assert_eq!(data.config(), options);
    data.request_verification(UserIdentity::new(1), None, entropy(1), 100).unwrap();
    data.request_verification(UserIdentity::new(2), None, entropy(2), 103).unwrap();
    assert_eq!(sorted_ids(&data.sweep(106)), vec![1]);
    assert_eq!(sorted_ids(&data.sweep(109)), vec![2]);
    assert!(data.sweep(1_000).is_empty());
}

#[test]
fn two_users_with_one_entropy_get_requests_with_different_tokens() {
    let options = CoordinatorConfig::default();
    let channels = open_channels(&options).ok().unwrap();
    let mut request_receiver = channels.request_receiver;
    let mut data = Data::new(options, channels.requests);
    let first = data.request_verification(UserIdentity::new(1), None, entropy(5), 10).unwrap();
    let second = data.request_verification(UserIdentity::new(2), None, entropy(5), 10).unwrap();
    assert_eq!(first.as_str(), VerificationToken::from_entropy(entropy(5)).as_str());
    assert_eq!(
        second.as_str(),
        VerificationToken::from_entropy(next_entropy(entropy(5))).as_str()
    );
    let first_request = request_receiver.try_recv().unwrap();
    let second_request = request_receiver.try_recv().unwrap();
    assert_eq!(first_request.token.as_str(), first.as_str());
    assert_eq!(second_request.token.as_str(), second.as_str());
    assert_ne!(first_request.token.as_str(), second_request.token.as_str());
}
