use wikiauthbot::error::CoordinatorError;
use wikiauthbot::identity::{
    next_entropy, UserIdentity, VerificationToken, TOKEN_ENTROPY_BYTES, TOKEN_TEXT_LEN,
};

#[test]
fn token_text_is_lower_case_hex_of_the_entropy() {
    let entropy = [
        0x00, 0x01, 0x0f, 0x10, 0x7f, 0x80, 0x9a, 0xa9, 0xab, 0xbc, 0xcd, 0xde, 0xef, 0xf0, 0xfe,
        0xff,
    ];
    let token = VerificationToken::from_entropy(entropy);
    assert_eq!(token.as_str(), "00010f107f809aa9abbccddeeff0feff");
}

#[test]
fn token_text_of_zero_entropy() {
    let token = VerificationToken::from_entropy([0u8; 16]);
    assert_eq!(token.as_str(), "00000000000000000000000000000000");
}

#[test]
fn token_text_has_two_digits_per_byte() {
    assert_eq!(TOKEN_ENTROPY_BYTES, 16);
    assert_eq!(TOKEN_TEXT_LEN, 32);
    let token = VerificationToken::from_entropy([0xa5u8; 16]);
    assert_eq!(token.as_str().len(), TOKEN_TEXT_LEN);
    assert!(token.as_str().chars().all(|c| c.is_ascii_digit() || ('a'..='f').contains(&c)));
}

#[test]
fn different_entropy_gives_different_tokens() {
    let mut first = [7u8; 16];
    let mut second = [7u8; 16];
    first[15] = 0x10;
    second[15] = 0x01;
    let a = VerificationToken::from_entropy(first);
    let b = VerificationToken::from_entropy(second);
    assert!(!a.same_as(&b));
    assert!(a.same_as(&VerificationToken::from_entropy(first)));
}

#[test]
fn a_cloned_token_is_the_same_token() {
    let token = VerificationToken::from_entropy([3u8; 16]);
    let copy = token.clone();
    assert!(copy.same_as(&token));
    assert_eq!(copy.as_str(), token.as_str());
}

#[test]
fn user_identity_keeps_its_identifier() {
    let user = UserIdentity::new(123_456_789);
    assert_eq!(user.id, 123_456_789);
    assert_eq!(user, UserIdentity::new(123_456_789));
    assert_ne!(user, UserIdentity::new(1));
}

#[test]
fn only_already_pending_and_channel_full_reach_the_user() {
    assert!(CoordinatorError::AlreadyPending.is_user_visible());
    assert!(CoordinatorError::ChannelFull.is_user_visible());
    assert!(!CoordinatorError::NotFound.is_user_visible());
    assert!(!CoordinatorError::Fatal.is_user_visible());
}

#[test]
fn only_fatal_is_fatal() {
    assert!(CoordinatorError::Fatal.is_fatal());
    assert!(!CoordinatorError::AlreadyPending.is_fatal());
    assert!(!CoordinatorError::ChannelFull.is_fatal());
    assert!(!CoordinatorError::NotFound.is_fatal());
}

#[test]
fn each_error_has_its_own_message() {
    assert_eq!(
        CoordinatorError::AlreadyPending.message(),
        "a verification is already in progress"
    );
    assert_eq!(
        CoordinatorError::ChannelFull.message(),
        "the verification service is busy, try again shortly"
    );
    assert_eq!(CoordinatorError::NotFound.message(), "no verification is pending");
    assert_eq!(CoordinatorError::Fatal.message(), "the coordinator cannot continue");
}

#[test]
fn next_entropy_adds_one_to_the_last_byte() {
    let mut entropy = [0u8; 16];
    entropy[15] = 0x41;
    let mut expected = [0u8; 16];
    expected[15] = 0x42;
    assert_eq!(next_entropy(entropy), expected);
}

#[test]
fn next_entropy_carries_into_earlier_bytes() {
    let mut entropy = [0x11u8; 16];
    entropy[13] = 0x2a;
    entropy[14] = 0xff;
    entropy[15] = 0xff;
    let mut expected = [0x11u8; 16];
    expected[13] = 0x2b;
    expected[14] = 0x00;
    expected[15] = 0x00;
    assert_eq!(next_entropy(entropy), expected);
}

#[test]
fn next_entropy_after_the_largest_is_zero() {
    assert_eq!(next_entropy([0xff; 16]), [0u8; 16]);
    let mut one = [0u8; 16];
    one[15] = 1;
    assert_eq!(next_entropy([0u8; 16]), one);
}
