//! The registry as a mathematical object: a map from users to the
//! verification each has in flight, and what the three operations do to it.
//!
//! The registry is linearizable, so every concurrent history of it reads as
//! some sequence of the steps below. The lemmas at the end state what such a
//! sequence can and cannot do.

use crate::error::CoordinatorError;
use crate::identity::{
    lemma_successors_differ, lemma_token_text_injective, limit, nth_successor, token_text,
};
use vstd::set_lib::lemma_len_subset;
use vstd::prelude::*;

verus! {

/// One verification in flight.
pub struct Pending {
    /// The text of the token that was issued for it.
    pub token: Seq<char>,
    /// When it began, in seconds of the caller's clock.
    pub started_at: u64,
}

/// Users, by their identifier, and the verification each has in flight.
/// Being a map, it has at most one entry for a user.
pub type Registry = Map<u64, Pending>;

/// Whether a verification that began at `started_at` is older than
/// `max_age` at the time `now`.
pub open spec fn is_expired(started_at: u64, now: u64, max_age: u64) -> bool {
    now - started_at > max_age
}

/// Whether `token` belongs to a verification in flight.
pub open spec fn token_in_use(registry: Registry, token: Seq<char>) -> bool {
    exists|user: u64| registry.contains_key(user) && (#[trigger] registry[user]).token == token
}

/// Whether no two verifications in flight share a token.
pub open spec fn tokens_unique(registry: Registry) -> bool {
    forall|first: u64, second: u64|
        registry.contains_key(first) && registry.contains_key(second) && first != second ==> (
        #[trigger] registry[first]).token != (#[trigger] registry[second]).token
}

/// Whether the token for a new verification is found `steps` steps after
/// `entropy`: the token made from the entropy reached then is in nobody's
/// use, and each one made on the way there is in somebody's.
pub open spec fn issued_after(registry: Registry, entropy: Seq<u8>, steps: nat) -> bool {
    &&& !token_in_use(registry, token_text(nth_successor(entropy, steps)))
    &&& forall|earlier: nat|
        earlier < steps ==> token_in_use(
            registry,
            token_text(#[trigger] nth_successor(entropy, earlier)),
        )
}

/// Whether `token` is the token that a new verification gets when the
/// caller drew `entropy`: the one made from the entropy itself if that is in
/// nobody's use, else from the first entropy after it of which that holds.
pub open spec fn is_issued(registry: Registry, entropy: Seq<u8>, token: Seq<char>) -> bool {
    exists|steps: nat|
        #[trigger] issued_after(registry, entropy, steps) && token == token_text(
            nth_successor(entropy, steps),
        )
}

/// The token that a new verification gets when the caller drew `entropy`.
pub open spec fn issued_token(registry: Registry, entropy: Seq<u8>) -> Seq<char> {
    choose|token: Seq<char>| is_issued(registry, entropy, token)
}

/// The registry after `user` asked to begin a verification with `token` at
/// the time `now`, and what the user is told.
pub open spec fn begin(registry: Registry, user: u64, token: Seq<char>, now: u64) -> (
    Registry,
    Result<Seq<char>, CoordinatorError>,
) {
    if registry.contains_key(user) {
        (registry, Err(CoordinatorError::AlreadyPending))
    } else {
        (registry.insert(user, Pending { token, started_at: now }), Ok(token))
    }
}

/// The registry after a completion for `user` arrived, and the token that
/// the completion consumed.
pub open spec fn complete(registry: Registry, user: u64) -> (
    Registry,
    Result<Seq<char>, CoordinatorError>,
) {
    if registry.contains_key(user) {
        (registry.remove(user), Ok(registry[user].token))
    } else {
        (registry, Err(CoordinatorError::NotFound))
    }
}

/// The users whose verification is older than `max_age` at the time `now`.
pub open spec fn expired_users(registry: Registry, max_age: u64, now: u64) -> Set<u64> {
    Set::new(
        |user: u64|
            registry.contains_key(user) && is_expired(registry[user].started_at, now, max_age),
    )
}

/// The registry after a sweep at the time `now`.
pub open spec fn sweep(registry: Registry, max_age: u64, now: u64) -> Registry {
    registry.remove_keys(expired_users(registry, max_age, now))
}

/// A registry and an entropy decide the token of a new verification: there
/// is at most one, it is [`issued_token`], and it is in nobody's use.
pub proof fn lemma_issued_token_is_fresh(registry: Registry, entropy: Seq<u8>, token: Seq<char>)
    requires
        is_issued(registry, entropy, token),
    ensures
        token == issued_token(registry, entropy),
        !token_in_use(registry, token),
        forall|user: u64| registry.contains_key(user) ==> (#[trigger] registry[user]).token != token,
{
    let other = issued_token(registry, entropy);
    let steps = choose|steps: nat|
        #[trigger] issued_after(registry, entropy, steps) && token == token_text(
            nth_successor(entropy, steps),
        );
    let other_steps = choose|steps: nat|
        #[trigger] issued_after(registry, entropy, steps) && other == token_text(
            nth_successor(entropy, steps),
        );
    if steps < other_steps {
        assert(token_in_use(registry, token_text(nth_successor(entropy, steps))));
    }
    if other_steps < steps {
        assert(token_in_use(registry, token_text(nth_successor(entropy, other_steps))));
    }
}

/// If the token made after `bound` steps is in nobody's use, a token is
/// issued after at most that many steps.
proof fn lemma_first_free_token(registry: Registry, entropy: Seq<u8>, bound: nat)
    requires
        !token_in_use(registry, token_text(nth_successor(entropy, bound))),
    ensures
        exists|steps: nat| steps <= bound && #[trigger] issued_after(registry, entropy, steps),
    decreases bound,
{
    if exists|earlier: nat|
        earlier < bound && !token_in_use(
            registry,
            token_text(#[trigger] nth_successor(entropy, earlier)),
        ) {
        let earlier = choose|earlier: nat|
            earlier < bound && !token_in_use(
                registry,
                token_text(#[trigger] nth_successor(entropy, earlier)),
            );
        lemma_first_free_token(registry, entropy, earlier);
        let steps = choose|steps: nat|
            steps <= earlier && #[trigger] issued_after(registry, entropy, steps);
        assert(steps <= bound && issued_after(registry, entropy, steps));
    } else {
        assert(issued_after(registry, entropy, bound));
    }
}

/// Every registry has a token to issue, whatever entropy the caller drew:
/// among the tokens made from the entropy and the ones after it, no more are
/// in use than the registry has entries. The bytes must have more numbers
/// than the registry has entries, which sixteen bytes always have.
pub proof fn lemma_a_token_is_issued(registry: Registry, entropy: Seq<u8>)
    requires
        registry.dom().finite(),
        registry.len() < limit(entropy.len()),
    ensures
        is_issued(registry, entropy, issued_token(registry, entropy)),
        !token_in_use(registry, issued_token(registry, entropy)),
{
    let count = registry.len();
    let made = |k: int| token_text(nth_successor(entropy, k as nat));
    if forall|k: int| 0 <= k <= count ==> token_in_use(registry, #[trigger] made(k)) {
        let holders = Seq::new(
            count + 1,
            |k: int|
                choose|user: u64|
                    registry.contains_key(user) && (#[trigger] registry[user]).token == made(k),
        );
        assert forall|k: int| 0 <= k <= count implies registry.contains_key(
            #[trigger] holders[k],
        ) && registry[holders[k]].token == made(k) by {
            assert(token_in_use(registry, made(k)));
        }
        assert forall|a: int, b: int|
            0 <= a < holders.len() && 0 <= b < holders.len() && a != b implies holders[a]
            != holders[b] by {
            let (low, high) = if a < b {
                (a, b)
            } else {
                (b, a)
            };
            lemma_successors_differ(entropy, low as nat, high as nat);
            if made(low) == made(high) {
                lemma_token_text_injective(
                    nth_successor(entropy, low as nat),
                    nth_successor(entropy, high as nat),
                );
            }
            assert(registry[holders[low]].token == made(low));
            assert(registry[holders[high]].token == made(high));
        }
        holders.unique_seq_to_set();
        assert(holders.to_set().subset_of(registry.dom())) by {
            assert forall|user: u64| holders.to_set().contains(user) implies registry.dom().contains(
                user,
            ) by {
                let k = choose|k: int| 0 <= k < holders.len() && holders[k] == user;
                assert(registry.contains_key(holders[k]));
            }
        }
        lemma_len_subset(holders.to_set(), registry.dom());
        assert(false);
    }
    let free = choose|k: int| 0 <= k <= count && !token_in_use(registry, #[trigger] made(k));
    lemma_first_free_token(registry, entropy, free as nat);
    let steps = choose|steps: nat|
        steps <= free && #[trigger] issued_after(registry, entropy, steps);
    assert(is_issued(registry, entropy, token_text(nth_successor(entropy, steps))));
    lemma_issued_token_is_fresh(registry, entropy, token_text(nth_successor(entropy, steps)));
}

/// A verification that begins with a token in nobody's use leaves the
/// tokens in flight distinct from each other.
pub proof fn lemma_fresh_token_keeps_tokens_unique(
    registry: Registry,
    user: u64,
    token: Seq<char>,
    now: u64,
)
    requires
        tokens_unique(registry),
        !token_in_use(registry, token),
    ensures
        tokens_unique(begin(registry, user, token, now).0),
{
    let after = begin(registry, user, token, now).0;
    assert forall|first: u64, second: u64|
        after.contains_key(first) && after.contains_key(second) && first != second implies (
    #[trigger] after[first]).token != (#[trigger] after[second]).token by {
        if registry.contains_key(first) {
            assert(registry[first].token == after[first].token);
        }
        if registry.contains_key(second) {
            assert(registry[second].token == after[second].token);
        }
    }
}

/// Neither a completion nor a sweep makes two tokens in flight the same.
pub proof fn lemma_removal_keeps_tokens_unique(
    registry: Registry,
    user: u64,
    max_age: u64,
    now: u64,
)
    requires
        tokens_unique(registry),
    ensures
        tokens_unique(complete(registry, user).0),
        tokens_unique(sweep(registry, max_age, now)),
{
    let completed = complete(registry, user).0;
    assert forall|first: u64, second: u64|
        completed.contains_key(first) && completed.contains_key(second) && first != second implies (
    #[trigger] completed[first]).token != (#[trigger] completed[second]).token by {
        assert(registry[first].token == completed[first].token);
        assert(registry[second].token == completed[second].token);
    }
    let swept = sweep(registry, max_age, now);
    assert forall|first: u64, second: u64|
        swept.contains_key(first) && swept.contains_key(second) && first != second implies (
    #[trigger] swept[first]).token != (#[trigger] swept[second]).token by {
        assert(registry[first].token == swept[first].token);
        assert(registry[second].token == swept[second].token);
    }
}

/// A registry never holds two verifications for one user.
pub proof fn lemma_at_most_one_entry(registry: Registry, user: u64, first: Pending, second: Pending)
    requires
        registry.contains_pair(user, first),
        registry.contains_pair(user, second),
    ensures
        first == second,
{
}

/// Beginning keeps the verifications of every other user, and never replaces
/// one that is in flight.
pub proof fn lemma_begin_keeps_entries(
    registry: Registry,
    user: u64,
    token: Seq<char>,
    now: u64,
    other: u64,
)
    requires
        registry.contains_key(other),
    ensures
        begin(registry, user, token, now).0.contains_pair(other, registry[other]),
{
}

/// Of two requests to begin for one user with nothing in between, the second
/// is turned away and changes nothing. If the user had nothing in flight
/// before, the first succeeds: one success and one refusal, whichever of the
/// two requests came first.
pub proof fn lemma_begin_twice(
    registry: Registry,
    user: u64,
    first_token: Seq<char>,
    first_now: u64,
    second_token: Seq<char>,
    second_now: u64,
)
    ensures
        ({
            let (after_first, first) = begin(registry, user, first_token, first_now);
            let (after_second, second) = begin(after_first, user, second_token, second_now);
            &&& second == Err::<Seq<char>, CoordinatorError>(CoordinatorError::AlreadyPending)
            &&& after_second == after_first
            &&& !registry.contains_key(user) ==> first == Ok::<Seq<char>, CoordinatorError>(
                first_token,
            )
            &&& registry.contains_key(user) ==> first == Err::<Seq<char>, CoordinatorError>(
                CoordinatorError::AlreadyPending,
            ) && after_first == registry
        }),
{
}

/// A completion for a user with nothing in flight finds nothing and changes
/// nothing.
pub proof fn lemma_complete_unknown_user(registry: Registry, user: u64)
    requires
        !registry.contains_key(user),
    ensures
        complete(registry, user) == (
            registry,
            Err::<Seq<char>, CoordinatorError>(CoordinatorError::NotFound),
        ),
{
}

/// After a verification began, the first completion consumes its token and
/// leaves the registry as it was before; a second delivery of the same
/// completion finds nothing and changes nothing.
pub proof fn lemma_complete_once(registry: Registry, user: u64, token: Seq<char>, now: u64)
    requires
        !registry.contains_key(user),
    ensures
        ({
            let (begun, issued) = begin(registry, user, token, now);
            let (after_first, first) = complete(begun, user);
            let (after_second, second) = complete(after_first, user);
            &&& issued == Ok::<Seq<char>, CoordinatorError>(token)
            &&& first == Ok::<Seq<char>, CoordinatorError>(token)
            &&& after_first == registry
            &&& second == Err::<Seq<char>, CoordinatorError>(CoordinatorError::NotFound)
            &&& after_second == after_first
        }),
{
    let (begun, issued) = begin(registry, user, token, now);
    assert(begun.remove(user) =~= registry);
}

/// Whatever the registry held, a second completion for a user right after a
/// first one finds nothing.
pub proof fn lemma_complete_twice(registry: Registry, user: u64)
    ensures
        ({
            let (after_first, first) = complete(registry, user);
            let (after_second, second) = complete(after_first, user);
            &&& second == Err::<Seq<char>, CoordinatorError>(CoordinatorError::NotFound)
            &&& after_second == after_first
        }),
{
}

/// A sweep removes exactly the verifications that are older than the
/// allowed age and leaves the others as they were.
pub proof fn lemma_sweep_entries(registry: Registry, max_age: u64, now: u64, user: u64)
    ensures
        sweep(registry, max_age, now).contains_key(user) <==> registry.contains_key(user)
            && !is_expired(registry[user].started_at, now, max_age),
        sweep(registry, max_age, now).contains_key(user) ==> sweep(registry, max_age, now)[user]
            == registry[user],
{
}

/// A verification that was older than the allowed age when the sweep ran is
/// gone, and a completion that arrives for it later finds nothing.
pub proof fn lemma_expired_never_completes(registry: Registry, max_age: u64, now: u64, user: u64)
    requires
        registry.contains_key(user),
        is_expired(registry[user].started_at, now, max_age),
    ensures
        expired_users(registry, max_age, now).contains(user),
        !sweep(registry, max_age, now).contains_key(user),
        complete(sweep(registry, max_age, now), user) == (
            sweep(registry, max_age, now),
            Err::<Seq<char>, CoordinatorError>(CoordinatorError::NotFound),
        ),
{
}

/// After a sweep nothing in the registry is older than the allowed age, so a
/// second sweep at the same time removes nothing.
pub proof fn lemma_sweep_idempotent(registry: Registry, max_age: u64, now: u64)
    ensures
        expired_users(sweep(registry, max_age, now), max_age, now) == Set::<u64>::empty(),
        sweep(sweep(registry, max_age, now), max_age, now) == sweep(registry, max_age, now),
{
    let once = sweep(registry, max_age, now);
    assert(expired_users(once, max_age, now) =~= Set::<u64>::empty());
    assert(sweep(once, max_age, now) =~= once);
}

/// None of the three operations makes a finite registry infinite.
pub proof fn lemma_operations_keep_finite(
    registry: Registry,
    user: u64,
    token: Seq<char>,
    max_age: u64,
    now: u64,
)
    requires
        registry.dom().finite(),
    ensures
        begin(registry, user, token, now).0.dom().finite(),
        complete(registry, user).0.dom().finite(),
        sweep(registry, max_age, now).dom().finite(),
        sweep(registry, max_age, now).len() <= registry.len(),
{
    let swept = sweep(registry, max_age, now);
    assert(swept.dom() =~= registry.dom().difference(expired_users(registry, max_age, now)));
    vstd::set_lib::lemma_len_difference(registry.dom(), expired_users(registry, max_age, now));
}

} // verus!
