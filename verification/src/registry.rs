//! The registry of verifications in flight.
//!
//! Each user has at most one. An entry is made when the user asks to be
//! verified, and leaves when the matching completion is consumed or when a
//! sweep finds it too old. Every operation takes the registry by exclusive
//! reference and does no I/O, so a caller that shares one registry among
//! tasks holds its lock only for the length of one call.

use crate::concurrent_map::{
    count_entries, has_entry, insert_entry, list_entries, new_map, remove_entry, stored_entries,
    EntryMap,
};
use crate::error::CoordinatorError;
use crate::identity::{
    is_token_text, lemma_limit_of_entropy, lemma_successors_differ, lemma_token_text_injective,
    next_entropy, nth_successor, token_text, UserIdentity, VerificationToken,
};
use crate::model;
use crate::model::{is_expired, issued_after, token_in_use, tokens_unique, Pending, Registry};
use vstd::set_lib::{lemma_int_range, lemma_len_subset, set_int_range};
use vstd::prelude::*;

verus! {

/// What the caller of an operation is told, with the token as its text.
pub open spec fn told(outcome: Result<VerificationToken, CoordinatorError>) -> Result<
    Seq<char>,
    CoordinatorError,
> {
    match outcome {
        Ok(token) => Ok(token@),
        Err(e) => Err(e),
    }
}

/// The identifiers of a list of users, in the order of the list.
pub open spec fn user_ids(users: Seq<UserIdentity>) -> Seq<u64> {
    users.map_values(|user: UserIdentity| user.id)
}

/// Whether `key` is among the first `upto` entries of `listing`.
spec fn listed_before(listing: Seq<(u64, String, u64)>, upto: int, key: u64) -> bool {
    exists|j: int| 0 <= j < upto && (#[trigger] listing[j]).0 == key
}

/// The first `upto + 1` entries of a listing are the first `upto` and the
/// one after them.
proof fn lemma_listed_one_more(listing: Seq<(u64, String, u64)>, upto: int, key: u64)
    requires
        0 <= upto < listing.len(),
    ensures
        listed_before(listing, upto + 1, key) <==> listed_before(listing, upto, key)
            || listing[upto].0 == key,
{
    if listed_before(listing, upto + 1, key) {
        let j = choose|j: int| 0 <= j < upto + 1 && (#[trigger] listing[j]).0 == key;
        if j < upto {
            assert(listed_before(listing, upto, key));
        }
    }
    if listed_before(listing, upto, key) {
        let j = choose|j: int| 0 <= j < upto && (#[trigger] listing[j]).0 == key;
        assert(0 <= j < upto + 1 && listing[j].0 == key);
    }
    if listing[upto].0 == key {
        assert(listed_before(listing, upto + 1, key));
    }
}

/// Distinct positions in a listing of `count` entries are at most `count`.
proof fn lemma_distinct_positions_are_few(positions: Seq<int>, count: nat)
    requires
        positions.no_duplicates(),
        forall|i: int| 0 <= i < positions.len() ==> 0 <= #[trigger] positions[i] < count,
    ensures
        positions.len() <= count,
{
    positions.unique_seq_to_set();
    lemma_int_range(0, count as int);
    assert(positions.to_set().subset_of(set_int_range(0, count as int))) by {
        assert forall|p: int| positions.to_set().contains(p) implies set_int_range(
            0,
            count as int,
        ).contains(p) by {
            let i = choose|i: int| 0 <= i < positions.len() && positions[i] == p;
            assert(0 <= positions[i] < count);
        }
    }
    lemma_len_subset(positions.to_set(), set_int_range(0, count as int));
}

/// The position of an entry of `listing` that holds `token`, if there is
/// one.
fn position_of(listing: &Vec<(u64, String, u64)>, token: &VerificationToken) -> (found: Option<
    usize,
>)
    ensures
        found matches Some(i) ==> i < listing@.len() && listing@[i as int].1@ == token@,
        found is None ==> forall|i: int|
            0 <= i < listing@.len() ==> (#[trigger] listing@[i]).1@ != token@,
{
    let mut i: usize = 0;
    while i < listing.len()
        invariant
            i <= listing@.len(),
            forall|j: int| 0 <= j < i ==> (#[trigger] listing@[j]).1@ != token@,
        decreases listing@.len() - i,
    {
        if token.has_text(&listing[i].1) {
            return Some(i);
        }
        i = i + 1;
    }
    None
}

/// The registry that a map of stored entries stands for.
spec fn registry_of(stored: Map<u64, (Seq<char>, u64)>) -> Registry {
    Map::new(
        |user: u64| stored.contains_key(user),
        |user: u64| Pending { token: stored[user].0, started_at: stored[user].1 },
    )
}

/// Storing an entry under a new key, with a token in nobody's use, is a
/// beginning in the registry and leaves the tokens distinct.
proof fn lemma_store(stored: Map<u64, (Seq<char>, u64)>, key: u64, token: Seq<char>, time: u64)
    requires
        tokens_unique(registry_of(stored)),
        !token_in_use(registry_of(stored), token),
    ensures
        registry_of(stored.insert(key, (token, time))) == registry_of(stored).insert(
            key,
            Pending { token, started_at: time },
        ),
        tokens_unique(registry_of(stored.insert(key, (token, time)))),
{
    let after = registry_of(stored.insert(key, (token, time)));
    assert(after =~= registry_of(stored).insert(key, Pending { token, started_at: time }));
    assert forall|first: u64, second: u64|
        after.contains_key(first) && after.contains_key(second) && first != second implies (
    #[trigger] after[first]).token != (#[trigger] after[second]).token by {
        if first != key {
            assert(registry_of(stored)[first].token == after[first].token);
        }
        if second != key {
            assert(registry_of(stored)[second].token == after[second].token);
        }
    }
}

/// Taking an entry out of the store takes it out of the registry and leaves
/// the tokens distinct.
proof fn lemma_unstore(stored: Map<u64, (Seq<char>, u64)>, key: u64)
    requires
        tokens_unique(registry_of(stored)),
    ensures
        registry_of(stored.remove(key)) == registry_of(stored).remove(key),
        tokens_unique(registry_of(stored.remove(key))),
{
    let after = registry_of(stored.remove(key));
    assert(after =~= registry_of(stored).remove(key));
    assert forall|first: u64, second: u64|
        after.contains_key(first) && after.contains_key(second) && first != second implies (
    #[trigger] after[first]).token != (#[trigger] after[second]).token by {
        assert(registry_of(stored)[first].token == after[first].token);
        assert(registry_of(stored)[second].token == after[second].token);
    }
}

/// Whether a verification that began at `started_at` is older than `max_age`
/// at the time `now`. A start time that lies in the future is not old.
pub fn is_older_than(started_at: u64, now: u64, max_age: u64) -> (old_enough: bool)
    ensures
        old_enough == is_expired(started_at, now, max_age),
{
    now > started_at && now - started_at > max_age
}

/// The verifications in flight, by user.
pub struct PendingRequestRegistry {
    entries: EntryMap,
}

impl View for PendingRequestRegistry {
    type V = Registry;

    closed spec fn view(&self) -> Registry {
        registry_of(stored_entries(self.entries))
    }
}

impl PendingRequestRegistry {
    #[verifier::type_invariant]
    spec fn well_formed(self) -> bool {
        &&& stored_entries(self.entries).dom().finite()
        &&& forall|user: u64|
            stored_entries(self.entries).contains_key(user) ==> is_token_text(
                (#[trigger] stored_entries(self.entries)[user]).0,
            )
        &&& tokens_unique(registry_of(stored_entries(self.entries)))
    }

    /// A registry with nothing in flight.
    pub fn new() -> (registry: PendingRequestRegistry)
        ensures
            registry@ == (Map::<u64, Pending>::empty()),
            tokens_unique(registry@),
    {
        let entries = new_map();
        let registry = PendingRequestRegistry { entries };
        assert(registry@ =~= Map::<u64, Pending>::empty());
        registry
    }

    /// The number of verifications in flight.
    pub fn len(&self) -> (count: usize)
        ensures
            self@.dom().finite(),
            count == self@.len(),
    {
        proof {
            use_type_invariant(self);
            assert(self@.dom() =~= stored_entries(self.entries).dom());
        }
        count_entries(&self.entries)
    }

    /// Whether nothing is in flight.
    pub fn is_empty(&self) -> (empty: bool)
        ensures
            empty == (self@ == (Map::<u64, Pending>::empty())),
    {
        proof {
            use_type_invariant(self);
            assert(self@.dom() =~= stored_entries(self.entries).dom());
            if self@.len() == 0 {
                assert(self@ =~= Map::<u64, Pending>::empty());
            }
        }
        count_entries(&self.entries) == 0
    }

    /// Whether `user` has a verification in flight.
    pub fn is_pending(&self, user: UserIdentity) -> (pending: bool)
        ensures
            pending == self@.contains_key(user.id),
    {
        has_entry(&self.entries, user.id)
    }

    /// Begins a verification for `user` at the time `now`.
    ///
    /// If the user has one in flight already, nothing changes, no token is
    /// made, and the answer is `AlreadyPending`: a second token would leave
    /// the first one live on the web side. Otherwise a token is made from
    /// `entropy`, which the caller drew from an unpredictable source, stored
    /// with the time, and returned. The token is in no other user's use: if
    /// the one made from `entropy` is, the entropy is stepped to the next
    /// value until the token made from it is free.
    pub fn begin(&mut self, user: UserIdentity, entropy: [u8; 16], now: u64) -> (outcome: Result<
        VerificationToken,
        CoordinatorError,
    >)
        ensures
            outcome is Err <==> old(self)@.contains_key(user.id),
            outcome is Err ==> final(self)@ == old(self)@ && told(outcome) == Err::<
                Seq<char>,
                CoordinatorError,
            >(CoordinatorError::AlreadyPending),
            outcome matches Ok(token) ==> model::is_issued(old(self)@, entropy@, token@),
            outcome matches Ok(token) ==> forall|other: u64|
                old(self)@.contains_key(other) ==> (#[trigger] old(self)@[other]).token != token@,
            outcome matches Ok(token) ==> final(self)@ == model::begin(
                old(self)@,
                user.id,
                token@,
                now,
            ).0 && told(outcome) == model::begin(old(self)@, user.id, token@, now).1,
            tokens_unique(final(self)@),
    {
        proof {
            use_type_invariant(&*self);
        }
        if has_entry(&self.entries, user.id) {
            return Err(CoordinatorError::AlreadyPending);
        }
        let listing = list_entries(&self.entries);
        let ghost before = stored_entries(self.entries);
        let mut candidate = entropy;
        let mut token = VerificationToken::from_entropy(candidate);
        let mut found = position_of(&listing, &token);
        let count = listing.len();
        let mut tries: usize = 0;
        let ghost mut hits: Seq<int> = Seq::empty();
        while found.is_some()
            invariant
                entropy@.len() == 16,
                listing@.len() == count,
                tries <= count,
                candidate@ == nth_successor(entropy@, tries as nat),
                token@ == token_text(candidate@),
                found matches Some(i) ==> i < listing@.len() && listing@[i as int].1@ == token@,
                found is None ==> forall|i: int|
                    0 <= i < listing@.len() ==> (#[trigger] listing@[i]).1@ != token@,
                hits.len() == tries,
                forall|j: int|
                    0 <= j < tries ==> 0 <= #[trigger] hits[j] < listing@.len()
                        && listing@[hits[j]].1@ == token_text(
                        nth_successor(entropy@, j as nat),
                    ),
            decreases count - tries,
        {
            proof {
                let grown = hits.push(found.unwrap() as int);
                lemma_limit_of_entropy();
                assert forall|a: int, b: int|
                    0 <= a < grown.len() && 0 <= b < grown.len() && a != b implies grown[a]
                    != grown[b] by {
                    let (low, high) = if a < b {
                        (a, b)
                    } else {
                        (b, a)
                    };
                    lemma_successors_differ(entropy@, low as nat, high as nat);
                    if token_text(nth_successor(entropy@, low as nat)) == token_text(
                        nth_successor(entropy@, high as nat),
                    ) {
                        lemma_token_text_injective(
                            nth_successor(entropy@, low as nat),
                            nth_successor(entropy@, high as nat),
                        );
                    }
                    assert(listing@[grown[low]].1@ == token_text(
                        nth_successor(entropy@, low as nat),
                    ));
                    assert(listing@[grown[high]].1@ == token_text(
                        nth_successor(entropy@, high as nat),
                    ));
                }
                lemma_distinct_positions_are_few(grown, listing@.len());
                assert(tries + 1 <= listing@.len());
                hits = grown;
            }
            candidate = next_entropy(candidate);
            tries = tries + 1;
            token = VerificationToken::from_entropy(candidate);
            found = position_of(&listing, &token);
        }
        proof {
            let registry = registry_of(before);
            assert(!token_in_use(registry, token@)) by {
                if token_in_use(registry, token@) {
                    let holder = choose|holder: u64|
                        registry.contains_key(holder) && (#[trigger] registry[holder]).token
                            == token@;
                    let i = choose|i: int|
                        0 <= i < listing@.len() && (#[trigger] listing@[i]).0 == holder;
                    assert(listing@[i].1@ == token@);
                }
            }
            assert forall|earlier: nat| earlier < tries implies token_in_use(
                registry,
                token_text(#[trigger] nth_successor(entropy@, earlier)),
            ) by {
                let holder = listing@[hits[earlier as int]].0;
                assert(registry.contains_key(holder));
                assert(registry[holder].token == token_text(nth_successor(entropy@, earlier)));
            }
            assert(issued_after(registry, entropy@, tries as nat));
        }
        let text = token.clone().into_text();
        proof {
            lemma_store(before, user.id, token@, now);
        }
        insert_entry(&mut self.entries, user.id, text, now);
        Ok(token)
    }

    /// Consumes the verification of `user`, if one is in flight, and returns
    /// its token. If none is, nothing changes and the answer is `NotFound`:
    /// the completion came twice, came after the sweep, or was made up.
    pub fn complete(&mut self, user: UserIdentity) -> (outcome: Result<
        VerificationToken,
        CoordinatorError,
    >)
        ensures
            final(self)@ == model::complete(old(self)@, user.id).0,
            told(outcome) == model::complete(old(self)@, user.id).1,
            tokens_unique(final(self)@),
    {
        proof {
            use_type_invariant(&*self);
            lemma_unstore(stored_entries(self.entries), user.id);
        }
        let ghost before = stored_entries(self.entries);
        match remove_entry(&mut self.entries, user.id) {
            Some((text, _)) => {
                proof {
                    assert(self@ =~= registry_of(before).remove(user.id));
                }
                Ok(VerificationToken::from_text(text))
            },
            None => {
                proof {
                    assert(stored_entries(self.entries) =~= before);
                }
                Err(CoordinatorError::NotFound)
            },
        }
    }

    /// Removes every verification that is older than `max_age` at the time
    /// `now`, and returns the users it belonged to, each once, so that they
    /// can be told that their verification lapsed. Meant to be run from a
    /// timer, not on every operation.
    pub fn expire_older_than(&mut self, max_age: u64, now: u64) -> (evicted: Vec<UserIdentity>)
        ensures
            final(self)@ == model::sweep(old(self)@, max_age, now),
            user_ids(evicted@).no_duplicates(),
            user_ids(evicted@).to_set() == model::expired_users(old(self)@, max_age, now),
            tokens_unique(final(self)@),
    {
        proof {
            use_type_invariant(&*self);
        }
        let listing = list_entries(&self.entries);
        let ghost before = stored_entries(self.entries);
        let mut evicted: Vec<UserIdentity> = Vec::new();
        let mut i: usize = 0;
        while i < listing.len()
            invariant
                i <= listing@.len(),
                before == stored_entries(old(self).entries),
                forall|j: int|
                    0 <= j < listing@.len() ==> before.contains_key((#[trigger] listing@[j]).0)
                        && before[listing@[j].0].1 == listing@[j].2,
                forall|key: u64|
                    before.contains_key(key) ==> listed_before(
                        listing@,
                        listing@.len() as int,
                        key,
                    ),
                forall|a: int, b: int|
                    0 <= a < b < listing@.len() ==> (#[trigger] listing@[a]).0 != (
                    #[trigger] listing@[b]).0,
                stored_entries(self.entries).dom().finite(),
                forall|key: u64|
                    #![trigger stored_entries(self.entries).contains_key(key)]
                    stored_entries(self.entries).contains_key(key) <==> before.contains_key(key)
                        && !(is_expired(before[key].1, now, max_age) && listed_before(
                        listing@,
                        i as int,
                        key,
                    )),
                forall|key: u64|
                    stored_entries(self.entries).contains_key(key) ==> (
                    #[trigger] stored_entries(self.entries)[key]) == before[key],
                forall|key: u64|
                    before.contains_key(key) ==> is_token_text((#[trigger] before[key]).0),
                tokens_unique(registry_of(stored_entries(self.entries))),
                forall|a: int|
                    0 <= a < evicted@.len() ==> before.contains_key((#[trigger] evicted@[a]).id)
                        && is_expired(before[evicted@[a].id].1, now, max_age) && listed_before(
                        listing@,
                        i as int,
                        evicted@[a].id,
                    ),
                forall|j: int|
                    0 <= j < i && is_expired((#[trigger] listing@[j]).2, now, max_age)
                        ==> user_ids(evicted@).contains(listing@[j].0),
                user_ids(evicted@).no_duplicates(),
            decreases listing@.len() - i,
        {
            let user: u64 = listing[i].0;
            let started_at: u64 = listing[i].2;
            let ghost evicted_before = evicted@;
            assert forall|key: u64|
                listed_before(listing@, i as int + 1, key) <==> (listed_before(
                    listing@,
                    i as int,
                    key,
                ) || key == user) by {
                lemma_listed_one_more(listing@, i as int, key);
            }
            if is_older_than(started_at, now, max_age) {
                proof {
                    lemma_unstore(stored_entries(self.entries), user);
                }
                remove_entry(&mut self.entries, user);
                evicted.push(UserIdentity::new(user));
                proof {
                    assert(user_ids(evicted@) =~= user_ids(evicted_before).push(user));
                    assert forall|a: int, b: int|
                        0 <= a < b < user_ids(evicted@).len() implies user_ids(evicted@)[a]
                        != user_ids(evicted@)[b] by {
                        if b == evicted_before.len() {
                            assert(user_ids(evicted_before)[a] == evicted_before[a].id);
                        }
                    }
                }
            }
            proof {
                assert forall|j: int|
                    0 <= j < i + 1 && is_expired(
                        (#[trigger] listing@[j]).2,
                        now,
                        max_age,
                    ) implies user_ids(evicted@).contains(listing@[j].0) by {
                    if j < i {
                        let a = choose|a: int|
                            0 <= a < user_ids(evicted_before).len() && user_ids(evicted_before)[a]
                                == listing@[j].0;
                        assert(user_ids(evicted@)[a] == listing@[j].0);
                    } else {
                        assert(user_ids(evicted@)[evicted_before.len() as int] == user);
                    }
                }
            }
            i = i + 1;
        }
        proof {
            let swept = model::sweep(old(self)@, max_age, now);
            assert(self@ =~= swept);
            let gone = model::expired_users(old(self)@, max_age, now);
            assert forall|key: u64| user_ids(evicted@).to_set().contains(key) <==> gone.contains(
                key,
            ) by {
                if user_ids(evicted@).contains(key) {
                    let a = choose|a: int|
                        0 <= a < user_ids(evicted@).len() && user_ids(evicted@)[a] == key;
                    assert(evicted@[a].id == key);
                }
                if gone.contains(key) {
                    let j = choose|j: int|
                        0 <= j < listing@.len() && (#[trigger] listing@[j]).0 == key;
                    assert(user_ids(evicted@).contains(listing@[j].0));
                }
            }
            assert(user_ids(evicted@).to_set() =~= gone);
        }
        evicted
    }
}

} // verus!
