//! Who is being verified, and the token that stands for one attempt.

use vstd::prelude::*;

verus! {

/// The number of unpredictable bytes that one token is made from.
pub const TOKEN_ENTROPY_BYTES: usize = 16;

/// The number of characters of a token's text: two for each byte.
pub const TOKEN_TEXT_LEN: usize = 32;

/// The identifier that the chat platform gave a user. It never changes, and
/// the coordinator reads nothing into it.
#[derive(Clone, Copy, Debug, PartialEq, Eq, Hash, Structural)]
pub struct UserIdentity {
    pub id: u64,
}

impl UserIdentity {
    pub fn new(id: u64) -> (user: UserIdentity)
        ensures
            user.id == id,
    {
        UserIdentity { id }
    }
}

/// The lower-case hexadecimal digit for a value below sixteen.
pub open spec fn hex_char(nibble: int) -> char {
    if nibble == 0 {
        '0'
    } else if nibble == 1 {
        '1'
    } else if nibble == 2 {
        '2'
    } else if nibble == 3 {
        '3'
    } else if nibble == 4 {
        '4'
    } else if nibble == 5 {
        '5'
    } else if nibble == 6 {
        '6'
    } else if nibble == 7 {
        '7'
    } else if nibble == 8 {
        '8'
    } else if nibble == 9 {
        '9'
    } else if nibble == 10 {
        'a'
    } else if nibble == 11 {
        'b'
    } else if nibble == 12 {
        'c'
    } else if nibble == 13 {
        'd'
    } else if nibble == 14 {
        'e'
    } else {
        'f'
    }
}

/// Whether a character is one of the sixteen digits of [`hex_char`].
pub open spec fn is_hex_char(c: char) -> bool {
    exists|nibble: int| 0 <= nibble < 16 && c == #[trigger] hex_char(nibble)
}

/// The text of the token made from `entropy`: each byte as two hexadecimal
/// digits, the high half first.
pub open spec fn token_text(entropy: Seq<u8>) -> Seq<char> {
    Seq::new(
        2 * entropy.len(),
        |i: int|
            if i % 2 == 0 {
                hex_char(entropy[i / 2] as int / 16)
            } else {
                hex_char(entropy[i / 2] as int % 16)
            },
    )
}

/// Whether `text` has the shape of a token: [`TOKEN_TEXT_LEN`] hexadecimal
/// digits.
pub open spec fn is_token_text(text: Seq<char>) -> bool {
    &&& text.len() == TOKEN_TEXT_LEN
    &&& forall|i: int| 0 <= i < text.len() ==> is_hex_char(#[trigger] text[i])
}

/// Different entropy gives different tokens.
pub proof fn lemma_token_text_injective(a: Seq<u8>, b: Seq<u8>)
    requires
        token_text(a) == token_text(b),
    ensures
        a == b,
{
    let ta = token_text(a);
    let tb = token_text(b);
    assert(ta.len() == 2 * a.len());
    assert(tb.len() == 2 * b.len());
    assert(a.len() == b.len());
    assert forall|k: int| 0 <= k < a.len() implies a[k] == b[k] by {
        let x = a[k] as int;
        let y = b[k] as int;
        assert(ta[2 * k] == hex_char(x / 16));
        assert(tb[2 * k] == hex_char(y / 16));
        assert(ta[2 * k + 1] == hex_char(x % 16));
        assert(tb[2 * k + 1] == hex_char(y % 16));
        assert(x / 16 == y / 16);
        assert(x % 16 == y % 16);
    }
    assert(a =~= b);
}

/// Every text made by [`token_text`] from [`TOKEN_ENTROPY_BYTES`] bytes has
/// the shape of a token.
pub proof fn lemma_token_text_shape(entropy: Seq<u8>)
    requires
        entropy.len() == TOKEN_ENTROPY_BYTES,
    ensures
        is_token_text(token_text(entropy)),
{
    let text = token_text(entropy);
    assert forall|i: int| 0 <= i < text.len() implies is_hex_char(#[trigger] text[i]) by {
        let byte = entropy[i / 2] as int;
        if i % 2 == 0 {
            assert(text[i] == hex_char(byte / 16));
        } else {
            assert(text[i] == hex_char(byte % 16));
        }
    }
}

/// The entropy that comes after `bytes`: the bytes are read as one number,
/// the first byte the most significant, and one is added. After the largest
/// number comes zero.
pub open spec fn successor(bytes: Seq<u8>) -> Seq<u8>
    decreases bytes.len(),
{
    if bytes.len() == 0 {
        bytes
    } else if bytes.last() < 255 {
        bytes.drop_last().push((bytes.last() + 1) as u8)
    } else {
        successor(bytes.drop_last()).push(0u8)
    }
}

/// The entropy that is reached from `bytes` in `steps` steps of
/// [`successor`].
pub open spec fn nth_successor(bytes: Seq<u8>, steps: nat) -> Seq<u8>
    decreases steps,
{
    if steps == 0 {
        bytes
    } else {
        successor(nth_successor(bytes, (steps - 1) as nat))
    }
}

/// The number that `bytes` stand for, the first byte the most significant.
pub open spec fn number(bytes: Seq<u8>) -> nat
    decreases bytes.len(),
{
    if bytes.len() == 0 {
        0
    } else {
        number(bytes.drop_last()) * 256 + bytes.last() as nat
    }
}

/// The count of numbers that `len` bytes can stand for.
pub open spec fn limit(len: nat) -> nat
    decreases len,
{
    if len == 0 {
        1
    } else {
        256 * limit((len - 1) as nat)
    }
}

/// How far `to` lies after `from` when counting wraps around at `modulus`.
pub open spec fn distance(from: nat, to: nat, modulus: nat) -> int {
    if to >= from {
        to - from
    } else {
        to + modulus - from
    }
}

/// The number of a sequence of bytes lies below the limit of its length.
pub proof fn lemma_number_below_limit(bytes: Seq<u8>)
    ensures
        number(bytes) < limit(bytes.len()),
    decreases bytes.len(),
{
    if bytes.len() > 0 {
        lemma_number_below_limit(bytes.drop_last());
    }
}

/// The successor keeps the length and stands for the next number, or for
/// zero after the largest.
pub proof fn lemma_successor_adds_one(bytes: Seq<u8>)
    ensures
        successor(bytes).len() == bytes.len(),
        number(successor(bytes)) == (if number(bytes) + 1 == limit(bytes.len()) {
            0nat
        } else {
            number(bytes) + 1
        }),
    decreases bytes.len(),
{
    if bytes.len() > 0 {
        let front = bytes.drop_last();
        lemma_number_below_limit(front);
        if bytes.last() < 255 {
            let next = front.push((bytes.last() + 1) as u8);
            assert(next.drop_last() =~= front);
            assert(next.last() == bytes.last() + 1);
        } else {
            lemma_successor_adds_one(front);
            let next = successor(front).push(0u8);
            assert(next.drop_last() =~= successor(front));
            assert(next.last() == 0);
        }
    }
}

/// Two sequences of bytes of one length that stand for one number are the
/// same sequence.
pub proof fn lemma_number_injective(a: Seq<u8>, b: Seq<u8>)
    requires
        a.len() == b.len(),
        number(a) == number(b),
    ensures
        a == b,
    decreases a.len(),
{
    if a.len() > 0 {
        lemma_number_injective(a.drop_last(), b.drop_last());
        assert(a =~= a.drop_last().push(a.last()));
        assert(b =~= b.drop_last().push(b.last()));
    } else {
        assert(a =~= b);
    }
}

/// As long as fewer steps are taken than the bytes have numbers, the entropy
/// after `steps` steps lies `steps` after the first.
pub proof fn lemma_nth_successor_distance(bytes: Seq<u8>, steps: nat)
    requires
        steps < limit(bytes.len()),
    ensures
        nth_successor(bytes, steps).len() == bytes.len(),
        distance(number(bytes), number(nth_successor(bytes, steps)), limit(bytes.len()))
            == steps,
    decreases steps,
{
    lemma_number_below_limit(bytes);
    if steps > 0 {
        let before = nth_successor(bytes, (steps - 1) as nat);
        lemma_nth_successor_distance(bytes, (steps - 1) as nat);
        lemma_number_below_limit(before);
        lemma_successor_adds_one(before);
    }
}

/// Stepping never comes back to an entropy it has left, as long as fewer
/// steps are taken than the bytes have numbers.
pub proof fn lemma_successors_differ(bytes: Seq<u8>, fewer: nat, more: nat)
    requires
        fewer < more < limit(bytes.len()),
    ensures
        nth_successor(bytes, fewer) != nth_successor(bytes, more),
        nth_successor(bytes, fewer).len() == nth_successor(bytes, more).len(),
{
    lemma_nth_successor_distance(bytes, fewer);
    lemma_nth_successor_distance(bytes, more);
}

/// Sixteen bytes have more numbers than a machine can count entries.
pub proof fn lemma_limit_of_entropy()
    ensures
        limit(16) > u64::MAX,
        limit(16) > usize::MAX,
{
    reveal_with_fuel(limit, 17);
}

/// `String::push`: appends one character to the end of the string.
pub assume_specification[ String::push ](text: &mut String, ch: char)
    ensures
        final(text)@ == old(text)@.push(ch),
;

fn hex_digit(nibble: u8) -> (c: char)
    requires
        nibble < 16,
    ensures
        c == hex_char(nibble as int),
{
    match nibble {
        0 => '0',
        1 => '1',
        2 => '2',
        3 => '3',
        4 => '4',
        5 => '5',
        6 => '6',
        7 => '7',
        8 => '8',
        9 => '9',
        10 => 'a',
        11 => 'b',
        12 => 'c',
        13 => 'd',
        14 => 'e',
        _ => 'f',
    }
}

/// The entropy that comes after `entropy`, as [`successor`] defines it.
pub fn next_entropy(entropy: [u8; 16]) -> (next: [u8; 16])
    ensures
        next@ == successor(entropy@),
{
    let mut next = entropy;
    let mut i: usize = 16;
    proof {
        assert(entropy@.subrange(0, 16) =~= entropy@);
        assert(successor(entropy@) + next@.subrange(16, 16) =~= successor(entropy@));
    }
    while i > 0
        invariant
            i <= 16,
            entropy@.len() == 16,
            next@.len() == 16,
            forall|j: int| 0 <= j < i ==> next@[j] == entropy@[j],
            forall|j: int| i <= j < 16 ==> next@[j] == 0,
            successor(entropy@) == successor(entropy@.subrange(0, i as int)) + next@.subrange(
                i as int,
                16,
            ),
        decreases i,
    {
        let ghost prefix = entropy@.subrange(0, i as int);
        let ghost zeros = next@.subrange(i as int, 16);
        i = i - 1;
        let byte: u8 = next[i];
        proof {
            assert(prefix.last() == byte);
            assert(prefix.drop_last() =~= entropy@.subrange(0, i as int));
        }
        if byte < 255 {
            next[i] = byte + 1;
            proof {
                assert(successor(prefix) == prefix.drop_last().push((byte + 1) as u8));
                assert(next@ =~= successor(prefix) + zeros);
            }
            return next;
        }
        next[i] = 0;
        proof {
            assert(successor(prefix) == successor(prefix.drop_last()).push(0u8));
            assert(next@.subrange(i as int, 16) =~= seq![0u8] + zeros);
            assert(successor(prefix) + zeros =~= successor(entropy@.subrange(0, i as int))
                + next@.subrange(i as int, 16));
        }
    }
    proof {
        assert(entropy@.subrange(0, 0) =~= Seq::<u8>::empty());
        assert(successor(Seq::<u8>::empty()) + next@.subrange(0, 16) =~= next@);
    }
    next
}

/// The value that correlates one verification attempt across the two
/// services. Nobody can guess it who has not been handed it, provided the
/// entropy it was made from is unpredictable. It is kept apart from ordinary
/// strings so that it does not end up in a log line or a reply by accident.
pub struct VerificationToken {
    text: String,
}

impl View for VerificationToken {
    type V = Seq<char>;

    closed spec fn view(&self) -> Seq<char> {
        self.text@
    }
}

impl VerificationToken {
    #[verifier::type_invariant]
    spec fn well_formed(self) -> bool {
        is_token_text(self.text@)
    }

    /// Makes the token for a fresh verification from bytes that the caller
    /// drew from a cryptographically unpredictable source.
    pub fn from_entropy(entropy: [u8; 16]) -> (token: VerificationToken)
        ensures
            token@ == token_text(entropy@),
    {
        let mut text = String::new();
        let mut i: usize = 0;
        while i < 16
            invariant
                i <= 16,
                entropy@.len() == 16,
                text@.len() == 2 * i,
                forall|j: int| 0 <= j < 2 * i ==> text@[j] == token_text(entropy@)[j],
            decreases 16 - i,
        {
            let byte: u8 = entropy[i];
            let ghost before = text@;
            text.push(hex_digit(byte / 16));
            text.push(hex_digit(byte % 16));
            proof {
                assert(text@ == before.push(hex_char(byte as int / 16)).push(
                    hex_char(byte as int % 16),
                ));
                assert(token_text(entropy@)[2 * i] == hex_char(byte as int / 16));
                assert(token_text(entropy@)[2 * i + 1] == hex_char(byte as int % 16));
            }
            i = i + 1;
        }
        proof {
            assert(text@ =~= token_text(entropy@));
            lemma_token_text_shape(entropy@);
        }
        VerificationToken { text }
    }

    /// The token as text, to be embedded as the state parameter of the web
    /// handshake.
    pub fn as_str(&self) -> (text: &str)
        ensures
            text@ == self@,
            is_token_text(self@),
    {
        proof {
            use_type_invariant(self);
        }
        self.text.as_str()
    }

    /// The token whose text is `text`.
    pub(crate) fn from_text(text: String) -> (token: VerificationToken)
        requires
            is_token_text(text@),
        ensures
            token@ == text@,
    {
        VerificationToken { text }
    }

    /// The text of the token, by value.
    pub(crate) fn into_text(self) -> (text: String)
        ensures
            text@ == self@,
            is_token_text(text@),
    {
        proof {
            use_type_invariant(&self);
        }
        self.text
    }

    /// Whether the token has this text.
    pub(crate) fn has_text(&self, text: &String) -> (same: bool)
        ensures
            same == (self@ == text@),
    {
        self.text == *text
    }

    /// Whether two tokens are the same.
    pub fn same_as(&self, other: &VerificationToken) -> (same: bool)
        ensures
            same == (self@ == other@),
    {
        self.text == other.text
    }
}

impl Clone for VerificationToken {
    fn clone(&self) -> (copy: VerificationToken)
        ensures
            copy@ == self@,
    {
        proof {
            use_type_invariant(self);
        }
        VerificationToken { text: self.text.clone() }
    }
}

} // verus!
