//! Safety numbers: 60 digits by which two users compare their identity keys.

use super::primitives::sha512_digest;
use crate::bytes::{comes_first, push_all, same_bytes};
use vstd::prelude::*;
use vstd::string::*;

verus! {

use super::primitives::sha512;
use crate::bytes::{lemma_lex_total, lex_le};

/// How often each user's digest is hashed.
pub const ITERATIONS: u32 = 5200;

/// The byte in front of the first hash input.
pub const VERSION: u8 = 0x00;

/// The digest of a user after `n` rounds, `n >= 1`: the first round hashes the
/// version byte, the key and the user id, each later one the digest before it
/// in place of the version byte.
pub open spec fn iterated_digest(user: Seq<u8>, key: Seq<u8>, n: nat) -> Seq<u8>
    decreases n,
{
    if n <= 1 {
        sha512(seq![VERSION] + key + user)
    } else {
        sha512(iterated_digest(user, key, (n - 1) as nat) + key + user)
    }
}

/// The five bytes of `hash` from `5 * group` on, as a big-endian number.
pub open spec fn group_value(hash: Seq<u8>, group: int) -> int {
    hash[5 * group] * 0x1_0000_0000 + hash[5 * group + 1] * 0x100_0000 + hash[5 * group + 2]
        * 0x1_0000 + hash[5 * group + 3] * 0x100 + hash[5 * group + 4]
}

/// Ten to the power of `4 - place`: the weight of the digit at `place` in a
/// group of five.
pub open spec fn weight(place: int) -> int {
    if place == 0 {
        10_000
    } else if place == 1 {
        1_000
    } else if place == 2 {
        100
    } else if place == 3 {
        10
    } else {
        1
    }
}

/// The 30 digits of a digest: six groups of five, each the decimal digits of
/// five bytes modulo 100 000.
pub open spec fn digest_digits(hash: Seq<u8>) -> Seq<u8> {
    Seq::new(
        30,
        |i: int| (group_value(hash, i / 5) % 100_000 / weight(i % 5) % 10) as u8,
    )
}

/// The 30 digits of a user.
pub open spec fn user_digits(user: Seq<u8>, key: Seq<u8>) -> Seq<u8> {
    digest_digits(iterated_digest(user, key, ITERATIONS as nat))
}

/// Whether the pair of the first user comes first: by user id, then by key.
pub open spec fn pair_first(user_a: Seq<u8>, key_a: Seq<u8>, user_b: Seq<u8>, key_b: Seq<u8>)
    -> bool {
    if user_a == user_b {
        lex_le(key_a, key_b)
    } else {
        lex_le(user_a, user_b)
    }
}

/// The 60 digits of two users, whichever comes first in front.
pub open spec fn safety_digits(user_a: Seq<u8>, key_a: Seq<u8>, user_b: Seq<u8>, key_b: Seq<u8>)
    -> Seq<u8> {
    if pair_first(user_a, key_a, user_b, key_b) {
        user_digits(user_a, key_a) + user_digits(user_b, key_b)
    } else {
        user_digits(user_b, key_b) + user_digits(user_a, key_a)
    }
}

/// The two users see the same safety number, whoever computes it.
pub proof fn law_safety_number_symmetric(
    user_a: Seq<u8>,
    key_a: Seq<u8>,
    user_b: Seq<u8>,
    key_b: Seq<u8>,
)
    ensures
        safety_digits(user_a, key_a, user_b, key_b) == safety_digits(
            user_b,
            key_b,
            user_a,
            key_a,
        ),
{
    lemma_lex_total(user_a, user_b);
    lemma_lex_total(key_a, key_b);
}

/// A safety number.
#[derive(Debug, PartialEq, Eq)]
pub struct Fingerprint {
    digits: [u8; 60],
}

impl View for Fingerprint {
    type V = Seq<u8>;

    /// The digits.
    closed spec fn view(&self) -> Seq<u8> {
        self.digits@
    }
}

/// The digits in twelve groups of five, with a space between groups.
pub open spec fn grouped(digits: Seq<u8>) -> Seq<char> {
    Seq::new(
        71,
        |p: int| if p % 6 == 5 {
            ' '
        } else {
            digit_char(digits[p / 6 * 5 + p % 6])
        },
    )
}

/// The character of a decimal digit.
pub open spec fn digit_char(digit: u8) -> char {
    (48 + digit) as char
}

impl Fingerprint {
    #[verifier::type_invariant]
    spec fn inv(self) -> bool {
        forall|i: int| 0 <= i < 60 ==> #[trigger] self.digits@[i] <= 9
    }

    /// The safety number of two users with their identity keys. It is the same
    /// whichever of the two is passed first.
    pub fn compute(user_a: &str, key_a: &[u8; 32], user_b: &str, key_b: &[u8; 32]) -> (out: Self)
        ensures
            out@ == safety_digits(user_a.spec_bytes(), key_a@, user_b.spec_bytes(), key_b@),
    {
        let bytes_a = user_a.as_bytes();
        let bytes_b = user_b.as_bytes();
        let a_first = if same_bytes(bytes_a, bytes_b) {
            comes_first(key_a, key_b)
        } else {
            comes_first(bytes_a, bytes_b)
        };
        let digits_a = iterated_hash(bytes_a, key_a);
        let digits_b = iterated_hash(bytes_b, key_b);
        let ghost expected = safety_digits(
            user_a.spec_bytes(),
            key_a@,
            user_b.spec_bytes(),
            key_b@,
        );
        let mut digits: [u8; 60] = [0u8; 60];
        let mut i: usize = 0;
        while i < 30
            invariant
                i <= 30,
                a_first ==> expected == digits_a@ + digits_b@,
                !a_first ==> expected == digits_b@ + digits_a@,
                forall|j: int| 0 <= j < 30 ==> #[trigger] digits_a@[j] <= 9,
                forall|j: int| 0 <= j < 30 ==> #[trigger] digits_b@[j] <= 9,
                forall|j: int| 0 <= j < i ==> #[trigger] digits@[j] == expected[j],
                forall|j: int| 30 <= j < 30 + i ==> #[trigger] digits@[j] == expected[j],
                forall|j: int| 0 <= j < 60 ==> #[trigger] digits@[j] <= 9,
            decreases 30 - i,
        {
            if a_first {
                digits[i] = digits_a[i];
                digits[30 + i] = digits_b[i];
            } else {
                digits[i] = digits_b[i];
                digits[30 + i] = digits_a[i];
            }
            i += 1;
        }
        assert(digits@ =~= expected);
        Fingerprint { digits }
    }

    /// Twelve groups of five digits, separated by spaces.
    pub fn display_grouped(&self) -> (out: String)
        ensures
            out@ == grouped(self@),
    {
        proof {
            use_type_invariant(self);
        }
        let mut out = String::new();
        let mut i: usize = 0;
        while i < 60
            invariant
                i <= 60,
                forall|j: int| 0 <= j < 60 ==> #[trigger] self.digits@[j] <= 9,
                out@ == grouped(self@).take(if i == 0 {
                    0
                } else {
                    i + (i - 1) / 5
                }),
            decreases 60 - i,
        {
            if i > 0 && i % 5 == 0 {
                out.push(' ');
            }
            assert(self.digits@[i as int] <= 9);
            out.push((48 + self.digits[i]) as char);
            assert(out@ =~= grouped(self@).take(i + 1 + i / 5));
            i += 1;
        }
        assert(out@ =~= grouped(self@));
        out
    }

    /// The digits, each at most 9.
    pub fn as_digits(&self) -> (out: &[u8; 60])
        ensures
            out@ == self@,
            forall|i: int| 0 <= i < 60 ==> #[trigger] out@[i] <= 9,
    {
        proof {
            use_type_invariant(self);
        }
        &self.digits
    }
}

/// The 30 digits of a user: the iterated digest, in groups.
#[verifier::rlimit(40)]
fn iterated_hash(user: &[u8], key: &[u8; 32]) -> (out: [u8; 30])
    ensures
        out@ == user_digits(user@, key@),
        forall|i: int| 0 <= i < 30 ==> #[trigger] out@[i] <= 9,
{
    let mut first: Vec<u8> = Vec::new();
    first.push(VERSION);
    push_all(&mut first, key);
    push_all(&mut first, user);
    assert(first@ =~= seq![VERSION] + key@ + user@);
    let mut hash = sha512_digest(&first);
    let mut n: u32 = 1;
    while n < ITERATIONS
        invariant
            1 <= n <= ITERATIONS,
            hash@ == iterated_digest(user@, key@, n as nat),
        decreases ITERATIONS - n,
    {
        let mut input: Vec<u8> = Vec::new();
        push_all(&mut input, &hash);
        push_all(&mut input, key);
        push_all(&mut input, user);
        hash = sha512_digest(&input);
        n += 1;
    }
    let ghost expected = digest_digits(hash@);
    let mut digits: [u8; 30] = [0u8; 30];
    let mut group: usize = 0;
    while group < 6
        invariant
            group <= 6,
            expected == digest_digits(hash@),
            forall|j: int| 0 <= j < 5 * group ==> #[trigger] digits@[j] == expected[j],
            forall|j: int| 0 <= j < 30 ==> #[trigger] digits@[j] <= 9,
        decreases 6 - group,
    {
        let offset: usize = group * 5;
        let value: u64 = hash[offset] as u64 * 0x1_0000_0000 + hash[offset + 1] as u64 * 0x100_0000
            + hash[offset + 2] as u64 * 0x1_0000 + hash[offset + 3] as u64 * 0x100
            + hash[offset + 4] as u64;
        let value: u64 = value % 100_000;
        assert(value == group_value(hash@, group as int) % 100_000);
        digits[offset] = (value / 10_000 % 10) as u8;
        digits[offset + 1] = (value / 1_000 % 10) as u8;
        digits[offset + 2] = (value / 100 % 10) as u8;
        digits[offset + 3] = (value / 10 % 10) as u8;
        digits[offset + 4] = (value % 10) as u8;
        proof {
            lemma_group(hash@, group as int, 0);
            lemma_group(hash@, group as int, 1);
            lemma_group(hash@, group as int, 2);
            lemma_group(hash@, group as int, 3);
            lemma_group(hash@, group as int, 4);
        }
        group += 1;
    }
    assert(digits@ =~= expected);
    digits
}

proof fn lemma_group(hash: Seq<u8>, group: int, place: int)
    requires
        0 <= group < 6,
        0 <= place < 5,
    ensures
        digest_digits(hash)[5 * group + place] == (group_value(hash, group) % 100_000 / weight(
            place,
        ) % 10) as u8,
{
    assert((5 * group + place) / 5 == group);
    assert((5 * group + place) % 5 == place);
}

/// The identity key and the user id go into every round whole: the input of a
/// round ends with the 32 bytes of the key and the bytes of the user id, and
/// begins with the version byte, 0, in the first round and with the digest of
/// the round before in a later one.
pub proof fn law_key_goes_into_every_round(user: Seq<u8>, key: Seq<u8>, n: nat)
    requires
        n >= 1,
    ensures
        exists|input: Seq<u8>|
            {
                let rest = input.len() - user.len() - key.len();
                &&& iterated_digest(user, key, n) == #[trigger] sha512(input)
                &&& rest >= 0
                &&& input.skip(rest + key.len()) == user
                &&& input.subrange(rest, rest + key.len()) == key
                &&& input.take(rest) == if n == 1 {
                    seq![0u8]
                } else {
                    iterated_digest(user, key, (n - 1) as nat)
                }
            },
{
    let front = if n == 1 {
        seq![0u8]
    } else {
        iterated_digest(user, key, (n - 1) as nat)
    };
    let input = front + key + user;
    let rest = input.len() - user.len() - key.len();
    assert(iterated_digest(user, key, n) == sha512(input));
    assert(input.skip(rest + key.len()) =~= user);
    assert(input.subrange(rest, rest + key.len()) =~= key);
    assert(input.take(rest) =~= front);
}

/// A replaced identity key changes what is hashed in every round, whatever the
/// user id: no round of one key has the same input as that round of another.
/// Digests are 64 bytes.
pub proof fn law_replaced_key_is_hashed(user: Seq<u8>, key: Seq<u8>, other: Seq<u8>, n: nat)
    requires
        key.len() == other.len(),
        key != other,
        n >= 1,
        forall|data: Seq<u8>| (#[trigger] sha512(data)).len() == 64,
    ensures
        exists|input: Seq<u8>, other_input: Seq<u8>|
            {
                &&& iterated_digest(user, key, n) == #[trigger] sha512(input)
                &&& iterated_digest(user, other, n) == #[trigger] sha512(other_input)
                &&& input != other_input
            },
{
    law_key_goes_into_every_round(user, key, n);
    law_key_goes_into_every_round(user, other, n);
    if n > 1 {
        assert(iterated_digest(user, key, (n - 1) as nat).len() == 64);
        assert(iterated_digest(user, other, (n - 1) as nat).len() == 64);
    }
    let front = if n == 1 {
        seq![0u8]
    } else {
        iterated_digest(user, key, (n - 1) as nat)
    };
    let other_front = if n == 1 {
        seq![0u8]
    } else {
        iterated_digest(user, other, (n - 1) as nat)
    };
    let input = front + key + user;
    let other_input = other_front + other + user;
    let at = front.len() as int;
    assert(iterated_digest(user, key, n) == sha512(input));
    assert(iterated_digest(user, other, n) == sha512(other_input));
    assert(input.subrange(at, at + key.len()) =~= key);
    assert(other_input.subrange(at, at + key.len()) =~= other);
}

/// The digits of a user are what the digest after 5200 rounds says: each group
/// of five is, as a decimal number, five bytes of it as a big-endian number,
/// modulo 100 000.
pub proof fn law_digits_say_the_digest(user: Seq<u8>, key: Seq<u8>, group: int)
    requires
        0 <= group < 6,
    ensures
        user_digits(user, key).len() == 30,
        ({
            let hash = iterated_digest(user, key, 5200);
            let digits = user_digits(user, key);
            let at = 5 * group;
            &&& digits[at] <= 9 && digits[at + 1] <= 9 && digits[at + 2] <= 9 && digits[at + 3]
                <= 9 && digits[at + 4] <= 9
            &&& digits[at] * 10_000 + digits[at + 1] * 1_000 + digits[at + 2] * 100 + digits[at + 3]
                * 10 + digits[at + 4] == (hash[at] * 0x1_0000_0000 + hash[at + 1] * 0x100_0000
                + hash[at + 2] * 0x1_0000 + hash[at + 3] * 0x100 + hash[at + 4]) % 100_000
        }),
{
    let hash = iterated_digest(user, key, 5200);
    lemma_group_digits(hash, group);
    assert(digest_digits(hash) == user_digits(user, key));
}

proof fn lemma_group_digits(hash: Seq<u8>, group: int)
    requires
        0 <= group < 6,
    ensures
        ({
            let digits = digest_digits(hash);
            let at = 5 * group;
            &&& digits[at] <= 9 && digits[at + 1] <= 9 && digits[at + 2] <= 9 && digits[at + 3]
                <= 9 && digits[at + 4] <= 9
            &&& digits[at] * 10_000 + digits[at + 1] * 1_000 + digits[at + 2] * 100 + digits[at + 3]
                * 10 + digits[at + 4] == group_value(hash, group) % 100_000
        }),
{
    let value = group_value(hash, group) % 100_000;
    lemma_group(hash, group, 0);
    lemma_group(hash, group, 1);
    lemma_group(hash, group, 2);
    lemma_group(hash, group, 3);
    lemma_group(hash, group, 4);
    lemma_five_digits(value);
}

proof fn lemma_five_digits(value: int)
    requires
        0 <= value < 100_000,
    ensures
        value / 10_000 % 10 * 10_000 + value / 1_000 % 10 * 1_000 + value / 100 % 10 * 100 + value
            / 10 % 10 * 10 + value % 10 == value,
{
    let tens = value / 10;
    let hundreds = value / 100;
    let thousands = value / 1_000;
    assert(hundreds == tens / 10);
    assert(thousands == hundreds / 10);
    assert(value / 10_000 == thousands / 10);
    assert(value == tens * 10 + value % 10);
    assert(tens == hundreds * 10 + tens % 10);
    assert(hundreds == thousands * 10 + hundreds % 10);
    assert(thousands == value / 10_000 * 10 + thousands % 10);
}

/// A safety number is the digits of both users and nothing else: those of the
/// user whose id comes first in byte order in front, and for one user id those
/// of the key that comes first.
pub proof fn law_safety_number_holds_both(
    user_a: Seq<u8>,
    key_a: Seq<u8>,
    user_b: Seq<u8>,
    key_b: Seq<u8>,
)
    ensures
        user_a != user_b && lex_le(user_a, user_b) ==> safety_digits(user_a, key_a, user_b, key_b)
            == user_digits(user_a, key_a) + user_digits(user_b, key_b),
        user_a != user_b && !lex_le(user_a, user_b) ==> safety_digits(user_a, key_a, user_b, key_b)
            == user_digits(user_b, key_b) + user_digits(user_a, key_a),
        user_a == user_b && lex_le(key_a, key_b) ==> safety_digits(user_a, key_a, user_b, key_b)
            == user_digits(user_a, key_a) + user_digits(user_b, key_b),
        safety_digits(user_a, key_a, user_b, key_b).len() == 60,
{
}

/// The shown number reads as its digits: in front of every group of five but
/// the first there is a space, and the other characters are the digits in
/// their order.
pub proof fn law_grouped_reads_as_digits(digits: Seq<u8>, i: int)
    requires
        digits.len() == 60,
        0 <= i < 60,
        digits[i] <= 9,
    ensures
        grouped(digits).len() == 71,
        grouped(digits)[i + i / 5] as int == digits[i] + 48,
        i % 5 == 0 && i > 0 ==> grouped(digits)[i + i / 5 - 1] == ' ',
{
    let p = i + i / 5;
    assert(p / 6 == i / 5 && p % 6 == i % 5);
    if i % 5 == 0 && i > 0 {
        assert((p - 1) % 6 == 5);
    }
}

} // verus!
