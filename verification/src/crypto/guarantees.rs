//! What the cryptography promises, stated of the functions that do it.

use super::aead;
use super::error::CryptoError;
use super::fingerprint::Fingerprint;
use super::kdf::{
    derive_message_keys, kdf_ck, kdf_rk, ChainKeyOutput, MessageKeys, RootKeyOutput,
};
use super::keys::{
    generate_one_time_prekeys, EphemeralKeyPair, IdentityKeyPair, OneTimePreKey, PublicKey,
    RatchetKeyPair, Signature, SignedPreKey, VerifyingKey,
};
use super::ratchet::{
    decrypt, decrypt_in_context, decrypt_with, encrypt, encrypt_in_context, initialize_alice,
    initialize_alice_with, initialize_bob, needs_turn,
    restore_skipped, skip_message_keys, RatchetHeader, RatchetMessage, SessionState,
};
use super::skipped::{SkippedKey, SkippedKeys};
use super::x3dh::{alice_initiate, alice_initiate_with, bob_respond, PeerPreKeyBundle, X3dhInitResult};
use crate::protocol::aad;
use vstd::prelude::*;
use vstd::string::*;

verus! {

use super::fingerprint::{
    iterated_digest, law_digits_say_the_digest, law_grouped_reads_as_digits,
    law_safety_number_holds_both,
};
use super::primitives::{
    aes256gcm_open, aes256gcm_seal, dh_pair, ed25519_montgomery, ed25519_public, ed25519_scalar, ed25519_verifies,
    hkdf_sha256, hmac_sha256, sealable, sha512, x25519,
};
use super::ratchet::SessionModel;
use crate::bytes::{be32, lex_le};

/// The rounds of a user's digest, each hashed out of the one before it, the
/// whole key and the user id.
pub open spec fn hashed_rounds(rounds: Seq<Seq<u8>>, user: Seq<u8>, key: Seq<u8>) -> bool {
    &&& rounds.len() == 5200
    &&& rounds[0] == sha512(seq![0u8] + key + user)
    &&& forall|i: int| 1 <= i < 5200 ==> #[trigger] rounds[i] == sha512(rounds[i - 1] + key + user)
}

proof fn lemma_rounds(rounds: Seq<Seq<u8>>, user: Seq<u8>, key: Seq<u8>, n: nat)
    requires
        hashed_rounds(rounds, user, key),
        1 <= n <= 5200,
    ensures
        rounds[n - 1] == iterated_digest(user, key, n),
    decreases n,
{
    if n > 1 {
        lemma_rounds(rounds, user, key, (n - 1) as nat);
        assert(rounds[n - 1] == sha512(rounds[n - 2] + key + user));
    }
}

/// The number that is computed says both users' last rounds: whoever comes
/// first by user id, and for one user id by key, in front.
pub proof fn law_computed_number(
    user_a: &str,
    key_a: &[u8; 32],
    user_b: &str,
    key_b: &[u8; 32],
    out: Fingerprint,
    rounds_a: Seq<Seq<u8>>,
    rounds_b: Seq<Seq<u8>>,
    group: int,
)
    requires
        call_ensures(Fingerprint::compute, (user_a, key_a, user_b, key_b), out),
        hashed_rounds(rounds_a, user_a.spec_bytes(), key_a@),
        hashed_rounds(rounds_b, user_b.spec_bytes(), key_b@),
        0 <= group < 12,
    ensures
        out@.len() == 60,
        ({
            let same = user_a.spec_bytes() == user_b.spec_bytes();
            let a_first = (same && lex_le(key_a@, key_b@)) || (!same && lex_le(
                user_a.spec_bytes(),
                user_b.spec_bytes(),
            ));
            let hash = if (group < 6) == a_first {
                rounds_a[5199]
            } else {
                rounds_b[5199]
            };
            let at = 5 * group;
            let from = 5 * (group % 6);
            &&& out@[at] <= 9 && out@[at + 1] <= 9 && out@[at + 2] <= 9 && out@[at + 3] <= 9
                && out@[at + 4] <= 9
            &&& out@[at] * 10_000 + out@[at + 1] * 1_000 + out@[at + 2] * 100 + out@[at + 3] * 10
                + out@[at + 4] == (hash[from] * 0x1_0000_0000 + hash[from + 1] * 0x100_0000
                + hash[from + 2] * 0x1_0000 + hash[from + 3] * 0x100 + hash[from + 4]) % 100_000
        }),
{
    let a = user_a.spec_bytes();
    let b = user_b.spec_bytes();
    lemma_rounds(rounds_a, a, key_a@, 5200);
    lemma_rounds(rounds_b, b, key_b@, 5200);
    law_safety_number_holds_both(a, key_a@, b, key_b@);
    let at = if group < 6 {
        group
    } else {
        group - 6
    };
    assert(group % 6 == at);
    law_digits_say_the_digest(a, key_a@, at);
    law_digits_say_the_digest(b, key_b@, at);
}

/// The number is shown as its digits, with a space after every fifth but the
/// last.
pub proof fn law_shown_number(number: &Fingerprint, shown: String, digits: &[u8; 60], i: int)
    requires
        call_ensures(Fingerprint::display_grouped, (number,), shown),
        call_ensures(Fingerprint::as_digits, (number,), digits),
        0 <= i < 60,
    ensures
        digits@ == number@,
        shown@.len() == 71,
        shown@[i + i / 5] as int == digits@[i] + 48,
        i % 5 == 0 && i > 0 ==> shown@[i + i / 5 - 1] == ' ',
{
    law_grouped_reads_as_digits(digits@, i);
}

/// So many equal bytes.
pub open spec fn repeated(byte: u8, len: nat) -> Seq<u8> {
    Seq::new(len, |i: int| byte)
}

/// The label of the root key, `CMP_RATCHET`.
pub open spec fn ratchet_label() -> Seq<u8> {
    seq![67u8, 77, 80, 95, 82, 65, 84, 67, 72, 69, 84]
}

/// The label of the message keys, `CMP_MsgKey`.
pub open spec fn message_label() -> Seq<u8> {
    seq![67u8, 77, 80, 95, 77, 115, 103, 75, 101, 121]
}

/// The label of the agreed secret, `CMP_X3DH`.
pub open spec fn agreement_label() -> Seq<u8> {
    seq![67u8, 77, 80, 95, 88, 51, 68, 72]
}

pub proof fn lemma_labels()
    ensures
        super::kdf::HKDF_INFO_RATCHET@ == ratchet_label(),
        super::kdf::HKDF_INFO_MSG_KEY@ == message_label(),
        super::kdf::HKDF_INFO_X3DH@ == agreement_label(),
        super::kdf::ZERO_SALT@ == repeated(0, 32),
        super::x3dh::X3DH_DOMAIN_SEPARATOR@ == repeated(255, 32),
{
    assert(super::kdf::HKDF_INFO_RATCHET@ =~= ratchet_label());
    assert(super::kdf::HKDF_INFO_MSG_KEY@ =~= message_label());
    assert(super::kdf::HKDF_INFO_X3DH@ =~= agreement_label());
    assert(super::kdf::ZERO_SALT@ =~= repeated(0, 32));
    assert(super::x3dh::X3DH_DOMAIN_SEPARATOR@ =~= repeated(255, 32));
}

/// A step of the root key: 64 bytes of HKDF-SHA-256 with the root key as salt,
/// the new root key in front of the new chain key.
pub proof fn law_root_step(
    root: &[u8; 32],
    shared: &[u8; 32],
    out: Result<RootKeyOutput, CryptoError>,
)
    requires
        call_ensures(kdf_rk, (root, shared), out),
    ensures
        out matches Ok(keys) && keys.root_key@ + keys.chain_key@ == hkdf_sha256(
            root@,
            shared@,
            ratchet_label(),
            64,
        ),
{
    lemma_labels();
    let okm = hkdf_sha256(root@, shared@, ratchet_label(), 64);
    assert(okm.subrange(0, 32) + okm.subrange(32, 64) =~= okm);
}

/// A step of a chain: the message key is the HMAC of the byte 1, the next chain
/// key that of the byte 2.
pub proof fn law_chain_step(chain: &[u8; 32], out: Result<ChainKeyOutput, CryptoError>)
    requires
        call_ensures(kdf_ck, (chain,), out),
    ensures
        out matches Ok(keys) && keys.message_key@ == hmac_sha256(chain@, seq![1u8])
            && keys.chain_key@ == hmac_sha256(chain@, seq![2u8]),
{
}

/// The key and nonce of a message: 44 bytes of HKDF-SHA-256 out of its message
/// key, the key in front.
pub proof fn law_message_keys(key: &[u8; 32], out: Result<MessageKeys, CryptoError>)
    requires
        call_ensures(derive_message_keys, (key,), out),
    ensures
        out matches Ok(keys) && keys.aes_key@ + keys.nonce@ == hkdf_sha256(
            repeated(0, 32),
            key@,
            message_label(),
            44,
        ),
{
    lemma_labels();
    let okm = hkdf_sha256(repeated(0, 32), key@, message_label(), 44);
    assert(okm.subrange(0, 32) + okm.subrange(32, 44) =~= okm);
}

/// A message is sealed and opened with the key and nonce of its message key,
/// the associated data included.
pub proof fn law_sealing(
    key: &[u8; 32],
    text: &[u8],
    data: &[u8],
    keys: Result<MessageKeys, CryptoError>,
    closed: Result<Vec<u8>, CryptoError>,
    open: Result<Vec<u8>, CryptoError>,
)
    requires
        call_ensures(derive_message_keys, (key,), keys),
        call_ensures(aead::encrypt, (key, text, data), closed),
        call_ensures(aead::decrypt, (key, text, data), open),
    ensures
        keys is Ok,
        closed is Ok <==> sealable(text@.len(), data@.len()),
        closed matches Ok(ciphertext) ==> ciphertext@ == aes256gcm_seal(
            keys->Ok_0.aes_key@,
            keys->Ok_0.nonce@,
            text@,
            data@,
        ),
        ({
            let opened = aes256gcm_open(
                keys->Ok_0.aes_key@,
                keys->Ok_0.nonce@,
                text@,
                data@,
            );
            &&& open is Ok <==> opened is Some
            &&& open matches Ok(plain) ==> opened == Some(plain@)
        }),
        closed matches Err(error) ==> error is EncryptionFailed,
        open matches Err(error) ==> error is DecryptionFailed,
{
}

/// What is sealed opens, with the same key and the same associated data.
pub proof fn law_sealed_opens(
    key: &[u8; 32],
    text: &[u8],
    data: &[u8],
    closed: Result<Vec<u8>, CryptoError>,
    sent: &[u8],
    open: Result<Vec<u8>, CryptoError>,
)
    requires
        call_ensures(aead::encrypt, (key, text, data), closed),
        closed is Ok,
        sent@ == closed->Ok_0@,
        call_ensures(aead::decrypt, (key, sent, data), open),
    ensures
        open matches Ok(plain) && plain@ == text@,
        sent@.len() == text@.len() + 16,
{
}

/// The secret of three or four agreements, behind 32 bytes of 255.
pub open spec fn agreed(dh1: Seq<u8>, dh2: Seq<u8>, dh3: Seq<u8>, dh4: Seq<u8>) -> Seq<u8> {
    hkdf_sha256(
        repeated(0, 32),
        repeated(255, 32) + dh1 + dh2 + dh3 + dh4,
        agreement_label(),
        32,
    )
}

/// An agreement is begun exactly with a signed pre-key that the peer's identity
/// has signed; it goes over both identity keys, the signed pre-key, and the
/// one-time pre-key where there is one.
pub proof fn law_agreement_begins(
    identity: &IdentityKeyPair,
    bundle: &PeerPreKeyBundle,
    ephemeral: &EphemeralKeyPair,
    out: Result<X3dhInitResult, CryptoError>,
)
    requires
        call_ensures(alice_initiate_with, (identity, bundle, ephemeral), out),
    ensures
        out is Ok <==> ed25519_verifies(
            bundle.identity_key@,
            bundle.signed_prekey@,
            bundle.signed_prekey_signature@,
        ),
        out matches Ok(result) ==> result.ephemeral_public@ == ephemeral.spec_public()
            && result.shared_secret@ == agreed(
            x25519(ed25519_scalar(identity@), bundle.signed_prekey@),
            x25519(ephemeral.spec_secret(), ed25519_montgomery(bundle.identity_key@)),
            x25519(ephemeral.spec_secret(), bundle.signed_prekey@),
            match bundle.one_time_prekey {
                Some((_, key)) => x25519(ephemeral.spec_secret(), key@),
                None => Seq::empty(),
            },
        ),
{
    lemma_labels();
}

/// An agreement is answered with the secrets of the same keys.
pub proof fn law_agreement_is_answered(
    identity: &IdentityKeyPair,
    signed: &SignedPreKey,
    one_time: Option<&OneTimePreKey>,
    peer: &VerifyingKey,
    ephemeral: &PublicKey,
    out: Result<[u8; 32], CryptoError>,
)
    requires
        call_ensures(bob_respond, (identity, signed, one_time, peer, ephemeral), out),
    ensures
        out matches Ok(secret) && secret@ == agreed(
            x25519(signed.spec_secret(), ed25519_montgomery(peer@)),
            x25519(ed25519_scalar(identity@), ephemeral@),
            x25519(signed.spec_secret(), ephemeral@),
            match one_time {
                Some(key) => x25519(key.spec_secret(), ephemeral@),
                None => Seq::empty(),
            },
        ),
{
    lemma_labels();
}

/// Whoever begins a session sends first, on a chain out of the agreed secret
/// and the peer's key; whoever answers has no chain yet.
pub proof fn law_sessions_start(
    secret: [u8; 32],
    theirs: &PublicKey,
    pair: RatchetKeyPair,
    begun: Result<SessionState, CryptoError>,
    answered: SessionState,
)
    requires
        call_ensures(initialize_alice_with, (secret, theirs, pair), begun),
        call_ensures(initialize_bob, (secret, pair), answered),
    ensures
        begun matches Ok(state) && {
            let okm = hkdf_sha256(
                secret@,
                x25519(pair.secret_bytes@, theirs@),
                ratchet_label(),
                64,
            );
            &&& state.root_key@ == okm.take(32)
            &&& state.sending_chain_key matches Some(chain) && chain@ == okm.subrange(32, 64)
            &&& state.their_ratchet_key matches Some(key) && key@ == theirs@
            &&& state.receiving_chain_key is None
            &&& state.our_ratchet.secret_bytes@ == pair.secret_bytes@
            &&& state.our_ratchet.public_bytes@ == pair.public_bytes@
            &&& state.send_count == 0 && state.recv_count == 0 && state.previous_send_count == 0
            &&& state.skipped@ == Map::<(Seq<u8>, int), Seq<u8>>::empty()
        },
        answered.root_key@ == secret@,
        answered.our_ratchet.secret_bytes@ == pair.secret_bytes@,
        answered.our_ratchet.public_bytes@ == pair.public_bytes@,
        answered.their_ratchet_key is None,
        answered.sending_chain_key is None,
        answered.receiving_chain_key is None,
        answered.send_count == 0 && answered.recv_count == 0 && answered.previous_send_count == 0,
        answered.skipped@ == Map::<(Seq<u8>, int), Seq<u8>>::empty(),
{
    lemma_labels();
    if let Ok(state) = begun {
        lemma_fields(state);
        let okm = hkdf_sha256(secret@, x25519(pair.secret_bytes@, theirs@), ratchet_label(), 64);
        assert(okm.take(32) =~= okm.subrange(0, 32));
    }
    lemma_fields(answered);
}

proof fn lemma_fields(state: SessionState)
    ensures
        state@.theirs is Some <==> state.their_ratchet_key is Some,
        state@.sending is Some <==> state.sending_chain_key is Some,
        state@.receiving is Some <==> state.receiving_chain_key is Some,
        state.their_ratchet_key matches Some(key) ==> state@.theirs == Some(key@),
        state.sending_chain_key matches Some(key) ==> state@.sending == Some(key@),
        state.receiving_chain_key matches Some(key) ==> state@.receiving == Some(key@),
{
}

/// The bytes of a header in the associated data: its key and both numbers, big
/// end first.
pub proof fn law_header_bytes(header: &RatchetHeader, out: [u8; 40])
    requires
        call_ensures(RatchetHeader::to_aad, (header,), out),
    ensures
        out@ == header.ratchet_key@ + be32(header.previous_chain_length) + be32(
            header.message_number,
        ),
{
}

/// A message is sent under the next number of the sending chain, with the
/// chain's next message key and in its context, and moves that chain on by one
/// step. Of the session nothing else changes, and of a message that is not sent
/// nothing does.
pub proof fn law_sending(
    state: &mut SessionState,
    text: &[u8],
    context: &[u8],
    out: Result<RatchetMessage, CryptoError>,
)
    requires
        call_ensures(encrypt_in_context, (state, text, context), out),
    ensures
        out is Ok <==> old(state).send_count < u32::MAX && old(state).sending_chain_key is Some
            && sealable(text@.len(), context@.len() + 40),
        out is Err ==> final(state)@ == old(state)@,
        out matches Ok(message) ==> {
            let chain = old(state).sending_chain_key->0@;
            let secret = hkdf_sha256(
                repeated(0, 32),
                hmac_sha256(chain, seq![1u8]),
                message_label(),
                44,
            );
            &&& message.header.ratchet_key@ == old(state).our_ratchet.public_bytes@
            &&& message.header.previous_chain_length == old(state).previous_send_count
            &&& message.header.message_number == old(state).send_count
            &&& message.ciphertext@ == aes256gcm_seal(
                secret.subrange(0, 32),
                secret.subrange(32, 44),
                text@,
                context@ + (message.header.ratchet_key@ + be32(old(state).previous_send_count)
                    + be32(old(state).send_count)),
            )
            &&& final(state).sending_chain_key matches Some(next) && next@ == hmac_sha256(
                chain,
                seq![2u8],
            )
            &&& final(state).send_count == old(state).send_count + 1
            &&& final(state).root_key@ == old(state).root_key@
            &&& final(state)@ == (SessionModel {
                sending: final(state)@.sending,
                send_count: final(state)@.send_count,
                ..old(state)@
            })
        },
{
    lemma_labels();
    lemma_fields(*old(state));
    lemma_fields(*final(state));
}

/// A context starts with `CMP_ENVELOPE_AAD` and the version; that of a first
/// message goes on with 1, both keys of the sender and the identifiers of the
/// recipient's pre-keys, and that of any other ends with 2.
pub proof fn law_contexts(
    version: u32,
    identity: &[u8; 32],
    ephemeral: &[u8; 32],
    signed: u32,
    one_time: Option<u32>,
    first: Vec<u8>,
    later: Vec<u8>,
)
    requires
        call_ensures(aad::prekey, (version, identity, ephemeral, signed, one_time), first),
        call_ensures(aad::ratchet, (version,), later),
    ensures
        ({
            let domain = seq![
                67u8,
                77,
                80,
                95,
                69,
                78,
                86,
                69,
                76,
                79,
                80,
                69,
                95,
                65,
                65,
                68,
            ];
            &&& later@ == domain + be32(version) + seq![2u8]
            &&& first@ == domain + be32(version) + seq![1u8] + identity@ + ephemeral@ + be32(signed)
                + (match one_time {
                Some(id) => seq![1u8] + be32(id),
                None => seq![0u8] + be32(0),
            })
        }),
{
    let domain = seq![67u8, 77, 80, 95, 69, 78, 86, 69, 76, 79, 80, 69, 95, 65, 65, 68];
    assert(aad::DOMAIN@ =~= domain);
}

/// One message is put aside under its number on the peer's chain, with the
/// chain's next message key, and moves that chain on by one step; a thousand
/// keys are kept at most, and where that would be exceeded nothing changes.
pub proof fn law_one_message_is_put_aside(
    state: &mut SessionState,
    number: u32,
    out: Result<(), CryptoError>,
)
    requires
        number < u32::MAX,
        call_ensures(skip_message_keys, (state, number, (number + 1) as u32), out),
        old(state).their_ratchet_key is Some,
        old(state).receiving_chain_key is Some,
    ensures
        out is Ok <==> old(state).skipped@.len() < 1000,
        out is Err ==> final(state)@ == old(state)@,
        out is Ok ==> {
            let chain = old(state).receiving_chain_key->0@;
            &&& final(state).skipped@ == old(state).skipped@.insert(
                (old(state).their_ratchet_key->0@, number as int),
                hmac_sha256(chain, seq![1u8]),
            )
            &&& final(state).receiving_chain_key matches Some(next) && next@ == hmac_sha256(
                chain,
                seq![2u8],
            )
            &&& final(state)@ == (SessionModel {
                receiving: final(state)@.receiving,
                skipped: final(state)@.skipped,
                ..old(state)@
            })
        },
{
    lemma_fields(*old(state));
    lemma_fields(*final(state));
    let chain = old(state).receiving_chain_key->0@;
    let theirs = old(state).their_ratchet_key->0@;
    reveal_with_fuel(super::ratchet::chain_after, 2);
    let range = super::ratchet::key_range(theirs, chain, number as int, number + 1);
    if out is Ok {
        assert(old(state).skipped@.union_prefer_right(range) =~= old(state).skipped@.insert(
            (theirs, number as int),
            hmac_sha256(chain, seq![1u8]),
        ));
    }
}

/// To put messages aside up to some number, and then one more, is to put aside
/// all of them at once.
pub proof fn law_messages_are_put_aside_one_by_one(
    state: &mut SessionState,
    from: u32,
    until: u32,
    first: Result<(), CryptoError>,
    again: &mut SessionState,
    one: Result<(), CryptoError>,
    other: &mut SessionState,
    all: Result<(), CryptoError>,
)
    requires
        from <= until < u32::MAX,
        call_ensures(skip_message_keys, (state, from, until), first),
        call_ensures(skip_message_keys, (again, until, (until + 1) as u32), one),
        call_ensures(skip_message_keys, (other, from, (until + 1) as u32), all),
        old(again)@ == final(state)@,
        old(other)@ == old(state)@,
        all is Ok,
        one is Ok,
        old(state).their_ratchet_key is Some,
        old(state).receiving_chain_key is Some,
    ensures
        first is Ok,
        final(other)@ == final(again)@,
        from == until ==> final(state)@ == old(state)@,
{
    lemma_fields(*old(state));
    let chain = old(state).receiving_chain_key->0@;
    let theirs = old(state).their_ratchet_key->0@;
    reveal_with_fuel(super::ratchet::chain_after, 2);
    let short = super::ratchet::key_range(theirs, chain, from as int, until as int);
    let long = super::ratchet::key_range(theirs, chain, from as int, until + 1);
    let middle = super::ratchet::chain_after(chain, (until - from) as nat);
    let last = super::ratchet::key_range(theirs, middle, until as int, until + 1);
    let kept = old(state).skipped@;
    assert(super::ratchet::message_key_at(middle, 0) == super::ratchet::message_key_at(
        chain,
        (until - from) as nat,
    ));
    assert(kept.union_prefer_right(short).union_prefer_right(last) =~= kept.union_prefer_right(
        long,
    ));
    if from == until {
        assert(kept.union_prefer_right(last) =~= kept.union_prefer_right(long));
    }
    assert(final(other)@ =~= final(again)@);
}

/// A key that was put aside opens its message and is used up by it; where it
/// does not open the message, nothing changes.
pub proof fn law_late_message(
    state: &mut SessionState,
    header: &RatchetHeader,
    sealed: &[u8],
    context: &[u8],
    fresh: Option<RatchetKeyPair>,
    out: Result<Vec<u8>, CryptoError>,
)
    requires
        call_ensures(decrypt_with, (state, header, sealed, context, fresh), out),
        old(state).skipped@.contains_key((header.ratchet_key@, header.message_number as int)),
    ensures
        ({
            let slot = (header.ratchet_key@, header.message_number as int);
            let opened = super::aead::opened(
                old(state).skipped@[slot],
                sealed@,
                context@ + (header.ratchet_key@ + be32(header.previous_chain_length) + be32(
                    header.message_number,
                )),
            );
            &&& out is Ok <==> opened is Some
            &&& out matches Ok(text) ==> opened == Some(text@) && final(state).skipped@ == old(state).skipped@.remove(slot) && final(state)@ == (SessionModel {
                skipped: final(state)@.skipped,
                ..old(state)@
            })
            &&& out is Err ==> final(state)@ == old(state)@
        }),
{
}

/// The next message of the peer's chain is opened with the chain's next message
/// key, moves the chain on by one step, and is the last that was read. The last
/// of all numbers is never read.
pub proof fn law_next_message(
    state: &mut SessionState,
    header: &RatchetHeader,
    sealed: &[u8],
    context: &[u8],
    fresh: Option<RatchetKeyPair>,
    out: Result<Vec<u8>, CryptoError>,
)
    requires
        call_ensures(decrypt_with, (state, header, sealed, context, fresh), out),
        !old(state).skipped@.contains_key((header.ratchet_key@, header.message_number as int)),
        old(state).their_ratchet_key matches Some(key) && key@ == header.ratchet_key@,
        old(state).receiving_chain_key is Some,
        header.message_number <= old(state).recv_count,
    ensures
        ({
            let chain = old(state).receiving_chain_key->0@;
            let opened = super::aead::opened(
                hmac_sha256(chain, seq![1u8]),
                sealed@,
                context@ + (header.ratchet_key@ + be32(header.previous_chain_length) + be32(
                    header.message_number,
                )),
            );
            &&& out is Ok <==> opened is Some && header.message_number < u32::MAX
            &&& out matches Ok(text) ==> opened == Some(text@) && (final(state).receiving_chain_key matches Some(next) && next@ == hmac_sha256(
                chain,
                seq![2u8],
            )) && final(state).recv_count == header.message_number + 1 && final(state)@ == (
            SessionModel {
                receiving: final(state)@.receiving,
                recv_count: final(state)@.recv_count,
                ..old(state)@
            })
            &&& out is Err ==> final(state)@ == old(state)@
        }),
{
    lemma_fields(*old(state));
    lemma_fields(*final(state));
}

/// A message further on in the peer's chain is opened as if those before it had
/// been put aside first.
pub proof fn law_message_ahead(
    state: &mut SessionState,
    header: &RatchetHeader,
    sealed: &[u8],
    context: &[u8],
    fresh: Option<RatchetKeyPair>,
    out: Result<Vec<u8>, CryptoError>,
    other: &mut SessionState,
    aside: Result<(), CryptoError>,
    ready: &mut SessionState,
    same: Result<Vec<u8>, CryptoError>,
)
    requires
        call_ensures(decrypt_with, (state, header, sealed, context, fresh), out),
        old(state)@ == old(other)@,
        old(state).their_ratchet_key matches Some(key) && key@ == header.ratchet_key@,
        old(state).receiving_chain_key is Some,
        old(state).recv_count < header.message_number,
        !old(state).skipped@.contains_key((header.ratchet_key@, header.message_number as int)),
        call_ensures(
            skip_message_keys,
            (other, old(state).recv_count, header.message_number),
            aside,
        ),
        old(ready)@ == (SessionModel {
            recv_count: header.message_number as int,
            ..final(other)@
        }),
        aside is Ok ==> call_ensures(
            decrypt_with,
            (ready, header, sealed, context, fresh),
            same,
        ),
    ensures
        aside is Err ==> out is Err,
        aside is Ok ==> (out is Ok <==> same is Ok),
        aside is Ok && out is Ok ==> out->Ok_0@ == same->Ok_0@ && final(state)@ == final(ready)@,
        out is Err ==> final(state)@ == old(state)@,
{
    lemma_fields(*old(state));
    lemma_fields(*old(other));
    if aside is Ok {
        assert(!old(ready).skipped@.contains_key(
            (header.ratchet_key@, header.message_number as int),
        ));
        if out is Ok && same is Ok {
            assert(final(state)@ =~= final(ready)@);
        }
    }
}

/// A message under a new key of the peer turns the ratchet: the receiving chain
/// comes out of the old key pair, the sending chain out of the fresh one, one
/// root key after the other; the fresh public key is ours from then on.
pub proof fn law_ratchet_turns(
    state: &mut SessionState,
    header: &RatchetHeader,
    sealed: &[u8],
    context: &[u8],
    fresh: RatchetKeyPair,
    out: Result<Vec<u8>, CryptoError>,
)
    requires
        call_ensures(decrypt_with, (state, header, sealed, context, Some(fresh)), out),
        !old(state).skipped@.contains_key((header.ratchet_key@, 0)),
        !(old(state).their_ratchet_key matches Some(key) && key@ == header.ratchet_key@),
        header.message_number == 0,
        old(state).receiving_chain_key is None || header.previous_chain_length <= old(state).recv_count,
    ensures
        ({
            let first = hkdf_sha256(
                old(state).root_key@,
                x25519(old(state).our_ratchet.secret_bytes@, header.ratchet_key@),
                ratchet_label(),
                64,
            );
            let second = hkdf_sha256(
                first.subrange(0, 32),
                x25519(fresh.secret_bytes@, header.ratchet_key@),
                ratchet_label(),
                64,
            );
            let chain = first.subrange(32, 64);
            let opened = super::aead::opened(
                hmac_sha256(chain, seq![1u8]),
                sealed@,
                context@ + (header.ratchet_key@ + be32(header.previous_chain_length) + be32(0)),
            );
            &&& out is Ok <==> opened is Some
            &&& out is Err ==> final(state)@ == old(state)@
            &&& out matches Ok(text) ==> {
                &&& opened == Some(text@)
                &&& final(state).root_key@ == second.subrange(0, 32)
                &&& final(state).sending_chain_key matches Some(next) && next@ == second.subrange(
                    32,
                    64,
                )
                &&& final(state).receiving_chain_key matches Some(next) && next@ == hmac_sha256(
                    chain,
                    seq![2u8],
                )
                &&& final(state).their_ratchet_key matches Some(key) && key@ == header.ratchet_key@
                &&& final(state).our_ratchet.secret_bytes@ == fresh.secret_bytes@
                &&& final(state).our_ratchet.public_bytes@ == fresh.public_bytes@
                &&& final(state).send_count == 0
                &&& final(state).recv_count == 1
                &&& final(state).previous_send_count == old(state).send_count
                &&& final(state).skipped@ == old(state).skipped@
            }
        }),
{
    lemma_labels();
    lemma_fields(*old(state));
    lemma_fields(*final(state));
}

/// A fresh key pair is needed exactly for a message under a new key of the
/// peer, of which no key was put aside.
pub proof fn law_when_the_ratchet_turns(state: &SessionState, header: &RatchetHeader, out: bool)
    requires
        call_ensures(needs_turn, (state, header), out),
    ensures
        out <==> !(state.their_ratchet_key matches Some(key) && key@ == header.ratchet_key@)
            && !state.skipped@.contains_key((header.ratchet_key@, header.message_number as int)),
{
    lemma_fields(*state);
}

/// Keys that were put aside are taken back as they were stored, up to a
/// thousand; of two for one message the later counts.
pub proof fn law_keys_are_taken_back(
    entries: &Vec<SkippedKey>,
    out: Option<SkippedKeys>,
    i: int,
)
    requires
        call_ensures(restore_skipped, (entries,), out),
        0 <= i < entries@.len(),
        forall|j: int|
            i < j < entries@.len() ==> ((#[trigger] entries@[j]).ratchet_key@
                != entries@[i].ratchet_key@ || entries@[j].message_number
                != entries@[i].message_number),
    ensures
        out is Some <==> entries@.len() <= 1000,
        out matches Some(keys) ==> {
            let slot = (entries@[i].ratchet_key@, entries@[i].message_number as int);
            keys@.contains_key(slot) && keys@[slot] == entries@[i].message_key@
        },
        out matches Some(keys) ==> forall|slot: (Seq<u8>, int)| #[trigger]
            keys@.contains_key(slot) ==> exists|j: int|
                0 <= j < entries@.len() && (#[trigger] entries@[j]).slot() == slot,
{
    lemma_last_wins(entries@, i);
    assert forall|slot: (Seq<u8>, int)| #[trigger]
        super::skipped::last_wins(entries@).contains_key(slot) implies exists|j: int|
        0 <= j < entries@.len() && (#[trigger] entries@[j]).slot() == slot by {
        lemma_stored_slot(entries@, slot);
    }
}

proof fn lemma_last_wins(entries: Seq<SkippedKey>, i: int)
    requires
        0 <= i < entries.len(),
        forall|j: int|
            i < j < entries.len() ==> ((#[trigger] entries[j]).ratchet_key@
                != entries[i].ratchet_key@ || entries[j].message_number
                != entries[i].message_number),
    ensures
        super::skipped::last_wins(entries).contains_key(entries[i].slot()),
        super::skipped::last_wins(entries)[entries[i].slot()] == entries[i].message_key@,
    decreases entries.len(),
{
    if i < entries.len() - 1 {
        let rest = entries.drop_last();
        assert forall|j: int| i < j < rest.len() implies ((#[trigger] rest[j]).ratchet_key@
            != rest[i].ratchet_key@ || rest[j].message_number != rest[i].message_number) by {
            assert(entries[j] == rest[j]);
        }
        lemma_last_wins(rest, i);
        assert(entries[entries.len() - 1].slot() != entries[i].slot());
    }
}

proof fn lemma_stored_slot(entries: Seq<SkippedKey>, slot: (Seq<u8>, int))
    requires
        super::skipped::last_wins(entries).contains_key(slot),
    ensures
        exists|j: int| 0 <= j < entries.len() && (#[trigger] entries[j]).slot() == slot,
    decreases entries.len(),
{
    if entries.len() > 0 {
        if entries.last().slot() == slot {
            assert(entries[entries.len() - 1].slot() == slot);
        } else {
            lemma_stored_slot(entries.drop_last(), slot);
            let j = choose|j: int|
                0 <= j < entries.drop_last().len() && (#[trigger] entries.drop_last()[j]).slot()
                    == slot;
            assert(entries[j].slot() == slot);
        }
    }
}

/// New one-time pre-keys are numbered one after the other, each with both
/// halves, as long as the numbers last.
pub proof fn law_new_keys(
    start: u32,
    count: u32,
    out: Result<Vec<OneTimePreKey>, CryptoError>,
    i: int,
)
    requires
        call_ensures(generate_one_time_prekeys, (start, count), out),
        0 <= i < count,
    ensures
        out is Ok <==> start + count <= u32::MAX,
        out matches Ok(keys) ==> keys@.len() == count && keys@[i].spec_key_id() == start + i
            && dh_pair(keys@[i].spec_secret(), keys@[i].spec_public()),
{
    if let Ok(keys) = out {
        assert(keys@[i].wf());
    }
}

/// An agreement and a session are begun with fresh keys of which both halves
/// belong together; else as with given ones.
pub proof fn law_fresh_beginnings(
    identity: &IdentityKeyPair,
    bundle: &PeerPreKeyBundle,
    out: Result<X3dhInitResult, CryptoError>,
    secret: [u8; 32],
    theirs: &PublicKey,
    begun: Result<SessionState, CryptoError>,
)
    requires
        call_ensures(alice_initiate, (identity, bundle), out),
        call_ensures(initialize_alice, (secret, theirs), begun),
    ensures
        out is Ok <==> ed25519_verifies(
            bundle.identity_key@,
            bundle.signed_prekey@,
            bundle.signed_prekey_signature@,
        ),
        out matches Ok(result) ==> exists|own: Seq<u8>|
            {
                &&& #[trigger] dh_pair(own, result.ephemeral_public@)
                &&& result.shared_secret@ == agreed(
                    x25519(ed25519_scalar(identity@), bundle.signed_prekey@),
                    x25519(own, ed25519_montgomery(bundle.identity_key@)),
                    x25519(own, bundle.signed_prekey@),
                    match bundle.one_time_prekey {
                        Some((_, key)) => x25519(own, key@),
                        None => Seq::empty(),
                    },
                )
            },
        begun matches Ok(state) && dh_pair(state@.our_secret, state@.our_public) && {
            let okm = hkdf_sha256(
                secret@,
                x25519(state@.our_secret, theirs@),
                ratchet_label(),
                64,
            );
            &&& state@.root == okm.subrange(0, 32)
            &&& state@.sending == Some(okm.subrange(32, 64))
            &&& state@.theirs == Some(theirs@)
            &&& state@.receiving is None
            &&& state@.send_count == 0
        },
{
    lemma_labels();
}

/// Without a context a message is sent and read as in an empty one; and it is
/// read with the fresh key pair that a turn of the ratchet needs.
pub proof fn law_without_context(
    state: &mut SessionState,
    text: &[u8],
    out: Result<RatchetMessage, CryptoError>,
    other: &mut SessionState,
    nothing: &[u8],
    same: Result<RatchetMessage, CryptoError>,
)
    requires
        call_ensures(encrypt, (state, text), out),
        call_ensures(encrypt_in_context, (other, text, nothing), same),
        nothing@.len() == 0,
        old(state)@ == old(other)@,
    ensures
        out is Ok <==> same is Ok,
        out is Ok ==> out->Ok_0.ciphertext@ == same->Ok_0.ciphertext@
            && out->Ok_0.header.message_number == same->Ok_0.header.message_number
            && out->Ok_0.header.ratchet_key@ == same->Ok_0.header.ratchet_key@,
        final(state)@ == final(other)@,
{
    assert(nothing@ =~= Seq::<u8>::empty());
    if out is Ok && same is Ok {
        assert(out->Ok_0.header.spec_aad() == same->Ok_0.header.spec_aad());
    }
}

/// A message is read, with a context or without one, as with some fresh key
/// pair whose halves belong together where the ratchet turns; and a message
/// that cannot be read changes nothing.
pub proof fn law_reading(
    state: &mut SessionState,
    header: &RatchetHeader,
    sealed: &[u8],
    context: &[u8],
    out: Result<Vec<u8>, CryptoError>,
    other: &mut SessionState,
    plain: Result<Vec<u8>, CryptoError>,
)
    requires
        call_ensures(decrypt_in_context, (state, header, sealed, context), out),
        call_ensures(decrypt, (other, header, sealed), plain),
    ensures
        out is Err ==> final(state)@ == old(state)@,
        plain is Err ==> final(other)@ == old(other)@,
        out matches Ok(text) ==> text@.len() + 16 == sealed@.len(),
        out is Ok && !(old(state).their_ratchet_key matches Some(key) && key@
            == header.ratchet_key@) && !old(state).skipped@.contains_key(
            (header.ratchet_key@, header.message_number as int),
        ) ==> dh_pair(final(state)@.our_secret, final(state)@.our_public) && final(state)@.theirs
            == Some(header.ratchet_key@) && final(state)@.previous_send_count == old(state)@.send_count && final(state)@.send_count == 0,
        out is Ok && (old(state).their_ratchet_key matches Some(key) && key@
            == header.ratchet_key@) ==> final(state)@.root == old(state)@.root && final(state)@.our_public == old(state)@.our_public && final(state)@.sending == old(state)@.sending && final(state)@.send_count == old(state)@.send_count,
        plain is Ok && (old(other).their_ratchet_key matches Some(key) && key@
            == header.ratchet_key@) ==> final(other)@.root == old(other)@.root,
{
    lemma_fields(*old(state));
    lemma_fields(*old(other));
}

/// An identity signs and agrees with keys that others compute from its public
/// one, and is what its seed is.
pub proof fn law_identity(
    seed: &[u8; 32],
    identity: IdentityKeyPair,
    back: [u8; 32],
    key: VerifyingKey,
    public: PublicKey,
    signed: SignedPreKey,
    number: u32,
)
    requires
        call_ensures(IdentityKeyPair::from_bytes, (seed,), identity),
        call_ensures(IdentityKeyPair::to_bytes, (&identity,), back),
        call_ensures(IdentityKeyPair::verifying_key, (&identity,), key),
        call_ensures(IdentityKeyPair::to_x25519_public, (&identity,), public),
        call_ensures(SignedPreKey::generate, (number, &identity), signed),
    ensures
        back@ == seed@,
        key@ == ed25519_public(seed@),
        public@ == ed25519_montgomery(key@),
        signed.spec_key_id() == number,
        ed25519_verifies(key@, signed.spec_public(), signed.spec_signature()),
        dh_pair(signed.spec_secret(), signed.spec_public()),
{
}

/// Messages are put aside as long as no more than a thousand keys are kept, and
/// none where there is no chain; else nothing changes.
pub proof fn law_how_many_are_put_aside(
    state: &mut SessionState,
    from: u32,
    until: u32,
    out: Result<(), CryptoError>,
)
    requires
        call_ensures(skip_message_keys, (state, from, until), out),
    ensures
        out is Ok <==> until <= from || until - from + old(state).skipped@.len() <= 1000,
        out matches Err(error) ==> error is SkippedKeyLimitExceeded,
        out is Err || until <= from || old(state).their_ratchet_key is None || old(state).receiving_chain_key is None ==> final(state)@ == old(state)@,
        final(state)@ == (SessionModel {
            receiving: final(state)@.receiving,
            skipped: final(state)@.skipped,
            ..old(state)@
        }),
{
    lemma_fields(*old(state));
}

/// A message under a new key of the peer is read as if the rest of the old chain
/// had been put aside, the ratchet turned, and the message come then.
pub proof fn law_message_after_a_turn(
    state: &mut SessionState,
    header: &RatchetHeader,
    sealed: &[u8],
    context: &[u8],
    fresh: RatchetKeyPair,
    out: Result<Vec<u8>, CryptoError>,
    other: &mut SessionState,
    aside: Result<(), CryptoError>,
    ready: &mut SessionState,
    same: Result<Vec<u8>, CryptoError>,
)
    requires
        call_ensures(decrypt_with, (state, header, sealed, context, Some(fresh)), out),
        !old(state).skipped@.contains_key((header.ratchet_key@, header.message_number as int)),
        !(old(state).their_ratchet_key matches Some(key) && key@ == header.ratchet_key@),
        old(other)@ == old(state)@,
        call_ensures(
            skip_message_keys,
            (other, old(state).recv_count, header.previous_chain_length),
            aside,
        ),
        old(state).receiving_chain_key is None ==> aside is Ok,
        ({
            let first = hkdf_sha256(
                old(state).root_key@,
                x25519(old(state).our_ratchet.secret_bytes@, header.ratchet_key@),
                ratchet_label(),
                64,
            );
            let second = hkdf_sha256(
                first.subrange(0, 32),
                x25519(fresh.secret_bytes@, header.ratchet_key@),
                ratchet_label(),
                64,
            );
            old(ready)@ == (SessionModel {
                root: second.subrange(0, 32),
                our_secret: fresh.secret_bytes@,
                our_public: fresh.public_bytes@,
                theirs: Some(header.ratchet_key@),
                sending: Some(second.subrange(32, 64)),
                receiving: Some(first.subrange(32, 64)),
                send_count: 0,
                recv_count: 0,
                previous_send_count: old(state).send_count as int,
                skipped: final(other).skipped@,
            })
        }),
        call_ensures(decrypt_with, (ready, header, sealed, context, Some(fresh)), same),
    ensures
        aside is Err ==> out is Err,
        aside is Ok ==> (out is Ok <==> same is Ok),
        aside is Ok && out is Ok ==> out->Ok_0@ == same->Ok_0@ && final(state)@ == final(ready)@,
        out is Err ==> final(state)@ == old(state)@,
{
    lemma_labels();
    lemma_fields(*old(state));
    lemma_fields(*old(other));
    if aside is Ok {
        let slot = (header.ratchet_key@, header.message_number as int);
        assert(!final(other).skipped@.contains_key(slot));
        assert(!old(ready).skipped@.contains_key(slot));
        let before = if old(state)@.receiving is Some {
            final(other)@
        } else {
            old(state)@
        };
        assert(before == final(other)@);
        assert(old(ready)@ =~= before.turned(
            header.ratchet_key@,
            fresh.secret_bytes@,
            fresh.public_bytes@,
        ));
    }
}

/// What is said of errors.
pub proof fn law_errors_are_described(error: &CryptoError, text: String)
    requires
        call_ensures(CryptoError::message, (error,), text),
    ensures
        error is InvalidSignature ==> text@ == "invalid signature"@,
        error matches CryptoError::InvalidBundle(reason) ==> text@ == "invalid pre-key bundle: "@
            + reason@,
        error is EncryptionFailed ==> text@ == "encryption failed"@,
        error is DecryptionFailed ==> text@ == "decryption failed"@,
        error is NoSession ==> text@ == "no session found for peer"@,
        error is SkippedKeyLimitExceeded ==> text@ == "skipped message key limit exceeded"@,
        error is KdfFailure ==> text@ == "KDF expansion failed"@,
        error is MessageCounterExhausted ==> text@
            == "message counter exhausted (u32::MAX messages in a single chain)"@,
{
}

/// A signed pre-key is what it was made of, and verifies exactly under the key
/// that signed it.
pub proof fn law_signed_prekey(
    number: u32,
    secret: [u8; 32],
    public: [u8; 32],
    signature: Signature,
    key: SignedPreKey,
    copy: SignedPreKey,
    signer: &VerifyingKey,
    fine: Result<(), CryptoError>,
    one_time: OneTimePreKey,
)
    requires
        call_ensures(SignedPreKey::from_parts, (number, secret, public, signature), key),
        call_ensures(SignedPreKey::duplicate, (&key,), copy),
        call_ensures(SignedPreKey::verify, (&key, signer), fine),
        call_ensures(OneTimePreKey::from_parts, (number, secret, public), one_time),
    ensures
        copy.spec_key_id() == number,
        copy.spec_secret() == secret@,
        copy.spec_public() == public@,
        copy.spec_signature() == signature@,
        fine is Ok <==> ed25519_verifies(signer@, public@, signature@),
        one_time.spec_key_id() == number,
        one_time.spec_secret() == secret@,
        one_time.spec_public() == public@,
{
}

/// A key that was put aside is found under its key and number until it is taken
/// out, and those of others stay.
pub proof fn law_kept_keys(
    kept: &mut SkippedKeys,
    key: [u8; 32],
    number: u32,
    message: [u8; 32],
    later: &mut SkippedKeys,
    found: Option<[u8; 32]>,
    gone: Option<[u8; 32]>,
    list: Vec<SkippedKey>,
    back: SkippedKeys,
)
    requires
        call_ensures(SkippedKeys::insert, (kept, key, number, message), ()),
        call_ensures(SkippedKeys::get, (&*final(kept), &key, number), found),
        *old(later) == *final(kept),
        call_ensures(SkippedKeys::remove, (later, &key, number), ()),
        call_ensures(SkippedKeys::get, (&*final(later), &key, number), gone),
        call_ensures(SkippedKeys::entries, (&*final(kept),), list),
        call_ensures(SkippedKeys::from_entries, (&list,), back),
    ensures
        found matches Some(same) && same@ == message@,
        gone is None,
        final(later)@ == old(kept)@.remove((key@, number as int)),
        back@ == final(kept)@,
        list@.len() == final(kept)@.len(),
{
    assert(final(later)@ =~= old(kept)@.remove((key@, number as int)));
}

} // verus!
