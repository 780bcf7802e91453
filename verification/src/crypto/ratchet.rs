//! The Double Ratchet: a session that gives every message its own key.
//!
//! A session is modelled by [`SessionModel`]; [`encrypt_in_context`] and
//! [`decrypt_in_context`] are stated as steps of that model. What the two
//! sides of a conversation may rely on is in [`super::conversation`] and
//! [`super::out_of_order`].

use super::aead;
use super::error::CryptoError;
use super::kdf::{kdf_ck, kdf_rk};
use super::keys::{PublicKey, RatchetKeyPair};
use super::primitives::wipe;
use super::skipped::{SkippedKey, SkippedKeys};
use crate::bytes::{push_all, push_be32, same_bytes};
use vstd::prelude::*;

verus! {

use super::aead::{opened, sealed};
use super::kdf::{fresh_chain, message_key_of, next_chain, next_root};
use super::primitives::{dh_pair, sealable, x25519};
use super::skipped::last_wins;
use crate::bytes::be32;

/// The most keys of skipped messages that a session keeps.
pub const MAX_SKIP: u32 = 1000;

/// The header of a ratchet message: sent in the clear, authenticated as
/// associated data.
#[derive(Debug, PartialEq, Eq)]
pub struct RatchetHeader {
    /// The sender's current ratchet public key.
    pub ratchet_key: [u8; 32],
    /// How many messages the sender's previous chain had.
    pub previous_chain_length: u32,
    /// The number of the message in its chain.
    pub message_number: u32,
}

impl Clone for RatchetHeader {
    fn clone(&self) -> (out: Self)
        ensures
            out == *self,
    {
        RatchetHeader {
            ratchet_key: self.ratchet_key,
            previous_chain_length: self.previous_chain_length,
            message_number: self.message_number,
        }
    }
}

impl RatchetHeader {
    /// The 40 bytes that stand for the header in the associated data.
    pub open spec fn spec_aad(&self) -> Seq<u8> {
        self.ratchet_key@ + be32(self.previous_chain_length) + be32(self.message_number)
    }

    /// What the header's message key is found by.
    pub open spec fn slot(&self) -> (Seq<u8>, int) {
        (self.ratchet_key@, self.message_number as int)
    }

    /// The header as associated data: the ratchet key and both numbers in
    /// big-endian order.
    pub fn to_aad(&self) -> (out: [u8; 40])
        ensures
            out@ == self.spec_aad(),
    {
        let mut bytes: Vec<u8> = Vec::with_capacity(40);
        push_all(&mut bytes, &self.ratchet_key);
        push_be32(&mut bytes, self.previous_chain_length);
        push_be32(&mut bytes, self.message_number);
        let mut aad: [u8; 40] = [0u8; 40];
        let mut i: usize = 0;
        while i < 40
            invariant
                i <= 40,
                bytes@.len() == 40,
                forall|j: int| 0 <= j < i ==> aad@[j] == bytes@[j],
            decreases 40 - i,
        {
            aad[i] = bytes[i];
            i += 1;
        }
        assert(aad@ =~= bytes@);
        aad
    }
}

/// An encrypted message of a session.
pub struct RatchetMessage {
    pub header: RatchetHeader,
    pub ciphertext: Vec<u8>,
}

/// The state of a session.
///
/// Encrypting on two copies of one session would use one key and nonce for
/// two messages: treat a session as something that is moved, not copied.
pub struct SessionState {
    pub root_key: [u8; 32],
    pub our_ratchet: RatchetKeyPair,
    pub their_ratchet_key: Option<[u8; 32]>,
    pub sending_chain_key: Option<[u8; 32]>,
    pub receiving_chain_key: Option<[u8; 32]>,
    pub send_count: u32,
    pub recv_count: u32,
    pub previous_send_count: u32,
    pub skipped: SkippedKeys,
}

impl Drop for SessionState {
    fn drop(&mut self)
        opens_invariants none
        no_unwind
    {
        wipe(&mut self.root_key);
        match &mut self.sending_chain_key {
            Some(key) => wipe(key),
            None => {},
        }
        match &mut self.receiving_chain_key {
            Some(key) => wipe(key),
            None => {},
        }
    }
}

/// What a session is, as a mathematical value.
#[verifier::ext_equal]
pub struct SessionModel {
    pub root: Seq<u8>,
    pub our_secret: Seq<u8>,
    pub our_public: Seq<u8>,
    pub theirs: Option<Seq<u8>>,
    pub sending: Option<Seq<u8>>,
    pub receiving: Option<Seq<u8>>,
    pub send_count: int,
    pub recv_count: int,
    pub previous_send_count: int,
    pub skipped: Map<(Seq<u8>, int), Seq<u8>>,
}

/// An optional array, as a mathematical value.
pub open spec fn optional_bytes(bytes: Option<[u8; 32]>) -> Option<Seq<u8>> {
    match bytes {
        Some(bytes) => Some(bytes@),
        None => None,
    }
}

impl View for SessionState {
    type V = SessionModel;

    open spec fn view(&self) -> SessionModel {
        SessionModel {
            root: self.root_key@,
            our_secret: self.our_ratchet.secret_bytes@,
            our_public: self.our_ratchet.public_bytes@,
            theirs: optional_bytes(self.their_ratchet_key),
            sending: optional_bytes(self.sending_chain_key),
            receiving: optional_bytes(self.receiving_chain_key),
            send_count: self.send_count as int,
            recv_count: self.recv_count as int,
            previous_send_count: self.previous_send_count as int,
            skipped: self.skipped@,
        }
    }
}

impl Clone for SessionState {
    /// A snapshot, to keep or to work on: see the warning on the type.
    fn clone(&self) -> (out: Self)
        ensures
            out@ == self@,
    {
        SessionState {
            root_key: self.root_key,
            our_ratchet: self.our_ratchet.clone(),
            their_ratchet_key: self.their_ratchet_key,
            sending_chain_key: self.sending_chain_key,
            receiving_chain_key: self.receiving_chain_key,
            send_count: self.send_count,
            recv_count: self.recv_count,
            previous_send_count: self.previous_send_count,
            skipped: self.skipped.clone(),
        }
    }
}

/// The chain key after `n` messages.
pub open spec fn chain_after(chain_key: Seq<u8>, n: nat) -> Seq<u8>
    decreases n,
{
    if n == 0 {
        chain_key
    } else {
        next_chain(chain_after(chain_key, (n - 1) as nat))
    }
}

/// The key of the message `n` places ahead in a chain.
pub open spec fn message_key_at(chain_key: Seq<u8>, n: nat) -> Seq<u8> {
    message_key_of(chain_after(chain_key, n))
}

/// The keys of the messages `from..until` of the peer's chain `theirs`, whose
/// chain key at `from` is `chain_key`.
pub open spec fn key_range(theirs: Seq<u8>, chain_key: Seq<u8>, from: int, until: int) -> Map<
    (Seq<u8>, int),
    Seq<u8>,
> {
    Map::new(
        |slot: (Seq<u8>, int)| slot.0 == theirs && from <= slot.1 < until,
        |slot: (Seq<u8>, int)| message_key_at(chain_key, (slot.1 - from) as nat),
    )
}

/// The initiator's session at the start.
pub open spec fn alice_start(
    shared_secret: Seq<u8>,
    bob_public: Seq<u8>,
    our_secret: Seq<u8>,
    our_public: Seq<u8>,
) -> SessionModel {
    let dh = x25519(our_secret, bob_public);
    SessionModel {
        root: next_root(shared_secret, dh),
        our_secret,
        our_public,
        theirs: Some(bob_public),
        sending: Some(fresh_chain(shared_secret, dh)),
        receiving: None,
        send_count: 0,
        recv_count: 0,
        previous_send_count: 0,
        skipped: Map::empty(),
    }
}

/// The responder's session at the start.
pub open spec fn bob_start(shared_secret: Seq<u8>, our_secret: Seq<u8>, our_public: Seq<u8>)
    -> SessionModel {
    SessionModel {
        root: shared_secret,
        our_secret,
        our_public,
        theirs: None,
        sending: None,
        receiving: None,
        send_count: 0,
        recv_count: 0,
        previous_send_count: 0,
        skipped: Map::empty(),
    }
}

impl SessionModel {
    /// The session after its next message was sent.
    pub open spec fn after_send(self) -> SessionModel {
        SessionModel {
            sending: Some(next_chain(self.sending->0)),
            send_count: self.send_count + 1,
            ..self
        }
    }

    /// The session after the keys of the messages `current..until` were put
    /// aside, of which the receiving chain gives the first next, or nothing if
    /// that would be more than [`MAX_SKIP`] keys.
    pub open spec fn skip_range(self, current: int, until: int) -> Option<SessionModel> {
        if until <= current {
            Some(self)
        } else if until - current + self.skipped.len() > MAX_SKIP {
            None
        } else {
            match (self.theirs, self.receiving) {
                (Some(theirs), Some(chain_key)) => Some(
                    SessionModel {
                        receiving: Some(chain_after(chain_key, (until - current) as nat)),
                        skipped: self.skipped.union_prefer_right(
                            key_range(theirs, chain_key, current, until),
                        ),
                        ..self
                    },
                ),
                _ => Some(self),
            }
        }
    }

    /// The session after the keys of the messages up to `until` of the
    /// current receiving chain were put aside.
    pub open spec fn skip_to(self, until: int) -> Option<SessionModel> {
        self.skip_range(self.recv_count, until)
    }

    /// The session after a step of the Diffie-Hellman ratchet to the peer's
    /// key `theirs`, with a new key pair of our own.
    pub open spec fn turned(self, theirs: Seq<u8>, secret: Seq<u8>, public: Seq<u8>)
        -> SessionModel {
        let dh_in = x25519(self.our_secret, theirs);
        let root = next_root(self.root, dh_in);
        let dh_out = x25519(secret, theirs);
        SessionModel {
            root: next_root(root, dh_out),
            our_secret: secret,
            our_public: public,
            theirs: Some(theirs),
            sending: Some(fresh_chain(root, dh_out)),
            receiving: Some(fresh_chain(self.root, dh_in)),
            send_count: 0,
            recv_count: 0,
            previous_send_count: self.send_count,
            skipped: self.skipped,
        }
    }

    /// Whether a message with this header needs a step of the Diffie-Hellman
    /// ratchet: its key is not among the skipped ones, and it is not of the
    /// peer's current chain.
    pub open spec fn must_turn(self, header: RatchetHeader) -> bool {
        &&& !self.skipped.contains_key(header.slot())
        &&& self.theirs != Some(header.ratchet_key@)
    }

    /// The session on the chain of a message with this header: after a ratchet
    /// step if it takes one, before which the rest of the old chain is put
    /// aside.
    pub open spec fn on_chain(self, header: RatchetHeader, fresh: (Seq<u8>, Seq<u8>)) -> Option<
        SessionModel,
    > {
        if self.theirs == Some(header.ratchet_key@) {
            Some(self)
        } else {
            let aside = if self.receiving is Some {
                self.skip_to(header.previous_chain_length as int)
            } else {
                Some(self)
            };
            match aside {
                Some(aside) => Some(aside.turned(header.ratchet_key@, fresh.0, fresh.1)),
                None => None,
            }
        }
    }

    /// What a received message gives: its text and the session after it, or
    /// why it is refused. `fresh` is the key pair of a ratchet step.
    pub open spec fn receive(
        self,
        header: RatchetHeader,
        ciphertext: Seq<u8>,
        context: Seq<u8>,
        fresh: (Seq<u8>, Seq<u8>),
    ) -> Result<(Seq<u8>, SessionModel), CryptoError> {
        let aad = context + header.spec_aad();
        if self.skipped.contains_key(header.slot()) {
            match opened(self.skipped[header.slot()], ciphertext, aad) {
                Some(text) => Ok(
                    (text, SessionModel { skipped: self.skipped.remove(header.slot()), ..self }),
                ),
                None => Err(CryptoError::DecryptionFailed),
            }
        } else {
            match self.on_chain(header, fresh) {
                None => Err(CryptoError::SkippedKeyLimitExceeded),
                Some(chain) => match chain.skip_to(header.message_number as int) {
                    None => Err(CryptoError::SkippedKeyLimitExceeded),
                    Some(ready) => match ready.receiving {
                        None => Err(CryptoError::NoSession),
                        Some(chain_key) => match opened(
                            message_key_of(chain_key),
                            ciphertext,
                            aad,
                        ) {
                            None => Err(CryptoError::DecryptionFailed),
                            Some(text) => if header.message_number == u32::MAX {
                                Err(CryptoError::MessageCounterExhausted)
                            } else {
                                Ok(
                                    (
                                        text,
                                        SessionModel {
                                            receiving: Some(next_chain(chain_key)),
                                            recv_count: header.message_number + 1,
                                            ..ready
                                        },
                                    ),
                                )
                            },
                        },
                    },
                },
            }
        }
    }

    /// The key that a received message with this header is tried with, if it
    /// comes to that.
    pub open spec fn tried_key(self, header: RatchetHeader, fresh: (Seq<u8>, Seq<u8>)) -> Option<
        Seq<u8>,
    > {
        if self.skipped.contains_key(header.slot()) {
            Some(self.skipped[header.slot()])
        } else {
            match self.on_chain(header, fresh) {
                None => None,
                Some(chain) => match chain.skip_to(header.message_number as int) {
                    None => None,
                    Some(ready) => match ready.receiving {
                        None => None,
                        Some(chain_key) => Some(message_key_of(chain_key)),
                    },
                },
            }
        }
    }

    /// A message that this session sends for `text`: the header names the
    /// session's ratchet key and counters, and the ciphertext opens to `text`
    /// under the next key of the sending chain.
    pub open spec fn sends(
        self,
        text: Seq<u8>,
        context: Seq<u8>,
        header: RatchetHeader,
        ciphertext: Seq<u8>,
    ) -> bool {
        &&& self.sending is Some
        &&& header.ratchet_key@ == self.our_public
        &&& header.previous_chain_length == self.previous_send_count
        &&& header.message_number == self.send_count
        &&& opened(message_key_of(self.sending->0), ciphertext, context + header.spec_aad())
            == Some(text)
    }

    /// The halves of the session's own ratchet key belong together.
    pub open spec fn paired(self) -> bool {
        dh_pair(self.our_secret, self.our_public)
    }
}

/// Starts a session as the initiator, who knows the agreed secret and the
/// responder's signed pre-key. It succeeds on every input.
pub fn initialize_alice(shared_secret: [u8; 32], bob_ratchet_public: &PublicKey) -> (out: Result<
    SessionState,
    CryptoError,
>)
    ensures
        out matches Ok(state) && state@.paired() && state@ == alice_start(
            shared_secret@,
            bob_ratchet_public@,
            state@.our_secret,
            state@.our_public,
        ),
{
    initialize_alice_with(shared_secret, bob_ratchet_public, RatchetKeyPair::generate())
}

/// [`initialize_alice`] with a given ratchet key pair.
pub fn initialize_alice_with(
    shared_secret: [u8; 32],
    bob_ratchet_public: &PublicKey,
    our_ratchet: RatchetKeyPair,
) -> (out: Result<SessionState, CryptoError>)
    ensures
        out matches Ok(state) && state@ == alice_start(
            shared_secret@,
            bob_ratchet_public@,
            our_ratchet.secret_bytes@,
            our_ratchet.public_bytes@,
        ),
{
    let dh_output = our_ratchet.to_secret().diffie_hellman(bob_ratchet_public);
    match kdf_rk(&shared_secret, dh_output.as_bytes()) {
        Ok(keys) => Ok(
            SessionState {
                root_key: keys.root_key,
                our_ratchet,
                their_ratchet_key: Some(bob_ratchet_public.to_bytes()),
                sending_chain_key: Some(keys.chain_key),
                receiving_chain_key: None,
                send_count: 0,
                recv_count: 0,
                previous_send_count: 0,
                skipped: SkippedKeys::new(),
            },
        ),
        Err(error) => Err(error),
    }
}

/// Starts a session as the responder, with the signed pre-key as the first
/// ratchet key pair.
pub fn initialize_bob(shared_secret: [u8; 32], bob_ratchet: RatchetKeyPair) -> (out: SessionState)
    ensures
        out@ == bob_start(
            shared_secret@,
            bob_ratchet.secret_bytes@,
            bob_ratchet.public_bytes@,
        ),
{
    SessionState {
        root_key: shared_secret,
        our_ratchet: bob_ratchet,
        their_ratchet_key: None,
        sending_chain_key: None,
        receiving_chain_key: None,
        send_count: 0,
        recv_count: 0,
        previous_send_count: 0,
        skipped: SkippedKeys::new(),
    }
}

/// The associated data of a message: the context, then the header.
fn message_aad(context: &[u8], header: &RatchetHeader) -> (out: Vec<u8>)
    ensures
        out@ == context@ + header.spec_aad(),
{
    let mut aad: Vec<u8> = Vec::new();
    push_all(&mut aad, context);
    push_all(&mut aad, &header.to_aad());
    aad
}

/// Encrypts a message with nothing but the header as associated data.
pub fn encrypt(state: &mut SessionState, plaintext: &[u8]) -> (out: Result<
    RatchetMessage,
    CryptoError,
>)
    ensures
        encrypt_outcome(old(state)@, final(state)@, plaintext@, Seq::empty(), out),
{
    let context: [u8; 0] = [];
    assert(context@ =~= Seq::empty());
    encrypt_in_context(state, plaintext, &context)
}

/// What encrypting does: which error comes when, the message otherwise, and
/// the session before and after. On an error the session stays as it was.
pub open spec fn encrypt_outcome(
    before: SessionModel,
    after: SessionModel,
    plaintext: Seq<u8>,
    context: Seq<u8>,
    out: Result<RatchetMessage, CryptoError>,
) -> bool {
    if before.send_count >= u32::MAX {
        after == before && (out matches Err(error) && error is MessageCounterExhausted)
    } else if before.sending is None {
        after == before && (out matches Err(error) && error is NoSession)
    } else if !sealable(plaintext.len(), context.len() + 40) {
        after == before && (out matches Err(error) && error is EncryptionFailed)
    } else {
        &&& after == before.after_send()
        &&& out matches Ok(message) && before.sends(
            plaintext,
            context,
            message.header,
            message.ciphertext@,
        ) && message.ciphertext@.len() == plaintext.len() + 16 && message.ciphertext@ == sealed(
            message_key_of(before.sending->0),
            plaintext,
            context + message.header.spec_aad(),
        )
    }
}

/// Encrypts a message, with `context` and the header as associated data.
pub fn encrypt_in_context(state: &mut SessionState, plaintext: &[u8], context: &[u8]) -> (out:
    Result<RatchetMessage, CryptoError>)
    ensures
        encrypt_outcome(old(state)@, final(state)@, plaintext@, context@, out),
{
    let new_send_count: u32 = match state.send_count.checked_add(1) {
        Some(count) => count,
        None => return Err(CryptoError::MessageCounterExhausted),
    };
    let chain_key = match state.sending_chain_key {
        Some(chain_key) => chain_key,
        None => return Err(CryptoError::NoSession),
    };
    let keys = match kdf_ck(&chain_key) {
        Ok(keys) => keys,
        Err(error) => return Err(error),
    };
    let header = RatchetHeader {
        ratchet_key: state.our_ratchet.public_bytes,
        previous_chain_length: state.previous_send_count,
        message_number: state.send_count,
    };
    let aad = message_aad(context, &header);
    assert(aad@.len() == context@.len() + 40);
    match aead::encrypt(&keys.message_key, plaintext, &aad) {
        Ok(ciphertext) => {
            state.sending_chain_key = Some(keys.chain_key);
            state.send_count = new_send_count;
            Ok(RatchetMessage { header, ciphertext })
        },
        Err(error) => Err(error),
    }
}

/// What decrypting does: the step of the model, for some key pair where the
/// ratchet turns. On an error the session stays as it was.
pub open spec fn decrypt_outcome(
    before: SessionModel,
    after: SessionModel,
    step: Result<(Seq<u8>, SessionModel), CryptoError>,
    out: Result<Vec<u8>, CryptoError>,
) -> bool {
    match step {
        Ok((text, next)) => after == next && (out matches Ok(plaintext) && plaintext@ == text),
        Err(reason) => after == before && out == Err::<Vec<u8>, CryptoError>(reason),
    }
}

/// Decrypts a message with nothing but the header as associated data.
///
/// The session changes only if the message is authentic.
pub fn decrypt(state: &mut SessionState, header: &RatchetHeader, ciphertext: &[u8]) -> (out: Result<
    Vec<u8>,
    CryptoError,
>)
    ensures
        exists|fresh: (Seq<u8>, Seq<u8>)|
            {
                &&& old(state)@.must_turn(*header) ==> dh_pair(fresh.0, fresh.1)
                &&& decrypt_outcome(
                    old(state)@,
                    final(state)@,
                    #[trigger] old(state)@.receive(*header, ciphertext@, Seq::empty(), fresh),
                    out,
                )
            },
        out matches Ok(plain) ==> plain@.len() + 16 == ciphertext@.len(),
{
    let context: [u8; 0] = [];
    assert(context@ =~= Seq::empty());
    decrypt_in_context(state, header, ciphertext, &context)
}

/// Decrypts a message, with `context` and the header as associated data.
///
/// The session changes only if the message is authentic.
pub fn decrypt_in_context(
    state: &mut SessionState,
    header: &RatchetHeader,
    ciphertext: &[u8],
    context: &[u8],
) -> (out: Result<Vec<u8>, CryptoError>)
    ensures
        exists|fresh: (Seq<u8>, Seq<u8>)|
            {
                &&& old(state)@.must_turn(*header) ==> dh_pair(fresh.0, fresh.1)
                &&& decrypt_outcome(
                    old(state)@,
                    final(state)@,
                    #[trigger] old(state)@.receive(*header, ciphertext@, context@, fresh),
                    out,
                )
            },
        out matches Ok(plain) ==> plain@.len() + 16 == ciphertext@.len(),
{
    let fresh = if needs_turn(state, header) {
        Some(RatchetKeyPair::generate())
    } else {
        None
    };
    decrypt_with(state, header, ciphertext, context, fresh)
}

/// Whether decrypting a message with this header takes a ratchet step.
pub fn needs_turn(state: &SessionState, header: &RatchetHeader) -> (out: bool)
    ensures
        out == state@.must_turn(*header),
{
    state.skipped.get(&header.ratchet_key, header.message_number).is_none() && !on_current_chain(
        state,
        header,
    )
}

fn on_current_chain(state: &SessionState, header: &RatchetHeader) -> (out: bool)
    ensures
        out == (state@.theirs == Some(header.ratchet_key@)),
{
    match &state.their_ratchet_key {
        Some(theirs) => same_bytes(theirs, &header.ratchet_key),
        None => false,
    }
}

/// The key pair of a ratchet step as a mathematical value.
pub open spec fn fresh_pair(fresh: Option<RatchetKeyPair>) -> (Seq<u8>, Seq<u8>) {
    match fresh {
        Some(pair) => (pair.secret_bytes@, pair.public_bytes@),
        None => (Seq::empty(), Seq::empty()),
    }
}

/// [`decrypt_in_context`] with a given key pair for the ratchet step, where
/// there is one.
pub fn decrypt_with(
    state: &mut SessionState,
    header: &RatchetHeader,
    ciphertext: &[u8],
    context: &[u8],
    fresh: Option<RatchetKeyPair>,
) -> (out: Result<Vec<u8>, CryptoError>)
    requires
        old(state)@.must_turn(*header) ==> fresh is Some,
    ensures
        decrypt_outcome(
            old(state)@,
            final(state)@,
            old(state)@.receive(*header, ciphertext@, context@, fresh_pair(fresh)),
            out,
        ),
        out matches Ok(plain) ==> plain@.len() + 16 == ciphertext@.len(),
{
    match state.skipped.get(&header.ratchet_key, header.message_number) {
        Some(message_key) => {
            let mut message_key = message_key;
            let aad = message_aad(context, header);
            let result = aead::decrypt(&message_key, ciphertext, &aad);
            wipe(&mut message_key);
            if result.is_ok() {
                state.skipped.remove(&header.ratchet_key, header.message_number);
            }
            return result;
        },
        None => {},
    }
    let mut next = state.clone();
    match try_decrypt_inner(&mut next, header, ciphertext, context, fresh) {
        Ok(plaintext) => {
            *state = next;
            Ok(plaintext)
        },
        Err(error) => Err(error),
    }
}

/// Decrypts on a working copy of the session, which is worth nothing after an
/// error.
fn try_decrypt_inner(
    state: &mut SessionState,
    header: &RatchetHeader,
    ciphertext: &[u8],
    context: &[u8],
    fresh: Option<RatchetKeyPair>,
) -> (out: Result<Vec<u8>, CryptoError>)
    requires
        !old(state)@.skipped.contains_key(header.slot()),
        old(state)@.must_turn(*header) ==> fresh is Some,
    ensures
        match old(state)@.receive(*header, ciphertext@, context@, fresh_pair(fresh)) {
            Ok((text, next)) => final(state)@ == next && (out matches Ok(plaintext) && plaintext@
                == text),
            Err(reason) => out == Err::<Vec<u8>, CryptoError>(reason),
        },
        out matches Ok(plain) ==> plain@.len() + 16 == ciphertext@.len(),
{
    let ghost before = state@;
    if !on_current_chain(state, header) {
        if state.receiving_chain_key.is_some() {
            let current: u32 = state.recv_count;
            match skip_message_keys(state, current, header.previous_chain_length) {
                Ok(()) => {},
                Err(error) => return Err(error),
            }
        }
        match fresh {
            Some(pair) => match turn_ratchet(state, header, pair) {
                Ok(()) => {},
                Err(error) => return Err(error),
            },
            None => {
                assert(false);
            },
        }
    }
    assert(before.on_chain(*header, fresh_pair(fresh)) == Some(state@));
    let current: u32 = state.recv_count;
    match skip_message_keys(state, current, header.message_number) {
        Ok(()) => {},
        Err(error) => return Err(error),
    }
    let chain_key = match state.receiving_chain_key {
        Some(chain_key) => chain_key,
        None => return Err(CryptoError::NoSession),
    };
    let keys = match kdf_ck(&chain_key) {
        Ok(keys) => keys,
        Err(error) => return Err(error),
    };
    let aad = message_aad(context, header);
    let plaintext = match aead::decrypt(&keys.message_key, ciphertext, &aad) {
        Ok(plaintext) => plaintext,
        Err(error) => return Err(error),
    };
    let next_count: u32 = match header.message_number.checked_add(1) {
        Some(count) => count,
        None => return Err(CryptoError::MessageCounterExhausted),
    };
    state.receiving_chain_key = Some(keys.chain_key);
    state.recv_count = next_count;
    Ok(plaintext)
}

/// Steps the Diffie-Hellman ratchet to the header's key. It succeeds on every
/// input.
fn turn_ratchet(state: &mut SessionState, header: &RatchetHeader, fresh: RatchetKeyPair) -> (out:
    Result<(), CryptoError>)
    ensures
        out is Ok,
        final(state)@ == old(state)@.turned(
            header.ratchet_key@,
            fresh.secret_bytes@,
            fresh.public_bytes@,
        ),
{
    let their_public = PublicKey::from_bytes(header.ratchet_key);
    let dh_in = state.our_ratchet.to_secret().diffie_hellman(&their_public);
    let incoming = match kdf_rk(&state.root_key, dh_in.as_bytes()) {
        Ok(keys) => keys,
        Err(error) => return Err(error),
    };
    let dh_out = fresh.to_secret().diffie_hellman(&their_public);
    let outgoing = match kdf_rk(&incoming.root_key, dh_out.as_bytes()) {
        Ok(keys) => keys,
        Err(error) => return Err(error),
    };
    state.their_ratchet_key = Some(header.ratchet_key);
    state.receiving_chain_key = Some(incoming.chain_key);
    state.recv_count = 0;
    state.previous_send_count = state.send_count;
    state.send_count = 0;
    state.our_ratchet = fresh;
    state.root_key = outgoing.root_key;
    state.sending_chain_key = Some(outgoing.chain_key);
    Ok(())
}

/// Puts the keys of the messages from `current` up to `until` aside, of which
/// the receiving chain gives the first next.
pub fn skip_message_keys(state: &mut SessionState, current: u32, until: u32) -> (out: Result<
    (),
    CryptoError,
>)
    ensures
        match old(state)@.skip_range(current as int, until as int) {
            Some(next) => out is Ok && final(state)@ == next,
            None => out == Err::<(), CryptoError>(CryptoError::SkippedKeyLimitExceeded)
                && final(state)@ == old(state)@,
        },
{
    if until <= current {
        return Ok(());
    }
    let held: usize = state.skipped.len();
    if held > MAX_SKIP as usize || until - current > MAX_SKIP - held as u32 {
        return Err(CryptoError::SkippedKeyLimitExceeded);
    }
    let their_key = match state.their_ratchet_key {
        Some(key) => key,
        None => return Ok(()),
    };
    let mut chain_key = match state.receiving_chain_key {
        Some(key) => key,
        None => return Ok(()),
    };
    let ghost before = state@;
    let ghost start = chain_key@;
    let mut i: u32 = current;
    assert(before.skipped.union_prefer_right(
        key_range(their_key@, start, current as int, current as int),
    ) =~= before.skipped);
    while i < until
        invariant
            current <= i <= until,
            chain_key@ == chain_after(start, (i - current) as nat),
            state@ == (SessionModel {
                skipped: before.skipped.union_prefer_right(
                    key_range(their_key@, start, current as int, i as int),
                ),
                ..before
            }),
        decreases until - i,
    {
        let keys = match kdf_ck(&chain_key) {
            Ok(keys) => keys,
            Err(error) => return Err(error),
        };
        state.skipped.insert(their_key, i, keys.message_key);
        proof {
            let shorter = before.skipped.union_prefer_right(
                key_range(their_key@, start, current as int, i as int),
            );
            let longer = before.skipped.union_prefer_right(
                key_range(their_key@, start, current as int, i + 1),
            );
            assert(longer =~= shorter.insert(
                (their_key@, i as int),
                message_key_at(start, (i - current) as nat),
            ));
        }
        chain_key = keys.chain_key;
        i += 1;
    }
    state.receiving_chain_key = Some(chain_key);
    Ok(())
}

/// The skipped keys of a stored session. It refuses exactly more than
/// [`MAX_SKIP`] entries.
pub fn restore_skipped(entries: &Vec<SkippedKey>) -> (out: Option<SkippedKeys>)
    ensures
        out is Some <==> entries@.len() <= MAX_SKIP,
        out matches Some(keys) ==> keys@ == last_wins(entries@),
{
    if entries.len() > MAX_SKIP as usize {
        None
    } else {
        Some(SkippedKeys::from_entries(entries))
    }
}

} // verus!
