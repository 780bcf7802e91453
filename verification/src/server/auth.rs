//! Registration and login.

use super::handlers::{
    auth_failure, decode_prekeys, error_400, error_500_generic, Session, StorageError,
};
use crate::bytes::{exact32, exact64, push_all, push_be64};
use crate::crypto::keys::{IdentityKeyPair, Signature, VerifyingKey};
use crate::encoding::{decode, encode};
use crate::protocol::consts::MAX_PREKEYS_PER_UPLOAD;
use crate::protocol::{OneTimePreKey, PreKeyBundle, ServerMessage, UserId};
use vstd::prelude::*;
use vstd::string::*;

verus! {

use super::handlers::{
    bad_prekeys_text, decoded_prekeys, is_auth_failure, is_error, is_internal_error, valid_prekeys,
};
use crate::bytes::be64;
use crate::crypto::primitives::{
    ed25519_decodes, ed25519_public, ed25519_sign, ed25519_verifies,
};
use crate::encoding::{base64_bytes, encodes};
use vstd::utf8::encode_utf8;

/// How long a login challenge may be answered, in seconds.
pub const CHALLENGE_LIFETIME_SECS: u64 = 60;

/// A login challenge that has not been answered.
pub struct PendingChallenge {
    pub user_id: String,
    pub nonce: [u8; 32],
    pub timestamp: u64,
}

/// A checked registration.
pub struct Registration {
    pub user_id: UserId,
    pub identity_key: Vec<u8>,
    pub signed_prekey_id: u32,
    pub signed_prekey_public: Vec<u8>,
    pub signed_prekey_signature: Vec<u8>,
    pub one_time_prekeys: Vec<(u32, Vec<u8>)>,
}

/// Why a registration is refused.
pub enum RegistrationFault {
    AlreadyAuthenticated,
    TooManyPreKeys,
    IdentityEncoding,
    IdentityLength,
    IdentityKey,
    SignedPreKeyEncoding,
    SignedPreKeyLength,
    SignatureEncoding,
    SignatureLength,
    Signature,
    PreKeys,
}

impl RegistrationFault {
    /// `reply` is the answer to a registration with this fault.
    pub open spec fn answers(self, reply: ServerMessage) -> bool {
        match self {
            RegistrationFault::AlreadyAuthenticated => is_auth_failure(
                reply,
                "already authenticated"@,
            ),
            RegistrationFault::TooManyPreKeys => is_error(reply, 400, "too many prekeys"@),
            RegistrationFault::IdentityEncoding => is_auth_failure(
                reply,
                "invalid base64 in identity_key"@,
            ),
            RegistrationFault::IdentityLength => is_auth_failure(
                reply,
                "identity key must be 32 bytes"@,
            ),
            RegistrationFault::IdentityKey => is_auth_failure(
                reply,
                "identity key is not a valid Ed25519 public key"@,
            ),
            RegistrationFault::SignedPreKeyEncoding => is_auth_failure(
                reply,
                "invalid base64 in signed_prekey"@,
            ),
            RegistrationFault::SignedPreKeyLength => is_auth_failure(
                reply,
                "signed prekey must be 32 bytes"@,
            ),
            RegistrationFault::SignatureEncoding => is_auth_failure(
                reply,
                "invalid base64 in signature"@,
            ),
            RegistrationFault::SignatureLength => is_auth_failure(
                reply,
                "signature must be 64 bytes"@,
            ),
            RegistrationFault::Signature => is_auth_failure(
                reply,
                "signed prekey signature is invalid"@,
            ),
            RegistrationFault::PreKeys => is_error(reply, 400, bad_prekeys_text()),
        }
    }
}

/// The first fault of a registration, if it has one.
pub open spec fn registration_fault(
    session: Session,
    bundle: PreKeyBundle,
    one_time_prekeys: Seq<OneTimePreKey>,
) -> Option<RegistrationFault> {
    let identity = base64_bytes(bundle.identity_key@);
    let signed = base64_bytes(bundle.signed_prekey@);
    let signature = base64_bytes(bundle.signed_prekey_signature@);
    if session.authed_user is Some {
        Some(RegistrationFault::AlreadyAuthenticated)
    } else if one_time_prekeys.len() > MAX_PREKEYS_PER_UPLOAD {
        Some(RegistrationFault::TooManyPreKeys)
    } else if identity is None {
        Some(RegistrationFault::IdentityEncoding)
    } else if identity->0.len() != 32 {
        Some(RegistrationFault::IdentityLength)
    } else if !ed25519_decodes(identity->0) {
        Some(RegistrationFault::IdentityKey)
    } else if signed is None {
        Some(RegistrationFault::SignedPreKeyEncoding)
    } else if signed->0.len() != 32 {
        Some(RegistrationFault::SignedPreKeyLength)
    } else if signature is None {
        Some(RegistrationFault::SignatureEncoding)
    } else if signature->0.len() != 64 {
        Some(RegistrationFault::SignatureLength)
    } else if !ed25519_verifies(identity->0, signed->0, signature->0) {
        Some(RegistrationFault::Signature)
    } else if !valid_prekeys(one_time_prekeys) {
        Some(RegistrationFault::PreKeys)
    } else {
        None
    }
}

/// `registration` is what a request to register stands for.
pub open spec fn registers(
    registration: Registration,
    user_id: UserId,
    bundle: PreKeyBundle,
    one_time_prekeys: Seq<OneTimePreKey>,
) -> bool {
    &&& registration.user_id == user_id
    &&& base64_bytes(bundle.identity_key@) == Some(registration.identity_key@)
    &&& registration.signed_prekey_id == bundle.signed_prekey_id
    &&& base64_bytes(bundle.signed_prekey@) == Some(registration.signed_prekey_public@)
    &&& base64_bytes(bundle.signed_prekey_signature@) == Some(
        registration.signed_prekey_signature@,
    )
    &&& decoded_prekeys(registration.one_time_prekeys@, one_time_prekeys)
}

/// Checks a request to register: the keys must be keys, and the signed pre-key
/// must carry the signature of the identity key.
pub fn check_registration(
    session: &Session,
    user_id: UserId,
    bundle: &PreKeyBundle,
    one_time_prekeys: &Vec<OneTimePreKey>,
) -> (out: Result<Registration, ServerMessage>)
    ensures
        match registration_fault(*session, *bundle, one_time_prekeys@) {
            Some(fault) => out matches Err(reply) && fault.answers(reply),
            None => out matches Ok(registration) && registers(
                registration,
                user_id,
                *bundle,
                one_time_prekeys@,
            ),
        },
{
    if session.authed_user.is_some() {
        return Err(auth_failure("already authenticated"));
    }
    if one_time_prekeys.len() > MAX_PREKEYS_PER_UPLOAD {
        return Err(error_400("too many prekeys"));
    }
    let identity_key = match decode(bundle.identity_key.as_str()) {
        Some(bytes) => bytes,
        None => return Err(auth_failure("invalid base64 in identity_key")),
    };
    let identity = match exact32(&identity_key) {
        Some(bytes) => bytes,
        None => return Err(auth_failure("identity key must be 32 bytes")),
    };
    let identity = match VerifyingKey::from_bytes(&identity) {
        Some(key) => key,
        None => return Err(auth_failure("identity key is not a valid Ed25519 public key")),
    };
    let signed_prekey_public = match decode(bundle.signed_prekey.as_str()) {
        Some(bytes) => bytes,
        None => return Err(auth_failure("invalid base64 in signed_prekey")),
    };
    if signed_prekey_public.len() != 32 {
        return Err(auth_failure("signed prekey must be 32 bytes"));
    }
    let signed_prekey_signature = match decode(bundle.signed_prekey_signature.as_str()) {
        Some(bytes) => bytes,
        None => return Err(auth_failure("invalid base64 in signature")),
    };
    let signature = match exact64(&signed_prekey_signature) {
        Some(bytes) => Signature::from_bytes(bytes),
        None => return Err(auth_failure("signature must be 64 bytes")),
    };
    if identity.verify(&signed_prekey_public, &signature).is_err() {
        return Err(auth_failure("signed prekey signature is invalid"));
    }
    let one_time_prekeys = match decode_prekeys(one_time_prekeys) {
        Ok(pairs) => pairs,
        Err(reply) => return Err(reply),
    };
    Ok(
        Registration {
            user_id,
            identity_key,
            signed_prekey_id: bundle.signed_prekey_id,
            signed_prekey_public,
            signed_prekey_signature,
            one_time_prekeys,
        },
    )
}

/// What a checked registration is answered: the first one for a name wins.
pub fn registration_reply(stored: Result<bool, StorageError>) -> (out: ServerMessage)
    ensures
        match stored {
            Ok(true) => out is AuthSuccess,
            Ok(false) => is_auth_failure(
                out,
                "user already exists \u{2014} use AuthChallenge to login"@,
            ),
            Err(_) => is_internal_error(out),
        },
{
    match stored {
        Ok(true) => ServerMessage::AuthSuccess,
        Ok(false) => auth_failure("user already exists \u{2014} use AuthChallenge to login"),
        Err(_) => error_500_generic(),
    }
}

/// The bytes that a login signs: nonce, time and the name of the server.
pub open spec fn spec_login_bytes(nonce: Seq<u8>, timestamp: u64, server_id: Seq<char>) -> Seq<u8> {
    nonce + be64(timestamp) + encode_utf8(server_id)
}

/// The bytes that a login signs: nonce, time and the name of the server.
pub fn login_bytes(nonce: &[u8], timestamp: u64, server_id: &str) -> (out: Vec<u8>)
    ensures
        out@ == spec_login_bytes(nonce@, timestamp, server_id@),
{
    let mut out: Vec<u8> = Vec::new();
    push_all(&mut out, nonce);
    push_be64(&mut out, timestamp);
    push_all(&mut out, server_id.as_bytes());
    assert(out@ =~= spec_login_bytes(nonce@, timestamp, server_id@));
    out
}

/// `rand::RngCore::fill_bytes` of `rand::thread_rng`: 32 random bytes, of
/// which nothing is said.
#[verifier::external_body]
fn random_nonce() -> (out: [u8; 32]) {
    let mut nonce = [0u8; 32];
    rand::RngCore::fill_bytes(&mut rand::thread_rng(), &mut nonce);
    nonce
}

/// Everything of a session but its login challenge is as in `before`.
pub open spec fn same_but_challenge(session: Session, before: Session) -> bool {
    &&& session.authed_user == before.authed_user
    &&& session.conn_id == before.conn_id
    &&& session.deliver_prekey_status == before.deliver_prekey_status
}

/// What a request to log in is answered. `known` says whether the user is
/// registered.
pub open spec fn challenges(
    before: Session,
    after: Session,
    user_id: UserId,
    known: Result<bool, StorageError>,
    now: u64,
    name: Seq<char>,
    nonce_bytes: Seq<u8>,
    out: ServerMessage,
) -> bool {
    if before.authed_user is Some {
        after == before && is_auth_failure(out, "already authenticated"@)
    } else if known is Err {
        after == before && is_internal_error(out)
    } else if !known->Ok_0 {
        after == before && is_auth_failure(out, "authentication failed"@)
    } else {
        &&& same_but_challenge(after, before)
        &&& after.pending_challenge matches Some(challenge) && challenge.user_id@ == user_id@
            && challenge.nonce@ == nonce_bytes && challenge.timestamp == now
        &&& out matches ServerMessage::Challenge { nonce, timestamp, server_id } && encodes(
            nonce@,
            nonce_bytes,
        ) && timestamp == now && server_id@ == name
    }
}

/// Answers a request to log in with a challenge.
pub fn begin_challenge(
    session: &mut Session,
    user_id: &UserId,
    known: Result<bool, StorageError>,
    now: u64,
    server_id: &str,
) -> (out: ServerMessage)
    ensures
        exists|nonce: Seq<u8>| #[trigger]
            challenges(
                *old(session),
                *final(session),
                *user_id,
                known,
                now,
                server_id@,
                nonce,
                out,
            ),
{
    begin_challenge_with(session, user_id, known, now, server_id, random_nonce())
}

/// [`begin_challenge`] with a given nonce.
pub fn begin_challenge_with(
    session: &mut Session,
    user_id: &UserId,
    known: Result<bool, StorageError>,
    now: u64,
    server_id: &str,
    nonce: [u8; 32],
) -> (out: ServerMessage)
    ensures
        challenges(
            *old(session),
            *final(session),
            *user_id,
            known,
            now,
            server_id@,
            nonce@,
            out,
        ),
{
    if session.authed_user.is_some() {
        return auth_failure("already authenticated");
    }
    match known {
        Ok(true) => {},
        Ok(false) => return auth_failure("authentication failed"),
        Err(_) => return error_500_generic(),
    }
    session.pending_challenge = Some(
        PendingChallenge { user_id: user_id.as_str().to_owned(), nonce, timestamp: now },
    );
    ServerMessage::Challenge {
        nonce: encode(&nonce),
        timestamp: now,
        server_id: server_id.to_owned(),
    }
}

/// Takes the challenge that an answer is for. It serves for one answer, right
/// or wrong, within a minute.
pub fn take_challenge(session: &mut Session, now: u64) -> (out: Result<
    PendingChallenge,
    ServerMessage,
>)
    ensures
        if old(session).authed_user is Some {
            *final(session) == *old(session) && (out matches Err(reply) && is_auth_failure(
                reply,
                "already authenticated"@,
            ))
        } else {
            &&& same_but_challenge(*final(session), *old(session))
            &&& final(session).pending_challenge is None
            &&& match old(session).pending_challenge {
                None => out matches Err(reply) && is_auth_failure(reply, "no pending challenge"@),
                Some(challenge) => if now > challenge.timestamp + CHALLENGE_LIFETIME_SECS {
                    out matches Err(reply) && is_auth_failure(reply, "challenge expired"@)
                } else {
                    out matches Ok(taken) && taken == challenge
                },
            }
        },
{
    if session.authed_user.is_some() {
        return Err(auth_failure("already authenticated"));
    }
    let challenge = match session.pending_challenge.take() {
        Some(challenge) => challenge,
        None => return Err(auth_failure("no pending challenge")),
    };
    if now.saturating_sub(challenge.timestamp) > CHALLENGE_LIFETIME_SECS {
        return Err(auth_failure("challenge expired"));
    }
    Ok(challenge)
}

/// Why an answer to a challenge is refused.
pub enum LoginFault {
    Storage,
    UnknownUser,
    StoredKey,
    SignatureEncoding,
    SignatureLength,
    Signature,
}

impl LoginFault {
    /// `reply` is the answer to a login with this fault.
    pub open spec fn answers(self, reply: ServerMessage) -> bool {
        match self {
            LoginFault::Storage => is_internal_error(reply),
            LoginFault::UnknownUser => is_auth_failure(reply, "authentication failed"@),
            LoginFault::StoredKey => is_auth_failure(reply, "invalid stored identity key"@),
            LoginFault::SignatureEncoding => is_auth_failure(reply, "invalid base64 signature"@),
            LoginFault::SignatureLength => is_auth_failure(reply, "signature must be 64 bytes"@),
            LoginFault::Signature => is_auth_failure(reply, "signature verification failed"@),
        }
    }
}

/// The identity key of a user as the database gives it.
pub open spec fn stored_key(found: Result<Option<Vec<u8>>, StorageError>) -> Option<Seq<u8>> {
    match found {
        Ok(Some(key)) => Some(key@),
        _ => None,
    }
}

/// The first fault of an answer to a challenge, if it has one.
pub open spec fn login_fault(
    challenge: PendingChallenge,
    found: Result<Option<Vec<u8>>, StorageError>,
    signature: Seq<char>,
    server_id: Seq<char>,
) -> Option<LoginFault> {
    let key = stored_key(found);
    let bytes = base64_bytes(signature);
    if found is Err {
        Some(LoginFault::Storage)
    } else if key is None {
        Some(LoginFault::UnknownUser)
    } else if key->0.len() != 32 || !ed25519_decodes(key->0) {
        Some(LoginFault::StoredKey)
    } else if bytes is None {
        Some(LoginFault::SignatureEncoding)
    } else if bytes->0.len() != 64 {
        Some(LoginFault::SignatureLength)
    } else if !ed25519_verifies(
        key->0,
        spec_login_bytes(challenge.nonce@, challenge.timestamp, server_id),
        bytes->0,
    ) {
        Some(LoginFault::Signature)
    } else {
        None
    }
}

/// Checks the answer to a challenge against the identity key of the user.
pub fn check_response(
    challenge: &PendingChallenge,
    found: Result<Option<Vec<u8>>, StorageError>,
    signature: &str,
    server_id: &str,
) -> (out: Result<(), ServerMessage>)
    ensures
        match login_fault(*challenge, found, signature@, server_id@) {
            Some(fault) => out matches Err(reply) && fault.answers(reply),
            None => out is Ok,
        },
{
    let identity_key = match found {
        Ok(Some(key)) => key,
        Ok(None) => return Err(auth_failure("authentication failed")),
        Err(_) => return Err(error_500_generic()),
    };
    let identity = match exact32(&identity_key) {
        Some(bytes) => bytes,
        None => return Err(auth_failure("invalid stored identity key")),
    };
    let identity = match VerifyingKey::from_bytes(&identity) {
        Some(key) => key,
        None => return Err(auth_failure("invalid stored identity key")),
    };
    let bytes = match decode(signature) {
        Some(bytes) => bytes,
        None => return Err(auth_failure("invalid base64 signature")),
    };
    let bytes = match exact64(&bytes) {
        Some(bytes) => Signature::from_bytes(bytes),
        None => return Err(auth_failure("signature must be 64 bytes")),
    };
    let signed = login_bytes(&challenge.nonce, challenge.timestamp, server_id);
    if identity.verify(&signed, &bytes).is_err() {
        return Err(auth_failure("signature verification failed"));
    }
    Ok(())
}

impl Session {
    /// The user has registered on this connection.
    pub fn registered(&mut self, user_id: String, conn_id: u64)
        ensures
            final(self).authed_user == Some(user_id),
            final(self).conn_id == Some(conn_id),
            final(self).pending_challenge == old(self).pending_challenge,
            final(self).deliver_prekey_status == old(self).deliver_prekey_status,
    {
        self.authed_user = Some(user_id);
        self.conn_id = Some(conn_id);
    }

    /// The user has logged in on this connection, and is to be told if
    /// one-time pre-keys run low.
    pub fn logged_in(&mut self, user_id: String, conn_id: u64)
        ensures
            final(self).authed_user == Some(user_id),
            final(self).conn_id == Some(conn_id),
            final(self).pending_challenge == old(self).pending_challenge,
            final(self).deliver_prekey_status,
    {
        self.authed_user = Some(user_id);
        self.conn_id = Some(conn_id);
        self.deliver_prekey_status = true;
    }
}

/// The client's side: the signature that answers a challenge, or nothing if
/// the nonce cannot be read.
pub fn answer_challenge(
    identity: &IdentityKeyPair,
    nonce: &str,
    timestamp: u64,
    server_id: &str,
) -> (out: Option<String>)
    ensures
        match base64_bytes(nonce@) {
            None => out is None,
            Some(bytes) => out matches Some(signature) && encodes(
                signature@,
                ed25519_sign(identity@, spec_login_bytes(bytes, timestamp, server_id@)),
            ) && ed25519_verifies(
                ed25519_public(identity@),
                spec_login_bytes(bytes, timestamp, server_id@),
                ed25519_sign(identity@, spec_login_bytes(bytes, timestamp, server_id@)),
            ),
        },
{
    match decode(nonce) {
        Some(bytes) => {
            let signed = login_bytes(&bytes, timestamp, server_id);
            Some(encode(&identity.signing_key().sign(&signed).to_bytes()))
        },
        None => None,
    }
}

/// A login succeeds: the answer that the owner of an identity gives to a
/// challenge is accepted if the relay holds the identity's public key.
pub proof fn law_login(
    seed: Seq<u8>,
    challenge: PendingChallenge,
    nonce: Seq<char>,
    server_id: Seq<char>,
    found: Result<Option<Vec<u8>>, StorageError>,
    signature: Seq<char>,
)
    requires
        encodes(nonce, challenge.nonce@),
        stored_key(found) == Some(ed25519_public(seed)),
        ed25519_public(seed).len() == 32,
        ed25519_decodes(ed25519_public(seed)),
        ({
            let signed = spec_login_bytes(
                base64_bytes(nonce)->0,
                challenge.timestamp,
                server_id,
            );
            &&& encodes(signature, ed25519_sign(seed, signed))
            &&& ed25519_sign(seed, signed).len() == 64
            &&& ed25519_verifies(ed25519_public(seed), signed, ed25519_sign(seed, signed))
        }),
    ensures
        login_fault(challenge, found, signature, server_id) is None,
{
}

/// What is signed for one challenge is signed for no other: the signed bytes
/// determine the nonce, the time and the name of the server.
pub proof fn law_login_bytes_injective(
    nonce: Seq<u8>,
    timestamp: u64,
    server_id: Seq<char>,
    other_nonce: Seq<u8>,
    other_timestamp: u64,
    other_server_id: Seq<char>,
)
    requires
        nonce.len() == 32,
        other_nonce.len() == 32,
        spec_login_bytes(nonce, timestamp, server_id) == spec_login_bytes(
            other_nonce,
            other_timestamp,
            other_server_id,
        ),
    ensures
        nonce == other_nonce,
        timestamp == other_timestamp,
        server_id == other_server_id,
{
    let all = spec_login_bytes(nonce, timestamp, server_id);
    assert(all.subrange(0, 32) =~= nonce);
    assert(all.subrange(0, 32) =~= other_nonce);
    assert(all.subrange(32, 40) =~= be64(timestamp));
    assert(all.subrange(32, 40) =~= be64(other_timestamp));
    crate::bytes::lemma_be64_injective(timestamp, other_timestamp);
    assert(all.skip(40) =~= encode_utf8(server_id));
    assert(all.skip(40) =~= encode_utf8(other_server_id));
    vstd::utf8::encode_utf8_decode_utf8(server_id);
    vstd::utf8::encode_utf8_decode_utf8(other_server_id);
}

} // verus!
