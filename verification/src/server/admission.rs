//! How a user gets in: registering and logging in, step by step. In between,
//! the database is asked.

use super::auth::{
    check_registration, check_response, registration_reply, take_challenge, PendingChallenge,
    Registration,
};
use super::connection::ConnectionRegistry;
use super::handlers::{auth_failure, error_400, Session, StorageError};
use crate::protocol::{ClientMessage, OneTimePreKey, PreKeyBundle, ServerMessage, UserId};
use vstd::prelude::*;
use vstd::string::*;

verus! {

use super::auth::{
    login_fault, registers, registration_fault, same_but_challenge, CHALLENGE_LIFETIME_SECS,
};
use super::handlers::{is_auth_failure, is_error, is_internal_error};

/// What is to be done about a request to get in.
pub enum Entry {
    /// It is answered.
    Answer(ServerMessage),
    /// Whether the user is registered is to be found out, for
    /// [`begin_challenge`](super::auth::begin_challenge).
    FindUser(UserId),
    /// The registration is to be written down, if the name is free, for
    /// [`finish_register`].
    Register(Registration),
    /// The identity key of the challenged user is to be found, for
    /// [`finish_login`].
    LogIn { challenge: PendingChallenge, signature: String },
}

/// What comes of an attempt to get in.
pub struct Admission {
    pub reply: ServerMessage,
    /// The connection through which the user is online now, and the one that
    /// it replaces.
    pub connection: Option<(u64, Option<u64>)>,
}

/// What becomes of a request to register before the database is asked.
pub open spec fn begins_registration(
    session: Session,
    user_id: UserId,
    bundle: PreKeyBundle,
    one_time_prekeys: Seq<OneTimePreKey>,
    out: Entry,
) -> bool {
    match registration_fault(session, bundle, one_time_prekeys) {
        Some(fault) => out matches Entry::Answer(reply) && fault.answers(reply),
        None => out matches Entry::Register(registration) && registers(
            registration,
            user_id,
            bundle,
            one_time_prekeys,
        ),
    }
}

/// Begins a registration.
pub fn handle_register(
    session: &Session,
    user_id: UserId,
    bundle: &PreKeyBundle,
    one_time_prekeys: &Vec<OneTimePreKey>,
) -> (out: Entry)
    ensures
        begins_registration(*session, user_id, *bundle, one_time_prekeys@, out),
{
    match check_registration(session, user_id, bundle, one_time_prekeys) {
        Ok(registration) => Entry::Register(registration),
        Err(reply) => Entry::Answer(reply),
    }
}

/// What becomes of a request for a challenge before the database is asked.
pub open spec fn begins_challenge(session: Session, user_id: UserId, out: Entry) -> bool {
    if session.authed_user is Some {
        out matches Entry::Answer(reply) && is_auth_failure(reply, "already authenticated"@)
    } else {
        out == Entry::FindUser(user_id)
    }
}

/// Begins a login.
pub fn handle_auth_challenge(session: &Session, user_id: UserId) -> (out: Entry)
    ensures
        begins_challenge(*session, user_id, out),
{
    if session.authed_user.is_some() {
        Entry::Answer(auth_failure("already authenticated"))
    } else {
        Entry::FindUser(user_id)
    }
}

/// What becomes of the answer to a challenge before the database is asked. The
/// challenge is used up.
pub open spec fn begins_login(
    before: Session,
    after: Session,
    answer: String,
    now: u64,
    out: Entry,
) -> bool {
    if before.authed_user is Some {
        after == before && (out matches Entry::Answer(reply) && is_auth_failure(
            reply,
            "already authenticated"@,
        ))
    } else {
        &&& same_but_challenge(after, before)
        &&& after.pending_challenge is None
        &&& match before.pending_challenge {
            None => out matches Entry::Answer(reply) && is_auth_failure(
                reply,
                "no pending challenge"@,
            ),
            Some(challenge) => if now > challenge.timestamp + CHALLENGE_LIFETIME_SECS {
                out matches Entry::Answer(reply) && is_auth_failure(reply, "challenge expired"@)
            } else {
                out == (Entry::LogIn { challenge, signature: answer })
            },
        }
    }
}

/// Goes on with a login.
pub fn handle_auth_response(session: &mut Session, signature: String, now: u64) -> (out: Entry)
    ensures
        begins_login(*old(session), *final(session), signature, now, out),
{
    match take_challenge(session, now) {
        Ok(challenge) => Entry::LogIn { challenge, signature },
        Err(reply) => Entry::Answer(reply),
    }
}

/// Begins to serve a request to get in.
pub fn authenticate(session: &mut Session, request: ClientMessage, now: u64) -> (out: Entry)
    ensures
        match request {
            ClientMessage::Register { user_id, bundle, one_time_prekeys } => *final(session)
                == *old(session) && begins_registration(
                *old(session),
                user_id,
                bundle,
                one_time_prekeys@,
                out,
            ),
            ClientMessage::AuthChallenge { user_id } => *final(session) == *old(session)
                && begins_challenge(*old(session), user_id, out),
            ClientMessage::AuthResponse { signature } => begins_login(
                *old(session),
                *final(session),
                signature,
                now,
                out,
            ),
            _ => *final(session) == *old(session) && (out matches Entry::Answer(reply) && is_error(
                reply,
                400,
                "unhandled message type"@,
            )),
        },
{
    match request {
        ClientMessage::Register { user_id, bundle, one_time_prekeys } => handle_register(
            session,
            user_id,
            &bundle,
            &one_time_prekeys,
        ),
        ClientMessage::AuthChallenge { user_id } => handle_auth_challenge(session, user_id),
        ClientMessage::AuthResponse { signature } => handle_auth_response(session, signature, now),
        _ => Entry::Answer(error_400("unhandled message type")),
    }
}

/// The session and the connections are as before, and nobody came in.
pub open spec fn keeps_out(
    before: Session,
    after: Session,
    online_before: ConnectionRegistry,
    online: ConnectionRegistry,
    admission: Admission,
) -> bool {
    &&& after == before
    &&& online@ == online_before@
    &&& online.spec_next() == online_before.spec_next()
    &&& admission.connection is None
}

/// A user is online through the connection of the session, and a connection
/// that the user had before is displaced.
pub open spec fn lets_in(
    before: Session,
    after: Session,
    online_before: ConnectionRegistry,
    online: ConnectionRegistry,
    admission: Admission,
    user: Seq<char>,
) -> bool {
    &&& admission.reply is AuthSuccess
    &&& admission.connection matches Some((conn_id, displaced)) && {
        &&& conn_id == online_before.spec_next()
        &&& after.authed_user matches Some(name) && name@ == user
        &&& after.conn_id == Some(conn_id)
        &&& after.pending_challenge == before.pending_challenge
        &&& online@ == online_before@.insert(user, conn_id)
        &&& online.spec_next() == (if conn_id == u64::MAX {
            0
        } else {
            conn_id + 1
        })
        &&& displaced == (if online_before@.contains_key(user) {
            Some(online_before@[user])
        } else {
            None
        })
    }
}

/// Ends a registration. `stored` says whether the name was free.
pub fn finish_register(
    session: &mut Session,
    registry: &mut ConnectionRegistry,
    user_id: UserId,
    stored: Result<bool, StorageError>,
) -> (out: Admission)
    ensures
        match stored {
            Ok(true) => lets_in(
                *old(session),
                *final(session),
                *old(registry),
                *final(registry),
                out,
                user_id@,
            ) && final(session).deliver_prekey_status == old(session).deliver_prekey_status,
            Ok(false) => keeps_out(
                *old(session),
                *final(session),
                *old(registry),
                *final(registry),
                out,
            ) && is_auth_failure(
                out.reply,
                "user already exists \u{2014} use AuthChallenge to login"@,
            ),
            Err(_) => keeps_out(
                *old(session),
                *final(session),
                *old(registry),
                *final(registry),
                out,
            ) && is_internal_error(out.reply),
        },
{
    let connection = match stored {
        Ok(true) => {
            let name = user_id.into_inner();
            let (conn_id, displaced) = registry.insert(name.clone());
            session.registered(name, conn_id);
            Some((conn_id, displaced))
        },
        _ => None,
    };
    Admission { reply: registration_reply(stored), connection }
}

/// Ends a login. `found` is the identity key of the challenged user.
pub fn finish_login(
    session: &mut Session,
    registry: &mut ConnectionRegistry,
    challenge: PendingChallenge,
    signature: &str,
    found: Result<Option<Vec<u8>>, StorageError>,
    server_id: &str,
) -> (out: Admission)
    ensures
        match login_fault(challenge, found, signature@, server_id@) {
            Some(fault) => keeps_out(
                *old(session),
                *final(session),
                *old(registry),
                *final(registry),
                out,
            ) && fault.answers(out.reply),
            None => lets_in(
                *old(session),
                *final(session),
                *old(registry),
                *final(registry),
                out,
                challenge.user_id@,
            ) && final(session).deliver_prekey_status,
        },
{
    match check_response(&challenge, found, signature, server_id) {
        Ok(()) => {
            let (conn_id, displaced) = registry.insert(challenge.user_id.clone());
            session.logged_in(challenge.user_id, conn_id);
            Admission {
                reply: ServerMessage::AuthSuccess,
                connection: Some((conn_id, displaced)),
            }
        },
        Err(reply) => Admission { reply, connection: None },
    }
}

/// Nobody but the holder of the identity key gets in as a user: who is let in
/// has signed the nonce of this challenge, its time and the name of this
/// server with that key, within a minute, and no answer can be used again.
pub proof fn law_login_needs_a_fresh_signature(
    before: Session,
    waiting: Session,
    signature: String,
    now: u64,
    entry: Entry,
    found: Result<Option<Vec<u8>>, StorageError>,
    server_id: Seq<char>,
)
    requires
        begins_login(before, waiting, signature, now, entry),
        entry is LogIn,
        login_fault(entry->challenge, found, entry->signature@, server_id) is None,
    ensures
        before.pending_challenge == Some(entry->challenge),
        now <= entry->challenge.timestamp + CHALLENGE_LIFETIME_SECS,
        waiting.pending_challenge is None,
        found matches Ok(Some(key)) && crate::encoding::base64_bytes(signature@) matches Some(bytes)
            && crate::crypto::primitives::ed25519_verifies(
            key@,
            super::auth::spec_login_bytes(
                entry->challenge.nonce@,
                entry->challenge.timestamp,
                server_id,
            ),
            bytes,
        ),
{
}

} // verus!
