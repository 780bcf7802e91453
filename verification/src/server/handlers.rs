//! What the relay knows of a connection, and the answers that every request
//! can get.

use super::auth::PendingChallenge;
use super::connection::ConnectionRegistry;
use crate::encoding::decode;
use crate::protocol::{ClientMessage, OneTimePreKey, ServerMessage};
use vstd::prelude::*;
use vstd::string::*;

verus! {

use crate::encoding::base64_bytes;

/// The database did not answer.
#[derive(Debug, Clone, Copy, PartialEq, Eq, Structural)]
pub struct StorageError;

/// What the relay knows of a connection.
pub struct Session {
    /// The user who has proved to be at the other end.
    pub authed_user: Option<String>,
    /// The identifier of the connection, once the user is known.
    pub conn_id: Option<u64>,
    /// A login challenge that has not been answered.
    pub pending_challenge: Option<PendingChallenge>,
    /// Whether the user is to be told if one-time pre-keys run low.
    pub deliver_prekey_status: bool,
}

impl Default for Session {
    fn default() -> (out: Self)
        ensures
            out == Session::spec_new(),
    {
        Session::new()
    }
}

impl Session {
    /// A connection of which nothing is known.
    pub open spec fn spec_new() -> Session {
        Session {
            authed_user: None,
            conn_id: None,
            pending_challenge: None,
            deliver_prekey_status: false,
        }
    }

    /// A connection of which nothing is known.
    pub fn new() -> (out: Self)
        ensures
            out == Session::spec_new(),
    {
        Session {
            authed_user: None,
            conn_id: None,
            pending_challenge: None,
            deliver_prekey_status: false,
        }
    }
}

/// An error with a code and a text.
pub open spec fn is_error(reply: ServerMessage, number: u32, text: Seq<char>) -> bool {
    reply matches ServerMessage::Error { code, message } && code == number && message@ == text
}

/// A refusal to authenticate.
pub open spec fn is_auth_failure(reply: ServerMessage, text: Seq<char>) -> bool {
    reply matches ServerMessage::AuthFailure { reason } && reason@ == text
}

/// The error that tells nothing of what went wrong inside.
pub open spec fn is_internal_error(reply: ServerMessage) -> bool {
    is_error(reply, 500, "internal server error"@)
}

pub fn auth_failure(reason: &str) -> (out: ServerMessage)
    ensures
        is_auth_failure(out, reason@),
{
    ServerMessage::AuthFailure { reason: reason.to_owned() }
}

pub fn error_400(message: &str) -> (out: ServerMessage)
    ensures
        is_error(out, 400, message@),
{
    ServerMessage::Error { code: 400, message: message.to_owned() }
}

pub fn error_404(message: &str) -> (out: ServerMessage)
    ensures
        is_error(out, 404, message@),
{
    ServerMessage::Error { code: 404, message: message.to_owned() }
}

pub fn error_429(message: &str) -> (out: ServerMessage)
    ensures
        is_error(out, 429, message@),
{
    ServerMessage::Error { code: 429, message: message.to_owned() }
}

/// The error that tells nothing of what went wrong inside: callers log that.
pub fn error_500_generic() -> (out: ServerMessage)
    ensures
        is_internal_error(out),
{
    ServerMessage::Error { code: 500, message: "internal server error".to_owned() }
}

/// What a message that is no valid request is answered.
pub fn malformed_message() -> (out: ServerMessage)
    ensures
        is_error(out, 400, "malformed message"@),
{
    error_400("malformed message")
}

/// The text of the answer to pre-keys that cannot be read.
pub open spec fn bad_prekeys_text() -> Seq<char> {
    "one or more prekeys have invalid base64 or wrong length (must be 32 bytes)"@
}

/// A pre-key is the base64 form of 32 bytes.
pub open spec fn valid_prekey(prekey: OneTimePreKey) -> bool {
    base64_bytes(prekey.public_key@) matches Some(bytes) && bytes.len() == 32
}

/// Every pre-key of a list is valid.
pub open spec fn valid_prekeys(prekeys: Seq<OneTimePreKey>) -> bool {
    forall|i: int| 0 <= i < prekeys.len() ==> valid_prekey(#[trigger] prekeys[i])
}

/// `pairs` holds the identifiers and the bytes of a list of pre-keys.
pub open spec fn decoded_prekeys(pairs: Seq<(u32, Vec<u8>)>, prekeys: Seq<OneTimePreKey>) -> bool {
    &&& pairs.len() == prekeys.len()
    &&& forall|i: int|
        0 <= i < pairs.len() ==> {
            &&& (#[trigger] pairs[i]).0 == prekeys[i].key_id
            &&& Some(pairs[i].1@) == base64_bytes(prekeys[i].public_key@)
        }
}

/// Decodes a list of one-time pre-keys, all or none.
pub fn decode_prekeys(prekeys: &Vec<OneTimePreKey>) -> (out: Result<
    Vec<(u32, Vec<u8>)>,
    ServerMessage,
>)
    ensures
        match out {
            Ok(pairs) => valid_prekeys(prekeys@) && decoded_prekeys(pairs@, prekeys@),
            Err(reply) => !valid_prekeys(prekeys@) && is_error(reply, 400, bad_prekeys_text()),
        },
{
    let mut pairs: Vec<(u32, Vec<u8>)> = Vec::new();
    let mut i: usize = 0;
    while i < prekeys.len()
        invariant
            i <= prekeys@.len(),
            pairs@.len() == i,
            forall|j: int| 0 <= j < i ==> valid_prekey(#[trigger] prekeys@[j]),
            forall|j: int|
                0 <= j < i ==> {
                    &&& (#[trigger] pairs@[j]).0 == prekeys@[j].key_id
                    &&& Some(pairs@[j].1@) == base64_bytes(prekeys@[j].public_key@)
                },
        decreases prekeys@.len() - i,
    {
        let bytes = match decode(prekeys[i].public_key.as_str()) {
            Some(bytes) => bytes,
            None => {
                assert(!valid_prekey(prekeys@[i as int]));
                return Err(
                    error_400(
                        "one or more prekeys have invalid base64 or wrong length (must be 32 bytes)",
                    ),
                );
            },
        };
        if bytes.len() != 32 {
            assert(!valid_prekey(prekeys@[i as int]));
            return Err(
                error_400(
                    "one or more prekeys have invalid base64 or wrong length (must be 32 bytes)",
                ),
            );
        }
        pairs.push((prekeys[i].key_id, bytes));
        i += 1;
    }
    Ok(pairs)
}

/// A request that may be made before the user is known.
pub open spec fn is_auth_request(request: ClientMessage) -> bool {
    request is Register || request is AuthChallenge || request is AuthResponse
}

/// Refuses a request that only a known user may make.
pub fn refuse_unknown(session: &Session, request: &ClientMessage) -> (out: Option<ServerMessage>)
    ensures
        match out {
            None => is_auth_request(*request) || session.authed_user is Some,
            Some(reply) => {
                &&& !is_auth_request(*request)
                &&& session.authed_user is None
                &&& is_auth_failure(reply, "not authenticated"@)
            },
        },
{
    match request {
        ClientMessage::Register { .. } => None,
        ClientMessage::AuthChallenge { .. } => None,
        ClientMessage::AuthResponse { .. } => None,
        _ => if session.authed_user.is_none() {
            Some(auth_failure("not authenticated"))
        } else {
            None
        },
    }
}

/// Where a request goes.
pub enum Route {
    /// Nowhere: a newer connection of the user has replaced this one.
    Stop,
    /// Nowhere: it is answered at once.
    Answer(ServerMessage),
    /// To the login.
    Auth(ClientMessage),
    /// To what serves a known user.
    User { user_id: String, request: ClientMessage },
}

/// Where a request goes, in a session whose connection is the current one of
/// its user or not.
pub open spec fn goes_to(
    session: Session,
    current: bool,
    request: ClientMessage,
    route: Route,
) -> bool {
    match session.authed_user {
        Some(user) => if !current {
            route is Stop
        } else if is_auth_request(request) {
            route == Route::Auth(request)
        } else {
            route matches Route::User { user_id, request: served } && user_id@ == user@ && served
                == request
        },
        None => if is_auth_request(request) {
            route == Route::Auth(request)
        } else {
            route matches Route::Answer(reply) && is_auth_failure(reply, "not authenticated"@)
        },
    }
}

/// Where a request goes.
pub fn handle_message(session: &Session, registry: &ConnectionRegistry, request: ClientMessage) -> (
    route: Route)
    ensures
        goes_to(*session, session.is_current(registry), request, route),
{
    match refuse_unknown(session, &request) {
        Some(reply) => {
            return Route::Answer(reply);
        },
        None => {},
    }
    if session.authed_user.is_some() && !session.is_served(registry) {
        return Route::Stop;
    }
    let auth = match &request {
        ClientMessage::Register { .. } => true,
        ClientMessage::AuthChallenge { .. } => true,
        ClientMessage::AuthResponse { .. } => true,
        _ => false,
    };
    if auth {
        return Route::Auth(request);
    }
    match &session.authed_user {
        Some(user) => Route::User { user_id: user.clone(), request },
        None => Route::Answer(auth_failure("not authenticated")),
    }
}

impl Session {
    /// The connection of the session is the current one of its user.
    pub open spec fn is_current(&self, registry: &ConnectionRegistry) -> bool {
        match (self.authed_user, self.conn_id) {
            (Some(user), Some(conn)) => registry@.contains_key(user@) && registry@[user@] == conn,
            _ => false,
        }
    }

    /// Whether the connection of the session is the current one of its user.
    pub fn is_served(&self, registry: &ConnectionRegistry) -> (out: bool)
        ensures
            out == self.is_current(registry),
    {
        match (&self.authed_user, self.conn_id) {
            (Some(user), Some(conn)) => match registry.connection_of(user.as_str()) {
                Some(current) => current == conn,
                None => false,
            },
            _ => false,
        }
    }
}

/// A session whose user has connected anew is stopped: none of its requests is
/// served any longer.
pub proof fn law_replaced_session_is_stopped(
    session: Session,
    registry: ConnectionRegistry,
    newer: u64,
    request: ClientMessage,
    route: Route,
)
    requires
        session.authed_user is Some,
        session.conn_id is Some,
        session.conn_id->0 != newer,
        registry@.contains_key(session.authed_user->0@),
        registry@[session.authed_user->0@] == newer,
        goes_to(session, session.is_current(&registry), request, route),
    ensures
        route is Stop,
{
}

} // verus!
