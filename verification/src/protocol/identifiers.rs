//! What identifiers and names are, stated of the functions that make and read
//! them.

use super::error::ProtocolError;
use super::types::{InvalidUserId, MessageId, UserId};
use vstd::prelude::*;
use vstd::string::*;

verus! {

use super::types::{is_random_uuid, uuid_text, uuid_value};
use crate::text::decimal;

/// An identifier is its number: it is made of it, gives it back, and two are the
/// same exactly if their numbers are.
pub proof fn law_identifier_is_its_number(
    value: u128,
    made: MessageId,
    read: u128,
    other: &MessageId,
    same: bool,
)
    requires
        call_ensures(MessageId::from_uuid, (value,), made),
        call_ensures(MessageId::as_uuid, (&made,), read),
        call_ensures(MessageId::same, (&made, other), same),
    ensures
        read == value,
        same <==> other@ == value,
        same ==> *other == made,
{
    if same {
        super::types::lemma_same_identifier(*other, made);
    }
}

/// An identifier is read back out of its text, and a text that stands for no
/// number is no identifier.
pub proof fn law_identifier_is_read_back(
    id: &MessageId,
    text: String,
    written: &str,
    read: Option<MessageId>,
)
    requires
        call_ensures(MessageId::to_text, (id,), text),
        call_ensures(MessageId::parse, (written,), read),
    ensures
        written@ == text@ ==> read == Some(*id),
        read is Some <==> uuid_value(written@) is Some,
        read matches Some(found) ==> uuid_value(written@) == Some(found@),
        text@ == uuid_text(id@),
{
    if written@ == text@ {
        super::types::lemma_same_identifier(read->0, *id);
    }
}

/// A new identifier is a random one: of version 4 and the usual variant.
pub proof fn law_new_identifier_is_random(out: MessageId)
    requires
        call_ensures(MessageId::new, (), out),
    ensures
        is_random_uuid(out@),
        out@ as int / 0x1000_0000_0000_0000_0000 % 16 == 4,
        out@ as int / 0x4000_0000_0000_0000 % 4 == 2,
{
}

/// A name is kept and compared as it is.
pub proof fn law_name_is_kept(name: &UserId, text: &str, other: &UserId, same: bool)
    requires
        call_ensures(UserId::as_str, (name,), text),
        call_ensures(UserId::same, (name, other), same),
    ensures
        text@ == name@,
        same <==> name@ == other@,
{
}

/// Why a text is no name: the first of these that holds of it.
pub proof fn law_name_is_refused(name: &str, out: Result<UserId, InvalidUserId>, text: String)
    requires
        call_ensures(UserId::new, (name,), out),
        out matches Err(fault) ==> call_ensures(InvalidUserId::message, (&fault,), text),
    ensures
        ({
            let empty = forall|i: int|
                0 <= i < name@.len() ==> crate::text::white_space(#[trigger] name@[i]);
            let long = vstd::utf8::encode_utf8(name@).len() > 128;
            let foreign = !vstd::utf8::is_ascii_chars(name@);
            let control = exists|i: int|
                0 <= i < name@.len() && ((#[trigger] name@[i]) as u32 <= 0x1F || name@[i] as u32
                    == 0x7F);
            &&& empty ==> text@ == "invalid user id: "@
                + "user id cannot be empty or whitespace-only"@
            &&& !empty && long ==> text@ == "invalid user id: "@ + "user id exceeds 128 bytes"@
            &&& !empty && !long && foreign ==> text@ == "invalid user id: "@
                + "user id must be ASCII"@
            &&& !empty && !long && !foreign && control ==> text@ == "invalid user id: "@
                + "user id contains control characters"@
            &&& !empty && !long && !foreign && !control && out is Err ==> text@
                == "invalid user id: "@ + "user id contains a path separator or '..'"@
            &&& empty || long || foreign || control ==> out is Err
        }),
{
    if super::types::has_control(name@) {
        let i = choose|i: int| 0 <= i < name@.len() && super::types::is_control(#[trigger] name@[i]);
        assert(name@[i] as u32 <= 0x1F || name@[i] as u32 == 0x7F);
    }
    if exists|i: int|
        0 <= i < name@.len() && ((#[trigger] name@[i]) as u32 <= 0x1F || name@[i] as u32 == 0x7F) {
        let i = choose|i: int|
            0 <= i < name@.len() && ((#[trigger] name@[i]) as u32 <= 0x1F || name@[i] as u32
                == 0x7F);
        assert(super::types::is_control(name@[i]));
    }
}

/// What is said of refusals.
pub proof fn law_refusals_are_described(error: &ProtocolError, text: String, name: UserId, inner: String)
    requires
        call_ensures(ProtocolError::message, (error,), text),
        call_ensures(UserId::into_inner, (name,), inner),
    ensures
        error matches ProtocolError::UserNotFound(user) ==> text@ == "user not found: "@ + user@,
        error matches ProtocolError::NoPreKeysAvailable(user) ==> text@
            == "no pre-keys available for user: "@ + user@,
        error matches ProtocolError::AuthFailed(reason) ==> text@ == "authentication failed: "@
            + reason@,
        error matches ProtocolError::InvalidFormat(reason) ==> text@ == "invalid message format: "@
            + reason@,
        error is RateLimited ==> text@ == "rate limited"@,
        error is MessageTooLarge ==> text@ == "message too large"@,
        error matches ProtocolError::UnsupportedVersion { got, max_supported } ==> text@
            == "unsupported protocol version "@ + decimal(*got as nat) + " (max supported: "@
            + decimal(*max_supported as nat) + ")"@,
        inner@ == name@,
{
}

} // verus!
