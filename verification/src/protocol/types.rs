//! The types that messages are made of.

use crate::text::{chars_of, is_white_space};
use vstd::prelude::*;
use vstd::string::*;

verus! {

use crate::text::{blank, byte_len, white_space};
use vstd::arithmetic::power::pow;
use vstd::std_specs::convert::{FromSpecImpl, TryFromSpecImpl};

/// The name of a user: 1 to 128 ASCII characters, not only white space, free
/// of control characters and of anything that could be read as a path.
#[derive(Debug, PartialEq, Eq, Hash)]
pub struct UserId {
    id: String,
}

/// Why a text is no user id.
#[derive(Debug, PartialEq, Eq)]
pub struct InvalidUserId(pub &'static str);

impl InvalidUserId {
    /// A description for people.
    pub fn message(&self) -> (out: String)
        ensures
            out@ == "invalid user id: "@ + self.0@,
    {
        let mut out = "invalid user id: ".to_owned();
        out.append(self.0);
        out
    }
}

/// An ASCII control character.
pub open spec fn is_control(c: char) -> bool {
    c as u32 <= 0x1F || c as u32 == 0x7F
}

/// A control character occurs in `id`.
pub open spec fn has_control(id: Seq<char>) -> bool {
    exists|i: int| 0 <= i < id.len() && is_control(#[trigger] id[i])
}

/// A path separator occurs at position `i` of `id`, or two dots do.
pub open spec fn path_part_at(id: Seq<char>, i: int) -> bool {
    ||| id[i] == '/'
    ||| id[i] == '\\'
    ||| id[i] == '.' && i + 1 < id.len() && id[i + 1] == '.'
}

/// `id` could be read as a path: a separator or two dots in a row occur in it.
pub open spec fn has_path_part(id: Seq<char>) -> bool {
    exists|i: int| 0 <= i < id.len() && #[trigger] path_part_at(id, i)
}

/// Why `id` is no user id, or nothing if it is one.
pub open spec fn user_id_fault(id: Seq<char>) -> Option<Seq<char>> {
    if blank(id) {
        Some("user id cannot be empty or whitespace-only"@)
    } else if byte_len(id) > 128 {
        Some("user id exceeds 128 bytes"@)
    } else if !vstd::utf8::is_ascii_chars(id) {
        Some("user id must be ASCII"@)
    } else if has_control(id) {
        Some("user id contains control characters"@)
    } else if has_path_part(id) {
        Some("user id contains a path separator or '..'"@)
    } else {
        None
    }
}

/// What every user id satisfies.
pub open spec fn valid_user_id(id: Seq<char>) -> bool {
    user_id_fault(id) is None
}

impl View for UserId {
    type V = Seq<char>;

    closed spec fn view(&self) -> Seq<char> {
        self.id@
    }
}

impl Clone for UserId {
    fn clone(&self) -> (out: Self)
        ensures
            out == *self,
    {
        proof {
            use_type_invariant(self);
        }
        UserId { id: self.id.clone() }
    }
}

impl UserId {
    #[verifier::type_invariant]
    spec fn inv(self) -> bool {
        valid_user_id(self.id@)
    }

    /// The user with this name, if the name is valid.
    pub fn new(id: &str) -> (out: Result<Self, InvalidUserId>)
        ensures
            out is Ok <==> valid_user_id(id@),
            out matches Ok(user) ==> user@ == id@,
            out matches Err(fault) ==> user_id_fault(id@) == Some(fault.0@),
    {
        let chars = chars_of(id);
        let mut all_white = true;
        let mut control = false;
        let mut path = false;
        let mut i: usize = 0;
        while i < chars.len()
            invariant
                i <= chars@.len(),
                chars@ == id@,
                all_white == (forall|j: int| 0 <= j < i ==> white_space(#[trigger] chars@[j])),
                control == (exists|j: int| 0 <= j < i && is_control(#[trigger] chars@[j])),
                path == (exists|j: int| 0 <= j < i && #[trigger] path_part_at(chars@, j)),
            decreases chars@.len() - i,
        {
            let c = chars[i];
            let ghost before = i as int;
            if !is_white_space(c) {
                all_white = false;
            }
            if c as u32 <= 0x1F || c as u32 == 0x7F {
                control = true;
            }
            if c == '/' || c == '\\' || (c == '.' && i + 1 < chars.len() && chars[i + 1] == '.') {
                path = true;
                assert(path_part_at(chars@, before));
            }
            i += 1;
        }
        if all_white {
            return Err(InvalidUserId("user id cannot be empty or whitespace-only"));
        }
        if id.as_bytes().len() > 128 {
            return Err(InvalidUserId("user id exceeds 128 bytes"));
        }
        if !id.is_ascii() {
            return Err(InvalidUserId("user id must be ASCII"));
        }
        if control {
            return Err(InvalidUserId("user id contains control characters"));
        }
        if path {
            return Err(InvalidUserId("user id contains a path separator or '..'"));
        }
        Ok(UserId { id: id.to_owned() })
    }

    /// The name.
    pub fn as_str(&self) -> (out: &str)
        ensures
            out@ == self@,
            valid_user_id(out@),
    {
        proof {
            use_type_invariant(self);
        }
        self.id.as_str()
    }

    /// The name, taken out.
    pub fn into_inner(self) -> (out: String)
        ensures
            out@ == self@,
            valid_user_id(out@),
    {
        proof {
            use_type_invariant(&self);
        }
        self.id
    }

    /// Whether two users are the same.
    pub fn same(&self, other: &UserId) -> (out: bool)
        ensures
            out == (self@ == other@),
    {
        self.id == other.id
    }
}

impl FromSpecImpl<UserId> for String {
    open spec fn obeys_from_spec() -> bool {
        true
    }

    closed spec fn from_spec(id: UserId) -> String {
        id.id
    }
}

impl From<UserId> for String {
    /// The name, as [`UserId::into_inner`] takes it out.
    fn from(id: UserId) -> (out: String)
        ensures
            out@ == id@,
            valid_user_id(out@),
    {
        proof {
            use_type_invariant(&id);
        }
        id.id
    }
}

impl TryFromSpecImpl<String> for UserId {
    open spec fn obeys_try_from_spec() -> bool {
        false
    }

    open spec fn try_from_spec(id: String) -> Result<UserId, InvalidUserId> {
        arbitrary()
    }
}

impl TryFrom<String> for UserId {
    type Error = InvalidUserId;

    /// The user with this name, as [`UserId::new`] gives it.
    fn try_from(id: String) -> (out: Result<UserId, InvalidUserId>)
        ensures
            out is Ok <==> valid_user_id(id@),
            out matches Ok(user) ==> user@ == id@,
            out matches Err(fault) ==> user_id_fault(id@) == Some(fault.0@),
    {
        UserId::new(id.as_str())
    }
}

impl TryFromSpecImpl<&str> for UserId {
    open spec fn obeys_try_from_spec() -> bool {
        false
    }

    open spec fn try_from_spec(id: &str) -> Result<UserId, InvalidUserId> {
        arbitrary()
    }
}

impl TryFrom<&str> for UserId {
    type Error = InvalidUserId;

    /// The user with this name, as [`UserId::new`] gives it.
    fn try_from(id: &str) -> (out: Result<UserId, InvalidUserId>)
        ensures
            out is Ok <==> valid_user_id(id@),
            out matches Ok(user) ==> user@ == id@,
            out matches Err(fault) ==> user_id_fault(id@) == Some(fault.0@),
    {
        UserId::new(id)
    }
}

/// A hexadecimal digit, in lower case.
pub open spec fn hex_digit(n: int) -> char {
    if n < 10 {
        (48 + n) as char
    } else {
        (87 + n) as char
    }
}

/// How many of the hyphens of an identifier's text stand before a position.
pub open spec fn hyphens_before(position: int) -> int {
    (if position > 8 { 1int } else { 0 }) + (if position > 13 { 1int } else { 0 }) + (if position
        > 18 { 1int } else { 0 }) + (if position > 23 { 1int } else { 0 })
}

/// The text form of a 128-bit identifier: its 32 hexadecimal digits in lower
/// case, the highest first, in groups of 8, 4, 4, 4 and 12 with hyphens between
/// them.
pub open spec fn uuid_text(value: u128) -> Seq<char> {
    Seq::new(
        36,
        |i: int|
            if i == 8 || i == 13 || i == 18 || i == 23 {
                '-'
            } else {
                hex_digit(
                    (value as int / pow(16, (31 - (i - hyphens_before(i))) as nat)) % 16,
                )
            },
    )
}

/// The identifier that a text stands for, if it stands for one.
pub uninterp spec fn uuid_value(text: Seq<char>) -> Option<u128>;

/// An identifier of the kind that is drawn at random: its version, the 13th
/// hexadecimal digit, is 4, and its variant, the two bits that begin the 17th,
/// is 2.
pub open spec fn is_random_uuid(value: u128) -> bool {
    &&& value as int / 0x1000_0000_0000_0000_0000 % 16 == 4
    &&& value as int / 0x4000_0000_0000_0000 % 4 == 2
}

/// `uuid::Uuid::new_v4`, as a number. Of its 128 bits six are fixed, the
/// version and the variant; the others are random, so that nothing is said of
/// them.
#[verifier::external_body]
fn random_uuid() -> (out: u128)
    ensures
        is_random_uuid(out),
{
    uuid::Uuid::new_v4().as_u128()
}

/// `uuid::Uuid::parse_str`.
#[verifier::external_body]
fn parse_uuid(text: &str) -> (out: Option<u128>)
    ensures
        out == uuid_value(text@),
{
    uuid::Uuid::parse_str(text).ok().map(|uuid| uuid.as_u128())
}

/// `uuid::Uuid` displayed: the hyphenated form, digit by digit, which
/// `parse_str` reads back.
#[verifier::external_body]
fn format_uuid(value: u128) -> (out: String)
    ensures
        out@ == uuid_text(value),
        uuid_value(out@) == Some(value),
{
    uuid::Uuid::from_u128(value).to_string()
}

/// The identifier of a message, a receipt or a request.
#[derive(Debug, Clone, Copy, PartialEq, Eq, Hash, Structural)]
pub struct MessageId {
    value: u128,
}

impl View for MessageId {
    type V = u128;

    closed spec fn view(&self) -> u128 {
        self.value
    }
}

impl MessageId {
    /// A new random identifier.
    #[must_use]
    pub fn new() -> (out: Self)
        ensures
            is_random_uuid(out@),
    {
        MessageId { value: random_uuid() }
    }

    /// The identifier with the given value.
    pub fn from_uuid(value: u128) -> (out: Self)
        ensures
            out@ == value,
    {
        MessageId { value }
    }

    /// The identifier as a number.
    pub fn as_uuid(&self) -> (out: u128)
        ensures
            out == self@,
    {
        self.value
    }

    /// The identifier that `text` stands for.
    pub fn parse(text: &str) -> (out: Option<Self>)
        ensures
            out is Some <==> uuid_value(text@) is Some,
            out matches Some(id) ==> uuid_value(text@) == Some(id@),
    {
        match parse_uuid(text) {
            Some(value) => Some(MessageId { value }),
            None => None,
        }
    }

    /// The identifier as text, from which [`MessageId::parse`] gets it back.
    pub fn to_text(&self) -> (out: String)
        ensures
            out@ == uuid_text(self@),
            uuid_value(out@) == Some(self@),
    {
        format_uuid(self.value)
    }

    /// Whether two identifiers are the same.
    pub fn same(&self, other: &MessageId) -> (out: bool)
        ensures
            out == (self@ == other@),
            out == (*self == *other),
    {
        self.value == other.value
    }
}

/// Opaque encrypted container that the server routes without reading.
#[derive(Debug, PartialEq, Eq)]
pub struct EncryptedEnvelope {
    /// Protocol version.
    pub version: u32,
    /// What the receiver needs to find the key. Authenticated with the
    /// ciphertext.
    pub header: MessageHeader,
    /// Ciphertext, base64-encoded for JSON transport.
    pub ciphertext: String,
}

impl Clone for EncryptedEnvelope {
    fn clone(&self) -> (out: Self)
        ensures
            out == *self,
    {
        EncryptedEnvelope {
            version: self.version,
            header: self.header.clone(),
            ciphertext: self.ciphertext.clone(),
        }
    }
}

/// Header visible outside the ciphertext.
#[derive(Debug, PartialEq, Eq)]
#[non_exhaustive]
pub enum MessageHeader {
    /// X3DH handshake material and the first ratchet message.
    PreKey {
        /// Sender's Ed25519 identity key (base64).
        sender_identity_key: String,
        /// Sender's X25519 ephemeral key (base64).
        sender_ephemeral_key: String,
        /// Which of the recipient's signed pre-keys was used.
        recipient_signed_prekey_id: u32,
        /// Which one-time pre-key was consumed, if there was one.
        recipient_one_time_prekey_id: Option<u32>,
        /// Ratchet header of the first message.
        ratchet: RatchetHeader,
    },
    /// A message within an established session.
    Ratchet(RatchetHeader),
}

impl Clone for MessageHeader {
    fn clone(&self) -> (out: Self)
        ensures
            out == *self,
    {
        match self {
            MessageHeader::PreKey {
                sender_identity_key,
                sender_ephemeral_key,
                recipient_signed_prekey_id,
                recipient_one_time_prekey_id,
                ratchet,
            } => MessageHeader::PreKey {
                sender_identity_key: sender_identity_key.clone(),
                sender_ephemeral_key: sender_ephemeral_key.clone(),
                recipient_signed_prekey_id: *recipient_signed_prekey_id,
                recipient_one_time_prekey_id: *recipient_one_time_prekey_id,
                ratchet: ratchet.clone(),
            },
            MessageHeader::Ratchet(ratchet) => MessageHeader::Ratchet(ratchet.clone()),
        }
    }
}

/// Ratchet header on the wire.
#[derive(Debug, PartialEq, Eq)]
pub struct RatchetHeader {
    /// Sender's current ratchet public key (X25519, base64).
    pub ratchet_key: String,
    /// Number of messages sent in the previous sending chain.
    pub previous_chain_length: u32,
    /// Message index within the current sending chain.
    pub message_number: u32,
}

impl Clone for RatchetHeader {
    fn clone(&self) -> (out: Self)
        ensures
            out == *self,
    {
        RatchetHeader {
            ratchet_key: self.ratchet_key.clone(),
            previous_chain_length: self.previous_chain_length,
            message_number: self.message_number,
        }
    }
}

/// The public half of a one-time pre-key, base64-encoded.
#[derive(Debug, PartialEq, Eq)]
pub struct OneTimePreKey {
    pub key_id: u32,
    pub public_key: String,
}

impl Clone for OneTimePreKey {
    fn clone(&self) -> (out: Self)
        ensures
            out == *self,
    {
        OneTimePreKey { key_id: self.key_id, public_key: self.public_key.clone() }
    }
}

/// Public key material for establishing a session with a user.
#[derive(Debug, PartialEq, Eq)]
pub struct PreKeyBundle {
    /// Ed25519 public identity key (base64).
    pub identity_key: String,
    /// X25519 signed pre-key (base64).
    pub signed_prekey: String,
    pub signed_prekey_id: u32,
    /// Ed25519 signature over the signed pre-key (base64).
    pub signed_prekey_signature: String,
    /// One-time pre-key, if available.
    pub one_time_prekey: Option<OneTimePreKey>,
}

impl Clone for PreKeyBundle {
    fn clone(&self) -> (out: Self)
        ensures
            out == *self,
    {
        PreKeyBundle {
            identity_key: self.identity_key.clone(),
            signed_prekey: self.signed_prekey.clone(),
            signed_prekey_id: self.signed_prekey_id,
            signed_prekey_signature: self.signed_prekey_signature.clone(),
            one_time_prekey: match &self.one_time_prekey {
                Some(key) => Some(key.clone()),
                None => None,
            },
        }
    }
}

/// Two identifiers with the same value are the same.
pub proof fn lemma_same_identifier(a: MessageId, b: MessageId)
    requires
        a@ == b@,
    ensures
        a == b,
{
}

} // verus!
