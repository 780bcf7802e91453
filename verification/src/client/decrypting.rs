//! What the client receives.

use super::crypto_mgr::{Change, CryptoManager, InboundDecrypt, PeerSession};
use super::decode::{b64_decode_fixed32, decode_ratchet_header};
use super::error::CryptoError;
use super::replay::{prune_processed, ProcessedMessage};
use crate::crypto::keys::{PublicKey, RatchetKeyPair, SignedPreKey, VerifyingKey};
use crate::crypto::ratchet::{decrypt_with, initialize_bob, RatchetHeader, SessionState};
use crate::crypto::x3dh::bob_respond;
use crate::encoding::decode;
use crate::protocol::aad;
use crate::protocol::consts::{MAX_PROCESSED_MESSAGES, PROTOCOL_VERSION};
use crate::protocol::{EncryptedEnvelope, MessageHeader, MessageId};
use crate::table::TableChange;
use crate::text::utf8_text;
use vstd::prelude::*;
use vstd::string::*;

verus! {

use super::crypto_mgr::PeerModel;
use super::decode::{fixed_bytes, header_stands_for};
use super::replay::pruned;
use crate::crypto::primitives::{dh_pair, ed25519_decodes};
use crate::crypto::ratchet::{bob_start, SessionModel};
use crate::crypto::x3dh::x3dh_responder;
use crate::encoding::base64_bytes;
use crate::protocol::aad::{spec_prekey, spec_ratchet};
use crate::protocol::types::uuid_text;

/// The handshake in the first message of a session.
#[derive(Clone, Copy)]
pub struct FirstContact {
    pub sender_identity_key: [u8; 32],
    pub sender_ephemeral_key: [u8; 32],
    pub signed_prekey_id: u32,
    pub one_time_prekey_id: Option<u32>,
}

/// An envelope out of its text form.
pub struct ParsedEnvelope {
    pub first: Option<FirstContact>,
    pub header: RatchetHeader,
    /// What is authenticated with the ciphertext, besides the header.
    pub context: Vec<u8>,
    pub ciphertext: Vec<u8>,
}

/// Why an envelope cannot be parsed, or nothing if it can.
pub open spec fn parse_fault(envelope: EncryptedEnvelope) -> Option<CryptoError> {
    let bad = CryptoError::BadEnvelope;
    match envelope.header {
        MessageHeader::PreKey { sender_identity_key, sender_ephemeral_key, ratchet, .. } => match (
            fixed_bytes(ratchet.ratchet_key@, 32, bad),
            fixed_bytes(sender_identity_key@, 32, bad),
            fixed_bytes(sender_ephemeral_key@, 32, bad),
            base64_bytes(envelope.ciphertext@),
        ) {
            (Err(reason), _, _, _) => Some(reason),
            (_, Err(reason), _, _) => Some(reason),
            (_, _, Err(reason), _) => Some(reason),
            (_, _, _, None) => Some(bad),
            _ => None,
        },
        MessageHeader::Ratchet(ratchet) => match (
            fixed_bytes(ratchet.ratchet_key@, 32, bad),
            base64_bytes(envelope.ciphertext@),
        ) {
            (Err(reason), _) => Some(reason),
            (_, None) => Some(bad),
            _ => None,
        },
    }
}

/// `parsed` is what `envelope` stands for.
pub open spec fn stands_for(envelope: EncryptedEnvelope, parsed: ParsedEnvelope) -> bool {
    &&& base64_bytes(envelope.ciphertext@) == Some(parsed.ciphertext@)
    &&& match envelope.header {
        MessageHeader::PreKey {
            sender_identity_key,
            sender_ephemeral_key,
            recipient_signed_prekey_id,
            recipient_one_time_prekey_id,
            ratchet,
        } => {
            &&& header_stands_for(ratchet, parsed.header)
            &&& parsed.first matches Some(first) && base64_bytes(sender_identity_key@) == Some(
                first.sender_identity_key@,
            ) && base64_bytes(sender_ephemeral_key@) == Some(first.sender_ephemeral_key@)
                && first.signed_prekey_id == recipient_signed_prekey_id && first.one_time_prekey_id
                == recipient_one_time_prekey_id && parsed.context@ == spec_prekey(
                envelope.version,
                first.sender_identity_key@,
                first.sender_ephemeral_key@,
                first.signed_prekey_id,
                first.one_time_prekey_id,
            )
        },
        MessageHeader::Ratchet(ratchet) => {
            &&& header_stands_for(ratchet, parsed.header)
            &&& parsed.first is None
            &&& parsed.context@ == spec_ratchet(envelope.version)
        },
    }
}

/// Takes an envelope out of its text form.
pub fn parse_envelope(envelope: &EncryptedEnvelope) -> (out: Result<ParsedEnvelope, CryptoError>)
    ensures
        match parse_fault(*envelope) {
            None => out matches Ok(parsed) && stands_for(*envelope, parsed),
            Some(reason) => out matches Err(error) && error == reason,
        },
{
    match &envelope.header {
        MessageHeader::PreKey {
            sender_identity_key,
            sender_ephemeral_key,
            recipient_signed_prekey_id,
            recipient_one_time_prekey_id,
            ratchet,
        } => {
            let header = match decode_ratchet_header(ratchet) {
                Ok(header) => header,
                Err(error) => return Err(error),
            };
            let identity = match b64_decode_fixed32(
                sender_identity_key.as_str(),
                CryptoError::BadEnvelope,
            ) {
                Ok(identity) => identity,
                Err(error) => return Err(error),
            };
            let ephemeral = match b64_decode_fixed32(
                sender_ephemeral_key.as_str(),
                CryptoError::BadEnvelope,
            ) {
                Ok(ephemeral) => ephemeral,
                Err(error) => return Err(error),
            };
            let context = aad::prekey(
                envelope.version,
                &identity,
                &ephemeral,
                *recipient_signed_prekey_id,
                *recipient_one_time_prekey_id,
            );
            match decode(envelope.ciphertext.as_str()) {
                Some(ciphertext) => Ok(
                    ParsedEnvelope {
                        first: Some(
                            FirstContact {
                                sender_identity_key: identity,
                                sender_ephemeral_key: ephemeral,
                                signed_prekey_id: *recipient_signed_prekey_id,
                                one_time_prekey_id: *recipient_one_time_prekey_id,
                            },
                        ),
                        header,
                        context,
                        ciphertext,
                    },
                ),
                None => Err(CryptoError::BadEnvelope),
            }
        },
        MessageHeader::Ratchet(ratchet) => {
            let header = match decode_ratchet_header(ratchet) {
                Ok(header) => header,
                Err(error) => return Err(error),
            };
            match decode(envelope.ciphertext.as_str()) {
                Some(ciphertext) => Ok(
                    ParsedEnvelope {
                        first: None,
                        header,
                        context: aad::ratchet(envelope.version),
                        ciphertext,
                    },
                ),
                None => Err(CryptoError::BadEnvelope),
            }
        },
    }
}

/// The first key with this identifier.
pub open spec fn key_with_id(keys: Seq<SignedPreKey>, id: u32) -> Option<SignedPreKey>
    decreases keys.len(),
{
    if keys.len() == 0 {
        None
    } else if keys[0].spec_key_id() == id {
        Some(keys[0])
    } else {
        key_with_id(keys.drop_first(), id)
    }
}

/// The text under which a message is shown.
pub open spec fn shown_text(plaintext: Seq<u8>) -> Seq<char> {
    if vstd::utf8::valid_utf8(plaintext) {
        vstd::utf8::decode_utf8(plaintext)
    } else {
        "[invalid utf-8]"@
    }
}

/// `out` is what is shown of a message after it was read or refused.
pub open spec fn shows(
    read: Result<(Vec<u8>, Change), CryptoError>,
    out: (InboundDecrypt, Option<Change>),
) -> bool {
    match read {
        Ok((text, change)) => {
            &&& out.0 matches InboundDecrypt::Pending(shown) && shown@ == shown_text(text@)
            &&& out.1 == Some(change)
        },
        Err(_) => out.0 is Failed && out.1 is None,
    }
}

/// The text under which a message is shown.
pub fn text_to_show(plaintext: &Vec<u8>) -> (out: String)
    ensures
        out@ == shown_text(plaintext@),
{
    let copy = plaintext.clone();
    assert(copy@ =~= plaintext@);
    match utf8_text(copy) {
        Some(text) => text,
        None => "[invalid utf-8]".to_owned(),
    }
}

impl CryptoManager {
    /// The signed pre-key in use and those before it, newest first.
    pub open spec fn signed_prekeys(&self) -> Seq<SignedPreKey> {
        match self.stored_spk {
            Some(current) => seq![current] + self.previous_spks@,
            None => self.previous_spks@,
        }
    }

    /// The session that a first message starts, or why it starts none.
    pub open spec fn answer(&self, first: FirstContact) -> Result<SessionModel, CryptoError> {
        match key_with_id(self.signed_prekeys(), first.signed_prekey_id) {
            None => Err(CryptoError::BadEnvelope),
            Some(signed) => if !ed25519_decodes(first.sender_identity_key@) {
                Err(CryptoError::BadEnvelope)
            } else if first.one_time_prekey_id is Some && !self.stored_opks@.contains_key(
                first.one_time_prekey_id->0,
            ) {
                Err(CryptoError::BadEnvelope)
            } else {
                Ok(
                    bob_start(
                        x3dh_responder(
                            self.spec_identity(),
                            signed.spec_secret(),
                            match first.one_time_prekey_id {
                                Some(id) => Some(self.stored_opks@[id].spec_secret()),
                                None => None,
                            },
                            first.sender_identity_key@,
                            first.sender_ephemeral_key@,
                        ),
                        signed.spec_secret(),
                        signed.spec_public(),
                    ),
                )
            },
        }
    }

    /// The session in which a message is read, or why there is none: the one
    /// with the peer, or else the one that a first message starts.
    pub open spec fn receiving_session(&self, peer: Seq<char>, parsed: ParsedEnvelope) -> Result<
        PeerModel,
        CryptoError,
    > {
        if self.sessions@.contains_key(peer) {
            Ok(self.sessions@[peer]@)
        } else {
            match parsed.first {
                None => Err(CryptoError::NoSession),
                Some(first) => match self.answer(first) {
                    Err(reason) => Err(reason),
                    Ok(ratchet) => Ok(
                        PeerModel { ratchet, prekey_header: None, prekey_expires_at: None },
                    ),
                },
            }
        }
    }

    /// The one-time pre-key that a message uses up: the one that a first
    /// message names.
    pub open spec fn consumed(&self, peer: Seq<char>, parsed: ParsedEnvelope) -> Seq<u32> {
        match parsed.first {
            Some(first) => if self.sessions@.contains_key(peer) {
                Seq::empty()
            } else {
                match first.one_time_prekey_id {
                    Some(id) => seq![id],
                    None => Seq::empty(),
                }
            },
            None => Seq::empty(),
        }
    }

    /// `change` is what reading a message leaves behind: the session after it,
    /// without the one-time pre-key that it used up, and an entry in the ledger
    /// if the message has an identifier.
    pub open spec fn records(
        &self,
        change: Change,
        peer: Seq<char>,
        parsed: ParsedEnvelope,
        session: PeerModel,
        text: Seq<u8>,
        marker: Option<Seq<char>>,
        now: u64,
    ) -> bool {
        &&& change.wf()
        &&& change.outbox is Keep
        &&& change.signed_keys is None
        &&& change.next_one_time_prekey_id is None
        &&& change.sessions.take@.len() == 0
        &&& change.sessions.put@.len() == 1
        &&& change.sessions.put@[0].0@ == peer
        &&& change.sessions.put@[0].1@ == session
        &&& change.one_time_prekeys.take@ == self.consumed(peer, parsed)
        &&& change.one_time_prekeys.put@.len() == 0
        &&& change.created_at.take@ == self.consumed(peer, parsed)
        &&& change.created_at.put@.len() == 0
        &&& match marker {
            None => change.processed.is_none(),
            Some(id) => {
                &&& change.processed.take@.len() == 0
                &&& change.processed.put@.len() == 1
                &&& change.processed.put@[0].0.0@ == peer
                &&& change.processed.put@[0].0.1@ == id
                &&& change.processed.put@[0].1.processed_at == now
                &&& change.processed.put@[0].1.pending_plaintext matches Some(shown) && shown@
                    == shown_text(text)
            },
        }
    }

    /// What reading a message gives. `fresh` is the key pair of a ratchet step.
    pub open spec fn reads(
        &self,
        peer: Seq<char>,
        parsed: ParsedEnvelope,
        marker: Option<Seq<char>>,
        now: u64,
        fresh: (Seq<u8>, Seq<u8>),
        out: Result<(Vec<u8>, Change), CryptoError>,
    ) -> bool {
        match self.receiving_session(peer, parsed) {
            Err(reason) => out matches Err(error) && error == reason,
            Ok(session) => match session.ratchet.receive(
                parsed.header,
                parsed.ciphertext@,
                parsed.context@,
                fresh,
            ) {
                Err(_) => out matches Err(error) && error == CryptoError::DecryptFailed,
                Ok((text, next)) => out matches Ok((plaintext, change)) && plaintext@ == text
                    && self.records(
                    change,
                    peer,
                    parsed,
                    PeerModel { ratchet: next, ..session },
                    text,
                    marker,
                    now,
                ),
            },
        }
    }

    /// The manager after messages that outlived their use left the ledger.
    pub open spec fn is_pruned(&self, before: &CryptoManager, now: u64) -> bool {
        &&& self.identity == before.identity
        &&& self.sessions == before.sessions
        &&& self.pending_inits == before.pending_inits
        &&& self.stored_spk == before.stored_spk
        &&& self.previous_spks == before.previous_spks
        &&& self.signed_prekey_rotated_at == before.signed_prekey_rotated_at
        &&& self.stored_opks == before.stored_opks
        &&& self.next_one_time_prekey_id == before.next_one_time_prekey_id
        &&& self.one_time_prekey_created_at == before.one_time_prekey_created_at
        &&& self.pending_outbound == before.pending_outbound
        &&& self.processed_messages@ == pruned(before.processed_messages@, now)
    }

    fn find_signed_prekey(&self, id: u32) -> (out: Option<&SignedPreKey>)
        ensures
            match key_with_id(self.signed_prekeys(), id) {
                Some(key) => out matches Some(found) && *found == key,
                None => out is None,
            },
    {
        match &self.stored_spk {
            Some(current) => {
                assert(self.signed_prekeys().drop_first() =~= self.previous_spks@);
                if current.key_id() == id {
                    return Some(current);
                }
            },
            None => {},
        }
        let mut i: usize = 0;
        assert(self.previous_spks@.skip(0) =~= self.previous_spks@);
        while i < self.previous_spks.len()
            invariant
                i <= self.previous_spks@.len(),
                key_with_id(self.signed_prekeys(), id) == key_with_id(
                    self.previous_spks@.skip(i as int),
                    id,
                ),
            decreases self.previous_spks@.len() - i,
        {
            if self.previous_spks[i].key_id() == id {
                return Some(&self.previous_spks[i]);
            }
            assert(self.previous_spks@.skip(i as int).drop_first() =~= self.previous_spks@.skip(
                i + 1,
            ));
            i += 1;
        }
        None
    }

    /// Starts the session of a first message. The one-time pre-key stays: it
    /// is used up only when the message has proved to be authentic.
    pub fn create_bob_session(&self, first: &FirstContact) -> (out: Result<
        SessionState,
        CryptoError,
    >)
        ensures
            match self.answer(*first) {
                Ok(session) => out matches Ok(state) && state@ == session,
                Err(reason) => out matches Err(error) && error == reason,
            },
    {
        let signed = match self.find_signed_prekey(first.signed_prekey_id) {
            Some(signed) => signed,
            None => return Err(CryptoError::BadEnvelope),
        };
        let peer_identity = match VerifyingKey::from_bytes(&first.sender_identity_key) {
            Some(key) => key,
            None => return Err(CryptoError::BadEnvelope),
        };
        let peer_ephemeral = PublicKey::from_bytes(first.sender_ephemeral_key);
        let one_time = match first.one_time_prekey_id {
            Some(id) => match self.stored_opks.get(&id) {
                Some(key) => Some(key),
                None => return Err(CryptoError::BadEnvelope),
            },
            None => None,
        };
        let secret = match bob_respond(
            &self.identity,
            signed,
            one_time,
            &peer_identity,
            &peer_ephemeral,
        ) {
            Ok(secret) => secret,
            Err(_) => return Err(CryptoError::X3dhFailed),
        };
        let pair = RatchetKeyPair::from_bytes(
            signed.secret().to_bytes(),
            signed.public().to_bytes(),
        );
        Ok(initialize_bob(secret, pair))
    }

    /// Reads a message. `fresh` is used where the ratchet turns.
    pub fn decrypt_parsed(
        &self,
        peer_id: &str,
        parsed: &ParsedEnvelope,
        marker: Option<&str>,
        now: u64,
        fresh: RatchetKeyPair,
    ) -> (out: Result<(Vec<u8>, Change), CryptoError>)
        ensures
            self.reads(
                peer_id@,
                *parsed,
                match marker {
                    Some(id) => Some(id@),
                    None => None,
                },
                now,
                (fresh.secret_bytes@, fresh.public_bytes@),
                out,
            ),
    {
        let peer_key = peer_id.to_owned();
        let mut change = Change::none();
        let mut session = match self.sessions.get(&peer_key) {
            Some(session) => session.clone(),
            None => match &parsed.first {
                None => return Err(CryptoError::NoSession),
                Some(first) => match self.create_bob_session(first) {
                    Ok(ratchet) => {
                        match first.one_time_prekey_id {
                            Some(id) => {
                                change.one_time_prekeys = TableChange::take_one(id);
                                change.created_at = TableChange::take_one(id);
                            },
                            None => {},
                        }
                        PeerSession { ratchet, prekey_header: None, prekey_expires_at: None }
                    },
                    Err(error) => return Err(error),
                },
            },
        };
        assert(change.one_time_prekeys.take@ =~= self.consumed(peer_id@, *parsed));
        assert(change.created_at.take@ =~= self.consumed(peer_id@, *parsed));
        let plaintext = match decrypt_with(
            &mut session.ratchet,
            &parsed.header,
            &parsed.ciphertext,
            &parsed.context,
            Some(fresh),
        ) {
            Ok(plaintext) => plaintext,
            Err(_) => return Err(CryptoError::DecryptFailed),
        };
        change.sessions = TableChange::put_one(peer_id.to_owned(), session);
        match marker {
            Some(id) => {
                change.processed = TableChange::put_one(
                    (peer_key, id.to_owned()),
                    ProcessedMessage {
                        pending_plaintext: Some(text_to_show(&plaintext)),
                        processed_at: now,
                    },
                );
            },
            None => {},
        }
        Ok((plaintext, change))
    }

    /// Reads a message, after the ledger has been pruned. With a marker, the
    /// message gets an entry in the ledger under that identifier.
    pub fn decrypt_with_marker(
        &mut self,
        peer_id: &str,
        envelope: &EncryptedEnvelope,
        marker: Option<&str>,
        now: u64,
    ) -> (out: Result<(Vec<u8>, Change), CryptoError>)
        ensures
            if envelope.version != PROTOCOL_VERSION {
                &&& *final(self) == *old(self)
                &&& out matches Err(error) && error == CryptoError::UnsupportedVersion(
                    envelope.version,
                )
            } else {
                &&& final(self).is_pruned(old(self), now)
                &&& if marker is Some && final(self).processed_messages@.len()
                    >= MAX_PROCESSED_MESSAGES {
                    out matches Err(error) && error == CryptoError::ReplayLedgerFull
                } else {
                    match parse_fault(*envelope) {
                        Some(reason) => out matches Err(error) && error == reason,
                        None => exists|parsed: ParsedEnvelope, fresh: (Seq<u8>, Seq<u8>)|
                            #![trigger stands_for(*envelope, parsed), dh_pair(fresh.0, fresh.1)]
                            {
                                &&& stands_for(*envelope, parsed)
                                &&& dh_pair(fresh.0, fresh.1)
                                &&& final(self).reads(
                                    peer_id@,
                                    parsed,
                                    match marker {
                                        Some(id) => Some(id@),
                                        None => None,
                                    },
                                    now,
                                    fresh,
                                    out,
                                )
                            },
                    }
                }
            },
    {
        if envelope.version != PROTOCOL_VERSION {
            return Err(CryptoError::UnsupportedVersion(envelope.version));
        }
        prune_processed(&mut self.processed_messages, now);
        if marker.is_some() && self.processed_messages.len() >= MAX_PROCESSED_MESSAGES {
            return Err(CryptoError::ReplayLedgerFull);
        }
        let parsed = match parse_envelope(envelope) {
            Ok(parsed) => parsed,
            Err(error) => return Err(error),
        };
        let fresh = RatchetKeyPair::generate();
        let ghost pair = (fresh.secret_bytes@, fresh.public_bytes@);
        assert(dh_pair(pair.0, pair.1));
        assert(stands_for(*envelope, parsed));
        self.decrypt_parsed(peer_id, &parsed, marker, now, fresh)
    }

    /// A message that is to be shown is read: `before` becomes `self`. One that
    /// has been read before is not decrypted again.
    pub open spec fn reads_once(
        &self,
        before: &CryptoManager,
        peer: Seq<char>,
        message_id: MessageId,
        envelope: EncryptedEnvelope,
        now: u64,
        out: (InboundDecrypt, Option<Change>),
    ) -> bool {
        let key = (peer, uuid_text(message_id@));
        if envelope.version != PROTOCOL_VERSION {
            *self == *before && out.0 is Failed && out.1 is None
        } else if before.processed_messages@.contains_key(key) {
            &&& *self == *before
            &&& out.1 is None
            &&& match before.processed_messages@[key].pending_plaintext {
                Some(text) => out.0 matches InboundDecrypt::Pending(shown) && shown@ == text@,
                None => out.0 is Duplicate,
            }
        } else {
            &&& self.is_pruned(before, now)
            &&& if self.processed_messages@.len() >= MAX_PROCESSED_MESSAGES || parse_fault(
                envelope,
            ) is Some {
                out.0 is Failed && out.1 is None
            } else {
                exists|
                    parsed: ParsedEnvelope,
                    fresh: (Seq<u8>, Seq<u8>),
                    read: Result<(Vec<u8>, Change), CryptoError>,
                |
                    {
                        &&& #[trigger] stands_for(envelope, parsed)
                        &&& #[trigger] dh_pair(fresh.0, fresh.1)
                        &&& self.reads(peer, parsed, Some(key.1), now, fresh, read)
                        &&& #[trigger] shows(read, out)
                    }
            }
        }
    }

    /// Reads a message that is to be shown. One that has been read before is
    /// not decrypted again.
    pub fn decrypt_message_to_text(
        &mut self,
        peer_id: &str,
        message_id: &MessageId,
        envelope: &EncryptedEnvelope,
        now: u64,
    ) -> (out: (InboundDecrypt, Option<Change>))
        ensures
            final(self).reads_once(old(self), peer_id@, *message_id, *envelope, now, out),
    {
        if envelope.version != PROTOCOL_VERSION {
            return (InboundDecrypt::Failed, None);
        }
        let id = message_id.to_text();
        let key = (peer_id.to_owned(), id.clone());
        match self.processed_messages.get(&key) {
            Some(processed) => {
                return match &processed.pending_plaintext {
                    Some(text) => (InboundDecrypt::Pending(text.clone()), None),
                    None => (InboundDecrypt::Duplicate, None),
                };
            },
            None => {},
        }
        let read = self.decrypt_with_marker(peer_id, envelope, Some(id.as_str()), now);
        let ghost outcome = read;
        let out = match read {
            Ok((plaintext, change)) => (
                InboundDecrypt::Pending(text_to_show(&plaintext)),
                Some(change),
            ),
            Err(_) => (InboundDecrypt::Failed, None),
        };
        assert(shows(outcome, out));
        out
    }
}

} // verus!
