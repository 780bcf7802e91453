//! What the client sends: messages, receipts and acknowledgements.

use super::crypto_mgr::{Change, CryptoManager, OutboxChange, PeerSession, StoredX3dhResult};
use super::error::CryptoError;
use super::outbox::{ensure_capacity, PendingOutbound};
use crate::crypto::ratchet::encrypt_in_context;
use crate::encoding::{encode, encode_json_list, fits_base64};
use crate::protocol::aad;
use crate::protocol::consts::{MAX_CIPHERTEXT_BYTES, MAX_RECEIPT_BATCH, PROTOCOL_VERSION};
use crate::protocol::types::RatchetHeader as WireHeader;
use crate::protocol::{ClientMessage, EncryptedEnvelope, MessageHeader, MessageId, UserId};
use crate::table::TableChange;
use vstd::prelude::*;
use vstd::string::*;

verus! {

use super::crypto_mgr::PeerModel;
use super::decode::header_stands_for;
use super::outbox::{encoded_size, has_capacity};
use crate::crypto::aead::sealed;
use crate::crypto::kdf::message_key_of;
use crate::crypto::primitives::{ed25519_public, sealable};
use crate::crypto::ratchet::RatchetHeader;
use crate::encoding::{base64_len, encodes, json_list};
use crate::protocol::aad::{spec_prekey, spec_ratchet};
use crate::protocol::types::{is_random_uuid, uuid_text};

/// The AEAD context of the next message of a session.
pub open spec fn sending_context(identity_public: Seq<u8>, session: PeerModel) -> Seq<u8> {
    match session.prekey_header {
        Some(first) => spec_prekey(
            PROTOCOL_VERSION,
            identity_public,
            first.ephemeral_public@,
            first.recipient_signed_prekey_id,
            first.recipient_one_time_prekey_id,
        ),
        None => spec_ratchet(PROTOCOL_VERSION),
    }
}

/// A message of `len` bytes can be encrypted in a session.
pub open spec fn can_encrypt(identity_public: Seq<u8>, session: PeerModel, len: nat) -> bool {
    &&& session.ratchet.send_count < u32::MAX
    &&& session.ratchet.sending is Some
    &&& sealable(len, sending_context(identity_public, session).len() + 40)
    &&& base64_len(len + 16) <= isize::MAX
}

/// A session after its next message: the first one carries the handshake.
pub open spec fn after_sending(session: PeerModel) -> PeerModel {
    PeerModel {
        ratchet: session.ratchet.after_send(),
        prekey_header: None,
        prekey_expires_at: if session.prekey_header is Some {
            None
        } else {
            session.prekey_expires_at
        },
    }
}

/// The wire form of a message header: with the handshake if there is one.
pub open spec fn wire_header(
    wire: MessageHeader,
    first: Option<StoredX3dhResult>,
    identity_public: Seq<u8>,
    header: RatchetHeader,
) -> bool {
    match first {
        Some(first) => {
            wire matches MessageHeader::PreKey {
                sender_identity_key,
                sender_ephemeral_key,
                recipient_signed_prekey_id,
                recipient_one_time_prekey_id,
                ratchet,
            } && encodes(sender_identity_key@, identity_public) && encodes(
                sender_ephemeral_key@,
                first.ephemeral_public@,
            ) && recipient_signed_prekey_id == first.recipient_signed_prekey_id
                && recipient_one_time_prekey_id == first.recipient_one_time_prekey_id && encodes(
                ratchet.ratchet_key@,
                header.ratchet_key@,
            ) && header_stands_for(ratchet, header)
        },
        None => {
            wire matches MessageHeader::Ratchet(ratchet) && encodes(
                ratchet.ratchet_key@,
                header.ratchet_key@,
            ) && header_stands_for(ratchet, header)
        },
    }
}

/// `envelope` is what a session sends for `text`.
pub open spec fn seals(
    envelope: EncryptedEnvelope,
    identity_public: Seq<u8>,
    session: PeerModel,
    text: Seq<u8>,
) -> bool {
    exists|header: RatchetHeader, ciphertext: Seq<u8>|
        {
            &&& envelope.version == PROTOCOL_VERSION
            &&& #[trigger] session.ratchet.sends(
                text,
                sending_context(identity_public, session),
                header,
                ciphertext,
            )
            &&& ciphertext == sealed(
                message_key_of(session.ratchet.sending->0),
                text,
                sending_context(identity_public, session) + header.spec_aad(),
            )
            &&& ciphertext.len() == text.len() + 16
            &&& encodes(envelope.ciphertext@, ciphertext)
            &&& wire_header(envelope.header, session.prekey_header, identity_public, header)
        }
}

/// `change` puts `session` in place of the session with `peer` and adds an
/// item to the outbox, and does nothing else.
pub open spec fn sends_one(change: Change, peer: Seq<char>, session: PeerModel) -> bool {
    &&& change.wf()
    &&& change.keeps_keys()
    &&& change.processed.is_none()
    &&& change.sessions.take@.len() == 0
    &&& change.sessions.put@.len() == 1
    &&& change.sessions.put@[0].0@ == peer
    &&& change.sessions.put@[0].1@ == session
    &&& change.outbox is Add
}

/// The identifiers of a receipt, as text.
pub open spec fn id_texts(ids: Seq<MessageId>) -> Seq<Seq<char>> {
    ids.map_values(|id: MessageId| uuid_text(id@))
}

/// The identifiers that one receipt can carry.
pub open spec fn capped(ids: Seq<MessageId>) -> Seq<MessageId> {
    if ids.len() > MAX_RECEIPT_BATCH {
        ids.take(MAX_RECEIPT_BATCH as int)
    } else {
        ids
    }
}

impl CryptoManager {
    /// The public identity key.
    pub open spec fn spec_identity_public(&self) -> Seq<u8> {
        ed25519_public(self.spec_identity())
    }

    /// Encrypts `plaintext` in the session with a peer: the session after it
    /// and the envelope.
    pub fn advance_encryption(&self, peer_id: &str, plaintext: &[u8]) -> (out: Result<
        (PeerSession, EncryptedEnvelope),
        CryptoError,
    >)
        ensures
            !self.sessions@.contains_key(peer_id@) ==> out == Err::<
                (PeerSession, EncryptedEnvelope),
                CryptoError,
            >(CryptoError::NoSession),
            self.sessions@.contains_key(peer_id@) ==> {
                let session = self.sessions@[peer_id@]@;
                if can_encrypt(self.spec_identity_public(), session, plaintext@.len()) {
                    out matches Ok((next, envelope)) && next@ == after_sending(session) && seals(
                        envelope,
                        self.spec_identity_public(),
                        session,
                        plaintext@,
                    )
                } else {
                    out == Err::<(PeerSession, EncryptedEnvelope), CryptoError>(
                        CryptoError::RatchetFailed,
                    )
                }
            },
    {
        let peer_key = peer_id.to_owned();
        let mut session = match self.sessions.get(&peer_key) {
            Some(session) => session.clone(),
            None => return Err(CryptoError::NoSession),
        };
        let ghost before = session@;
        let identity_public = self.identity.verifying_key().to_bytes();
        let context = match &session.prekey_header {
            Some(first) => aad::prekey(
                PROTOCOL_VERSION,
                &identity_public,
                &first.ephemeral_public,
                first.recipient_signed_prekey_id,
                first.recipient_one_time_prekey_id,
            ),
            None => aad::ratchet(PROTOCOL_VERSION),
        };
        assert(context@ == sending_context(self.spec_identity_public(), before));
        let message = match encrypt_in_context(&mut session.ratchet, plaintext, &context) {
            Ok(message) => message,
            Err(_) => return Err(CryptoError::RatchetFailed),
        };
        if !fits_base64(message.ciphertext.len()) {
            return Err(CryptoError::RatchetFailed);
        }
        let ratchet = WireHeader {
            ratchet_key: encode(&message.header.ratchet_key),
            previous_chain_length: message.header.previous_chain_length,
            message_number: message.header.message_number,
        };
        let header = match session.prekey_header {
            Some(first) => {
                session.prekey_header = None;
                session.prekey_expires_at = None;
                MessageHeader::PreKey {
                    sender_identity_key: encode(&identity_public),
                    sender_ephemeral_key: encode(&first.ephemeral_public),
                    recipient_signed_prekey_id: first.recipient_signed_prekey_id,
                    recipient_one_time_prekey_id: first.recipient_one_time_prekey_id,
                    ratchet,
                }
            },
            None => MessageHeader::Ratchet(ratchet),
        };
        let envelope = EncryptedEnvelope {
            version: PROTOCOL_VERSION,
            header,
            ciphertext: encode(&message.ciphertext),
        };
        assert(before.ratchet.sends(
            plaintext@,
            sending_context(self.spec_identity_public(), before),
            message.header,
            message.ciphertext@,
        ));
        Ok((session, envelope))
    }

    /// A message to a peer is encrypted and goes into the outbox, if that has
    /// room and there is a session that can encrypt it.
    pub open spec fn encrypts(
        &self,
        peer: Seq<char>,
        recipient: UserId,
        message_id: MessageId,
        plaintext: Seq<u8>,
        out: Result<(ClientMessage, Change), CryptoError>,
    ) -> bool {
        if !has_capacity(self.pending_outbound@, plaintext.len()) {
            out matches Err(error) && error == CryptoError::OutboxFull
        } else if !self.sessions@.contains_key(peer) {
            out matches Err(error) && error == CryptoError::NoSession
        } else if !can_encrypt(
            self.spec_identity_public(),
            self.sessions@[peer]@,
            plaintext.len(),
        ) {
            out matches Err(error) && error == CryptoError::RatchetFailed
        } else {
            out matches Ok((request, change)) && sends_one(
                change,
                peer,
                after_sending(self.sessions@[peer]@),
            ) && change.outbox->Add_0.asks(request) && (change.outbox->Add_0 matches
                PendingOutbound::Message { recipient_id: to, message_id: id, envelope } && to
                == recipient && id == message_id && seals(
                envelope,
                self.spec_identity_public(),
                self.sessions@[peer]@,
                plaintext,
            ))
        }
    }

    /// Encrypts a message to a peer and puts it in the outbox.
    pub fn encrypt_message(
        &self,
        peer_id: &str,
        recipient_id: &UserId,
        message_id: &MessageId,
        plaintext: &[u8],
    ) -> (out: Result<(ClientMessage, Change), CryptoError>)
        ensures
            self.encrypts(peer_id@, *recipient_id, *message_id, plaintext@, out),
    {
        match ensure_capacity(&self.pending_outbound, plaintext.len()) {
            Ok(()) => {},
            Err(error) => return Err(error),
        }
        let (session, envelope) = match self.advance_encryption(peer_id, plaintext) {
            Ok(advanced) => advanced,
            Err(error) => return Err(error),
        };
        let item = PendingOutbound::Message {
            recipient_id: recipient_id.clone(),
            message_id: *message_id,
            envelope,
        };
        let request = item.to_client_message();
        let mut change = Change::none();
        change.sessions = TableChange::put_one(peer_id.to_owned(), session);
        change.outbox = OutboxChange::Add(item);
        Ok((request, change))
    }

    /// A read receipt for up to `MAX_RECEIPT_BATCH` messages is encrypted and
    /// goes into the outbox, if that has room and there is a session that can
    /// encrypt it.
    pub open spec fn encrypts_receipt(
        &self,
        peer: Seq<char>,
        recipient: UserId,
        message_ids: Seq<MessageId>,
        out: Result<(ClientMessage, Change), CryptoError>,
    ) -> bool {
        let text = json_list(id_texts(capped(message_ids)));
        if encoded_size(text.len()) > MAX_CIPHERTEXT_BYTES {
            out matches Err(error) && error == CryptoError::RatchetFailed
        } else if !has_capacity(self.pending_outbound@, text.len()) {
            out matches Err(error) && error == CryptoError::OutboxFull
        } else if !self.sessions@.contains_key(peer) {
            out matches Err(error) && error == CryptoError::NoSession
        } else if !can_encrypt(
            self.spec_identity_public(),
            self.sessions@[peer]@,
            text.len(),
        ) {
            out matches Err(error) && error == CryptoError::RatchetFailed
        } else {
            out matches Ok((request, change)) && sends_one(
                change,
                peer,
                after_sending(self.sessions@[peer]@),
            ) && change.outbox->Add_0.asks(request) && (change.outbox->Add_0 matches
                PendingOutbound::ReadReceipt { recipient_id: to, receipt_id, envelope } && to
                == recipient && is_random_uuid(receipt_id@) && seals(
                envelope,
                self.spec_identity_public(),
                self.sessions@[peer]@,
                text,
            ))
        }
    }

    /// Encrypts a read receipt for up to `MAX_RECEIPT_BATCH` messages, under a
    /// new identifier, and puts it in the outbox.
    pub fn encrypt_read_receipt(
        &self,
        peer_id: &str,
        recipient_id: &UserId,
        message_ids: &Vec<MessageId>,
    ) -> (out: Result<(ClientMessage, Change), CryptoError>)
        ensures
            self.encrypts_receipt(peer_id@, *recipient_id, message_ids@, out),
    {
        let count: usize = if message_ids.len() > MAX_RECEIPT_BATCH {
            MAX_RECEIPT_BATCH
        } else {
            message_ids.len()
        };
        let mut items: Vec<String> = Vec::new();
        let mut i: usize = 0;
        while i < count
            invariant
                i <= count <= message_ids@.len(),
                items@.len() == i,
                forall|j: int| 0 <= j < i ==> (#[trigger] items@[j])@ == uuid_text(message_ids@[j]@),
            decreases count - i,
        {
            items.push(message_ids[i].to_text());
            i += 1;
        }
        assert(crate::encoding::texts(items@) =~= id_texts(capped(message_ids@)));
        let plaintext = match encode_json_list(&items) {
            Some(plaintext) => plaintext,
            None => return Err(CryptoError::RatchetFailed),
        };
        if plaintext.len() > MAX_CIPHERTEXT_BYTES || (plaintext.len() + 18) / 3 * 4
            > MAX_CIPHERTEXT_BYTES {
            return Err(CryptoError::RatchetFailed);
        }
        match ensure_capacity(&self.pending_outbound, plaintext.len()) {
            Ok(()) => {},
            Err(error) => return Err(error),
        }
        let receipt_id = MessageId::new();
        let (session, envelope) = match self.advance_encryption(peer_id, &plaintext) {
            Ok(advanced) => advanced,
            Err(error) => return Err(error),
        };
        let item = PendingOutbound::ReadReceipt {
            recipient_id: recipient_id.clone(),
            receipt_id,
            envelope,
        };
        let request = item.to_client_message();
        let mut change = Change::none();
        change.sessions = TableChange::put_one(peer_id.to_owned(), session);
        change.outbox = OutboxChange::Add(item);
        Ok((request, change))
    }
}

} // verus!
