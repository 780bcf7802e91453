//! What the client does with sessions and messages, stated of the functions
//! that start, encrypt and decrypt.

use super::crypto_mgr::{Change, CryptoManager, InboundDecrypt, PeerSession};
use super::decrypting::{parse_envelope, text_to_show, FirstContact, ParsedEnvelope};
use super::error::CryptoError;
use super::outbox::PendingOutbound;
use crate::crypto::keys::{EphemeralKeyPair, RatchetKeyPair, SignedPreKey};
use crate::crypto::ratchet::SessionState;
use crate::protocol::{
    ClientMessage, EncryptedEnvelope, MessageHeader, MessageId, PreKeyBundle, UserId,
};
use crate::table::TableKey;
use vstd::prelude::*;
use vstd::string::*;

verus! {

use super::crypto_mgr::PeerModel;
use super::keeping::{keeps_keys, keeps_signed_keys, room_for};
use crate::crypto::guarantees::{agreed, message_label, ratchet_label, repeated};
use crate::crypto::primitives::{
    aes256gcm_seal, ed25519_decodes, ed25519_montgomery, ed25519_public, ed25519_scalar,
    ed25519_verifies, hkdf_sha256, hmac_sha256, sealable, x25519,
};
use crate::crypto::ratchet::SessionModel;
use crate::bytes::be32;
use crate::encoding::{base64_bytes, base64_len, json_list};
use crate::protocol::types::{is_random_uuid, uuid_text};

/// The text stands for so many bytes.
pub open spec fn stands_for_so_many(text: Seq<char>, len: nat) -> bool {
    base64_bytes(text) is Some && base64_bytes(text)->0.len() == len
}

/// The keys of a bundle are all there and have their lengths.
pub open spec fn complete(bundle: PreKeyBundle) -> bool {
    &&& stands_for_so_many(bundle.identity_key@, 32)
    &&& ed25519_decodes(base64_bytes(bundle.identity_key@)->0)
    &&& stands_for_so_many(bundle.signed_prekey@, 32)
    &&& stands_for_so_many(bundle.signed_prekey_signature@, 64)
    &&& bundle.one_time_prekey is Some ==> stands_for_so_many(
        bundle.one_time_prekey->0.public_key@,
        32,
    )
}

proof fn lemma_put_session(
    before: CryptoManager,
    change: Change,
    after: CryptoManager,
    peer: Seq<char>,
)
    requires
        after.is_changed_by(&before, &change),
        change.sessions.take@.len() == 0,
        change.sessions.put@.len() == 1,
        change.sessions.put@[0].0@ == peer,
    ensures
        after.sessions@ == before.sessions@.insert(peer, change.sessions.put@[0].1),
{
    let entry = change.sessions.put@[0];
    assert(entry.0.id() == peer);
    assert(change.sessions.put@ =~= seq![entry]);
    crate::table::lemma_put_one(before.sessions@, change.sessions.take@, entry);
}

proof fn lemma_kept(before: CryptoManager, change: Change, after: CryptoManager)
    requires
        after.is_changed_by(&before, &change),
        change.keeps_keys(),
        change.processed.is_none(),
    ensures
        keeps_keys(before, after),
        after.processed_messages@ == before.processed_messages@,
{
    assert(change.one_time_prekeys.applied(before.stored_opks@) =~= before.stored_opks@);
    assert(change.created_at.applied(before.one_time_prekey_created_at@)
        =~= before.one_time_prekey_created_at@);
    assert(change.processed.applied(before.processed_messages@) =~= before.processed_messages@);
}

/// A session is started exactly with a complete bundle whose signed pre-key its
/// identity has signed. It goes out of an agreement over all keys of the
/// bundle, tells the peer in its first message which keys those are, and is
/// good for an hour until that is sent. Nothing else is touched.
pub proof fn law_session_is_started(
    manager: &mut CryptoManager,
    peer: &str,
    bundle: &PreKeyBundle,
    now: u64,
    ephemeral: &EphemeralKeyPair,
    pair: RatchetKeyPair,
    out: Result<Change, CryptoError>,
    undo: Change,
)
    requires
        call_ensures(
            CryptoManager::init_session_with,
            (&*old(manager), peer, bundle, now, ephemeral, pair),
            out,
        ),
        out matches Ok(change) ==> call_ensures(CryptoManager::commit, (manager, change), undo),
    ensures
        ({
            let identity = base64_bytes(bundle.identity_key@)->0;
            let signed = base64_bytes(bundle.signed_prekey@)->0;
            let genuine = ed25519_verifies(
                identity,
                signed,
                base64_bytes(bundle.signed_prekey_signature@)->0,
            );
            let own = ephemeral.spec_secret();
            &&& !complete(*bundle) ==> out == Err::<Change, CryptoError>(CryptoError::BadBundle)
            &&& complete(*bundle) && !genuine ==> out == Err::<Change, CryptoError>(
                CryptoError::X3dhFailed,
            )
            &&& complete(*bundle) && genuine ==> out is Ok
            &&& out is Ok ==> {
                let session = final(manager).sessions@[peer@];
                let secret = agreed(
                    x25519(ed25519_scalar(old(manager).identity@), signed),
                    x25519(own, ed25519_montgomery(identity)),
                    x25519(own, signed),
                    match bundle.one_time_prekey {
                        Some(key) => x25519(own, base64_bytes(key.public_key@)->0),
                        None => Seq::empty(),
                    },
                );
                let okm = hkdf_sha256(
                    secret,
                    x25519(pair.secret_bytes@, signed),
                    ratchet_label(),
                    64,
                );
                &&& final(manager).sessions@ == old(manager).sessions@.insert(peer@, session)
                &&& session.ratchet@.root == okm.subrange(0, 32)
                &&& session.ratchet@.sending == Some(okm.subrange(32, 64))
                &&& session.ratchet@.theirs == Some(signed)
                &&& session.ratchet@.our_secret == pair.secret_bytes@
                &&& session.ratchet@.our_public == pair.public_bytes@
                &&& session.ratchet@.receiving is None
                &&& session.ratchet@.send_count == 0
                &&& session.prekey_header matches Some(first) && first.ephemeral_public@
                    == ephemeral.spec_public() && first.recipient_signed_prekey_id
                    == bundle.signed_prekey_id && (match bundle.one_time_prekey {
                    Some(key) => first.recipient_one_time_prekey_id == Some(key.key_id),
                    None => first.recipient_one_time_prekey_id is None,
                })
                &&& session.prekey_expires_at is Some
                &&& now + 3600 <= u64::MAX ==> session.prekey_expires_at == Some(
                    (now + 3600) as u64,
                )
                &&& final(manager).pending_outbound@ == old(manager).pending_outbound@
                &&& final(manager).processed_messages@ == old(manager).processed_messages@
                &&& keeps_keys(*old(manager), *final(manager))
            }
        }),
{
    crate::crypto::guarantees::lemma_labels();
    if let Ok(change) = out {
        lemma_put_session(*old(manager), change, *final(manager), peer@);
        lemma_kept(*old(manager), change, *final(manager));
    }
}

/// A session whose first message was not sent is dropped exactly if its time is
/// over, and nothing else is.
pub proof fn law_stale_session_is_dropped(
    manager: &mut CryptoManager,
    peer: &str,
    now: u64,
    out: Option<Change>,
    undo: Change,
)
    requires
        call_ensures(
            CryptoManager::expire_stale_prekey_session,
            (&*old(manager), peer, now),
            out,
        ),
        out matches Some(change) ==> call_ensures(CryptoManager::commit, (manager, change), undo),
    ensures
        out is Some <==> old(manager).sessions@.contains_key(peer@) && old(manager).sessions@[peer@].prekey_header is Some && (old(manager).sessions@[peer@].prekey_expires_at matches Some(expires) && expires < now),
        out is Some ==> final(manager).sessions@ == old(manager).sessions@.remove(peer@) && final(manager).pending_outbound@ == old(manager).pending_outbound@ && final(manager).processed_messages@ == old(manager).processed_messages@ && keeps_keys(
            *old(manager),
            *final(manager),
        ),
{
    if let Some(change) = out {
        lemma_kept(*old(manager), change, *final(manager));
    }
}

/// The context of the next message of a session: that of a first message as
/// long as none was sent.
pub open spec fn next_context(identity: Seq<u8>, session: PeerModel) -> Seq<u8> {
    let domain = seq![67u8, 77, 80, 95, 69, 78, 86, 69, 76, 79, 80, 69, 95, 65, 65, 68] + be32(2);
    match session.prekey_header {
        Some(first) => domain + seq![1u8] + identity + first.ephemeral_public@ + be32(
            first.recipient_signed_prekey_id,
        ) + (match first.recipient_one_time_prekey_id {
            Some(id) => seq![1u8] + be32(id),
            None => seq![0u8] + be32(0),
        }),
        None => domain + seq![2u8],
    }
}

proof fn lemma_next_context(identity: Seq<u8>, session: PeerModel)
    ensures
        next_context(identity, session) == super::encrypting::sending_context(identity, session),
{
    assert(crate::protocol::aad::DOMAIN@ =~= seq![
        67u8,
        77,
        80,
        95,
        69,
        78,
        86,
        69,
        76,
        79,
        80,
        69,
        95,
        65,
        65,
        68,
    ]);
}

/// A text goes into an envelope with the next number of the sending chain,
/// sealed with its next message key; as long as no message was sent, with the
/// keys that the session was started with. Only the chain moves on, by one
/// step, and the first message is behind it.
pub proof fn law_text_is_sealed(
    manager: &CryptoManager,
    peer: &str,
    text: &[u8],
    out: Result<(PeerSession, EncryptedEnvelope), CryptoError>,
)
    requires
        call_ensures(CryptoManager::advance_encryption, (manager, peer, text), out),
    ensures
        !manager.sessions@.contains_key(peer@) ==> (out matches Err(error) && error is NoSession),
        manager.sessions@.contains_key(peer@) ==> {
            let session = manager.sessions@[peer@]@;
            let identity = ed25519_public(manager.identity@);
            let chain = session.ratchet.sending->0;
            let secret = hkdf_sha256(
                repeated(0, 32),
                hmac_sha256(chain, seq![1u8]),
                message_label(),
                44,
            );
            &&& out is Ok <==> session.ratchet.send_count < u32::MAX && session.ratchet.sending
                is Some && sealable(text@.len(), next_context(identity, session).len() + 40)
                && base64_len(text@.len() + 16) <= isize::MAX
            &&& out matches Err(error) ==> error is RatchetFailed
            &&& out matches Ok((after, envelope)) ==> {
                let ratchet = match envelope.header {
                    MessageHeader::PreKey { ratchet, .. } => ratchet,
                    MessageHeader::Ratchet(ratchet) => ratchet,
                };
                &&& envelope.version == 2
                &&& session.prekey_header is None ==> envelope.header is Ratchet
                &&& session.prekey_header matches Some(first) ==> (envelope.header matches
                    MessageHeader::PreKey {
                    sender_identity_key,
                    sender_ephemeral_key,
                    recipient_signed_prekey_id,
                    recipient_one_time_prekey_id,
                    ..
                } && base64_bytes(sender_identity_key@) == Some(identity) && base64_bytes(
                    sender_ephemeral_key@,
                ) == Some(first.ephemeral_public@) && recipient_signed_prekey_id
                    == first.recipient_signed_prekey_id && recipient_one_time_prekey_id
                    == first.recipient_one_time_prekey_id)
                &&& base64_bytes(ratchet.ratchet_key@) == Some(session.ratchet.our_public)
                &&& ratchet.message_number == session.ratchet.send_count
                &&& ratchet.previous_chain_length == session.ratchet.previous_send_count
                &&& base64_bytes(envelope.ciphertext@) == Some(
                    aes256gcm_seal(
                        secret.subrange(0, 32),
                        secret.subrange(32, 44),
                        text@,
                        next_context(identity, session) + (session.ratchet.our_public + be32(
                            ratchet.previous_chain_length,
                        ) + be32(ratchet.message_number)),
                    ),
                )
                &&& after@.ratchet == (SessionModel {
                    sending: Some(hmac_sha256(chain, seq![2u8])),
                    send_count: session.ratchet.send_count + 1,
                    ..session.ratchet
                })
                &&& after.prekey_header is None
                &&& session.prekey_header is Some ==> after.prekey_expires_at is None
            }
        },
{
    crate::crypto::guarantees::lemma_labels();
    if manager.sessions@.contains_key(peer@) {
        let session = manager.sessions@[peer@]@;
        let identity = ed25519_public(manager.identity@);
        lemma_next_context(identity, session);
        if let Ok((after, envelope)) = out {
            lemma_sealed(envelope, identity, session, text@);
        }
    }
}

proof fn lemma_sealed(
    envelope: EncryptedEnvelope,
    identity: Seq<u8>,
    session: PeerModel,
    text: Seq<u8>,
)
    requires
        super::encrypting::seals(envelope, identity, session, text),
    ensures
        ({
            let ratchet = match envelope.header {
                MessageHeader::PreKey { ratchet, .. } => ratchet,
                MessageHeader::Ratchet(ratchet) => ratchet,
            };
            &&& base64_bytes(ratchet.ratchet_key@) == Some(session.ratchet.our_public)
            &&& ratchet.message_number == session.ratchet.send_count
            &&& ratchet.previous_chain_length == session.ratchet.previous_send_count
            &&& base64_bytes(envelope.ciphertext@) == Some(
                crate::crypto::aead::sealed(
                    crate::crypto::kdf::message_key_of(session.ratchet.sending->0),
                    text,
                    super::encrypting::sending_context(identity, session) + (
                    session.ratchet.our_public + be32(ratchet.previous_chain_length) + be32(
                        ratchet.message_number,
                    )),
                ),
            )
        }),
{
}

/// A message is encrypted in the session with its peer, and waits behind all
/// other requests as it is sent, under its identifier; the session moves on,
/// and nothing else changes.
pub proof fn law_message_is_encrypted(
    manager: &mut CryptoManager,
    peer: &str,
    recipient: &UserId,
    id: &MessageId,
    text: &[u8],
    sealed: Result<(PeerSession, EncryptedEnvelope), CryptoError>,
    out: Result<(ClientMessage, Change), CryptoError>,
    undo: Change,
)
    requires
        call_ensures(CryptoManager::advance_encryption, (&*old(manager), peer, text), sealed),
        call_ensures(
            CryptoManager::encrypt_message,
            (&*old(manager), peer, recipient, id, text),
            out,
        ),
        out matches Ok((_, change)) ==> call_ensures(
            CryptoManager::commit,
            (manager, change),
            undo,
        ),
    ensures
        ({
            let room = room_for(old(manager).pending_outbound@, text@.len());
            &&& !room ==> (out matches Err(error) && error is OutboxFull)
            &&& room ==> (out is Ok <==> sealed is Ok)
            &&& room && sealed is Err ==> out->Err_0 == sealed->Err_0
            &&& out matches Ok((request, _)) ==> {
                let session = final(manager).sessions@[peer@];
                &&& request matches ClientMessage::SendMessage { recipient_id, message_id, envelope }
                    && recipient_id == *recipient && message_id == *id && final(manager).pending_outbound@ == old(manager).pending_outbound@.push(
                    PendingOutbound::Message { recipient_id, message_id, envelope },
                ) && envelope.version == 2 && super::encrypting::seals(
                    envelope,
                    ed25519_public(old(manager).identity@),
                    old(manager).sessions@[peer@]@,
                    text@,
                )
                &&& final(manager).sessions@ == old(manager).sessions@.insert(peer@, session)
                &&& session@ == (sealed->Ok_0).0@
                &&& final(manager).processed_messages@ == old(manager).processed_messages@
                &&& keeps_keys(*old(manager), *final(manager))
            }
        }),
{
    super::keeping::lemma_room(old(manager).pending_outbound@, text@.len());
    if let Ok((_, change)) = out {
        lemma_put_session(*old(manager), change, *final(manager), peer@);
        lemma_kept(*old(manager), change, *final(manager));
    }
}

/// A read receipt names the first hundred messages that it is for, as a JSON
/// list of their identifiers, encrypted as a message is; it waits behind all
/// other requests as it is sent, under a new identifier.
pub proof fn law_receipt_is_encrypted(
    manager: &mut CryptoManager,
    peer: &str,
    recipient: &UserId,
    ids: &Vec<MessageId>,
    out: Result<(ClientMessage, Change), CryptoError>,
    undo: Change,
    names: Seq<Seq<char>>,
)
    requires
        call_ensures(
            CryptoManager::encrypt_read_receipt,
            (&*old(manager), peer, recipient, ids),
            out,
        ),
        out matches Ok((_, change)) ==> call_ensures(
            CryptoManager::commit,
            (manager, change),
            undo,
        ),
        names.len() == (if ids@.len() < 100 {
            ids@.len()
        } else {
            100
        }),
        forall|i: int| 0 <= i < names.len() ==> #[trigger] names[i] == uuid_text(ids@[i]@),
    ensures
        out is Ok ==> room_for(old(manager).pending_outbound@, json_list(names).len()) && old(manager).sessions@.contains_key(peer@) && (json_list(names).len() + 18) / 3 * 4
            <= 524_288,
        (json_list(names).len() + 18) / 3 * 4 > 524_288 ==> (out matches Err(error) && error
            is RatchetFailed),
        (json_list(names).len() + 18) / 3 * 4 <= 524_288 && !room_for(
            old(manager).pending_outbound@,
            json_list(names).len(),
        ) ==> (out matches Err(error) && error is OutboxFull),
        (json_list(names).len() + 18) / 3 * 4 <= 524_288 && room_for(
            old(manager).pending_outbound@,
            json_list(names).len(),
        ) && !old(manager).sessions@.contains_key(peer@) ==> (out matches Err(error) && error
            is NoSession),
        out matches Ok((request, _)) ==> {
            let session = final(manager).sessions@[peer@];
            &&& request matches ClientMessage::SendReadReceipt { recipient_id, receipt_id, envelope }
                && recipient_id == *recipient && is_random_uuid(receipt_id@) && final(manager).pending_outbound@ == old(manager).pending_outbound@.push(
                PendingOutbound::ReadReceipt { recipient_id, receipt_id, envelope },
            ) && super::encrypting::seals(
                envelope,
                ed25519_public(old(manager).identity@),
                old(manager).sessions@[peer@]@,
                json_list(names),
            )
            &&& final(manager).sessions@ == old(manager).sessions@.insert(peer@, session)
            &&& session@.ratchet.send_count == old(manager).sessions@[peer@]@.ratchet.send_count + 1
            &&& session.prekey_header is None
            &&& final(manager).processed_messages@ == old(manager).processed_messages@
            &&& keeps_keys(*old(manager), *final(manager))
        },
{
    assert(super::encrypting::id_texts(super::encrypting::capped(ids@)) =~= names);
    super::keeping::lemma_room(old(manager).pending_outbound@, json_list(names).len());
    if let Ok((_, change)) = out {
        lemma_put_session(*old(manager), change, *final(manager), peer@);
        lemma_kept(*old(manager), change, *final(manager));
    }
}

/// An envelope can be read exactly if its keys are 32 bytes and its ciphertext
/// bytes, whatever its numbers; it stands for those bytes and numbers.
pub proof fn law_envelope_is_read(
    envelope: &EncryptedEnvelope,
    out: Result<ParsedEnvelope, CryptoError>,
)
    requires
        call_ensures(parse_envelope, (envelope,), out),
    ensures
        ({
            let ratchet = match envelope.header {
                MessageHeader::PreKey { ratchet, .. } => ratchet,
                MessageHeader::Ratchet(ratchet) => ratchet,
            };
            &&& out is Ok <==> stands_for_so_many(ratchet.ratchet_key@, 32) && base64_bytes(
                envelope.ciphertext@,
            ) is Some && (match envelope.header {
                MessageHeader::PreKey { sender_identity_key, sender_ephemeral_key, .. } =>
                    stands_for_so_many(sender_identity_key@, 32) && stands_for_so_many(
                    sender_ephemeral_key@,
                    32,
                ),
                MessageHeader::Ratchet(_) => true,
            })
            &&& out matches Ok(parsed) ==> {
                &&& base64_bytes(ratchet.ratchet_key@) == Some(parsed.header.ratchet_key@)
                &&& parsed.header.message_number == ratchet.message_number
                &&& parsed.header.previous_chain_length == ratchet.previous_chain_length
                &&& base64_bytes(envelope.ciphertext@) == Some(parsed.ciphertext@)
                &&& match envelope.header {
                    MessageHeader::PreKey {
                        sender_identity_key,
                        sender_ephemeral_key,
                        recipient_signed_prekey_id,
                        recipient_one_time_prekey_id,
                        ..
                    } => parsed.first matches Some(first) && base64_bytes(sender_identity_key@)
                        == Some(first.sender_identity_key@) && base64_bytes(sender_ephemeral_key@)
                        == Some(first.sender_ephemeral_key@) && first.signed_prekey_id
                        == recipient_signed_prekey_id && first.one_time_prekey_id
                        == recipient_one_time_prekey_id,
                    MessageHeader::Ratchet(_) => parsed.first is None,
                }
            }
        }),
{
}

/// The signed pre-keys that may be answered with: the one in use, then those
/// before it.
pub open spec fn answerable(manager: CryptoManager, i: int) -> SignedPreKey {
    match manager.stored_spk {
        Some(current) => if i == 0 {
            current
        } else {
            manager.previous_spks@[i - 1]
        },
        None => manager.previous_spks@[i],
    }
}

/// A first message is answered exactly if the keys that it names are there: the
/// signed pre-key that is found first under its number, and the one-time
/// pre-key if it names one. The session goes out of the agreement over them.
pub proof fn law_first_message_is_answered(
    manager: &CryptoManager,
    first: &FirstContact,
    out: Result<SessionState, CryptoError>,
    at: int,
)
    requires
        call_ensures(CryptoManager::create_bob_session, (manager, first), out),
        0 <= at < manager.previous_spks@.len() + (if manager.stored_spk is Some {
            1int
        } else {
            0
        }),
        answerable(*manager, at).spec_key_id() == first.signed_prekey_id,
        forall|i: int|
            0 <= i < at ==> (#[trigger] answerable(*manager, i)).spec_key_id()
                != first.signed_prekey_id,
    ensures
        out is Ok <==> ed25519_decodes(first.sender_identity_key@) && (
        first.one_time_prekey_id matches Some(id) ==> manager.stored_opks@.contains_key(id)),
        out matches Err(error) ==> error is BadEnvelope,
        out matches Ok(state) ==> {
            let signed = answerable(*manager, at);
            &&& state.root_key@ == agreed(
                x25519(signed.spec_secret(), ed25519_montgomery(first.sender_identity_key@)),
                x25519(ed25519_scalar(manager.identity@), first.sender_ephemeral_key@),
                x25519(signed.spec_secret(), first.sender_ephemeral_key@),
                match first.one_time_prekey_id {
                    Some(id) => x25519(
                        manager.stored_opks@[id].spec_secret(),
                        first.sender_ephemeral_key@,
                    ),
                    None => Seq::empty(),
                },
            )
            &&& state@.our_secret == signed.spec_secret()
            &&& state@.our_public == signed.spec_public()
            &&& state@.theirs is None && state@.sending is None && state@.receiving is None
            &&& state@.send_count == 0 && state@.recv_count == 0
        },
{
    crate::crypto::guarantees::lemma_labels();
    let keys = manager.signed_prekeys();
    assert forall|i: int| 0 <= i < keys.len() implies #[trigger] keys[i] == answerable(
        *manager,
        i,
    ) by {}
    assert forall|i: int| 0 <= i < at implies (#[trigger] keys[i]).spec_key_id()
        != first.signed_prekey_id by {
        assert(answerable(*manager, i).spec_key_id() != first.signed_prekey_id);
    }
    lemma_found_key(keys, first.signed_prekey_id, at);
}

proof fn lemma_found_key(keys: Seq<SignedPreKey>, id: u32, at: int)
    requires
        0 <= at < keys.len(),
        keys[at].spec_key_id() == id,
        forall|i: int| 0 <= i < at ==> (#[trigger] keys[i]).spec_key_id() != id,
    ensures
        super::decrypting::key_with_id(keys, id) == Some(keys[at]),
    decreases keys.len(),
{
    if at > 0 {
        assert(keys[0].spec_key_id() != id);
        let rest = keys.drop_first();
        assert forall|i: int| 0 <= i < at - 1 implies (#[trigger] rest[i]).spec_key_id() != id by {
            assert(keys[i + 1].spec_key_id() != id);
        }
        lemma_found_key(rest, id, at - 1);
    }
}

/// What is shown of a message is its text, or that it is none.
pub proof fn law_text_is_shown(plain: &Vec<u8>, out: String)
    requires
        call_ensures(text_to_show, (plain,), out),
    ensures
        vstd::utf8::valid_utf8(plain@) ==> out@ == vstd::utf8::decode_utf8(plain@),
        !vstd::utf8::valid_utf8(plain@) ==> out@ == "[invalid utf-8]"@,
{
}

/// A message of another protocol version is refused, one that was read is not
/// read again, and one that was read and not stored gives its text again; the
/// state stays as it was.
pub proof fn law_known_message(
    manager: &mut CryptoManager,
    peer: &str,
    id: &MessageId,
    envelope: &EncryptedEnvelope,
    now: u64,
    out: (InboundDecrypt, Option<Change>),
)
    requires
        call_ensures(
            CryptoManager::decrypt_message_to_text,
            (manager, peer, id, envelope, now),
            out,
        ),
        envelope.version != 2 || old(manager).processed_messages@.contains_key(
            (peer@, uuid_text(id@)),
        ),
    ensures
        *final(manager) == *old(manager),
        out.1 is None,
        envelope.version != 2 ==> out.0 is Failed,
        envelope.version == 2 ==> match old(manager).processed_messages@[(
            peer@,
            uuid_text(id@),
        )].pending_plaintext {
            Some(text) => out.0 matches InboundDecrypt::Pending(shown) && shown@ == text@,
            None => out.0 is Duplicate,
        },
{
}

/// A message that was not read yet is read once in the session with its sender:
/// when it is committed the text is in the ledger, read now, so that it is not
/// read again; the session has moved on; a one-time pre-key that the first
/// message named is gone; and nothing else has changed, but that the ledger has
/// forgotten what is too old.
pub proof fn law_new_message(
    manager: &mut CryptoManager,
    peer: &str,
    id: &MessageId,
    envelope: &EncryptedEnvelope,
    now: u64,
    out: (InboundDecrypt, Option<Change>),
    later: &mut CryptoManager,
    undo: Change,
    parsed: Result<ParsedEnvelope, CryptoError>,
)
    requires
        call_ensures(
            CryptoManager::decrypt_message_to_text,
            (manager, peer, id, envelope, now),
            out,
        ),
        envelope.version == 2,
        !old(manager).processed_messages@.contains_key((peer@, uuid_text(id@))),
        *old(later) == *final(manager),
        out.1 matches Some(change) ==> call_ensures(
            CryptoManager::commit,
            (later, change),
            undo,
        ),
        call_ensures(parse_envelope, (envelope,), parsed),
    ensures
        out.0 !is Duplicate,
        out.0 is Pending <==> out.1 is Some,
        parsed is Err ==> out.0 is Failed,
        final(manager).processed_messages@.len() >= 10_000 ==> out.0 is Failed,
        forall|key: (Seq<char>, Seq<char>)| #[trigger]
            final(manager).processed_messages@.contains_key(key) <==> old(manager).processed_messages@.contains_key(key) && old(manager).processed_messages@[key].processed_at + 31 * 24 * 3600 >= now,
        final(manager).sessions@ == old(manager).sessions@,
        final(manager).pending_outbound@ == old(manager).pending_outbound@,
        keeps_keys(*old(manager), *final(manager)),
        out.0 matches InboundDecrypt::Pending(shown) ==> {
            let key = (peer@, uuid_text(id@));
            let named = match envelope.header {
                MessageHeader::PreKey { recipient_one_time_prekey_id, .. } =>
                    recipient_one_time_prekey_id,
                MessageHeader::Ratchet(_) => None,
            };
            let used = named is Some && !old(manager).sessions@.contains_key(peer@);
            &&& final(later).processed_messages@.contains_key(key)
            &&& final(later).processed_messages@[key].processed_at == now
            &&& final(later).processed_messages@[key].pending_plaintext matches Some(text) && text@
                == shown@
            &&& final(later).processed_messages@.remove(key) == final(manager).processed_messages@.remove(key)
            &&& final(later).sessions@.contains_key(peer@)
            &&& final(later).sessions@.remove(peer@) == old(manager).sessions@.remove(peer@)
            &&& final(later).pending_outbound@ == old(manager).pending_outbound@
            &&& keeps_signed_keys(*old(manager), *final(later))
            &&& used ==> final(later).stored_opks@ == old(manager).stored_opks@.remove(named->0)
            &&& !used ==> final(later).stored_opks@ == old(manager).stored_opks@
            &&& !old(manager).sessions@.contains_key(peer@) ==> envelope.header is PreKey
        },
{
    if let Some(change) = out.1 {
        let key = (peer@, uuid_text(id@));
        let (parsed, fresh, read) = choose|
            parsed: ParsedEnvelope,
            fresh: (Seq<u8>, Seq<u8>),
            read: Result<(Vec<u8>, Change), CryptoError>,
        |
            {
                &&& #[trigger] super::decrypting::stands_for(*envelope, parsed)
                &&& #[trigger] crate::crypto::primitives::dh_pair(fresh.0, fresh.1)
                &&& final(manager).reads(peer@, parsed, Some(key.1), now, fresh, read)
                &&& #[trigger] super::decrypting::shows(read, out)
            };
        lemma_put_session(*old(later), change, *final(later), peer@);
        let entry = change.processed.put@[0];
        assert(entry.0.id() == key);
        assert(change.processed.put@ =~= seq![entry]);
        crate::table::lemma_put_one(
            old(later).processed_messages@,
            change.processed.take@,
            entry,
        );
        assert(final(later).processed_messages@.remove(key) =~= final(manager).processed_messages@.remove(key));
        assert(final(later).sessions@.remove(peer@) =~= old(manager).sessions@.remove(peer@));
        let taken = change.one_time_prekeys.take@;
        if taken.len() == 1 {
            assert(taken =~= seq![taken[0]]);
            crate::table::lemma_take_one(
                old(later).stored_opks@,
                taken[0],
                change.one_time_prekeys.put@,
            );
        } else {
            assert(change.one_time_prekeys.applied(old(later).stored_opks@) =~= old(later).stored_opks@);
        }
    }
}

/// What is known of the peers is what is kept: who has a session, whose keys
/// are waited for, and whether the user is registered.
pub proof fn law_peers_are_known(
    manager: &CryptoManager,
    peer: &str,
    has: bool,
    waits: bool,
    unregistered: bool,
    names: Vec<String>,
    i: int,
    j: int,
)
    requires
        call_ensures(CryptoManager::has_session, (manager, peer), has),
        call_ensures(CryptoManager::is_pending, (manager, peer), waits),
        call_ensures(CryptoManager::needs_registration, (manager,), unregistered),
        call_ensures(CryptoManager::session_peers, (manager,), names),
        0 <= i < j < names@.len(),
    ensures
        has <==> manager.sessions@.contains_key(peer@),
        waits <==> manager.pending_inits@.contains_key(peer@),
        unregistered <==> manager.stored_spk is None,
        manager.sessions@.contains_key(peer@) <==> exists|k: int|
            0 <= k < names@.len() && (#[trigger] names@[k])@ == peer@,
        names@[i]@ != names@[j]@,
        crate::bytes::lex_le(
            vstd::utf8::encode_utf8(names@[i]@),
            vstd::utf8::encode_utf8(names@[j]@),
        ),
{
    assert(super::sessions::has_name(names@, peer@) <==> manager.sessions@.contains_key(peer@));
}

/// Whose keys are waited for changes by that peer alone, and nothing else does.
pub proof fn law_waiting_for_keys(
    manager: &mut CryptoManager,
    peer: &str,
    other: &mut CryptoManager,
)
    requires
        call_ensures(CryptoManager::add_pending, (manager, peer), ()),
        call_ensures(CryptoManager::remove_pending, (other, peer), ()),
    ensures
        final(manager).pending_inits@ == old(manager).pending_inits@.insert(peer@, ()),
        final(manager).sessions@ == old(manager).sessions@,
        final(manager).pending_outbound@ == old(manager).pending_outbound@,
        final(manager).processed_messages@ == old(manager).processed_messages@,
        keeps_signed_keys(*old(manager), *final(manager)),
        final(manager).stored_opks@ == old(manager).stored_opks@,
        final(other).pending_inits@ == old(other).pending_inits@.remove(peer@),
        final(other).sessions@ == old(other).sessions@,
        final(other).pending_outbound@ == old(other).pending_outbound@,
        final(other).processed_messages@ == old(other).processed_messages@,
        keeps_signed_keys(*old(other), *final(other)),
        final(other).stored_opks@ == old(other).stored_opks@,
{
}

/// A message is read in the session with its sender, or in the one that a first
/// message starts: the text is what that session makes of it, and the session
/// is kept as it is afterwards. A message that cannot be read leaves nothing.
pub proof fn law_message_is_read_in_its_session(
    manager: &mut CryptoManager,
    peer: &str,
    parsed: &ParsedEnvelope,
    now: u64,
    fresh: RatchetKeyPair,
    out: Result<(Vec<u8>, Change), CryptoError>,
    undo: Change,
    state: &mut SessionState,
    sealed: &[u8],
    context: &[u8],
    read: Result<Vec<u8>, crate::crypto::error::CryptoError>,
    answered: Result<SessionState, CryptoError>,
)
    requires
        call_ensures(
            CryptoManager::decrypt_parsed,
            (&*old(manager), peer, parsed, None, now, fresh),
            out,
        ),
        out matches Ok((_, change)) ==> call_ensures(
            CryptoManager::commit,
            (manager, change),
            undo,
        ),
        sealed@ == parsed.ciphertext@,
        context@ == parsed.context@,
        call_ensures(
            crate::crypto::ratchet::decrypt_with,
            (state, &parsed.header, sealed, context, Some(fresh)),
            read,
        ),
        parsed.first matches Some(first) ==> call_ensures(
            CryptoManager::create_bob_session,
            (&*old(manager), &first),
            answered,
        ),
        old(manager).sessions@.contains_key(peer@) ==> old(state)@ == old(manager).sessions@[peer@]@.ratchet,
        !old(manager).sessions@.contains_key(peer@) && answered is Ok ==> old(state)@
            == answered->Ok_0@,
    ensures
        ({
            let known = old(manager).sessions@.contains_key(peer@);
            let can = known || (parsed.first is Some && answered is Ok);
            &&& out is Ok <==> can && read is Ok
            &&& !known && parsed.first is None ==> (out matches Err(error) && error is NoSession)
            &&& can && read is Err ==> (out matches Err(error) && error is DecryptFailed)
            &&& out matches Ok((text, _)) ==> {
                let session = final(manager).sessions@[peer@];
                &&& text@ == read->Ok_0@
                &&& session@.ratchet == final(state)@
                &&& final(manager).sessions@ == old(manager).sessions@.insert(peer@, session)
                &&& known ==> session.prekey_header == old(manager).sessions@[peer@].prekey_header && final(manager).stored_opks@ == old(manager).stored_opks@
                &&& !known ==> session.prekey_header is None
                &&& final(manager).pending_outbound@ == old(manager).pending_outbound@
                &&& final(manager).processed_messages@ == old(manager).processed_messages@
                &&& keeps_signed_keys(*old(manager), *final(manager))
            }
        }),
{
    if let Ok((_, change)) = out {
        lemma_put_session(*old(manager), change, *final(manager), peer@);
        assert(change.processed.applied(old(manager).processed_messages@) =~= old(manager).processed_messages@);
        if old(manager).sessions@.contains_key(peer@) {
            assert(change.one_time_prekeys.applied(old(manager).stored_opks@) =~= old(manager).stored_opks@);
        }
    }
}

/// Nothing of another protocol version is read, nothing beyond ten thousand
/// messages that are remembered, and nothing that is no envelope.
pub proof fn law_what_is_not_read(
    manager: &mut CryptoManager,
    peer: &str,
    envelope: &EncryptedEnvelope,
    marker: Option<&str>,
    now: u64,
    out: Result<(Vec<u8>, Change), CryptoError>,
    parsed: Result<ParsedEnvelope, CryptoError>,
)
    requires
        call_ensures(
            CryptoManager::decrypt_with_marker,
            (manager, peer, envelope, marker, now),
            out,
        ),
        call_ensures(parse_envelope, (envelope,), parsed),
    ensures
        envelope.version != 2 ==> (out matches Err(error) && error
            == CryptoError::UnsupportedVersion(envelope.version)) && *final(manager) == *old(manager),
        ({
            let full = marker is Some && final(manager).processed_messages@.len() >= 10_000;
            &&& envelope.version == 2 && full ==> (out matches Err(error) && error
                is ReplayLedgerFull)
            &&& envelope.version == 2 && !full && parsed is Err ==> out is Err && out->Err_0
                == parsed->Err_0
        }),
        out matches Ok((_, change)) ==> (marker matches Some(id) ==> change.processed.put@.len()
            == 1 && change.processed.put@[0].0.0@ == peer@ && change.processed.put@[0].0.1@ == id@
            && change.processed.put@[0].1.processed_at == now),
        out matches Ok((_, change)) ==> (marker is None ==> change.processed.put@.len() == 0),
        final(manager).sessions@ == old(manager).sessions@,
        final(manager).pending_outbound@ == old(manager).pending_outbound@,
        keeps_keys(*old(manager), *final(manager)),
{
}

/// A session is started with fresh keys exactly with a complete bundle whose
/// signed pre-key its identity has signed.
pub proof fn law_fresh_session(
    manager: &CryptoManager,
    peer: &str,
    bundle: &PreKeyBundle,
    now: u64,
    out: Result<Change, CryptoError>,
)
    requires
        call_ensures(CryptoManager::init_session_from_bundle, (manager, peer, bundle, now), out),
    ensures
        out is Ok <==> complete(*bundle) && ed25519_verifies(
            base64_bytes(bundle.identity_key@)->0,
            base64_bytes(bundle.signed_prekey@)->0,
            base64_bytes(bundle.signed_prekey_signature@)->0,
        ),
        !complete(*bundle) ==> (out matches Err(error) && error is BadBundle),
        out matches Ok(change) ==> change.sessions.put@.len() == 1 && change.sessions.put@[0].0@
            == peer@ && change.sessions.take@.len() == 0 && (
        change.sessions.put@[0].1.prekey_header matches Some(first)
            && first.recipient_signed_prekey_id == bundle.signed_prekey_id) && (now + 3600
            <= u64::MAX ==> change.sessions.put@[0].1.prekey_expires_at == Some(
            (now + 3600) as u64,
        )),
{
}

/// The own identity key is shown in base64.
pub proof fn law_own_key_is_shown(manager: &CryptoManager, out: String)
    requires
        call_ensures(CryptoManager::local_identity_key_b64, (manager,), out),
    ensures
        base64_bytes(out@) == Some(ed25519_public(manager.identity@)),
{
}

} // verus!
