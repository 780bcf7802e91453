//! What users of the client may rely on: a message that one client sends, the
//! other reads as it was written; a message is not read twice; a one-time
//! pre-key serves once; and what a client keeps is bounded.

use super::crypto_mgr::{Change, CryptoManager};
use super::decrypting::{FirstContact, ParsedEnvelope};
use super::outbox::PendingOutbound;
use super::prekeys::MAX_PREVIOUS_SIGNED_PREKEYS;
use crate::protocol::consts::{MAX_PENDING_OUTBOUND_BYTES, MAX_PENDING_OUTBOUND_ITEMS};
use crate::protocol::{ClientMessage, EncryptedEnvelope, PreKeyBundle};
use crate::table::TableKey;
use vstd::prelude::*;

verus! {

use super::crypto_mgr::PeerModel;
use super::decrypting::{key_with_id, parse_fault, shown_text, stands_for};
use super::encrypting::{after_sending, seals, sending_context};
use super::outbox::{has_capacity, total_weight};
use super::sessions::starts;
use crate::crypto::conversation::{
    ahead, follows, has_room, law_delivery_across_turn, law_delivery_in_chain, law_first_contact,
};
use crate::crypto::keys::{identity_converts, SignedPreKey};
use crate::crypto::out_of_order::{keeps, law_kept_key_reads};
use crate::crypto::primitives::{dh_pair, ed25519_decodes, ed25519_public, ed25519_scalar};
use crate::crypto::ratchet::{RatchetHeader, SessionModel};
use crate::crypto::x3dh::law_x3dh_agreement;
use crate::encoding::{base64_bytes, encodes};
use crate::table::{has_key, key_position, listed};

/// What holds of every identity.
pub open spec fn sound_identity(seed: Seq<u8>) -> bool {
    &&& identity_converts(seed)
    &&& ed25519_scalar(seed).len() == 32
    &&& ed25519_decodes(ed25519_public(seed))
}

/// `bundle` offers keys that `owner` holds the secrets of.
pub open spec fn offered_by(bundle: PreKeyBundle, owner: CryptoManager) -> bool {
    &&& base64_bytes(bundle.identity_key@) == Some(owner.spec_identity_public())
    &&& key_with_id(owner.signed_prekeys(), bundle.signed_prekey_id) matches Some(signed)
        && signed.wf() && base64_bytes(bundle.signed_prekey@) == Some(signed.spec_public())
    &&& bundle.one_time_prekey matches Some(key) ==> owner.stored_opks@.contains_key(key.key_id)
        && owner.stored_opks@[key.key_id].wf() && base64_bytes(key.public_key@) == Some(
        owner.stored_opks@[key.key_id].spec_public(),
    )
}

proof fn lemma_same_header(
    session: SessionModel,
    text: Seq<u8>,
    context: Seq<u8>,
    header: RatchetHeader,
    read: RatchetHeader,
    ciphertext: Seq<u8>,
)
    requires
        session.sends(text, context, header, ciphertext),
        read.ratchet_key@ == header.ratchet_key@,
        read.previous_chain_length == header.previous_chain_length,
        read.message_number == header.message_number,
    ensures
        session.sends(text, context, read, ciphertext),
{
}

/// The envelope that a session sends, out of its text form.
proof fn lemma_carried(
    identity_public: Seq<u8>,
    session: PeerModel,
    text: Seq<u8>,
    envelope: EncryptedEnvelope,
    parsed: ParsedEnvelope,
)
    requires
        seals(envelope, identity_public, session, text),
        stands_for(envelope, parsed),
    ensures
        session.ratchet.sends(text, parsed.context@, parsed.header, parsed.ciphertext@),
        match session.prekey_header {
            Some(first) => parsed.first matches Some(contact) && contact.sender_identity_key@
                == identity_public && contact.sender_ephemeral_key@ == first.ephemeral_public@
                && contact.signed_prekey_id == first.recipient_signed_prekey_id
                && contact.one_time_prekey_id == first.recipient_one_time_prekey_id,
            None => parsed.first is None,
        },
{
    let (header, ciphertext) = choose|header: RatchetHeader, ciphertext: Seq<u8>|
        {
            &&& #[trigger] session.ratchet.sends(
                text,
                sending_context(identity_public, session),
                header,
                ciphertext,
            )
            &&& encodes(envelope.ciphertext@, ciphertext)
            &&& super::encrypting::wire_header(
                envelope.header,
                session.prekey_header,
                identity_public,
                header,
            )
            &&& envelope.version == crate::protocol::consts::PROTOCOL_VERSION
        };
    assert(parsed.context@ == sending_context(identity_public, session));
    lemma_same_header(
        session.ratchet,
        text,
        parsed.context@,
        header,
        parsed.header,
        ciphertext,
    );
}

/// A first message arrives: what one client encrypts in a session that it
/// started with another's pre-keys, that other reads as it was written, and
/// can then answer, unless it drew the key again that it is already known by.
pub proof fn law_first_message_arrives(
    alice: CryptoManager,
    bob: CryptoManager,
    alice_name: Seq<char>,
    bundle: PreKeyBundle,
    ephemeral: (Seq<u8>, Seq<u8>),
    pair: (Seq<u8>, Seq<u8>),
    started: u64,
    session: PeerModel,
    text: Seq<u8>,
    envelope: EncryptedEnvelope,
    parsed: ParsedEnvelope,
    fresh: (Seq<u8>, Seq<u8>),
)
    requires
        sound_identity(alice.spec_identity()),
        sound_identity(bob.spec_identity()),
        offered_by(bundle, bob),
        dh_pair(ephemeral.0, ephemeral.1),
        dh_pair(pair.0, pair.1),
        starts(session, alice.spec_identity(), bundle, ephemeral, pair, started),
        seals(envelope, alice.spec_identity_public(), session, text),
        stands_for(envelope, parsed),
        !bob.sessions@.contains_key(alice_name),
        dh_pair(fresh.0, fresh.1),
    ensures
        bob.receiving_session(alice_name, parsed) is Ok,
        bob.receiving_session(alice_name, parsed)->Ok_0.ratchet.receive(
            parsed.header,
            parsed.ciphertext@,
            parsed.context@,
            fresh,
        ) matches Ok((read, after)) && read == text && follows(
            after,
            session.ratchet.after_send(),
        ) && (session.ratchet.theirs != Some(fresh.1) ==> ahead(
            after,
            session.ratchet.after_send(),
        )),
{
    lemma_carried(alice.spec_identity_public(), session, text, envelope, parsed);
    let signed = key_with_id(bob.signed_prekeys(), bundle.signed_prekey_id)->0;
    let one_time = match bundle.one_time_prekey {
        Some(key) => Some(
            (
                bob.stored_opks@[key.key_id].spec_secret(),
                bob.stored_opks@[key.key_id].spec_public(),
            ),
        ),
        None => None,
    };
    law_x3dh_agreement(
        alice.spec_identity(),
        ephemeral.0,
        ephemeral.1,
        bob.spec_identity(),
        signed.spec_secret(),
        signed.spec_public(),
        one_time,
    );
    let received = bob.receiving_session(alice_name, parsed)->Ok_0.ratchet;
    law_first_contact(
        received.root,
        pair.0,
        pair.1,
        signed.spec_secret(),
        signed.spec_public(),
    );
    assert(ahead(session.ratchet, received));
    law_delivery_across_turn(
        session.ratchet,
        received,
        text,
        parsed.context@,
        parsed.header,
        parsed.ciphertext@,
        fresh,
    );
}

/// A later message arrives: where the reader follows the sender, what is
/// encrypted is read as it was written, also if messages before it are missing.
pub proof fn law_message_arrives(
    alice: CryptoManager,
    bob: CryptoManager,
    alice_name: Seq<char>,
    bob_name: Seq<char>,
    text: Seq<u8>,
    envelope: EncryptedEnvelope,
    parsed: ParsedEnvelope,
    fresh: (Seq<u8>, Seq<u8>),
)
    requires
        alice.sessions@.contains_key(bob_name),
        bob.sessions@.contains_key(alice_name),
        seals(envelope, alice.spec_identity_public(), alice.sessions@[bob_name]@, text),
        stands_for(envelope, parsed),
        follows(bob.sessions@[alice_name]@.ratchet, alice.sessions@[bob_name]@.ratchet),
        has_room(
            bob.sessions@[alice_name]@.ratchet,
            alice.sessions@[bob_name]@.ratchet.send_count,
        ),
        alice.sessions@[bob_name]@.ratchet.send_count < u32::MAX,
        !bob.sessions@[alice_name]@.ratchet.skipped.contains_key(parsed.header.slot()),
    ensures
        bob.receiving_session(alice_name, parsed) is Ok,
        bob.receiving_session(alice_name, parsed)->Ok_0.ratchet.receive(
            parsed.header,
            parsed.ciphertext@,
            parsed.context@,
            fresh,
        ) matches Ok((read, after)) && read == text && follows(
            after,
            after_sending(alice.sessions@[bob_name]@).ratchet,
        ),
{
    let session = alice.sessions@[bob_name]@;
    lemma_carried(alice.spec_identity_public(), session, text, envelope, parsed);
    law_delivery_in_chain(
        session.ratchet,
        bob.sessions@[alice_name]@.ratchet,
        text,
        parsed.context@,
        parsed.header,
        parsed.ciphertext@,
        fresh,
    );
}

/// An answer arrives: where the sender has turned the ratchet towards the
/// reader, as it has once it read the reader's messages, what is encrypted is
/// read as it was written, and the reader can answer in turn, unless it drew
/// the key again that it is already known by.
pub proof fn law_reply_arrives(
    alice: CryptoManager,
    bob: CryptoManager,
    alice_name: Seq<char>,
    bob_name: Seq<char>,
    text: Seq<u8>,
    envelope: EncryptedEnvelope,
    parsed: ParsedEnvelope,
    fresh: (Seq<u8>, Seq<u8>),
)
    requires
        alice.sessions@.contains_key(bob_name),
        bob.sessions@.contains_key(alice_name),
        seals(envelope, alice.spec_identity_public(), alice.sessions@[bob_name]@, text),
        stands_for(envelope, parsed),
        ahead(alice.sessions@[bob_name]@.ratchet, bob.sessions@[alice_name]@.ratchet),
        dh_pair(fresh.0, fresh.1),
        alice.sessions@[bob_name]@.ratchet.send_count < u32::MAX,
        !bob.sessions@[alice_name]@.ratchet.skipped.contains_key(parsed.header.slot()),
        // Room for the rest of the old chain and for the start of the new one.
        bob.sessions@[alice_name]@.ratchet.on_chain(parsed.header, fresh) matches Some(turned)
            && has_room(turned, alice.sessions@[bob_name]@.ratchet.send_count),
    ensures
        bob.receiving_session(alice_name, parsed) is Ok,
        bob.receiving_session(alice_name, parsed)->Ok_0.ratchet.receive(
            parsed.header,
            parsed.ciphertext@,
            parsed.context@,
            fresh,
        ) matches Ok((read, after)) && read == text && follows(
            after,
            after_sending(alice.sessions@[bob_name]@).ratchet,
        ) && (alice.sessions@[bob_name]@.ratchet.theirs != Some(fresh.1) ==> ahead(
            after,
            after_sending(alice.sessions@[bob_name]@).ratchet,
        )),
{
    let session = alice.sessions@[bob_name]@;
    lemma_carried(alice.spec_identity_public(), session, text, envelope, parsed);
    law_delivery_across_turn(
        session.ratchet,
        bob.sessions@[alice_name]@.ratchet,
        text,
        parsed.context@,
        parsed.header,
        parsed.ciphertext@,
        fresh,
    );
}

/// A late message arrives: where the reader has kept the key of what `sender`
/// encrypted, it is read as it was written. Of the reader's session only that
/// key is gone.
pub proof fn law_late_message_arrives(
    alice: CryptoManager,
    sender: PeerModel,
    bob: CryptoManager,
    alice_name: Seq<char>,
    text: Seq<u8>,
    envelope: EncryptedEnvelope,
    parsed: ParsedEnvelope,
    fresh: (Seq<u8>, Seq<u8>),
)
    requires
        bob.sessions@.contains_key(alice_name),
        seals(envelope, alice.spec_identity_public(), sender, text),
        stands_for(envelope, parsed),
        keeps(bob.sessions@[alice_name]@.ratchet, sender.ratchet),
    ensures
        bob.receiving_session(alice_name, parsed) is Ok,
        bob.receiving_session(alice_name, parsed)->Ok_0.ratchet.receive(
            parsed.header,
            parsed.ciphertext@,
            parsed.context@,
            fresh,
        ) matches Ok((read, after)) && read == text && after == (SessionModel {
            skipped: bob.sessions@[alice_name]@.ratchet.skipped.remove(parsed.header.slot()),
            ..bob.sessions@[alice_name]@.ratchet
        }),
{
    lemma_carried(alice.spec_identity_public(), sender, text, envelope, parsed);
    law_kept_key_reads(
        sender.ratchet,
        bob.sessions@[alice_name]@.ratchet,
        text,
        parsed.context@,
        parsed.header,
        parsed.ciphertext@,
        fresh,
    );
}

/// An envelope that a client sends can be parsed.
pub proof fn law_sent_is_well_formed(
    identity_public: Seq<u8>,
    session: PeerModel,
    text: Seq<u8>,
    envelope: EncryptedEnvelope,
)
    requires
        seals(envelope, identity_public, session, text),
        identity_public.len() == 32,
    ensures
        parse_fault(envelope) is None,
{
    let (header, ciphertext) = choose|header: RatchetHeader, ciphertext: Seq<u8>|
        {
            &&& #[trigger] session.ratchet.sends(
                text,
                sending_context(identity_public, session),
                header,
                ciphertext,
            )
            &&& encodes(envelope.ciphertext@, ciphertext)
            &&& super::encrypting::wire_header(
                envelope.header,
                session.prekey_header,
                identity_public,
                header,
            )
        };
    assert(header.ratchet_key@.len() == 32);
    if let Some(first) = session.prekey_header {
        assert(first.ephemeral_public@.len() == 32);
    }
}

/// A message is not read twice: once the change that reading it made is
/// committed, the message is in the ledger with its text, so that a second
/// delivery is answered from there.
pub proof fn law_read_once(
    before: CryptoManager,
    change: Change,
    after: CryptoManager,
    peer: Seq<char>,
    parsed: ParsedEnvelope,
    session: PeerModel,
    text: Seq<u8>,
    id: Seq<char>,
    now: u64,
)
    requires
        before.records(change, peer, parsed, session, text, Some(id), now),
        after.is_changed_by(&before, &change),
    ensures
        after.processed_messages@.contains_key((peer, id)),
        after.processed_messages@[(peer, id)].pending_plaintext matches Some(shown) && shown@
            == shown_text(text),
        after.sessions@.contains_key(peer) && after.sessions@[peer]@ == session,
{
    let key = (peer, id);
    assert(change.processed.put@[0].0.id() == key);
    assert(has_key(change.processed.put@, key));
    assert(key_position(change.processed.put@, key) == 0);
    assert(change.sessions.put@[0].0.id() == peer);
    assert(has_key(change.sessions.put@, peer));
    assert(key_position(change.sessions.put@, peer) == 0);
}

/// A one-time pre-key serves once: after the first message that used it was
/// read, another that names it is refused.
pub proof fn law_one_time_prekey_serves_once(
    before: CryptoManager,
    change: Change,
    after: CryptoManager,
    peer: Seq<char>,
    parsed: ParsedEnvelope,
    session: PeerModel,
    text: Seq<u8>,
    marker: Option<Seq<char>>,
    now: u64,
    again: FirstContact,
)
    requires
        before.records(change, peer, parsed, session, text, marker, now),
        after.is_changed_by(&before, &change),
        !before.sessions@.contains_key(peer),
        parsed.first matches Some(first) && first.one_time_prekey_id is Some
            && again.one_time_prekey_id == first.one_time_prekey_id,
    ensures
        !after.stored_opks@.contains_key(again.one_time_prekey_id->0),
        after.answer(again) is Err,
{
    let id = again.one_time_prekey_id->0;
    assert(change.one_time_prekeys.take@[0].id() == id);
    assert(listed(change.one_time_prekeys.take@, id));
    assert(!has_key(change.one_time_prekeys.put@, id));
}

/// At most `MAX_PREVIOUS_SIGNED_PREKEYS` signed pre-keys stay behind the one
/// in use when it is rotated.
pub proof fn law_signed_prekeys_bounded(
    before: CryptoManager,
    change: Change,
    after: CryptoManager,
    item: PendingOutbound,
    key_id: u32,
    history: Seq<SignedPreKey>,
    now: u64,
)
    requires
        before.rotates_to(change, item, key_id, history, now),
        after.is_changed_by(&before, &change),
    ensures
        after.previous_spks@.len() <= MAX_PREVIOUS_SIGNED_PREKEYS,
        after.stored_spk matches Some(current) && current.spec_key_id() == key_id,
{
}

/// The outbox stays within its limits: a message that fits leaves it with at
/// most `MAX_PENDING_OUTBOUND_ITEMS` items of at most
/// `MAX_PENDING_OUTBOUND_BYTES` bytes together.
pub proof fn law_outbox_bounded(
    pending: Seq<PendingOutbound>,
    item: PendingOutbound,
    identity_public: Seq<u8>,
    session: PeerModel,
    text: Seq<u8>,
)
    requires
        has_capacity(pending, text.len()),
        match item {
            PendingOutbound::Message { envelope, .. } => seals(
                envelope,
                identity_public,
                session,
                text,
            ),
            PendingOutbound::ReadReceipt { envelope, .. } => seals(
                envelope,
                identity_public,
                session,
                text,
            ),
            _ => false,
        },
    ensures
        pending.push(item).len() <= MAX_PENDING_OUTBOUND_ITEMS,
        total_weight(pending.push(item)) <= MAX_PENDING_OUTBOUND_BYTES,
{
    let envelope = match item {
        PendingOutbound::Message { envelope, .. } => envelope,
        PendingOutbound::ReadReceipt { envelope, .. } => envelope,
        _ => arbitrary(),
    };
    vstd::utf8::is_ascii_chars_encode_utf8(envelope.ciphertext@);
    assert(pending.push(item).drop_last() =~= pending);
}

/// New one-time pre-keys do not disturb the order of the keys: each is kept
/// under its own identifier, below the next one.
pub proof fn law_replenishment_keeps_order(
    before: CryptoManager,
    request: ClientMessage,
    change: Change,
    after: CryptoManager,
)
    requires
        before.keys_in_order(),
        before.next_one_time_prekey_id + crate::protocol::consts::PREKEY_TARGET <= u32::MAX,
        before.offers_keys(request, change),
        after.is_changed_by(&before, &change),
    ensures
        after.keys_in_order(),
        forall|id: u32| #[trigger]
            before.stored_opks@.contains_key(id) ==> after.stored_opks@.contains_key(id)
                && after.stored_opks@[id] == before.stored_opks@[id],
{
    let put = change.one_time_prekeys.put@;
    assert forall|id: u32| #[trigger] after.stored_opks@.contains_key(id) implies
        after.stored_opks@[id].spec_key_id() == id && id < after.next_one_time_prekey_id by {
        if has_key(put, id) {
            let i = key_position(put, id);
            assert(put[i].0 == id);
        } else {
            assert(before.stored_opks@.contains_key(id));
        }
    }
    assert forall|id: u32| #[trigger] before.stored_opks@.contains_key(id) implies
        after.stored_opks@.contains_key(id) && after.stored_opks@[id] == before.stored_opks@[id] by {
        if has_key(put, id) {
            let i = key_position(put, id);
            assert(put[i].0 == id);
        }
    }
}

} // verus!
