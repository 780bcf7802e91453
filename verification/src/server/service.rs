//! What becomes of a request, from its first step to its last, stated of the
//! functions that take those steps.

use super::admission::{
    authenticate, finish_login, finish_register, handle_auth_challenge, handle_auth_response, handle_register,
    Admission, Entry,
};
use super::auth::{
    begin_challenge, check_registration, check_response, PendingChallenge, Registration,
};
use super::connection::{replaced_notice, ConnectionRegistry};
use super::datetime::parse_sqlite_datetime;
use super::delivery::{PageStep, Pager, RowStep};
use super::handlers::{malformed_message, Session, StorageError};
use super::prekeys::{FetchResult, SignedPreKeyRotationResult, SignedPreKeyRow, UploadResult};
use super::queue::{envelope_digest, remaining_acceptances, EnqueueResult, QueuedRow};
use super::receipts::EnqueueResult as ReceiptResult;
use super::schema::{check_queued_version, pending_migrations};
use super::serving::{
    fetch_identity_found, fetch_prekey_taken, fetch_signed_found, message_measured, message_pushed,
    message_stored, messages_deleted, prekeys_counted, prekeys_stored, receipt_encoded,
    receipt_stored, receipts_acknowledged, receipts_confirmed, rotation_identity_found,
    sent_confirmed, serve, signed_prekey_stored, NewSignedPreKey, Receipt, Step, Work,
};
use crate::protocol::{
    ClientMessage, EncryptedEnvelope, InboundMessage, MessageHeader, MessageId, OneTimePreKey, PreKeyBundle,
    ServerMessage, UserId,
};
use vstd::prelude::*;
use vstd::string::*;

verus! {

use super::guarantees::{nameable, passable, stands_for_bytes, usable};
use crate::crypto::primitives::{ed25519_decodes, ed25519_verifies};
use crate::encoding::base64_bytes;
use crate::protocol::types::{uuid_text, uuid_value};
use crate::text::digits_sum;

/// The user is answered with an error, and nothing else happens.
pub open spec fn refused_with(step: Step, status: u32) -> bool {
    &&& step.reply matches Some(ServerMessage::Error { code, .. }) && code == status
    &&& step.push@.len() == 0
    &&& step.work is Done
}

/// Nobody is told anything yet.
pub open spec fn silent(step: Step) -> bool {
    step.reply is None && step.push@.len() == 0
}

/// `texts` are the identifiers as the database holds them.
pub open spec fn written_ids(texts: Seq<String>, ids: Seq<MessageId>) -> bool {
    &&& texts.len() == ids.len()
    &&& forall|i: int| 0 <= i < ids.len() ==> (#[trigger] texts[i])@ == uuid_text(ids[i]@)
}

proof fn lemma_written(texts: Seq<String>, ids: Seq<MessageId>)
    requires
        crate::encoding::texts(texts) == super::message::id_texts(ids),
    ensures
        written_ids(texts, ids),
{
    let read = crate::encoding::texts(texts);
    assert(read.len() == texts.len());
    assert(read.len() == super::message::id_texts(ids).len());
    assert forall|i: int| 0 <= i < ids.len() implies (#[trigger] texts[i])@ == uuid_text(
        ids[i]@,
    ) by {
        assert(read[i] == texts[i]@);
        assert(read[i] == super::message::id_texts(ids)[i]);
    }
}

/// A message that can be passed on goes on to its recipient, in the name of the
/// user who sends it; any other is refused and reaches nobody.
pub proof fn law_send_begins(
    user: String,
    recipient: UserId,
    id: MessageId,
    envelope: EncryptedEnvelope,
    now: u64,
    out: Step,
)
    requires
        call_ensures(
            serve,
            (
                user,
                ClientMessage::SendMessage { recipient_id: recipient, message_id: id, envelope },
                now,
            ),
            out,
        ),
    ensures
        passable(envelope) && nameable(user@) ==> silent(out) && (out.work matches Work::Measure {
            recipient: to,
            inbound,
        } && to == recipient && inbound.message_id == id && inbound.sender_id@ == user@
            && inbound.envelope == envelope && inbound.timestamp == now),
        !passable(envelope) ==> refused_with(out, 400),
        passable(envelope) && !nameable(user@) ==> refused_with(out, 500),
{
    super::guarantees::lemma_nameable(user@);
}

/// A message that could be encoded, and would fit alone on a page of the queue,
/// is handed to the database for its recipient; any other is refused.
pub proof fn law_send_is_written_down(
    recipient: UserId,
    inbound: InboundMessage,
    page: Option<usize>,
    json: Option<String>,
    now: u64,
    out: Step,
)
    requires
        call_ensures(message_measured, (recipient, inbound, page, json, now), out),
    ensures
        ({
            let fits = page matches Some(size) && size <= 540_672 && json is Some;
            &&& !fits ==> refused_with(out, 400)
            &&& fits ==> silent(out) && (out.work matches Work::Enqueue {
                recipient: to,
                inbound: same,
                request,
            } && to == recipient && same == inbound && request.recipient_id@ == recipient@
                && request.sender_id@ == inbound.sender_id@ && request.message_id@ == uuid_text(
                inbound.message_id@,
            ) && request.envelope_json == json->0 && request.max_queue_per_user == 10_000
                && request.now == now && match inbound.envelope.header {
                MessageHeader::PreKey {
                    recipient_signed_prekey_id,
                    recipient_one_time_prekey_id,
                    ..
                } => request.signed_prekey_id == Some(recipient_signed_prekey_id)
                    && request.one_time_prekey_id == recipient_one_time_prekey_id,
                MessageHeader::Ratchet(_) => request.signed_prekey_id is None
                    && request.one_time_prekey_id is None,
            })
        }),
{
}

/// A message that the database has is pushed to its recipient as it was sent;
/// of any other its sender alone hears, and not that it was sent.
pub proof fn law_stored_message_is_pushed(
    recipient: UserId,
    inbound: InboundMessage,
    result: Result<EnqueueResult, StorageError>,
    out: Step,
)
    requires
        call_ensures(message_stored, (recipient, inbound, result), out),
    ensures
        ({
            let there = result matches Ok(found) && (found == EnqueueResult::Inserted || found
                == EnqueueResult::Duplicate);
            &&& there ==> silent(out) && (out.work matches Work::Push {
                recipient: to,
                message,
                sender,
                message_id,
            } && to@ == recipient@ && message == ServerMessage::IncomingMessage(inbound) && sender@
                == inbound.sender_id@ && message_id == inbound.message_id)
            &&& !there ==> out.work is Done && out.push@.len() == 0 && (out.reply matches Some(reply)
                && (reply is MessageRejected || reply is Error))
        }),
{
}

/// Every message that is on its way is confirmed to its sender, who hears of
/// the delivery exactly if it was pushed.
pub proof fn law_sender_hears_of_it(sender: String, id: MessageId, pushed: bool, out: Step)
    requires
        call_ensures(message_pushed, (sender, id, pushed), out),
    ensures
        out.reply == Some(ServerMessage::MessageSent { message_id: id }),
        out.work is Done,
        !pushed ==> out.push@.len() == 0,
        pushed ==> out.push@.len() == 1 && out.push@[0].0@ == sender@ && (out.push@[0].1 matches
            ServerMessage::MessageDelivered { message_ids } && message_ids@ == seq![id]),
{
}

/// Up to a thousand messages are acknowledged at a time: exactly those that are
/// named are deleted, for the user who names them.
pub proof fn law_ack_begins(
    user: String,
    ack_id: MessageId,
    ids: Vec<MessageId>,
    now: u64,
    out: Step,
)
    requires
        call_ensures(
            serve,
            (user, ClientMessage::Ack { ack_id, message_ids: ids }, now),
            out,
        ),
    ensures
        ids@.len() > 1000 ==> refused_with(out, 400),
        ids@.len() <= 1000 ==> silent(out) && (out.work matches Work::DeleteMessages {
            user_id,
            ids: texts,
            ack_id: same,
            message_ids,
        } && user_id@ == user@ && same == ack_id && message_ids@ == ids@ && written_ids(
            texts@,
            ids@,
        )),
{
    if ids@.len() <= 1000 {
        lemma_written(out.work->DeleteMessages_ids@, ids@);
    }
}

/// What was acknowledged is said so, under the identifier of the
/// acknowledgement.
pub proof fn law_ack_ends(
    ack_id: MessageId,
    ids: Vec<MessageId>,
    stored: Result<(), StorageError>,
    out: Step,
)
    requires
        call_ensures(messages_deleted, (ack_id, ids, stored), out),
    ensures
        stored is Ok ==> out.reply == Some(ServerMessage::AckSuccess { ack_id, message_ids: ids })
            && out.push@.len() == 0 && out.work is Done,
        stored is Err ==> refused_with(out, 500),
{
}

/// A sender's confirmation of up to a thousand messages is noted for that
/// sender, for exactly those messages, and answered only if it failed.
pub proof fn law_sent_ack(
    user: String,
    ids: Vec<MessageId>,
    now: u64,
    begun: Step,
    stored: Result<(), StorageError>,
    ended: Step,
)
    requires
        call_ensures(serve, (user, ClientMessage::AckMessageSent { message_ids: ids }, now), begun),
        call_ensures(sent_confirmed, (stored,), ended),
    ensures
        ids@.len() > 1000 ==> refused_with(begun, 400),
        ids@.len() <= 1000 ==> silent(begun) && (begun.work matches Work::ConfirmSent {
            user_id,
            ids: texts,
        } && user_id@ == user@ && written_ids(texts@, ids@)),
        stored is Ok ==> silent(ended) && ended.work is Done,
        stored is Err ==> refused_with(ended, 500),
{
    if ids@.len() <= 1000 {
        lemma_written(begun.work->ConfirmSent_ids@, ids@);
    }
}

/// A notice of typing goes to the one who is named, in the user's name, and is
/// neither stored nor answered.
pub proof fn law_typing_is_relayed(user: String, recipient: UserId, now: u64, out: Step)
    requires
        call_ensures(serve, (user, ClientMessage::Typing { recipient_id: recipient }, now), out),
        nameable(user@),
    ensures
        out.reply is None,
        out.work is Done,
        out.push@.len() == 1,
        out.push@[0].0@ == recipient@,
        out.push@[0].1 matches ServerMessage::PeerTyping { sender_id } && sender_id@ == user@,
{
    super::guarantees::lemma_nameable(user@);
}

/// A read receipt that can be passed on is stored for its recipient, with room
/// for 10 000; one that waits is handed over as it was sent, and its sender is
/// answered only where it does not wait.
pub proof fn law_receipt(
    user: String,
    recipient: UserId,
    id: MessageId,
    envelope: EncryptedEnvelope,
    now: u64,
    begun: Step,
    receipt: Receipt,
    json: Option<String>,
    written: Step,
    result: Result<ReceiptResult, StorageError>,
    ended: Step,
)
    requires
        call_ensures(
            serve,
            (
                user,
                ClientMessage::SendReadReceipt {
                    recipient_id: recipient,
                    receipt_id: id,
                    envelope,
                },
                now,
            ),
            begun,
        ),
        call_ensures(receipt_encoded, (receipt, json), written),
        call_ensures(receipt_stored, (receipt, result), ended),
    ensures
        !passable(envelope) ==> refused_with(begun, 400),
        passable(envelope) && nameable(user@) ==> silent(begun) && (begun.work matches
            Work::EncodeReceipt(made) && made.sender@ == user@ && made.recipient == recipient
            && made.receipt_id == id && made.envelope == envelope),
        json matches Some(text) ==> silent(written) && (written.work matches Work::StoreReceipt {
            receipt: same,
            envelope_json,
            max_queue_per_user,
        } && same == receipt && envelope_json == text && max_queue_per_user == 10_000),
        json is None ==> refused_with(written, 400),
        ({
            let waits = result matches Ok(found) && (found == ReceiptResult::Inserted || found
                == ReceiptResult::Duplicate);
            &&& waits ==> ended.reply is None && ended.work is Done && ended.push@.len() == 1
                && ended.push@[0].0@ == receipt.recipient@ && ended.push@[0].1 == (
            ServerMessage::IncomingReadReceipt {
                sender_id: receipt.sender,
                receipt_id: receipt.receipt_id,
                envelope: receipt.envelope,
            })
            &&& !waits ==> ended.push@.len() == 0 && ended.work is Done && ended.reply is Some
            &&& result == Ok::<ReceiptResult, StorageError>(ReceiptResult::AlreadyAcknowledged)
                ==> ended.reply == Some(
                ServerMessage::ReadReceiptSent { receipt_id: receipt.receipt_id },
            )
        }),
{
    super::guarantees::lemma_nameable(user@);
}

/// Up to a hundred receipts are acknowledged at a time, exactly those that are
/// named, for the user who names them; it is answered so, and fails aloud.
pub proof fn law_receipt_ack(
    user: String,
    ack_id: MessageId,
    ids: Vec<MessageId>,
    now: u64,
    begun: Step,
    known: Result<Vec<(String, String)>, StorageError>,
    ended: Step,
)
    requires
        call_ensures(
            serve,
            (user, ClientMessage::AckReadReceipt { ack_id, receipt_ids: ids }, now),
            begun,
        ),
        call_ensures(receipts_acknowledged, (ack_id, ids, known), ended),
    ensures
        ids@.len() > 100 ==> refused_with(begun, 400),
        ids@.len() <= 100 ==> silent(begun) && (begun.work matches Work::AcknowledgeReceipts {
            user_id,
            ids: texts,
            ack_id: same,
            receipt_ids,
        } && user_id@ == user@ && same == ack_id && receipt_ids@ == ids@ && written_ids(
            texts@,
            ids@,
        )),
        known is Ok ==> ended.reply == Some(ServerMessage::AckSuccess { ack_id, message_ids: ids })
            && ended.work is Done,
        known matches Ok(pairs) ==> (pairs@.len() == 1 ==> match uuid_value(pairs@[0].0@) {
            Some(value) => ended.push@.len() == 1 && ended.push@[0].0@ == pairs@[0].1@ && (
            ended.push@[0].1 matches ServerMessage::ReadReceiptSent { receipt_id } && receipt_id@
                == value),
            None => ended.push@.len() == 0,
        }),
        known is Err ==> refused_with(ended, 500),
{
    if ids@.len() <= 100 {
        lemma_written(begun.work->AcknowledgeReceipts_ids@, ids@);
    }
    if let Ok(pairs) = known {
        if pairs@.len() == 1 {
            assert(super::receipts::readable_receipts(pairs@.drop_last()) =~= Seq::empty());
            if uuid_value(pairs@[0].0@) is Some {
                assert(super::receipts::is_notice(
                    ended.push@[0],
                    super::receipts::readable_receipts(pairs@)[0],
                ));
            }
        }
    }
}

/// A sender's confirmation of up to a hundred receipts is noted for that sender,
/// for exactly those receipts.
pub proof fn law_receipt_confirmation(
    user: String,
    ids: Vec<MessageId>,
    now: u64,
    begun: Step,
    stored: Result<(), StorageError>,
    ended: Step,
)
    requires
        call_ensures(
            serve,
            (user, ClientMessage::AckReadReceiptSent { receipt_ids: ids }, now),
            begun,
        ),
        call_ensures(receipts_confirmed, (stored,), ended),
    ensures
        ids@.len() > 100 ==> refused_with(begun, 400),
        ids@.len() <= 100 ==> silent(begun) && (begun.work matches Work::ConfirmReceipts {
            user_id,
            ids: texts,
        } && user_id@ == user@ && written_ids(texts@, ids@)),
        stored is Ok ==> ended.reply == Some(ServerMessage::Success) && ended.push@.len() == 0
            && ended.work is Done,
        stored is Err ==> refused_with(ended, 500),
{
    if ids@.len() <= 100 {
        lemma_written(begun.work->ConfirmReceipts_ids@, ids@);
    }
}

/// The fetch of somebody else's bundle goes on for that target, from step to
/// step: identity key, signed pre-key, one-time pre-key. Whoever has none of
/// the first two is not found.
pub proof fn law_fetch_goes_on(
    user: String,
    target: UserId,
    now: u64,
    begun: Step,
    identity: Result<Option<Vec<u8>>, StorageError>,
    second: Step,
    identity_key: String,
    signed: Result<Option<SignedPreKeyRow>, StorageError>,
    third: Step,
)
    requires
        call_ensures(
            serve,
            (user, ClientMessage::FetchPreKeyBundle { target_user_id: target }, now),
            begun,
        ),
        call_ensures(fetch_identity_found, (user, target, identity), second),
        call_ensures(fetch_signed_found, (user, target, identity_key, signed), third),
    ensures
        user@ == target@ ==> refused_with(begun, 400),
        user@ != target@ ==> silent(begun) && (begun.work matches Work::FetchIdentity {
            requester,
            target: of,
        } && requester@ == user@ && of == target),
        identity is Err ==> refused_with(second, 500),
        identity matches Ok(None) ==> refused_with(second, 404),
        identity matches Ok(Some(key)) ==> (key@.len() == 32 ==> silent(second) && (second.work
            matches Work::FetchSigned { requester, target: of, identity_key: text } && requester
            == user && of == target && base64_bytes(text@) == Some(key@))),
        signed is Err ==> refused_with(third, 500),
        signed matches Ok(None) ==> refused_with(third, 404),
        signed matches Ok(Some(row)) ==> (row.public_key@.len() == 32 && row.signature@.len() == 64
            ==> silent(third) && (third.work matches Work::FetchPreKey {
            requester,
            target: of,
            bundle,
        } && requester == user && of == target && bundle.identity_key == identity_key
            && bundle.signed_prekey_id == row.key_id && base64_bytes(bundle.signed_prekey@) == Some(
            row.public_key@,
        ) && base64_bytes(bundle.signed_prekey_signature@) == Some(row.signature@))),
{
}

/// A fetch ends with the target's bundle and the one-time pre-key that was
/// taken, and the target is told if few are left, and nobody else.
pub proof fn law_fetch_ends(
    target: UserId,
    bundle: PreKeyBundle,
    fetched: Result<FetchResult, StorageError>,
    answered: Step,
    user: String,
    count: Result<u32, StorageError>,
    counted: Step,
)
    requires
        call_ensures(fetch_prekey_taken, (target, bundle, fetched), answered),
        call_ensures(prekeys_counted, (user, count), counted),
    ensures
        fetched matches Ok(FetchResult::Fetched { key_id, public_key }) ==> (public_key@.len() == 32
            ==> (answered.reply matches Some(ServerMessage::PreKeyBundleResponse {
            user_id,
            bundle: sent,
        }) && user_id == target && sent.identity_key == bundle.identity_key && sent.signed_prekey
            == bundle.signed_prekey && sent.signed_prekey_id == bundle.signed_prekey_id
            && sent.signed_prekey_signature == bundle.signed_prekey_signature && (
        sent.one_time_prekey matches Some(key) && key.key_id == key_id && base64_bytes(
            key.public_key@,
        ) == Some(public_key@)) && (answered.work matches Work::CountPreKeys { user_id: of } && of@
            == target@))),
        fetched matches Ok(FetchResult::Empty) ==> (answered.reply matches Some(
            ServerMessage::PreKeyBundleResponse { user_id, bundle: sent },
        ) && user_id == target && sent.identity_key == bundle.identity_key
            && sent.one_time_prekey is None),
        fetched matches Ok(FetchResult::RateLimited) ==> refused_with(answered, 429),
        fetched is Err ==> refused_with(answered, 500),
        answered.push@.len() == 0,
        count matches Ok(left) ==> if left < 10 {
            counted.reply is None && counted.work is Done && counted.push@.len() == 1
                && counted.push@[0].0@ == user@ && counted.push@[0].1 == (
            ServerMessage::PreKeyLow { remaining: left })
        } else {
            silent(counted) && counted.work is Done
        },
        count is Err ==> silent(counted) && counted.work is Done,
{
}

/// An upload of 1 to 200 usable pre-keys is written down for its user, key by
/// key, and answered under its identifier with what became of it.
pub proof fn law_upload(
    user: String,
    upload_id: MessageId,
    prekeys: Vec<OneTimePreKey>,
    now: u64,
    begun: Step,
    result: Result<UploadResult, StorageError>,
    ended: Step,
)
    requires
        call_ensures(serve, (user, ClientMessage::UploadPreKeys { upload_id, prekeys }, now), begun),
        call_ensures(prekeys_stored, (upload_id, result), ended),
    ensures
        ({
            let fine = 0 < prekeys@.len() <= 200 && forall|i: int|
                0 <= i < prekeys@.len() ==> usable(#[trigger] prekeys@[i]);
            &&& !fine ==> refused_with(begun, 400)
            &&& fine ==> silent(begun) && (begun.work matches Work::StorePreKeys {
                user_id,
                upload_id: same,
                prekeys: pairs,
            } && user_id@ == user@ && same == upload_id && pairs@.len() == prekeys@.len()
                && forall|i: int|
                0 <= i < prekeys@.len() ==> (#[trigger] pairs@[i]).0 == prekeys@[i].key_id
                    && base64_bytes(prekeys@[i].public_key@) == Some(pairs@[i].1@))
        }),
        result matches Ok(UploadResult::Accepted(left)) ==> ended.reply == Some(
            ServerMessage::PreKeysUploaded { upload_id, accepted: true, remaining: left },
        ),
        result matches Ok(UploadResult::InventoryFull(left)) ==> ended.reply == Some(
            ServerMessage::PreKeysUploaded { upload_id, accepted: false, remaining: left },
        ),
        result is Err ==> refused_with(ended, 500),
        ended.push@.len() == 0 && ended.work is Done,
{
    if forall|i: int| 0 <= i < prekeys@.len() ==> usable(#[trigger] prekeys@[i]) {
        assert forall|i: int| 0 <= i < prekeys@.len() implies super::handlers::valid_prekey(
            #[trigger] prekeys@[i],
        ) by {
            assert(usable(prekeys@[i]));
        }
    }
    if super::handlers::valid_prekeys(prekeys@) {
        assert forall|i: int| 0 <= i < prekeys@.len() implies usable(#[trigger] prekeys@[i]) by {
            assert(super::handlers::valid_prekey(prekeys@[i]));
        }
    }
}

/// A new signed pre-key is written down for its user if its identity key has
/// signed it, as it was sent; and what became of it is answered under the
/// identifier of the rotation, with the key that is in use.
pub proof fn law_rotation(
    user: String,
    rotation_id: MessageId,
    key_id: u32,
    public_key: String,
    signature: String,
    now: u64,
    begun: Step,
    key: NewSignedPreKey,
    found: Result<Option<Vec<u8>>, StorageError>,
    checked: Step,
    result: Result<SignedPreKeyRotationResult, StorageError>,
    ended: Step,
)
    requires
        call_ensures(
            serve,
            (
                user,
                ClientMessage::RotateSignedPreKey { rotation_id, key_id, public_key, signature },
                now,
            ),
            begun,
        ),
        call_ensures(rotation_identity_found, (key, found), checked),
        call_ensures(signed_prekey_stored, (rotation_id, result), ended),
    ensures
        ({
            let fine = stands_for_bytes(public_key@, 32) && stands_for_bytes(signature@, 64);
            &&& !fine ==> refused_with(begun, 400)
            &&& fine ==> silent(begun) && (begun.work matches Work::RotationIdentity(made)
                && made.user_id@ == user@ && made.rotation_id == rotation_id && made.key_id
                == key_id && base64_bytes(public_key@) == Some(made.public_key@) && base64_bytes(
                signature@,
            ) == Some(made.signature@))
        }),
        ({
            let signed = found matches Ok(Some(identity)) && identity@.len() == 32
                && ed25519_decodes(identity@) && ed25519_verifies(
                identity@,
                key.public_key@,
                key.signature@,
            );
            &&& signed ==> silent(checked) && checked.work == Work::StoreSignedPreKey(key)
            &&& !signed ==> checked.work is Done && checked.push@.len() == 0 && (checked.reply
                matches Some(reply) && reply is Error)
        }),
        ({
            let told = |accepted: bool, before: bool, current: u32|
                ended.reply == Some(
                    ServerMessage::SignedPreKeyRotated {
                        rotation_id,
                        accepted,
                        previously_accepted: before,
                        current_key_id: current,
                    },
                ) && ended.push@.len() == 0 && ended.work is Done;
            match result {
                Ok(SignedPreKeyRotationResult::Accepted { current_key_id }) => told(
                    true,
                    false,
                    current_key_id,
                ),
                Ok(SignedPreKeyRotationResult::PreviouslyAccepted { current_key_id }) => told(
                    false,
                    true,
                    current_key_id,
                ),
                Ok(SignedPreKeyRotationResult::InvalidSequence { current_key_id }) => told(
                    false,
                    false,
                    current_key_id,
                ),
                Ok(SignedPreKeyRotationResult::Conflict { current_key_id }) => told(
                    false,
                    false,
                    current_key_id,
                ),
                Err(_) => refused_with(ended, 500),
            }
        }),
{
}

/// A registration is handed to the database if it passes the check, and
/// answered otherwise.
pub proof fn law_registration_begins(
    session: &Session,
    user: UserId,
    bundle: &PreKeyBundle,
    prekeys: &Vec<OneTimePreKey>,
    checked: Result<Registration, ServerMessage>,
    out: Entry,
)
    requires
        call_ensures(check_registration, (session, user, bundle, prekeys), checked),
        call_ensures(handle_register, (session, user, bundle, prekeys), out),
    ensures
        out is Register <==> checked is Ok,
        out is Answer <==> checked is Err,
        out matches Entry::Register(made) ==> made.user_id == user && base64_bytes(
            bundle.identity_key@,
        ) == Some(made.identity_key@) && base64_bytes(bundle.signed_prekey@) == Some(
            made.signed_prekey_public@,
        ),
{
}

/// Whoever is logged in cannot log in again; anybody else can ask for a
/// challenge, and answer the one that was given, once and within a minute.
pub proof fn law_login_begins(
    session: &Session,
    user: UserId,
    asked: Entry,
    waiting: &mut Session,
    signature: String,
    now: u64,
    answered: Entry,
)
    requires
        call_ensures(handle_auth_challenge, (session, user), asked),
        call_ensures(handle_auth_response, (waiting, signature, now), answered),
    ensures
        session.authed_user is None ==> asked == Entry::FindUser(user),
        session.authed_user is Some ==> asked is Answer,
        answered is LogIn <==> old(waiting).authed_user is None && (old(waiting).pending_challenge
            matches Some(challenge) && now <= challenge.timestamp + 60),
        answered matches Entry::LogIn { challenge, signature: same } ==> old(waiting).pending_challenge == Some(challenge) && same == signature,
        old(waiting).authed_user is None ==> final(waiting).pending_challenge is None,
        final(waiting).authed_user == old(waiting).authed_user,
{
}

/// A name that was free is registered and its user online at once, through a
/// new connection; a name that was taken lets nobody in.
pub proof fn law_registration_ends(
    session: &mut Session,
    registry: &mut ConnectionRegistry,
    user: UserId,
    stored: Result<bool, StorageError>,
    out: Admission,
)
    requires
        call_ensures(finish_register, (session, registry, user, stored), out),
    ensures
        stored == Ok::<bool, StorageError>(true) ==> {
            &&& out.reply is AuthSuccess
            &&& final(session).authed_user matches Some(name) && name@ == user@
            &&& final(session).conn_id matches Some(conn) && final(registry)@ == old(registry)@.insert(user@, conn)
            &&& out.connection matches Some((conn, before)) && final(session).conn_id == Some(conn)
                && (before is Some <==> old(registry)@.contains_key(user@)) && (before is Some
                ==> before == Some(old(registry)@[user@]))
            &&& final(session).deliver_prekey_status == old(session).deliver_prekey_status
            &&& final(session).pending_challenge == old(session).pending_challenge
        },
        stored != Ok::<bool, StorageError>(true) ==> {
            &&& out.reply is AuthFailure || out.reply is Error
            &&& out.connection is None
            &&& *final(session) == *old(session)
            &&& final(registry)@ == old(registry)@
        },
{
}

/// A login lets the challenged user in, and nobody else, exactly if the answer
/// to the challenge is accepted.
pub proof fn law_login_ends(
    session: &mut Session,
    registry: &mut ConnectionRegistry,
    challenge: PendingChallenge,
    signature: &str,
    found: Result<Option<Vec<u8>>, StorageError>,
    server: &str,
    checked: Result<(), ServerMessage>,
    out: Admission,
)
    requires
        call_ensures(check_response, (&challenge, found, signature, server), checked),
        call_ensures(finish_login, (session, registry, challenge, signature, found, server), out),
    ensures
        checked is Ok ==> {
            &&& out.reply is AuthSuccess
            &&& final(session).authed_user matches Some(name) && name@ == challenge.user_id@
            &&& final(session).conn_id matches Some(conn) && final(registry)@ == old(registry)@.insert(challenge.user_id@, conn)
            &&& final(session).deliver_prekey_status
            &&& out.connection matches Some((conn, before)) && final(session).conn_id == Some(conn)
                && (before is Some <==> old(registry)@.contains_key(challenge.user_id@)) && (
            before is Some ==> before == Some(old(registry)@[challenge.user_id@]))
            &&& final(session).pending_challenge == old(session).pending_challenge
        },
        checked is Err ==> {
            &&& out.reply is AuthFailure || out.reply is Error
            &&& out.connection is None
            &&& *final(session) == *old(session)
            &&& final(registry)@ == old(registry)@
        },
{
}

/// A database is brought up to version 8, one version after the other from its
/// own on, and a newer one is left alone; queued envelopes of another protocol
/// version than 2 are not started with.
pub proof fn law_migrations(version: u32, out: Vec<u32>, queued: u32, fine: Result<(), String>)
    requires
        call_ensures(pending_migrations, (version,), out),
        call_ensures(check_queued_version, (queued,), fine),
    ensures
        version < 8 ==> out@.len() > 0 && out@[0] == version + 1 && out@.last() == 8,
        forall|i: int| 0 <= i < out@.len() - 1 ==> #[trigger] out@[i + 1] == out@[i] + 1,
        version >= 8 ==> out@.len() == 0,
        fine is Ok <==> queued == 2,
{
}

/// Decimal digits and nothing else.
pub open spec fn all_digits(text: Seq<char>) -> bool {
    &&& text.len() > 0
    &&& forall|i: int| 0 <= i < text.len() ==> '0' <= #[trigger] text[i] <= '9'
}

/// A time as the database writes it: six numbers, with hyphens, a space and
/// colons between them.
pub open spec fn written_moment(p: Seq<Seq<char>>) -> Seq<char> {
    p[0] + seq!['-'] + p[1] + seq!['-'] + p[2] + seq![' '] + p[3] + seq![':'] + p[4] + seq![':']
        + p[5]
}

/// A time is read as it is written: as the seconds that the calendar counts up
/// to its numbers.
pub proof fn law_written_moment_is_read(text: &str, out: u64, parts: Seq<Seq<char>>, n: Seq<nat>)
    requires
        call_ensures(parse_sqlite_datetime, (text,), out),
        parts.len() == 6,
        n.len() == 6,
        forall|i: int|
            0 <= i < 6 ==> all_digits(#[trigger] parts[i]) && digits_sum(parts[i]) == n[i] && n[i]
                <= i64::MAX,
        text@ == written_moment(parts),
        0 <= super::datetime::moment_seconds(n) <= i64::MAX,
    ensures
        out == super::datetime::moment_seconds(n),
{
    let e = Seq::<char>::empty();
    let read = super::datetime::date_parts(text@);
    lemma_part(e, parts[0]);
    assert(e + parts[0] =~= parts[0]);
    assert(super::datetime::date_parts(parts[0]) =~= seq![parts[0]]) by {
        assert(super::datetime::date_parts(e) =~= seq![e]);
        assert(e + parts[0] =~= parts[0]);
    }
    let a = parts[0];
    let b = a + seq!['-'] + parts[1];
    let c = b + seq!['-'] + parts[2];
    let d = c + seq![' '] + parts[3];
    let f = d + seq![':'] + parts[4];
    let g = f + seq![':'] + parts[5];
    lemma_next_part(a, '-', parts[1]);
    lemma_next_part(b, '-', parts[2]);
    lemma_next_part(c, ' ', parts[3]);
    lemma_next_part(d, ':', parts[4]);
    lemma_next_part(f, ':', parts[5]);
    assert(text@ =~= g);
    assert(read =~= parts);
    assert forall|i: int| 0 <= i < 6 implies super::datetime::part_value(#[trigger] read[i])
        == Some(n[i]) by {
        lemma_digits(parts[i]);
        assert('0' <= parts[i][0] <= '9');
    }
    assert(super::datetime::date_numbers(text@) is Some);
    assert(super::datetime::date_numbers(text@)->0 =~= n);
}

proof fn lemma_digits(digits: Seq<char>)
    requires
        forall|i: int| 0 <= i < digits.len() ==> '0' <= #[trigger] digits[i] <= '9',
    ensures
        digits_sum(digits) >= 0,
        super::datetime::digits_value(digits) == Some(digits_sum(digits) as nat),
    decreases digits.len(),
{
    if digits.len() > 0 {
        let rest = digits.drop_last();
        assert forall|i: int| 0 <= i < rest.len() implies '0' <= #[trigger] rest[i] <= '9' by {
            assert(digits[i] == rest[i]);
        }
        lemma_digits(rest);
        assert('0' <= digits[digits.len() - 1] <= '9');
    }
}

proof fn lemma_part(before: Seq<char>, part: Seq<char>)
    requires
        forall|i: int| 0 <= i < part.len() ==> '0' <= #[trigger] part[i] <= '9',
    ensures
        super::datetime::date_parts(before).len() > 0,
        super::datetime::date_parts(before + part) == super::datetime::date_parts(
            before,
        ).drop_last().push(super::datetime::date_parts(before).last() + part),
    decreases part.len(),
{
    lemma_parts(before);
    let parts = super::datetime::date_parts(before);
    if part.len() == 0 {
        assert(before + part =~= before);
        assert(parts.drop_last().push(parts.last() + part) =~= parts) by {
            assert(parts.last() + part =~= parts.last());
        }
    } else {
        let rest = part.drop_last();
        assert forall|i: int| 0 <= i < rest.len() implies '0' <= #[trigger] rest[i] <= '9' by {
            assert(part[i] == rest[i]);
        }
        lemma_part(before, rest);
        let all = before + part;
        assert(all.drop_last() =~= before + rest);
        assert(all.last() == part[part.len() - 1]);
        let shorter = parts.drop_last().push(parts.last() + rest);
        assert(shorter.drop_last() =~= parts.drop_last());
        assert((parts.last() + rest).push(part.last()) =~= parts.last() + part);
    }
}

proof fn lemma_parts(text: Seq<char>)
    ensures
        super::datetime::date_parts(text).len() > 0,
    decreases text.len(),
{
    if text.len() > 0 {
        lemma_parts(text.drop_last());
    }
}

proof fn lemma_next_part(before: Seq<char>, between: char, part: Seq<char>)
    requires
        between == '-' || between == ' ' || between == ':',
        forall|i: int| 0 <= i < part.len() ==> '0' <= #[trigger] part[i] <= '9',
    ensures
        super::datetime::date_parts(before + seq![between] + part)
            == super::datetime::date_parts(before).push(part),
{
    let longer = before + seq![between];
    assert(longer.drop_last() =~= before);
    lemma_part(longer, part);
    let parts = super::datetime::date_parts(longer);
    assert(parts == super::datetime::date_parts(before).push(Seq::empty()));
    assert(parts.drop_last() =~= super::datetime::date_parts(before));
    assert(parts.last() + part =~= part);
}

/// The seconds are counted from the start of 1970, and one by one from there:
/// over every minute, hour, day, month and year.
#[verifier::spinoff_prover]
#[verifier::rlimit(60)]
pub proof fn law_seconds_are_counted(n: Seq<nat>)
    requires
        n.len() == 6,
    ensures
        n == seq![1970nat, 1, 1, 0, 0, 0] ==> super::datetime::moment_seconds(n) == 0,
        n[0] >= 1970 && 1 <= n[1] <= 12 && 1 <= n[2] && n[3] < 24 && n[4] < 60 && n[5] < 59
            && n[2] <= 28 ==> super::datetime::moment_seconds(n.update(5, n[5] + 1))
            == super::datetime::moment_seconds(n) + 1,
        n[0] >= 1970 && n[4] < 59 ==> super::datetime::moment_seconds(n.update(4, n[4] + 1))
            == super::datetime::moment_seconds(n) + 60,
        n[0] >= 1970 && n[3] < 23 ==> super::datetime::moment_seconds(n.update(3, n[3] + 1))
            == super::datetime::moment_seconds(n) + 3600,
        n[0] >= 1970 && n[2] < 28 ==> super::datetime::moment_seconds(n.update(2, n[2] + 1))
            == super::datetime::moment_seconds(n) + 86400,
        ({
            let month = if n[1] == 2 {
                if (n[0] % 4 == 0 && n[0] % 100 != 0) || n[0] % 400 == 0 {
                    29int
                } else {
                    28
                }
            } else if n[1] == 4 || n[1] == 6 || n[1] == 9 || n[1] == 11 {
                30
            } else {
                31
            };
            n[0] >= 1970 && 1 <= n[1] <= 11 ==> super::datetime::moment_seconds(
                n.update(1, n[1] + 1),
            ) == super::datetime::moment_seconds(n) + 86400 * month
        }),
        ({
            let year = if (n[0] % 4 == 0 && n[0] % 100 != 0) || n[0] % 400 == 0 {
                366int
            } else {
                365
            };
            n[0] >= 1970 && n[1] == 1 ==> super::datetime::moment_seconds(n.update(0, n[0] + 1))
                == super::datetime::moment_seconds(n) + 86400 * year
        }),
{
}

/// A request to get in goes where it belongs; any other is none.
pub proof fn law_entry(
    session: &mut Session,
    request: ClientMessage,
    now: u64,
    out: Entry,
)
    requires
        call_ensures(authenticate, (session, request, now), out),
    ensures
        request matches ClientMessage::AuthChallenge { user_id } ==> (if old(session).authed_user is None {
            out == Entry::FindUser(user_id)
        } else {
            out is Answer
        }),
        request matches ClientMessage::AuthResponse { signature } ==> (out is LogIn <==> old(session).authed_user is None && (old(session).pending_challenge matches Some(challenge)
            && now <= challenge.timestamp + 60)),
        request matches ClientMessage::AuthResponse { signature } ==> (out matches Entry::LogIn {
            challenge,
            signature: same,
        } ==> old(session).pending_challenge == Some(challenge) && same == signature),
        request is Register ==> out is Register || out is Answer,
        request is Register && old(session).authed_user is Some ==> out is Answer,
        request matches ClientMessage::Register { user_id, bundle, .. } ==> (
        out matches Entry::Register(made) ==> made.user_id == user_id && base64_bytes(
            bundle.identity_key@,
        ) == Some(made.identity_key@)),
        !(request is AuthChallenge || request is AuthResponse || request is Register) ==> (
        out matches Entry::Answer(ServerMessage::Error { code, message }) && code == 400 && message@
            == "unhandled message type"@),
        !(request is AuthResponse) ==> *final(session) == *old(session),
        final(session).authed_user == old(session).authed_user,
        final(session).conn_id == old(session).conn_id,
{
}

/// A challenge is a fresh one for a known user, remembered as it is sent, and
/// nobody else gets one.
pub proof fn law_challenge_is_remembered(
    session: &mut Session,
    user: &UserId,
    known: Result<bool, StorageError>,
    now: u64,
    server: &str,
    out: ServerMessage,
)
    requires
        call_ensures(begin_challenge, (session, user, known, now, server), out),
    ensures
        out is Challenge <==> old(session).authed_user is None && known == Ok::<bool, StorageError>(
            true,
        ),
        out matches ServerMessage::Challenge { nonce, timestamp, server_id } ==> (final(session).pending_challenge matches Some(challenge) && challenge.user_id@ == user@
            && base64_bytes(nonce@) == Some(challenge.nonce@) && challenge.timestamp == now)
            && timestamp == now && server_id@ == server@,
        out !is Challenge ==> *final(session) == *old(session),
        final(session).authed_user == old(session).authed_user,
{
}

/// The queue is looked through row by row, up to a thousand for one login, on
/// from where it was left; what is on a page is sent in the end, unless nothing
/// is.
pub proof fn law_queue_is_looked_through(
    pager: &mut Pager,
    row: &QueuedRow,
    envelope: Option<EncryptedEnvelope>,
    step: RowStep,
    next: Option<i64>,
    last: Pager,
    page: Option<Vec<InboundMessage>>,
)
    requires
        call_ensures(Pager::next_after, (&*old(pager),), next),
        call_ensures(Pager::look_at, (pager, row, envelope), step),
        call_ensures(Pager::finish, (last,), page),
    ensures
        next is Some <==> old(pager).spec_visited() < 1000,
        next matches Some(after) ==> after == old(pager).spec_cursor(),
        final(pager).spec_visited() == old(pager).spec_visited() + 1,
        final(pager).spec_cursor() == row.row_id,
        final(pager).spec_page() == old(pager).spec_page(),
        step is Measure <==> (envelope matches Some(read) && passable(read) && nameable(
            row.sender_id@,
        ) && uuid_value(row.message_id@) is Some),
        step matches RowStep::Measure(message) ==> envelope == Some(message.envelope)
            && message.sender_id@ == row.sender_id@ && uuid_value(row.message_id@) == Some(
            message.message_id@,
        ),
        page is None <==> last.spec_page().len() == 0,
        page matches Some(messages) ==> messages@ == last.spec_page() && messages@.len() <= 64,
{
    super::guarantees::lemma_nameable(row.sender_id@);
}

/// A message of unknown size fits on no page, and leaves the page as it is.
pub proof fn law_unmeasured_fits_nowhere(pager: &mut Pager, message: InboundMessage, out: PageStep)
    requires
        call_ensures(Pager::measured, (pager, message, None), out),
    ensures
        out is TooLarge,
        final(pager).spec_page() == old(pager).spec_page(),
{
}

/// What is left of a number of acceptances when some are confirmed, and what a
/// replaced connection and a message that is no request are told.
pub proof fn law_small_answers(
    count: u64,
    confirmed: u64,
    left: u64,
    replaced: ServerMessage,
    malformed: ServerMessage,
)
    requires
        call_ensures(remaining_acceptances, (count, confirmed), left),
        call_ensures(replaced_notice, (), replaced),
        call_ensures(malformed_message, (), malformed),
    ensures
        confirmed <= count ==> left + confirmed == count,
        confirmed > count ==> left == 0,
        replaced matches ServerMessage::Error { code, message } && code == 409 && message@
            == "session replaced by new connection"@,
        malformed matches ServerMessage::Error { code, message } && code == 400 && message@
            == "malformed message"@,
{
}

/// A known user who asks to get in again is told that this is no request.
pub proof fn law_known_user_is_in(user: String, request: ClientMessage, now: u64, out: Step)
    requires
        call_ensures(serve, (user, request, now), out),
        request is Register || request is AuthChallenge || request is AuthResponse,
    ensures
        refused_with(out, 400),
        out.reply matches Some(ServerMessage::Error { message, .. }) && message@
            == "unhandled message type"@,
{
}

/// At first nobody is online, nothing is known of a connection, and no row has
/// been looked at.
pub proof fn law_beginnings(
    registry: ConnectionRegistry,
    session: Session,
    size: usize,
    pager: Pager,
    name: Seq<char>,
)
    requires
        call_ensures(ConnectionRegistry::new, (), registry),
        call_ensures(Session::new, (), session),
        call_ensures(Pager::new, (size,), pager),
    ensures
        !registry@.contains_key(name),
        registry.spec_next() == 1,
        session.authed_user is None,
        session.conn_id is None,
        session.pending_challenge is None,
        !session.deliver_prekey_status,
        pager.spec_page().len() == 0,
        pager.spec_visited() == 0,
        pager.spec_cursor() == 0,
        pager.spec_empty() == size,
{
}

/// An envelope is recognised by the SHA-256 digest of its bytes.
pub proof fn law_envelope_is_recognised(text: &str, out: [u8; 32])
    requires
        call_ensures(envelope_digest, (text,), out),
    ensures
        out@ == crate::crypto::primitives::sha256(vstd::utf8::encode_utf8(text@)),
{
}

/// Connections are numbered in the order in which they are let in, whoever they
/// are of, and from the start again once the numbers are used up.
pub proof fn law_connections_are_numbered(
    first: &mut Session,
    online: &mut ConnectionRegistry,
    user: UserId,
    in_first: Admission,
    second: &mut Session,
    later: &mut ConnectionRegistry,
    other: UserId,
    in_second: Admission,
)
    requires
        call_ensures(
            finish_register,
            (first, online, user, Ok::<bool, StorageError>(true)),
            in_first,
        ),
        *old(later) == *final(online),
        call_ensures(
            finish_register,
            (second, later, other, Ok::<bool, StorageError>(true)),
            in_second,
        ),
    ensures
        in_first.connection is Some,
        in_second.connection is Some,
        (in_second.connection->0).0 as int == ((in_first.connection->0).0 + 1) % 0x1_0000_0000_0000_0000,
        (in_second.connection->0).0 != (in_first.connection->0).0,
{
}

/// A login takes the next number too.
pub proof fn law_logins_are_numbered(
    first: &mut Session,
    online: &mut ConnectionRegistry,
    challenge: PendingChallenge,
    signature: &str,
    found: Result<Option<Vec<u8>>, StorageError>,
    server: &str,
    in_first: Admission,
    second: &mut Session,
    later: &mut ConnectionRegistry,
    other: UserId,
    in_second: Admission,
)
    requires
        call_ensures(
            finish_login,
            (first, online, challenge, signature, found, server),
            in_first,
        ),
        in_first.reply is AuthSuccess,
        *old(later) == *final(online),
        call_ensures(
            finish_register,
            (second, later, other, Ok::<bool, StorageError>(true)),
            in_second,
        ),
    ensures
        in_first.connection is Some,
        in_second.connection is Some,
        (in_second.connection->0).0 as int == ((in_first.connection->0).0 + 1) % 0x1_0000_0000_0000_0000,
{
}

} // verus!
