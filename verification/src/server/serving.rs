//! What serves a user, step by step: what is looked up and written, who is
//! told, and what is answered. In between, the database is asked.

use super::handlers::{error_400, StorageError};
use super::message::{
    answer_ack, answer_send, answer_sent_ack, check_ack, check_page_size, check_send,
    enqueue_request, texts_of_ids, typing_notice, validate_envelope, validate_enqueue_result,
};
use super::prekeys::{
    answer_fetch, answer_rotation, answer_upload, bundle_identity, bundle_signed, check_fetch,
    check_upload, decode_signed_prekey, low_notice, verify_signed_prekey, FetchResult,
    SignedPreKeyRotationResult, SignedPreKeyRow, UploadResult,
};
use super::queue::{EnqueueRequest, EnqueueResult};
use super::receipts::{
    answer_receipt, answer_receipt_confirmation, check_receipt_ack, check_receipt_confirmation,
    receipt_notices, relayed_receipt, EnqueueResult as ReceiptResult,
};
use crate::protocol::consts::{
    MAX_ACK_BATCH, MAX_PREKEYS_PER_UPLOAD, MAX_QUEUED_PAGE_BYTES, MAX_QUEUE_PER_USER,
    MAX_RECEIPT_BATCH,
};
use crate::protocol::{
    ClientMessage, EncryptedEnvelope, InboundMessage, MessageId, OneTimePreKey, PreKeyBundle,
    ServerMessage, UserId,
};
use vstd::prelude::*;
use vstd::string::*;

verus! {

use super::handlers::{
    bad_prekeys_text, decoded_prekeys, is_error, is_internal_error, valid_prekeys,
};
use super::message::{envelope_fault, id_texts, named_prekeys, on_its_way, refuses_message};
use super::prekeys::{same_but_one_time, signed_prekey_fault, PREKEY_LOW_THRESHOLD};
use super::receipts::{is_notice, readable_receipts, receipt_reply};
use crate::crypto::primitives::{ed25519_decodes, ed25519_verifies};
use crate::encoding::{base64_bytes, base64_len, encodes, texts};
use crate::protocol::types::{uuid_text, valid_user_id};

/// A signed pre-key that a user wants to use from now on.
pub struct NewSignedPreKey {
    pub user_id: String,
    pub rotation_id: MessageId,
    pub key_id: u32,
    pub public_key: [u8; 32],
    pub signature: [u8; 64],
}

/// A read receipt on its way.
pub struct Receipt {
    pub sender: UserId,
    pub recipient: UserId,
    pub receipt_id: MessageId,
    pub envelope: EncryptedEnvelope,
}

/// What is to be done before a request is served to its end. Each is followed
/// by the function of this module that takes what came of it.
pub enum Work {
    Done,
    /// Find the identity key of the target, for [`fetch_identity_found`].
    FetchIdentity { requester: String, target: UserId },
    /// Find the signed pre-key of the target, for [`fetch_signed_found`].
    FetchSigned { requester: String, target: UserId, identity_key: String },
    /// Take a one-time pre-key of the target, for [`fetch_prekey_taken`].
    FetchPreKey { requester: String, target: UserId, bundle: PreKeyBundle },
    /// Count the one-time pre-keys of a user, for [`prekeys_counted`].
    CountPreKeys { user_id: String },
    /// Write one-time pre-keys down, for [`prekeys_stored`].
    StorePreKeys { user_id: String, upload_id: MessageId, prekeys: Vec<(u32, Vec<u8>)> },
    /// Find the identity key of the user, for [`rotation_identity_found`].
    RotationIdentity(NewSignedPreKey),
    /// Write a signed pre-key down, for [`signed_prekey_stored`].
    StoreSignedPreKey(NewSignedPreKey),
    /// Encode a message, and a page of the queue with it alone, for
    /// [`message_measured`].
    Measure { recipient: UserId, inbound: InboundMessage },
    /// Write a message down, for [`message_stored`].
    Enqueue { recipient: UserId, inbound: InboundMessage, request: EnqueueRequest },
    /// Push a message to its recipient, for [`message_pushed`].
    Push { recipient: String, message: ServerMessage, sender: String, message_id: MessageId },
    /// Delete messages of a user, for [`messages_deleted`].
    DeleteMessages {
        user_id: String,
        ids: Vec<String>,
        ack_id: MessageId,
        message_ids: Vec<MessageId>,
    },
    /// Forget that a user has not confirmed messages, for [`sent_confirmed`].
    ConfirmSent { user_id: String, ids: Vec<String> },
    /// Encode a receipt, for [`receipt_encoded`].
    EncodeReceipt(Receipt),
    /// Write a receipt down, for [`receipt_stored`].
    StoreReceipt { receipt: Receipt, envelope_json: String, max_queue_per_user: usize },
    /// Note that a user has receipts, for [`receipts_acknowledged`].
    AcknowledgeReceipts {
        user_id: String,
        ids: Vec<String>,
        ack_id: MessageId,
        receipt_ids: Vec<MessageId>,
    },
    /// Delete receipts of which a user has heard, for [`receipts_confirmed`].
    ConfirmReceipts { user_id: String, ids: Vec<String> },
}

/// One step in serving a request.
pub struct Step {
    /// What the user is answered.
    pub reply: Option<ServerMessage>,
    /// Who else is told what, if they are online.
    pub push: Vec<(String, ServerMessage)>,
    /// What is to be done then.
    pub work: Work,
}

impl Step {
    /// The request is answered, and that is all.
    pub open spec fn is_answer(self) -> bool {
        self.reply is Some && self.push@.len() == 0 && self.work is Done
    }

    /// Something is to be done, and nobody is told anything yet.
    pub open spec fn only_works(self) -> bool {
        self.reply is None && self.push@.len() == 0
    }

    /// Nothing happens.
    pub open spec fn is_quiet(self) -> bool {
        self.only_works() && self.work is Done
    }

    /// The request is answered with an error.
    pub open spec fn is_refusal(self, code: u32, text: Seq<char>) -> bool {
        self.is_answer() && is_error(self.reply->0, code, text)
    }

    /// The request is answered with the error that tells nothing.
    pub open spec fn is_failure(self) -> bool {
        self.is_answer() && is_internal_error(self.reply->0)
    }

    /// One user is told something, and that is all.
    pub open spec fn only_tells(self, user: Seq<char>, message: ServerMessage) -> bool {
        &&& self.reply is None
        &&& self.push@.len() == 1
        &&& self.push@[0].0@ == user
        &&& self.push@[0].1 == message
        &&& self.work is Done
    }

    fn answer(reply: ServerMessage) -> (out: Step)
        ensures
            out.is_answer(),
            out.reply == Some(reply),
    {
        Step { reply: Some(reply), push: Vec::new(), work: Work::Done }
    }

    fn work(work: Work) -> (out: Step)
        ensures
            out.only_works(),
            out.work == work,
    {
        Step { reply: None, push: Vec::new(), work }
    }

    fn tell(user: String, message: ServerMessage) -> (out: Step)
        ensures
            out.only_tells(user@, message),
    {
        let mut push: Vec<(String, ServerMessage)> = Vec::new();
        push.push((user, message));
        Step { reply: None, push, work: Work::Done }
    }
}

/// How the fetch of a bundle begins: one's own is refused.
pub open spec fn begins_fetch(out: Step, user: Seq<char>, wanted: UserId) -> bool {
    if user == wanted@ {
        out.is_refusal(400, "cannot fetch your own pre-key bundle"@)
    } else {
        out.only_works() && (out.work matches Work::FetchIdentity { requester, target }
            && requester@ == user && target == wanted)
    }
}

/// Begins the fetch of a bundle.
pub fn handle_fetch(requester: String, target: UserId) -> (out: Step)
    ensures
        begins_fetch(out, requester@, target),
{
    match check_fetch(&requester, &target) {
        Some(reply) => Step::answer(reply),
        None => Step::work(Work::FetchIdentity { requester, target }),
    }
}

/// Goes on with a fetch: `found` is the identity key of the target.
pub fn fetch_identity_found(
    requester: String,
    target: UserId,
    found: Result<Option<Vec<u8>>, StorageError>,
) -> (out: Step)
    ensures
        match found {
            Ok(Some(key)) => if base64_len(key@.len()) <= isize::MAX {
                out.only_works() && (out.work matches Work::FetchSigned {
                    requester: r,
                    target: t,
                    identity_key,
                } && r == requester && t == target && encodes(identity_key@, key@))
            } else {
                out.is_failure()
            },
            Ok(None) => out.is_refusal(404, "not found"@),
            Err(_) => out.is_failure(),
        },
{
    match bundle_identity(found) {
        Ok(identity_key) => Step::work(Work::FetchSigned { requester, target, identity_key }),
        Err(reply) => Step::answer(reply),
    }
}

/// Goes on with a fetch: `found` is the signed pre-key of the target.
pub fn fetch_signed_found(
    requester: String,
    target: UserId,
    identity_key: String,
    found: Result<Option<SignedPreKeyRow>, StorageError>,
) -> (out: Step)
    ensures
        match found {
            Ok(Some(row)) => if base64_len(row.public_key@.len()) <= isize::MAX && base64_len(
                row.signature@.len(),
            ) <= isize::MAX {
                out.only_works() && (out.work matches Work::FetchPreKey {
                    requester: r,
                    target: t,
                    bundle,
                } && r == requester && t == target && bundle.identity_key == identity_key
                    && bundle.signed_prekey_id == row.key_id && encodes(
                    bundle.signed_prekey@,
                    row.public_key@,
                ) && encodes(bundle.signed_prekey_signature@, row.signature@)
                    && bundle.one_time_prekey is None)
            } else {
                out.is_failure()
            },
            Ok(None) => out.is_refusal(404, "not found"@),
            Err(_) => out.is_failure(),
        },
{
    match bundle_signed(identity_key, found) {
        Ok(bundle) => Step::work(Work::FetchPreKey { requester, target, bundle }),
        Err(reply) => Step::answer(reply),
    }
}

/// A fetch is answered with a bundle, and then the keys of the target are
/// counted.
pub open spec fn hands_out(
    out: Step,
    target: UserId,
    bundle: PreKeyBundle,
    one_time: Option<(u32, Seq<u8>)>,
) -> bool {
    &&& out.push@.len() == 0
    &&& out.work matches Work::CountPreKeys { user_id } && user_id@ == target@
    &&& out.reply matches Some(ServerMessage::PreKeyBundleResponse { user_id, bundle: full }) && {
        &&& user_id == target
        &&& same_but_one_time(full, bundle)
        &&& match one_time {
            Some(key) => full.one_time_prekey matches Some(sent) && sent.key_id == key.0 && encodes(
                sent.public_key@,
                key.1,
            ),
            None => full.one_time_prekey is None,
        }
    }
}

/// Answers a fetch: `fetched` is what became of it in the database.
pub fn fetch_prekey_taken(
    target: UserId,
    bundle: PreKeyBundle,
    fetched: Result<FetchResult, StorageError>,
) -> (out: Step)
    ensures
        match fetched {
            Ok(FetchResult::Fetched { key_id, public_key }) => if base64_len(public_key@.len())
                <= isize::MAX {
                hands_out(out, target, bundle, Some((key_id, public_key@)))
            } else {
                out.is_failure()
            },
            Ok(FetchResult::Empty) => hands_out(out, target, bundle, None),
            Ok(FetchResult::RateLimited) => out.is_refusal(
                429,
                "pre-key fetch rate limit exceeded"@,
            ),
            Err(_) => out.is_failure(),
        },
{
    let user_id = target.as_str().to_owned();
    let reply = answer_fetch(target, bundle, fetched);
    let handed_out = match &reply {
        ServerMessage::PreKeyBundleResponse { .. } => true,
        _ => false,
    };
    let work = if handed_out {
        Work::CountPreKeys { user_id }
    } else {
        Work::Done
    };
    Step { reply: Some(reply), push: Vec::new(), work }
}

/// Tells a user that one-time pre-keys run low, if they do.
pub fn prekeys_counted(user_id: String, remaining: Result<u32, StorageError>) -> (out: Step)
    ensures
        match remaining {
            Ok(count) => if count < PREKEY_LOW_THRESHOLD {
                out.only_tells(user_id@, ServerMessage::PreKeyLow { remaining: count })
            } else {
                out.is_quiet()
            },
            Err(_) => out.is_quiet(),
        },
{
    match remaining {
        Ok(count) => match low_notice(count) {
            Some(notice) => Step::tell(user_id, notice),
            None => Step::work(Work::Done),
        },
        Err(_) => Step::work(Work::Done),
    }
}

/// How the upload of one-time pre-keys begins.
pub open spec fn begins_upload(
    out: Step,
    user: Seq<char>,
    id: MessageId,
    offered: Seq<OneTimePreKey>,
) -> bool {
    if offered.len() > MAX_PREKEYS_PER_UPLOAD {
        out.is_refusal(400, "too many prekeys"@)
    } else if offered.len() == 0 {
        out.is_refusal(400, "prekey upload cannot be empty"@)
    } else if !valid_prekeys(offered) {
        out.is_refusal(400, bad_prekeys_text())
    } else {
        out.only_works() && (out.work matches Work::StorePreKeys { user_id, upload_id, prekeys }
            && user_id@ == user && upload_id == id && decoded_prekeys(prekeys@, offered))
    }
}

/// Begins the upload of one-time pre-keys.
pub fn handle_upload(user_id: String, upload_id: MessageId, prekeys: &Vec<OneTimePreKey>) -> (out:
    Step)
    ensures
        begins_upload(out, user_id@, upload_id, prekeys@),
{
    match check_upload(prekeys) {
        Ok(pairs) => Step::work(Work::StorePreKeys { user_id, upload_id, prekeys: pairs }),
        Err(reply) => Step::answer(reply),
    }
}

/// Answers an upload.
pub fn prekeys_stored(upload_id: MessageId, result: Result<UploadResult, StorageError>) -> (out:
    Step)
    ensures
        match result {
            Ok(UploadResult::Accepted(remaining)) => out.is_answer() && out.reply == Some(
                ServerMessage::PreKeysUploaded { upload_id, accepted: true, remaining },
            ),
            Ok(UploadResult::InventoryFull(remaining)) => out.is_answer() && out.reply == Some(
                ServerMessage::PreKeysUploaded { upload_id, accepted: false, remaining },
            ),
            Ok(UploadResult::InvalidSequence) => out.is_refusal(
                400,
                "prekey IDs must increase monotonically"@,
            ),
            Err(_) => out.is_failure(),
        },
{
    Step::answer(answer_upload(&upload_id, result))
}

/// How the rotation to a new signed pre-key begins.
pub open spec fn begins_rotation(
    out: Step,
    user: Seq<char>,
    id: MessageId,
    number: u32,
    key_text: Seq<char>,
    signature_text: Seq<char>,
) -> bool {
    match signed_prekey_fault(key_text, signature_text) {
        Some(text) => out.is_refusal(400, text),
        None => out.only_works() && (out.work matches Work::RotationIdentity(key) && key.user_id@
            == user && key.rotation_id == id && key.key_id == number && base64_bytes(key_text)
            == Some(key.public_key@) && base64_bytes(signature_text) == Some(key.signature@)),
    }
}

/// Begins the rotation to a new signed pre-key.
pub fn handle_signed_prekey_rotation(
    user_id: String,
    rotation_id: MessageId,
    key_id: u32,
    public_key: &str,
    signature: &str,
) -> (out: Step)
    ensures
        begins_rotation(out, user_id@, rotation_id, key_id, public_key@, signature@),
{
    match decode_signed_prekey(public_key, signature) {
        Ok((public_key, signature)) => Step::work(
            Work::RotationIdentity(
                NewSignedPreKey { user_id, rotation_id, key_id, public_key, signature },
            ),
        ),
        Err(reply) => Step::answer(reply),
    }
}

/// Goes on with a rotation: `found` is the identity key of the user, which
/// must have signed the new key.
pub fn rotation_identity_found(
    key: NewSignedPreKey,
    found: Result<Option<Vec<u8>>, StorageError>,
) -> (out: Step)
    ensures
        match found {
            Err(_) => out.is_failure(),
            Ok(None) => out.is_refusal(404, "not found"@),
            Ok(Some(identity)) => if identity@.len() != 32 || !ed25519_decodes(identity@) {
                out.is_failure()
            } else if !ed25519_verifies(identity@, key.public_key@, key.signature@) {
                out.is_refusal(400, "signed prekey signature is invalid"@)
            } else {
                out.only_works() && out.work == Work::StoreSignedPreKey(key)
            },
        },
{
    match verify_signed_prekey(found, &key.public_key, &key.signature) {
        Ok(()) => Step::work(Work::StoreSignedPreKey(key)),
        Err(reply) => Step::answer(reply),
    }
}

/// A rotation is answered.
pub open spec fn answers_rotation(
    out: Step,
    id: MessageId,
    taken: bool,
    taken_before: bool,
    current: u32,
) -> bool {
    out.is_answer() && out.reply == Some(
        ServerMessage::SignedPreKeyRotated {
            rotation_id: id,
            accepted: taken,
            previously_accepted: taken_before,
            current_key_id: current,
        },
    )
}

/// Answers a rotation.
pub fn signed_prekey_stored(
    rotation_id: MessageId,
    result: Result<SignedPreKeyRotationResult, StorageError>,
) -> (out: Step)
    ensures
        match result {
            Ok(SignedPreKeyRotationResult::Accepted { current_key_id }) => answers_rotation(
                out,
                rotation_id,
                true,
                false,
                current_key_id,
            ),
            Ok(SignedPreKeyRotationResult::PreviouslyAccepted { current_key_id }) =>
            answers_rotation(out, rotation_id, false, true, current_key_id),
            Ok(SignedPreKeyRotationResult::InvalidSequence { current_key_id }) => answers_rotation(
                out,
                rotation_id,
                false,
                false,
                current_key_id,
            ),
            Ok(SignedPreKeyRotationResult::Conflict { current_key_id }) => answers_rotation(
                out,
                rotation_id,
                false,
                false,
                current_key_id,
            ),
            Err(_) => out.is_failure(),
        },
{
    Step::answer(answer_rotation(&rotation_id, result))
}

/// How the sending of a message begins.
pub open spec fn begins_send(
    out: Step,
    user: Seq<char>,
    to: UserId,
    id: MessageId,
    sealed: EncryptedEnvelope,
    now: u64,
) -> bool {
    match envelope_fault(sealed) {
        Some(reason) => out.is_refusal(400, reason),
        None => if !valid_user_id(user) {
            out.is_failure()
        } else {
            out.only_works() && (out.work matches Work::Measure { recipient, inbound } && recipient
                == to && inbound.message_id == id && inbound.sender_id@ == user && inbound.envelope
                == sealed && inbound.timestamp == now)
        },
    }
}

/// Begins the sending of a message.
pub fn handle_send(
    sender: &str,
    recipient: UserId,
    message_id: MessageId,
    envelope: EncryptedEnvelope,
    now: u64,
) -> (out: Step)
    ensures
        begins_send(out, sender@, recipient, message_id, envelope, now),
{
    match check_send(sender, &message_id, envelope, now) {
        Ok(inbound) => Step::work(Work::Measure { recipient, inbound }),
        Err(reply) => Step::answer(reply),
    }
}

/// Goes on with a message. `page_bytes` is the size of a page of the queue
/// with it alone, and `envelope_json` its encoded envelope, if they could be
/// encoded.
pub fn message_measured(
    recipient: UserId,
    inbound: InboundMessage,
    page_bytes: Option<usize>,
    envelope_json: Option<String>,
    now: u64,
) -> (out: Step)
    ensures
        if page_bytes is None {
            out.is_refusal(400, "invalid envelope"@)
        } else if page_bytes->0 > MAX_QUEUED_PAGE_BYTES {
            out.is_refusal(400, "message exceeds queued delivery size"@)
        } else if envelope_json is None {
            out.is_refusal(400, "invalid envelope"@)
        } else {
            out.only_works() && (out.work matches Work::Enqueue {
                recipient: r,
                inbound: m,
                request,
            } && r == recipient && m == inbound && request.message_id@ == uuid_text(
                inbound.message_id@,
            ) && request.recipient_id@ == recipient@ && request.sender_id@ == inbound.sender_id@
                && request.envelope_json == envelope_json->0 && request.max_queue_per_user
                == MAX_QUEUE_PER_USER && (request.signed_prekey_id, request.one_time_prekey_id)
                == named_prekeys(inbound.envelope.header) && request.now == now)
        },
{
    match check_page_size(page_bytes) {
        Ok(()) => {},
        Err(reply) => return Step::answer(reply),
    }
    match envelope_json {
        Some(envelope_json) => {
            let request = enqueue_request(&inbound, &recipient, envelope_json, now);
            Step::work(Work::Enqueue { recipient, inbound, request })
        },
        None => Step::answer(error_400("invalid envelope")),
    }
}

/// What follows from what became of a message in the database: if it is there,
/// it is pushed to its recipient, and otherwise its sender is told why.
pub open spec fn follows_storing(
    out: Step,
    to: UserId,
    inbound: InboundMessage,
    result: Result<EnqueueResult, StorageError>,
) -> bool {
    if on_its_way(result) {
        out.only_works() && (out.work matches Work::Push { recipient, message, sender, message_id }
            && recipient@ == to@ && message == ServerMessage::IncomingMessage(inbound) && sender@
            == inbound.sender_id@ && message_id == inbound.message_id)
    } else {
        out.is_answer() && refuses_message(result, inbound.message_id, out.reply->0)
    }
}

/// Goes on with a message that the database was given.
pub fn message_stored(
    recipient: UserId,
    inbound: InboundMessage,
    result: Result<EnqueueResult, StorageError>,
) -> (out: Step)
    ensures
        follows_storing(out, recipient, inbound, result),
{
    let message_id = inbound.message_id;
    match validate_enqueue_result(result, &message_id) {
        Ok(()) => {
            let sender = inbound.sender_id.as_str().to_owned();
            Step::work(
                Work::Push {
                    recipient: recipient.into_inner(),
                    message: ServerMessage::IncomingMessage(inbound),
                    sender,
                    message_id,
                },
            )
        },
        Err(reply) => Step::answer(reply),
    }
}

/// Answers a message. Its sender also hears that it was delivered, if it was
/// pushed to its recipient.
pub fn message_pushed(sender: String, message_id: MessageId, pushed: bool) -> (out: Step)
    ensures
        out.reply == Some(ServerMessage::MessageSent { message_id }),
        out.work is Done,
        if pushed {
            out.push@.len() == 1 && out.push@[0].0 == sender && (out.push@[0].1 matches
                ServerMessage::MessageDelivered { message_ids } && message_ids@
                == seq![message_id])
        } else {
            out.push@.len() == 0
        },
{
    let (notice, reply) = answer_send(&message_id, pushed);
    let mut push: Vec<(String, ServerMessage)> = Vec::new();
    match notice {
        Some(notice) => {
            push.push((sender, notice));
        },
        None => {},
    }
    Step { reply: Some(reply), push, work: Work::Done }
}

/// How the acknowledgement of messages begins.
pub open spec fn begins_ack(out: Step, user: Seq<char>, id: MessageId, acked: Seq<MessageId>) -> bool {
    if acked.len() > MAX_ACK_BATCH {
        out.is_refusal(400, "ack batch exceeds maximum size"@)
    } else {
        out.only_works() && (out.work matches Work::DeleteMessages {
            user_id,
            ids,
            ack_id,
            message_ids,
        } && user_id@ == user && texts(ids@) == id_texts(acked) && ack_id == id && message_ids@
            == acked)
    }
}

/// Begins the acknowledgement of messages.
pub fn handle_ack(user_id: String, ack_id: MessageId, message_ids: Vec<MessageId>) -> (out: Step)
    ensures
        begins_ack(out, user_id@, ack_id, message_ids@),
{
    match check_ack(&message_ids) {
        Some(reply) => Step::answer(reply),
        None => {
            let ids = texts_of_ids(&message_ids);
            Step::work(Work::DeleteMessages { user_id, ids, ack_id, message_ids })
        },
    }
}

/// Answers an acknowledgement of messages.
pub fn messages_deleted(
    ack_id: MessageId,
    message_ids: Vec<MessageId>,
    stored: Result<(), StorageError>,
) -> (out: Step)
    ensures
        match stored {
            Ok(_) => out.is_answer() && out.reply == Some(
                ServerMessage::AckSuccess { ack_id, message_ids },
            ),
            Err(_) => out.is_failure(),
        },
{
    Step::answer(answer_ack(&ack_id, message_ids, stored))
}

/// How a user's confirmation begins that it heard which of its messages were
/// taken in.
pub open spec fn begins_sent_ack(out: Step, user: Seq<char>, confirmed: Seq<MessageId>) -> bool {
    if confirmed.len() > MAX_ACK_BATCH {
        out.is_refusal(400, "ack batch exceeds maximum size"@)
    } else {
        out.only_works() && (out.work matches Work::ConfirmSent { user_id, ids } && user_id@ == user
            && texts(ids@) == id_texts(confirmed))
    }
}

/// Begins such a confirmation.
pub fn handle_message_sent_ack(user_id: String, message_ids: &Vec<MessageId>) -> (out: Step)
    ensures
        begins_sent_ack(out, user_id@, message_ids@),
{
    match check_ack(message_ids) {
        Some(reply) => Step::answer(reply),
        None => Step::work(Work::ConfirmSent { user_id, ids: texts_of_ids(message_ids) }),
    }
}

/// Ends such a confirmation: it is answered only if it failed.
pub fn sent_confirmed(stored: Result<(), StorageError>) -> (out: Step)
    ensures
        match stored {
            Ok(_) => out.is_quiet(),
            Err(_) => out.is_failure(),
        },
{
    match answer_sent_ack(stored) {
        Some(reply) => Step::answer(reply),
        None => Step::work(Work::Done),
    }
}

/// What a notice of typing does.
pub open spec fn relays_typing(out: Step, user: Seq<char>, to: UserId) -> bool {
    if valid_user_id(user) {
        &&& out.reply is None
        &&& out.work is Done
        &&& out.push@.len() == 1
        &&& out.push@[0].0@ == to@
        &&& out.push@[0].1 matches ServerMessage::PeerTyping { sender_id } && sender_id@ == user
    } else {
        out.is_quiet()
    }
}

/// Relays a notice of typing to who is online. It is never queued.
pub fn handle_typing(from: &str, to: UserId) -> (out: Step)
    ensures
        relays_typing(out, from@, to),
{
    match typing_notice(from) {
        Some(notice) => Step::tell(to.into_inner(), notice),
        None => Step::work(Work::Done),
    }
}

/// How the sending of a read receipt begins.
pub open spec fn begins_receipt(
    out: Step,
    user: Seq<char>,
    to: UserId,
    id: MessageId,
    sealed: EncryptedEnvelope,
) -> bool {
    match envelope_fault(sealed) {
        Some(reason) => out.is_refusal(400, reason),
        None => if !valid_user_id(user) {
            out.is_quiet()
        } else {
            out.only_works() && (out.work matches Work::EncodeReceipt(receipt) && receipt.sender@
                == user && receipt.recipient == to && receipt.receipt_id == id && receipt.envelope
                == sealed)
        },
    }
}

/// Begins the sending of a read receipt.
pub fn handle_read_receipt(
    from: &str,
    recipient: UserId,
    receipt_id: MessageId,
    envelope: EncryptedEnvelope,
) -> (out: Step)
    ensures
        begins_receipt(out, from@, recipient, receipt_id, envelope),
{
    match validate_envelope(&envelope) {
        Ok(()) => {},
        Err(reason) => return Step::answer(error_400(reason)),
    }
    match UserId::new(from) {
        Ok(sender) => Step::work(
            Work::EncodeReceipt(Receipt { sender, recipient, receipt_id, envelope }),
        ),
        Err(_) => Step::work(Work::Done),
    }
}

/// Goes on with a receipt: `envelope_json` is its encoded envelope, if it
/// could be encoded.
pub fn receipt_encoded(receipt: Receipt, envelope_json: Option<String>) -> (out: Step)
    ensures
        match envelope_json {
            Some(json) => out.only_works() && out.work == (Work::StoreReceipt {
                receipt,
                envelope_json: json,
                max_queue_per_user: MAX_QUEUE_PER_USER,
            }),
            None => out.is_refusal(400, "invalid envelope"@),
        },
{
    match envelope_json {
        Some(envelope_json) => Step::work(
            Work::StoreReceipt { receipt, envelope_json, max_queue_per_user: MAX_QUEUE_PER_USER },
        ),
        None => Step::answer(error_400("invalid envelope")),
    }
}

/// The receipt waits in the database for its recipient.
pub open spec fn receipt_waits(result: Result<ReceiptResult, StorageError>) -> bool {
    result == Ok::<ReceiptResult, StorageError>(ReceiptResult::Inserted) || result == Ok::<
        ReceiptResult,
        StorageError,
    >(ReceiptResult::Duplicate)
}

/// Ends the sending of a receipt: if it waits, its recipient gets it and its
/// sender hears of it later, and otherwise the sender is answered at once.
pub fn receipt_stored(receipt: Receipt, result: Result<ReceiptResult, StorageError>) -> (out: Step)
    ensures
        if receipt_waits(result) {
            out.only_tells(
                receipt.recipient@,
                ServerMessage::IncomingReadReceipt {
                    sender_id: receipt.sender,
                    receipt_id: receipt.receipt_id,
                    envelope: receipt.envelope,
                },
            )
        } else {
            out.is_answer() && receipt_reply(result, receipt.receipt_id, out.reply)
        },
{
    match answer_receipt(result, &receipt.receipt_id) {
        Some(reply) => Step::answer(reply),
        None => Step::tell(
            receipt.recipient.into_inner(),
            relayed_receipt(receipt.sender, &receipt.receipt_id, receipt.envelope),
        ),
    }
}

/// How the acknowledgement of receipts begins.
pub open spec fn begins_receipt_ack(
    out: Step,
    user: Seq<char>,
    id: MessageId,
    acked: Seq<MessageId>,
) -> bool {
    if acked.len() > MAX_RECEIPT_BATCH {
        out.is_refusal(400, "read receipt ack exceeds maximum size"@)
    } else {
        out.only_works() && (out.work matches Work::AcknowledgeReceipts {
            user_id,
            ids,
            ack_id,
            receipt_ids,
        } && user_id@ == user && texts(ids@) == id_texts(acked) && ack_id == id && receipt_ids@
            == acked)
    }
}

/// Begins the acknowledgement of receipts.
pub fn handle_read_receipt_ack(
    user_id: String,
    ack_id: MessageId,
    receipt_ids: Vec<MessageId>,
) -> (out: Step)
    ensures
        begins_receipt_ack(out, user_id@, ack_id, receipt_ids@),
{
    match check_receipt_ack(&receipt_ids) {
        Some(reply) => Step::answer(reply),
        None => {
            let ids = texts_of_ids(&receipt_ids);
            Step::work(Work::AcknowledgeReceipts { user_id, ids, ack_id, receipt_ids })
        },
    }
}

/// Answers an acknowledgement of receipts, and tells their senders.
/// `acknowledged` holds the known ones, as pairs of identifier and sender.
pub fn receipts_acknowledged(
    ack_id: MessageId,
    receipt_ids: Vec<MessageId>,
    acknowledged: Result<Vec<(String, String)>, StorageError>,
) -> (out: Step)
    ensures
        match acknowledged {
            Ok(known) => {
                &&& out.reply == Some(
                    ServerMessage::AckSuccess { ack_id, message_ids: receipt_ids },
                )
                &&& out.work is Done
                &&& out.push@.len() == readable_receipts(known@).len()
                &&& forall|i: int|
                    0 <= i < out.push@.len() ==> is_notice(
                        #[trigger] out.push@[i],
                        readable_receipts(known@)[i],
                    )
            },
            Err(_) => out.is_failure(),
        },
{
    match acknowledged {
        Ok(known) => Step {
            reply: Some(answer_ack(&ack_id, receipt_ids, Ok(()))),
            push: receipt_notices(&known),
            work: Work::Done,
        },
        Err(fault) => Step::answer(answer_ack(&ack_id, receipt_ids, Err(fault))),
    }
}

/// How a user's confirmation begins that it heard which of its receipts were
/// acknowledged.
pub open spec fn begins_receipt_confirmation(
    out: Step,
    user: Seq<char>,
    confirmed: Seq<MessageId>,
) -> bool {
    if confirmed.len() > MAX_RECEIPT_BATCH {
        out.is_refusal(400, "read receipt confirmation exceeds maximum size"@)
    } else {
        out.only_works() && (out.work matches Work::ConfirmReceipts { user_id, ids } && user_id@
            == user && texts(ids@) == id_texts(confirmed))
    }
}

/// Begins such a confirmation.
pub fn handle_read_receipt_sent_ack(user_id: String, receipt_ids: &Vec<MessageId>) -> (out: Step)
    ensures
        begins_receipt_confirmation(out, user_id@, receipt_ids@),
{
    match check_receipt_confirmation(receipt_ids) {
        Some(reply) => Step::answer(reply),
        None => Step::work(Work::ConfirmReceipts { user_id, ids: texts_of_ids(receipt_ids) }),
    }
}

/// Answers such a confirmation.
pub fn receipts_confirmed(stored: Result<(), StorageError>) -> (out: Step)
    ensures
        match stored {
            Ok(_) => out.is_answer() && out.reply->0 is Success,
            Err(_) => out.is_failure(),
        },
{
    Step::answer(answer_receipt_confirmation(stored))
}

/// Begins to serve a request of a user.
pub fn serve(user_id: String, request: ClientMessage, now: u64) -> (out: Step)
    ensures
        match request {
            ClientMessage::UploadPreKeys { upload_id, prekeys } => begins_upload(
                out,
                user_id@,
                upload_id,
                prekeys@,
            ),
            ClientMessage::RotateSignedPreKey { rotation_id, key_id, public_key, signature } =>
            begins_rotation(out, user_id@, rotation_id, key_id, public_key@, signature@),
            ClientMessage::FetchPreKeyBundle { target_user_id } => begins_fetch(
                out,
                user_id@,
                target_user_id,
            ),
            ClientMessage::SendMessage { recipient_id, message_id, envelope } => begins_send(
                out,
                user_id@,
                recipient_id,
                message_id,
                envelope,
                now,
            ),
            ClientMessage::Ack { ack_id, message_ids } => begins_ack(
                out,
                user_id@,
                ack_id,
                message_ids@,
            ),
            ClientMessage::AckMessageSent { message_ids } => begins_sent_ack(
                out,
                user_id@,
                message_ids@,
            ),
            ClientMessage::Typing { recipient_id } => relays_typing(out, user_id@, recipient_id),
            ClientMessage::SendReadReceipt { recipient_id, receipt_id, envelope } => begins_receipt(
                out,
                user_id@,
                recipient_id,
                receipt_id,
                envelope,
            ),
            ClientMessage::AckReadReceipt { ack_id, receipt_ids } => begins_receipt_ack(
                out,
                user_id@,
                ack_id,
                receipt_ids@,
            ),
            ClientMessage::AckReadReceiptSent { receipt_ids } => begins_receipt_confirmation(
                out,
                user_id@,
                receipt_ids@,
            ),
            _ => out.is_refusal(400, "unhandled message type"@),
        },
{
    match request {
        ClientMessage::UploadPreKeys { upload_id, prekeys } => handle_upload(
            user_id,
            upload_id,
            &prekeys,
        ),
        ClientMessage::RotateSignedPreKey { rotation_id, key_id, public_key, signature } =>
        handle_signed_prekey_rotation(
            user_id,
            rotation_id,
            key_id,
            public_key.as_str(),
            signature.as_str(),
        ),
        ClientMessage::FetchPreKeyBundle { target_user_id } => handle_fetch(
            user_id,
            target_user_id,
        ),
        ClientMessage::SendMessage { recipient_id, message_id, envelope } => handle_send(
            user_id.as_str(),
            recipient_id,
            message_id,
            envelope,
            now,
        ),
        ClientMessage::Ack { ack_id, message_ids } => handle_ack(user_id, ack_id, message_ids),
        ClientMessage::AckMessageSent { message_ids } => handle_message_sent_ack(
            user_id,
            &message_ids,
        ),
        ClientMessage::Typing { recipient_id } => handle_typing(user_id.as_str(), recipient_id),
        ClientMessage::SendReadReceipt { recipient_id, receipt_id, envelope } =>
        handle_read_receipt(user_id.as_str(), recipient_id, receipt_id, envelope),
        ClientMessage::AckReadReceipt { ack_id, receipt_ids } => handle_read_receipt_ack(
            user_id,
            ack_id,
            receipt_ids,
        ),
        ClientMessage::AckReadReceiptSent { receipt_ids } => handle_read_receipt_sent_ack(
            user_id,
            &receipt_ids,
        ),
        _ => Step::answer(error_400("unhandled message type")),
    }
}

/// A message is pushed and confirmed only once the database has it. If the
/// database does not have it, nobody but its sender hears of it, and the sender
/// is not told that it was sent.
pub proof fn law_sent_is_stored(
    step: Step,
    recipient: UserId,
    inbound: InboundMessage,
    result: Result<EnqueueResult, StorageError>,
)
    requires
        follows_storing(step, recipient, inbound, result),
    ensures
        step.work is Push <==> on_its_way(result),
        step.push@.len() == 0,
        !on_its_way(result) ==> step.is_answer() && !(step.reply->0 is MessageSent),
{
}

/// No request reaches another user before it was checked: the first step of a
/// request that is not well-formed is an answer, and tells nobody else.
pub proof fn law_malformed_reaches_nobody(
    message: Step,
    receipt: Step,
    user: Seq<char>,
    recipient: UserId,
    id: MessageId,
    envelope: EncryptedEnvelope,
    now: u64,
)
    requires
        begins_send(message, user, recipient, id, envelope, now),
        begins_receipt(receipt, user, recipient, id, envelope),
        envelope_fault(envelope) is Some,
    ensures
        message.is_refusal(400, envelope_fault(envelope)->0),
        receipt.is_refusal(400, envelope_fault(envelope)->0),
{
}

} // verus!
