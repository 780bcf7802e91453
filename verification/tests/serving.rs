use std::collections::BTreeMap;

use base64::engine::general_purpose::STANDARD as B64;
use base64::Engine;
use messenger::crypto::keys::{generate_one_time_prekeys, IdentityKeyPair, SignedPreKey};
use messenger::protocol::consts::{
    MAX_CIPHERTEXT_BYTES, MAX_PREKEYS_PER_USER, MAX_QUEUED_MESSAGES_PER_PAGE,
    MAX_QUEUED_PAGE_BYTES, PROTOCOL_VERSION,
};
use messenger::protocol::{
    ClientMessage, EncryptedEnvelope, InboundMessage, MessageHeader, MessageId, OneTimePreKey,
    PreKeyBundle, RatchetHeader, ServerMessage, UserId,
};
use messenger::server::admission::{authenticate, finish_login, finish_register, Admission, Entry};
use messenger::server::auth::{answer_challenge, begin_challenge, Registration};
use messenger::server::connection::{replaced_notice, ConnectionRegistry};
use messenger::server::delivery::{
    delivery_notices, queued_receipt_to_message, readable_ids, PageStep, Pager, RowStep,
};
use messenger::server::handlers::{handle_message, Route, Session, StorageError};
use messenger::server::prekeys::{
    fetch_for_requester, reserved_until, rotate_signed_prekey, upload_prekeys, FetchFacts,
    FetchLimits, FetchResult, RotationFacts, SignedPreKeyRotationResult, SignedPreKeyRow,
    UploadResult,
};
use messenger::server::queue::{
    enqueue, Acceptance, EnqueueRequest, EnqueueResult, QueueFacts, QueuedRow,
};
use messenger::server::receipts::EnqueueResult as ReceiptResult;
use messenger::server::receipts::{enqueue as enqueue_receipt, KnownReceipt, QueuedReceipt, ReceiptFacts};
use messenger::server::serving::{
    fetch_identity_found, fetch_prekey_taken, fetch_signed_found, message_measured, message_pushed,
    message_stored, messages_deleted, prekeys_counted, prekeys_stored, receipt_encoded,
    receipt_stored, receipts_acknowledged, receipts_confirmed, rotation_identity_found,
    sent_confirmed, serve, signed_prekey_stored, NewSignedPreKey, Receipt, Step, Work,
};

const SERVER_ID: &str = "test-server";

struct Account {
    identity: Vec<u8>,
    signed: Vec<(u32, Vec<u8>, Vec<u8>)>,
    prekeys: Vec<(u32, Vec<u8>)>,
}

struct QueueItem {
    row_id: i64,
    message_id: String,
    recipient: String,
    sender: String,
    json: String,
}

struct AcceptedItem {
    message_id: String,
    recipient: String,
    sender: String,
    digest: [u8; 32],
}

struct ReceiptItem {
    receipt_id: String,
    recipient: String,
    sender: String,
    json: String,
    acknowledged: bool,
}

/// A relay whose database is in memory.
struct Server {
    accounts: BTreeMap<String, Account>,
    queue: Vec<QueueItem>,
    accepted: Vec<AcceptedItem>,
    receipts: Vec<ReceiptItem>,
    reservations: BTreeMap<(String, String, u32), u64>,
    fetches: Vec<(String, String)>,
    envelopes: BTreeMap<String, EncryptedEnvelope>,
    last_row: i64,
    now: u64,
    broken: bool,
    registry: ConnectionRegistry,
    sockets: BTreeMap<u64, usize>,
    wires: Vec<Vec<ServerMessage>>,
}

struct Connection {
    session: Session,
    wire: usize,
    closed: bool,
}

fn encoded(envelope: &EncryptedEnvelope) -> String {
    format!("{envelope:?}")
}

fn page_bytes(messages: &[InboundMessage]) -> usize {
    let items: Vec<String> = messages.iter().map(|message| format!("{message:?}")).collect();
    format!("[{}]", items.join(",")).len()
}

impl Server {
    fn start() -> Self {
        Server {
            accounts: BTreeMap::new(),
            queue: Vec::new(),
            accepted: Vec::new(),
            receipts: Vec::new(),
            reservations: BTreeMap::new(),
            fetches: Vec::new(),
            envelopes: BTreeMap::new(),
            last_row: 0,
            now: 1_700_000_000,
            broken: false,
            registry: ConnectionRegistry::new(),
            sockets: BTreeMap::new(),
            wires: Vec::new(),
        }
    }

    fn connect(&mut self) -> Connection {
        self.wires.push(Vec::new());
        Connection { session: Session::new(), wire: self.wires.len() - 1, closed: false }
    }

    fn close(&mut self, connection: Connection) {
        if let (Some(user), Some(id)) =
            (&connection.session.authed_user, connection.session.conn_id)
        {
            self.registry.remove_if_match(user, id);
            self.sockets.remove(&id);
        }
    }

    fn receive(&mut self, connection: &Connection) -> ServerMessage {
        let wire = &mut self.wires[connection.wire];
        assert!(!wire.is_empty(), "nothing was sent");
        wire.remove(0)
    }

    fn heard_nothing(&self, connection: &Connection) -> bool {
        self.wires[connection.wire].is_empty()
    }

    fn push(&mut self, user: &str, message: ServerMessage) -> bool {
        let wire = self.registry.connection_of(user).and_then(|id| self.sockets.get(&id).copied());
        if let Some(wire) = wire {
            self.wires[wire].push(message);
        }
        wire.is_some()
    }

    fn ask<T>(&self, answer: T) -> Result<T, StorageError> {
        if self.broken {
            Err(StorageError)
        } else {
            Ok(answer)
        }
    }

    fn send(&mut self, connection: &mut Connection, request: ClientMessage) {
        assert!(!connection.closed, "the connection is closed");
        let was_known = connection.session.authed_user.is_some();
        match handle_message(&connection.session, &self.registry, request) {
            Route::Stop => connection.closed = true,
            Route::Answer(reply) => self.wires[connection.wire].push(reply),
            Route::Auth(request) => {
                let reply = self.let_in(connection, request);
                self.wires[connection.wire].push(reply);
            }
            Route::User { user_id, request } => {
                let step = serve(user_id, request, self.now);
                self.perform(connection.wire, step);
            }
        }
        if !was_known {
            if let Some(user) = connection.session.authed_user.clone() {
                self.deliver(connection.wire, &user);
                if connection.session.deliver_prekey_status {
                    connection.session.deliver_prekey_status = false;
                    let remaining = self.count(&user);
                    self.perform(connection.wire, prekeys_counted(user, remaining));
                }
            }
        }
    }

    fn let_in(&mut self, connection: &mut Connection, request: ClientMessage) -> ServerMessage {
        let session = &mut connection.session;
        let admission = match authenticate(session, request, self.now) {
            Entry::Answer(reply) => return reply,
            Entry::FindUser(user) => {
                let known = self.ask(self.accounts.contains_key(user.as_str()));
                return begin_challenge(session, &user, known, self.now, SERVER_ID);
            }
            Entry::Register(registration) => {
                let user = registration.user_id.clone();
                let stored = self.register(registration);
                finish_register(session, &mut self.registry, user, stored)
            }
            Entry::LogIn { challenge, signature } => {
                let found = self.identity(&challenge.user_id);
                finish_login(
                    session,
                    &mut self.registry,
                    challenge,
                    &signature,
                    found,
                    SERVER_ID,
                )
            }
        };
        let Admission { reply, connection: entered } = admission;
        if let Some((id, displaced)) = entered {
            self.sockets.insert(id, connection.wire);
            if let Some(old) = displaced.and_then(|old| self.sockets.remove(&old)) {
                self.wires[old].push(replaced_notice());
            }
        }
        reply
    }

    fn register(&mut self, registration: Registration) -> Result<bool, StorageError> {
        let name = registration.user_id.as_str().to_owned();
        if self.accounts.contains_key(&name) {
            return self.ask(false);
        }
        let account = Account {
            identity: registration.identity_key,
            signed: vec![(
                registration.signed_prekey_id,
                registration.signed_prekey_public,
                registration.signed_prekey_signature,
            )],
            prekeys: registration.one_time_prekeys,
        };
        self.accounts.insert(name, account);
        self.ask(true)
    }

    fn identity(&self, user: &str) -> Result<Option<Vec<u8>>, StorageError> {
        self.ask(self.accounts.get(user).map(|account| account.identity.clone()))
    }

    fn signed(&self, user: &str, id: Option<u32>) -> Option<SignedPreKeyRow> {
        let account = self.accounts.get(user)?;
        let mut rows: Vec<_> = account
            .signed
            .iter()
            .filter(|row| id.is_none() || id == Some(row.0))
            .collect();
        rows.sort();
        rows.last().map(|row| SignedPreKeyRow {
            key_id: row.0,
            public_key: row.1.clone(),
            signature: row.2.clone(),
        })
    }

    fn take_prekey(
        &mut self,
        requester: &str,
        target: &str,
        limits: &FetchLimits,
    ) -> Result<FetchResult, StorageError> {
        let by = self.fetches.iter().filter(|fetch| fetch.0 == requester).count();
        let of = self.fetches.iter().filter(|fetch| fetch.1 == target).count();
        let account = self.accounts.get_mut(target).unwrap();
        let facts = FetchFacts {
            requester_count: by as u32,
            target_count: of as u32,
            prekey: account.prekeys.first().cloned(),
        };
        let result = fetch_for_requester(limits, facts);
        if !matches!(result, FetchResult::RateLimited) {
            self.fetches.push((requester.to_owned(), target.to_owned()));
        }
        if let FetchResult::Fetched { key_id, .. } = &result {
            account.prekeys.remove(0);
            self.reservations.insert(
                (requester.to_owned(), target.to_owned(), *key_id),
                reserved_until(self.now),
            );
        }
        self.ask(result)
    }

    fn count(&self, user: &str) -> Result<u32, StorageError> {
        self.ask(self.accounts[user].prekeys.len() as u32)
    }

    fn upload(
        &mut self,
        user: &str,
        prekeys: Vec<(u32, Vec<u8>)>,
        most: usize,
    ) -> Result<UploadResult, StorageError> {
        let account = self.accounts.get_mut(user).unwrap();
        let inventory: Vec<u32> = account.prekeys.iter().map(|pair| pair.0).collect();
        let result = upload_prekeys(&inventory, &prekeys, most);
        if matches!(result, UploadResult::Accepted(_)) {
            for (id, key) in prekeys {
                if !account.prekeys.iter().any(|pair| pair.0 == id) {
                    account.prekeys.push((id, key));
                }
            }
        }
        self.ask(result)
    }

    fn rotate(
        &mut self,
        key: &NewSignedPreKey,
    ) -> Result<SignedPreKeyRotationResult, StorageError> {
        let facts = RotationFacts {
            current_key_id: self.signed(&key.user_id, None).unwrap().key_id,
            same_id: self.signed(&key.user_id, Some(key.key_id)),
        };
        let known = facts.same_id.is_some();
        let result = rotate_signed_prekey(key.key_id, &key.public_key, &key.signature, &facts);
        if matches!(result, SignedPreKeyRotationResult::Accepted { .. }) && !known {
            let account = self.accounts.get_mut(&key.user_id).unwrap();
            account.signed.push((key.key_id, key.public_key.to_vec(), key.signature.to_vec()));
        }
        self.ask(result)
    }

    fn enqueue(&mut self, request: EnqueueRequest) -> Result<EnqueueResult, StorageError> {
        let of_sender =
            self.accepted.iter().filter(|item| item.sender == request.sender_id).count();
        let reservation = request.one_time_prekey_id.map(|id| {
            (request.sender_id.clone(), request.recipient_id.clone(), id)
        });
        let facts = QueueFacts {
            existing: self
                .accepted
                .iter()
                .find(|item| item.message_id == request.message_id)
                .map(|item| Acceptance {
                    recipient_id: item.recipient.clone(),
                    sender_id: item.sender.clone(),
                    envelope_digest: item.digest.to_vec(),
                }),
            recipient_exists: self.accounts.contains_key(&request.recipient_id),
            queue_depth: self
                .queue
                .iter()
                .filter(|item| item.recipient == request.recipient_id)
                .count() as u64,
            sender_acceptances: of_sender as u64,
            global_acceptances: self.accepted.len() as u64,
            signed_prekey_kept: request
                .signed_prekey_id
                .is_some_and(|id| self.signed(&request.recipient_id, Some(id)).is_some()),
            reserved_until: reservation
                .as_ref()
                .and_then(|reservation| self.reservations.get(reservation).copied()),
            queued: self.queue.iter().any(|item| item.message_id == request.message_id),
        };
        let decision = enqueue(&request, &facts);
        if let Some(digest) = decision.commit {
            if let Some(reservation) = reservation {
                self.reservations.remove(&reservation);
            }
            self.last_row += 1;
            self.accepted.push(AcceptedItem {
                message_id: request.message_id.clone(),
                recipient: request.recipient_id.clone(),
                sender: request.sender_id.clone(),
                digest,
            });
            self.queue.push(QueueItem {
                row_id: self.last_row,
                message_id: request.message_id,
                recipient: request.recipient_id,
                sender: request.sender_id,
                json: request.envelope_json,
            });
        }
        self.ask(decision.result)
    }

    fn store_receipt(
        &mut self,
        receipt: &Receipt,
        json: String,
        most: usize,
    ) -> Result<ReceiptResult, StorageError> {
        let receipt_id = receipt.receipt_id.to_text();
        let recipient = receipt.recipient.as_str().to_owned();
        let sender = receipt.sender.as_str().to_owned();
        let facts = ReceiptFacts {
            existing: self.receipts.iter().find(|item| item.receipt_id == receipt_id).map(
                |item| KnownReceipt {
                    recipient_id: item.recipient.clone(),
                    sender_id: item.sender.clone(),
                    acknowledged: item.acknowledged,
                },
            ),
            recipient_count: 0,
            sender_count: 0,
        };
        let result = enqueue_receipt(&recipient, &sender, most, &facts);
        if result == ReceiptResult::Inserted {
            self.receipts.push(ReceiptItem {
                receipt_id,
                recipient,
                sender,
                json,
                acknowledged: false,
            });
        }
        self.ask(result)
    }

    fn perform(&mut self, wire: usize, first: Step) {
        let mut step = first;
        loop {
            for (user, message) in step.push {
                self.push(&user, message);
            }
            if let Some(reply) = step.reply {
                self.wires[wire].push(reply);
            }
            step = match step.work {
                Work::Done => return,
                Work::FetchIdentity { requester, target } => {
                    let found = self.identity(target.as_str());
                    fetch_identity_found(requester, target, found)
                }
                Work::FetchSigned { requester, target, identity_key } => {
                    let found = self.ask(self.signed(target.as_str(), None));
                    fetch_signed_found(requester, target, identity_key, found)
                }
                Work::FetchPreKey { requester, target, bundle } => {
                    let limits = FetchLimits::standard();
                    let fetched = self.take_prekey(&requester, target.as_str(), &limits);
                    fetch_prekey_taken(target, bundle, fetched)
                }
                Work::CountPreKeys { user_id } => {
                    let remaining = self.count(&user_id);
                    prekeys_counted(user_id, remaining)
                }
                Work::StorePreKeys { user_id, upload_id, prekeys } => {
                    let result = self.upload(&user_id, prekeys, MAX_PREKEYS_PER_USER);
                    prekeys_stored(upload_id, result)
                }
                Work::RotationIdentity(key) => {
                    let found = self.identity(&key.user_id);
                    rotation_identity_found(key, found)
                }
                Work::StoreSignedPreKey(key) => {
                    let result = self.rotate(&key);
                    signed_prekey_stored(key.rotation_id, result)
                }
                Work::Measure { recipient, inbound } => {
                    let json = encoded(&inbound.envelope);
                    self.envelopes.insert(json.clone(), inbound.envelope.clone());
                    let size = page_bytes(&[inbound.clone()]);
                    message_measured(recipient, inbound, Some(size), Some(json), self.now)
                }
                Work::Enqueue { recipient, inbound, request } => {
                    let result = self.enqueue(request);
                    message_stored(recipient, inbound, result)
                }
                Work::Push { recipient, message, sender, message_id } => {
                    let pushed = self.push(&recipient, message);
                    message_pushed(sender, message_id, pushed)
                }
                Work::DeleteMessages { user_id, ids, ack_id, message_ids } => {
                    self.queue
                        .retain(|item| item.recipient != user_id || !ids.contains(&item.message_id));
                    messages_deleted(ack_id, message_ids, self.ask(()))
                }
                Work::ConfirmSent { user_id, ids } => {
                    self.accepted
                        .retain(|item| item.sender != user_id || !ids.contains(&item.message_id));
                    sent_confirmed(self.ask(()))
                }
                Work::EncodeReceipt(receipt) => {
                    let json = encoded(&receipt.envelope);
                    self.envelopes.insert(json.clone(), receipt.envelope.clone());
                    receipt_encoded(receipt, Some(json))
                }
                Work::StoreReceipt { receipt, envelope_json, max_queue_per_user } => {
                    let result = self.store_receipt(&receipt, envelope_json, max_queue_per_user);
                    receipt_stored(receipt, result)
                }
                Work::AcknowledgeReceipts { user_id, ids, ack_id, receipt_ids } => {
                    let mut known = Vec::new();
                    for item in &mut self.receipts {
                        if item.recipient == user_id && ids.contains(&item.receipt_id) {
                            item.acknowledged = true;
                            known.push((item.receipt_id.clone(), item.sender.clone()));
                        }
                    }
                    receipts_acknowledged(ack_id, receipt_ids, self.ask(known))
                }
                Work::ConfirmReceipts { user_id, ids } => {
                    self.receipts.retain(|item| {
                        item.sender != user_id
                            || !item.acknowledged
                            || !ids.contains(&item.receipt_id)
                    });
                    receipts_confirmed(self.ask(()))
                }
            };
        }
    }

    fn deliver(&mut self, wire: usize, user: &str) {
        let mut pager = Pager::new(page_bytes(&[]));
        while let Some(after) = pager.next_after() {
            let found = self
                .queue
                .iter()
                .find(|item| item.recipient == user && item.row_id > after)
                .map(|item| QueuedRow {
                    row_id: item.row_id,
                    message_id: item.message_id.clone(),
                    sender_id: item.sender.clone(),
                    envelope_json: item.json.clone(),
                    created_at: "2024-01-01 00:00:00".to_owned(),
                });
            let Some(row) = found else {
                break;
            };
            let envelope = self.envelopes.get(&row.envelope_json).cloned();
            let RowStep::Measure(message) = pager.look_at(&row, envelope) else {
                self.queue.retain(|item| item.row_id != row.row_id);
                continue;
            };
            let size = format!("{message:?}").len();
            match pager.measured(message, Some(size)) {
                PageStep::Added => {}
                PageStep::TooLarge => self.queue.retain(|item| item.row_id != row.row_id),
                PageStep::Full(page) => self.send_page(wire, page),
            }
        }
        if let Some(page) = pager.finish() {
            self.send_page(wire, page);
        }
        let accepted: Vec<String> = self
            .accepted
            .iter()
            .filter(|item| item.sender == user)
            .map(|item| item.message_id.clone())
            .collect();
        for message_id in readable_ids(&accepted) {
            self.wires[wire].push(ServerMessage::MessageSent { message_id });
        }
        for item in self.receipts.iter().filter(|item| item.recipient == user && !item.acknowledged)
        {
            let receipt = QueuedReceipt {
                receipt_id: item.receipt_id.clone(),
                sender_id: item.sender.clone(),
                envelope: item.json.clone(),
            };
            let envelope = self.envelopes.get(&item.json).cloned();
            if let Some(message) = queued_receipt_to_message(&receipt, envelope) {
                self.wires[wire].push(message);
            }
        }
        let confirmed: Vec<String> = self
            .receipts
            .iter()
            .filter(|item| item.sender == user && item.acknowledged)
            .map(|item| item.receipt_id.clone())
            .collect();
        for receipt_id in readable_ids(&confirmed) {
            self.wires[wire].push(ServerMessage::ReadReceiptSent { receipt_id });
        }
    }

    fn send_page(&mut self, wire: usize, messages: Vec<InboundMessage>) {
        assert!(page_bytes(&messages) <= MAX_QUEUED_PAGE_BYTES);
        let notices = delivery_notices(&messages);
        self.wires[wire].push(ServerMessage::QueuedMessages { messages });
        for (sender, notice) in notices {
            self.push(&sender, notice);
        }
    }

    fn register_user(&mut self, name: &str, identity: &IdentityKeyPair, prekeys: u32) -> Connection {
        let mut connection = self.connect();
        self.send(&mut connection, registration(name, identity, prekeys));
        assert!(matches!(self.receive(&connection), ServerMessage::AuthSuccess));
        connection
    }

    fn log_in(&mut self, name: &str, identity: &IdentityKeyPair) -> Connection {
        let mut connection = self.connect();
        self.try_log_in(&mut connection, name, identity);
        assert!(matches!(self.receive(&connection), ServerMessage::AuthSuccess));
        connection
    }

    fn try_log_in(&mut self, connection: &mut Connection, name: &str, identity: &IdentityKeyPair) {
        self.send(connection, ClientMessage::AuthChallenge { user_id: user(name) });
        let ServerMessage::Challenge { nonce, timestamp, server_id } = self.receive(connection)
        else {
            panic!("expected Challenge");
        };
        let signature = answer_challenge(identity, &nonce, timestamp, &server_id).unwrap();
        self.send(connection, ClientMessage::AuthResponse { signature });
    }
}

fn user(name: &str) -> UserId {
    UserId::new(name).unwrap()
}

fn registration(name: &str, identity: &IdentityKeyPair, prekeys: u32) -> ClientMessage {
    let signed = SignedPreKey::generate(0, identity);
    let one_time_prekeys = generate_one_time_prekeys(0, prekeys)
        .unwrap()
        .iter()
        .map(|prekey| OneTimePreKey {
            key_id: prekey.key_id(),
            public_key: B64.encode(prekey.public().as_bytes()),
        })
        .collect();
    ClientMessage::Register {
        user_id: user(name),
        bundle: PreKeyBundle {
            identity_key: B64.encode(identity.verifying_key().as_bytes()),
            signed_prekey: B64.encode(signed.public().as_bytes()),
            signed_prekey_id: signed.key_id(),
            signed_prekey_signature: B64.encode(signed.signature().to_bytes()),
            one_time_prekey: None,
        },
        one_time_prekeys,
    }
}

fn envelope(ciphertext: String) -> EncryptedEnvelope {
    EncryptedEnvelope {
        version: PROTOCOL_VERSION,
        header: MessageHeader::Ratchet(RatchetHeader {
            ratchet_key: B64.encode([0u8; 32]),
            previous_chain_length: 0,
            message_number: 0,
        }),
        ciphertext,
    }
}

fn dummy_envelope(text: &str) -> EncryptedEnvelope {
    envelope(B64.encode(text.as_bytes()))
}

fn message_to(name: &str, message_id: MessageId, envelope: EncryptedEnvelope) -> ClientMessage {
    ClientMessage::SendMessage { recipient_id: user(name), message_id, envelope }
}

fn plaintext(message: &InboundMessage) -> String {
    String::from_utf8(B64.decode(&message.envelope.ciphertext).unwrap()).unwrap()
}

#[test]
fn register_and_auth() {
    let mut server = Server::start();
    let identity = IdentityKeyPair::generate();
    let connection = server.register_user("alice", &identity, 20);
    server.close(connection);
    server.log_in("alice", &identity);
}

#[test]
fn duplicate_registration_rejected() {
    let mut server = Server::start();
    let connection = server.register_user("bob", &IdentityKeyPair::generate(), 20);
    server.close(connection);
    let mut second = server.connect();
    server.send(&mut second, registration("bob", &IdentityKeyPair::generate(), 20));
    assert!(matches!(server.receive(&second), ServerMessage::AuthFailure { .. }));
    assert!(second.session.authed_user.is_none());
}

#[test]
fn send_and_receive_message() {
    let mut server = Server::start();
    let alice_id = IdentityKeyPair::generate();
    let first = server.register_user("alice", &alice_id, 20);
    server.close(first);
    let bob = server.register_user("bob", &IdentityKeyPair::generate(), 20);
    let mut alice = server.log_in("alice", &alice_id);
    let id = MessageId::new();
    server.send(&mut alice, message_to("bob", id, dummy_envelope("hello bob")));
    for _ in 0..2 {
        assert!(matches!(
            server.receive(&alice),
            ServerMessage::MessageSent { .. } | ServerMessage::MessageDelivered { .. }
        ));
    }
    let ServerMessage::IncomingMessage(inbound) = server.receive(&bob) else {
        panic!("expected IncomingMessage");
    };
    assert_eq!(inbound.sender_id.as_str(), "alice");
    assert_eq!(plaintext(&inbound), "hello bob");
}

#[test]
fn offline_delivery() {
    let mut server = Server::start();
    let bob_id = IdentityKeyPair::generate();
    let mut alice = server.register_user("alice", &IdentityKeyPair::generate(), 20);
    let bob = server.register_user("bob", &bob_id, 20);
    server.close(bob);
    server.send(&mut alice, message_to("bob", MessageId::new(), dummy_envelope("you there?")));
    assert!(matches!(server.receive(&alice), ServerMessage::MessageSent { .. }));
    let bob = server.log_in("bob", &bob_id);
    let ServerMessage::QueuedMessages { messages } = server.receive(&bob) else {
        panic!("expected QueuedMessages");
    };
    assert_eq!(messages.len(), 1);
    assert_eq!(plaintext(&messages[0]), "you there?");
    assert!(matches!(server.receive(&alice), ServerMessage::MessageDelivered { .. }));
}

#[test]
fn ack_removes_from_queue() {
    let mut server = Server::start();
    let bob_id = IdentityKeyPair::generate();
    let mut alice = server.register_user("alice", &IdentityKeyPair::generate(), 20);
    let bob = server.register_user("bob", &bob_id, 20);
    server.close(bob);
    server.send(&mut alice, message_to("bob", MessageId::new(), dummy_envelope("ack me")));
    let mut bob = server.log_in("bob", &bob_id);
    let ServerMessage::QueuedMessages { messages } = server.receive(&bob) else {
        panic!("expected QueuedMessages");
    };
    let ids: Vec<MessageId> = messages.into_iter().map(|message| message.message_id).collect();
    let ack_id = MessageId::new();
    server.send(&mut bob, ClientMessage::Ack { ack_id, message_ids: ids.clone() });
    assert!(matches!(
        server.receive(&bob),
        ServerMessage::AckSuccess { ack_id: confirmed, message_ids }
            if confirmed == ack_id && message_ids == ids
    ));
    server.close(bob);
    let bob = server.log_in("bob", &bob_id);
    server.send(&mut alice, message_to("bob", MessageId::new(), dummy_envelope("after ack")));
    assert!(matches!(server.receive(&bob), ServerMessage::IncomingMessage(_)));
}

#[test]
fn prekey_bundle_fetch() {
    let mut server = Server::start();
    let mut alice = server.register_user("alice", &IdentityKeyPair::generate(), 20);
    let bob_id = IdentityKeyPair::generate();
    let bob = server.register_user("bob", &bob_id, 20);
    server.send(&mut alice, ClientMessage::FetchPreKeyBundle { target_user_id: user("bob") });
    let ServerMessage::PreKeyBundleResponse { user_id, bundle } = server.receive(&alice) else {
        panic!("expected PreKeyBundleResponse");
    };
    assert_eq!(user_id.as_str(), "bob");
    assert!(!bundle.identity_key.is_empty());
    assert_eq!(bundle.identity_key, B64.encode(bob_id.verifying_key().as_bytes()));
    assert!(!bundle.signed_prekey.is_empty());
    assert!(bundle.one_time_prekey.is_some());
    assert!(server.heard_nothing(&bob));
}

#[test]
fn an_owner_hears_that_prekeys_run_low() {
    let mut server = Server::start();
    let mut alice = server.register_user("alice", &IdentityKeyPair::generate(), 20);
    let bob = server.register_user("bob", &IdentityKeyPair::generate(), 10);
    server.send(&mut alice, ClientMessage::FetchPreKeyBundle { target_user_id: user("bob") });
    assert!(matches!(server.receive(&bob), ServerMessage::PreKeyLow { remaining: 9 }));
    for _ in 0..9 {
        server.send(&mut alice, ClientMessage::FetchPreKeyBundle { target_user_id: user("bob") });
    }
    server.wires[alice.wire].clear();
    server.send(&mut alice, ClientMessage::FetchPreKeyBundle { target_user_id: user("bob") });
    assert!(matches!(server.receive(&alice), ServerMessage::Error { code: 429, .. }));
    server.send(&mut alice, ClientMessage::FetchPreKeyBundle { target_user_id: user("ghost") });
    assert!(matches!(server.receive(&alice), ServerMessage::Error { code: 404, .. }));
}

#[test]
fn send_to_nonexistent_user_fails() {
    let mut server = Server::start();
    let mut alice = server.register_user("alice", &IdentityKeyPair::generate(), 20);
    server.send(&mut alice, message_to("ghost", MessageId::new(), dummy_envelope("hello?")));
    assert!(matches!(server.receive(&alice), ServerMessage::Error { .. }));
}

#[test]
fn malformed_envelope_keys_are_rejected_on_all_relay_paths() {
    let mut server = Server::start();
    let mut alice = server.register_user("alice", &IdentityKeyPair::generate(), 20);
    let bob = server.register_user("bob", &IdentityKeyPair::generate(), 20);
    let invalid = EncryptedEnvelope {
        version: PROTOCOL_VERSION,
        header: MessageHeader::Ratchet(RatchetHeader {
            ratchet_key: B64.encode([0u8; 31]),
            previous_chain_length: 0,
            message_number: 0,
        }),
        ciphertext: B64.encode(b"opaque"),
    };
    server.send(&mut alice, message_to("bob", MessageId::new(), invalid.clone()));
    assert!(matches!(server.receive(&alice), ServerMessage::Error { code: 400, .. }));
    server.send(
        &mut alice,
        ClientMessage::SendReadReceipt {
            recipient_id: user("bob"),
            receipt_id: MessageId::new(),
            envelope: invalid,
        },
    );
    assert!(matches!(server.receive(&alice), ServerMessage::Error { code: 400, .. }));
    assert!(server.heard_nothing(&bob));
}

#[test]
fn unsupported_envelope_versions_are_rejected_on_all_relay_paths() {
    let mut server = Server::start();
    let mut alice = server.register_user("alice", &IdentityKeyPair::generate(), 20);
    let bob = server.register_user("bob", &IdentityKeyPair::generate(), 20);
    for version in [PROTOCOL_VERSION - 1, PROTOCOL_VERSION + 1] {
        let mut unsupported = dummy_envelope("opaque");
        unsupported.version = version;
        server.send(&mut alice, message_to("bob", MessageId::new(), unsupported.clone()));
        assert!(matches!(server.receive(&alice), ServerMessage::Error { code: 400, .. }));
        server.send(
            &mut alice,
            ClientMessage::SendReadReceipt {
                recipient_id: user("bob"),
                receipt_id: MessageId::new(),
                envelope: unsupported,
            },
        );
        assert!(matches!(server.receive(&alice), ServerMessage::Error { code: 400, .. }));
    }
    assert!(server.heard_nothing(&bob));
}

#[test]
fn auth_with_wrong_key_rejected() {
    let mut server = Server::start();
    let connection = server.register_user("carol", &IdentityKeyPair::generate(), 20);
    server.close(connection);
    let mut second = server.connect();
    server.try_log_in(&mut second, "carol", &IdentityKeyPair::generate());
    assert!(matches!(server.receive(&second), ServerMessage::AuthFailure { .. }));
    assert!(second.session.authed_user.is_none());
    assert!(second.session.pending_challenge.is_none());
}

#[test]
fn an_answer_serves_once_and_in_time() {
    let mut server = Server::start();
    let identity = IdentityKeyPair::generate();
    let connection = server.register_user("carol", &identity, 20);
    server.close(connection);
    let mut late = server.connect();
    server.send(&mut late, ClientMessage::AuthChallenge { user_id: user("carol") });
    let ServerMessage::Challenge { nonce, timestamp, server_id } = server.receive(&late) else {
        panic!("expected Challenge");
    };
    let signature = answer_challenge(&identity, &nonce, timestamp, &server_id).unwrap();
    server.now += 61;
    server.send(&mut late, ClientMessage::AuthResponse { signature: signature.clone() });
    assert!(matches!(
        server.receive(&late),
        ServerMessage::AuthFailure { reason } if reason == "challenge expired"
    ));
    server.send(&mut late, ClientMessage::AuthResponse { signature });
    assert!(matches!(
        server.receive(&late),
        ServerMessage::AuthFailure { reason } if reason == "no pending challenge"
    ));
    server.send(&mut late, ClientMessage::AuthChallenge { user_id: user("nobody") });
    assert!(matches!(
        server.receive(&late),
        ServerMessage::AuthFailure { reason } if reason == "authentication failed"
    ));
}

#[test]
fn unauthenticated_send_rejected() {
    let mut server = Server::start();
    let mut connection = server.connect();
    server.send(&mut connection, message_to("anyone", MessageId::new(), dummy_envelope("sneaky")));
    assert!(matches!(server.receive(&connection), ServerMessage::AuthFailure { .. }));
}

#[test]
fn typing_indicator_relay() {
    let mut server = Server::start();
    let mut alice = server.register_user("alice", &IdentityKeyPair::generate(), 20);
    let bob = server.register_user("bob", &IdentityKeyPair::generate(), 20);
    server.send(&mut alice, ClientMessage::Typing { recipient_id: user("bob") });
    let ServerMessage::PeerTyping { sender_id } = server.receive(&bob) else {
        panic!("expected PeerTyping");
    };
    assert_eq!(sender_id.as_str(), "alice");
    assert!(server.heard_nothing(&alice));
}

#[test]
fn delivery_receipt_on_push() {
    let mut server = Server::start();
    let alice_id = IdentityKeyPair::generate();
    let first = server.register_user("alice", &alice_id, 20);
    server.close(first);
    let _bob = server.register_user("bob", &IdentityKeyPair::generate(), 20);
    let mut alice = server.log_in("alice", &alice_id);
    let id = MessageId::new();
    server.send(&mut alice, message_to("bob", id, dummy_envelope("hello")));
    let mut sent = false;
    let mut delivered = false;
    for _ in 0..2 {
        match server.receive(&alice) {
            ServerMessage::MessageSent { message_id } => {
                assert_eq!(message_id, id);
                sent = true;
            }
            ServerMessage::MessageDelivered { message_ids } => {
                assert!(message_ids.contains(&id));
                delivered = true;
            }
            other => panic!("unexpected response: {other:?}"),
        }
    }
    assert!(sent);
    assert!(delivered);
}

#[test]
fn read_receipt_relay() {
    let mut server = Server::start();
    let mut alice = server.register_user("alice", &IdentityKeyPair::generate(), 20);
    let mut bob = server.register_user("bob", &IdentityKeyPair::generate(), 20);
    let receipt_id = MessageId::new();
    server.send(
        &mut bob,
        ClientMessage::SendReadReceipt {
            recipient_id: user("alice"),
            receipt_id,
            envelope: dummy_envelope("read-receipt-data"),
        },
    );
    let ServerMessage::IncomingReadReceipt { sender_id, receipt_id: incoming, .. } =
        server.receive(&alice)
    else {
        panic!("expected IncomingReadReceipt");
    };
    assert_eq!(sender_id.as_str(), "bob");
    assert_eq!(incoming, receipt_id);
    let ack_id = MessageId::new();
    server.send(
        &mut alice,
        ClientMessage::AckReadReceipt { ack_id, receipt_ids: vec![receipt_id] },
    );
    assert!(matches!(
        server.receive(&alice),
        ServerMessage::AckSuccess { ack_id: confirmed, .. } if confirmed == ack_id
    ));
    assert!(matches!(
        server.receive(&bob),
        ServerMessage::ReadReceiptSent { receipt_id: sent } if sent == receipt_id
    ));
}

#[test]
fn offline_read_receipt_is_queued_until_recipient_acknowledges() {
    let mut server = Server::start();
    let alice_id = IdentityKeyPair::generate();
    let bob_id = IdentityKeyPair::generate();
    let alice = server.register_user("alice", &alice_id, 20);
    let mut bob = server.register_user("bob", &bob_id, 20);
    server.close(alice);
    let receipt_id = MessageId::new();
    server.send(
        &mut bob,
        ClientMessage::SendReadReceipt {
            recipient_id: user("alice"),
            receipt_id,
            envelope: dummy_envelope("retry me"),
        },
    );
    let mut alice = server.log_in("alice", &alice_id);
    assert!(matches!(
        server.receive(&alice),
        ServerMessage::IncomingReadReceipt { receipt_id: incoming, .. } if incoming == receipt_id
    ));
    server.close(bob);
    let ack_id = MessageId::new();
    server.send(
        &mut alice,
        ClientMessage::AckReadReceipt { ack_id, receipt_ids: vec![receipt_id] },
    );
    assert!(matches!(
        server.receive(&alice),
        ServerMessage::AckSuccess { ack_id: confirmed, .. } if confirmed == ack_id
    ));
    let mut bob = server.log_in("bob", &bob_id);
    assert!(matches!(
        server.receive(&bob),
        ServerMessage::ReadReceiptSent { receipt_id: sent } if sent == receipt_id
    ));
    server.send(&mut bob, ClientMessage::AckReadReceiptSent { receipt_ids: vec![receipt_id] });
    assert!(matches!(server.receive(&bob), ServerMessage::Success));
    assert!(server.receipts.is_empty());
}

#[test]
fn prekey_bundle_self_fetch_is_rejected() {
    let mut server = Server::start();
    let mut alice = server.register_user("alice", &IdentityKeyPair::generate(), 5);
    server.send(&mut alice, ClientMessage::FetchPreKeyBundle { target_user_id: user("alice") });
    assert!(matches!(server.receive(&alice), ServerMessage::Error { code: 400, .. }));
}

#[test]
fn prekey_upload_is_correlated_capped_and_idempotent() {
    let mut server = Server::start();
    let mut alice = server.register_user("alice", &IdentityKeyPair::generate(), 5);
    let make_prekeys = |count: u32| {
        (1_000..1_000 + count)
            .map(|key_id| OneTimePreKey { key_id, public_key: B64.encode([7_u8; 32]) })
            .collect::<Vec<_>>()
    };
    let rejected_id = MessageId::new();
    server.send(
        &mut alice,
        ClientMessage::UploadPreKeys { upload_id: rejected_id, prekeys: make_prekeys(196) },
    );
    assert!(matches!(
        server.receive(&alice),
        ServerMessage::PreKeysUploaded { upload_id, accepted: false, remaining: 5 }
            if upload_id == rejected_id
    ));
    let accepted_id = MessageId::new();
    for _ in 0..2 {
        server.send(
            &mut alice,
            ClientMessage::UploadPreKeys { upload_id: accepted_id, prekeys: make_prekeys(195) },
        );
        assert!(matches!(
            server.receive(&alice),
            ServerMessage::PreKeysUploaded { upload_id, accepted: true, remaining: 200 }
                if upload_id == accepted_id
        ));
    }
}

#[test]
fn replacement_stops_old_session_and_preserves_new_delivery() {
    let mut server = Server::start();
    let alice_id = IdentityKeyPair::generate();
    let mut old_alice = server.register_user("alice", &alice_id, 0);
    let mut bob = server.register_user("bob", &IdentityKeyPair::generate(), 0);
    let new_alice = server.log_in("alice", &alice_id);
    assert!(matches!(server.receive(&old_alice), ServerMessage::Error { code: 409, .. }));
    server.send(&mut old_alice, ClientMessage::Typing { recipient_id: user("bob") });
    assert!(old_alice.closed);
    assert!(server.heard_nothing(&bob), "displaced connection relayed a message");
    server.close(old_alice);
    server.send(&mut bob, ClientMessage::Typing { recipient_id: user("alice") });
    loop {
        match server.receive(&new_alice) {
            ServerMessage::PeerTyping { sender_id } => {
                assert_eq!(sender_id.as_str(), "bob");
                break;
            }
            ServerMessage::PreKeyLow { .. } => {}
            message => panic!("unexpected replacement response: {message:?}"),
        }
    }
}

fn queue_for_bob(server: &mut Server, alice: &mut Connection, envelope: EncryptedEnvelope) {
    let id = MessageId::new();
    server.send(alice, message_to("bob", id, envelope));
    assert!(matches!(
        server.receive(alice),
        ServerMessage::MessageSent { message_id } if message_id == id
    ));
}

#[test]
fn queued_delivery_pages_by_message_count() {
    let mut server = Server::start();
    let bob_id = IdentityKeyPair::generate();
    let mut alice = server.register_user("alice", &IdentityKeyPair::generate(), 0);
    let bob = server.register_user("bob", &bob_id, 0);
    server.close(bob);
    for index in 0..=MAX_QUEUED_MESSAGES_PER_PAGE {
        queue_for_bob(&mut server, &mut alice, dummy_envelope(&format!("message {index}")));
    }
    let bob = server.log_in("bob", &bob_id);
    let mut page_lengths = Vec::new();
    for _ in 0..2 {
        let ServerMessage::QueuedMessages { messages } = server.receive(&bob) else {
            panic!("expected queued message page");
        };
        page_lengths.push(messages.len());
    }
    assert_eq!(page_lengths, [MAX_QUEUED_MESSAGES_PER_PAGE, 1]);
}

#[test]
fn queued_delivery_pages_by_encoded_bytes() {
    let mut server = Server::start();
    let bob_id = IdentityKeyPair::generate();
    let mut alice = server.register_user("alice", &IdentityKeyPair::generate(), 0);
    let bob = server.register_user("bob", &bob_id, 0);
    server.close(bob);
    queue_for_bob(&mut server, &mut alice, envelope("A".repeat(MAX_CIPHERTEXT_BYTES)));
    queue_for_bob(&mut server, &mut alice, envelope("A".repeat(32 * 1024)));
    let bob = server.log_in("bob", &bob_id);
    for _ in 0..2 {
        let ServerMessage::QueuedMessages { messages } = server.receive(&bob) else {
            panic!("expected queued message page");
        };
        assert_eq!(messages.len(), 1);
    }
}

#[test]
fn unconfirmed_messages_are_confirmed_at_the_next_login() {
    let mut server = Server::start();
    let alice_id = IdentityKeyPair::generate();
    let mut alice = server.register_user("alice", &alice_id, 20);
    let _bob = server.register_user("bob", &IdentityKeyPair::generate(), 20);
    let id = MessageId::new();
    server.send(&mut alice, message_to("bob", id, dummy_envelope("hello")));
    server.close(alice);
    let mut alice = server.log_in("alice", &alice_id);
    assert!(matches!(
        server.receive(&alice),
        ServerMessage::MessageSent { message_id } if message_id == id
    ));
    server.send(&mut alice, ClientMessage::AckMessageSent { message_ids: vec![id] });
    assert!(server.heard_nothing(&alice));
    server.close(alice);
    let alice = server.log_in("alice", &alice_id);
    assert!(server.heard_nothing(&alice));
}

#[test]
fn a_signed_prekey_is_rotated_with_its_owners_signature() {
    let mut server = Server::start();
    let identity = IdentityKeyPair::generate();
    let mut alice = server.register_user("alice", &identity, 20);
    let rotate = |rotation_id: MessageId, key_id: u32, owner: &IdentityKeyPair| {
        let key = SignedPreKey::generate(key_id, owner);
        ClientMessage::RotateSignedPreKey {
            rotation_id,
            key_id,
            public_key: B64.encode(key.public().as_bytes()),
            signature: B64.encode(key.signature().to_bytes()),
        }
    };
    let id = MessageId::new();
    server.send(&mut alice, rotate(id, 1, &identity));
    assert!(matches!(
        server.receive(&alice),
        ServerMessage::SignedPreKeyRotated {
            rotation_id,
            accepted: true,
            previously_accepted: false,
            current_key_id: 1,
        } if rotation_id == id
    ));
    server.send(&mut alice, rotate(id, 1, &identity));
    assert!(matches!(
        server.receive(&alice),
        ServerMessage::SignedPreKeyRotated { accepted: false, current_key_id: 1, .. }
    ));
    server.send(&mut alice, rotate(id, 2, &IdentityKeyPair::generate()));
    assert!(matches!(
        server.receive(&alice),
        ServerMessage::Error { code: 400, message }
            if message == "signed prekey signature is invalid"
    ));
}

#[test]
fn a_silent_database_is_an_internal_error() {
    let mut server = Server::start();
    let mut alice = server.register_user("alice", &IdentityKeyPair::generate(), 20);
    let bob = server.register_user("bob", &IdentityKeyPair::generate(), 20);
    server.broken = true;
    let receipt_id = MessageId::new();
    let requests = vec![
        message_to("bob", MessageId::new(), dummy_envelope("lost")),
        ClientMessage::FetchPreKeyBundle { target_user_id: user("bob") },
        ClientMessage::Ack { ack_id: MessageId::new(), message_ids: Vec::new() },
        ClientMessage::AckMessageSent { message_ids: Vec::new() },
        ClientMessage::AckReadReceipt { ack_id: MessageId::new(), receipt_ids: Vec::new() },
        ClientMessage::AckReadReceiptSent { receipt_ids: Vec::new() },
        ClientMessage::SendReadReceipt {
            recipient_id: user("bob"),
            receipt_id,
            envelope: dummy_envelope("lost"),
        },
    ];
    for request in requests {
        server.send(&mut alice, request);
        assert!(matches!(
            server.receive(&alice),
            ServerMessage::Error { code: 500, message } if message == "internal server error"
        ));
    }
    assert!(server.heard_nothing(&bob));
    assert!(server.heard_nothing(&alice));
}

fn stored_bob() -> Server {
    let mut server = Server::start();
    server.accounts.insert(
        "bob".to_owned(),
        Account { identity: vec![0], signed: Vec::new(), prekeys: Vec::new() },
    );
    server.reservations.insert(("alice".to_owned(), "bob".to_owned(), 7), 200);
    server
}

fn queue_request(
    message_id: &str,
    envelope: &str,
    prekey_id: Option<u32>,
    now: u64,
) -> EnqueueRequest {
    EnqueueRequest {
        message_id: message_id.to_owned(),
        recipient_id: "bob".to_owned(),
        sender_id: "alice".to_owned(),
        envelope_json: envelope.to_owned(),
        max_queue_per_user: 10,
        signed_prekey_id: None,
        one_time_prekey_id: prekey_id,
        now,
    }
}

#[test]
fn accepted_message_retry_ignores_expired_reservation() {
    let mut server = stored_bob();
    assert!(matches!(
        server.enqueue(queue_request("message-1", "ciphertext", Some(7), 100)),
        Ok(EnqueueResult::Inserted)
    ));
    server.queue.clear();
    assert!(matches!(
        server.enqueue(queue_request("message-1", "ciphertext", Some(7), 201)),
        Ok(EnqueueResult::Duplicate)
    ));
    assert!(matches!(
        server.enqueue(queue_request("message-2", "ciphertext-2", Some(7), 201)),
        Ok(EnqueueResult::PrekeyReservationInvalid)
    ));
}

#[test]
fn new_prekey_message_requires_retained_signed_prekey() {
    let mut server = stored_bob();
    server.accounts.get_mut("bob").unwrap().signed.push((1, vec![0], vec![0]));
    let mut stale = queue_request("stale", "ciphertext", None, 100);
    stale.signed_prekey_id = Some(0);
    assert!(matches!(server.enqueue(stale), Ok(EnqueueResult::SignedPrekeyExpired)));
    let mut current = queue_request("current", "ciphertext", None, 100);
    current.signed_prekey_id = Some(1);
    assert!(matches!(server.enqueue(current), Ok(EnqueueResult::Inserted)));
}

#[test]
fn duplicate_id_requires_identical_route_and_payload() {
    let mut server = stored_bob();
    assert!(server.enqueue(queue_request("message-1", "ciphertext", None, 100)).is_ok());
    assert!(matches!(
        server.enqueue(queue_request("message-1", "different", None, 100)),
        Ok(EnqueueResult::MessageIdConflict)
    ));
}

fn stored_user(name: &str) -> Server {
    let mut server = Server::start();
    server.accounts.insert(
        name.to_owned(),
        Account {
            identity: vec![0; 32],
            signed: Vec::new(),
            prekeys: Vec::new(),
        },
    );
    server
}

#[test]
fn upload_is_capped_and_duplicate_batches_are_idempotent() {
    let mut server = stored_user("alice");
    let prekeys: Vec<(u32, Vec<u8>)> = (0..3).map(|id| (id, vec![0_u8; 32])).collect();
    for _ in 0..2 {
        assert!(matches!(
            server.upload("alice", prekeys.clone(), 3),
            Ok(UploadResult::Accepted(3))
        ));
    }
    assert!(matches!(
        server.upload("alice", vec![(3, vec![3; 32])], 3),
        Ok(UploadResult::InventoryFull(3))
    ));
}

#[test]
fn fetch_limits_apply_per_requester_and_target() {
    let mut server = stored_user("target");
    let prekeys: Vec<(u32, Vec<u8>)> = (0..6).map(|id| (id, vec![0_u8; 32])).collect();
    assert!(server.upload("target", prekeys, 10).is_ok());
    server.now = 100;
    let limits = FetchLimits { window_secs: 3_600, per_requester: 2, per_target: 3 };
    for _ in 0..2 {
        assert!(matches!(
            server.take_prekey("alice", "target", &limits),
            Ok(FetchResult::Fetched { .. })
        ));
    }
    assert!(matches!(
        server.take_prekey("alice", "target", &limits),
        Ok(FetchResult::RateLimited)
    ));
    assert!(matches!(
        server.take_prekey("bob", "target", &limits),
        Ok(FetchResult::Fetched { .. })
    ));
    assert!(matches!(
        server.take_prekey("carol", "target", &limits),
        Ok(FetchResult::RateLimited)
    ));
}
