//! The relay's database as a whole, and what its users may rely on: a message
//! that is sent again is not delivered twice, no two messages share an
//! identifier, no queue grows over its limit, a one-time pre-key serves one
//! message, and a request that is refused changes nothing.

use super::queue::{EnqueueRequest, QueueFacts};
use crate::protocol::consts::MAX_PENDING_OUTBOUND_ITEMS;
use vstd::prelude::*;

verus! {

use super::queue::{digest_of, takes_in, verdict, MAX_GLOBAL_ACCEPTANCES};

/// A message in the queue.
pub struct Queued {
    pub recipient: Seq<char>,
    pub sender: Seq<char>,
    pub envelope: Seq<char>,
}

/// A message that waits for the confirmation of its sender.
pub struct Accepted {
    pub recipient: Seq<char>,
    pub sender: Seq<char>,
    pub digest: Seq<u8>,
}

/// What the database holds of messages and reservations.
pub struct Relay {
    pub users: Set<Seq<char>>,
    pub queue: Map<Seq<char>, Queued>,
    pub acceptances: Map<Seq<char>, Accepted>,
    /// The signed pre-keys that are kept, by user and identifier.
    pub signed_prekeys: Set<(Seq<char>, u32)>,
    /// Until when a one-time pre-key is reserved, by requester, owner and
    /// identifier.
    pub reservations: Map<(Seq<char>, Seq<char>, u32), u64>,
}

impl Relay {
    /// The messages that wait for a recipient.
    pub open spec fn waiting_for(self, recipient: Seq<char>) -> Set<Seq<char>> {
        self.queue.dom().filter(|id: Seq<char>| self.queue[id].recipient == recipient)
    }

    /// The messages of a sender that wait for confirmation.
    pub open spec fn accepted_from(self, sender: Seq<char>) -> Set<Seq<char>> {
        self.acceptances.dom().filter(|id: Seq<char>| self.acceptances[id].sender == sender)
    }

    /// The database is finite.
    pub open spec fn wf(self) -> bool {
        self.queue.dom().finite() && self.acceptances.dom().finite()
    }

    /// The reservation that a message uses.
    pub open spec fn reservation_of(request: EnqueueRequest) -> (Seq<char>, Seq<char>, u32) {
        (request.sender_id@, request.recipient_id@, request.one_time_prekey_id->0)
    }

    /// `facts` is what the database answers about a message.
    pub open spec fn answers(self, request: EnqueueRequest, facts: QueueFacts) -> bool {
        &&& match facts.existing {
            Some(existing) => {
                &&& self.acceptances.contains_key(request.message_id@)
                &&& self.acceptances[request.message_id@] == (Accepted {
                    recipient: existing.recipient_id@,
                    sender: existing.sender_id@,
                    digest: existing.envelope_digest@,
                })
            },
            None => !self.acceptances.contains_key(request.message_id@),
        }
        &&& facts.recipient_exists == self.users.contains(request.recipient_id@)
        &&& facts.queue_depth == self.waiting_for(request.recipient_id@).len()
        &&& facts.sender_acceptances == self.accepted_from(request.sender_id@).len()
        &&& facts.global_acceptances == self.acceptances.dom().len()
        &&& request.signed_prekey_id matches Some(id) ==> facts.signed_prekey_kept
            == self.signed_prekeys.contains((request.recipient_id@, id))
        &&& request.one_time_prekey_id is Some ==> facts.reserved_until == (
        if self.reservations.contains_key(Relay::reservation_of(request)) {
            Some(self.reservations[Relay::reservation_of(request)])
        } else {
            None
        })
        &&& facts.queued == self.queue.contains_key(request.message_id@)
    }

    /// The database after a message was decided on.
    pub open spec fn after(self, request: EnqueueRequest, facts: QueueFacts) -> Relay {
        if takes_in(request, facts) {
            Relay {
                queue: if facts.queued {
                    self.queue
                } else {
                    self.queue.insert(
                        request.message_id@,
                        Queued {
                            recipient: request.recipient_id@,
                            sender: request.sender_id@,
                            envelope: request.envelope_json@,
                        },
                    )
                },
                acceptances: self.acceptances.insert(
                    request.message_id@,
                    Accepted {
                        recipient: request.recipient_id@,
                        sender: request.sender_id@,
                        digest: digest_of(request.envelope_json@),
                    },
                ),
                reservations: Map::new(
                    |key: (Seq<char>, Seq<char>, u32)|
                        self.reservations.contains_key(key) && self.reservations[key]
                            >= request.now && !(request.one_time_prekey_id is Some && key
                            == Relay::reservation_of(request)),
                    |key: (Seq<char>, Seq<char>, u32)| self.reservations[key],
                ),
                ..self
            }
        } else {
            self
        }
    }
}

/// A message that is sent again is recognised: the answer is the same as the
/// first time, and nothing changes. That holds also after its recipient has
/// received it, and after its reservation is over.
pub proof fn law_retry_changes_nothing(
    relay: Relay,
    request: EnqueueRequest,
    facts: QueueFacts,
    later: Relay,
    again: EnqueueRequest,
    later_facts: QueueFacts,
)
    requires
        relay.answers(request, facts),
        takes_in(request, facts),
        later.acceptances == relay.after(request, facts).acceptances,
        again.message_id@ == request.message_id@,
        again.recipient_id@ == request.recipient_id@,
        again.sender_id@ == request.sender_id@,
        again.envelope_json@ == request.envelope_json@,
        later.answers(again, later_facts),
    ensures
        verdict(again, later_facts) is Duplicate,
        later.after(again, later_facts) == later,
{
    assert(later.acceptances.contains_key(request.message_id@));
}

/// An identifier belongs to one message: another recipient, sender or envelope
/// under it is refused, as long as the first is remembered and the envelopes
/// have different digests.
pub proof fn law_identifier_belongs_to_one_message(
    relay: Relay,
    request: EnqueueRequest,
    facts: QueueFacts,
    other: EnqueueRequest,
    other_facts: QueueFacts,
)
    requires
        relay.answers(request, facts),
        takes_in(request, facts),
        other.message_id@ == request.message_id@,
        other.recipient_id@ != request.recipient_id@ || other.sender_id@ != request.sender_id@
            || digest_of(other.envelope_json@) != digest_of(request.envelope_json@),
        relay.after(request, facts).answers(other, other_facts),
    ensures
        verdict(other, other_facts) is MessageIdConflict,
        relay.after(request, facts).after(other, other_facts) == relay.after(request, facts),
{
    let after = relay.after(request, facts);
    assert(after.acceptances.contains_key(request.message_id@));
}

/// A request that is refused changes nothing.
pub proof fn law_refused_changes_nothing(relay: Relay, request: EnqueueRequest, facts: QueueFacts)
    requires
        relay.answers(request, facts),
        !(verdict(request, facts) is Inserted || verdict(request, facts) is Duplicate),
    ensures
        relay.after(request, facts) == relay,
{
}

/// No queue grows over its limit, and no more messages wait for confirmation
/// than their limits allow.
pub proof fn law_queues_bounded(
    relay: Relay,
    request: EnqueueRequest,
    facts: QueueFacts,
    recipient: Seq<char>,
    sender: Seq<char>,
)
    requires
        relay.wf(),
        relay.answers(request, facts),
        relay.waiting_for(recipient).len() <= request.max_queue_per_user,
        relay.accepted_from(sender).len() <= MAX_PENDING_OUTBOUND_ITEMS,
        relay.acceptances.dom().len() <= MAX_GLOBAL_ACCEPTANCES,
    ensures
        relay.after(request, facts).wf(),
        relay.after(request, facts).waiting_for(recipient).len() <= request.max_queue_per_user,
        relay.after(request, facts).accepted_from(sender).len() <= MAX_PENDING_OUTBOUND_ITEMS,
        relay.after(request, facts).acceptances.dom().len() <= MAX_GLOBAL_ACCEPTANCES,
{
    let after = relay.after(request, facts);
    if takes_in(request, facts) {
        let id = request.message_id@;
        assert(after.acceptances.dom() =~= relay.acceptances.dom().insert(id));
        if request.sender_id@ == sender {
            assert(after.accepted_from(sender) =~= relay.accepted_from(sender).insert(id));
        } else {
            assert(after.accepted_from(sender) =~= relay.accepted_from(sender));
        }
        if facts.queued {
            assert(after.waiting_for(recipient) =~= relay.waiting_for(recipient));
        } else {
            assert(after.queue.dom() =~= relay.queue.dom().insert(id));
            if request.recipient_id@ == recipient {
                assert(after.waiting_for(recipient) =~= relay.waiting_for(recipient).insert(id));
            } else {
                assert(after.waiting_for(recipient) =~= relay.waiting_for(recipient));
            }
        }
    }
}

/// A one-time pre-key serves one message: after a message has used its
/// reservation, another from the same sender that names the key is refused.
pub proof fn law_reservation_serves_once(
    relay: Relay,
    request: EnqueueRequest,
    facts: QueueFacts,
    other: EnqueueRequest,
    other_facts: QueueFacts,
)
    requires
        relay.answers(request, facts),
        takes_in(request, facts),
        request.one_time_prekey_id is Some,
        other.one_time_prekey_id == request.one_time_prekey_id,
        other.sender_id@ == request.sender_id@,
        other.recipient_id@ == request.recipient_id@,
        other.message_id@ != request.message_id@,
        relay.after(request, facts).answers(other, other_facts),
        other_facts.existing is None,
    ensures
        !takes_in(other, other_facts),
{
    let after = relay.after(request, facts);
    assert(!after.reservations.contains_key(Relay::reservation_of(other)));
}

/// A message that was taken in waits for its recipient under its identifier.
pub proof fn law_accepted_is_queued(relay: Relay, request: EnqueueRequest, facts: QueueFacts)
    requires
        relay.answers(request, facts),
        verdict(request, facts) is Inserted,
    ensures
        relay.after(request, facts).waiting_for(request.recipient_id@).contains(
            request.message_id@,
        ),
        relay.after(request, facts).queue[request.message_id@].envelope == request.envelope_json@,
        relay.after(request, facts).queue[request.message_id@].sender == request.sender_id@,
        forall|id: Seq<char>| #[trigger]
            relay.queue.contains_key(id) ==> relay.after(request, facts).queue.contains_key(id)
                && relay.after(request, facts).queue[id] == relay.queue[id],
{
}

} // verus!
