//! What the two sides of a conversation may rely on: messages arrive as they
//! were sent, in order or out of order, within a chain and across steps of
//! the ratchet; a key is used once; and the store of skipped keys is bounded.

use super::error::CryptoError;
use super::ratchet::{RatchetHeader, MAX_SKIP};
use vstd::prelude::*;

verus! {

use super::aead::opened;
use super::kdf::{fresh_chain, next_root};
use super::keys::law_key_agreement;
use super::primitives::{dh_pair, x25519};
use super::ratchet::{
    alice_start, bob_start, chain_after, decrypt_outcome, key_range, message_key_at, SessionModel,
};

/// `receiver` is on the chain on which `sender` sends, and not ahead of it.
pub open spec fn follows(receiver: SessionModel, sender: SessionModel) -> bool {
    &&& receiver.theirs == Some(sender.our_public)
    &&& receiver.receiving is Some
    &&& sender.sending is Some
    &&& 0 <= receiver.recv_count <= sender.send_count
    &&& sender.sending->0 == chain_after(
        receiver.receiving->0,
        (sender.send_count - receiver.recv_count) as nat,
    )
}

/// `sender` has turned the ratchet towards the current key of `receiver`,
/// which has not heard of it yet.
pub open spec fn ahead(sender: SessionModel, receiver: SessionModel) -> bool {
    let dh = x25519(sender.our_secret, receiver.our_public);
    &&& sender.paired()
    &&& receiver.paired()
    &&& sender.theirs == Some(receiver.our_public)
    &&& receiver.theirs != Some(sender.our_public)
    &&& sender.root == next_root(receiver.root, dh)
    &&& sender.send_count >= 0
    &&& sender.sending == Some(
        chain_after(fresh_chain(receiver.root, dh), sender.send_count as nat),
    )
}

/// There is room to put the messages that `count` is ahead of the receiver
/// aside.
pub open spec fn has_room(receiver: SessionModel, count: int) -> bool {
    count <= receiver.recv_count || count - receiver.recv_count + receiver.skipped.len()
        <= MAX_SKIP
}

pub proof fn lemma_chain_sum(chain_key: Seq<u8>, a: nat, b: nat)
    ensures
        chain_after(chain_after(chain_key, a), b) == chain_after(chain_key, a + b),
    decreases b,
{
    if b > 0 {
        lemma_chain_sum(chain_key, a, (b - 1) as nat);
    }
}

/// Whoever initiates a session with the responder's ratchet key is ahead of
/// the responder: the first message can be read.
pub proof fn law_first_contact(
    shared_secret: Seq<u8>,
    alice_secret: Seq<u8>,
    alice_public: Seq<u8>,
    bob_secret: Seq<u8>,
    bob_public: Seq<u8>,
)
    requires
        dh_pair(alice_secret, alice_public),
        dh_pair(bob_secret, bob_public),
    ensures
        ahead(
            alice_start(shared_secret, bob_public, alice_secret, alice_public),
            bob_start(shared_secret, bob_secret, bob_public),
        ),
{
}

/// A message of the chain that the receiver is on is read as it was written,
/// also if earlier ones are still missing: their keys are put aside. After it
/// the receiver still follows the sender.
pub proof fn law_delivery_in_chain(
    sender: SessionModel,
    receiver: SessionModel,
    text: Seq<u8>,
    context: Seq<u8>,
    header: RatchetHeader,
    ciphertext: Seq<u8>,
    fresh: (Seq<u8>, Seq<u8>),
)
    requires
        follows(receiver, sender),
        sender.sends(text, context, header, ciphertext),
        header.message_number < u32::MAX,
        has_room(receiver, sender.send_count),
        !receiver.skipped.contains_key(header.slot()),
    ensures
        receiver.receive(header, ciphertext, context, fresh) is Ok,
        ({
            let (read, after) = receiver.receive(header, ciphertext, context, fresh)->Ok_0;
            &&& read == text
            &&& follows(after, sender.after_send())
            &&& forall|i: int|
                receiver.recv_count <= i < sender.send_count
                    ==> after.skipped.contains_key(#[trigger] slot_of(sender, i))
                    && after.skipped[slot_of(sender, i)] == message_key_at(
                    receiver.receiving->0,
                    (i - receiver.recv_count) as nat,
                )
        }),
{
    let gap = (sender.send_count - receiver.recv_count) as nat;
    let ready = receiver.skip_to(sender.send_count)->0;
    assert(receiver.on_chain(header, fresh) == Some(receiver));
    assert(ready.receiving == Some(chain_after(receiver.receiving->0, gap)));
    let after = receiver.receive(header, ciphertext, context, fresh)->Ok_0.1;
    assert(chain_after(after.receiving->0, 0) == after.receiving->0);
}

/// The slot of the message `number` of the sender's current chain.
pub open spec fn slot_of(sender: SessionModel, number: int) -> (Seq<u8>, int) {
    (sender.our_public, number)
}

/// `later` is the session `earlier` after some more messages of the same
/// chain.
pub open spec fn sent_more(earlier: SessionModel, later: SessionModel) -> bool {
    &&& earlier.sending is Some
    &&& later.our_public == earlier.our_public
    &&& earlier.send_count < later.send_count
    &&& later.sending == Some(
        chain_after(earlier.sending->0, (later.send_count - earlier.send_count) as nat),
    )
}

/// A message that arrives after a later one of its chain is read as it was
/// written.
pub proof fn law_late_delivery(
    earlier: SessionModel,
    later: SessionModel,
    receiver: SessionModel,
    text: Seq<u8>,
    context: Seq<u8>,
    header: RatchetHeader,
    ciphertext: Seq<u8>,
    later_text: Seq<u8>,
    later_context: Seq<u8>,
    later_header: RatchetHeader,
    later_ciphertext: Seq<u8>,
    fresh: (Seq<u8>, Seq<u8>),
)
    requires
        follows(receiver, earlier),
        sent_more(earlier, later),
        earlier.sends(text, context, header, ciphertext),
        later.sends(later_text, later_context, later_header, later_ciphertext),
        later_header.message_number < u32::MAX,
        has_room(receiver, later.send_count),
        !receiver.skipped.contains_key(later_header.slot()),
    ensures
        receiver.receive(later_header, later_ciphertext, later_context, fresh) matches Ok((
            read_first,
            middle,
        )) && read_first == later_text && (middle.receive(header, ciphertext, context, fresh)
            matches Ok((read_second, after)) && read_second == text
            && !after.skipped.contains_key(header.slot())),
{
    let base = receiver.receiving->0;
    let first = (earlier.send_count - receiver.recv_count) as nat;
    let rest = (later.send_count - earlier.send_count) as nat;
    lemma_chain_sum(base, first, rest);
    assert(follows(receiver, later));
    law_delivery_in_chain(
        later,
        receiver,
        later_text,
        later_context,
        later_header,
        later_ciphertext,
        fresh,
    );
    let middle = receiver.receive(later_header, later_ciphertext, later_context, fresh)->Ok_0.1;
    assert(header.slot() == slot_of(later, earlier.send_count));
    assert(middle.skipped[header.slot()] == message_key_at(base, first));
}

/// The first message that reaches the receiver after the sender turned the
/// ratchet is read as it was written. After it the receiver follows the
/// sender's new chain and has itself turned the ratchet, so that its answer
/// can be read in the same way, unless it drew the ratchet key again that the
/// sender knows already. The keys of what is still missing are put
/// aside: of the rest of the old chain, and of the start of the new one.
pub proof fn law_delivery_across_turn(
    sender: SessionModel,
    receiver: SessionModel,
    text: Seq<u8>,
    context: Seq<u8>,
    header: RatchetHeader,
    ciphertext: Seq<u8>,
    fresh: (Seq<u8>, Seq<u8>),
)
    requires
        ahead(sender, receiver),
        dh_pair(fresh.0, fresh.1),
        sender.sends(text, context, header, ciphertext),
        header.message_number < u32::MAX,
        !receiver.skipped.contains_key(header.slot()),
        // Room for the rest of the old chain and for the start of the new one.
        receiver.receiving is None || receiver.skip_to(header.previous_chain_length as int) is Some,
        has_room(receiver.on_chain(header, fresh)->0, sender.send_count),
    ensures
        receiver.receive(header, ciphertext, context, fresh) is Ok,
        ({
            let (read, after) = receiver.receive(header, ciphertext, context, fresh)->Ok_0;
            &&& read == text
            &&& follows(after, sender.after_send())
            &&& sender.theirs != Some(fresh.1) ==> ahead(after, sender.after_send())
            &&& receiver.theirs matches Some(old_key) ==> (receiver.receiving matches Some(
                old_chain,
            ) ==> forall|i: int|
                #![trigger after.skipped[(old_key, i)]]
                receiver.recv_count <= i < header.previous_chain_length
                    ==> after.skipped.contains_key((old_key, i)) && after.skipped[(old_key, i)]
                    == message_key_at(old_chain, (i - receiver.recv_count) as nat))
            &&& forall|i: int|
                #![trigger slot_of(sender, i)]
                0 <= i < header.message_number ==> after.skipped.contains_key(slot_of(sender, i))
                    && after.skipped[slot_of(sender, i)] == message_key_at(
                    fresh_chain(receiver.root, x25519(sender.our_secret, receiver.our_public)),
                    i as nat,
                )
        }),
{
    let chain = receiver.on_chain(header, fresh)->0;
    let dh = x25519(sender.our_secret, receiver.our_public);
    law_key_agreement(
        sender.our_secret,
        sender.our_public,
        receiver.our_secret,
        receiver.our_public,
    );
    assert(x25519(receiver.our_secret, header.ratchet_key@) == dh);
    let start = fresh_chain(receiver.root, dh);
    assert(chain.receiving == Some(start));
    assert(follows(chain, sender));
    law_delivery_in_chain_after(chain, sender);
    let ready = chain.skip_to(sender.send_count)->0;
    assert(ready.receiving == sender.sending);
    let after = receiver.receive(header, ciphertext, context, fresh)->Ok_0.1;
    assert(chain_after(after.receiving->0, 0) == after.receiving->0);
    assert(chain_after(after.sending->0, 0) == after.sending->0);
    assert(after.skipped == ready.skipped);
}

proof fn law_delivery_in_chain_after(chain: SessionModel, sender: SessionModel)
    requires
        follows(chain, sender),
        has_room(chain, sender.send_count),
    ensures
        chain.skip_to(sender.send_count) matches Some(ready) && ready.receiving == sender.sending,
{
    assert(chain_after(chain.receiving->0, 0) == chain.receiving->0);
}

/// The key of a message that was read is gone: it is not among the skipped
/// keys, and unless it was one of them the receiving chain has moved past it.
pub proof fn law_key_used_once(
    receiver: SessionModel,
    context: Seq<u8>,
    header: RatchetHeader,
    ciphertext: Seq<u8>,
    fresh: (Seq<u8>, Seq<u8>),
)
    ensures
        receiver.receive(header, ciphertext, context, fresh) matches Ok((_, after)) ==> {
            &&& !after.skipped.contains_key(header.slot())
            &&& !receiver.skipped.contains_key(header.slot()) ==> after.theirs == Some(
                header.ratchet_key@,
            ) && after.recv_count > header.message_number
        },
{
}

/// A replay is refused: a message that was read and comes again gives an error
/// and leaves the session as it is, whatever the key pair `again` of a ratchet
/// step. The key that read it is gone, so this rests on the ciphertext not
/// opening under the one that the second delivery is tried with; where the
/// message was read on the peer's chain that is the chain's next key.
pub proof fn law_replay_refused(
    receiver: SessionModel,
    context: Seq<u8>,
    header: RatchetHeader,
    ciphertext: Seq<u8>,
    fresh: (Seq<u8>, Seq<u8>),
    again: (Seq<u8>, Seq<u8>),
)
    requires
        receiver.receive(header, ciphertext, context, fresh) matches Ok((_, after)) && (
        after.tried_key(header, again) matches Some(key) ==> opened(
            key,
            ciphertext,
            context + header.spec_aad(),
        ) is None),
    ensures
        receiver.receive(header, ciphertext, context, fresh) matches Ok((_, after)) && {
            &&& after.receive(header, ciphertext, context, again) is Err
            &&& forall|later: SessionModel, out: Result<Vec<u8>, CryptoError>| #[trigger]
                decrypt_outcome(
                    after,
                    later,
                    after.receive(header, ciphertext, context, again),
                    out,
                ) ==> later == after && out is Err
            &&& !receiver.skipped.contains_key(header.slot()) ==> (receiver.tried_key(header, fresh)
                matches Some(first) && exists|chain_key: Seq<u8>|
                first == #[trigger] message_key_at(chain_key, 0) && after.tried_key(header, again)
                    == Some(message_key_at(chain_key, 1)))
        },
{
    let after = receiver.receive(header, ciphertext, context, fresh)->Ok_0.1;
    law_key_used_once(receiver, context, header, ciphertext, fresh);
    if !receiver.skipped.contains_key(header.slot()) {
        let ready = receiver.on_chain(header, fresh)->0.skip_to(header.message_number as int)->0;
        let chain_key = ready.receiving->0;
        reveal_with_fuel(chain_after, 2);
        assert(receiver.tried_key(header, fresh) == Some(message_key_at(chain_key, 0)));
        assert(after.tried_key(header, again) == Some(message_key_at(chain_key, 1)));
    }
}

/// To put keys aside in two parts is to put them aside at once.
pub proof fn law_skip_in_parts(session: SessionModel, current: int, middle: int, until: int)
    requires
        session.skipped.dom().finite(),
        current <= middle <= until,
        session.skip_range(current, until) is Some,
    ensures
        session.skip_range(current, middle) matches Some(part) && part.skip_range(middle, until)
            == session.skip_range(current, until),
{
    if current < middle && session.theirs is Some && session.receiving is Some {
        let theirs = session.theirs->0;
        let chain_key = session.receiving->0;
        let first = (middle - current) as nat;
        lemma_skip_len(session, current, middle);
        let part = session.skip_range(current, middle)->0;
        if middle < until {
            lemma_chain_sum(chain_key, first, (until - middle) as nat);
            assert forall|number: int| middle <= number implies #[trigger] message_key_at(
                chain_key,
                (number - current) as nat,
            ) == message_key_at(part.receiving->0, (number - middle) as nat) by {
                lemma_chain_sum(chain_key, first, (number - middle) as nat);
            }
            let whole = session.skip_range(current, until)->0;
            let both = part.skip_range(middle, until)->0;
            assert(both.skipped =~= whole.skipped);
        }
    }
}

/// A session that holds at most [`MAX_SKIP`] skipped keys never holds more.
pub proof fn law_skipped_keys_bounded(
    receiver: SessionModel,
    context: Seq<u8>,
    header: RatchetHeader,
    ciphertext: Seq<u8>,
    fresh: (Seq<u8>, Seq<u8>),
)
    requires
        receiver.skipped.dom().finite(),
        receiver.skipped.len() <= MAX_SKIP,
    ensures
        receiver.receive(header, ciphertext, context, fresh) matches Ok((_, after)) ==> {
            &&& after.skipped.dom().finite()
            &&& after.skipped.len() <= MAX_SKIP
        },
{
    if receiver.skipped.contains_key(header.slot()) {
        assert(receiver.skipped.remove(header.slot()).dom() =~= receiver.skipped.dom().remove(
            header.slot(),
        ));
    } else {
        lemma_skip_bound(receiver, header.previous_chain_length as int);
        if let Some(chain) = receiver.on_chain(header, fresh) {
            lemma_skip_bound(chain, header.message_number as int);
        }
    }
}

proof fn lemma_skip_bound(session: SessionModel, until: int)
    requires
        session.skipped.dom().finite(),
        session.skipped.len() <= MAX_SKIP,
    ensures
        session.skip_to(until) matches Some(next) ==> {
            &&& next.skipped.dom().finite()
            &&& next.skipped.len() <= MAX_SKIP
        },
{
    lemma_skip_len(session, session.recv_count, until);
}

/// No more keys are put aside than the range has numbers.
pub proof fn lemma_skip_len(session: SessionModel, current: int, until: int)
    requires
        session.skipped.dom().finite(),
    ensures
        session.skip_range(current, until) matches Some(next) ==> {
            &&& next.skipped.dom().finite()
            &&& next.skipped.len() <= session.skipped.len() + if current < until {
                until - current
            } else {
                0
            }
        },
{
    if current < until && session.theirs is Some && session.receiving is Some {
        let range = key_range(session.theirs->0, session.receiving->0, current, until);
        lemma_range_len(session.theirs->0, session.receiving->0, current, until);
        let union = session.skipped.union_prefer_right(range);
        assert(union.dom() =~= session.skipped.dom().union(range.dom()));
        vstd::set_lib::lemma_len_union(session.skipped.dom(), range.dom());
    }
}

proof fn lemma_range_len(theirs: Seq<u8>, chain_key: Seq<u8>, from: int, until: int)
    requires
        from <= until,
    ensures
        key_range(theirs, chain_key, from, until).dom().finite(),
        key_range(theirs, chain_key, from, until).len() == until - from,
    decreases until - from,
{
    let range = key_range(theirs, chain_key, from, until);
    if from == until {
        assert(range.dom() =~= Set::empty());
    } else {
        let shorter = key_range(theirs, chain_key, from, until - 1);
        lemma_range_len(theirs, chain_key, from, until - 1);
        assert(range.dom() =~= shorter.dom().insert((theirs, until - 1)));
    }
}

} // verus!
