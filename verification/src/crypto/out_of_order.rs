//! What a conversation may rely on where messages arrive out of order: the
//! key of a message that is passed over is kept, survives what is read in the
//! meantime, and reads the message whenever it comes; and the messages of a
//! chain can be read in any order.

use super::error::CryptoError;
use super::ratchet::{RatchetHeader, MAX_SKIP};
use vstd::prelude::*;

verus! {

use super::conversation::{
    ahead, follows, has_room, law_delivery_across_turn, law_delivery_in_chain, lemma_chain_sum,
    lemma_skip_len, sent_more, slot_of,
};
use super::kdf::message_key_of;
use super::keys::law_key_agreement;
use super::primitives::dh_pair;
use super::ratchet::{chain_after, message_key_at, SessionModel};

/// `receiver` has put the key of the next message of `sender` aside.
pub open spec fn keeps(receiver: SessionModel, sender: SessionModel) -> bool {
    let slot = slot_of(sender, sender.send_count);
    &&& sender.sending is Some
    &&& receiver.skipped.contains_key(slot)
    &&& receiver.skipped[slot] == message_key_of(sender.sending->0)
}

/// Whether reading a message with this header leaves the key in `slot` alone:
/// it is not among the numbers whose keys are put aside for the message.
pub open spec fn spares(
    receiver: SessionModel,
    header: RatchetHeader,
    slot: (Seq<u8>, int),
) -> bool {
    ||| receiver.skipped.contains_key(header.slot())
    ||| if receiver.theirs == Some(header.ratchet_key@) {
        !(slot.0 == header.ratchet_key@ && receiver.recv_count <= slot.1 < header.message_number)
    } else {
        &&& !(receiver.receiving is Some && receiver.theirs == Some(slot.0) && receiver.recv_count
            <= slot.1 < header.previous_chain_length)
        &&& !(slot.0 == header.ratchet_key@ && 0 <= slot.1 < header.message_number)
    }
}

/// The key of a message that is passed over by a later one of its chain is
/// kept.
pub proof fn law_passed_over_in_chain(
    earlier: SessionModel,
    later: SessionModel,
    receiver: SessionModel,
    text: Seq<u8>,
    context: Seq<u8>,
    header: RatchetHeader,
    ciphertext: Seq<u8>,
    fresh: (Seq<u8>, Seq<u8>),
)
    requires
        follows(receiver, earlier),
        sent_more(earlier, later),
        later.sends(text, context, header, ciphertext),
        header.message_number < u32::MAX,
        has_room(receiver, later.send_count),
        !receiver.skipped.contains_key(header.slot()),
    ensures
        receiver.receive(header, ciphertext, context, fresh) matches Ok((read, after)) && read
            == text && keeps(after, earlier),
{
    let first = (earlier.send_count - receiver.recv_count) as nat;
    let rest = (later.send_count - earlier.send_count) as nat;
    lemma_chain_sum(receiver.receiving->0, first, rest);
    assert(follows(receiver, later));
    law_delivery_in_chain(later, receiver, text, context, header, ciphertext, fresh);
    assert(slot_of(later, earlier.send_count) == slot_of(earlier, earlier.send_count));
}

/// The key of a message that is passed over by the first one after the sender
/// turned the ratchet is kept. `earlier` is the sender before that, on the
/// chain that the receiver still follows.
pub proof fn law_passed_over_by_turn(
    earlier: SessionModel,
    later: SessionModel,
    receiver: SessionModel,
    text: Seq<u8>,
    context: Seq<u8>,
    header: RatchetHeader,
    ciphertext: Seq<u8>,
    fresh: (Seq<u8>, Seq<u8>),
)
    requires
        follows(receiver, earlier),
        ahead(later, receiver),
        earlier.send_count < later.previous_send_count,
        dh_pair(fresh.0, fresh.1),
        later.sends(text, context, header, ciphertext),
        header.message_number < u32::MAX,
        !receiver.skipped.contains_key(header.slot()),
        receiver.skip_to(header.previous_chain_length as int) is Some,
        has_room(receiver.on_chain(header, fresh)->0, later.send_count),
    ensures
        receiver.receive(header, ciphertext, context, fresh) matches Ok((read, after)) && read
            == text && keeps(after, earlier),
{
    law_delivery_across_turn(later, receiver, text, context, header, ciphertext, fresh);
    let after = receiver.receive(header, ciphertext, context, fresh)->Ok_0.1;
    let slot = slot_of(earlier, earlier.send_count);
    assert(after.skipped[slot] == message_key_at(
        receiver.receiving->0,
        (earlier.send_count - receiver.recv_count) as nat,
    ));
}

/// The key of a message of the sender's new chain that is passed over by a
/// later one, with which the receiver hears of that chain, is kept.
pub proof fn law_passed_over_after_turn(
    earlier: SessionModel,
    later: SessionModel,
    receiver: SessionModel,
    text: Seq<u8>,
    context: Seq<u8>,
    header: RatchetHeader,
    ciphertext: Seq<u8>,
    fresh: (Seq<u8>, Seq<u8>),
)
    requires
        ahead(earlier, receiver),
        ahead(later, receiver),
        sent_more(earlier, later),
        dh_pair(fresh.0, fresh.1),
        later.sends(text, context, header, ciphertext),
        header.message_number < u32::MAX,
        !receiver.skipped.contains_key(header.slot()),
        receiver.receiving is None || receiver.skip_to(header.previous_chain_length as int) is Some,
        has_room(receiver.on_chain(header, fresh)->0, later.send_count),
    ensures
        receiver.receive(header, ciphertext, context, fresh) matches Ok((read, after)) && read
            == text && keeps(after, earlier),
{
    law_delivery_across_turn(later, receiver, text, context, header, ciphertext, fresh);
    law_key_agreement(
        earlier.our_secret,
        earlier.our_public,
        receiver.our_secret,
        receiver.our_public,
    );
    law_key_agreement(
        later.our_secret,
        later.our_public,
        receiver.our_secret,
        receiver.our_public,
    );
    assert(slot_of(later, earlier.send_count) == slot_of(earlier, earlier.send_count));
}

/// A kept key survives every other message that is read: it stays, and it
/// stays the same unless that message had the keys of a range put aside in
/// which it falls.
pub proof fn law_kept_key_survives(
    receiver: SessionModel,
    slot: (Seq<u8>, int),
    context: Seq<u8>,
    header: RatchetHeader,
    ciphertext: Seq<u8>,
    fresh: (Seq<u8>, Seq<u8>),
)
    requires
        receiver.skipped.contains_key(slot),
        header.slot() != slot,
    ensures
        receiver.receive(header, ciphertext, context, fresh) matches Ok((_, after)) ==> {
            &&& after.skipped.contains_key(slot)
            &&& spares(receiver, header, slot) ==> after.skipped[slot] == receiver.skipped[slot]
        },
{
}

/// A message whose key was kept is read as it was written, however late it
/// comes. Its key is then gone, and nothing else of the session has changed.
pub proof fn law_kept_key_reads(
    sender: SessionModel,
    receiver: SessionModel,
    text: Seq<u8>,
    context: Seq<u8>,
    header: RatchetHeader,
    ciphertext: Seq<u8>,
    fresh: (Seq<u8>, Seq<u8>),
)
    requires
        keeps(receiver, sender),
        sender.sends(text, context, header, ciphertext),
    ensures
        receiver.receive(header, ciphertext, context, fresh) == Ok::<
            (Seq<u8>, SessionModel),
            CryptoError,
        >((text, SessionModel { skipped: receiver.skipped.remove(header.slot()), ..receiver })),
{
    assert(header.slot() == slot_of(sender, sender.send_count));
}

/// A message of the sender's old chain that arrives after the first one of the
/// new chain is read as it was written, and so does not hold up the new chain.
pub proof fn law_late_delivery_across_turn(
    earlier: SessionModel,
    later: SessionModel,
    receiver: SessionModel,
    letter: Letter,
    later_letter: Letter,
    fresh: (Seq<u8>, Seq<u8>),
    again: (Seq<u8>, Seq<u8>),
)
    requires
        follows(receiver, earlier),
        ahead(later, receiver),
        earlier.send_count < later.previous_send_count,
        dh_pair(fresh.0, fresh.1),
        earlier.sends(letter.text, letter.context, letter.header, letter.ciphertext),
        later.sends(
            later_letter.text,
            later_letter.context,
            later_letter.header,
            later_letter.ciphertext,
        ),
        later_letter.header.message_number < u32::MAX,
        !receiver.skipped.contains_key(later_letter.header.slot()),
        receiver.skip_to(later_letter.header.previous_chain_length as int) is Some,
        has_room(receiver.on_chain(later_letter.header, fresh)->0, later.send_count),
    ensures
        receiver.receive(
            later_letter.header,
            later_letter.ciphertext,
            later_letter.context,
            fresh,
        ) matches Ok((read_first, middle)) && read_first == later_letter.text && (middle.receive(
            letter.header,
            letter.ciphertext,
            letter.context,
            again,
        ) matches Ok((read_second, after)) && read_second == letter.text && follows(
            after,
            later.after_send(),
        )),
{
    law_passed_over_by_turn(
        earlier,
        later,
        receiver,
        later_letter.text,
        later_letter.context,
        later_letter.header,
        later_letter.ciphertext,
        fresh,
    );
    law_delivery_across_turn(
        later,
        receiver,
        later_letter.text,
        later_letter.context,
        later_letter.header,
        later_letter.ciphertext,
        fresh,
    );
    let middle = receiver.receive(
        later_letter.header,
        later_letter.ciphertext,
        later_letter.context,
        fresh,
    )->Ok_0.1;
    law_kept_key_reads(
        earlier,
        middle,
        letter.text,
        letter.context,
        letter.header,
        letter.ciphertext,
        again,
    );
}

/// A message on its way: its text, and what carries it.
pub struct Letter {
    pub text: Seq<u8>,
    pub context: Seq<u8>,
    pub header: RatchetHeader,
    pub ciphertext: Seq<u8>,
}

/// The session `sender` after it sent `n` messages.
pub open spec fn after_sends(sender: SessionModel, n: nat) -> SessionModel {
    SessionModel {
        sending: Some(chain_after(sender.sending->0, n)),
        send_count: sender.send_count + n,
        ..sender
    }
}

/// `letters` are the messages that `sender` sends next.
pub open spec fn sends_all(sender: SessionModel, letters: Seq<Letter>) -> bool {
    &&& sender.sending is Some
    &&& forall|i: int|
        0 <= i < letters.len() ==> after_sends(sender, i as nat).sends(
            (#[trigger] letters[i]).text,
            letters[i].context,
            letters[i].header,
            letters[i].ciphertext,
        )
}

/// `order` names letters out of `count`, none of them twice.
pub open spec fn picks(order: Seq<int>, count: nat) -> bool {
    &&& order.no_duplicates()
    &&& forall|k: int| 0 <= k < order.len() ==> 0 <= #[trigger] order[k] < count
}

/// What reading the letters gives in this order: their texts and the session
/// after them, or the first error.
pub open spec fn read_all(
    receiver: SessionModel,
    letters: Seq<Letter>,
    order: Seq<int>,
    fresh: (Seq<u8>, Seq<u8>),
) -> Result<(Seq<Seq<u8>>, SessionModel), CryptoError>
    decreases order.len(),
{
    if order.len() == 0 {
        Ok((Seq::empty(), receiver))
    } else {
        match read_all(receiver, letters, order.drop_last(), fresh) {
            Err(error) => Err(error),
            Ok((texts, session)) => {
                let letter = letters[order.last()];
                match session.receive(letter.header, letter.ciphertext, letter.context, fresh) {
                    Err(error) => Err(error),
                    Ok((text, after)) => Ok((texts.push(text), after)),
                }
            },
        }
    }
}

/// There is room for what is put aside in this order: at each letter, the
/// messages up to it that are still missing, beside what was kept before.
pub open spec fn room_for_order(
    receiver: SessionModel,
    sender: SessionModel,
    order: Seq<int>,
) -> bool {
    forall|k: int|
        0 <= k < order.len() ==> sender.send_count + #[trigger] order[k] - receiver.recv_count - k
            + receiver.skipped.len() <= MAX_SKIP
}

/// No key of the letters has been put aside yet.
pub open spec fn none_kept(receiver: SessionModel, letters: Seq<Letter>) -> bool {
    forall|i: int|
        0 <= i < letters.len() ==> !receiver.skipped.contains_key(
            (#[trigger] letters[i]).header.slot(),
        )
}

/// How far the session `now` has come on the chain of `sender` since
/// `receiver`, after the letters of `order` were read.
spec fn underway(
    receiver: SessionModel,
    sender: SessionModel,
    letters: Seq<Letter>,
    order: Seq<int>,
    now: SessionModel,
) -> bool {
    &&& now.theirs == receiver.theirs
    &&& receiver.recv_count <= now.recv_count <= sender.send_count + letters.len()
    &&& now.receiving == Some(
        chain_after(receiver.receiving->0, (now.recv_count - receiver.recv_count) as nat),
    )
    &&& now.skipped.dom().finite()
    &&& now.skipped.len() <= receiver.skipped.len() + now.recv_count - receiver.recv_count
        - order.len()
    &&& forall|i: int|
        0 <= i < letters.len() && !order.contains(i) ==> {
            let slot = (#[trigger] letters[i]).header.slot();
            if sender.send_count + i < now.recv_count {
                now.skipped.contains_key(slot) && now.skipped[slot] == message_key_at(
                    receiver.receiving->0,
                    (sender.send_count + i - receiver.recv_count) as nat,
                )
            } else {
                !now.skipped.contains_key(slot)
            }
        }
}

proof fn lemma_reads_one(
    sender: SessionModel,
    receiver: SessionModel,
    letters: Seq<Letter>,
    order: Seq<int>,
    now: SessionModel,
    pick: int,
    fresh: (Seq<u8>, Seq<u8>),
)
    requires
        follows(receiver, sender),
        sends_all(sender, letters),
        sender.send_count + letters.len() <= u32::MAX,
        underway(receiver, sender, letters, order, now),
        0 <= pick < letters.len(),
        !order.contains(pick),
        sender.send_count + pick - receiver.recv_count - order.len() + receiver.skipped.len()
            <= MAX_SKIP,
    ensures
        now.receive(
            letters[pick].header,
            letters[pick].ciphertext,
            letters[pick].context,
            fresh,
        ) matches Ok((read, after)) && read == letters[pick].text && underway(
            receiver,
            sender,
            letters,
            order.push(pick),
            after,
        ),
{
    let letter = letters[pick];
    let at = after_sends(sender, pick as nat);
    let base = receiver.receiving->0;
    let passed = (sender.send_count - receiver.recv_count) as nat;
    lemma_chain_sum(base, passed, pick as nat);
    let slot = letter.header.slot();
    assert(at.sends(letter.text, letter.context, letter.header, letter.ciphertext));
    assert forall|i: int| 0 <= i < letters.len() implies (#[trigger] letters[i]).header.slot() == (
    sender.our_public, sender.send_count + i) by {
        assert(after_sends(sender, i as nat).sends(
            letters[i].text,
            letters[i].context,
            letters[i].header,
            letters[i].ciphertext,
        ));
    }
    assert(order.push(pick).contains(pick)) by {
        assert(order.push(pick)[order.len() as int] == pick);
    }
    assert forall|i: int| order.contains(i) implies #[trigger] order.push(pick).contains(i) by {
        let k = order.index_of(i);
        assert(order.push(pick)[k] == i);
    }
    if sender.send_count + pick < now.recv_count {
        law_kept_key_reads(
            at,
            now,
            letter.text,
            letter.context,
            letter.header,
            letter.ciphertext,
            fresh,
        );
        let after = SessionModel { skipped: now.skipped.remove(slot), ..now };
        assert(after.skipped.dom() =~= now.skipped.dom().remove(slot));
    } else {
        let far = (now.recv_count - receiver.recv_count) as nat;
        let gap = (at.send_count - now.recv_count) as nat;
        lemma_chain_sum(base, far, gap);
        assert(follows(now, at));
        law_delivery_in_chain(
            at,
            now,
            letter.text,
            letter.context,
            letter.header,
            letter.ciphertext,
            fresh,
        );
        lemma_skip_len(now, now.recv_count, at.send_count);
        let after = now.receive(
            letter.header,
            letter.ciphertext,
            letter.context,
            fresh,
        )->Ok_0.1;
        let ready = now.skip_to(at.send_count)->0;
        assert(ready.receiving == at.sending);
        assert(after.skipped == ready.skipped);
        assert(after.receiving == Some(chain_after(base, passed + pick as nat + 1)));
        assert forall|i: int| 0 <= i < letters.len() && !order.push(pick).contains(i) implies {
            let slot = (#[trigger] letters[i]).header.slot();
            if sender.send_count + i < after.recv_count {
                after.skipped.contains_key(slot) && after.skipped[slot] == message_key_at(
                    base,
                    (sender.send_count + i - receiver.recv_count) as nat,
                )
            } else {
                !after.skipped.contains_key(slot)
            }
        } by {
            if now.recv_count <= sender.send_count + i < at.send_count {
                lemma_chain_sum(base, far, (sender.send_count + i - now.recv_count) as nat);
                assert(letters[i].header.slot() == slot_of(at, sender.send_count + i));
            }
        }
    }
}

proof fn lemma_reads_all(
    sender: SessionModel,
    receiver: SessionModel,
    letters: Seq<Letter>,
    order: Seq<int>,
    fresh: (Seq<u8>, Seq<u8>),
)
    requires
        follows(receiver, sender),
        sends_all(sender, letters),
        sender.send_count + letters.len() <= u32::MAX,
        picks(order, letters.len()),
        receiver.skipped.dom().finite(),
        none_kept(receiver, letters),
        room_for_order(receiver, sender, order),
    ensures
        read_all(receiver, letters, order, fresh) matches Ok((texts, after)) && texts
            == Seq::new(order.len(), |k: int| letters[order[k]].text) && underway(
            receiver,
            sender,
            letters,
            order,
            after,
        ),
    decreases order.len(),
{
    if order.len() > 0 {
        let before = order.drop_last();
        assert forall|k: int| 0 <= k < before.len() implies 0 <= #[trigger] before[k]
            < letters.len() by {
            assert(before[k] == order[k]);
        }
        assert forall|k: int| 0 <= k < before.len() implies sender.send_count
            + #[trigger] before[k] - receiver.recv_count - k + receiver.skipped.len()
            <= MAX_SKIP by {
            assert(before[k] == order[k]);
        }
        lemma_reads_all(sender, receiver, letters, before, fresh);
        let (texts, now) = read_all(receiver, letters, before, fresh)->Ok_0;
        let last = order[order.len() - 1];
        assert(!before.contains(last)) by {
            if before.contains(last) {
                let k = before.index_of(last);
                assert(order[k] == order[order.len() - 1]);
            }
        }
        lemma_reads_one(sender, receiver, letters, before, now, last, fresh);
        assert(before.push(last) =~= order);
        assert(texts.push(letters[last].text) =~= Seq::new(
            order.len(),
            |k: int| letters[order[k]].text,
        ));
    } else {
        assert(chain_after(receiver.receiving->0, 0) == receiver.receiving->0);
        assert(read_all(receiver, letters, order, fresh)->Ok_0.0 =~= Seq::new(
            order.len(),
            |k: int| letters[order[k]].text,
        ));
    }
}

/// The messages of a chain are read as they were written in any order, and
/// also if some never arrive, as long as there is room for the keys of those
/// that are missing. After that the receiver still follows the sender.
pub proof fn law_delivery_in_any_order(
    sender: SessionModel,
    receiver: SessionModel,
    letters: Seq<Letter>,
    order: Seq<int>,
    fresh: (Seq<u8>, Seq<u8>),
)
    requires
        follows(receiver, sender),
        sends_all(sender, letters),
        sender.send_count + letters.len() <= u32::MAX,
        picks(order, letters.len()),
        receiver.skipped.dom().finite(),
        none_kept(receiver, letters),
        room_for_order(receiver, sender, order),
    ensures
        read_all(receiver, letters, order, fresh) matches Ok((texts, after)) && texts
            == Seq::new(order.len(), |k: int| letters[order[k]].text) && follows(
            after,
            after_sends(sender, letters.len()),
        ),
{
    lemma_reads_all(sender, receiver, letters, order, fresh);
    let after = read_all(receiver, letters, order, fresh)->Ok_0.1;
    let base = receiver.receiving->0;
    let passed = (sender.send_count - receiver.recv_count) as nat;
    let far = (after.recv_count - receiver.recv_count) as nat;
    lemma_chain_sum(base, passed, letters.len());
    lemma_chain_sum(base, far, (passed + letters.len() - far) as nat);
}

/// The messages of a chain that the receiver has not heard of, such as the
/// first ones of a conversation, are read as they were written in any order,
/// and also if some never arrive. The first that arrives turns the ratchet.
pub proof fn law_new_chain_in_any_order(
    sender: SessionModel,
    receiver: SessionModel,
    letters: Seq<Letter>,
    order: Seq<int>,
    fresh: (Seq<u8>, Seq<u8>),
)
    requires
        ahead(sender, receiver),
        sends_all(sender, letters),
        sender.send_count + letters.len() <= u32::MAX,
        picks(order, letters.len()),
        order.len() > 0,
        receiver.skipped.dom().finite(),
        none_kept(receiver, letters),
        // Room for the rest of the old chain and for what is missing of the new one.
        receiver.on_chain(letters[0].header, fresh) matches Some(turned) && room_for_order(
            turned,
            sender,
            order,
        ),
    ensures
        read_all(receiver, letters, order, fresh) matches Ok((texts, after)) && texts
            == Seq::new(order.len(), |k: int| letters[order[k]].text) && follows(
            after,
            after_sends(sender, letters.len()),
        ),
{
    let turned = receiver.on_chain(letters[0].header, fresh)->0;
    assert(0 <= order[0] < letters.len());
    assert forall|i: int| 0 <= i < letters.len() implies (#[trigger] letters[i]).header.slot() == (
    sender.our_public, sender.send_count + i) && receiver.on_chain(letters[i].header, fresh)
        == Some(turned) by {
        assert(after_sends(sender, i as nat).sends(
            letters[i].text,
            letters[i].context,
            letters[i].header,
            letters[i].ciphertext,
        ));
        assert(after_sends(sender, 0).sends(
            letters[0].text,
            letters[0].context,
            letters[0].header,
            letters[0].ciphertext,
        ));
    }
    law_key_agreement(
        sender.our_secret,
        sender.our_public,
        receiver.our_secret,
        receiver.our_public,
    );
    assert(follows(turned, sender));
    lemma_skip_len(
        receiver,
        receiver.recv_count,
        letters[0].header.previous_chain_length as int,
    );
    assert(none_kept(turned, letters));
    law_delivery_in_any_order(sender, turned, letters, order, fresh);
    lemma_same_reading(sender, receiver, turned, letters, order, fresh);
}

proof fn lemma_same_reading(
    sender: SessionModel,
    receiver: SessionModel,
    turned: SessionModel,
    letters: Seq<Letter>,
    order: Seq<int>,
    fresh: (Seq<u8>, Seq<u8>),
)
    requires
        order.len() > 0,
        picks(order, letters.len()),
        none_kept(receiver, letters),
        none_kept(turned, letters),
        receiver.theirs != Some(sender.our_public),
        turned.theirs == Some(sender.our_public),
        forall|i: int|
            0 <= i < letters.len() ==> (#[trigger] letters[i]).header.ratchet_key@
                == sender.our_public && receiver.on_chain(letters[i].header, fresh) == Some(turned),
    ensures
        read_all(receiver, letters, order, fresh) == read_all(turned, letters, order, fresh),
    decreases order.len(),
{
    let before = order.drop_last();
    let last = order[order.len() - 1];
    assert(0 <= last < letters.len());
    if order.len() == 1 {
        let letter = letters[last];
        assert(before.len() == 0);
        reveal_with_fuel(read_all, 2);
        assert(receiver.receive(letter.header, letter.ciphertext, letter.context, fresh)
            == turned.receive(letter.header, letter.ciphertext, letter.context, fresh));
    } else {
        assert forall|k: int| 0 <= k < before.len() implies 0 <= #[trigger] before[k]
            < letters.len() by {
            assert(before[k] == order[k]);
        }
        lemma_same_reading(sender, receiver, turned, letters, before, fresh);
    }
}

} // verus!
