//! Safety numbers: how they are shown, confirmed and cleared, and what is said
//! when the identity key of a peer changes.

use super::chat::{ChatEntry, IdentityKeyStatus};
use crate::bytes::exact32;
use crate::crypto::fingerprint::Fingerprint;
use crate::encoding::{decode, decode_fault};
use crate::text::chars_of;
use vstd::prelude::*;
use vstd::string::*;

verus! {

use crate::crypto::fingerprint::{grouped, safety_digits};
use crate::encoding::{base64_bytes, base64_fault, texts};
use vstd::utf8::encode_utf8;

/// What is done about a safety number.
#[derive(Debug, Clone, Copy, PartialEq, Eq, Structural)]
pub enum VerifyAction {
    View,
    Confirm,
    Clear,
}

/// Why an identity key cannot be read, or nothing if it can.
pub open spec fn identity_fault(text: Seq<char>) -> Option<Seq<char>> {
    match base64_bytes(text) {
        None => Some(base64_fault(text)),
        Some(bytes) => if bytes.len() != 32 {
            Some("identity key must be 32 bytes"@)
        } else {
            None
        },
    }
}

/// An identity key out of its text form, or why it cannot be read.
pub fn decode_identity_key(text: &str) -> (out: Result<[u8; 32], String>)
    ensures
        match out {
            Ok(key) => base64_bytes(text@) == Some(key@),
            Err(reason) => identity_fault(text@) == Some(reason@),
        },
        out is Ok <==> identity_fault(text@) is None,
{
    match decode(text) {
        Some(bytes) => match exact32(&bytes) {
            Some(key) => Ok(key),
            None => Err("identity key must be 32 bytes".to_owned()),
        },
        None => match decode_fault(text) {
            Some(reason) => Err(reason),
            None => Err(String::new()),
        },
    }
}

/// Whether an identity key that a peer presents is worth storing.
pub fn is_identity_key(text: &str) -> (out: bool)
    ensures
        out == (identity_fault(text@) is None),
{
    decode_identity_key(text).is_ok()
}

/// The warning that the identity key of a peer has changed.
pub open spec fn change_warning(peer: Seq<char>) -> Seq<char> {
    "security alert: "@ + peer
        + "'s identity key has changed! Previous verification is no longer valid. Open verification to see the new safety number."@
}

/// What is said of the identity key of a peer, after it was stored.
pub fn identity_warning(peer_id: &str, status: &IdentityKeyStatus) -> (out: Option<String>)
    ensures
        match out {
            Some(warning) => status is Changed && warning@ == change_warning(peer_id@),
            None => !(status is Changed),
        },
{
    match status {
        IdentityKeyStatus::Changed { .. } => {
            let mut warning = "security alert: ".to_owned();
            warning.append(peer_id);
            warning.append(
                "'s identity key has changed! Previous verification is no longer valid. Open verification to see the new safety number.",
            );
            Some(warning)
        },
        _ => None,
    }
}

/// The safety number of two users.
pub open spec fn safety_number(
    local_user: Seq<char>,
    local_key: Seq<u8>,
    peer: Seq<char>,
    peer_key: Seq<u8>,
) -> Seq<char> {
    grouped(safety_digits(encode_utf8(local_user), local_key, encode_utf8(peer), peer_key))
}

/// What is said where there is no safety number.
pub open spec fn safety_fault(
    local_key: Seq<char>,
    peer: Seq<char>,
    peer_key: Option<Seq<char>>,
) -> Option<Seq<char>> {
    match peer_key {
        None => Some(
            "no identity key stored for "@ + peer
                + " \u{2014} send or receive a message first"@,
        ),
        Some(peer_key) => match (identity_fault(local_key), identity_fault(peer_key)) {
            (Some(reason), _) => Some("failed to compute safety number: "@ + reason),
            (None, Some(reason)) => Some("failed to compute safety number: "@ + reason),
            (None, None) => None,
        },
    }
}

fn safety_error(reason: String) -> (out: String)
    ensures
        out@ == "failed to compute safety number: "@ + reason@,
{
    let mut text = "failed to compute safety number: ".to_owned();
    text.append(reason.as_str());
    text
}

/// The safety number with a peer, whose identity key has been stored or not, or
/// what is said where there is none.
pub fn resolve_safety_number(
    local_user_id: &str,
    local_key: &str,
    peer_id: &str,
    peer_key: &Option<String>,
) -> (out: Result<String, String>)
    ensures
        ({
            let stored = match peer_key {
                Some(key) => Some(key@),
                None => None,
            };
            match safety_fault(local_key@, peer_id@, stored) {
                Some(reason) => out matches Err(said) && said@ == reason,
                None => out matches Ok(number) && number@ == safety_number(
                    local_user_id@,
                    base64_bytes(local_key@)->0,
                    peer_id@,
                    base64_bytes(stored->0)->0,
                ),
            }
        }),
{
    let peer_key = match peer_key {
        Some(key) => key,
        None => {
            let mut text = "no identity key stored for ".to_owned();
            text.append(peer_id);
            text.append(" \u{2014} send or receive a message first");
            return Err(text);
        },
    };
    let local = match decode_identity_key(local_key) {
        Ok(key) => key,
        Err(reason) => return Err(safety_error(reason)),
    };
    let peer = match decode_identity_key(peer_key.as_str()) {
        Ok(key) => key,
        Err(reason) => return Err(safety_error(reason)),
    };
    let fingerprint = Fingerprint::compute(local_user_id, &local, peer_id, &peer);
    Ok(fingerprint.display_grouped())
}

/// How many spaces a text has.
pub open spec fn space_count(text: Seq<char>) -> nat
    decreases text.len(),
{
    if text.len() == 0 {
        0
    } else {
        space_count(text.drop_last()) + (if text.last() == ' ' {
            1nat
        } else {
            0nat
        })
    }
}

/// The rows of a safety number: four groups in each.
pub open spec fn number_rows(text: Seq<char>) -> Seq<Seq<char>>
    decreases text.len(),
{
    if text.len() == 0 {
        seq![Seq::empty()]
    } else {
        let before = number_rows(text.drop_last());
        if text.last() == ' ' && space_count(text.drop_last()) % 4 == 3 {
            before.push(Seq::empty())
        } else {
            before.drop_last().push(before.last().push(text.last()))
        }
    }
}

fn split_number(text: &str) -> (out: Vec<String>)
    ensures
        texts(out@) == number_rows(text@),
{
    let chars = chars_of(text);
    let mut out: Vec<String> = Vec::new();
    let mut current = String::new();
    let mut spaces: usize = 0;
    let mut i: usize = 0;
    assert(current@ =~= Seq::<char>::empty());
    assert(texts(out@).push(current@) =~= number_rows(chars@.take(0)));
    while i < chars.len()
        invariant
            i <= chars@.len(),
            spaces < 4,
            spaces == space_count(chars@.take(i as int)) % 4,
            texts(out@).push(current@) == number_rows(chars@.take(i as int)),
        decreases chars@.len() - i,
    {
        let ghost more = chars@.take(i + 1);
        let ghost before = texts(out@).push(current@);
        assert(more.drop_last() =~= chars@.take(i as int));
        assert(before.drop_last() =~= texts(out@));
        assert(before.last() == current@);
        let c = chars[i];
        if c == ' ' && spaces == 3 {
            let ghost finished = out@;
            let ghost row = current@;
            out.push(current);
            current = String::new();
            assert(current@ =~= Seq::<char>::empty());
            assert(texts(out@) =~= texts(finished).push(row));
        } else {
            current.push(c);
        }
        if c == ' ' {
            spaces = if spaces == 3 {
                0
            } else {
                spaces + 1
            };
        }
        assert(texts(out@).push(current@) =~= number_rows(more));
        i += 1;
    }
    assert(chars@.take(i as int) =~= chars@);
    let ghost finished = out@;
    let ghost row = current@;
    out.push(current);
    assert(texts(out@) =~= texts(finished).push(row));
    out
}

/// An entry that is a status with this text.
pub open spec fn is_status(entry: ChatEntry, text: Seq<char>) -> bool {
    entry matches ChatEntry::Status(shown) && shown@ == text
}

/// An entry that is a warning with this text.
pub open spec fn is_warning(entry: ChatEntry, text: Seq<char>) -> bool {
    entry matches ChatEntry::Warning(shown) && shown@ == text
}

/// Nothing but a status with this text.
pub open spec fn says(entries: Seq<ChatEntry>, text: Seq<char>) -> bool {
    entries.len() == 1 && is_status(entries[0], text)
}

/// Nothing but a status with this text.
pub fn only_status(text: String) -> (out: Vec<ChatEntry>)
    ensures
        says(out@, text@),
{
    let mut out: Vec<ChatEntry> = Vec::new();
    out.push(ChatEntry::Status(text));
    out
}

/// What is said where the database cannot be reached.
pub fn database_unavailable() -> (out: Vec<ChatEntry>)
    ensures
        says(out@, "database unavailable"@),
{
    only_status("database unavailable".to_owned())
}

/// What is said of a verification, by the number that was confirmed.
pub open spec fn verdict(number: Seq<char>, confirmed: Option<Seq<char>>, entry: ChatEntry) -> bool {
    match confirmed {
        Some(stored) => if stored == number {
            is_status(entry, "\u{2705} this contact is verified"@)
        } else {
            is_warning(
                entry,
                "stored verification is outdated \u{2014} key has changed since verification"@,
            )
        },
        None => is_status(
            entry,
            "not yet verified \u{2014} press y after comparing numbers"@,
        ),
    }
}

/// The safety number with a peer as it is shown: a heading, the rows of the
/// number, what to do with it, and whether it has been confirmed.
pub open spec fn shows_number(
    entries: Seq<ChatEntry>,
    peer: Seq<char>,
    number: Seq<char>,
    confirmed: Option<Seq<char>>,
) -> bool {
    let rows = number_rows(number);
    &&& entries.len() == rows.len() + 3
    &&& is_status(entries[0], "safety number with "@ + peer + ":"@)
    &&& forall|i: int|
        0 <= i < rows.len() ==> is_status(#[trigger] entries[i + 1], "  "@ + rows[i])
    &&& is_status(
        entries[rows.len() + 1int],
        "compare this number with your contact out-of-band to verify E2EE"@,
    )
    &&& verdict(number, confirmed, entries[rows.len() + 2int])
}

/// The safety number with a peer, to be shown. `confirmed` is the number that
/// was confirmed, if one was.
pub fn format_verify_output(
    peer_id: &str,
    safety: Result<String, String>,
    confirmed: Option<String>,
) -> (out: Vec<ChatEntry>)
    ensures
        match safety {
            Err(reason) => says(out@, reason@),
            Ok(number) => shows_number(
                out@,
                peer_id@,
                number@,
                match confirmed {
                    Some(stored) => Some(stored@),
                    None => None,
                },
            ),
        },
{
    let number = match safety {
        Ok(number) => number,
        Err(reason) => return only_status(reason),
    };
    let mut heading = "safety number with ".to_owned();
    heading.append(peer_id);
    heading.append(":");
    let mut out: Vec<ChatEntry> = Vec::new();
    out.push(ChatEntry::Status(heading));
    let rows = split_number(number.as_str());
    let ghost row_views = number_rows(number@);
    assert(rows@.len() == texts(rows@).len());
    let mut i: usize = 0;
    while i < rows.len()
        invariant
            i <= rows@.len(),
            row_views == texts(rows@),
            out@.len() == i + 1,
            is_status(out@[0], "safety number with "@ + peer_id@ + ":"@),
            forall|j: int|
                0 <= j < i ==> is_status(#[trigger] out@[j + 1], "  "@ + row_views[j]),
        decreases rows@.len() - i,
    {
        let mut row = "  ".to_owned();
        row.append(rows[i].as_str());
        let ghost before = out@;
        out.push(ChatEntry::Status(row));
        assert forall|j: int| 0 <= j < i + 1 implies is_status(
            #[trigger] out@[j + 1],
            "  "@ + row_views[j],
        ) by {
            if j < i {
                assert(out@[j + 1] == before[j + 1]);
            }
        }
        i += 1;
    }
    let ghost shown = out@;
    out.push(
        ChatEntry::Status(
            "compare this number with your contact out-of-band to verify E2EE".to_owned(),
        ),
    );
    out.push(
        match confirmed {
            Some(stored) => if stored == number {
                ChatEntry::Status("\u{2705} this contact is verified".to_owned())
            } else {
                ChatEntry::Warning(
                    "stored verification is outdated \u{2014} key has changed since verification".to_owned(),
                )
            },
            None => ChatEntry::Status(
                "not yet verified \u{2014} press y after comparing numbers".to_owned(),
            ),
        },
    );
    assert forall|j: int| 0 <= j < row_views.len() implies is_status(
        #[trigger] out@[j + 1],
        "  "@ + row_views[j],
    ) by {
        assert(out@[j + 1] == shown[j + 1]);
    }
    out
}

/// What is said after a safety number was confirmed, or where there is none.
pub fn confirm_output(peer_id: &str, stored: Result<bool, String>) -> (out: Vec<ChatEntry>)
    ensures
        match stored {
            Ok(true) => says(out@, "\u{2705} "@ + peer_id@ + " marked as verified"@),
            Ok(false) => says(out@, "failed to store verification"@),
            Err(reason) => says(out@, reason@),
        },
{
    match stored {
        Ok(true) => {
            let mut text = "\u{2705} ".to_owned();
            text.append(peer_id);
            text.append(" marked as verified");
            only_status(text)
        },
        Ok(false) => only_status("failed to store verification".to_owned()),
        Err(reason) => only_status(reason),
    }
}

/// What is said after a verification was cleared.
pub fn clear_output(peer_id: &str, cleared: bool) -> (out: Vec<ChatEntry>)
    ensures
        says(
            out@,
            if cleared {
                "verification cleared for "@ + peer_id@
            } else {
                "failed to clear verification"@
            },
        ),
{
    if cleared {
        let mut text = "verification cleared for ".to_owned();
        text.append(peer_id);
        only_status(text)
    } else {
        only_status("failed to clear verification".to_owned())
    }
}

/// Both users see the same safety number.
pub proof fn law_same_number_on_both_sides(
    user_a: Seq<char>,
    key_a: Seq<u8>,
    user_b: Seq<char>,
    key_b: Seq<u8>,
)
    ensures
        safety_number(user_a, key_a, user_b, key_b) == safety_number(user_b, key_b, user_a, key_a),
{
    crate::crypto::fingerprint::law_safety_number_symmetric(
        encode_utf8(user_a),
        key_a,
        encode_utf8(user_b),
        key_b,
    );
}

} // verus!
