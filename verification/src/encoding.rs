//! Base64 as it stands in messages.

use vstd::prelude::*;

verus! {

/// The standard base64 text of a byte string, with padding.
pub uninterp spec fn base64_text(bytes: Seq<u8>) -> Seq<char>;

/// The byte string that a standard base64 text stands for, if it is one.
pub uninterp spec fn base64_bytes(text: Seq<char>) -> Option<Seq<u8>>;

/// The length of the base64 text of `n` bytes: four characters for every
/// three bytes begun.
pub open spec fn base64_len(n: nat) -> nat {
    (n + 2) / 3 * 4
}

/// `base64::engine::general_purpose::STANDARD.encode`: ASCII text of the
/// length that the padding gives, which decodes to the bytes. It panics where
/// that length does not fit in memory.
#[verifier::external_body]
pub(crate) fn encode(bytes: &[u8]) -> (out: String)
    requires
        base64_len(bytes@.len()) <= isize::MAX,
    ensures
        out@ == base64_text(bytes@),
        out@.len() == base64_len(bytes@.len()),
        vstd::utf8::is_ascii_chars(out@),
        base64_bytes(out@) == Some(bytes@),
{
    base64::Engine::encode(&base64::engine::general_purpose::STANDARD, bytes)
}

/// `base64::engine::general_purpose::STANDARD.decode`.
#[verifier::external_body]
pub(crate) fn decode(text: &str) -> (out: Option<Vec<u8>>)
    ensures
        out is Some <==> base64_bytes(text@) is Some,
        out matches Some(bytes) ==> base64_bytes(text@) == Some(bytes@),
{
    base64::Engine::decode(&base64::engine::general_purpose::STANDARD, text).ok()
}

/// What base64 decoding says of a text that it refuses.
pub uninterp spec fn base64_fault(text: Seq<char>) -> Seq<char>;

/// `base64::DecodeError` as text, for a text that
/// `base64::engine::general_purpose::STANDARD.decode` refuses.
#[verifier::external_body]
pub(crate) fn decode_fault(text: &str) -> (out: Option<String>)
    ensures
        out is Some <==> base64_bytes(text@) is None,
        out matches Some(reason) ==> reason@ == base64_fault(text@),
{
    let decoded = base64::Engine::decode(&base64::engine::general_purpose::STANDARD, text);
    decoded.err().map(|error| error.to_string())
}

/// A text that is the base64 form of `bytes`.
pub open spec fn encodes(text: Seq<char>, bytes: Seq<u8>) -> bool {
    &&& text == base64_text(bytes)
    &&& text.len() == base64_len(bytes.len())
    &&& vstd::utf8::is_ascii_chars(text)
    &&& base64_bytes(text) == Some(bytes)
}

/// Whether the base64 form of so many bytes fits in memory.
pub fn fits_base64(len: usize) -> (out: bool)
    ensures
        out == (base64_len(len as nat) <= isize::MAX),
{
    len <= isize::MAX as usize / 4 * 3
}

/// The JSON form of a list of texts.
pub uninterp spec fn json_list(items: Seq<Seq<char>>) -> Seq<u8>;

/// The list of texts that a JSON document stands for, if it is one.
pub uninterp spec fn json_items(document: Seq<u8>) -> Option<Seq<Seq<char>>>;

/// The texts of a list.
pub open spec fn texts(items: Seq<String>) -> Seq<Seq<char>> {
    items.map_values(|item: String| item@)
}

/// `serde_json::to_vec` on a list of texts, which always succeeds and which
/// `serde_json::from_slice` reads back.
#[verifier::external_body]
pub(crate) fn encode_json_list(items: &Vec<String>) -> (out: Option<Vec<u8>>)
    ensures
        out is Some,
        out->0@ == json_list(texts(items@)),
        json_items(out->0@) == Some(texts(items@)),
{
    serde_json::to_vec(items).ok()
}

/// `serde_json::from_slice` into a list of texts.
#[verifier::external_body]
pub(crate) fn decode_json_list(document: &[u8]) -> (out: Option<Vec<String>>)
    ensures
        out is Some <==> json_items(document@) is Some,
        out matches Some(items) ==> json_items(document@) == Some(texts(items@)),
{
    serde_json::from_slice::<Vec<String>>(document).ok()
}

} // verus!
