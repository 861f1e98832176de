//! Canonical JSON and the digests taken over it.
//!
//! Punctuation and field names are written here; every string and value between them is
//! encoded by the JSON crate.

use vstd::prelude::*;
use vstd::string::*;
use vstd::utf8::*;

use crate::json::{Json, JsonTree};
use crate::outside;
use crate::outside::sha256;
use crate::text;
use crate::text::hex;

verus! {

/// The encoding of a JSON string.
pub open spec fn string_bytes(value: Seq<char>) -> Seq<u8> {
    outside::json_bytes(JsonTree::Text(value))
}

/// The encoding of an optional JSON string.
pub open spec fn optional_bytes(value: Option<Seq<char>>) -> Seq<u8> {
    match value {
        Some(value) => string_bytes(value),
        None => outside::json_bytes(JsonTree::Null),
    }
}

/// Encodings with a comma between each two.
pub open spec fn comma_separated(parts: Seq<Seq<u8>>) -> Seq<u8>
    decreases parts.len(),
{
    if parts.len() == 0 {
        Seq::empty()
    } else if parts.len() == 1 {
        parts[0]
    } else {
        comma_separated(parts.drop_last()) + encode_utf8(","@) + parts.last()
    }
}

/// The digest of a message, in base sixteen.
pub open spec fn digest_text(message: Seq<u8>) -> Seq<char> {
    text::hexadecimal(outside::sha256_digest(message))
}

/// What is appended in two steps is appended in one.
pub broadcast proof fn lemma_append(a: Seq<u8>, b: Seq<u8>, c: Seq<u8>)
    ensures
        #[trigger] (a + (b + c)) == a + b + c,
{
    assert(a + (b + c) =~= a + b + c);
}

/// Appends fixed text.
pub fn push_text(out: &mut Vec<u8>, value: &str)
    ensures
        final(out)@ == old(out)@ + encode_utf8(value@),
{
    out.extend_from_slice(value.as_bytes());
    assert(out@ =~= old(out)@ + encode_utf8(value@));
}

/// Appends the encoding of a value.
pub fn push_json(out: &mut Vec<u8>, value: &Json)
    ensures
        final(out)@ == old(out)@ + outside::json_bytes(value@),
{
    let bytes = value.encode();
    out.extend_from_slice(bytes.as_slice());
    assert(out@ =~= old(out)@ + outside::json_bytes(value@));
}

/// Appends the encoding of a string.
pub fn push_string(out: &mut Vec<u8>, value: &str)
    ensures
        final(out)@ == old(out)@ + string_bytes(value@),
{
    push_json(out, &Json::Text(value.to_owned()));
}

/// Appends the encoding of an optional string.
pub fn push_optional(out: &mut Vec<u8>, value: &Option<String>)
    ensures
        final(out)@ == old(out)@ + optional_bytes(crate::error::optional_text(*value)),
{
    match value {
        Some(value) => push_string(out, value.as_str()),
        None => push_json(out, &Json::Null),
    }
}

/// The digest of a message, in base sixteen.
pub fn digest_hex(message: &[u8]) -> (r: String)
    ensures
        r@ == digest_text(message@),
        r@.len() == 64,
        outside::sha256_digest(message@).len() == 32,
{
    let digest = sha256(message);
    proof {
        text::lemma_hexadecimal(digest@);
    }
    hex(digest.as_slice())
}

} // verus!
