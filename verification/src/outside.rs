//! Calls into outside crates, with what this crate believes of each.
//!
//! Nothing in this file is proved: every other module is proved against it.

use vstd::prelude::*;
use vstd::string::*;
use vstd::utf8::*;

use crate::endpoint;
use crate::endpoint::{HostAddress, UrlParts, UrlView};
use crate::exchange;
use crate::headers;
use crate::json::JsonTree;
use crate::text;

verus! {

/// `serde_json::Value`: an outside JSON value, read only through the functions below.
#[verifier::external_type_specification]
#[verifier::external_body]
pub struct ExJsonValue(serde_json::Value);

/// `serde_json::Number`: an outside JSON number, carried through and never read.
#[verifier::external_type_specification]
#[verifier::external_body]
pub struct ExJsonNumber(serde_json::Number);

/// What a `serde_json::Value` holds. Its objects are sorted maps, so they have no order
/// of their own.
pub uninterp spec fn json_tree(value: serde_json::Value) -> JsonTree;

/// The compact encoding that `serde_json::to_vec` gives of what a value holds.
pub uninterp spec fn json_bytes(tree: JsonTree) -> Seq<u8>;

/// `serde_json::Number::clone`: the same number.
#[verifier::external_body]
pub(crate) fn number_clone(number: &serde_json::Number) -> (r: serde_json::Number)
    ensures
        r == *number,
{
    number.clone()
}

/// `serde_json::Value::Null`: holds null.
#[verifier::external_body]
pub(crate) fn value_null() -> (r: serde_json::Value)
    ensures
        json_tree(r) == JsonTree::Null,
{
    serde_json::Value::Null
}

/// `serde_json::Value::Bool`: holds the boolean.
#[verifier::external_body]
pub(crate) fn value_bool(flag: bool) -> (r: serde_json::Value)
    ensures
        json_tree(r) == JsonTree::Bool(flag),
{
    serde_json::Value::Bool(flag)
}

/// `serde_json::Value::Number`: holds the number.
#[verifier::external_body]
pub(crate) fn value_number(number: serde_json::Number) -> (r: serde_json::Value)
    ensures
        json_tree(r) == JsonTree::Number(number),
{
    serde_json::Value::Number(number)
}

/// `serde_json::Value::String`: holds the string.
#[verifier::external_body]
pub(crate) fn value_text(text: String) -> (r: serde_json::Value)
    ensures
        json_tree(r) == JsonTree::Text(text@),
{
    serde_json::Value::String(text)
}

/// `serde_json::Value::Array`: holds the items in their order.
#[verifier::external_body]
pub(crate) fn value_array(items: Vec<serde_json::Value>) -> (r: serde_json::Value)
    ensures
        json_tree(r) == JsonTree::Array(Seq::new(items@.len(), |i: int| json_tree(items@[i]))),
{
    serde_json::Value::Array(items)
}

/// The members that distinct pairs give to a new object.
pub open spec fn pairs_tree(pairs: Seq<(String, serde_json::Value)>) -> Map<Seq<char>, JsonTree>
    decreases pairs.len(),
{
    if pairs.len() == 0 {
        Map::empty()
    } else {
        pairs_tree(pairs.drop_last()).insert(pairs.last().0@, json_tree(pairs.last().1))
    }
}

/// `serde_json::Map::from_iter`, made a `serde_json::Value::Object`: holds the pairs, where no
/// two are under one key.
#[verifier::external_body]
pub(crate) fn value_object(pairs: Vec<(String, serde_json::Value)>) -> (r: serde_json::Value)
    requires
        forall|i: int, j: int|
            0 <= i < j < pairs@.len() ==> (#[trigger] pairs@[i]).0@ != (#[trigger] pairs@[j]).0@,
    ensures
        json_tree(r) == JsonTree::Object(pairs_tree(pairs@)),
{
    serde_json::Value::Object(serde_json::Map::from_iter(pairs))
}

/// `serde_json::to_vec` on a `Value`: writing a value to memory does not fail, and what is
/// written follows from what the value holds.
#[verifier::external_body]
pub(crate) fn value_to_vec(value: &serde_json::Value) -> (r: Result<Vec<u8>, String>)
    ensures
        r is Ok,
        r->Ok_0@ == json_bytes(json_tree(*value)),
{
    serde_json::to_vec(value).map_err(|error| error.to_string())
}

/// One level of a `serde_json::Value`.
pub enum ValueParts<'a> {
    /// `null`.
    Null,
    /// A boolean.
    Bool(bool),
    /// A number.
    Number(&'a serde_json::Number),
    /// A string.
    Text(&'a str),
    /// The items of an array.
    Array(Vec<&'a serde_json::Value>),
    /// The members of an object.
    Object(Vec<(&'a str, &'a serde_json::Value)>),
}

/// The members that distinct pairs of an object show.
pub open spec fn members_tree(pairs: Seq<(&str, &serde_json::Value)>) -> Map<Seq<char>, JsonTree>
    decreases pairs.len(),
{
    if pairs.len() == 0 {
        Map::empty()
    } else {
        members_tree(pairs.drop_last()).insert(pairs.last().0@, json_tree(*pairs.last().1))
    }
}

/// What one level of a value shows of the whole.
pub open spec fn parts_tree(parts: ValueParts<'_>) -> JsonTree {
    match parts {
        ValueParts::Null => JsonTree::Null,
        ValueParts::Bool(flag) => JsonTree::Bool(flag),
        ValueParts::Number(number) => JsonTree::Number(*number),
        ValueParts::Text(text) => JsonTree::Text(text@),
        ValueParts::Array(items) => JsonTree::Array(
            Seq::new(items@.len(), |i: int| json_tree(*items@[i])),
        ),
        ValueParts::Object(pairs) => JsonTree::Object(members_tree(pairs@)),
    }
}

/// Whether no two members of an object have one key.
pub open spec fn distinct_keys(parts: ValueParts<'_>) -> bool {
    match parts {
        ValueParts::Object(pairs) => forall|i: int, j: int|
            0 <= i < j < pairs@.len() ==> (#[trigger] pairs@[i]).0@ != (#[trigger] pairs@[j]).0@,
        _ => true,
    }
}

/// The variants of `serde_json::Value`, with `serde_json::Map::iter` on the members of an
/// object: each key comes once, with its value.
#[verifier::external_body]
pub(crate) fn value_parts(value: &serde_json::Value) -> (r: ValueParts<'_>)
    ensures
        parts_tree(r) == json_tree(*value),
        distinct_keys(r),
{
    match value {
        serde_json::Value::Null => ValueParts::Null,
        serde_json::Value::Bool(flag) => ValueParts::Bool(*flag),
        serde_json::Value::Number(number) => ValueParts::Number(number),
        serde_json::Value::String(text) => ValueParts::Text(text),
        serde_json::Value::Array(items) => ValueParts::Array(items.iter().collect()),
        serde_json::Value::Object(map) => ValueParts::Object(
            map.iter().map(|(key, value)| (key.as_str(), value)).collect(),
        ),
    }
}

/// What `serde_json::from_str` reads a text as: a value, or why it is none.
pub uninterp spec fn json_text(text: Seq<char>) -> Result<JsonTree, Seq<char>>;

/// A parse outcome, seen through what it holds.
pub open spec fn parse_outcome(r: Result<serde_json::Value, String>) -> Result<
    JsonTree,
    Seq<char>,
> {
    match r {
        Ok(value) => Ok(json_tree(value)),
        Err(reason) => Err(reason@),
    }
}

/// `serde_json::from_str` into a `Value`: the value, or the reason, follows from the text.
#[verifier::external_body]
pub(crate) fn value_from_str(text: &str) -> (r: Result<serde_json::Value, String>)
    ensures
        parse_outcome(r) == json_text(text@),
{
    serde_json::from_str(text).map_err(|error| error.to_string())
}

/// What `toml::from_str` reads a document as: a value, or what went wrong.
pub uninterp spec fn toml_document(text: Seq<char>) -> Result<JsonTree, Seq<char>>;

/// `toml::from_str` into a `serde_json::Value`, with `toml::de::Error::message` of a failure:
/// the value, or what went wrong, follows from the text.
#[verifier::external_body]
pub(crate) fn value_from_toml(text: &str) -> (r: Result<serde_json::Value, String>)
    ensures
        parse_outcome(r) == toml_document(text@),
{
    toml::from_str(text).map_err(|error: toml::de::Error| error.message().to_owned())
}

/// The indented text that `serde_json::to_string_pretty` gives of what a value holds.
pub uninterp spec fn json_pretty(tree: JsonTree) -> Seq<char>;

/// `serde_json::to_string_pretty` on a `Value`: writing a value to memory does not fail, and
/// what is written follows from what the value holds.
#[verifier::external_body]
pub(crate) fn value_to_pretty(value: &serde_json::Value) -> (r: Result<String, String>)
    ensures
        r is Ok,
        r->Ok_0@ == json_pretty(json_tree(*value)),
{
    serde_json::to_string_pretty(value).map_err(|error| error.to_string())
}

/// What `serde_json::from_slice` reads bytes as, where they are one JSON document.
pub uninterp spec fn json_document(bytes: Seq<u8>) -> Option<JsonTree>;

/// `serde_json::from_slice` into a `Value`: whether the bytes are a document, and what it
/// holds, follow from the bytes.
#[verifier::external_body]
pub(crate) fn value_from_slice(bytes: &[u8]) -> (r: Option<serde_json::Value>)
    ensures
        r is Some <==> json_document(bytes@) is Some,
        r is Some ==> json_tree(r->0) == json_document(bytes@)->0,
{
    serde_json::from_slice(bytes).ok()
}

/// What `serde_json::Value::pointer` selects in a value.
pub uninterp spec fn json_at(tree: JsonTree, pointer: Seq<char>) -> Option<JsonTree>;

/// `serde_json::Value::pointer`: what is selected follows from what the value holds and the
/// pointer. An empty pointer selects the whole; one that does not start with `/` selects
/// nothing.
pub assume_specification<'a, 'b>[ serde_json::Value::pointer ](
    value: &'a serde_json::Value,
    pointer: &'b str,
) -> (r: Option<&'a serde_json::Value>)
    ensures
        r is Some <==> json_at(json_tree(*value), pointer@) is Some,
        r is Some ==> json_tree(*r->0) == json_at(json_tree(*value), pointer@)->0,
        pointer@.len() == 0 ==> r == Some(value),
        pointer@.len() > 0 && pointer@[0] != '/' ==> r is None,
;

/// `serde_json::Value::as_str`: the characters of a string, and nothing of another value.
pub assume_specification[ serde_json::Value::as_str ](value: &serde_json::Value) -> (r: Option<
    &str,
>)
    ensures
        r is Some <==> json_tree(*value).text() is Some,
        r is Some ==> json_tree(*value).text() == Some(r->0@),
;

/// What `url::Url::parse` reads a text as: the parts of a URL, or why it is none.
pub uninterp spec fn parsed_url(text: Seq<char>) -> Result<UrlView, Seq<char>>;

/// `url::Url::parse`, with the parts that its accessors give: the parts follow from the
/// text alone.
#[verifier::external_body]
pub(crate) fn parse_url(text: &str) -> (r: Result<UrlParts, String>)
    ensures
        endpoint::url_outcome(r) == parsed_url(text@),
{
    let url = url::Url::parse(text).map_err(|error| error.to_string())?;
    Ok(UrlParts {
        scheme: url.scheme().to_owned(),
        host: url.host_str().map(str::to_owned),
        address: match url.host() {
            Some(url::Host::Ipv4(address)) => Some(HostAddress::V4(address.to_bits())),
            Some(url::Host::Ipv6(address)) => Some(HostAddress::V6(address.to_bits())),
            _ => None,
        },
        port: url.port(),
        username: url.username().to_owned(),
        password: url.password().map(str::to_owned),
        fragment: url.fragment().map(str::to_owned),
    })
}

/// `http::HeaderName::try_from` on text: a name is one to 65535 token characters, and is
/// kept in lower case.
#[verifier::external_body]
pub(crate) fn header_name(value: &str) -> (r: Option<String>)
    ensures
        r is Some <==> headers::valid_name(value@),
        r is Some ==> r->0@ == text::lowered(value@),
{
    http::HeaderName::try_from(value).ok().map(|name| name.as_str().to_owned())
}

/// `http::HeaderValue::try_from` on text: whether the value holds no control character but
/// the tab.
#[verifier::external_body]
pub(crate) fn header_value_is_valid(value: &str) -> (r: bool)
    ensures
        r == headers::valid_value(value@),
{
    http::HeaderValue::try_from(value).is_ok()
}

/// `http::HeaderValue::from_bytes` and `http::HeaderValue::to_str` on a header value: its
/// characters, where every byte of it is a visible ASCII character, a space or a tab.
#[verifier::external_body]
pub(crate) fn header_text(value: &[u8]) -> (r: Option<String>)
    ensures
        r is Some <==> exchange::visible(value@),
        r is Some ==> r->0@ == exchange::ascii_text(value@),
{
    http::HeaderValue::from_bytes(value).ok()?.to_str().ok().map(str::to_owned)
}

/// `http::Method::from_bytes` on text: whether the method is one or more token characters.
#[verifier::external_body]
pub(crate) fn method_is_valid(value: &str) -> (r: bool)
    ensures
        r == headers::valid_method(value@),
{
    http::Method::from_bytes(value.as_bytes()).is_ok()
}

/// `http::StatusCode::from_u16`: whether the code has three digits.
#[verifier::external_body]
pub(crate) fn status_is_valid(code: u16) -> (r: bool)
    ensures
        r == (100 <= code <= 999),
{
    http::StatusCode::from_u16(code).is_ok()
}

/// `core::str::from_utf8`: the characters that bytes encode, where they are UTF-8.
#[verifier::external_body]
pub(crate) fn utf8_text(bytes: &[u8]) -> (r: Option<String>)
    ensures
        r is Some <==> valid_utf8(bytes@),
        r is Some ==> r->0@ == decode_utf8(bytes@),
{
    core::str::from_utf8(bytes).ok().map(str::to_owned)
}

/// The SHA-256 digest of a message.
pub uninterp spec fn sha256_digest(message: Seq<u8>) -> Seq<u8>;

/// `sha2::Sha256::digest`: the digest of the message, thirty-two bytes.
#[verifier::external_body]
pub(crate) fn sha256(message: &[u8]) -> (r: Vec<u8>)
    ensures
        r@ == sha256_digest(message@),
        r@.len() == 32,
{
    <sha2::Sha256 as sha2::Digest>::digest(message).to_vec()
}

/// `zeroize::Zeroize::zeroize` on a `String`: overwrites its bytes and leaves it empty.
#[verifier::external_body]
pub(crate) fn wipe(text: &mut String)
    ensures
        final(text)@ == Seq::<char>::empty(),
    opens_invariants none
    no_unwind
{
    zeroize::Zeroize::zeroize(text)
}

} // verus!
