//! The encodings that the ledger's interface uses, as the `base64` and
//! `serde_json` crates compute them. Nothing about them is proved here: each
//! result has a name, and the contracts of the crate speak of the names.

use vstd::prelude::*;
use vstd::string::*;

verus! {

/// The longest input, in bytes, that is handed to the base64 encoder. The
/// encoded text of such an input is below two gibibytes, so its length fits
/// on every machine.
pub const MAX_ENCODED_INPUT: usize = 0x4000_0000;

/// The standard base64 encoding of `bytes`, with padding.
pub uninterp spec fn base64_of(bytes: Seq<u8>) -> Seq<char>;

/// The compact JSON text of an object with the single member `key`, whose
/// value is the string `value`.
pub uninterp spec fn json_object_text(key: Seq<char>, value: Seq<char>) -> Seq<char>;

/// The string that `bytes` hold as a JSON document, if they hold one.
pub uninterp spec fn json_string_in(bytes: Seq<u8>) -> Option<Seq<char>>;

/// `base64::encode`: the standard base64 encoding of `input`, with padding.
/// The encoder computes the length of its output with checked arithmetic
/// and allocates that much; the bound on the input keeps both in range.
#[verifier::external_body]
pub(crate) fn base64_text(input: &[u8]) -> (r: String)
    requires
        input@.len() <= MAX_ENCODED_INPUT,
    ensures
        r@ == base64_of(input@),
{
    base64::encode(input)
}

/// The `Display` of `serde_json::Value`, on an object with one member: the
/// compact JSON text of `{key: value}`, both written as JSON strings.
#[verifier::external_body]
pub(crate) fn json_object(key: &str, value: &str) -> (r: String)
    ensures
        r@ == json_object_text(key@, value@),
{
    let mut members = serde_json::Map::new();
    members.insert(key.to_owned(), serde_json::Value::String(value.to_owned()));
    serde_json::Value::Object(members).to_string()
}

/// `serde_json::from_slice` at the type `String`: the string that `bytes`
/// hold as a JSON document, and nothing where they hold anything else.
#[verifier::external_body]
pub(crate) fn json_string(bytes: &[u8]) -> (r: Option<String>)
    ensures
        r is Some <==> json_string_in(bytes@) is Some,
        r matches Some(text) ==> json_string_in(bytes@) == Some(text@),
{
    serde_json::from_slice::<String>(bytes).ok()
}

} // verus!
