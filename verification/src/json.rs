//! JSON text for the bodies this crate sends, produced by `serde_json`.

use vstd::prelude::*;

verus! {

/// Holds when no character of `text` is rewritten inside a JSON string:
/// none is a quotation mark, a backslash or a control character below U+0020.
pub open spec fn needs_no_escape(text: Seq<char>) -> bool {
    forall|i: int|
        0 <= i < text.len() ==> {
            let c = #[trigger] text[i];
            c != '"' && c != '\\' && c as u32 >= 0x20
        }
}

/// The compact JSON text of an object with the single member `key`, whose
/// value is the string `value`, when neither needs escaping.
pub open spec fn object_text(key: Seq<char>, value: Seq<char>) -> Seq<char> {
    seq!['{', '"'] + key + seq!['"', ':', '"'] + value + seq!['"', '}']
}

/// Enters `key` with the string `value` into an empty `serde_json::Map` by
/// `serde_json::Map::insert`, and renders the `serde_json::Value::Object` of
/// that map by `to_string`, that is by the `Display` impl of
/// `serde_json::Value`.
///
/// Trusted, not proved: that `Display` writes the compact form, that is an
/// opening brace, the key and the value each between quotation marks with a
/// colon between them, and a closing brace, with no white space; and that
/// `serde_json` copies unchanged every character other than `"`, `\` and the
/// control characters below U+0020, which `requires` keeps out.
#[verifier::external_body]
pub(crate) fn encode_member(key: &str, value: &str) -> (text: String)
    requires
        needs_no_escape(key@),
        needs_no_escape(value@),
    ensures
        text@ == object_text(key@, value@),
{
    let mut members = serde_json::Map::new();
    members.insert(key.to_owned(), serde_json::Value::String(value.to_owned()));
    serde_json::Value::Object(members).to_string()
}

} // verus!
