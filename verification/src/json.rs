//! JSON string literals, produced by `serde_json`.
use vstd::prelude::*;

verus! {

/// No character of `s` is one that JSON requires to be escaped
/// (a quote, a backslash, or a control character below U+0020).
pub open spec fn needs_no_escape(s: Seq<char>) -> bool {
    forall|i: int|
        0 <= i < s.len() ==> s[i] != '\u{22}' && s[i] != '\u{5c}' && (s[i] as u32) >= 0x20
}

/// `s` between two double quotes.
pub open spec fn quoted(s: Seq<char>) -> Seq<char> {
    seq!['\u{22}'] + s + seq!['\u{22}']
}

/// What `serde_json::to_string` returns for a string slice with these characters
/// (`None` for an error).
pub uninterp spec fn json_string_literal(s: Seq<char>) -> Option<Seq<char>>;

/// Calls `serde_json::to_string` on a string slice: the JSON string literal for `s`.
/// The result is named by `json_string_literal`. Stated of it, from serde_json's
/// serializer: a string slice never fails to serialise (the only failures are the
/// writer's, and the writer is a `Vec`), and, by its escape table, a string with
/// nothing to escape is written between two quotes unchanged.
#[verifier::external_body]
pub(crate) fn to_json_string_literal(s: &str) -> (r: Option<String>)
    ensures
        r is Some,
        json_string_literal(s@) == Some(r.unwrap()@),
        needs_no_escape(s@) ==> r.unwrap()@ == quoted(s@),
{
    serde_json::to_string(s).ok()
}

/// The JSON object with the one key `error` and the value `text`, as serde_json
/// writes it.
pub open spec fn error_object_json(text: Seq<char>) -> Seq<char> {
    "{\"error\":"@ + json_string_literal(text)->Some_0 + "}"@
}

/// The JSON object `{"error": text}`.
pub fn error_object(text: &str) -> (r: String)
    ensures
        r@ == error_object_json(text@),
        needs_no_escape(text@) ==> r@ == "{\"error\":"@ + quoted(text@) + "}"@,
{
    let literal = to_json_string_literal(text).unwrap();
    let mut r = String::from_str("{\"error\":");
    r.append(literal.as_str());
    r.append("}");
    r
}

} // verus!
