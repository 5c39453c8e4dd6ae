use vstd::prelude::*;

verus! {

/// A JSON value of `serde_json`, carried through as it is.
#[verifier::external_type_specification]
#[verifier::external_body]
pub struct ExJsonValue(serde_json::Value);

/// `<serde_json::Value as Clone>::clone`, which `serde_json` derives: the copy is
/// the same value.
pub assume_specification[ <serde_json::Value as Clone>::clone ](v: &serde_json::Value) -> (r:
    serde_json::Value)
    ensures
        r == *v,
;

/// Whether `text` is a JSON document (`serde_json::from_str::<Value>` accepts it).
pub uninterp spec fn json_document(text: Seq<char>) -> bool;

/// What the member `key` of the JSON document `text` is.
pub uninterp spec fn json_member_of(text: Seq<char>, key: Seq<char>) -> JsonMemberView;

/// The message of the error that `serde_json::from_str::<serde_json::Value>` gives
/// for `text`.
pub uninterp spec fn json_error_of(text: Seq<char>) -> Seq<char>;

/// Whether the JSON document `text` is an object.
pub uninterp spec fn json_is_object(text: Seq<char>) -> bool;

/// The value of the JSON document `text`.
pub uninterp spec fn json_value_of(text: Seq<char>) -> serde_json::Value;

/// A parsed JSON document, and whether it is an object.
pub struct ParsedJson {
    pub value: serde_json::Value,
    pub is_object: bool,
}

/// `serde_json::from_str::<serde_json::Value>(text)`, with `Value::is_object` on the
/// document and `to_string` on the error. It succeeds exactly when `text` is a JSON
/// document; the document's value, whether it is an object, and the error's message
/// are named as functions of `text` alone.
#[verifier::external_body]
pub(crate) fn json_parse(text: &str) -> (r: Result<ParsedJson, String>)
    ensures
        r is Ok <==> json_document(text@),
        r matches Ok(p) ==> p.value == json_value_of(text@),
        r matches Ok(p) ==> p.is_object == json_is_object(text@),
        r matches Err(e) ==> e@ == json_error_of(text@),
{
    match serde_json::from_str::<serde_json::Value>(text) {
        Ok(value) => {
            let is_object = value.is_object();
            Ok(ParsedJson { value, is_object })
        },
        Err(e) => Err(e.to_string()),
    }
}

/// What a member of a JSON document is.
#[derive(Debug)]
pub enum JsonMember {
    /// The text is no JSON document.
    NotJson,
    /// The document has no such member (it is no object, or lacks the key).
    Absent,
    /// The member holds a string.
    Text(String),
    /// The member holds an integer that fits an `i64`.
    Integer(i64),
    /// The member holds anything else.
    Other,
}

/// The abstract value of a `JsonMember`.
pub enum JsonMemberView {
    NotJson,
    Absent,
    Text(Seq<char>),
    Integer(i64),
    Other,
}

impl View for JsonMember {
    type V = JsonMemberView;

    open spec fn view(&self) -> JsonMemberView {
        match self {
            JsonMember::NotJson => JsonMemberView::NotJson,
            JsonMember::Absent => JsonMemberView::Absent,
            JsonMember::Text(s) => JsonMemberView::Text(s@),
            JsonMember::Integer(n) => JsonMemberView::Integer(*n),
            JsonMember::Other => JsonMemberView::Other,
        }
    }
}

/// `serde_json::from_str::<serde_json::Value>(text)`, then `Value::get(key)` and
/// `Value::as_str` or `Value::as_i64` on the member: what the member `key` of the
/// document is. The result is named, a function of `text` and `key` alone; the
/// clause stated is that it is `NotJson` exactly when `text` does not parse.
#[verifier::external_body]
pub(crate) fn json_member(text: &str, key: &str) -> (r: JsonMember)
    ensures
        r@ == json_member_of(text@, key@),
        (r@ is NotJson) == !json_document(text@),
{
    match serde_json::from_str::<serde_json::Value>(text) {
        Ok(v) => match v.get(key) {
            Some(m) => match m.as_str() {
                Some(s) => JsonMember::Text(s.to_string()),
                None => match m.as_i64() {
                    Some(n) => JsonMember::Integer(n),
                    None => JsonMember::Other,
                },
            },
            None => JsonMember::Absent,
        },
        Err(_) => JsonMember::NotJson,
    }
}

} // verus!
