use vstd::prelude::*;

use crate::error::{is_bad_request, ApiError, ApiResult};
use crate::text::{is_blank, is_blank_seq};
use crate::numbers::int_text;

verus! {

/// What a text is as JSON: not JSON at all, a JSON object, or another JSON
/// value (array, string, number, boolean or null).
#[derive(Clone, Copy, Debug, PartialEq, Eq, Structural)]
pub enum JsonShape {
    Invalid,
    Object,
    Other,
}

/// A JSON document as `serde_json` holds it, carried through unread.
#[verifier::external_type_specification]
#[verifier::external_body]
pub struct ExJsonValue(serde_json::Value);

/// The shape that `serde_json::from_str::<serde_json::Value>` finds in `text`.
pub uninterp spec fn json_shape(text: Seq<char>) -> JsonShape;

/// Calls `serde_json::from_str::<serde_json::Value>` and reports the shape
/// of what it parsed. Trusted: the shape is `json_shape` of the text; what
/// serde_json accepts as JSON is not restated here.
#[verifier::external_body]
pub(crate) fn parse_json_shape(text: &str) -> (r: JsonShape)
    ensures
        r == json_shape(text@),
{
    match serde_json::from_str::<serde_json::Value>(text) {
        Ok(serde_json::Value::Object(_)) => JsonShape::Object,
        Ok(_) => JsonShape::Other,
        Err(_) => JsonShape::Invalid,
    }
}

/// Fails with `"<field> must be valid json"` when `value` is not JSON.
pub fn validate_json(field: &str, value: &str) -> (r: ApiResult<()>)
    ensures
        r is Ok <==> json_shape(value@) != JsonShape::Invalid,
        r matches Err(e) ==> is_bad_request(e, field@ + " must be valid json"@),
{
    match parse_json_shape(value) {
        JsonShape::Invalid => Err(ApiError::bad_request_field(field, " must be valid json")),
        _ => Ok(()),
    }
}

/// Checks an optional JSON-object text: absent or blank is fine; otherwise it
/// must be JSON (`"<field> must be JSON"`) and an object
/// (`"<field> must be a JSON object"`).
pub fn validate_json_object(value: Option<&str>, field: &str) -> (r: ApiResult<()>)
    ensures
        match value {
            None => r is Ok,
            Some(raw) => if is_blank_seq(raw@) {
                r is Ok
            } else {
                match json_shape(raw@) {
                    JsonShape::Object => r is Ok,
                    JsonShape::Invalid => r matches Err(e) && is_bad_request(
                        e,
                        field@ + " must be JSON"@,
                    ),
                    JsonShape::Other => r matches Err(e) && is_bad_request(
                        e,
                        field@ + " must be a JSON object"@,
                    ),
                }
            },
        },
{
    match value {
        None => Ok(()),
        Some(raw) => {
            if is_blank(raw) {
                return Ok(());
            }
            match parse_json_shape(raw) {
                JsonShape::Object => Ok(()),
                JsonShape::Invalid => Err(ApiError::bad_request_field(field, " must be JSON")),
                JsonShape::Other => Err(ApiError::bad_request_field(field, " must be a JSON object")),
            }
        },
    }
}

/// The list of integers that `serde_json::from_str::<Vec<i32>>` reads from
/// `text`, or `None` when it refuses the text.
pub uninterp spec fn json_i32_list(text: Seq<char>) -> Option<Seq<i32>>;

/// Calls `serde_json::from_str::<Vec<i32>>`. Trusted: the result is
/// `json_i32_list` of the text.
#[verifier::external_body]
pub(crate) fn parse_json_i32_list(text: &str) -> (r: Option<Vec<i32>>)
    ensures
        match r {
            Some(v) => json_i32_list(text@) == Some(v@),
            None => json_i32_list(text@) is None,
        },
{
    serde_json::from_str::<Vec<i32>>(text).ok()
}

/// The decimal texts of `list`, joined by `,`.
pub open spec fn joined_ints(list: Seq<i32>) -> Seq<char>
    decreases list.len(),
{
    if list.len() == 0 {
        Seq::empty()
    } else if list.len() == 1 {
        int_text(list[0] as int)
    } else {
        joined_ints(list.drop_last()) + ","@ + int_text(list.last() as int)
    }
}

/// The text that `serde_json::to_string` writes for a list of integers:
/// `[`, the decimal integers joined by `,`, then `]`.
pub open spec fn json_i32_list_text(list: Seq<i32>) -> Seq<char> {
    "["@ + joined_ints(list) + "]"@
}

/// Calls `serde_json::to_string` on a slice of `i32`. Trusted: the text is
/// `json_i32_list_text` of the list (the compact formatter writes `[`, the
/// elements with `,` between them, and `]`, and each `i32` as `itoa` writes
/// it), and it is always given, since serde_json fails only for types whose
/// serialisation fails or maps with non-string keys, which a list of
/// integers is not.
#[verifier::external_body]
fn json_i32_list_to_string(list: &[i32]) -> (r: Option<String>)
    ensures
        r is Some,
        r matches Some(s) ==> s@ == json_i32_list_text(list@),
{
    serde_json::to_string(list).ok()
}

/// The JSON text of a list of integers (see `json_i32_list_text`).
pub fn write_json_i32_list(list: &[i32]) -> (r: String)
    ensures
        r@ == json_i32_list_text(list@),
{
    json_i32_list_to_string(list).unwrap()
}

} // verus!
