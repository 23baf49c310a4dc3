use vstd::prelude::*;

verus! {

/// A lower-case hexadecimal digit.
pub open spec fn is_lower_hex_digit(c: char) -> bool {
    ('0' <= c && c <= '9') || ('a' <= c && c <= 'f')
}

/// The hyphenated form of a UUID: 36 characters, hyphens at positions 8,
/// 13, 18 and 23, lower-case hexadecimal digits elsewhere.
pub open spec fn is_hyphenated_uuid(s: Seq<char>) -> bool {
    &&& s.len() == 36
    &&& forall|i: int|
        0 <= i < 36 ==> if i == 8 || i == 13 || i == 18 || i == 23 {
            #[trigger] s[i] == '-'
        } else {
            is_lower_hex_digit(s[i])
        }
}

/// `Uuid::new_v4().simple()` of the `uuid` crate, written out: a random
/// version-4 UUID as 32 lower-case hexadecimal digits. Which digits come is
/// chance, so only their form is stated.
#[verifier::external_body]
pub(crate) fn new_simple_uuid() -> (s: String)
    ensures
        s@.len() == 32,
        forall|i: int| 0 <= i < 32 ==> is_lower_hex_digit(#[trigger] s@[i]),
{
    uuid::Uuid::new_v4().simple().to_string()
}

/// `Uuid::new_v4().to_string()` of the `uuid` crate: a random version-4 UUID
/// in its hyphenated lower-case form. Only the form is stated.
#[verifier::external_body]
pub(crate) fn new_uuid_text() -> (s: String)
    ensures
        is_hyphenated_uuid(s@),
{
    uuid::Uuid::new_v4().to_string()
}

} // verus!
