//! User identifiers. A record's identifier is held as its 128-bit value;
//! reading one from text and rendering one as text go through the `uuid`
//! crate.

use vstd::prelude::*;

verus! {

/// The 128-bit value that parsing an identifier string yields, if the
/// string is well formed; what `uuid::Uuid::parse_str` accepts and returns
/// depends on the characters alone.
pub uninterp spec fn user_id_of(s: Seq<char>) -> Option<u128>;

/// The canonical hyphenated text of a 128-bit identifier; what the `uuid`
/// crate's hyphenated formatter writes depends on the value alone.
pub uninterp spec fn user_id_text(id: u128) -> Seq<char>;

/// Relies on `uuid::Uuid::parse_str` (and `as_u128`, which reads the bytes
/// back as one big-endian value): whether the text parses, and to which
/// value, is a function of the text.
#[verifier::external_body]
pub(crate) fn parse_user_id(s: &str) -> (r: Option<u128>)
    ensures
        r == user_id_of(s@),
{
    match uuid::Uuid::parse_str(s) {
        Ok(u) => Some(u.as_u128()),
        Err(_) => None,
    }
}

/// Relies on `uuid::Uuid::from_u128` (big-endian bytes of the value) and the
/// hyphenated `Display` form, which is always 36 characters.
#[verifier::external_body]
pub(crate) fn format_user_id(id: u128) -> (r: String)
    ensures
        r@ == user_id_text(id),
        r@.len() == 36,
{
    uuid::Uuid::from_u128(id).hyphenated().to_string()
}

/// A lowercase hexadecimal digit.
pub open spec fn is_hex_lower(c: char) -> bool {
    (48 <= c as u32 && c as u32 <= 57) || (97 <= c as u32 && c as u32 <= 102)
}

/// The 36-character hyphenated identifier shape: hyphens at positions 8,
/// 13, 18 and 23, lowercase hexadecimal digits everywhere else.
pub open spec fn is_hyphenated_text(s: Seq<char>) -> bool {
    &&& s.len() == 36
    &&& forall|i: int| 0 <= i < 36 && (i == 8 || i == 13 || i == 18 || i == 23) ==> s[i] == '-'
    &&& forall|i: int|
        0 <= i < 36 && i != 8 && i != 13 && i != 18 && i != 23 ==> is_hex_lower(s[i])
}

/// The text of a freshly drawn version-4 identifier: hyphenated, with the
/// version nibble reading 4.
pub open spec fn is_version4_text(s: Seq<char>) -> bool {
    is_hyphenated_text(s) && s[14] == '4'
}

/// Relies on `uuid::Uuid::new_v4`, which masks the version and variant bits
/// onto freshly drawn random bytes, and on the hyphenated formatter, which
/// always writes 36 lowercase characters with hyphens at the fixed
/// positions. Which value comes back is random; only the shape that holds
/// of every outcome is promised.
#[verifier::external_body]
pub(crate) fn fresh_trace_id() -> (r: String)
    ensures
        is_version4_text(r@),
{
    uuid::Uuid::new_v4().hyphenated().to_string()
}

} // verus!
