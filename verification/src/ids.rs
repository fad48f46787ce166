//! Job identifiers: 128-bit values carried as plain integers, rendered to
//! and parsed from their canonical hyphenated text form.

use vstd::prelude::*;

verus! {

/// The canonical hyphenated lower-case text of a 128-bit identifier.
pub uninterp spec fn uuid_text(id: u128) -> Seq<char>;

/// The identifier a piece of text denotes, if it is a well-formed
/// identifier rendering.
pub uninterp spec fn uuid_value(s: Seq<char>) -> Option<u128>;

/// A fresh random identifier. Relies on `uuid::Uuid::new_v4`; the result
/// is random, so nothing is promised of it.
#[verifier::external_body]
pub fn fresh_id() -> u128 {
    uuid::Uuid::new_v4().as_u128()
}

/// The canonical text of an identifier. Relies on the `Display` rendering
/// of `uuid::Uuid`, which is the 36-character hyphenated form, and on
/// `uuid::Uuid::parse_str` accepting that form back.
#[verifier::external_body]
pub fn id_string(id: u128) -> (r: String)
    ensures
        r@ == uuid_text(id),
        r@.len() == 36,
        uuid_value(r@) == Some(id),
{
    uuid::Uuid::from_u128(id).to_string()
}

/// Parse an identifier from text. Relies on `uuid::Uuid::parse_str`.
#[verifier::external_body]
pub fn parse_id(s: &str) -> (r: Option<u128>)
    ensures
        r == uuid_value(s@),
{
    match uuid::Uuid::parse_str(s) {
        Ok(u) => Some(u.as_u128()),
        Err(_) => None,
    }
}

} // verus!
