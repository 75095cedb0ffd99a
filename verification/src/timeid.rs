//! Wall-clock time and identifier generation: the two places where the
//! engine meets the outside world's nondeterminism.

use vstd::prelude::*;

verus! {

/// Whether the text is a well-formed entry or group identifier in one of
/// the accepted UUID spellings.
pub uninterp spec fn uuid_valid(s: Seq<char>) -> bool;

/// Relies on uuid::Uuid::parse_str: accepts exactly the documented UUID
/// text forms (simple, hyphenated, urn, braced); whether a given text is
/// accepted depends on the text alone.
#[verifier::external_body]
pub fn uuid_is_valid(s: &str) -> (r: bool)
    ensures
        r == uuid_valid(s@),
{
    uuid::Uuid::parse_str(s).is_ok()
}

/// Relies on uuid::Uuid::new_v4 and its Display form: a freshly drawn
/// random identifier, printed in the hyphenated form of 36 characters.
/// Nothing else can be promised of a random value.
#[verifier::external_body]
pub fn new_uuid() -> (r: String)
    ensures
        r@.len() == 36,
{
    uuid::Uuid::new_v4().to_string()
}

/// Relies on std::time::SystemTime: the wall clock read as milliseconds
/// since the Unix epoch, which is never before the epoch on a sane clock.
#[verifier::external_body]
pub fn current_timestamp() -> (r: i64)
    ensures
        0 <= r,
{
    match std::time::SystemTime::now().duration_since(std::time::UNIX_EPOCH) {
        Ok(d) => d.as_millis() as i64,
        Err(_) => 0,
    }
}

} // verus!
