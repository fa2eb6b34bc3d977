use vstd::prelude::*;

verus! {

/// JSON text of a string value: quoted, with serde_json's escaping.
pub uninterp spec fn json_string_of(s: Seq<char>) -> Seq<char>;

/// Relies on serde_json::to_string: serialises a `str` as one JSON string
/// literal. Writing into a `Vec` cannot fail, so the error arm is not taken.
#[verifier::external_body]
pub fn json_quote(s: &str) -> (r: String)
    ensures
        r@ == json_string_of(s@),
{
    match serde_json::to_string(s) {
        Ok(text) => text,
        Err(_) => String::new(),
    }
}

/// Relies on chrono's `From<SystemTime> for DateTime<Utc>` and
/// `DateTime::timestamp`: the current time in whole seconds since the Unix epoch,
/// negative for a clock set before it (where `Utc::now` would panic). Nothing is
/// known of its value.
#[verifier::external_body]
pub fn unix_now() -> (r: i64) {
    chrono::DateTime::<chrono::Utc>::from(std::time::SystemTime::now()).timestamp()
}

} // verus!
