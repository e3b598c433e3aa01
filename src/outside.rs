//! The calls that the queue makes into outside crates.
use vstd::prelude::*;

verus! {

/// The standard, padded base64 text of a byte sequence.
pub uninterp spec fn base64_of(b: Seq<u8>) -> Seq<char>;

/// Relies on `base64::Engine::encode` with the `STANDARD` engine: the padded
/// base64 text of the bytes, four characters for each started group of three
/// bytes. It panics only where that length overflows `usize`.
#[verifier::external_body]
pub(crate) fn encode_payload(payload: &Vec<u8>) -> (r: String)
    requires
        payload@.len() <= usize::MAX / 2,
    ensures
        r@ == base64_of(payload@),
        r@.len() == 4 * ((payload@.len() + 2) / 3),
{
    base64::Engine::encode(&base64::engine::general_purpose::STANDARD, payload)
}

/// Relies on `uuid::Uuid::new_v4`, written out by its `Display` impl: a fresh
/// random identifier.
#[verifier::external_body]
pub(crate) fn fresh_task_id() -> (r: String) {
    uuid::Uuid::new_v4().to_string()
}

/// Relies on `chrono::Utc::now` and `DateTime::timestamp`: the current time in
/// whole seconds since the Unix epoch. `Utc::now` panics on a system clock
/// before the epoch or past chrono's last representable year (262142), so
/// what it returns lies between 0 and 2^43 seconds.
#[verifier::external_body]
pub(crate) fn unix_now() -> (r: i64)
    ensures
        0 <= r < 0x800_0000_0000,
{
    chrono::Utc::now().timestamp()
}

} // verus!
