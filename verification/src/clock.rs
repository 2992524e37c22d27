//! The calls this library makes into `time` for the current instant.
//!
//! The instant depends on when the call runs, so no contract here states what
//! comes back.

use vstd::prelude::*;

verus! {

/// `OffsetDateTime::now_utc().unix_timestamp()`. Nothing is stated: it is the
/// time of the call.
#[verifier::external_body]
pub(crate) fn unix_timestamp_now() -> (seconds: i64) {
    time::OffsetDateTime::now_utc().unix_timestamp()
}

/// `OffsetDateTime::now_utc()` formatted as RFC 3339; on failure, the text of
/// the `time::error::Format`. Nothing is stated: it is the time of the call.
#[verifier::external_body]
pub(crate) fn now_rfc3339() -> (r: Result<String, String>) {
    time::OffsetDateTime::now_utc()
        .format(&time::format_description::well_known::Rfc3339)
        .map_err(|error| error.to_string())
}

} // verus!
