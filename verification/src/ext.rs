//! Trusted boundary to the outside crates the library leans on: chrono for
//! deciding whether a timestamp denotes a representable point in time, and
//! humanize-duration for rendering a duration as human-readable text.

use humanize_duration::prelude::DurationExt;
use humanize_duration::Truncate;
use vstd::prelude::*;

verus! {

/// The smallest UNIX timestamp, in whole seconds, that chrono can represent
/// as a `DateTime<Utc>` (the timestamp of `DateTime::<Utc>::MIN_UTC`).
pub const MIN_REPRESENTABLE_TS: i64 = -8334601228800;

/// The largest UNIX timestamp, in whole seconds, that chrono can represent
/// as a `DateTime<Utc>` (the timestamp of `DateTime::<Utc>::MAX_UTC`).
pub const MAX_REPRESENTABLE_TS: i64 = 8210266876799;

/// Whether `ts` denotes a representable point in time.
pub open spec fn timestamp_representable_spec(ts: int) -> bool {
    MIN_REPRESENTABLE_TS <= ts <= MAX_REPRESENTABLE_TS
}

/// Relies on chrono's `DateTime::from_timestamp`: with a zero nanosecond
/// part it returns `Some` exactly when the whole seconds lie between the
/// timestamps of `DateTime::<Utc>::MIN_UTC` and `DateTime::<Utc>::MAX_UTC`.
#[verifier::external_body]
pub fn timestamp_representable(ts: i64) -> (r: bool)
    ensures
        r == timestamp_representable_spec(ts as int),
{
    chrono::DateTime::from_timestamp(ts, 0).is_some()
}

/// The text humanize-duration renders, truncated to whole seconds, for a
/// duration of `secs` seconds.
pub uninterp spec fn human_duration_of(secs: int) -> Seq<char>;

/// Relies on humanize-duration's `DurationExt::human` with
/// `Truncate::Second`: the rendered text depends on the duration alone.
#[verifier::external_body]
pub fn humanize_seconds(secs: u64) -> (r: String)
    ensures
        r@ == human_duration_of(secs as int),
{
    let d = core::time::Duration::from_secs(secs);
    d.human(Truncate::Second).to_string()
}

} // verus!
