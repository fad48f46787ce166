//! Wall-clock time as plain millisecond timestamps, plus the recency window
//! and uptime formatting used by the status views.

use vstd::prelude::*;
use vstd::string::*;
use crate::text::{spec_dec_string, spec_join, u64_string, views, join_strings};

verus! {

/// The largest timestamp the library works with: the last millisecond of
/// year 9999. Every timestamp handed to [`timestamp_compact`] is first
/// clamped into `0 ..= MAX_TIMESTAMP_MS`.
pub const MAX_TIMESTAMP_MS: i64 = 253402300799999;

/// The current wall-clock time in milliseconds since the Unix epoch.
/// Relies on `chrono::Utc::now`; nothing can be promised of a clock
/// reading, so callers treat the result as arbitrary.
#[verifier::external_body]
pub fn now_millis() -> i64 {
    chrono::Utc::now().timestamp_millis()
}

/// `t` forced into the range the library's timestamps live in.
pub fn clamp_timestamp(t: i64) -> (r: i64)
    ensures
        r == if t < 0 {
            0
        } else if t > MAX_TIMESTAMP_MS {
            MAX_TIMESTAMP_MS as int
        } else {
            t as int
        },
        0 <= r <= MAX_TIMESTAMP_MS,
{
    if t < 0 {
        0
    } else if t > MAX_TIMESTAMP_MS {
        MAX_TIMESTAMP_MS
    } else {
        t
    }
}

/// The current time, clamped into the library's timestamp range.
pub fn now_clamped() -> (r: i64)
    ensures
        0 <= r <= MAX_TIMESTAMP_MS,
{
    clamp_timestamp(now_millis())
}

/// The `YYYYMMDD_HHMMSS` rendering of a millisecond timestamp, as the
/// calendar defines it.
pub uninterp spec fn compact_text(ts: i64) -> Seq<char>;

/// Render a timestamp as a compact `YYYYMMDD_HHMMSS` stamp for generated
/// file names. Relies on `chrono::DateTime::from_timestamp_millis`, which
/// returns a value for every timestamp in range, and on `chrono`'s
/// formatting, which depends on the timestamp alone.
#[verifier::external_body]
pub fn timestamp_compact(ts: i64) -> (r: String)
    requires
        0 <= ts <= MAX_TIMESTAMP_MS,
    ensures
        r@ == compact_text(ts),
{
    let dt = chrono::DateTime::<chrono::Utc>::from_timestamp_millis(ts).unwrap();
    dt.format("%Y%m%d_%H%M%S").to_string()
}

/// One hour, in milliseconds.
pub const HOUR_MS: i64 = 3600000;

/// Whether a completion timestamp falls within the trailing hour before
/// `now`. Jobs without a completion timestamp are never recent.
pub open spec fn spec_within_last_hour(completed_at: Option<i64>, now: i64) -> bool {
    match completed_at {
        Some(c) => now - HOUR_MS <= c <= now,
        None => false,
    }
}

/// Executable test for [`spec_within_last_hour`].
pub fn was_within_last_hour(completed_at: Option<i64>, now: i64) -> (r: bool)
    requires
        now >= i64::MIN + HOUR_MS,
    ensures
        r == spec_within_last_hour(completed_at, now),
{
    match completed_at {
        Some(c) => now - HOUR_MS <= c && c <= now,
        None => false,
    }
}

/// The pieces of an uptime rendering: days, hours, minutes and seconds,
/// each included only when non-zero, with the seconds kept when everything
/// else is zero.
pub open spec fn duration_parts(total: nat) -> Seq<Seq<char>> {
    let days = total / 86400;
    let hours = (total % 86400) / 3600;
    let minutes = (total % 3600) / 60;
    let seconds = total % 60;
    (if days > 0 {
        seq![spec_dec_string(days).push('d')]
    } else {
        Seq::<Seq<char>>::empty()
    }) + (if hours > 0 {
        seq![spec_dec_string(hours).push('h')]
    } else {
        Seq::<Seq<char>>::empty()
    }) + (if minutes > 0 {
        seq![spec_dec_string(minutes).push('m')]
    } else {
        Seq::<Seq<char>>::empty()
    }) + (if seconds > 0 || (days == 0 && hours == 0 && minutes == 0) {
        seq![spec_dec_string(seconds).push('s')]
    } else {
        Seq::<Seq<char>>::empty()
    })
}

/// The uptime rendering of a duration in seconds.
pub open spec fn spec_format_duration(total: nat) -> Seq<char> {
    spec_join(duration_parts(total), seq![' '])
}

/// Render a duration in seconds as `"1d 2h 3m 4s"`, omitting zero parts
/// but always keeping at least the seconds.
pub fn format_duration(total_seconds: u64) -> (r: String)
    ensures
        r@ == spec_format_duration(total_seconds as nat),
{
    let days = total_seconds / 86400;
    let hours = (total_seconds % 86400) / 3600;
    let minutes = (total_seconds % 3600) / 60;
    let seconds = total_seconds % 60;

    let mut parts: Vec<String> = Vec::new();
    if days > 0 {
        let mut p = u64_string(days);
        p.append("d");
        proof {
            reveal_strlit("d");
            assert(p@ =~= spec_dec_string(days as nat).push('d'));
        }
        parts.push(p);
    }
    if hours > 0 {
        let mut p = u64_string(hours);
        p.append("h");
        proof {
            reveal_strlit("h");
            assert(p@ =~= spec_dec_string(hours as nat).push('h'));
        }
        parts.push(p);
    }
    if minutes > 0 {
        let mut p = u64_string(minutes);
        p.append("m");
        proof {
            reveal_strlit("m");
            assert(p@ =~= spec_dec_string(minutes as nat).push('m'));
        }
        parts.push(p);
    }
    if seconds > 0 || parts.len() == 0 {
        let mut p = u64_string(seconds);
        p.append("s");
        proof {
            reveal_strlit("s");
            assert(p@ =~= spec_dec_string(seconds as nat).push('s'));
        }
        parts.push(p);
    }
    let r = join_strings(&parts, " ");
    proof {
        reveal_strlit(" ");
        assert(" "@ =~= seq![' ']);
        assert(views(parts@) =~= duration_parts(total_seconds as nat));
    }
    r
}

} // verus!
