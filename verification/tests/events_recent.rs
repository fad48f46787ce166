//! Change-notification counters, the polling cursor, the recency window
//! and the uptime rendering.

use print_scan_manager::clock::{format_duration, was_within_last_hour, HOUR_MS};
use print_scan_manager::events::{bump_version, EventCursor, EventState};
use print_scan_manager::recent::{recent_activity, RECENT_LIMIT};
use print_scan_manager::scan_job::{ScanJob, ScanRequest};
use print_scan_manager::print_job::PrintJob;
use print_scan_manager::status::ScanJobStatus;

fn scan_with_completion(name: &str, completed_at: Option<i64>) -> ScanJob {
    let mut job = ScanJob::new(
        "dev".to_string(),
        "V".to_string(),
        "M".to_string(),
        ScanRequest {
            scanner: None,
            resolution: None,
            format: None,
            color_mode: None,
            page_size: None,
            brightness: None,
            contrast: None,
            filename: Some(name.to_string()),
        },
    );
    // Timestamps are clamped below by the creation time, so pin the
    // creation to the epoch before stamping a chosen completion time.
    job.created_at = 0;
    if let Some(t) = completed_at {
        job.set_status_at(ScanJobStatus::Completed, t);
    }
    job
}

#[test]
fn version_counter_wraps_to_zero() {
    assert_eq!(bump_version(u64::MAX), 0);
    assert_eq!(bump_version(u64::MAX - 1), 0);
    assert_eq!(bump_version(0), 1);
    assert_eq!(bump_version(41), 42);
}

#[test]
fn event_state_counters_are_independent() {
    let mut ev = EventState::new();
    ev.increment_queue_version();
    ev.increment_queue_version();
    ev.increment_status_version();
    assert_eq!(ev.queue_version, 2);
    assert_eq!(ev.status_version, 1);
    assert_eq!(ev.recent_activity_version, 0);
    ev.increment_recent_activity_version();
    assert_eq!(ev.recent_activity_version, 1);
}

#[test]
fn cursor_emits_only_on_change() {
    let mut ev = EventState::new();
    let mut cur = EventCursor::new();
    // Nothing changed: no snapshot goes out this tick.
    assert_eq!(cur.tick(&ev), (false, false, false));
    ev.increment_queue_version();
    assert_eq!(cur.tick(&ev), (true, false, false));
    // The cursor caught up: silence again.
    assert_eq!(cur.tick(&ev), (false, false, false));
    ev.increment_status_version();
    ev.increment_recent_activity_version();
    assert_eq!(cur.tick(&ev), (false, true, true));
}

#[test]
fn within_last_hour_window() {
    let now: i64 = 10 * HOUR_MS;
    assert!(was_within_last_hour(Some(now - 10 * 60 * 1000), now));
    assert!(!was_within_last_hour(Some(now - 90 * 60 * 1000), now));
    assert!(was_within_last_hour(Some(now), now));
    assert!(was_within_last_hour(Some(now - HOUR_MS), now));
    assert!(!was_within_last_hour(Some(now - HOUR_MS - 1), now));
    // Completions in the future do not count as recent.
    assert!(!was_within_last_hour(Some(now + 1), now));
    assert!(!was_within_last_hour(None, now));
}

#[test]
fn recent_activity_keeps_only_the_last_hour() {
    // Scenario D: of two completions, 90 and 10 minutes old, only the
    // 10-minute-old job is recent.
    let now: i64 = 100 * HOUR_MS;
    let old = scan_with_completion("old.png", Some(now - 90 * 60 * 1000));
    let fresh = scan_with_completion("fresh.png", Some(now - 10 * 60 * 1000));
    let fresh_id = fresh.id;
    let scans = vec![old, fresh];
    let prints: Vec<PrintJob> = Vec::new();
    let recent = recent_activity(&scans, &prints, now);
    assert_eq!(recent.len(), 1);
    assert_eq!(recent[0].id(), fresh_id);
}

#[test]
fn recent_activity_sorts_descending_and_truncates() {
    let now: i64 = 100 * HOUR_MS;
    let mut scans = Vec::new();
    let mut expected: Vec<i64> = Vec::new();
    for k in 0..6i64 {
        let t = now - (k + 1) * 60 * 1000;
        scans.push(scan_with_completion(&format!("s{}.png", k), Some(t)));
        expected.push(t);
    }
    let prints: Vec<PrintJob> = Vec::new();
    let recent = recent_activity(&scans, &prints, now);
    assert_eq!(recent.len(), RECENT_LIMIT);
    let got: Vec<i64> = recent.iter().map(|j| j.completed_at().unwrap()).collect();
    // Most recent first, truncated to the display count.
    assert_eq!(got, expected[..RECENT_LIMIT].to_vec());
}

#[test]
fn recent_activity_skips_uncompleted_jobs() {
    let now: i64 = 100 * HOUR_MS;
    let pending = scan_with_completion("pending.png", None);
    let scans = vec![pending];
    let prints: Vec<PrintJob> = Vec::new();
    let recent = recent_activity(&scans, &prints, now);
    assert!(recent.is_empty());
}

#[test]
fn format_duration_renderings() {
    assert_eq!(format_duration(0), "0s");
    assert_eq!(format_duration(4), "4s");
    assert_eq!(format_duration(60), "1m");
    assert_eq!(format_duration(3600), "1h");
    assert_eq!(format_duration(86400), "1d");
    assert_eq!(format_duration(93784), "1d 2h 3m 4s");
    assert_eq!(format_duration(3661), "1h 1m 1s");
}
