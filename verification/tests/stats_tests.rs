use heartbeats::stats::{Device, Stats};

fn fresh_with_device(id: u64) -> Stats {
    let mut s = Stats::new(0);
    assert!(s.register_device(id, Some("watch".to_string())));
    s
}

#[test]
fn fresh_aggregate_is_empty() {
    let s = Stats::new(42);
    assert_eq!(s.last_seen, None);
    assert_eq!(s.longest_absence, 0);
    assert_eq!(s.total_beats, 0);
    assert_eq!(s.num_visits, 0);
    assert_eq!(s.devices.len(), 0);
    assert_eq!(s.server_start_time, 42);
}

#[test]
fn first_beat_then_hour_gap() {
    // one device registered, longest_absence starts at zero
    let mut s = fresh_with_device(1);
    assert_eq!(s.longest_absence, 0);

    // beat at T+0s: no previous beat, the count starts, no absence update
    let r1 = s.apply_beat(1, 0, None);
    assert_eq!(s.total_beats, 1);
    assert_eq!(s.longest_absence, 0);
    assert!(!r1.update_longest_absence);
    assert!(!r1.notify_absence);
    assert_eq!(r1.ack, 0);

    // beat at T+3600s: the gap is exactly one hour, the stored absence
    // grows and the absence notification fires
    let r2 = s.apply_beat(1, 3_600_000, Some(0));
    assert_eq!(s.total_beats, 2);
    assert_eq!(s.longest_absence, 3_600_000);
    assert!(r2.update_longest_absence);
    assert!(r2.notify_absence);
    assert_eq!(r2.ack, 3_600_000);

    assert_eq!(s.last_seen, Some(3_600_000));
    assert_eq!(s.devices[0].num_beats, 2);
    assert_eq!(s.devices[0].last_beat, Some(3_600_000));
}

#[test]
fn every_beat_counts_once() {
    let mut s = fresh_with_device(1);
    s.total_beats = 10;
    let before = s.total_beats;
    s.apply_beat(1, 1000, None);
    s.apply_beat(1, 2000, Some(1000));
    s.apply_beat(1, 2500, Some(2000));
    assert_eq!(s.total_beats, before + 3);
}

#[test]
fn longest_absence_covers_every_gap() {
    let mut s = fresh_with_device(1);
    s.apply_beat(1, 0, None);
    s.apply_beat(1, 5000, Some(0));
    s.apply_beat(1, 6000, Some(5000));
    assert!(s.longest_absence >= 5000);
    assert!(s.longest_absence >= 1000);
    assert_eq!(s.longest_absence, 5000);
}

#[test]
fn short_gap_keeps_stored_absence() {
    let mut s = fresh_with_device(1);
    s.longest_absence = 9000;
    let r = s.apply_beat(1, 1000, Some(0));
    assert!(!r.update_longest_absence);
    assert!(!r.notify_absence);
    assert_eq!(s.longest_absence, 9000);
}

#[test]
fn beat_from_unknown_device_still_counts() {
    let mut s = fresh_with_device(1);
    let r = s.apply_beat(99, 1000, None);
    assert_eq!(s.total_beats, 1);
    assert_eq!(s.devices[0].num_beats, 0);
    assert_eq!(s.last_seen, Some(1000));
    assert_eq!(r.ack, 1000);
}

#[test]
fn duplicate_registration_is_refused() {
    let mut s = fresh_with_device(7);
    assert!(!s.register_device(7, Some("other".to_string())));
    assert_eq!(s.devices.len(), 1);
    assert_eq!(s.devices[0].name, Some("watch".to_string()));
}

#[test]
fn registration_starts_at_zero_beats() {
    let s = fresh_with_device(3);
    assert_eq!(s.devices.len(), 1);
    assert_eq!(s.devices[0].id, 3);
    assert_eq!(s.devices[0].num_beats, 0);
    assert_eq!(s.devices[0].last_beat, None);
}

#[test]
fn visits_count_up() {
    let mut s = Stats::new(0);
    s.record_visit();
    s.record_visit();
    assert_eq!(s.num_visits, 2);
    assert_eq!(s.total_beats, 0);
}

#[test]
fn snapshot_reports_absence_in_progress() {
    let mut s = fresh_with_device(1);
    s.apply_beat(1, 0, None);
    s.longest_absence = 1000;
    // the gap in progress is longer than the stored absence: report it,
    // but never write it back
    let v = s.snapshot(5000);
    assert_eq!(v.last_seen_relative, 5000);
    assert_eq!(v.longest_absence, 5000);
    assert_eq!(s.longest_absence, 1000);
    // stored absence still dominates a short gap in progress
    let w = s.snapshot(500);
    assert_eq!(w.longest_absence, 1000);
}

#[test]
fn snapshot_twice_is_identical() {
    let mut s = fresh_with_device(1);
    s.apply_beat(1, 100, None);
    s.record_visit();
    let a = s.snapshot(5000);
    let b = s.snapshot(5000);
    assert_eq!(a.last_seen, b.last_seen);
    assert_eq!(a.last_seen_relative, b.last_seen_relative);
    assert_eq!(a.longest_absence, b.longest_absence);
    assert_eq!(a.num_visits, b.num_visits);
    assert_eq!(a.total_beats, b.total_beats);
    assert_eq!(a.uptime, b.uptime);
    assert_eq!(a.devices.len(), b.devices.len());
    assert_eq!(a.devices[0].id, b.devices[0].id);
    assert_eq!(a.devices[0].name, b.devices[0].name);
    assert_eq!(a.devices[0].last_beat, b.devices[0].last_beat);
    assert_eq!(a.devices[0].num_beats, b.devices[0].num_beats);
}

#[test]
fn quiet_stream_shows_time_passing_only() {
    let mut s = fresh_with_device(1);
    s.apply_beat(1, 1000, None);
    // one snapshot per second for three seconds, no heartbeat in between
    let v1 = s.snapshot(2000);
    let v2 = s.snapshot(3000);
    let v3 = s.snapshot(4000);
    assert_eq!(v2.last_seen_relative - v1.last_seen_relative, 1000);
    assert_eq!(v3.last_seen_relative - v2.last_seen_relative, 1000);
    assert_eq!(v1.total_beats, v2.total_beats);
    assert_eq!(v2.total_beats, v3.total_beats);
    assert_eq!(v2.uptime - v1.uptime, 1000);
    assert_eq!(v3.uptime - v2.uptime, 1000);
}

#[test]
fn snapshot_without_any_beat_measures_from_epoch() {
    let s = Stats::new(0);
    let v = s.snapshot(7000);
    assert_eq!(v.last_seen, None);
    assert_eq!(v.last_seen_relative, 7000);
    assert_eq!(v.longest_absence, 7000);
}

fn sample_device(id: u64, beats: u64) -> Device {
    Device { id, name: None, last_beat: None, num_beats: beats }
}

#[test]
fn seeding_accepts_consistent_rows() {
    let devices = vec![sample_device(1, 3), sample_device(2, 5)];
    let s = Stats::from_parts(Some(900), 250, 8, 4, devices, 100).expect("rows are consistent");
    assert_eq!(s.last_seen, Some(900));
    assert_eq!(s.longest_absence, 250);
    assert_eq!(s.total_beats, 8);
    assert_eq!(s.num_visits, 4);
    assert_eq!(s.devices.len(), 2);
    assert_eq!(s.server_start_time, 100);
}

#[test]
fn seeding_rejects_negative_absence() {
    assert!(Stats::from_parts(None, -1, 0, 0, Vec::new(), 0).is_none());
}

#[test]
fn seeding_rejects_duplicate_identifiers() {
    let devices = vec![sample_device(1, 0), sample_device(1, 0)];
    assert!(Stats::from_parts(None, 0, 0, 0, devices, 0).is_none());
}

#[test]
fn seeding_rejects_device_outcounting_total() {
    let devices = vec![sample_device(1, 9)];
    assert!(Stats::from_parts(None, 0, 8, 0, devices, 0).is_none());
}
