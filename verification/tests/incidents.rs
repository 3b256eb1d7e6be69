//! Incidents, the framing of their log and its rotation.

use chrono::TimeZone;
use network_dash::diagnosis::Layer;
use network_dash::health::Health;
use network_dash::incidents::{jsonl_body, jsonl_line, Incident, IncidentLog, Rotation};
use network_dash::metrics::MetricId;

/// A reading.
fn r(v: f64) -> i64 {
    (v * 1e9).round() as i64
}

/// An instant.
fn at(y: i32, mo: u32, d: u32, h: u32, mi: u32, s: u32) -> i64 {
    chrono::Utc
        .with_ymd_and_hms(y, mo, d, h, mi, s)
        .unwrap()
        .timestamp_nanos_opt()
        .unwrap()
}

fn sample() -> Incident {
    let ts = at(2026, 7, 20, 14, 20, 3);
    Incident::new(
        ts,
        MetricId::Dns,
        Health::Warn,
        "DNS spike 180ms (google)".into(),
    )
    .with_value(r(180.0), "ms")
    .with_threshold(r(100.0))
    .with_target("8.8.8.8")
}

#[test]
fn builders_populate_fields() {
    let inc = sample();
    assert_eq!(inc.metric, MetricId::Dns);
    assert_eq!(inc.severity, Health::Warn);
    assert_eq!(inc.value, Some(r(180.0)));
    assert_eq!(inc.unit, "ms");
    assert_eq!(inc.threshold, Some(r(100.0)));
    assert_eq!(inc.target.as_deref(), Some("8.8.8.8"));
}

/// An object as it is written to the log.
fn object() -> String {
    "{\"ts\":\"2026-07-20T14:20:03Z\",\"metric\":\"dns\",\"severity\":\"warn\",\"message\":\"x\"}"
        .to_string()
}

#[test]
fn jsonl_line_is_single_line_and_terminated() {
    let line = jsonl_line(object());
    assert!(line.ends_with('\n'), "line must end with newline");
    assert_eq!(
        line.trim_end().lines().count(),
        1,
        "must be exactly one line"
    );
}

#[test]
fn a_line_holds_what_was_framed() {
    assert_eq!(jsonl_body(&jsonl_line(object())), object());
    assert_eq!(jsonl_body(&object()), object(), "the line feed is optional");
    assert_eq!(jsonl_body("{} \r\n"), "{}");
}

#[test]
fn a_cause_is_absent_unless_correlated() {
    let plain = sample();
    assert_eq!(plain.cause, None);
    assert!(!plain.is_downstream());
    let caused = sample().caused_by(Layer::Gateway);
    assert_eq!(caused.cause, Some(Layer::Gateway));
    assert!(caused.is_downstream());
    assert_eq!(caused.message, plain.message);
}

#[test]
fn log_tracks_bytes_written() {
    let mut log: IncidentLog<Vec<u8>> = IncidentLog::new(Vec::new());
    let line = jsonl_line(object());
    let line_len = line.len() as u64;
    assert_eq!(log.written(), 0);
    for _ in 0..2 {
        log.sink_mut().extend_from_slice(line.as_bytes());
        log.note_written(line_len);
    }
    assert_eq!(log.written(), line_len * 2);
    assert_eq!(log.into_inner().len() as u64, line_len * 2);
}

#[test]
fn a_resumed_log_counts_what_is_already_there() {
    let log: IncidentLog<Vec<u8>> = IncidentLog::resuming(Vec::new(), 77);
    assert_eq!(log.written(), 77);
}

#[test]
fn the_log_rolls_over_at_its_cap_and_not_before() {
    let line_len = jsonl_line(object()).len() as u64;
    // A cap of exactly two lines: the third append finds the file at the cap and rolls.
    let rotation = Rotation::new(line_len * 2);
    assert!(!rotation.is_due(line_len));
    assert!(rotation.is_due(line_len * 2));
    // A cap of zero would roll before the first line.
    assert_eq!(Rotation::new(0).max_bytes, 1);
    assert!(!Rotation::new(0).is_due(0));
}

#[test]
fn the_log_on_disk_stays_bounded() {
    let rotation = Rotation::new(1_000);
    let (mut live, mut retired) = (0u64, 0u64);
    for i in 0..10_000u64 {
        let line = 1 + i % 300;
        if rotation.is_due(live) {
            retired = live;
            live = 0;
        }
        live += line;
        assert!(live < 1_300 && retired < 1_300);
    }
}

#[test]
fn the_byte_count_adds_up_over_every_append() {
    let mut log = IncidentLog::resuming((), 1_000);
    for bytes in [200, 0, 35, 1] {
        log.note_written(bytes);
    }
    assert_eq!(log.written(), 1_236);
    log.note_written(u64::MAX - 10);
    assert_eq!(log.written(), u64::MAX);
    log.note_written(7);
    assert_eq!(log.written(), u64::MAX);
}
