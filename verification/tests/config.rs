//! Defaults, and settings that have been retired.

use network_dash::config::{Cadence, Config, ThresholdConfig};
use network_dash::health::{Direction, Thresholds};

/// A reading.
fn r(v: f64) -> i64 {
    (v * 1e9).round() as i64
}

fn seconds(n: i64) -> i64 {
    n * 1_000_000_000
}

#[test]
fn defaults_are_complete_and_sane() {
    let c = Config::default();
    assert!(
        c.targets.gateway_auto,
        "gateway should auto-detect by default"
    );
    assert!(
        !c.targets.internet.is_empty(),
        "need default internet targets"
    );
    assert!(!c.targets.routing_target.is_empty());
    assert!(c.targets.max_hops > 0, "a 0-hop traceroute probes nothing");
    assert_eq!(c.resolvers.len(), 3, "system + cloudflare + google");
    assert!(c.cadence.ping_ms > 0);
    assert!(c.cadence.render_ms > 0);
    assert_eq!(
        c.thresholds.latency_internet.direction,
        Direction::HigherIsWorse
    );
    assert_eq!(c.thresholds.rssi.direction, Direction::LowerIsWorse);
    assert!(c.thresholds.trip_after_secs > r(0.0));
    assert!(
        c.thresholds.clear_after_secs > c.thresholds.trip_after_secs,
        "recovery must be slower to commit than a fault, or a flap reads as a fix"
    );
    assert_eq!(
        c.thresholds.debounce_samples, None,
        "the retired knob must not come back as a default"
    );
    assert!(c.thresholds.loss_window > 0);
    assert!(c.thresholds.history_len > 0);
    assert!(!c.throughput.probe_url.is_empty());
    assert!(c.ui.color);
    assert_eq!(
        c.ui.theme, "neon_sunset",
        "neon sunset theme out of the box"
    );
}

#[test]
fn throughput_thresholds_default_to_lower_is_worse() {
    let t = Config::default().thresholds.throughput;
    assert_eq!(t.direction, Direction::LowerIsWorse);
    assert!(
        t.crit < t.warn,
        "crit must be the deeper degradation: {t:?}"
    );
}

#[test]
fn alert_defaults_collapse_noise_without_silencing_the_feed() {
    let a = Config::default().alerts;
    assert!(
        a.flap_count >= 2,
        "under 2 would call every single transition a flap and mute everything"
    );
    assert!(a.flap_window_secs > r(0.0));
    assert!(
        a.dedup_secs > r(0.0) && a.dedup_secs < a.flap_window_secs,
        "dedup is the short-range backstop, flap detection the long one: {a:?}"
    );
    let t = Config::default().thresholds;
    assert!(
        a.dedup_secs < t.trip_after_secs + t.clear_after_secs,
        "a debounced metric can't round-trip faster than trip+clear, so a longer \
         cooldown than that would swallow a genuine second failure: {a:?}"
    );
    assert_eq!(
        a.flap_window(),
        seconds(a.flap_window_secs / 1_000_000_000)
    );
    assert_eq!(
        a.dedup_window(),
        seconds(a.dedup_secs / 1_000_000_000)
    );
}

#[test]
fn dwell_helpers_convert_seconds_to_durations() {
    let c = Config::default();
    assert_eq!(c.thresholds.trip_after(), seconds(3));
    assert_eq!(c.thresholds.clear_after(), seconds(15));
    // Sub-second dwells are expressible; a negative one is a typo, not a time machine.
    let t = ThresholdConfig {
        trip_after_secs: r(0.25),
        clear_after_secs: -r(5.0),
        ..ThresholdConfig::default()
    };
    assert_eq!(t.trip_after(), 250_000_000);
    assert_eq!(t.clear_after(), 0);
}

#[test]
fn cadence_duration_helpers() {
    let c = Cadence {
        ping_ms: 1000,
        render_ms: 200,
        ..Cadence::default()
    };
    assert_eq!(c.ping(), 1000);
    assert_eq!(c.render(), 200);
}

#[test]
fn deprecated_floor_mbps_seeds_the_throughput_warn_threshold() {
    let mut c = Config::default();
    c.throughput.floor_mbps = Some(r(20.0));
    c.migrate_deprecated(false);
    assert_eq!(c.thresholds.throughput.warn, r(20.0));
    // ...and crit must stay strictly below it, or `evaluate` would classify every
    // merely-warning value as critical.
    assert!(
        c.thresholds.throughput.crit < r(20.0),
        "crit should scale under the migrated floor: {:?}",
        c.thresholds.throughput
    );
}

#[test]
fn explicit_throughput_thresholds_beat_the_deprecated_floor() {
    let mut c = Config::default();
    c.throughput.floor_mbps = Some(r(20.0));
    c.thresholds.throughput = Thresholds::lower_is_worse(r(500.0), r(100.0));
    c.migrate_deprecated(true);
    assert_eq!(c.thresholds.throughput.warn, r(500.0));
    assert_eq!(c.thresholds.throughput.crit, r(100.0));
}

#[test]
fn deprecated_debounce_samples_is_dropped_and_reported() {
    let mut c = Config::default();
    c.thresholds.debounce_samples = Some(5);
    c.migrate_deprecated(false);
    assert_eq!(c.thresholds.debounce_samples, None, "must not round-trip");
    assert_eq!(
        c.thresholds.trip_after_secs,
        Config::default().thresholds.trip_after_secs,
        "there is no honest conversion from a sample count, so defaults stand"
    );
    assert!(
        c.deprecated_keys
            .iter()
            .any(|k| k.contains("debounce_samples")),
        "an ignored setting must be reported, not swallowed: {:?}",
        c.deprecated_keys
    );
}

#[test]
fn deprecation_warnings_name_the_file_and_every_key() {
    let mut c = Config::default();
    c.thresholds.debounce_samples = Some(5);
    c.throughput.floor_mbps = Some(r(40.0));
    c.migrate_deprecated(false);
    let w = c.deprecation_warnings("/etc/np.toml");
    assert_eq!(w.len(), 2, "one line per retired key: {w:?}");
    for line in &w {
        assert!(line.starts_with("warning: "), "{line}");
        assert!(
            line.contains("/etc/np.toml"),
            "say which file to edit: {line}"
        );
    }
    assert!(w.iter().any(|l| l.contains("debounce_samples")), "{w:?}");
    assert!(w.iter().any(|l| l.contains("floor_mbps")), "{w:?}");
}

#[test]
fn a_config_with_nothing_retired_warns_about_nothing() {
    let mut c = Config::default();
    c.thresholds.loss_window = 30;
    c.migrate_deprecated(false);
    assert!(c.deprecation_warnings("/etc/np.toml").is_empty());
}

#[test]
fn a_migrated_floor_keeps_crit_below_warn_whatever_it_is() {
    for floor in [r(0.5), r(1.0), r(20.0), r(1000.0)] {
        let mut c = Config::default();
        c.throughput.floor_mbps = Some(floor);
        c.migrate_deprecated(false);
        let t = c.thresholds.throughput;
        assert!(t.crit < t.warn, "{t:?}");
    }
}

#[test]
fn migrating_twice_is_migrating_once() {
    let mut c = Config::default();
    c.throughput.floor_mbps = Some(r(40.0));
    c.thresholds.debounce_samples = Some(3);
    c.migrate_deprecated(false);
    let once = c.clone();
    c.migrate_deprecated(false);
    assert_eq!(c, once);
    assert_eq!(c.thresholds.throughput.warn, r(40.0));
    assert_eq!(c.thresholds.throughput.crit, r(10.0));
    assert_eq!(c.deprecated_keys.len(), 2);
}

#[test]
fn configured_thresholds_beat_the_floor_even_where_they_equal_the_stock_ones() {
    let mut c = Config::default();
    c.throughput.floor_mbps = Some(r(20.0));
    c.thresholds.throughput = Thresholds::lower_is_worse(r(100.0), r(25.0));
    assert_eq!(c.thresholds.throughput, Config::default().thresholds.throughput);
    c.migrate_deprecated(true);
    assert_eq!(c.thresholds.throughput.warn, r(100.0));
    assert_eq!(c.thresholds.throughput.crit, r(25.0));
    assert_eq!(c.throughput.floor_mbps, None);
}
