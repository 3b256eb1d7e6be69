//! Health, thresholds, debouncing and flap detection.

use chrono::TimeZone;
use network_dash::health::{Debouncer, FlapDetector, Health, Thresholds};

/// A reading.
fn r(v: f64) -> i64 {
    (v * 1e9).round() as i64
}

/// An instant.
fn at(y: i32, mo: u32, d: u32, h: u32, mi: u32, s: u32) -> i64 {
    chrono::Utc
        .with_ymd_and_hms(y, mo, d, h, mi, s)
        .unwrap()
        .timestamp_nanos_opt()
        .unwrap()
}

#[test]
fn health_orders_ok_warn_crit() {
    assert!(Health::Good < Health::Warn);
    assert!(Health::Warn < Health::Crit);
}

#[test]
fn evaluate_higher_is_worse() {
    let cases = [
        (r(10.0), Health::Good), // comfortably under warn
        (r(79.999), Health::Good), // just under warn
        (r(80.0), Health::Warn), // warn boundary is inclusive
        (r(120.0), Health::Warn), // between warn and crit
        (r(150.0), Health::Crit), // crit boundary is inclusive
        (r(300.0), Health::Crit), // well over crit
    ];
    for (value, expected) in cases {
        let t = Thresholds::higher_is_worse(r(80.0), r(150.0));
        assert_eq!(t.evaluate(value), expected);
    }
}

#[test]
fn evaluate_lower_is_worse() {
    let cases = [
        (r(500.0), Health::Good), // fast link is fine
        (r(100.1), Health::Good), // just above warn
        (r(100.0), Health::Warn), // warn boundary is inclusive
        (r(50.0), Health::Warn), // between warn and crit
        (r(20.0), Health::Crit), // crit boundary is inclusive
        (r(1.0), Health::Crit), // near-dead link
    ];
    for (value, expected) in cases {
        let t = Thresholds::lower_is_worse(r(100.0), r(20.0));
        assert_eq!(t.evaluate(value), expected);
    }
}

#[test]
fn worst_picks_more_severe() {
    assert_eq!(Health::Good.worst(Health::Warn), Health::Warn);
    assert_eq!(Health::Crit.worst(Health::Warn), Health::Crit);
}

#[test]
fn worst_of_rolls_up() {
    assert_eq!(
        Health::worst_of(&[Health::Good, Health::Warn, Health::Good]),
        Health::Warn
    );
    assert_eq!(
        Health::worst_of(&[Health::Good, Health::Crit, Health::Warn]),
        Health::Crit
    );
    assert_eq!(Health::worst_of(&[Health::Good, Health::Good]), Health::Good);
    assert_eq!(Health::worst_of(&[]), Health::Good);
}


fn t0() -> i64 {
    at(2026, 7, 20, 14, 0, 0)
}

fn secs(n: i64) -> i64 {
    n * 1_000_000_000
}

/// Feed `(offset_secs, raw)` pairs, collecting the transition emitted at each step.
fn run(
    initial: Health,
    trip: i64,
    clear: i64,
    seq: &[(i64, Health)],
) -> Vec<Option<Health>> {
    let mut d = Debouncer::new(initial, trip, clear);
    seq.iter()
        .map(|&(at, h)| d.update(t0() + secs(at), h))
        .collect()
}

#[test]
fn debouncer_starts_in_initial() {
    let d = Debouncer::new(Health::Warn, secs(3), secs(15));
    assert_eq!(d.current(), Health::Warn);
}

#[test]
fn debouncer_zero_dwell_trips_on_the_first_differing_sample() {
    let out = run(Health::Good, 0, 0, &[(0, Health::Crit)]);
    assert_eq!(out, vec![Some(Health::Crit)]);
}

#[test]
fn debouncer_stable_stream_never_transitions() {
    let out = run(Health::Good, secs(3), secs(15), &[(0, Health::Good), (5, Health::Good), (10, Health::Good)]);
    assert_eq!(out, vec![None, None, None]);
}

#[test]
fn debouncer_single_blip_is_ignored() {
    let mut d = Debouncer::new(Health::Good, secs(3), secs(15));
    assert_eq!(d.update(t0(), Health::Crit), None);
    assert_eq!(d.update(t0() + secs(1), Health::Good), None);
    assert_eq!(d.current(), Health::Good);
}

#[test]
fn debouncer_trips_only_once_the_fault_has_persisted() {
    // A fault seen for 2s is still inside the 3s dwell; the sample at 3s commits it.
    let out = run(
        Health::Good,
        secs(3),
        secs(15),
        &[(0, Health::Crit), (2, Health::Crit), (3, Health::Crit), (4, Health::Crit)],
    );
    assert_eq!(out, vec![None, None, Some(Health::Crit), None]);
}

#[test]
fn debouncer_is_slower_to_clear_than_to_trip() {
    // The asymmetry is the whole point: a flapping link that dips healthy for a few
    // seconds must not be reported as recovered, or the log fills with round trips.
    let out = run(
        Health::Crit,
        secs(3),
        secs(15),
        &[(0, Health::Good), (5, Health::Good), (10, Health::Good), (15, Health::Good)],
    );
    assert_eq!(out, vec![None, None, None, Some(Health::Good)]);
}

#[test]
fn debouncer_partial_recovery_waits_the_clear_dwell_too() {
    // Crit → Warn is an improvement, so it earns the slow path even though the metric
    // is still unhealthy.
    let out = run(Health::Crit, secs(3), secs(15), &[(0, Health::Warn), (5, Health::Warn), (15, Health::Warn)]);
    assert_eq!(out, vec![None, None, Some(Health::Warn)]);
}

#[test]
fn debouncer_escalation_does_not_restart_the_clock() {
    // Warn at 0s then Crit at 3s: the fault has been present for the full dwell, and
    // getting worse is no reason to hand it a fresh grace period.
    let out = run(Health::Good, secs(3), secs(15), &[(0, Health::Warn), (3, Health::Crit)]);
    assert_eq!(out, vec![None, Some(Health::Crit)]);
}

#[test]
fn debouncer_return_to_stable_clears_pending() {
    // Crit for 2s, back to Ok, then Crit again: the clock restarts from the second run.
    let out = run(
        Health::Good,
        secs(3),
        secs(15),
        &[(0, Health::Crit), (2, Health::Crit), (3, Health::Good), (4, Health::Crit), (6, Health::Crit)],
    );
    assert_eq!(out, vec![None, None, None, None, None]);
}

#[test]
fn debouncer_a_clock_that_steps_backwards_does_not_strand_a_pending_change() {
    // NTP correcting a skewed clock mid-fault must not leave `pending` anchored in the
    // future, where no later sample could ever satisfy the dwell.
    let mut d = Debouncer::new(Health::Good, secs(3), secs(15));
    assert_eq!(d.update(t0() + secs(600), Health::Crit), None);
    assert_eq!(d.update(t0(), Health::Crit), None); // clock corrected backwards
    assert_eq!(d.update(t0() + secs(3), Health::Crit), Some(Health::Crit));
}

#[test]
fn debouncer_current_tracks_committed_state() {
    let mut d = Debouncer::new(Health::Good, secs(3), secs(15));
    d.update(t0(), Health::Crit);
    assert_eq!(d.current(), Health::Good); // not yet committed
    d.update(t0() + secs(3), Health::Crit);
    assert_eq!(d.current(), Health::Crit);
}

// --- FlapDetector ---

/// Four swings inside two minutes is "unstable"; the app's default shape.
fn detector() -> FlapDetector {
    FlapDetector::new(4, secs(120))
}

#[test]
fn a_metric_that_transitions_once_is_not_flapping() {
    let mut d = detector();
    assert_eq!(d.observe(t0(), true), None);
    assert!(!d.is_flapping());
}

#[test]
fn enough_transitions_inside_the_window_is_flapping() {
    let mut d = detector();
    for i in 0..3 {
        assert_eq!(d.observe(t0() + secs(i * 10), true), None, "swing {i}");
    }
    assert_eq!(
        d.observe(t0() + secs(30), true),
        Some(true),
        "the fourth swing in 30s is the one that says 'unstable'"
    );
    assert!(d.is_flapping());
}

#[test]
fn flapping_is_announced_once_not_on_every_further_swing() {
    let mut d = detector();
    for i in 0..4 {
        d.observe(t0() + secs(i * 10), true);
    }
    assert_eq!(d.observe(t0() + secs(50), true), None, "already said so");
    assert_eq!(d.observe(t0() + secs(60), true), None);
}

#[test]
fn transitions_spread_beyond_the_window_are_not_flapping() {
    // Four swings, but one every 60s: that is a link changing state, not thrashing.
    let mut d = detector();
    for i in 0..6 {
        assert_eq!(d.observe(t0() + secs(i * 60), true), None, "swing {i}");
    }
    assert!(!d.is_flapping());
}

#[test]
fn a_flapping_metric_settles_once_the_window_empties() {
    let mut d = detector();
    for i in 0..4 {
        d.observe(t0() + secs(i * 10), true);
    }
    assert!(d.is_flapping());
    // Time passes with no further swings; the last one ages out at +30s +120s.
    assert_eq!(
        d.observe(t0() + secs(100), false),
        None,
        "still within the window"
    );
    assert_eq!(d.observe(t0() + secs(151), false), Some(false), "settled");
    assert!(!d.is_flapping());
}

#[test]
fn a_settled_metric_can_start_flapping_again() {
    let mut d = detector();
    for i in 0..4 {
        d.observe(t0() + secs(i * 10), true);
    }
    assert_eq!(d.observe(t0() + secs(151), false), Some(false));
    let base = 200;
    for i in 0..3 {
        assert_eq!(d.observe(t0() + secs(base + i * 10), true), None);
    }
    assert_eq!(d.observe(t0() + secs(base + 30), true), Some(true));
}

#[test]
fn a_zero_threshold_detector_never_flaps() {
    // A count of 0 (or 1) would mean "every single transition is a flap", which would
    // silence the whole event feed. Treated as "disabled" instead.
    let mut d = FlapDetector::new(0, secs(120));
    for i in 0..10 {
        assert_eq!(d.observe(t0() + secs(i), true), None, "swing {i}");
    }
    assert!(!d.is_flapping());
}

#[test]
fn flap_count_reports_the_swings_that_triggered_it() {
    let mut d = detector();
    for i in 0..4 {
        d.observe(t0() + secs(i * 10), true);
    }
    assert_eq!(d.recent(), 4, "the incident should be able to say how many");
}

#[test]
fn joining_two_healths_is_commutative_associative_and_idempotent() {
    let all = [Health::Good, Health::Warn, Health::Crit];
    for a in all {
        assert_eq!(a.worst(a), a);
        for b in all {
            assert_eq!(a.worst(b), b.worst(a));
            for c in all {
                assert_eq!(a.worst(b).worst(c), a.worst(b.worst(c)));
                assert_eq!(Health::worst_of(&[a, b, c]), a.worst(b).worst(c));
            }
        }
    }
}

#[test]
fn a_worse_reading_never_grades_better() {
    let up = Thresholds::higher_is_worse(r(80.0), r(150.0));
    let down = Thresholds::lower_is_worse(r(100.0), r(20.0));
    for v in 0..200 {
        assert!(up.evaluate(r(v as f64)) <= up.evaluate(r(v as f64 + 1.0)));
        assert!(down.evaluate(r(v as f64)) >= down.evaluate(r(v as f64 + 1.0)));
    }
}

#[test]
fn a_run_that_changes_side_starts_over() {
    let mut d = Debouncer::new(Health::Warn, secs(3), secs(15));
    assert_eq!(d.update(t0(), Health::Crit), None);
    // Now better than committed instead of worse: the clear dwell runs from here.
    assert_eq!(d.update(t0() + secs(2), Health::Good), None);
    assert_eq!(d.update(t0() + secs(16), Health::Good), None);
    assert_eq!(d.update(t0() + secs(17), Health::Good), Some(Health::Good));
}

#[test]
fn a_swing_exactly_one_window_old_still_counts() {
    let mut d = FlapDetector::new(2, secs(10));
    assert_eq!(d.observe(t0(), true), None);
    assert_eq!(d.observe(t0() + secs(10), true), Some(true));
    assert_eq!(d.recent(), 2);
}

#[test]
fn a_second_fault_takes_both_dwells() {
    let second = 1_000_000_000;
    let mut d = Debouncer::new(Health::Good, 3 * second, 15 * second);
    let mut reported = Vec::new();
    // Swap between bad and good as soon as the last change was reported.
    let mut raw = Health::Crit;
    for i in 0..120 {
        if let Some(h) = d.update(i * second, raw) {
            reported.push((i, h));
            raw = if h == Health::Good {
                Health::Crit
            } else {
                Health::Good
            };
        }
    }
    let faults: Vec<i64> = reported
        .iter()
        .filter(|(_, h)| *h == Health::Crit)
        .map(|(i, _)| *i)
        .collect();
    assert!(faults.len() > 2);
    for pair in faults.windows(2) {
        assert!(pair[1] - pair[0] >= 18, "{pair:?} are too close");
    }
}

#[test]
fn a_flapping_metric_stays_so_while_a_swing_is_in_the_window() {
    let t0 = at(2026, 7, 20, 14, 0, 0);
    let second = 1_000_000_000;
    let mut d = FlapDetector::new(4, 120 * second);
    for i in 0..4 {
        d.observe(t0 + i * 10 * second, true);
    }
    assert!(d.is_flapping());
    // Three swings are left, then one, then none.
    assert_eq!(d.observe(t0 + 121 * second, false), None);
    assert_eq!(d.recent(), 3);
    assert!(d.is_flapping());
    assert_eq!(d.observe(t0 + 150 * second, false), None);
    assert_eq!(d.recent(), 1);
    assert_eq!(d.observe(t0 + 151 * second, false), Some(false));
    assert!(!d.is_flapping());
}
