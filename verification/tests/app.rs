//! The reducer: folding readings, attribution, noise, actions and the availability strip.

use chrono::TimeZone;
use network_dash::app::actions::Action;
use network_dash::app::report::status_incident;
use network_dash::app::state::TargetState;
use network_dash::app::AppState;
use network_dash::config::Config;
use network_dash::diagnosis::Layer;
use network_dash::health::{Health, Thresholds};
use network_dash::incidents::Incident;
use network_dash::metrics::dns::Answer;
use network_dash::metrics::{MetricId, Sample};
use network_dash::ui::theme::Theme;

/// A reading.
fn r(v: f64) -> i64 {
    (v * 1e9).round() as i64
}

/// An instant.
fn at(y: i32, mo: u32, d: u32, h: u32, mi: u32, s: u32) -> i64 {
    chrono::Utc
        .with_ymd_and_hms(y, mo, d, h, mi, s)
        .unwrap()
        .timestamp_nanos_opt()
        .unwrap()
}

fn seconds(n: i64) -> i64 {
    n * 1_000_000_000
}

fn minutes(n: i64) -> i64 {
    n * 60_000_000_000
}

fn days(n: i64) -> i64 {
    n * 86_400_000_000_000
}

fn target<'a>(s: &'a AppState, name: &str) -> &'a TargetState {
    s.targets.get(&name.to_string()).expect("a registered target")
}

fn now() -> i64 {
    at(2026, 7, 20, 14, 0, 0)
}

/// A clock that advances one second per sample, matching the real ping cadence.
///
/// Debouncing is time-based, so a frozen clock can never commit a transition — every
/// test that expects one has to let time pass, exactly as the running app does.
struct Clock(i64);

impl Clock {
    fn new() -> Self {
        Self(now())
    }

    /// The current instant, then advance a second.
    fn tick(&mut self) -> i64 {
        let at = self.0;
        self.0 += seconds(1);
        at
    }
}

/// Config with a fast debounce and small windows for deterministic tests. Jitter
/// thresholds are set out of reach so latency/loss tests are not perturbed by the
/// jitter that large latency swings naturally produce; a dedicated test covers jitter.
///
/// The 1-second dwells pair with [`Clock`]: a change is committed by the second
/// differing sample, which keeps these tests reading as "one blip is ignored, two in a
/// row are believed".
fn test_config() -> Config {
    let mut c = Config::default();
    c.targets.internet = vec!["1.1.1.1".into()];
    c.targets.gateway = None;
    c.thresholds.trip_after_secs = r(1.0);
    c.thresholds.clear_after_secs = r(1.0);
    c.thresholds.loss_window = 4;
    c.thresholds.history_len = 16;
    c.thresholds.jitter = Thresholds::higher_is_worse(r(10_000.0), r(20_000.0));
    c
}

fn latency(target: &str, rtt: i64) -> Sample {
    Sample::Latency {
        target: target.into(),
        rtt_ms: Some(rtt),
    }
}
fn timeout(target: &str) -> Sample {
    Sample::Latency {
        target: target.into(),
        rtt_ms: None,
    }
}

/// The health recorded in each availability bucket, oldest → newest.
fn strip(s: &AppState) -> Vec<Option<Health>> {
    s.availability.iter().map(|m| m.health).collect()
}

#[test]
fn tick_opens_one_availability_bucket_per_minute() {
    let mut s = AppState::new(test_config());
    let t = now();
    s.tick(t);
    s.tick(t + seconds(20));
    s.tick(t + seconds(59));
    assert_eq!(strip(&s).len(), 1, "one minute is one bucket");
    s.tick(t + seconds(60));
    assert_eq!(strip(&s).len(), 2);
}

#[test]
fn the_strip_leaves_no_minute_out() {
    let mut s = AppState::new(test_config());
    let t = now();
    for minutes in [0, 1, 5, 3, 90, 1_000, 1_001, 1_230] {
        s.tick(t + seconds(60 * minutes));
        let seen: Vec<i64> = s.availability.iter().map(|m| m.minute).collect();
        for pair in seen.windows(2) {
            assert_eq!(pair[1], pair[0] + 1, "after minute {minutes}");
        }
    }
    assert_eq!(strip(&s).len(), 220);
}

#[test]
fn a_minute_is_recorded_at_its_worst_not_its_last() {
    let mut s = AppState::new(test_config());
    let t = now();
    s.tick(t); // healthy
    // One total outage inside the minute, then recovery — the minute was not "ok".
    // Seconds pass between samples (the debounce is a duration), but every one of them
    // lands inside minute 0, so the whole episode belongs to a single bucket.
    for i in 0..4 {
        s.apply_sample(t + seconds(i), timeout("1.1.1.1"));
    }
    s.tick(t + seconds(10));
    for i in 0..8 {
        s.apply_sample(
            t + seconds(10 + i),
            latency("1.1.1.1", r(10.0)),
        );
    }
    s.tick(t + seconds(50));
    assert_eq!(
        strip(&s),
        vec![Some(Health::Crit)],
        "an outage that healed inside the minute still happened"
    );
}

#[test]
fn skipped_minutes_are_recorded_as_unknown_not_healthy() {
    let mut s = AppState::new(test_config());
    let t = now();
    s.tick(t);
    // The laptop slept for four minutes: we have no idea what the link was doing, and
    // back-filling "ok" would invent uptime the dashboard never observed.
    s.tick(t + minutes(5));
    assert_eq!(
        strip(&s),
        vec![Some(Health::Good), None, None, None, None, Some(Health::Good)]
    );
}

#[test]
fn a_gap_longer_than_the_strip_does_not_replay_every_missing_minute() {
    let mut s = AppState::new(test_config());
    let t = now();
    s.tick(t);
    s.tick(t + days(3));
    assert_eq!(
        s.availability.len(),
        s.availability.capacity(),
        "the strip is bounded; a long sleep should fill it, not iterate for days"
    );
}

#[test]
fn applying_a_sample_advances_the_availability_strip() {
    // Samples arrive far more often than renders under `--once`, and the strip must
    // still be populated for the panel to have anything to draw.
    let mut s = AppState::new(test_config());
    let mut c = Clock::new();
    s.apply_sample(c.tick(), latency("1.1.1.1", r(12.0)));
    assert_eq!(strip(&s).len(), 1);
}

#[test]
fn availability_rollup_counts_each_grade_and_ignores_unknown_minutes() {
    let mut s = AppState::new(test_config());
    let t = now();
    s.tick(t); // minute 0: healthy
    for i in 0..4 {
        // minute 1: total outage (each sample ticks the strip itself). Spread across
        // seconds so the debounce dwell elapses, but all still inside minute 1.
        s.apply_sample(
            t + minutes(1) + seconds(i),
            timeout("1.1.1.1"),
        );
    }
    s.tick(t + minutes(4)); // still down, after a 2-minute gap
    let rollup = s.availability_rollup();
    assert_eq!(
        (rollup.ok, rollup.degraded, rollup.down, rollup.unknown),
        (1, 0, 2, 2)
    );
    // Unknown minutes are not counted against uptime — we did not observe them.
    assert!(
        (rollup.uptime_pct - r(100.0 / 3.0)).abs() < r(0.01),
        "{rollup:?}"
    );
}

#[test]
fn availability_rollup_of_an_empty_strip_is_not_zero_percent() {
    // A dashboard that just started has not had an outage; reporting 0% would be a lie.
    let s = AppState::new(test_config());
    assert_eq!(s.availability_rollup().uptime_pct, r(100.0));
}

#[test]
fn link_samples_accumulate_signal_history() {
    let mut s = AppState::new(test_config());
    let mut c = Clock::new();
    for (rssi, noise) in [(-r(45.0), -r(92.0)), (-r(52.0), -r(91.0)), (-r(61.0), -r(90.0))] {
        s.apply_sample(
            c.tick(),
            Sample::Link {
                rssi_dbm: Some(rssi),
                noise_dbm: Some(noise),
                tx_rate: Some(r(400.0)),
                ssid: Some("MyNet".into()),
            },
        );
    }
    // A radio decaying from -45 to -61 dBm is invisible in the current reading alone.
    let rssi = s.link.rssi_history.as_ref().expect("rssi history");
    assert_eq!(rssi.values(), vec![-r(45.0), -r(52.0), -r(61.0)]);
    let noise = s.link.noise_history.as_ref().expect("noise history");
    assert_eq!(noise.values(), vec![-r(92.0), -r(91.0), -r(90.0)]);
}

#[test]
fn a_link_sample_without_a_reading_does_not_pad_the_history() {
    // The Wi-Fi probe returns `None` when the radio is off or the shell-out failed;
    // recording that as a data point would draw a cliff that never happened.
    let mut s = AppState::new(test_config());
    let mut c = Clock::new();
    s.apply_sample(
        c.tick(),
        Sample::Link {
            rssi_dbm: None,
            noise_dbm: None,
            tx_rate: None,
            ssid: None,
        },
    );
    assert!(s.link.rssi_history.is_none());
}

#[test]
fn capacity_probes_accumulate_history() {
    let mut s = AppState::new(test_config());
    let mut c = Clock::new();
    for mbps in [r(420.0), r(380.0), r(55.0)] {
        s.apply_sample(c.tick(), Sample::ThroughputProbe { mbps });
    }
    assert_eq!(
        s.throughput
            .capacity_mbps
            .as_ref()
            .expect("capacity history")
            .values(),
        vec![r(420.0), r(380.0), r(55.0)]
    );
}

#[test]
fn bufferbloat_samples_record_the_added_latency_not_the_raw_pair() {
    let mut s = AppState::new(test_config());
    let mut c = Clock::new();
    s.apply_sample(
        c.tick(),
        Sample::Bufferbloat {
            idle_ms: r(18.0),
            loaded_ms: r(143.0),
        },
    );
    let h = s
        .throughput
        .added_latency_ms
        .as_ref()
        .expect("bufferbloat history");
    assert_eq!(h.values(), vec![r(125.0)], "the delta is the metric");
}

#[test]
fn bufferbloat_never_records_a_negative_delta() {
    // Loaded latency below idle is measurement noise, not a negative stall.
    let mut s = AppState::new(test_config());
    let mut c = Clock::new();
    s.apply_sample(
        c.tick(),
        Sample::Bufferbloat {
            idle_ms: r(30.0),
            loaded_ms: r(22.0),
        },
    );
    assert_eq!(
        s.throughput.added_latency_ms.as_ref().unwrap().values(),
        vec![r(0.0)]
    );
}

#[test]
fn new_registers_configured_targets() {
    let mut c = test_config();
    c.targets.internet = vec!["1.1.1.1".into(), "8.8.8.8".into()];
    c.targets.gateway = Some("192.168.1.1".into());
    let s = AppState::new(c);
    assert_eq!(s.targets.len(), 3);
    assert!(target(&s, "192.168.1.1").is_gateway);
    assert!(!target(&s, "1.1.1.1").is_gateway);
}

#[test]
fn latency_sample_updates_history_and_loss() {
    let mut s = AppState::new(test_config());
    let mut c = Clock::new();
    s.apply_sample(c.tick(), latency("1.1.1.1", r(20.0)));
    let t = &target(&s, "1.1.1.1");
    assert_eq!(t.latency_ms.latest(), Some(r(20.0)));
    assert_eq!(t.loss.len(), 1);
}

#[test]
fn loss_history_records_a_point_per_sample() {
    let mut s = AppState::new(test_config());
    let mut c = Clock::new();
    s.apply_sample(c.tick(), latency("1.1.1.1", r(20.0)));
    s.apply_sample(c.tick(), timeout("1.1.1.1"));
    s.apply_sample(c.tick(), latency("1.1.1.1", r(22.0)));
    let t = &target(&s, "1.1.1.1");
    // One loss-% point per ping sample, so the panel can draw a line.
    assert_eq!(t.loss_history.len(), 3);
    // After 1 drop out of 3, the latest loss is ~33%.
    assert!((t.loss_history.latest().unwrap() - r(100.0 / 3.0)).abs() < 1_000);
}

#[test]
fn timeout_records_loss_without_latency() {
    let mut s = AppState::new(test_config());
    let mut c = Clock::new();
    s.apply_sample(c.tick(), timeout("1.1.1.1"));
    let t = &target(&s, "1.1.1.1");
    assert_eq!(t.latency_ms.latest(), None);
    assert_eq!(t.loss.len(), 1);
}

#[test]
fn total_outage_does_not_report_healthy_latency() {
    let mut s = AppState::new(test_config());
    let mut c = Clock::new();
    // One good reply, then the link dies entirely.
    s.apply_sample(c.tick(), latency("1.1.1.1", r(20.0)));
    for _ in 0..4 {
        s.apply_sample(c.tick(), timeout("1.1.1.1"));
    }
    // Loss obviously goes bad...
    assert_eq!(s.panel_health(MetricId::Loss), Health::Crit);
    // ...and latency must not keep reporting the stale last-good RTT as healthy.
    assert!(
        s.panel_health(MetricId::Latency) > Health::Good,
        "a timed-out ping is not a healthy latency"
    );
}

#[test]
fn healthy_latency_produces_no_incidents() {
    let mut s = AppState::new(test_config());
    let mut c = Clock::new();
    for _ in 0..5 {
        let inc = s.apply_sample(c.tick(), latency("1.1.1.1", r(12.0)));
        assert!(inc.is_empty());
    }
    assert_eq!(s.panel_health(MetricId::Latency), Health::Good);
}

#[test]
fn single_spike_is_debounced_away() {
    let mut s = AppState::new(test_config());
    let mut c = Clock::new();
    s.apply_sample(c.tick(), latency("1.1.1.1", r(12.0)));
    let inc = s.apply_sample(c.tick(), latency("1.1.1.1", r(400.0))); // one spike
    assert!(
        inc.is_empty(),
        "one spike should not commit with debounce 2"
    );
    assert_eq!(s.panel_health(MetricId::Latency), Health::Good);
}

#[test]
fn sustained_high_latency_emits_crit_incident() {
    let mut s = AppState::new(test_config());
    let mut c = Clock::new();
    let first = s.apply_sample(c.tick(), latency("1.1.1.1", r(400.0)));
    assert!(first.is_empty(), "not yet committed");
    let second = s.apply_sample(c.tick(), latency("1.1.1.1", r(410.0)));
    assert_eq!(second.len(), 1);
    let inc = &second[0];
    assert_eq!(inc.metric, MetricId::Latency);
    assert_eq!(inc.severity, Health::Crit);
    assert_eq!(inc.target.as_deref(), Some("1.1.1.1"));
    assert_eq!(inc.value, Some(r(410.0)));
    assert_eq!(inc.threshold, Some(r(150.0))); // crit boundary
    assert_eq!(s.panel_health(MetricId::Latency), Health::Crit);
    assert_eq!(s.events.len(), 1); // mirrored into the ring
}

#[test]
fn latency_recovery_emits_ok_incident() {
    let mut s = AppState::new(test_config());
    let mut c = Clock::new();
    s.apply_sample(c.tick(), latency("1.1.1.1", r(400.0)));
    s.apply_sample(c.tick(), latency("1.1.1.1", r(410.0))); // -> Crit
    s.apply_sample(c.tick(), latency("1.1.1.1", r(10.0)));
    let rec = s.apply_sample(c.tick(), latency("1.1.1.1", r(11.0))); // -> Ok
    assert_eq!(rec.len(), 1);
    assert_eq!(rec[0].severity, Health::Good);
    assert_eq!(s.panel_health(MetricId::Latency), Health::Good);
}

// --- root-cause attribution ---

/// Config with a gateway registered, so faults can be localized to the LAN.
fn gateway_config() -> Config {
    let mut c = test_config();
    c.targets.gateway = Some("192.168.1.1".into());
    c.targets.gateway_auto = false;
    c
}

fn dns_timeout(resolver: &str) -> Sample {
    Sample::Dns {
        resolver: resolver.into(),
        answer: Answer::Silence,
    }
}

#[test]
fn a_dns_failure_behind_a_dead_gateway_is_marked_as_downstream() {
    let mut s = AppState::new(gateway_config());
    let mut c = Clock::new();
    for _ in 0..3 {
        s.apply_sample(c.tick(), timeout("192.168.1.1"));
    }
    assert_eq!(network_dash::diagnosis::primary_layer(&s), Some(Layer::Gateway));

    let mut raised = Vec::new();
    for _ in 0..3 {
        raised.extend(s.apply_sample(c.tick(), dns_timeout("system")));
    }
    let dns = raised
        .iter()
        .find(|i| i.metric == MetricId::Dns && i.severity > Health::Good)
        .expect("a failing resolver must still be logged");
    assert_eq!(
        dns.cause,
        Some(Layer::Gateway),
        "DNS can't work through a dead gateway — this is an echo, not a second fault"
    );
}

#[test]
fn the_root_cause_itself_is_never_marked_as_downstream() {
    let mut s = AppState::new(gateway_config());
    let mut c = Clock::new();
    let mut raised = Vec::new();
    for _ in 0..3 {
        raised.extend(s.apply_sample(c.tick(), timeout("192.168.1.1")));
    }
    assert!(
        !raised.is_empty(),
        "the gateway going down must be reported"
    );
    for inc in &raised {
        assert_eq!(
            inc.cause, None,
            "the fault to fix must not be dimmed: {inc:?}"
        );
    }
}

#[test]
fn a_dns_failure_on_an_otherwise_healthy_network_stands_on_its_own() {
    let mut s = AppState::new(gateway_config());
    let mut c = Clock::new();
    for _ in 0..3 {
        s.apply_sample(c.tick(), latency("192.168.1.1", r(2.0)));
        s.apply_sample(c.tick(), latency("1.1.1.1", r(20.0)));
    }
    let mut raised = Vec::new();
    for _ in 0..3 {
        raised.extend(s.apply_sample(c.tick(), dns_timeout("system")));
    }
    let dns = raised
        .iter()
        .find(|i| i.metric == MetricId::Dns)
        .expect("a failing resolver must be logged");
    assert_eq!(dns.cause, None, "nothing upstream is broken: {dns:?}");
}

#[test]
fn internet_latency_is_not_dimmed_by_the_verdict_it_is_the_evidence_for() {
    // All internet hosts degrade -> the diagnosis blames the ISP. The pings that proved
    // it must stay legible; dimming them hides the only numbers on screen.
    let mut cfg = gateway_config();
    cfg.targets.internet = vec!["1.1.1.1".into(), "8.8.8.8".into()];
    let mut s = AppState::new(cfg);
    let mut c = Clock::new();
    let mut raised = Vec::new();
    for _ in 0..3 {
        s.apply_sample(c.tick(), latency("192.168.1.1", r(2.0)));
        raised.extend(s.apply_sample(c.tick(), latency("1.1.1.1", r(400.0))));
        raised.extend(s.apply_sample(c.tick(), latency("8.8.8.8", r(400.0))));
    }
    assert!(!raised.is_empty());
    for inc in &raised {
        assert_eq!(inc.cause, None, "{inc:?}");
    }
}

#[test]
fn a_recovery_is_never_attributed_to_an_upstream_fault() {
    let mut s = AppState::new(gateway_config());
    let mut c = Clock::new();
    // DNS fails, then comes back, all while the gateway stays down.
    for _ in 0..3 {
        s.apply_sample(c.tick(), timeout("192.168.1.1"));
        s.apply_sample(c.tick(), dns_timeout("system"));
    }
    let mut raised = Vec::new();
    for _ in 0..3 {
        s.apply_sample(c.tick(), timeout("192.168.1.1"));
        raised.extend(s.apply_sample(
            c.tick(),
            Sample::Dns {
                resolver: "system".into(),
                answer: Answer::Addresses(r(12.0)),
            },
        ));
    }
    let rec = raised
        .iter()
        .find(|i| i.metric == MetricId::Dns && i.severity == Health::Good)
        .expect("DNS coming back must be reported");
    assert_eq!(
        rec.cause, None,
        "a metric recovering is its own news, whatever else is broken"
    );
}

// --- alert noise ---

/// Feed `n` samples of `make`, collecting whatever they raise.
fn drive(
    s: &mut AppState,
    c: &mut Clock,
    n: usize,
    make: impl Fn() -> Sample,
) -> Vec<Incident> {
    (0..n)
        .flat_map(|_| s.apply_sample(c.tick(), make()))
        .collect()
}

/// A config whose flap detector trips on 4 swings in 10s — the same shape as the
/// defaults, scaled to the 1s-per-sample test [`Clock`].
fn flappy_config() -> Config {
    let mut c = test_config();
    c.alerts.flap_count = 4;
    c.alerts.flap_window_secs = r(10.0);
    c.alerts.dedup_secs = r(0.0);
    c
}

/// Swing latency bad→good `cycles` times; each half commits one transition.
fn swing(s: &mut AppState, c: &mut Clock, cycles: usize) -> Vec<Incident> {
    let mut out = Vec::new();
    for _ in 0..cycles {
        out.extend(drive(s, c, 2, || latency("1.1.1.1", r(400.0))));
        out.extend(drive(s, c, 2, || latency("1.1.1.1", r(10.0))));
    }
    out
}

#[test]
fn a_metric_that_keeps_changing_its_mind_is_reported_unstable_once() {
    let mut s = AppState::new(flappy_config());
    let mut c = Clock::new();
    let raised = swing(&mut s, &mut c, 6);
    let flapping: Vec<_> = raised
        .iter()
        .filter(|i| i.message.contains("flapping"))
        .collect();
    assert_eq!(flapping.len(), 1, "say it once, not per swing: {raised:#?}");
    assert_eq!(
        raised.len(),
        4,
        "three real swings, then one 'this is unstable' standing in for the other nine: \
         {raised:#?}"
    );
    assert_eq!(flapping[0].metric, MetricId::Latency);
    assert_eq!(flapping[0].target.as_deref(), Some("1.1.1.1"));
}

#[test]
fn a_settled_metric_reports_where_it_actually_landed() {
    let mut s = AppState::new(flappy_config());
    let mut c = Clock::new();
    swing(&mut s, &mut c, 6);
    // Leave it bad, then go quiet for longer than the flap window.
    let tail = drive(&mut s, &mut c, 14, || latency("1.1.1.1", r(400.0)));
    assert_eq!(tail.len(), 1, "one line closes it out: {tail:#?}");
    assert_eq!(
        tail[0].severity,
        Health::Crit,
        "the noise stopped with latency still broken; saying 'ok' would be a lie: {:?}",
        tail[0]
    );
    assert!(
        tail[0].message.contains("settled"),
        "explain why this line is appearing now: {:?}",
        tail[0]
    );
}

#[test]
fn a_metric_that_settles_can_be_reported_normally_again() {
    let mut s = AppState::new(flappy_config());
    let mut c = Clock::new();
    swing(&mut s, &mut c, 6);
    drive(&mut s, &mut c, 14, || latency("1.1.1.1", r(10.0))); // quiet, healthy
    let again = drive(&mut s, &mut c, 2, || latency("1.1.1.1", r(400.0)));
    assert_eq!(
        again.len(),
        1,
        "suppression must not be permanent: {again:#?}"
    );
    assert_eq!(again[0].severity, Health::Crit);
    assert!(!again[0].message.contains("flapping"), "{:?}", again[0]);
}

#[test]
fn a_steady_metric_is_never_called_unstable() {
    let mut s = AppState::new(flappy_config());
    let mut c = Clock::new();
    // One clean break, then a long healthy stretch: two transitions, well spread.
    let mut raised = drive(&mut s, &mut c, 4, || latency("1.1.1.1", r(400.0)));
    raised.extend(drive(&mut s, &mut c, 30, || latency("1.1.1.1", r(10.0))));
    assert!(
        raised.iter().all(|i| !i.message.contains("flapping")),
        "a link that broke once and recovered is not thrashing: {raised:#?}"
    );
    assert_eq!(raised.len(), 2, "{raised:#?}");
}

#[test]
fn an_identical_alert_inside_the_cooldown_is_dropped() {
    // The dedup backstop works on the incidents themselves, so it can be exercised
    // without a probe that alerts on edges: push the same transition twice.
    let mut cfg = test_config();
    cfg.alerts.dedup_secs = r(10.0);
    cfg.alerts.flap_count = 0; // one mechanism at a time
    let mut s = AppState::new(cfg);
    let t = now();
    let inc = || {
        vec![
            status_incident(t, MetricId::Reachability, "wan", Health::Warn, "x".to_string()),
            status_incident(t, MetricId::Reachability, "wan", Health::Warn, "x".to_string()),
        ]
    };
    let out = s.filter_noise(t, inc());
    assert_eq!(out.len(), 1, "the same news twice is once: {out:#?}");
    // ...and still dropped on a later fold inside the cooldown.
    assert!(
        s.filter_noise(t + seconds(5), inc())
            .is_empty()
    );
    // Past the cooldown it is news again.
    let later = s.filter_noise(t + seconds(11), inc());
    assert_eq!(later.len(), 1, "{later:#?}");
}

#[test]
fn a_single_intercepted_request_does_not_announce_a_captive_portal() {
    let mut s = AppState::new(test_config());
    let mut c = Clock::new();
    let blip = s.apply_sample(c.tick(), Sample::CaptivePortal { detected: true });
    assert!(
        blip.is_empty(),
        "one bad HTTP response is not a portal: {blip:#?}"
    );
    assert!(
        !s.captive_portal,
        "and the diagnosis must not claim one either"
    );
    let confirmed = s.apply_sample(c.tick(), Sample::CaptivePortal { detected: true });
    assert_eq!(
        confirmed.len(),
        1,
        "a portal that persists is real: {confirmed:#?}"
    );
    assert_eq!(confirmed[0].severity, Health::Crit);
    assert!(s.captive_portal);
}

#[test]
fn a_captive_portal_clears_once_the_interception_stops() {
    let mut s = AppState::new(test_config());
    let mut c = Clock::new();
    drive(&mut s, &mut c, 2, || Sample::CaptivePortal {
        detected: true,
    });
    let cleared = drive(&mut s, &mut c, 2, || Sample::CaptivePortal {
        detected: false,
    });
    assert_eq!(cleared.len(), 1, "{cleared:#?}");
    assert_eq!(cleared[0].severity, Health::Good);
    assert!(!s.captive_portal);
}

// --- metric identity ---

#[test]
fn each_concern_is_logged_under_its_own_metric_id() {
    let mut s = AppState::new(test_config());
    let mut c = Clock::new();

    let bloat = drive(&mut s, &mut c, 2, || Sample::Bufferbloat {
        idle_ms: r(10.0),
        loaded_ms: r(400.0),
    });
    assert_eq!(bloat[0].metric, MetricId::Bufferbloat, "{bloat:#?}");

    let portal = drive(&mut s, &mut c, 2, || Sample::CaptivePortal {
        detected: true,
    });
    assert_eq!(portal[0].metric, MetricId::CaptivePortal, "{portal:#?}");

    s.apply_sample(
        c.tick(),
        Sample::PublicIp {
            ip: "1.2.3.4".into(),
        },
    );
    let wan = s.apply_sample(
        c.tick(),
        Sample::PublicIp {
            ip: "5.6.7.8".into(),
        },
    );
    assert_eq!(wan[0].metric, MetricId::PublicIp, "{wan:#?}");

    // Capacity keeps the generic id — it is what "throughput" has always meant.
    let cap = drive(&mut s, &mut c, 2, || Sample::ThroughputProbe { mbps: r(0.5) });
    assert_eq!(cap[0].metric, MetricId::Throughput, "{cap:#?}");
}

#[test]
fn a_split_out_metric_still_colours_the_panel_it_is_drawn_in() {
    let mut s = AppState::new(test_config());
    let mut c = Clock::new();
    drive(&mut s, &mut c, 2, || Sample::Bufferbloat {
        idle_ms: r(10.0),
        loaded_ms: r(400.0),
    });
    drive(&mut s, &mut c, 2, || Sample::CaptivePortal {
        detected: true,
    });

    assert_eq!(
        s.panel_health(MetricId::Bufferbloat),
        s.panel_health(MetricId::Throughput),
        "bufferbloat is drawn in the throughput panel; one border, one verdict"
    );
    assert_eq!(s.panel_health(MetricId::Bufferbloat), Health::Crit);
    assert_eq!(
        s.panel_health(MetricId::CaptivePortal),
        s.panel_health(MetricId::Reachability),
        "the portal is drawn in the link & reachability panel"
    );
}

#[test]
fn a_captive_portal_turns_its_panel_red() {
    let mut s = AppState::new(test_config());
    let mut c = Clock::new();
    assert_eq!(s.panel_health(MetricId::Reachability), Health::Good);
    drive(&mut s, &mut c, 2, || Sample::CaptivePortal {
        detected: true,
    });
    assert_eq!(
        s.panel_health(MetricId::Reachability),
        Health::Crit,
        "a sign-in wall is a total loss of web access; the border must say so"
    );
    assert_eq!(s.overall_health(), Health::Crit);

    drive(&mut s, &mut c, 2, || Sample::CaptivePortal {
        detected: false,
    });
    assert_eq!(s.panel_health(MetricId::Reachability), Health::Good);
}

#[test]
fn a_changed_public_ip_does_not_turn_a_panel_red() {
    let mut s = AppState::new(test_config());
    let mut c = Clock::new();
    s.apply_sample(
        c.tick(),
        Sample::PublicIp {
            ip: "1.2.3.4".into(),
        },
    );
    let wan = s.apply_sample(
        c.tick(),
        Sample::PublicIp {
            ip: "5.6.7.8".into(),
        },
    );
    assert_eq!(wan.len(), 1);
    assert_eq!(
        s.panel_health(MetricId::PublicIp),
        Health::Good,
        "a new address is news, not a fault — nothing is broken"
    );
    assert_eq!(s.overall_health(), Health::Good);
}

#[test]
fn recovery_is_slower_to_commit_than_the_fault_was() {
    let mut cfg = test_config();
    cfg.thresholds.trip_after_secs = r(2.0);
    cfg.thresholds.clear_after_secs = r(10.0);
    let mut s = AppState::new(cfg);
    let mut c = Clock::new();

    // Two seconds of bad latency is enough to report the fault.
    assert!(
        s.apply_sample(c.tick(), latency("1.1.1.1", r(400.0)))
            .is_empty()
    );
    assert!(
        s.apply_sample(c.tick(), latency("1.1.1.1", r(400.0)))
            .is_empty()
    );
    let tripped = s.apply_sample(c.tick(), latency("1.1.1.1", r(400.0)));
    assert_eq!(
        tripped.len(),
        1,
        "reported once the 2s trip dwell has passed"
    );
    assert_eq!(s.panel_health(MetricId::Latency), Health::Crit);

    // The same two seconds of health is *not* enough to call it recovered.
    for _ in 0..3 {
        assert!(
            s.apply_sample(c.tick(), latency("1.1.1.1", r(10.0)))
                .is_empty()
        );
    }
    assert_eq!(
        s.panel_health(MetricId::Latency),
        Health::Crit,
        "a link that is briefly fine mid-flap is not fixed"
    );

    // Ten seconds of it is.
    let mut recovered = Vec::new();
    for _ in 0..8 {
        recovered.extend(s.apply_sample(c.tick(), latency("1.1.1.1", r(10.0))));
    }
    assert_eq!(
        recovered.len(),
        1,
        "recovery reported after the 10s clear dwell"
    );
    assert_eq!(recovered[0].severity, Health::Good);
}

#[test]
fn gateway_uses_stricter_thresholds() {
    let mut c = test_config();
    c.targets.gateway = Some("gw".into());
    let mut s = AppState::new(c);
    let mut c = Clock::new();
    // 20ms is Ok for internet (<80) but Warn for the gateway (>=15).
    s.apply_sample(c.tick(), latency("gw", r(20.0)));
    s.apply_sample(c.tick(), latency("gw", r(21.0)));
    assert_eq!(target(&s, "gw").latency_health_current(), Health::Warn);
}

#[test]
fn sustained_jitter_reddens_latency_panel() {
    let mut c = test_config();
    c.thresholds.jitter = Thresholds::higher_is_worse(r(15.0), r(40.0)); // normal jitter bounds
    let mut s = AppState::new(c);
    let mut c = Clock::new();
    // Oscillate 10/60ms: each latency is Ok (<80) but the swing drives jitter ~50ms.
    s.apply_sample(c.tick(), latency("1.1.1.1", r(10.0)));
    s.apply_sample(c.tick(), latency("1.1.1.1", r(60.0)));
    let third = s.apply_sample(c.tick(), latency("1.1.1.1", r(10.0)));
    let jitter: Vec<_> = third
        .iter()
        .filter(|i| i.metric == MetricId::Jitter)
        .collect();
    assert_eq!(jitter.len(), 1);
    assert_eq!(jitter[0].severity, Health::Crit);
    // The combined Latency & Jitter panel reflects the jitter problem...
    assert_eq!(s.panel_health(MetricId::Latency), Health::Crit);
    // ...even though latency alone is fine.
    assert_eq!(target(&s, "1.1.1.1").latency_health_current(), Health::Good);
}

#[test]
fn sustained_loss_emits_incident() {
    let mut s = AppState::new(test_config()); // loss_window 4 => 1 drop = 25% > crit 5%
    let mut c = Clock::new();
    let a = s.apply_sample(c.tick(), timeout("1.1.1.1"));
    assert!(a.is_empty());
    let b = s.apply_sample(c.tick(), timeout("1.1.1.1"));
    // Sustained timeouts are both a loss problem and a latency problem, so the second
    // drop commits each debouncer and emits one incident for each.
    let loss = b
        .iter()
        .find(|i| i.metric == MetricId::Loss)
        .expect("a loss incident");
    assert_eq!(loss.severity, Health::Crit);
    assert_eq!(s.panel_health(MetricId::Loss), Health::Crit);

    let lat = b
        .iter()
        .find(|i| i.metric == MetricId::Latency)
        .expect("a latency incident");
    assert_eq!(lat.severity, Health::Crit);
    assert!(lat.message.contains("timed out"));
    assert_eq!(b.len(), 2);
}

#[test]
fn overall_health_is_worst_panel() {
    let mut s = AppState::new(test_config());
    let mut c = Clock::new();
    s.apply_sample(c.tick(), timeout("1.1.1.1"));
    s.apply_sample(c.tick(), timeout("1.1.1.1")); // loss -> Crit
    assert_eq!(s.overall_health(), Health::Crit);
}

#[test]
fn actions_mutate_flags() {
    let mut s = AppState::new(test_config());
    assert!(!s.paused);
    s.apply_action(Action::TogglePause);
    assert!(s.paused);
    s.apply_action(Action::TogglePause);
    assert!(!s.paused);

    s.events
        .push_front(Incident::new(
            now(),
            MetricId::Loss,
            Health::Crit,
            "x".into(),
        ));
    s.apply_action(Action::ClearEvents);
    assert!(s.events.is_empty());

    assert!(!s.should_quit);
    s.apply_action(Action::Quit);
    assert!(s.should_quit);
}

#[test]
fn new_resolves_configured_theme() {
    let mut c = test_config();
    c.ui.theme = "cottage_fire".into();
    assert_eq!(AppState::new(c).theme, Theme::resolve("cottage_fire"));
}

#[test]
fn new_falls_back_to_default_theme_for_unknown_name() {
    let mut c = test_config();
    c.ui.theme = "does_not_exist".into();
    assert_eq!(AppState::new(c).theme, Theme::default_theme());
}

#[test]
fn theme_picker_opens_at_current_theme() {
    let mut s = AppState::new(test_config());
    let start = s.theme;
    assert!(s.theme_picker.is_none());
    s.apply_action(Action::OpenThemePicker);
    let p = s.theme_picker.expect("picker should open");
    assert_eq!(
        Theme::names()[p.index],
        start.name,
        "opens at the active theme"
    );
    assert_eq!(s.theme, start, "opening does not change the theme");
}

#[test]
fn theme_picker_preview_changes_theme_live_and_wraps() {
    let mut s = AppState::new(test_config());
    let start = s.theme;
    s.apply_action(Action::OpenThemePicker);
    s.apply_action(Action::ThemePreviewDown);
    assert_eq!(s.theme, start.next(), "down previews the next theme live");
    // Wrap all the way around back to the start.
    for _ in 1..Theme::names().len() {
        s.apply_action(Action::ThemePreviewDown);
    }
    assert_eq!(s.theme, start, "preview wraps back to the start");
    // Step up to the first theme, then once more to confirm Up wraps to the last theme.
    while s.theme.name != Theme::names()[0] {
        s.apply_action(Action::ThemePreviewUp);
    }
    s.apply_action(Action::ThemePreviewUp);
    assert_eq!(
        s.theme.name,
        *Theme::names().last().unwrap(),
        "up from the first theme wraps to the last"
    );
}

#[test]
fn theme_picker_confirm_keeps_preview() {
    let mut s = AppState::new(test_config());
    let start = s.theme;
    s.apply_action(Action::OpenThemePicker);
    s.apply_action(Action::ThemePreviewDown);
    let previewed = s.theme;
    assert_ne!(previewed, start);
    s.apply_action(Action::ThemePickerConfirm);
    assert!(s.theme_picker.is_none(), "confirm closes the picker");
    assert_eq!(s.theme, previewed, "confirm keeps the previewed theme");
}

#[test]
fn theme_picker_cancel_reverts_to_original() {
    let mut s = AppState::new(test_config());
    let start = s.theme;
    s.apply_action(Action::OpenThemePicker);
    s.apply_action(Action::ThemePreviewDown);
    s.apply_action(Action::ThemePreviewDown);
    assert_ne!(s.theme, start);
    s.apply_action(Action::ThemePickerCancel);
    assert!(s.theme_picker.is_none(), "cancel closes the picker");
    assert_eq!(
        s.theme, start,
        "cancel reverts to the theme active before opening"
    );
}

#[test]
fn dns_failure_emits_crit_incident() {
    let mut s = AppState::new(test_config());
    let mut c = Clock::new();
    s.apply_sample(
        c.tick(),
        Sample::Dns {
            resolver: "cloudflare".into(),
            answer: Answer::Silence,
        },
    );
    let out = s.apply_sample(
        c.tick(),
        Sample::Dns {
            resolver: "cloudflare".into(),
            answer: Answer::Silence,
        },
    );
    assert_eq!(out.len(), 1);
    assert_eq!(out[0].metric, MetricId::Dns);
    assert_eq!(out[0].severity, Health::Crit);
    assert!(out[0].message.contains("failed"), "msg: {}", out[0].message);
    assert_eq!(s.panel_health(MetricId::Dns), Health::Crit);
}

#[test]
fn dns_slow_lookup_warns_with_value() {
    let mut s = AppState::new(test_config()); // dns warn 100 / crit 300
    let mut c = Clock::new();
    s.apply_sample(
        c.tick(),
        Sample::Dns {
            resolver: "system".into(),
            answer: Answer::Addresses(r(150.0)),
        },
    );
    let out = s.apply_sample(
        c.tick(),
        Sample::Dns {
            resolver: "system".into(),
            answer: Answer::Addresses(r(160.0)),
        },
    );
    assert_eq!(out.len(), 1);
    assert_eq!(out[0].severity, Health::Warn);
    assert_eq!(out[0].value, Some(r(160.0)));
}

#[test]
fn reachability_down_then_recovers() {
    let mut s = AppState::new(test_config());
    let mut c = Clock::new();
    s.apply_sample(
        c.tick(),
        Sample::Reachability {
            endpoint: "http".into(),
            ok: false,
        },
    );
    let down = s.apply_sample(
        c.tick(),
        Sample::Reachability {
            endpoint: "http".into(),
            ok: false,
        },
    );
    assert_eq!(down.len(), 1);
    assert_eq!(down[0].severity, Health::Crit);
    assert_eq!(s.panel_health(MetricId::Link), Health::Crit); // combined panel

    s.apply_sample(
        c.tick(),
        Sample::Reachability {
            endpoint: "http".into(),
            ok: true,
        },
    );
    let up = s.apply_sample(
        c.tick(),
        Sample::Reachability {
            endpoint: "http".into(),
            ok: true,
        },
    );
    assert_eq!(up.len(), 1);
    assert_eq!(up[0].severity, Health::Good);
}

#[test]
fn captive_portal_sets_state_and_logs_on_change() {
    let mut s = AppState::new(test_config());
    let mut c = Clock::new();
    // First "clear" reading matches the default — no spurious incident.
    assert!(
        s.apply_sample(c.tick(), Sample::CaptivePortal { detected: false })
            .is_empty()
    );
    assert!(!s.captive_portal);

    // A portal that persists past the trip dwell flips the state and logs a crit.
    let hit = drive(&mut s, &mut c, 2, || Sample::CaptivePortal {
        detected: true,
    });
    assert!(s.captive_portal);
    assert_eq!(hit.len(), 1);
    assert_eq!(hit[0].severity, Health::Crit);

    // Steady portal readings after that do not re-log.
    assert!(
        drive(&mut s, &mut c, 3, || Sample::CaptivePortal {
            detected: true
        })
        .is_empty()
    );

    // Clearing flips back and logs recovery.
    let cleared = drive(&mut s, &mut c, 2, || Sample::CaptivePortal {
        detected: false,
    });
    assert!(!s.captive_portal);
    assert_eq!(cleared.len(), 1);
    assert_eq!(cleared[0].severity, Health::Good);
}

#[test]
fn public_ip_change_is_logged_but_first_sight_is_silent() {
    let mut s = AppState::new(test_config());
    let mut c = Clock::new();
    // First observation just records the IP — no incident.
    assert!(
        s.apply_sample(
            c.tick(),
            Sample::PublicIp {
                ip: "1.2.3.4".into()
            }
        )
        .is_empty()
    );
    assert_eq!(s.public_ip.as_deref(), Some("1.2.3.4"));
    // Same IP again — still silent.
    assert!(
        s.apply_sample(
            c.tick(),
            Sample::PublicIp {
                ip: "1.2.3.4".into()
            }
        )
        .is_empty()
    );
    // A change is logged (WAN flap / failover / CGNAT shuffle).
    let out = s.apply_sample(
        c.tick(),
        Sample::PublicIp {
            ip: "5.6.7.8".into(),
        },
    );
    assert_eq!(out.len(), 1);
    assert_eq!(out[0].severity, Health::Warn);
    assert_eq!(s.public_ip.as_deref(), Some("5.6.7.8"));
}

#[test]
fn bufferbloat_over_threshold_warns() {
    let mut s = AppState::new(test_config()); // bufferbloat warn 100 / crit 300 ms
    let mut c = Clock::new();
    // +150 ms under load → Warn once debounced.
    let sample = Sample::Bufferbloat {
        idle_ms: r(20.0),
        loaded_ms: r(170.0),
    };
    s.apply_sample(c.tick(), sample.clone());
    let out = s.apply_sample(c.tick(), sample);
    assert_eq!(out.len(), 1);
    assert_eq!(out[0].severity, Health::Warn);
    assert_eq!(s.throughput.loaded_latency_ms, Some(r(170.0)));
}

#[test]
fn bufferbloat_crit_reddens_the_throughput_panel() {
    let mut s = AppState::new(test_config()); // bufferbloat warn 100 / crit 300 ms
    let mut c = Clock::new();
    // +380 ms under load → Crit once debounced.
    let sample = Sample::Bufferbloat {
        idle_ms: r(20.0),
        loaded_ms: r(400.0),
    };
    s.apply_sample(c.tick(), sample.clone());
    let out = s.apply_sample(c.tick(), sample);
    assert_eq!(out.len(), 1);
    assert_eq!(out[0].severity, Health::Crit);
    // The incident is worthless if the panel it belongs to still looks healthy.
    assert_eq!(s.panel_health(MetricId::Throughput), Health::Crit);
}

#[test]
fn route_info_populates_interface_mtu_and_vpn() {
    let mut s = AppState::new(test_config());
    s.apply_route_info(&network_dash::net::RouteInfo {
        gateway: Some("10.8.0.1".into()),
        interface: Some("utun3".into()),
        mtu: Some(1400),
    });
    assert_eq!(s.interface.as_deref(), Some("utun3"));
    assert_eq!(s.mtu, Some(1400));
    assert!(s.vpn, "utun3 default route should mark VPN active");
}

#[test]
fn throughput_passive_fills_series_without_incident() {
    let mut s = AppState::new(test_config());
    let mut c = Clock::new();
    let out = s.apply_sample(
        c.tick(),
        Sample::Throughput {
            rx_bps: r(1000.0),
            tx_bps: r(200.0),
        },
    );
    assert!(out.is_empty());
    assert_eq!(s.throughput.rx_bps.as_ref().unwrap().latest(), Some(r(1000.0)));
    assert_eq!(s.throughput.tx_bps.as_ref().unwrap().latest(), Some(r(200.0)));
}

#[test]
fn throughput_probe_below_floor_warns() {
    let mut c = test_config();
    c.thresholds.throughput = Thresholds::lower_is_worse(r(100.0), r(25.0));
    let mut s = AppState::new(c);
    let mut c = Clock::new();
    s.apply_sample(c.tick(), Sample::ThroughputProbe { mbps: r(50.0) });
    let out = s.apply_sample(c.tick(), Sample::ThroughputProbe { mbps: r(40.0) });
    assert_eq!(out.len(), 1);
    assert_eq!(out[0].severity, Health::Warn);
    assert_eq!(out[0].value, Some(r(40.0)));
    assert_eq!(out[0].threshold, Some(r(100.0)));
    assert_eq!(s.throughput.last_mbps, Some(r(40.0)));
}

#[test]
fn throughput_far_below_floor_is_crit() {
    let mut c = test_config();
    c.thresholds.throughput = Thresholds::lower_is_worse(r(100.0), r(25.0));
    let mut s = AppState::new(c);
    let mut c = Clock::new();
    // 4 Mbps on a link expected to do 100 is not a "warning", it is unusable.
    s.apply_sample(c.tick(), Sample::ThroughputProbe { mbps: r(5.0) });
    let out = s.apply_sample(c.tick(), Sample::ThroughputProbe { mbps: r(4.0) });
    assert_eq!(out.len(), 1);
    assert_eq!(out[0].severity, Health::Crit);
    assert_eq!(out[0].value, Some(r(4.0)));
    // The reported threshold must be the one actually crossed, not the warn bound.
    assert_eq!(out[0].threshold, Some(r(25.0)));
    assert_eq!(s.panel_health(MetricId::Throughput), Health::Crit);
}

#[test]
fn link_weak_rssi_warns_and_keeps_ssid() {
    let mut s = AppState::new(test_config()); // rssi warn -70 / crit -80 (lower is worse)
    let mut c = Clock::new();
    s.apply_sample(
        c.tick(),
        Sample::Link {
            rssi_dbm: Some(-r(75.0)),
            noise_dbm: None,
            tx_rate: None,
            ssid: Some("MyNet".into()),
        },
    );
    let out = s.apply_sample(
        c.tick(),
        Sample::Link {
            rssi_dbm: Some(-r(76.0)),
            noise_dbm: None,
            tx_rate: None,
            ssid: None,
        },
    );
    assert_eq!(out.len(), 1);
    assert_eq!(out[0].metric, MetricId::Link);
    assert_eq!(out[0].severity, Health::Warn);
    assert_eq!(s.link.ssid.as_deref(), Some("MyNet"));
    assert_eq!(s.link.rssi_dbm, Some(-r(76.0)));
}

#[test]
fn routing_unreachable_is_crit() {
    let mut s = AppState::new(test_config());
    let mut c = Clock::new();
    let r = Sample::Routing {
        target: "1.1.1.1".into(),
        hops: 0,
        reachable: false,
        changed: false,
        detail: vec![],
    };
    s.apply_sample(c.tick(), r.clone());
    let out = s.apply_sample(c.tick(), r);
    assert_eq!(out.len(), 1);
    assert_eq!(out[0].severity, Health::Crit);
    assert_eq!(s.panel_health(MetricId::Routing), Health::Crit);
}

#[test]
fn routing_change_warns() {
    let mut s = AppState::new(test_config());
    let mut c = Clock::new();
    s.apply_sample(
        c.tick(),
        Sample::Routing {
            target: "t".into(),
            hops: 8,
            reachable: true,
            changed: true,
            detail: vec![],
        },
    );
    let out = s.apply_sample(
        c.tick(),
        Sample::Routing {
            target: "t".into(),
            hops: 9,
            reachable: true,
            changed: true,
            detail: vec![],
        },
    );
    assert_eq!(out.len(), 1);
    assert_eq!(out[0].severity, Health::Warn);
}

#[test]
fn help_toggles_and_clear_resets_scroll() {
    let mut s = AppState::new(test_config());
    assert!(!s.show_help);
    s.apply_action(Action::ToggleHelp);
    assert!(s.show_help);
    s.apply_action(Action::ToggleHelp);
    assert!(!s.show_help);

    // Scrolling is clamped to the number of events (can't scroll an empty feed).
    s.apply_action(Action::ScrollUp);
    assert_eq!(s.events_scroll, 0, "no events → no scroll");
}

#[test]
fn scroll_is_bounded_by_event_count() {
    let mut s = AppState::new(test_config());
    let mut c = Clock::new();
    // Generate a few incidents (loss crit transitions).
    for _ in 0..3 {
        s.apply_sample(c.tick(), timeout("1.1.1.1"));
    }
    assert!(!s.events.is_empty());
    // Scroll far past the end — clamps to len-1, and never underflows.
    for _ in 0..50 {
        s.apply_action(Action::ScrollUp);
    }
    assert_eq!(s.events_scroll, s.events.len() - 1);
    for _ in 0..50 {
        s.apply_action(Action::ScrollDown);
    }
    assert_eq!(s.events_scroll, 0);
}

#[test]
fn events_ring_is_capped() {
    let mut s = AppState::new(test_config());
    let mut c = Clock::new();
    s.max_events = 3;
    for _ in 0..10 {
        // alternate crit/ok on loss to keep generating transitions
        s.apply_sample(c.tick(), timeout("1.1.1.1"));
        s.apply_sample(c.tick(), timeout("1.1.1.1"));
        s.apply_sample(c.tick(), latency("1.1.1.1", r(5.0)));
        s.apply_sample(c.tick(), latency("1.1.1.1", r(5.0)));
    }
    assert!(
        s.events.len() <= 3,
        "events ring exceeded cap: {}",
        s.events.len()
    );
}

#[test]
fn log_write_failure_surfaces_once() {
    let mut s = AppState::new(test_config());
    s.note_log_error(now(), "no space left on device");
    s.note_log_error(now(), "no space left on device");
    s.note_log_error(now(), "still broken");

    assert_eq!(
        s.log_error.as_deref(),
        Some("no space left on device"),
        "the first failure is the diagnostic one"
    );
    let reports: Vec<_> = s
        .events
        .iter()
        .filter(|e| e.metric == MetricId::Log)
        .collect();
    assert_eq!(
        reports.len(),
        1,
        "one self-report, not one per failed write — otherwise a broken disk floods \
         the feed and buries the network events it is there to show"
    );
    assert_eq!(reports[0].severity, Health::Warn);
    assert!(
        reports[0].message.contains("no space left on device"),
        "got: {}",
        reports[0].message
    );
}

#[test]
fn only_the_pinged_targets_are_kept() {
    let mut config = Config::default();
    config.targets.internet = vec!["8.8.8.8".into(), "1.1.1.1".into(), "9.9.9.9".into()];
    let mut state = AppState::new(config);
    state.retain_targets(&vec!["1.1.1.1".into(), "9.9.9.9".into(), "4.4.4.4".into()]);
    let left: Vec<&str> = (0..state.targets.len()).map(|i| state.targets.key_at(i).as_str()).collect();
    assert_eq!(left, ["1.1.1.1", "9.9.9.9"]);
}

#[test]
fn what_is_logged_is_on_top_of_the_feed() {
    let mut s = AppState::new(test_config());
    let mut c = Clock::new();
    let mut logged = Vec::new();
    for ms in [400.0, 410.0, 10.0, 11.0] {
        let out = s.apply_sample(c.tick(), latency("1.1.1.1", r(ms)));
        for (i, inc) in out.iter().rev().enumerate() {
            assert_eq!(&s.events[i], inc);
        }
        logged.extend(out);
    }
    assert_eq!(logged.len(), 2);
    assert_eq!(s.events[0].severity, Health::Good);
    assert_eq!(s.events[1].severity, Health::Crit);
}

#[test]
fn the_cooldown_forgets_alerts_that_can_silence_nothing() {
    let mut s = AppState::new(Config::default());
    let inc = |at: i64| {
        status_incident(at, MetricId::Dns, "system", Health::Crit, "down".to_string())
    };
    let start = now();
    assert_eq!(s.filter_noise(start, vec![inc(start)]).len(), 1);
    assert_eq!(s.recent_alerts.len(), 1);
    let soon = start + seconds(9);
    assert!(s.filter_noise(soon, vec![inc(soon)]).is_empty());
    let later = start + seconds(10);
    assert!(s.filter_noise(later, vec![]).is_empty());
    assert_eq!(s.recent_alerts.len(), 0);
    assert_eq!(s.filter_noise(later, vec![inc(later)]).len(), 1);
}
