//! Keys, inputs and the one-shot summary.

use network_dash::app::actions::Action;
use network_dash::config::Config;
use network_dash::event::{
    demo_sample, map_key, probe_timeout, start, step, summary_lines, target_names, Input, Key,
    KeyCode,
};
use network_dash::health::Health;
use network_dash::metrics::dns::Answer;
use network_dash::metrics::Sample;
use network_dash::net::RouteInfo;

/// A reading.
fn r(v: f64) -> i64 {
    (v * 1e9).round() as i64
}

fn key(code: KeyCode) -> Key {
    Key { code, ctrl: false }
}

#[test]
fn q_and_esc_quit() {
    assert_eq!(map_key(key(KeyCode::Char('q'))), Some(Action::Quit));
    assert_eq!(map_key(key(KeyCode::Esc)), Some(Action::Quit));
}

#[test]
fn control_keys_map() {
    assert_eq!(map_key(key(KeyCode::Char('p'))), Some(Action::TogglePause));
    assert_eq!(map_key(key(KeyCode::Char('c'))), Some(Action::ClearEvents));
    assert_eq!(map_key(key(KeyCode::Char('r'))), Some(Action::ForceRefresh));
    assert_eq!(map_key(key(KeyCode::Char('t'))), Some(Action::CycleTheme));
}

#[test]
fn help_and_scroll_keys_map() {
    assert_eq!(map_key(key(KeyCode::Char('?'))), Some(Action::ToggleHelp));
    assert_eq!(map_key(key(KeyCode::Up)), Some(Action::ScrollUp));
    assert_eq!(map_key(key(KeyCode::Char('k'))), Some(Action::ScrollUp));
    assert_eq!(map_key(key(KeyCode::Down)), Some(Action::ScrollDown));
    assert_eq!(map_key(key(KeyCode::Char('j'))), Some(Action::ScrollDown));
    assert_eq!(map_key(key(KeyCode::PageUp)), Some(Action::ScrollPageUp));
    assert_eq!(
        map_key(key(KeyCode::PageDown)),
        Some(Action::ScrollPageDown)
    );
}

#[test]
fn unbound_key_is_none() {
    assert_eq!(map_key(key(KeyCode::Char('x'))), None);
}

#[test]
fn ctrl_c_quits() {
    let k = Key {
        code: KeyCode::Char('c'),
        ctrl: true,
    };
    assert_eq!(map_key(k), Some(Action::Quit));
}

fn route() -> RouteInfo {
    RouteInfo {
        gateway: Some("192.168.1.1".into()),
        interface: Some("en0".into()),
        mtu: Some(1500),
    }
}

#[test]
fn a_detected_gateway_becomes_a_ping_target() {
    let mut c = Config::default();
    c.targets.internet = vec!["1.1.1.1".into()];
    let s = start(c.clone(), Some(route()));
    assert_eq!(target_names(&s), vec!["1.1.1.1", "192.168.1.1"]);
    assert_eq!(s.interface.as_deref(), Some("en0"));
    assert_eq!(s.mtu, Some(1500));
    assert!(!s.vpn);
    // Not where one is configured, nor where detection is off, nor where nothing was found.
    c.targets.gateway = Some("10.0.0.1".into());
    let s = start(c.clone(), Some(route()));
    assert_eq!(target_names(&s), vec!["1.1.1.1", "10.0.0.1"]);
    c.targets.gateway = None;
    c.targets.gateway_auto = false;
    assert_eq!(
        target_names(&start(c.clone(), Some(route()))),
        vec!["1.1.1.1"]
    );
    c.targets.gateway_auto = true;
    assert_eq!(target_names(&start(c, None)), vec!["1.1.1.1"]);
}

fn timeout(now: i64) -> Input {
    Input::Reading {
        now,
        sample: Sample::Latency {
            target: "1.1.1.1".into(),
            rtt_ms: None,
        },
    }
}

#[test]
fn a_paused_dashboard_takes_no_readings() {
    let mut c = Config::default();
    c.thresholds.trip_after_secs = 0;
    let mut s = start(c, None);
    step(&mut s, Input::Press { key: key(KeyCode::Char('p')) });
    assert!(step(&mut s, timeout(0)).is_empty());
    assert_eq!(s.overall_health(), Health::Good);
    assert_eq!(s.availability.len(), 0);
    step(&mut s, Input::Press { key: key(KeyCode::Char('p')) });
    assert!(!step(&mut s, timeout(0)).is_empty());
    assert_eq!(s.overall_health(), Health::Crit);
}

#[test]
fn drawing_keeps_the_strip_going() {
    let mut s = start(Config::default(), None);
    assert!(step(&mut s, Input::Render { now: 0 }).is_empty());
    assert!(step(&mut s, Input::Render { now: 61_000_000_000 }).is_empty());
    assert_eq!(s.availability.len(), 2);
    assert!(step(&mut s, Input::Press { key: key(KeyCode::Esc) }).is_empty());
    assert!(s.should_quit);
}

#[test]
fn the_summary_lists_health_verdicts_and_readings() {
    let mut c = Config::default();
    c.targets.internet = vec!["1.1.1.1".into()];
    c.thresholds.trip_after_secs = 0;
    let mut s = start(c, None);
    for sample in [
        Sample::Latency {
            target: "1.1.1.1".into(),
            rtt_ms: Some(r(12.4)),
        },
        Sample::Dns {
            resolver: "google".into(),
            answer: Answer::Silence,
        },
        Sample::Dns {
            resolver: "system".into(),
            answer: Answer::Addresses(r(8.0)),
        },
    ] {
        step(&mut s, Input::Reading { now: 0, sample });
    }
    assert_eq!(
        summary_lines(&s),
        vec![
            "NetPulse — one-shot probe  (overall: CRIT)",
            "  diag [DNS] DNS resolution is failing while connectivity is fine",
            "  latency      OK",
            "  loss         OK",
            "  dns          CRIT",
            "  routing      OK",
            "  throughput   OK",
            "  link         OK",
            "  ping 1.1.1.1          12ms  loss 0%",
            "  dns  google           FAIL",
            "  dns  system           8ms",
        ]
    );
    let healthy = summary_lines(&start(Config::default(), None));
    assert_eq!(healthy[0], "NetPulse — one-shot probe  (overall: OK)");
    assert_eq!(healthy[1], "  diag [ok] No problems detected");
}

#[test]
fn a_probe_never_outlasts_its_interval() {
    assert_eq!(probe_timeout(900, 1_000), 900);
    assert_eq!(probe_timeout(900, 500), 500);
}

#[test]
fn the_demo_drops_and_spikes_now_and_then() {
    let rtt = |round: u64, i: usize| match demo_sample("x".into(), round, i, r(3.0)) {
        Sample::Latency { rtt_ms, .. } => rtt_ms,
        _ => panic!("expected a latency sample"),
    };
    assert_eq!(rtt(1, 0), Some(r(13.0)));
    assert_eq!(rtt(1, 2), Some(r(25.0)));
    assert_eq!(rtt(53, 0), None);
    assert_eq!(rtt(36, 1), Some(r(239.0)));
}
