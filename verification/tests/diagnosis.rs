//! The ruleset, and what it makes of a real state.

use chrono::TimeZone;
use network_dash::app::AppState;
use network_dash::config::Config;
use network_dash::diagnosis::{diagnose, diagnose_signals, primary_of, Diagnosis, Layer, Signals};
use network_dash::health::Health;
use network_dash::metrics::dns::{Answer, Integrity};
use network_dash::metrics::Sample;

/// A reading.
fn r(v: f64) -> i64 {
    (v * 1e9).round() as i64
}

/// An instant.
fn at(y: i32, mo: u32, d: u32, h: u32, mi: u32, s: u32) -> i64 {
    chrono::Utc
        .with_ymd_and_hms(y, mo, d, h, mi, s)
        .unwrap()
        .timestamp_nanos_opt()
        .unwrap()
}

fn healthy() -> Signals {
    Signals::default()
}

fn top(s: &Signals) -> Diagnosis {
    diagnose_signals(s).into_iter().next().unwrap()
}

#[test]
fn all_healthy_reports_no_problems() {
    let d = diagnose_signals(&healthy());
    assert_eq!(d.len(), 1);
    assert_eq!(d[0].layer, None);
    assert_eq!(d[0].severity, Health::Good);
    assert_eq!(d[0].headline, "No problems detected");
}

/// Every state the header can call unhealthy must be a state the diagnosis panel can
/// explain. Otherwise the banner says PROBLEM while the panel directly beneath it says
/// "No problems detected", and the user is left to decide which half to believe.
#[test]
fn the_header_never_claims_worse_than_the_diagnosis_can_explain() {
    let mut cfg = Config::default();
    cfg.thresholds.trip_after_secs = r(0.0);
    cfg.thresholds.clear_after_secs = r(0.0);
    let now = at(2026, 7, 20, 12, 0, 0);

    let faults: Vec<(&str, Vec<Sample>)> = vec![
        (
            "one endpoint unreachable while the others answer",
            vec![
                Sample::Reachability {
                    endpoint: "https".into(),
                    ok: true,
                },
                Sample::Reachability {
                    endpoint: "ipv6".into(),
                    ok: false,
                },
            ],
        ),
        (
            "a port that will not open",
            vec![Sample::TcpHandshake {
                endpoint: "cloudflare".into(),
                connect_ms: None,
            }],
        ),
        (
            "a negotiation that never completes",
            vec![Sample::Tls {
                endpoint: "cloudflare".into(),
                handshake_ms: None,
                expires_in_days: None,
            }],
        ),
        (
            "a certificate about to expire",
            vec![Sample::Tls {
                endpoint: "cloudflare".into(),
                handshake_ms: Some(r(20.0)),
                expires_in_days: Some(1),
            }],
        ),
        (
            "a resolver answering for names it does not own",
            vec![Sample::DnsIntegrity {
                resolver: "system".into(),
                verdict: Integrity::Hijacked,
            }],
        ),
        (
            "something on the network answering in a resolver's place",
            vec![Sample::DnsIntegrity {
                resolver: "cloudflare".into(),
                verdict: Integrity::Forged,
            }],
        ),
    ];

    for (what, samples) in faults {
        let mut state = AppState::new(cfg.clone());
        for sample in samples {
            state.apply_sample(now, sample);
        }
        let worst = diagnose(&state)
            .iter()
            .map(|d| d.severity)
            .max()
            .expect("diagnose is never empty");
        assert_eq!(
            worst,
            state.overall_health(),
            "the header and the diagnosis disagree about {what}"
        );
    }
}

#[test]
fn a_refused_handshake_is_explained_rather_than_left_to_the_header() {
    let s = Signals {
        transport: Health::Crit,
        transport_failed: vec!["cloudflare".into()],
        ..healthy()
    };
    let t = top(&s);
    assert_eq!(t.layer, Some(Layer::Isp));
    assert_eq!(t.severity, Health::Crit);
    assert!(
        t.evidence.iter().any(|e| e.contains("cloudflare")),
        "the verdict should name what failed: {t:?}"
    );
}

// Interception is most convincing when every other signal is perfect, so this rule must
// not be gated on something else already being wrong.
#[test]
fn a_forged_resolver_is_explained_on_an_otherwise_perfect_network() {
    let s = Signals {
        dns_integrity: Health::Warn,
        dns_forged: vec!["cloudflare".into(), "google".into()],
        ..healthy()
    };
    let t = top(&s);
    assert_eq!(t.layer, Some(Layer::Dns));
    assert_eq!(t.severity, Health::Warn);
    assert!(
        t.evidence.iter().any(|e| e.contains("cloudflare")),
        "the verdict must name who is being answered for: {t:?}"
    );
    assert!(
        t.headline.to_lowercase().contains("in place of"),
        "a forgery is somebody else answering, not the resolver misbehaving: {t:?}"
    );
}

#[test]
fn a_hijacking_resolver_is_blamed_rather_than_the_network() {
    let s = Signals {
        dns_integrity: Health::Warn,
        dns_hijacked: vec!["system".into()],
        ..healthy()
    };
    let t = top(&s);
    assert_eq!(t.layer, Some(Layer::Dns));
    assert!(
        t.evidence.iter().any(|e| e.contains("system")),
        "name the resolver that is answering: {t:?}"
    );
}

// A resolver whose timing is spotless can still be the one being spoofed — that is the
// normal case, since the middlebox answers faster than the real resolver could.
#[test]
fn perfect_timing_does_not_clear_a_forged_resolver() {
    let s = Signals {
        dns_system: Some(Health::Good),
        dns_public: Health::Good,
        dns_integrity: Health::Warn,
        dns_forged: vec!["cloudflare".into()],
        ..healthy()
    };
    assert_eq!(top(&s).layer, Some(Layer::Dns));
}

#[test]
fn an_expiring_certificate_is_reported_without_blaming_the_network() {
    let s = Signals {
        cert: Health::Warn,
        cert_soonest: Some(("cloudflare".into(), 9)),
        ..healthy()
    };
    let t = top(&s);
    assert_eq!(
        t.layer, None,
        "nothing on the path is broken, so no layer is at fault"
    );
    assert_eq!(t.severity, Health::Warn);
    assert!(t.headline.to_lowercase().contains("certificate"), "{t:?}");
}

#[test]
fn one_dead_endpoint_among_several_is_not_an_outage() {
    let s = Signals {
        reach_bad: 1,
        reach_total: 3,
        ..healthy()
    };
    let t = top(&s);
    assert_eq!(
        t.layer,
        Some(Layer::Remote),
        "the rest of the connection works, so this is one host's problem"
    );
    assert!(
        !t.headline.to_lowercase().contains("outage"),
        "{}",
        t.headline
    );
}

#[test]
fn isp_outage_when_gateway_ok_but_everything_beyond_is_down() {
    let s = Signals {
        internet: Health::Crit,
        internet_bad: 2,
        reach_any_ok: false,
        reach_all_fail: true,
        routing_reachable: false,
        ..healthy()
    };
    let t = top(&s);
    assert_eq!(t.layer, Some(Layer::Isp));
    assert_eq!(t.severity, Health::Crit);
    assert!(
        t.headline.to_lowercase().contains("isp") || t.headline.to_lowercase().contains("wan"),
        "headline should blame the ISP/WAN: {}",
        t.headline
    );
}

#[test]
fn dns_only_failure_is_attributed_to_dns_not_connectivity() {
    // Connectivity fine, only the system resolver failing while public resolvers work.
    let s = Signals {
        dns_system: Some(Health::Crit),
        dns_public: Health::Good,
        ..healthy()
    };
    let t = top(&s);
    assert_eq!(t.layer, Some(Layer::Dns));
    assert!(
        t.headline.to_lowercase().contains("dns"),
        "headline should name DNS: {}",
        t.headline
    );
    assert!(
        t.headline.to_lowercase().contains("configured")
            || t.headline.to_lowercase().contains("public"),
        "should distinguish the configured resolver from public ones: {}",
        t.headline
    );
}

#[test]
fn dns_failure_during_outage_is_suppressed() {
    // Full outage: DNS is failing too, but that's a symptom — don't emit a DNS verdict.
    let s = Signals {
        internet: Health::Crit,
        internet_bad: 2,
        reach_any_ok: false,
        reach_all_fail: true,
        routing_reachable: false,
        dns_system: Some(Health::Crit),
        dns_public: Health::Crit,
        ..healthy()
    };
    let d = diagnose_signals(&s);
    assert!(
        d.iter().all(|x| x.layer != Some(Layer::Dns)),
        "DNS should be suppressed during a full outage: {d:?}"
    );
}

#[test]
fn a_failing_nic_is_blamed_ahead_of_everything_it_breaks() {
    // A card shedding frames looks exactly like a weak radio and a bad gateway from
    // every other probe. It is neither, and replacing the access point won't fix it.
    let d = diagnose_signals(&Signals {
        nic_errors: Health::Crit,
        nic_error_count: Some(42),
        wifi_signal: Health::Warn,
        gateway: Some(Health::Warn),
        ..Default::default()
    });
    let top = d.first().expect("a verdict");
    assert_eq!(top.layer, Some(Layer::Nic));
    assert_eq!(top.severity, Health::Crit);
    assert!(
        top.headline.to_lowercase().contains("interface")
            || top.headline.to_lowercase().contains("nic"),
        "should name the hardware: {}",
        top.headline
    );
    assert_eq!(primary_of(&d), Some(Layer::Nic));
}

#[test]
fn a_clean_nic_is_never_mentioned() {
    let d = diagnose_signals(&Signals {
        nic_errors: Health::Good,
        wifi_signal: Health::Warn,
        ..Default::default()
    });
    assert!(
        d.iter().all(|x| x.layer != Some(Layer::Nic)),
        "nothing to say about a card that works: {d:?}"
    );
}

#[test]
fn captive_portal_is_reported_before_a_generic_outage() {
    // A portal makes reachability fail; without the captive signal this looks like an
    // ISP outage. The dedicated captive verdict should lead and be the only ISP verdict.
    let s = Signals {
        captive: true,
        internet: Health::Crit,
        internet_bad: 2,
        reach_any_ok: false,
        reach_all_fail: true,
        ..healthy()
    };
    let d = diagnose_signals(&s);
    let t = &d[0];
    assert_eq!(t.layer, Some(Layer::Isp));
    assert!(
        t.headline.to_lowercase().contains("captive")
            || t.headline.to_lowercase().contains("sign-in"),
        "should name the captive portal: {}",
        t.headline
    );
    assert_eq!(
        d.iter().filter(|x| x.layer == Some(Layer::Isp)).count(),
        1,
        "the portal alone blames the ISP: {d:?}"
    );
}

#[test]
fn weak_wifi_with_bad_gateway_blames_local_wifi() {
    let s = Signals {
        wifi_signal: Health::Crit,
        rssi_dbm: Some(-r(82.0)),
        gateway: Some(Health::Warn),
        ..healthy()
    };
    let t = top(&s);
    assert_eq!(t.layer, Some(Layer::Wifi));
    assert!(
        t.headline.to_lowercase().contains("wi-fi")
            || t.headline.to_lowercase().contains("wifi"),
        "headline should name Wi-Fi: {}",
        t.headline
    );
}

#[test]
fn good_signal_but_low_snr_is_a_link_quality_problem() {
    // RSSI is fine, but SNR is poor — interference, not a weak signal.
    let s = Signals {
        wifi_signal: Health::Good,
        wifi_quality: Health::Warn,
        rssi_dbm: Some(-r(55.0)),
        snr_db: Some(r(12.0)),
        ..healthy()
    };
    let t = top(&s);
    assert_eq!(t.layer, Some(Layer::Wifi));
    assert!(
        t.headline.to_lowercase().contains("quality")
            || t.headline.to_lowercase().contains("snr")
            || t.headline.to_lowercase().contains("interference"),
        "headline should describe poor link quality: {}",
        t.headline
    );
}

#[test]
fn bad_gateway_with_good_wifi_is_a_gateway_problem() {
    let s = Signals {
        gateway: Some(Health::Crit),
        wifi_signal: Health::Good,
        ..healthy()
    };
    let t = top(&s);
    assert_eq!(t.layer, Some(Layer::Gateway));
}

#[test]
fn bufferbloat_is_reported_even_when_links_are_healthy() {
    let s = Signals {
        bufferbloat: Health::Warn,
        bufferbloat_ms: Some(r(180.0)),
        ..healthy()
    };
    let t = top(&s);
    assert_eq!(t.layer, Some(Layer::Isp));
    assert!(
        t.headline.to_lowercase().contains("bufferbloat")
            || t.headline.to_lowercase().contains("under load")
            || t.headline.to_lowercase().contains("busy"),
        "headline should describe bufferbloat: {}",
        t.headline
    );
}

#[test]
fn one_bad_host_among_many_is_a_remote_problem() {
    let s = Signals {
        internet: Health::Warn,
        internet_total: 2,
        internet_bad: 1,
        worst_internet_host: Some("example.com".into()),
        ..healthy()
    };
    let t = top(&s);
    assert_eq!(t.layer, Some(Layer::Remote));
    assert!(
        t.headline.to_lowercase().contains("host"),
        "headline should mention the host: {}",
        t.headline
    );
}

#[test]
fn verdicts_are_sorted_worst_first() {
    // A weak-Wi-Fi warn plus an ISP-degraded warn plus a DNS crit → DNS crit leads.
    let s = Signals {
        wifi_signal: Health::Warn,
        rssi_dbm: Some(-r(72.0)),
        dns_system: Some(Health::Crit),
        dns_public: Health::Crit,
        ..healthy()
    };
    let d = diagnose_signals(&s);
    assert!(d.len() >= 2, "expected multiple verdicts: {d:?}");
    assert_eq!(d[0].severity, Health::Crit);
    for pair in d.windows(2) {
        assert!(
            pair[0].severity >= pair[1].severity,
            "not worst-first: {d:?}"
        );
    }
}

#[test]
fn primary_layer_is_the_worst_localized_verdict() {
    let s = Signals {
        gateway: Some(Health::Crit),
        ..healthy()
    };
    assert_eq!(primary_of(&diagnose_signals(&s)), Some(Layer::Gateway));
}

#[test]
fn a_healthy_network_blames_nothing() {
    assert_eq!(primary_of(&diagnose_signals(&healthy())), None);
}

// --- integration: from_state projection ---

fn now() -> i64 {
    at(2026, 7, 22, 12, 0, 0)
}

fn integ_config() -> Config {
    let mut c = Config::default();
    c.targets.internet = vec!["1.1.1.1".into()];
    c.targets.gateway = Some("192.168.1.1".into());
    c.targets.gateway_auto = false;
    c.thresholds.trip_after_secs = r(0.0);
    c.thresholds.clear_after_secs = r(0.0);
    c
}

#[test]
fn diagnose_reads_dns_failure_from_real_state() {
    let mut state = AppState::new(integ_config());
    // Healthy pings to both gateway and internet.
    for _ in 0..3 {
        state.apply_sample(
            now(),
            Sample::Latency {
                target: "192.168.1.1".into(),
                rtt_ms: Some(r(3.0)),
            },
        );
        state.apply_sample(
            now(),
            Sample::Latency {
                target: "1.1.1.1".into(),
                rtt_ms: Some(r(20.0)),
            },
        );
    }
    // System resolver fails; public resolvers succeed.
    for _ in 0..3 {
        state.apply_sample(
            now(),
            Sample::Dns {
                resolver: "system".into(),
                answer: Answer::Silence,
            },
        );
        state.apply_sample(
            now(),
            Sample::Dns {
                resolver: "cloudflare".into(),
                answer: Answer::Addresses(r(15.0)),
            },
        );
        state.apply_sample(
            now(),
            Sample::Dns {
                resolver: "google".into(),
                answer: Answer::Addresses(r(18.0)),
            },
        );
    }
    let d = diagnose(&state);
    assert_eq!(
        d[0].layer,
        Some(Layer::Dns),
        "top verdict should be DNS: {d:?}"
    );
}

#[test]
fn a_healthy_verdict_says_nothing_else() {
    let d = diagnose(&AppState::new(Config::default()));
    assert_eq!(d.len(), 1);
    assert_eq!(d[0].headline, "No problems detected");
    assert!(d[0].evidence.is_empty());
}

#[test]
fn the_evidence_carries_the_readings() {
    let s = Signals {
        wifi_signal: Health::Crit,
        rssi_dbm: Some(-r(82.0)),
        snr_db: Some(r(11.0)),
        tx_rate: Some(r(24.0)),
        ..healthy()
    };
    let t = top(&s);
    assert_eq!(t.headline, "Weak Wi-Fi signal");
    assert!(t.evidence.iter().any(|e| e.contains("-82")), "{t:?}");
    let s = Signals {
        internet: Health::Crit,
        internet_total: 3,
        internet_bad: 1,
        worst_internet_host: Some("example.com".into()),
        ..healthy()
    };
    let t = top(&s);
    assert_eq!(
        t.headline,
        "Some hosts are slow or lossy (1/3); the rest of your connection is healthy"
    );
    assert_eq!(t.evidence, vec!["worst host: example.com".to_string()]);
}

#[test]
fn a_portal_leaves_no_generic_outage_verdict() {
    let s = Signals {
        captive: true,
        internet: Health::Crit,
        internet_total: 2,
        internet_bad: 2,
        reach_all_fail: true,
        reach_any_ok: false,
        ..healthy()
    };
    let d = diagnose_signals(&s);
    assert_eq!(
        d[0].headline,
        "Captive portal — sign-in required to reach the internet"
    );
    assert!(d.iter().all(|v| !v.headline.contains("ISP/WAN outage")));
}

#[test]
fn an_endpoint_that_fails_both_probes_is_named_once() {
    let mut state = AppState::new(Config::default());
    let at = 1_784_556_000_000_000_000;
    for endpoint in ["google", "cloudflare"] {
        state.apply_sample(
            at,
            Sample::TcpHandshake {
                endpoint: endpoint.into(),
                connect_ms: None,
            },
        );
    }
    state.apply_sample(
        at,
        Sample::Tls {
            endpoint: "cloudflare".into(),
            handshake_ms: None,
            expires_in_days: None,
        },
    );
    state.apply_sample(
        at,
        Sample::Tls {
            endpoint: "github".into(),
            handshake_ms: Some(r(40.0)),
            expires_in_days: Some(60),
        },
    );
    assert_eq!(
        Signals::from_state(&state).transport_failed,
        ["cloudflare", "google"]
    );
}

/// The worst verdict of the diagnosis is no milder than the header.
fn explained(state: &AppState, what: &str) {
    let worst = diagnose(state)[0].severity;
    assert!(
        worst.level() >= state.overall_health().level(),
        "the header and the diagnosis disagree about {what}"
    );
}

#[test]
fn a_low_capacity_is_explained() {
    let mut cfg = Config::default();
    cfg.thresholds.trip_after_secs = 0;
    let mut state = AppState::new(cfg);
    state.apply_sample(now(), Sample::ThroughputProbe { mbps: r(60.0) });
    assert_eq!(state.overall_health(), Health::Warn);
    let d = diagnose(&state);
    assert_eq!(d.len(), 1);
    assert_eq!(d[0].severity, Health::Warn);
    assert_eq!(d[0].layer, Some(Layer::Isp));
    assert_eq!(d[0].headline, "Download capacity is low");
    assert_eq!(d[0].evidence, vec!["60 Mbps at the last test"]);
}

#[test]
fn a_route_that_changed_or_fell_is_explained() {
    let s = Signals {
        route: Health::Warn,
        ..healthy()
    };
    assert_eq!(top(&s).headline, "The route to the internet has changed");
    assert_eq!(top(&s).layer, Some(Layer::Isp));
    let s = Signals {
        route: Health::Crit,
        routing_reachable: false,
        ..healthy()
    };
    assert_eq!(top(&s).headline, "The route to the internet is down");
    assert_eq!(top(&s).severity, Health::Crit);

    let mut cfg = Config::default();
    cfg.thresholds.trip_after_secs = 0;
    let mut state = AppState::new(cfg);
    for (reachable, changed) in [(true, true), (false, true)] {
        state.apply_sample(
            now(),
            Sample::Routing {
                target: "1.1.1.1".into(),
                hops: 3,
                reachable,
                changed,
                detail: vec![],
            },
        );
        assert_ne!(state.overall_health(), Health::Good);
        explained(&state, "the route");
    }
}

#[test]
fn unsteady_latency_is_explained() {
    let s = Signals {
        jitter_internet: Health::Warn,
        ..healthy()
    };
    assert_eq!(top(&s).headline, "Latency is unsteady (jitter) beyond your gateway");
    assert_eq!(top(&s).layer, Some(Layer::Isp));
    let s = Signals {
        jitter_internet: Health::Warn,
        jitter_gateway: Health::Warn,
        ..healthy()
    };
    assert_eq!(top(&s).layer, Some(Layer::Gateway));

    let mut cfg = integ_config();
    cfg.thresholds.trip_after_secs = 0;
    let mut state = AppState::new(cfg);
    for ms in [10.0, 70.0, 10.0, 70.0, 10.0, 70.0] {
        state.apply_sample(
            now(),
            Sample::Latency {
                target: "1.1.1.1".into(),
                rtt_ms: Some(r(ms)),
            },
        );
    }
    assert_ne!(state.overall_health(), Health::Good);
    explained(&state, "jitter");
}

#[test]
fn a_symptom_worse_than_its_cause_raises_the_verdict_on_the_cause() {
    // Hosts behind a gateway that is merely slow.
    let s = Signals {
        gateway: Some(Health::Warn),
        internet: Health::Crit,
        internet_bad: 2,
        ..healthy()
    };
    let d = diagnose_signals(&s);
    assert_eq!(d.len(), 1);
    assert_eq!(d[0].severity, Health::Crit);
    assert_eq!(d[0].layer, Some(Layer::Gateway));
    assert_eq!(
        d[0].headline,
        "High latency/loss to your gateway — local network problem"
    );
    assert_eq!(
        d[0].evidence,
        vec!["gateway ping degraded", "internet hosts show latency/loss"]
    );

    // A gateway behind a radio of poor quality.
    let s = Signals {
        gateway: Some(Health::Crit),
        wifi_quality: Health::Warn,
        ..healthy()
    };
    let d = diagnose_signals(&s);
    assert_eq!(d.len(), 1);
    assert_eq!(d[0].severity, Health::Crit);
    assert_eq!(d[0].layer, Some(Layer::Wifi));
    assert_eq!(d[0].headline, "Wi-Fi link quality is poor (interference / low SNR)");
    assert_eq!(d[0].evidence.last().unwrap(), "gateway shows latency/loss");

    // Lookups while nothing gets through.
    let s = Signals {
        internet: Health::Warn,
        internet_bad: 2,
        reach_any_ok: false,
        reach_total: 0,
        routing_seen: false,
        dns_system: Some(Health::Crit),
        dns_public: Health::Warn,
        ..healthy()
    };
    let d = diagnose_signals(&s);
    assert_eq!(d.len(), 1);
    assert_eq!(d[0].severity, Health::Crit);
    assert_eq!(d[0].layer, Some(Layer::Isp));
    assert_eq!(
        d[0].evidence,
        vec!["all internet hosts show latency/loss", "resolvers slow or not answering"]
    );

    // Endpoints that all fail while pings work.
    let s = Signals {
        reach_any_ok: false,
        reach_all_fail: true,
        reach_bad: 2,
        reach: Health::Crit,
        ..healthy()
    };
    let d = diagnose_signals(&s);
    assert_eq!(d.len(), 1);
    assert_eq!(d[0].severity, Health::Crit);
    assert_eq!(d[0].layer, Some(Layer::Isp));
    assert_eq!(
        d[0].evidence,
        vec!["reachability checks all failing", "2 of 2 web endpoints failing"]
    );
}

#[test]
fn the_first_of_the_worst_verdicts_takes_the_symptoms_on() {
    let s = Signals {
        nic_errors: Health::Warn,
        bufferbloat: Health::Warn,
        gateway: Some(Health::Crit),
        wifi_quality: Health::Warn,
        internet: Health::Crit,
        internet_bad: 2,
        jitter_gateway: Health::Crit,
        radio: Health::Crit,
        ..healthy()
    };
    let d = diagnose_signals(&s);
    assert_eq!(d.len(), 3);
    assert_eq!((d[0].layer, d[0].severity), (Some(Layer::Nic), Health::Crit));
    assert_eq!(
        d[0].evidence,
        vec![
            "errors on the local interface",
            "gateway shows latency/loss",
            "internet hosts show latency/loss",
            "recovery of the Wi-Fi signal is not confirmed yet",
            "gateway replies vary",
        ]
    );
    assert_eq!((d[1].layer, d[1].severity), (Some(Layer::Wifi), Health::Warn));
    assert_eq!((d[2].layer, d[2].severity), (Some(Layer::Isp), Health::Warn));
    assert_eq!(primary_of(&d), Some(Layer::Nic));
}

#[test]
fn nothing_local_is_reported_twice() {
    let all = [Health::Good, Health::Warn, Health::Crit];
    for nic in all {
        for wifi in all {
            for gateway in all {
                for internet in all {
                    let d = diagnose_signals(&Signals {
                        nic_errors: nic,
                        wifi_quality: wifi,
                        gateway: Some(gateway),
                        internet,
                        ..healthy()
                    });
                    let on = |l: Layer| d.iter().filter(|v| v.layer == Some(l)).count();
                    let good = Health::Good;
                    assert_eq!(on(Layer::Nic), usize::from(nic != good));
                    assert_eq!(on(Layer::Wifi), usize::from(wifi != good));
                    assert_eq!(
                        on(Layer::Gateway),
                        usize::from(gateway != good && wifi == good)
                    );
                }
            }
        }
    }
}

#[test]
fn a_symptom_without_a_cause_is_not_made_up() {
    let s = Signals {
        internet: Health::Crit,
        ..healthy()
    };
    let d = diagnose_signals(&s);
    assert_eq!(d.len(), 1);
    assert_eq!(d[0].headline, "No problems detected");
}

#[test]
fn what_a_verdict_covers_is_not_said_twice() {
    let s = Signals {
        nic_errors: Health::Crit,
        capacity: Health::Crit,
        route: Health::Warn,
        jitter_internet: Health::Crit,
        radio: Health::Warn,
        reach: Health::Crit,
        ..healthy()
    };
    let d = diagnose_signals(&s);
    assert_eq!(d.len(), 1);
    assert_eq!(d[0].layer, Some(Layer::Nic));
}

#[test]
fn a_recovery_that_is_not_confirmed_is_explained() {
    let s = Signals {
        radio: Health::Warn,
        ..healthy()
    };
    assert_eq!(top(&s).layer, Some(Layer::Wifi));
    assert_eq!(
        top(&s).headline,
        "Wi-Fi signal was weak, and its recovery is not confirmed yet"
    );
    assert_eq!(top(&s).evidence[0], "RSSI -55 dBm");

    let mut cfg = Config::default();
    cfg.thresholds.trip_after_secs = 0;
    let mut state = AppState::new(cfg);
    for ok in [false, true] {
        state.apply_sample(
            now(),
            Sample::Reachability {
                endpoint: "https".into(),
                ok,
            },
        );
    }
    assert_eq!(state.overall_health(), Health::Crit, "not confirmed yet");
    let d = diagnose(&state);
    assert_eq!(d[0].severity, Health::Crit);
    assert_eq!(
        d[0].headline,
        "Web endpoints could not be reached, and their recovery is not confirmed yet"
    );
    assert_eq!(d[0].layer, None);

    // Behind a local fault it is a symptom of that.
    let s = Signals {
        gateway: Some(Health::Warn),
        reach: Health::Crit,
        radio: Health::Warn,
        ..healthy()
    };
    let d = diagnose_signals(&s);
    assert_eq!(d.len(), 1);
    assert_eq!((d[0].layer, d[0].severity), (Some(Layer::Gateway), Health::Crit));
    assert_eq!(
        d[0].evidence[1],
        "recovery of the web endpoints is not confirmed yet"
    );
}

#[test]
fn the_diagnosis_is_ahead_of_the_header_only_while_a_reading_is_unconfirmed() {
    let mut state = AppState::new(Config::default());
    let start = at(2026, 7, 20, 12, 0, 0);
    let check = |state: &mut AppState, now: i64, endpoint: &str, ok: bool| {
        state.apply_sample(
            now,
            Sample::Reachability {
                endpoint: endpoint.into(),
                ok,
            },
        );
    };
    check(&mut state, start, "https", true);
    check(&mut state, start, "ipv6", false);
    assert_eq!(diagnose(&state)[0].severity, Health::Crit);
    assert_eq!(state.overall_health(), Health::Good, "not confirmed yet");
    check(&mut state, start + 3_000_000_000, "ipv6", false);
    assert_eq!(state.overall_health(), Health::Crit);
    assert_eq!(diagnose(&state)[0].severity, Health::Crit);
}
