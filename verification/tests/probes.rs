//! What the probes make of what came back.

use network_dash::metrics::dns::IpAddr;
use network_dash::metrics::ping::{pingable_targets, resolve_targets, split_by_family, usable_targets};
use network_dash::metrics::pubip::{parse_trace_ip, public_ip_samples};
use network_dash::metrics::reachability::{
    checkable_endpoints, default_endpoints, detect_captive, endpoint_samples, CaptiveOutcome,
    HttpOutcome,
};
use network_dash::metrics::tcp::TcpProbe;
use network_dash::metrics::throughput::{
    capacity_samples, mbps_from_download, rate_bps, throughput_sample,
};
use network_dash::metrics::tls::{cert_expiry_secs, days_until, leaf_expiry_secs, tls_sample};
use network_dash::metrics::{FakeProbe, MetricId, Sample};

/// A reading.
fn r(v: f64) -> i64 {
    (v * 1e9).round() as i64
}

#[test]
fn metric_labels_are_stable() {
    assert_eq!(MetricId::Latency.label(), "latency");
    assert_eq!(MetricId::Dns.label(), "dns");
}

#[test]
fn fake_probe_replays_rounds_then_empties() {
    let mut p = FakeProbe::new(vec![
        vec![Sample::Latency {
            target: "gw".into(),
            rtt_ms: Some(r(1.0)),
        }],
        vec![],
    ]);
    assert_eq!(p.remaining(), 2);
    assert_eq!(p.next_round().len(), 1);
    assert_eq!(p.next_round().len(), 0);
    assert_eq!(p.next_round().len(), 0); // exhausted → empty forever
    assert_eq!(p.remaining(), 0);
}

/// The addresses that the texts spell, where they spell one.
fn addresses(targets: &[String]) -> Vec<Option<IpAddr>> {
    targets
        .iter()
        .map(|t| match t.as_str() {
            "1.1.1.1" => Some(IpAddr::V4([1, 1, 1, 1])),
            "8.8.8.8" => Some(IpAddr::V4([8, 8, 8, 8])),
            "2606:4700:4700::1111" => {
                Some(IpAddr::V6([0x2606, 0x4700, 0x4700, 0, 0, 0, 0, 0x1111]))
            }
            _ => None,
        })
        .collect()
}

#[test]
fn resolves_both_families_and_drops_what_is_not_an_address() {
    let targets = vec![
        "1.1.1.1".to_string(),
        "not-an-ip".to_string(),
        "2606:4700:4700::1111".to_string(),
        "8.8.8.8".to_string(),
    ];
    let names: Vec<_> = resolve_targets(&targets, &addresses(&targets))
        .iter()
        .map(|(n, _)| n.clone())
        .collect();
    assert_eq!(
        names,
        vec!["1.1.1.1", "2606:4700:4700::1111", "8.8.8.8"],
        "both families are pingable; only the garbage is dropped"
    );
}

#[test]
fn the_two_families_are_kept_apart() {
    let targets = vec!["1.1.1.1".to_string(), "2606:4700:4700::1111".to_string()];
    let (v4, v6) = split_by_family(&resolve_targets(&targets, &addresses(&targets)));
    assert_eq!(v4.len(), 1, "one v4 target");
    assert_eq!(v6.len(), 1, "one v6 target");
    assert!(!v4[0].1.is_ipv6() && v6[0].1.is_ipv6());
}

#[test]
fn a_host_without_ipv6_pings_nothing_over_it() {
    // The v6 targets are silently dropped rather than reported as 100% loss: a network
    // that does not do IPv6 at all is not a fault, and alarming about it would be the
    // loudest possible way to say "this is normal".
    let targets = vec!["1.1.1.1".to_string(), "2606:4700:4700::1111".to_string()];
    let names: Vec<_> = pingable_targets(&targets, &addresses(&targets), false)
        .iter()
        .map(|(n, _)| n.clone())
        .collect();
    assert_eq!(names, vec!["1.1.1.1"], "only the v4 target survives");
    assert_eq!(
        pingable_targets(&targets, &addresses(&targets), true).len(),
        2,
        "a dual-stack host pings both"
    );
}

const TRACE: &str = "fl=123abc\nh=www.cloudflare.com\nip=203.0.113.7\nts=1690000000.1\n";

#[test]
fn parses_ip_from_trace_body() {
    assert_eq!(parse_trace_ip(TRACE), Some("203.0.113.7".to_string()));
}

#[test]
fn missing_ip_line_is_none() {
    assert_eq!(parse_trace_ip("fl=123\nh=x\n"), None);
}

#[test]
fn no_body_yields_no_address() {
    assert!(public_ip_samples(None).is_empty());
    assert!(public_ip_samples(Some("h=x\n")).is_empty());
    assert_eq!(
        public_ip_samples(Some(TRACE)),
        vec![Sample::PublicIp {
            ip: "203.0.113.7".into()
        }]
    );
}

#[test]
fn genuine_apple_success_body_is_online() {
    let body = "<HTML><HEAD><TITLE>Success</TITLE></HEAD><BODY>Success</BODY></HTML>";
    assert_eq!(detect_captive(200, body), CaptiveOutcome::Online);
}

#[test]
fn login_page_served_as_200_is_a_portal() {
    let body = "<html><body><h1>Hotel Wi-Fi — please sign in</h1></body></html>";
    assert_eq!(detect_captive(200, body), CaptiveOutcome::Portal);
}

#[test]
fn a_redirect_is_a_portal_not_reachable() {
    // The old logic treated this as "reachable"; a portal is exactly what redirects.
    assert_eq!(detect_captive(302, ""), CaptiveOutcome::Portal);
}

#[test]
fn a_portal_check_says_both_whether_and_why() {
    let online = HttpOutcome::Answered {
        status: 200,
        body: "<BODY>Success</BODY>".into(),
    };
    assert_eq!(
        endpoint_samples("captive".into(), online),
        vec![
            Sample::Reachability {
                endpoint: "captive".into(),
                ok: true
            },
            Sample::CaptivePortal { detected: false },
        ]
    );
    let portal = HttpOutcome::Answered {
        status: 302,
        body: String::new(),
    };
    assert_eq!(
        endpoint_samples("captive".into(), portal),
        vec![
            Sample::Reachability {
                endpoint: "captive".into(),
                ok: false
            },
            Sample::CaptivePortal { detected: true },
        ]
    );
    // An outage is no portal.
    assert_eq!(
        endpoint_samples("captive".into(), HttpOutcome::Failed),
        vec![
            Sample::Reachability {
                endpoint: "captive".into(),
                ok: false
            },
            Sample::CaptivePortal { detected: false },
        ]
    );
    assert_eq!(
        endpoint_samples("https".into(), HttpOutcome::Failed),
        vec![Sample::Reachability {
            endpoint: "https".into(),
            ok: false
        }]
    );
}

#[test]
fn the_ipv6_endpoint_is_left_out_on_a_host_without_it() {
    let all = default_endpoints();
    assert!(all.iter().any(|e| e.0 == "ipv6"));
    assert_eq!(checkable_endpoints(default_endpoints(), true), all);
    assert!(checkable_endpoints(default_endpoints(), false)
        .iter()
        .all(|e| e.0 != "ipv6"));
}

#[test]
fn tcp_one_sample_per_endpoint_even_when_they_all_fail() {
    let probe = TcpProbe::new(
        vec![
            ("a".into(), "127.0.0.1:1".into()),
            ("b".into(), "127.0.0.1:1".into()),
        ],
        200,
    );
    let samples = probe.samples(&vec![None, None]);
    assert_eq!(samples.len(), 2, "{samples:?}");
    assert!(
        samples.iter().all(|s| matches!(
            s,
            Sample::TcpHandshake {
                connect_ms: None,
                ..
            }
        )),
        "{samples:?}"
    );
}

#[test]
fn a_handshake_time_goes_to_its_endpoint() {
    let probe = TcpProbe::new(TcpProbe::default_endpoints(), 5_000);
    assert_eq!(
        probe.samples(&vec![Some(r(12.0)), None]),
        vec![
            Sample::TcpHandshake {
                endpoint: "cloudflare".into(),
                connect_ms: Some(r(12.0)),
            },
            Sample::TcpHandshake {
                endpoint: "google".into(),
                connect_ms: None,
            },
        ]
    );
}

#[test]
fn a_rate_is_bytes_over_the_time_they_actually_took() {
    // 100 kB in half a second is 200 kB/s, whatever cadence was configured.
    assert_eq!(rate_bps(100_000, r(0.5)), r(200_000.0));
}

#[test]
fn a_zero_interval_reports_no_traffic_rather_than_infinity() {
    // Two refreshes in the same instant: unknowable, not infinite.
    assert_eq!(rate_bps(100_000, r(0.0)), r(0.0));
    assert_eq!(rate_bps(100_000, -r(1.0)), r(0.0));
}

#[test]
fn mbps_math_is_bits_over_time() {
    // 3 MB in 0.24 s = 24 Mbit / 0.24 s = 100 Mbps.
    let m = mbps_from_download(3_000_000, r(0.24));
    assert!((m - r(100.0)).abs() < r(0.001), "expected ~100 Mbps, got {m}");
}

#[test]
fn zero_elapsed_is_not_a_divide_by_zero() {
    assert_eq!(mbps_from_download(1_000_000, r(0.0)), r(0.0));
}

#[test]
fn interfaces_are_summed_before_the_rate_is_taken() {
    assert_eq!(
        throughput_sample(&vec![(1_000, 10), (2_000, 20)], r(2.0)),
        Sample::Throughput {
            rx_bps: r(1_500.0),
            tx_bps: r(15.0),
        }
    );
}

#[test]
fn a_download_that_failed_measures_nothing() {
    assert!(capacity_samples(None, &vec![], &vec![]).is_empty());
    // The best of each side is compared.
    assert_eq!(
        capacity_samples(
            Some(r(80.0)),
            &vec![Some(r(20.0)), None, Some(r(18.0))],
            &vec![Some(r(120.0)), Some(r(90.0))]
        )
        .first(),
        Some(&Sample::ThroughputProbe { mbps: r(80.0) })
    );
}

/// A self-signed certificate with a fixed, known `notAfter` of
/// 2036-07-26T13:17:57Z (Unix 2100691077). Its own validity is never asserted — only
/// that the date is read back correctly — so the fixture does not rot.
const FIXTURE_PEM: &str = "\
-----BEGIN CERTIFICATE-----
MIIB+TCCAWKgAwIBAgIBATANBgkqhkiG9w0BAQsFADAYMRYwFAYDVQQDDA1uZXRw
dWxzZS50ZXN0MB4XDTI2MDcyOTEzMTc1N1oXDTM2MDcyNjEzMTc1N1owGDEWMBQG
A1UEAwwNbmV0cHVsc2UudGVzdDCBnzANBgkqhkiG9w0BAQEFAAOBjQAwgYkCgYEA
uIyH5ffsTaszC5Wnx1z8mJ4zN9oAyLfGQp7nNPdw0CZ2de2DQ3KVtn+ctMpdaf75
Ck2dVg+4JGlmw5L0MwjfGfhlJOK8kF+QecAPekDMrcsPyB3jYrOKX1saR7FYZ3I1
HoWKACa02BnRbj41THfJxUJsR/KEeO9lrUEMy1XjFrcCAwEAAaNTMFEwHQYDVR0O
BBYEFORltUqHD22V0cLyQa+3UmKSA4OfMB8GA1UdIwQYMBaAFORltUqHD22V0cLy
Qa+3UmKSA4OfMA8GA1UdEwEB/wQFMAMBAf8wDQYJKoZIhvcNAQELBQADgYEAc/Y6
a2IglcpWKn8Y22huZj2WisqLXbGMQOcbycNP0mJl4SyP/+af1313bHTmOY5VOzG+
Xu02IttdCdTPv+7H/MINDw/zlNSIzUAz29QFjI835pXqvDpr0fPEsYQQ5+uVgk7b
uZEytRmhV2zuWhwtY5SHpTbCD1xaB6yvAI7cOsc=
-----END CERTIFICATE-----
";

/// The fixture's `notAfter`: 2036-07-26T13:17:57Z.
const FIXTURE_NOT_AFTER: i64 = 2_100_691_077;

fn fixture_der() -> Vec<u8> {
    let (_, pem) = x509_parser::pem::parse_x509_pem(FIXTURE_PEM.as_bytes()).unwrap();
    pem.contents
}

#[test]
fn a_certificates_expiry_is_read_from_its_bytes() {
    assert_eq!(cert_expiry_secs(&fixture_der()), Some(FIXTURE_NOT_AFTER));
}

#[test]
fn bytes_that_are_not_a_certificate_report_nothing_rather_than_guessing() {
    assert_eq!(cert_expiry_secs(b"HTTP/1.1 400 Bad Request"), None);
    assert_eq!(cert_expiry_secs(&[]), None);
}

#[test]
fn expiry_is_counted_in_whole_days() {
    let now = FIXTURE_NOT_AFTER - 10 * 86_400;
    assert_eq!(days_until(FIXTURE_NOT_AFTER, now), 10);
    // Rounded towards zero: 9 days and 23 hours left is not yet 10 days.
    assert_eq!(days_until(FIXTURE_NOT_AFTER, now + 3600), 9);
}

#[test]
fn an_expired_certificate_counts_backwards() {
    let now = FIXTURE_NOT_AFTER + 3 * 86_400;
    assert_eq!(
        days_until(FIXTURE_NOT_AFTER, now),
        -3,
        "clamping at zero would hide how long it has been broken"
    );
}

#[test]
fn the_leaf_is_the_certificate_that_counts() {
    assert_eq!(leaf_expiry_secs(&vec![]), None);
    assert_eq!(
        leaf_expiry_secs(&vec![fixture_der(), vec![1, 2, 3]]),
        Some(FIXTURE_NOT_AFTER)
    );
    assert_eq!(leaf_expiry_secs(&vec![vec![1, 2, 3], fixture_der()]), None);
}

#[test]
fn tls_one_sample_per_endpoint_even_when_they_all_fail() {
    let samples: Vec<Sample> = ["a", "b"]
        .iter()
        .map(|e| tls_sample(e.to_string(), None, None, 0))
        .collect();
    assert_eq!(samples.len(), 2, "{samples:?}");
    assert!(
        samples.iter().all(|s| matches!(
            s,
            Sample::Tls {
                handshake_ms: None,
                expires_in_days: None,
                ..
            }
        )),
        "{samples:?}"
    );
}

#[test]
fn a_negotiation_reports_its_time_and_the_days_left() {
    assert_eq!(
        tls_sample(
            "cloudflare".into(),
            Some(r(31.0)),
            Some(FIXTURE_NOT_AFTER),
            FIXTURE_NOT_AFTER - 9 * 86_400
        ),
        Sample::Tls {
            endpoint: "cloudflare".into(),
            handshake_ms: Some(r(31.0)),
            expires_in_days: Some(9),
        }
    );
}

#[test]
fn targets_without_a_socket_are_not_pinged() {
    let names = |v: Vec<(String, IpAddr)>| -> Vec<String> { v.into_iter().map(|(n, _)| n).collect() };
    let both = || {
        let texts: Vec<String> = vec!["1.1.1.1".into(), "2606:4700:4700::1111".into()];
        let found = addresses(&texts);
        resolve_targets(&texts, &found)
    };
    assert_eq!(names(usable_targets(both(), true)), ["1.1.1.1", "2606:4700:4700::1111"]);
    assert_eq!(names(usable_targets(both(), false)), ["1.1.1.1"]);
}
