//! What the system tools print: the Wi-Fi profiler and the path tracer.

use network_dash::metrics::link::{parse_airport, WifiProbe};
use network_dash::metrics::routing::{parse_traceroute, RoutingProbe};
use network_dash::metrics::Sample;

/// A reading.
fn r(v: f64) -> i64 {
    (v * 1e9).round() as i64
}

const AIRPORT: &str = "Wi-Fi:

  Interfaces:
    en0:
      Card Type: Wi-Fi (0x14E4, 0x4387)
      Status: Connected
      Current Network Information:
        MyNetwork:
          PHY Mode: 802.11ax
          Channel: 149 (5GHz, 80MHz)
          Country Code: US
          Network Type: Infrastructure
          Security: WPA2 Personal
          Signal / Noise: -42 dBm / -92 dBm
          Transmit Rate: 866
          MCS Index: 9
      Other Local Wi-Fi Networks:
        SomeoneElse:
          PHY Mode: 802.11ac
";

#[test]
fn parses_signal_noise_and_details() {
    let info = parse_airport(AIRPORT).unwrap();
    assert_eq!(info.rssi_dbm, Some(-r(42.0)));
    assert_eq!(info.noise_dbm, Some(-r(92.0)));
    assert_eq!(info.tx_rate, Some(r(866.0)));
    assert_eq!(info.phy_mode.as_deref(), Some("802.11ax"));
    assert_eq!(info.channel.as_deref(), Some("149 (5GHz, 80MHz)"));
}

#[test]
fn parses_current_ssid() {
    let info = parse_airport(AIRPORT).unwrap();
    assert_eq!(info.ssid.as_deref(), Some("MyNetwork"));
}

#[test]
fn returns_none_when_not_connected() {
    let output = "Wi-Fi:\n\n      Interfaces:\n        en0:\n          Status: Off\n";
    assert!(parse_airport(output).is_none());
}

#[test]
fn a_rate_may_have_an_exponent() {
    let rate = |text: &str| {
        let output = AIRPORT.replace("Transmit Rate: 866", &format!("Transmit Rate: {text}"));
        parse_airport(&output).unwrap().tx_rate
    };
    assert_eq!(rate("1e3"), Some(r(1000.0)));
    assert_eq!(rate("8.66E+2"), Some(r(866.0)));
    assert_eq!(rate("12500e-3"), Some(r(12.5)));
    assert_eq!(rate("-2.5e0"), Some(-r(2.5)));
    assert_eq!(rate("1e-10"), Some(0));
    assert_eq!(rate("1e-99999999999999999999999999"), Some(0));
    assert_eq!(rate("1e99999999999999999999999999"), Some(i64::MAX));
    assert_eq!(rate("0e99999999999999999999999999"), Some(0));
    assert_eq!(rate("inf"), Some(i64::MAX));
    assert_eq!(rate("-Infinity"), Some(-i64::MAX));
    for text in ["e3", "1e", "1e+", "1e3.5", "1e3e3", ".e1", "infinite", "+", ""] {
        assert_eq!(rate(text), None, "{text}");
    }
}

#[test]
fn a_hop_time_may_have_an_exponent() {
    let route = parse_traceroute(" 1  2e1  192.168.1.1  1.5e1 ms  9E0 ms\n", "192.168.1.1");
    assert_eq!(route.path, vec!["192.168.1.1"]);
    assert_eq!(route.detail[0].min_rtt_ms, Some(r(9.0)));
    assert_eq!(route.detail[0].loss_pct, 0);
    // A time that is no number is an answer all the same, and no address.
    let route = parse_traceroute(" 1  NaN  10.0.0.1  nan ms  *\n", "10.0.0.1");
    assert_eq!(route.path, vec!["10.0.0.1"]);
    assert_eq!(route.detail[0].min_rtt_ms, None);
    assert_eq!(route.detail[0].loss_pct, r(50.0));
}

const REACHED: &str = "traceroute to 1.1.1.1 (1.1.1.1), 15 hops max, 52 byte packets
 1  192.168.1.1  1.234 ms
 2  96.120.1.1  9.567 ms
 3  * * *
 4  1.1.1.1  12.3 ms
";

const UNREACHED: &str = "traceroute to 1.1.1.1 (1.1.1.1), 15 hops max, 52 byte packets
 1  192.168.1.1  1.2 ms
 2  * * *
 3  * * *
";

/// `-q 3` output: three probes per hop, with a fully-lost hop and a partial-loss hop.
const MULTI: &str = "traceroute to 1.1.1.1 (1.1.1.1), 15 hops max, 52 byte packets
 1  192.168.1.1  1.2 ms  1.1 ms  1.0 ms
 2  96.120.1.1  9.5 ms  * 10.2 ms
 3  * * *
 4  1.1.1.1  12.3 ms  11.9 ms  12.1 ms
";

#[test]
fn parses_reached_path() {
    let route = parse_traceroute(REACHED, "1.1.1.1");
    assert_eq!(route.hops, 4);
    assert!(route.reachable);
    assert_eq!(route.path, vec!["192.168.1.1", "96.120.1.1", "*", "1.1.1.1"]);
}

#[test]
fn parses_per_hop_rtt_and_loss() {
    let route = parse_traceroute(MULTI, "1.1.1.1");
    assert!(route.reachable);
    // Hop 1: three good probes, best 1.0 ms, no loss.
    assert_eq!(route.detail[0].addr, "192.168.1.1");
    assert_eq!(route.detail[0].min_rtt_ms, Some(r(1.0)));
    assert_eq!(route.detail[0].loss_pct, r(0.0));
    // Hop 2: one probe lost of three → 33% loss, best 9.5 ms.
    assert_eq!(route.detail[1].min_rtt_ms, Some(r(9.5)));
    assert!((route.detail[1].loss_pct - r(33.333)).abs() < r(0.01));
    // Hop 3: all three lost → 100% loss, no RTT, address "*".
    assert_eq!(route.detail[2].addr, "*");
    assert_eq!(route.detail[2].min_rtt_ms, None);
    assert_eq!(route.detail[2].loss_pct, r(100.0));
    // Hop 4 reaches the target.
    assert_eq!(route.detail[3].min_rtt_ms, Some(r(11.9)));
}

#[test]
fn parses_unreached_path() {
    let route = parse_traceroute(UNREACHED, "1.1.1.1");
    assert_eq!(route.hops, 3);
    assert!(!route.reachable);
    assert_eq!(route.path.last().unwrap(), "*");
}

#[test]
fn empty_output_is_unreachable() {
    let route = parse_traceroute("", "1.1.1.1");
    assert_eq!(route.hops, 0);
    assert!(!route.reachable);
}

#[test]
fn a_path_has_changed_only_against_the_last_run() {
    let mut probe = RoutingProbe::new("1.1.1.1".into(), 15);
    let changed = |s: Sample| match s {
        Sample::Routing { changed, .. } => changed,
        _ => panic!("expected a routing sample"),
    };
    assert!(!changed(probe.observe(REACHED)), "nothing to compare with");
    assert!(!changed(probe.observe(REACHED)), "the same path");
    assert!(changed(probe.observe(UNREACHED)), "another path");
    match probe.observe(MULTI) {
        Sample::Routing {
            target,
            hops,
            reachable,
            changed,
            detail,
        } => {
            assert_eq!(target, "1.1.1.1");
            assert_eq!(hops, 4);
            assert!(reachable);
            assert!(changed);
            assert_eq!(detail.len(), 4);
        }
        _ => panic!("expected a routing sample"),
    }
}

#[test]
fn a_run_that_could_not_be_made_yields_no_link_reading() {
    assert!(WifiProbe.samples(None).is_empty());
    assert!(WifiProbe.samples(Some("Wi-Fi:\n")).is_empty());
    assert_eq!(
        WifiProbe.samples(Some(AIRPORT)),
        vec![Sample::Link {
            rssi_dbm: Some(-r(42.0)),
            noise_dbm: Some(-r(92.0)),
            tx_rate: Some(r(866.0)),
            ssid: Some("MyNetwork".into()),
        }]
    );
}
