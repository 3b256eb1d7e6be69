//! Reading the default route.

use network_dash::net::{is_vpn_interface, parse_default_gateway, parse_route_default};


const ROUTE_OUTPUT: &str = "   route to: default
destination: default
   mask: default
gateway: 192.168.1.1
  interface: en0
  flags: <UP,GATEWAY,DONE,STATIC,PRCLONING,GLOBAL>
 recvpipe  sendpipe  ssthresh  rtt,msec    rttvar  hopcount      mtu     expire
   0         0         0         0         0         0      1500         0
";

const VPN_ROUTE: &str = "   route to: default
destination: default
gateway: 10.8.0.1
  interface: utun3
  flags: <UP,GATEWAY,DONE,STATIC>
 recvpipe  sendpipe  ssthresh  rtt,msec    rttvar  hopcount      mtu     expire
   0         0         0         0         0         0      1400         0
";

#[test]
fn parses_gateway_from_route_output() {
    assert_eq!(
        parse_default_gateway(ROUTE_OUTPUT),
        Some("192.168.1.1".to_string())
    );
}

#[test]
fn parses_interface_and_mtu() {
    let info = parse_route_default(ROUTE_OUTPUT);
    assert_eq!(info.interface.as_deref(), Some("en0"));
    assert_eq!(info.mtu, Some(1500));
    assert!(!info.is_vpn(), "en0 is not a VPN interface");
}

#[test]
fn detects_vpn_default_route() {
    let info = parse_route_default(VPN_ROUTE);
    assert_eq!(info.interface.as_deref(), Some("utun3"));
    assert_eq!(info.mtu, Some(1400));
    assert!(info.is_vpn(), "utun3 should read as a VPN tunnel");
}

#[test]
fn missing_gateway_is_none() {
    let output = "   route to: default\ndestination: default\n  interface: en0\n";
    assert_eq!(parse_default_gateway(output), None);
}

#[test]
fn empty_output_is_none() {
    assert_eq!(parse_default_gateway(""), None);
}

#[test]
fn tunnels_are_told_by_their_names() {
    for name in ["utun3", "ipsec0", "ppp0", "tun0", "tap1"] {
        assert!(is_vpn_interface(name), "{name}");
    }
    for name in ["en0", "eth0", "wlan0", ""] {
        assert!(!is_vpn_interface(name), "{name}");
    }
}

#[test]
fn the_mtu_column_is_found_by_its_heading() {
    let output = "gateway: 10.0.0.1\n mtu expire\n 1280 0\n";
    assert_eq!(parse_route_default(output).mtu, Some(1280));
    assert_eq!(parse_route_default("gateway: 10.0.0.1\n").mtu, None);
}
