//! Which interfaces count.

use network_dash::metrics::iface::is_physical;

#[test]
fn real_hardware_counts_and_pseudo_interfaces_do_not() {
    for name in ["en0", "en1", "eth0", "anpi0", "wlan0"] {
        assert!(is_physical(name), "{name} is a real NIC");
    }
    for name in [
        "lo0",
        "utun4",
        "awdl0",
        "llw0",
        "bridge100",
        "gif0",
        "stf0",
        "vmnet1",
        "docker0",
        "ipsec0",
        "ap1",
    ] {
        assert!(!is_physical(name), "{name} counters mean nothing");
    }
}

#[test]
fn a_prefix_match_does_not_swallow_a_real_interface() {
    // "lo" is a pseudo-prefix, but "lom0" is a name in its own right: only a prefix followed
    // by digits is the numbered pseudo-interface it is meant to catch.
    assert!(is_physical("lomax"), "not a loopback");
    assert!(is_physical("apple0"), "not the Apple AP interface");
    assert!(!is_physical("ap1"), "but this one is");
}
