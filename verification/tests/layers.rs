//! The order of the layers: which fault explains which symptom.

use network_dash::diagnosis::Layer;

const ALL_LAYERS: [Layer; 6] = [
    Layer::Nic,
    Layer::Wifi,
    Layer::Gateway,
    Layer::Isp,
    Layer::Dns,
    Layer::Remote,
];

#[test]
fn an_upstream_fault_explains_a_downstream_symptom() {
    // The card is upstream of everything, radio included: a NIC shedding frames breaks the
    // Wi-Fi link, never the other way round.
    assert!(Layer::Nic.explains(Layer::Wifi));
    assert!(Layer::Nic.explains(Layer::Remote));
    assert!(Layer::Wifi.explains(Layer::Gateway));
    assert!(Layer::Wifi.explains(Layer::Dns));
    assert!(Layer::Gateway.explains(Layer::Isp));
    assert!(Layer::Isp.explains(Layer::Dns));
    assert!(Layer::Isp.explains(Layer::Remote));
}

#[test]
fn a_downstream_fault_never_explains_its_upstream() {
    assert!(!Layer::Wifi.explains(Layer::Nic));
    assert!(!Layer::Dns.explains(Layer::Isp));
    assert!(!Layer::Isp.explains(Layer::Gateway));
    assert!(!Layer::Remote.explains(Layer::Wifi));
    assert!(!Layer::Gateway.explains(Layer::Wifi));
}

#[test]
fn a_layer_does_not_explain_itself() {
    for l in ALL_LAYERS {
        assert!(!l.explains(l), "{l:?} explaining itself is circular");
    }
}

#[test]
fn layers_at_the_same_distance_do_not_explain_each_other() {
    // DNS and a single bad remote host both sit past the ISP; neither is evidence for the
    // other, and calling one the cause of the other would hide a real second fault.
    assert!(!Layer::Dns.explains(Layer::Remote));
    assert!(!Layer::Remote.explains(Layer::Dns));
}

#[test]
fn every_layer_has_its_own_tag() {
    let tags: Vec<&str> = ALL_LAYERS.iter().map(|l| l.tag()).collect();
    assert_eq!(tags, vec!["NIC", "WI-FI", "GATEWAY", "ISP/WAN", "DNS", "REMOTE"]);
}
