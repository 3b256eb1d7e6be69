//! Root-cause correlation: turn the per-metric health streams into a localized,
//! plain-language verdict, the "what is wrong with my network (and where)" answer.

//!
//! [`diagnose`] reads an [`AppState`], projects it into a small [`Signals`] snapshot, and runs
//! an ordered ruleset over it. The projection ([`Signals::from_state`]) is the only part that
//! touches app state; the ruleset ([`diagnose_signals`]) is a function of `Signals`.

use vstd::prelude::*;

use crate::app::observe::day_count;
use crate::app::AppState;
use crate::format::{decimal, fixed0};
use crate::health::{severity, worse, Health};
use crate::projection::signals_of;
pub use crate::ruleset::diagnose_signals;
use crate::text::{strings, text_of};
use crate::units::Reading;
use crate::unsaid::{
    capacity_rule, covers, first_layer, first_severity, hosts_symptom, jitter_rule,
    jitter_symptom, kept, lan_symptom, law_taking_symptoms_on, lemma_with_unsaid, local_fault,
    lookup_health, lookup_symptom, near_fault, noticed, radio_rule, radio_symptom, raised,
    route_rule, web_rule, web_symptom, with_symptoms, with_unsaid,
};

verus! {

/// The network segment a fault localizes to.
#[derive(Debug, Clone, Copy, PartialEq, Eq, Structural)]
pub enum Layer {
    /// The local network card itself: errors and dropped frames on your own hardware.
    Nic,
    /// Local wireless radio (weak signal / bad SNR).
    Wifi,
    /// The LAN path to the default gateway / router.
    Gateway,
    /// Everything beyond the gateway: the ISP / WAN.
    Isp,
    /// Name resolution.
    Dns,
    /// A specific remote host, while the rest of the connection is healthy.
    Remote,
}

/// How far down the path from you a layer sits. DNS and a single bad remote host share a
/// rank: both live past the ISP, on branches that don't touch each other.
pub open spec fn layer_distance(l: Layer) -> int {
    match l {
        Layer::Nic => 0,
        Layer::Wifi => 1,
        Layer::Gateway => 2,
        Layer::Isp => 3,
        Layer::Dns => 4,
        Layer::Remote => 4,
    }
}

/// The tag of a layer.
pub open spec fn layer_tag(l: Layer) -> Seq<char> {
    match l {
        Layer::Nic => "NIC"@,
        Layer::Wifi => "WI-FI"@,
        Layer::Gateway => "GATEWAY"@,
        Layer::Isp => "ISP/WAN"@,
        Layer::Dns => "DNS"@,
        Layer::Remote => "REMOTE"@,
    }
}

/// A fault at `a` accounts for a symptom at `b`.
pub open spec fn explains(a: Layer, b: Layer) -> bool {
    layer_distance(a) < layer_distance(b)
}

impl Layer {
    /// Short tag shown in the diagnosis panel.
    pub fn tag(self) -> (s: &'static str)
        ensures
            s@ == layer_tag(self),
    {
        match self {
            Layer::Nic => "NIC",
            Layer::Wifi => "WI-FI",
            Layer::Gateway => "GATEWAY",
            Layer::Isp => "ISP/WAN",
            Layer::Dns => "DNS",
            Layer::Remote => "REMOTE",
        }
    }

    /// How far down the path from you the layer sits. Faults propagate one way: a dead radio
    /// makes every hop past it look broken, and nothing past it can break the radio.
    pub fn distance(self) -> (d: u8)
        ensures
            d == layer_distance(self),
    {
        match self {
            Layer::Nic => 0,
            Layer::Wifi => 1,
            Layer::Gateway => 2,
            Layer::Isp => 3,
            Layer::Dns => 4,
            Layer::Remote => 4,
        }
    }

    /// Whether a fault here would account for a symptom reported at `other`: the test for
    /// "this alert is an echo of the one above it, not news".
    pub fn explains(self, other: Layer) -> (b: bool)
        ensures
            b == explains(self, other),
    {
        self.distance() < other.distance()
    }
}

/// Explaining runs one way, down the path: no layer explains itself, a layer that explains
/// another is not explained by it, and an explanation of an explanation is one.
pub proof fn law_explaining_is_a_strict_order(a: Layer, b: Layer, c: Layer)
    ensures
        !explains(a, a),
        explains(a, b) ==> !explains(b, a),
        explains(a, b) && explains(b, c) ==> explains(a, c),
{
}

// ---------------------------------------------------------------------------------------
// Verdicts
// ---------------------------------------------------------------------------------------

/// A single localized verdict.
#[derive(Debug, PartialEq, Eq)]
pub struct Diagnosis {
    /// The layer the fault localizes to; `None` for the all-healthy verdict.
    pub layer: Option<Layer>,
    pub severity: Health,
    /// One-line, plain-language description of the problem.
    pub headline: String,
    /// Short supporting facts (shown under the headline).
    pub evidence: Vec<String>,
}

/// What a [`Diagnosis`] says.
#[verifier::ext_equal]
pub ghost struct Verdict {
    pub layer: Option<Layer>,
    pub severity: Health,
    pub headline: Seq<char>,
    pub evidence: Seq<Seq<char>>,
}

impl View for Diagnosis {
    type V = Verdict;

    open spec fn view(&self) -> Verdict {
        Verdict {
            layer: self.layer,
            severity: self.severity,
            headline: self.headline@,
            evidence: strings(self.evidence@),
        }
    }
}

/// The verdicts of a list.
pub open spec fn verdicts(v: Seq<Diagnosis>) -> Seq<Verdict> {
    Seq::new(v.len(), |i: int| v[i]@)
}

/// A snapshot of the signals the ruleset reasons over, projected from [`AppState`].
pub struct Signals {
    /// Worst health across gateway ping targets (`None` if no gateway is registered).
    pub gateway: Option<Health>,
    /// Worst health across internet (non-gateway) ping targets.
    pub internet: Health,
    /// Total / unhealthy internet target counts (to tell "one host" from "the whole ISP").
    pub internet_total: usize,
    pub internet_bad: usize,
    /// Name of the worst internet host, if any is unhealthy.
    pub worst_internet_host: Option<String>,
    /// Health of the OS-configured ("system") resolver, if present.
    pub dns_system: Option<Health>,
    /// Worst health across the public resolvers (everything but "system").
    pub dns_public: Health,
    /// Worst *honesty* verdict across resolvers. Kept apart from the two above because a
    /// resolver being spoofed is fast and answers promptly: its timing is spotless.
    pub dns_integrity: Health,
    /// Resolvers something else is answering for, and resolvers answering for names they do
    /// not own. Different culprits, so the verdict names them separately.
    pub dns_forged: Vec<String>,
    pub dns_hijacked: Vec<String>,
    /// Any reachability endpoint currently OK / all of them failing.
    pub reach_any_ok: bool,
    pub reach_all_fail: bool,
    /// How many endpoints are checked and how many are failing. `reach_all_fail` cannot tell
    /// "one host is down" from "the internet is down", and those are different verdicts.
    pub reach_total: usize,
    pub reach_bad: usize,
    /// Worst TCP/TLS handshake health, and the endpoints that failed outright. Ping cannot
    /// see this: a host can answer ICMP instantly and still refuse every connection.
    pub transport: Health,
    pub transport_failed: Vec<String>,
    /// Certificate expiry: worst health, and the endpoint running out soonest with its days
    /// remaining. Kept apart from `transport` because a valid-but-expiring certificate is
    /// not a transport fault.
    pub cert: Health,
    pub cert_soonest: Option<(String, i64)>,
    /// Routing probe: whether it has run, and whether the target is reachable.
    pub routing_seen: bool,
    pub routing_reachable: bool,
    /// Wi-Fi signal health (from RSSI) vs link-quality health (from SNR), kept apart so a
    /// weak signal and interference get different plain-language explanations.
    pub wifi_signal: Health,
    pub wifi_quality: Health,
    pub rssi_dbm: Option<Reading>,
    pub snr_db: Option<Reading>,
    pub tx_rate: Option<Reading>,
    /// A captive portal is intercepting web traffic (sign-in required).
    pub captive: bool,
    /// Local NIC error health, and the error count that produced it.
    pub nic_errors: Health,
    pub nic_error_count: Option<u64>,
    /// Bufferbloat: health and the added latency (ms) measured under load.
    pub bufferbloat: Health,
    pub bufferbloat_ms: Option<Reading>,
    /// Measured capacity: health and the last reading (Mbps).
    pub capacity: Health,
    pub capacity_mbps: Option<Reading>,
    /// Reported health of the route, which a change of path degrades too.
    pub route: Health,
    /// Worst jitter health across gateway and across internet ping targets.
    pub jitter_gateway: Health,
    pub jitter_internet: Health,
    /// Reported health of the radio and worst reported health of an endpoint: both lag behind
    /// the latest reading until it is confirmed.
    pub radio: Health,
    pub reach: Health,
}

/// What [`Signals`] say.
#[verifier::ext_equal]
pub ghost struct SignalsModel {
    pub gateway: Option<Health>,
    pub internet: Health,
    pub internet_total: nat,
    pub internet_bad: nat,
    pub worst_internet_host: Option<Seq<char>>,
    pub dns_system: Option<Health>,
    pub dns_public: Health,
    pub dns_integrity: Health,
    pub dns_forged: Seq<Seq<char>>,
    pub dns_hijacked: Seq<Seq<char>>,
    pub reach_any_ok: bool,
    pub reach_all_fail: bool,
    pub reach_total: nat,
    pub reach_bad: nat,
    pub transport: Health,
    pub transport_failed: Seq<Seq<char>>,
    pub cert: Health,
    pub cert_soonest: Option<(Seq<char>, i64)>,
    pub routing_seen: bool,
    pub routing_reachable: bool,
    pub wifi_signal: Health,
    pub wifi_quality: Health,
    pub rssi_dbm: Option<Reading>,
    pub snr_db: Option<Reading>,
    pub tx_rate: Option<Reading>,
    pub captive: bool,
    pub nic_errors: Health,
    pub nic_error_count: Option<u64>,
    pub bufferbloat: Health,
    pub bufferbloat_ms: Option<Reading>,
    pub capacity: Health,
    pub capacity_mbps: Option<Reading>,
    pub route: Health,
    pub jitter_gateway: Health,
    pub jitter_internet: Health,
    pub radio: Health,
    pub reach: Health,
}

/// The text of an optional name and day count.
pub open spec fn soonest_text(s: Option<(String, i64)>) -> Option<(Seq<char>, i64)> {
    match s {
        Some(p) => Some((p.0@, p.1)),
        None => None,
    }
}

impl View for Signals {
    type V = SignalsModel;

    open spec fn view(&self) -> SignalsModel {
        SignalsModel {
            gateway: self.gateway,
            internet: self.internet,
            internet_total: self.internet_total as nat,
            internet_bad: self.internet_bad as nat,
            worst_internet_host: text_of(self.worst_internet_host),
            dns_system: self.dns_system,
            dns_public: self.dns_public,
            dns_integrity: self.dns_integrity,
            dns_forged: strings(self.dns_forged@),
            dns_hijacked: strings(self.dns_hijacked@),
            reach_any_ok: self.reach_any_ok,
            reach_all_fail: self.reach_all_fail,
            reach_total: self.reach_total as nat,
            reach_bad: self.reach_bad as nat,
            transport: self.transport,
            transport_failed: strings(self.transport_failed@),
            cert: self.cert,
            cert_soonest: soonest_text(self.cert_soonest),
            routing_seen: self.routing_seen,
            routing_reachable: self.routing_reachable,
            wifi_signal: self.wifi_signal,
            wifi_quality: self.wifi_quality,
            rssi_dbm: self.rssi_dbm,
            snr_db: self.snr_db,
            tx_rate: self.tx_rate,
            captive: self.captive,
            nic_errors: self.nic_errors,
            nic_error_count: self.nic_error_count,
            bufferbloat: self.bufferbloat,
            bufferbloat_ms: self.bufferbloat_ms,
            capacity: self.capacity,
            capacity_mbps: self.capacity_mbps,
            route: self.route,
            jitter_gateway: self.jitter_gateway,
            jitter_internet: self.jitter_internet,
            radio: self.radio,
            reach: self.reach,
        }
    }
}

/// A fully-healthy baseline.
pub open spec fn all_healthy() -> SignalsModel {
    SignalsModel {
        gateway: Some(Health::Good),
        internet: Health::Good,
        internet_total: 2,
        internet_bad: 0,
        worst_internet_host: None,
        dns_system: Some(Health::Good),
        dns_public: Health::Good,
        dns_integrity: Health::Good,
        dns_forged: Seq::empty(),
        dns_hijacked: Seq::empty(),
        reach_any_ok: true,
        reach_all_fail: false,
        reach_total: 2,
        reach_bad: 0,
        transport: Health::Good,
        transport_failed: Seq::empty(),
        cert: Health::Good,
        cert_soonest: None,
        routing_seen: true,
        routing_reachable: true,
        wifi_signal: Health::Good,
        wifi_quality: Health::Good,
        rssi_dbm: Some((-55_000_000_000) as i64),
        snr_db: Some(45_000_000_000),
        tx_rate: Some(866_000_000_000),
        captive: false,
        nic_errors: Health::Good,
        nic_error_count: None,
        bufferbloat: Health::Good,
        bufferbloat_ms: None,
        capacity: Health::Good,
        capacity_mbps: None,
        route: Health::Good,
        jitter_gateway: Health::Good,
        jitter_internet: Health::Good,
        radio: Health::Good,
        reach: Health::Good,
    }
}

impl Default for Signals {
    /// A fully-healthy baseline.
    fn default() -> (s: Signals)
        ensures
            s@ == all_healthy(),
    {
        let s = Signals {
            gateway: Some(Health::Good),
            internet: Health::Good,
            internet_total: 2,
            internet_bad: 0,
            worst_internet_host: None,
            dns_system: Some(Health::Good),
            dns_public: Health::Good,
            dns_integrity: Health::Good,
            dns_forged: Vec::new(),
            dns_hijacked: Vec::new(),
            reach_any_ok: true,
            reach_all_fail: false,
            reach_total: 2,
            reach_bad: 0,
            transport: Health::Good,
            transport_failed: Vec::new(),
            cert: Health::Good,
            cert_soonest: None,
            routing_seen: true,
            routing_reachable: true,
            wifi_signal: Health::Good,
            wifi_quality: Health::Good,
            rssi_dbm: Some(-55_000_000_000),
            snr_db: Some(45_000_000_000),
            tx_rate: Some(866_000_000_000),
            captive: false,
            nic_errors: Health::Good,
            nic_error_count: None,
            bufferbloat: Health::Good,
            bufferbloat_ms: None,
            capacity: Health::Good,
            capacity_mbps: None,
            route: Health::Good,
            jitter_gateway: Health::Good,
            jitter_internet: Health::Good,
            radio: Health::Good,
            reach: Health::Good,
        };
        assert(s@ =~= all_healthy());
        s
    }
}

// ---------------------------------------------------------------------------------------
// The ruleset
// ---------------------------------------------------------------------------------------

/// A state that is not good.
pub open spec fn bad(h: Health) -> bool {
    h != Health::Good
}

/// A gateway that is known to be unhealthy. A missing gateway is "not a local problem", so
/// the LAN is not blamed wrongly.
pub open spec fn gateway_bad(s: SignalsModel) -> bool {
    s.gateway matches Some(h) && bad(h)
}

/// The worse of the radio's signal and quality.
pub open spec fn wifi_health(s: SignalsModel) -> Health {
    worse(s.wifi_signal, s.wifi_quality)
}

/// Every internet host is unhealthy.
pub open spec fn internet_all_bad(s: SignalsModel) -> bool {
    s.internet_total > 0 && s.internet_bad == s.internet_total
}

/// The path probe has run and did not get through.
pub open spec fn route_down(s: SignalsModel) -> bool {
    s.routing_seen && !s.routing_reachable
}

/// Something gets through, so that failing lookups are no mere symptom.
pub open spec fn some_connectivity(s: SignalsModel) -> bool {
    s.reach_any_ok || s.internet == Health::Good || (s.routing_seen && s.routing_reachable)
}

/// The parts joined by `sep`.
pub open spec fn join(parts: Seq<Seq<char>>, sep: Seq<char>) -> Seq<char>
    decreases parts.len(),
{
    if parts.len() == 0 {
        Seq::empty()
    } else if parts.len() == 1 {
        parts[0]
    } else {
        join(parts.drop_last(), sep) + sep + parts.last()
    }
}

/// The card itself. It is upstream of every other layer, and the one fault none of the
/// network-side probes can see.
pub open spec fn nic_rule(s: SignalsModel) -> Option<Verdict> {
    if bad(s.nic_errors) {
        Some(
            Verdict {
                layer: Some(Layer::Nic),
                severity: s.nic_errors,
                headline:
                    "Network interface is dropping frames — check the cable, port or driver"@,
                evidence: match s.nic_error_count {
                    Some(n) => seq![
                        decimal(n as nat) + " errors in the last interval"@,
                        "errors on the local interface"@,
                    ],
                    None => seq!["errors on the local interface"@],
                },
            },
        )
    } else {
        None
    }
}

/// What is known of the radio, for the evidence of its verdict.
pub open spec fn radio_facts(s: SignalsModel) -> Seq<Seq<char>> {
    let rssi = match s.rssi_dbm {
        Some(r) => seq!["RSSI "@ + fixed0(r as int) + " dBm"@],
        None => Seq::empty(),
    };
    let snr = match s.snr_db {
        Some(v) => seq!["SNR "@ + fixed0(v as int) + " dB"@],
        None => Seq::empty(),
    };
    let rate = match s.tx_rate {
        Some(t) => seq![fixed0(t as int) + " Mbps"@],
        None => Seq::empty(),
    };
    rssi + snr + rate
}

/// The Wi-Fi radio. A weak *signal* (RSSI) is told from poor *quality* (low SNR); a weak
/// signal paired with gateway loss points at the local link.
pub open spec fn wifi_rule(s: SignalsModel) -> Option<Verdict> {
    let wifi = wifi_health(s);
    if !bad(wifi) {
        None
    } else if !bad(s.wifi_signal) {
        Some(
            Verdict {
                layer: Some(Layer::Wifi),
                severity: wifi,
                headline: "Wi-Fi link quality is poor (interference / low SNR)"@,
                evidence: radio_facts(s),
            },
        )
    } else if gateway_bad(s) {
        Some(
            Verdict {
                layer: Some(Layer::Wifi),
                severity: worse(wifi, s.gateway->0),
                headline: "Weak Wi-Fi signal — likely a local Wi-Fi problem"@,
                evidence: radio_facts(s) + seq!["gateway shows latency/loss"@],
            },
        )
    } else {
        Some(
            Verdict {
                layer: Some(Layer::Wifi),
                severity: wifi,
                headline: "Weak Wi-Fi signal"@,
                evidence: radio_facts(s),
            },
        )
    }
}

/// The gateway / LAN. Only when Wi-Fi looks fine, so a weak radio isn't reported twice.
pub open spec fn gateway_rule(s: SignalsModel) -> Option<Verdict> {
    if gateway_bad(s) && !bad(wifi_health(s)) {
        Some(
            Verdict {
                layer: Some(Layer::Gateway),
                severity: s.gateway->0,
                headline: "High latency/loss to your gateway — local network problem"@,
                evidence: seq!["gateway ping degraded"@],
            },
        )
    } else {
        None
    }
}

/// A captive portal: a specific, actionable cause, reported before the generic "internet
/// unreachable" rules (which it would otherwise trip).
pub open spec fn captive_rule(s: SignalsModel) -> Option<Verdict> {
    if s.captive {
        Some(
            Verdict {
                layer: Some(Layer::Isp),
                severity: Health::Crit,
                headline: "Captive portal — sign-in required to reach the internet"@,
                evidence: seq!["a web request was intercepted by a login page"@],
            },
        )
    } else {
        None
    }
}

/// The ISP / WAN. The gateway is fine but the path beyond it is not.
pub open spec fn isp_rule(s: SignalsModel) -> Option<Verdict> {
    if gateway_bad(s) || s.captive {
        None
    } else if s.reach_all_fail && (internet_all_bad(s) || route_down(s)) {
        Some(
            Verdict {
                layer: Some(Layer::Isp),
                severity: Health::Crit,
                headline:
                    "Internet unreachable — your router is fine, likely an ISP/WAN outage"@,
                evidence: seq![
                    "web endpoints unreachable"@,
                    if route_down(s) {
                        "route to the internet is down"@
                    } else {
                        "all internet hosts failing"@
                    },
                ],
            },
        )
    } else if internet_all_bad(s) {
        Some(
            Verdict {
                layer: Some(Layer::Isp),
                severity: s.internet,
                headline: "Internet path degraded beyond your gateway (ISP/WAN)"@,
                evidence: seq!["all internet hosts show latency/loss"@],
            },
        )
    } else if s.reach_all_fail {
        Some(
            Verdict {
                layer: Some(Layer::Isp),
                severity: Health::Warn,
                headline:
                    "Web (HTTP/HTTPS) unreachable though ping works — possible filtering or captive portal"@,
                evidence: seq!["reachability checks all failing"@],
            },
        )
    } else {
        None
    }
}

/// Bufferbloat: latency balloons when the link is saturated (independent of gateway/ISP
/// health, since a link can be "up and fast" yet unusable for calls/gaming under load).
pub open spec fn bloat_rule(s: SignalsModel) -> Option<Verdict> {
    if bad(s.bufferbloat) {
        Some(
            Verdict {
                layer: Some(Layer::Isp),
                severity: s.bufferbloat,
                headline: "Bufferbloat — latency spikes when the connection is busy"@,
                evidence: match s.bufferbloat_ms {
                    Some(d) => seq!["+"@ + fixed0(d as int) + "ms latency under load"@],
                    None => Seq::empty(),
                },
            },
        )
    } else {
        None
    }
}

/// DNS timing. Only when some connectivity exists (otherwise DNS failing is a symptom).
pub open spec fn dns_rule(s: SignalsModel) -> Option<Verdict> {
    let system_bad = s.dns_system matches Some(h) && bad(h);
    let public_bad = bad(s.dns_public);
    if !(system_bad || public_bad) || !some_connectivity(s) {
        None
    } else if system_bad && !public_bad {
        Some(
            Verdict {
                layer: Some(Layer::Dns),
                severity: s.dns_system->0,
                headline:
                    "Your configured DNS server is failing; public resolvers work — a DNS configuration problem"@,
                evidence: seq!["system resolver failing, 1.1.1.1 / 8.8.8.8 OK"@],
            },
        )
    } else {
        Some(
            Verdict {
                layer: Some(Layer::Dns),
                severity: worse(
                    match s.dns_system {
                        Some(h) => h,
                        None => Health::Good,
                    },
                    s.dns_public,
                ),
                headline: "DNS resolution is failing while connectivity is fine"@,
                evidence: seq!["resolvers slow or not answering"@],
            },
        )
    }
}

/// DNS honesty. Reported regardless of connectivity, and separately from the timing rule:
/// interception is at its most convincing when everything else looks perfect.
pub open spec fn honesty_rule(s: SignalsModel) -> Option<Verdict> {
    if !bad(s.dns_integrity) {
        None
    } else if s.dns_forged.len() > 0 {
        Some(
            Verdict {
                layer: Some(Layer::Dns),
                severity: s.dns_integrity,
                headline:
                    "Something on this network is answering DNS in place of your resolvers"@,
                evidence: seq![
                    join(s.dns_forged, ", "@)
                        + " replied to nothing that must resolve — the answers are not theirs"@,
                ],
            },
        )
    } else {
        Some(
            Verdict {
                layer: Some(Layer::Dns),
                severity: s.dns_integrity,
                headline: "A resolver is answering for names it does not own"@,
                evidence: seq![
                    join(s.dns_hijacked, ", "@)
                        + " returns addresses for names that should not resolve"@,
                ],
            },
        )
    }
}

/// Transport. A host that answers ICMP can still refuse every connection. Reported even when
/// the ISP rules fired, because "your ISP is degraded" does not tell you that a specific
/// service is refusing you outright.
pub open spec fn transport_rule(s: SignalsModel) -> Option<Verdict> {
    if !bad(s.transport) {
        None
    } else if s.transport_failed.len() == 0 {
        Some(
            Verdict {
                layer: Some(Layer::Isp),
                severity: s.transport,
                headline:
                    "Connections are slow to establish though the path itself looks healthy"@,
                evidence: seq!["handshakes are slow"@],
            },
        )
    } else {
        Some(
            Verdict {
                layer: Some(Layer::Isp),
                severity: s.transport,
                headline: "Connections are being refused or timing out (TCP/TLS)"@,
                evidence: seq!["no connection to "@ + join(s.transport_failed, ", "@)],
            },
        )
    }
}

/// Certificate expiry. Deliberately unlocalized: every layer is working, and the only thing
/// wrong is a date.
pub open spec fn cert_rule(s: SignalsModel) -> Option<Verdict> {
    if !bad(s.cert) {
        None
    } else {
        Some(
            match s.cert_soonest {
                Some((name, days)) => if days < 0 {
                    Verdict {
                        layer: None,
                        severity: s.cert,
                        headline: "A TLS certificate has expired"@,
                        evidence: seq![
                            name + ": expired "@ + decimal(day_count(days)) + "d ago"@,
                        ],
                    }
                } else {
                    Verdict {
                        layer: None,
                        severity: s.cert,
                        headline: "A TLS certificate expires in "@ + decimal(day_count(days))
                            + " days"@,
                        evidence: seq![name + ": "@ + decimal(day_count(days)) + "d left"@],
                    }
                },
                None => Verdict {
                    layer: None,
                    severity: s.cert,
                    headline: "A TLS certificate is close to expiry"@,
                    evidence: Seq::empty(),
                },
            },
        )
    }
}

/// A remote host. Some internet hosts are bad while others are fine.
pub open spec fn remote_rule(s: SignalsModel) -> Option<Verdict> {
    if !gateway_bad(s) && s.internet_total > 0 && 0 < s.internet_bad < s.internet_total {
        Some(
            Verdict {
                layer: Some(Layer::Remote),
                severity: s.internet,
                headline: "Some hosts are slow or lossy ("@ + decimal(s.internet_bad) + "/"@
                    + decimal(s.internet_total)
                    + "); the rest of your connection is healthy"@,
                evidence: seq![
                    "worst host: "@ + (match s.worst_internet_host {
                        Some(h) => h,
                        None => "a remote host"@,
                    }),
                ],
            },
        )
    } else {
        None
    }
}

/// A minority of web endpoints failing. Not an outage, the others answered; but the panel
/// goes red for it, so something has to say why.
pub open spec fn endpoint_rule(s: SignalsModel) -> Option<Verdict> {
    if !s.reach_all_fail && 0 < s.reach_bad < s.reach_total {
        Some(
            Verdict {
                layer: Some(Layer::Remote),
                severity: Health::Crit,
                headline: decimal(s.reach_bad) + " of "@ + decimal(s.reach_total)
                    + " web endpoints unreachable; the rest of your connection is healthy"@,
                evidence: seq!["likely that service rather than your network"@],
            },
        )
    } else {
        None
    }
}

/// The verdict when nothing is wrong.
pub open spec fn no_problem() -> Verdict {
    Verdict {
        layer: None,
        severity: Health::Good,
        headline: "No problems detected"@,
        evidence: Seq::empty(),
    }
}

/// No verdict, or one.
pub open spec fn given(v: Option<Verdict>) -> Seq<Verdict> {
    match v {
        Some(x) => seq![x],
        None => Seq::empty(),
    }
}

/// What the rules say, in the order of the rules.
#[verifier::opaque]
pub open spec fn rulings(s: SignalsModel) -> Seq<Verdict> {
    given(nic_rule(s)) + given(wifi_rule(s)) + given(gateway_rule(s)) + given(captive_rule(s))
        + given(isp_rule(s)) + given(bloat_rule(s)) + given(dns_rule(s)) + given(honesty_rule(s))
        + given(transport_rule(s)) + given(cert_rule(s)) + given(remote_rule(s)) + given(
        endpoint_rule(s),
    )
}

/// The verdicts of severity `h`, in their order.
pub open spec fn of_severity(v: Seq<Verdict>, h: Health) -> Seq<Verdict>
    decreases v.len(),
{
    if v.len() == 0 {
        Seq::empty()
    } else if v.last().severity == h {
        of_severity(v.drop_last(), h).push(v.last())
    } else {
        of_severity(v.drop_last(), h)
    }
}

/// Worst first; equal severities keep their order, which is that of the layers.
pub open spec fn worst_first(v: Seq<Verdict>) -> Seq<Verdict> {
    of_severity(v, Health::Crit) + of_severity(v, Health::Warn) + of_severity(v, Health::Good)
}

/// What the rules say, worst first.
pub open spec fn ranked(s: SignalsModel) -> Seq<Verdict> {
    worst_first(rulings(s))
}

/// What the rules say, the first of it with the symptoms that it accounts for, and then
/// whatever is worse than all that they say.
pub open spec fn findings(s: SignalsModel) -> Seq<Verdict> {
    with_unsaid(
        with_symptoms(ranked(s), s),
        s,
        first_severity(ranked(s)),
        first_layer(ranked(s)),
    )
}

/// The verdicts on a snapshot: what was found, or that nothing is wrong, worst first.
#[verifier::opaque]
pub open spec fn diagnosed(s: SignalsModel) -> Seq<Verdict> {
    let all = findings(s);
    worst_first(
        if all.len() == 0 {
            seq![no_problem()]
        } else {
            all
        },
    )
}

/// Diagnose the current state: a plain-language, worst-first list of what is wrong and where.
/// Never empty: an all-healthy state yields a single "No problems detected" verdict.
pub fn diagnose(state: &AppState) -> (out: Vec<Diagnosis>)
    ensures
        verdicts(out@) == diagnosed(signals_of(state@)),
        out@.len() > 0,
{
    let s = Signals::from_state(state);
    let out = diagnose_signals(&s);
    proof {
        law_diagnosis_is_never_empty(s@);
        assert(verdicts(out@).len() == out@.len());
    }
    out
}

/// The layer that a list of verdicts blames: that of the first one that is not good.
pub open spec fn blamed(v: Seq<Verdict>) -> Option<Layer>
    decreases v.len(),
{
    if v.len() == 0 {
        None
    } else if v[0].severity != Health::Good {
        v[0].layer
    } else {
        blamed(v.drop_first())
    }
}

/// The blamed layer of the worst verdict in an already-sorted list.
pub fn primary_of(list: &Vec<Diagnosis>) -> (l: Option<Layer>)
    ensures
        l == blamed(verdicts(list@)),
{
    let ghost all = verdicts(list@);
    assert(all.skip(0) =~= all);
    let n: usize = list.len();
    let mut i: usize = 0;
    while i < n
        invariant
            n == list@.len(),
            all == verdicts(list@),
            i <= n,
            blamed(all) == blamed(all.skip(i as int)),
        decreases n - i,
    {
        assert(all.skip(i as int)[0] == list@[i as int]@);
        assert(all.skip(i as int).drop_first() =~= all.skip(i + 1));
        if list[i].severity != Health::Good {
            return list[i].layer;
        }
        i = i + 1;
    }
    None
}

/// The layer to blame for whatever is worst right now: the one thing worth fixing first.
/// `None` when nothing is wrong, or when the worst verdict doesn't localize.
///
/// This is deliberately a *reading* of [`diagnose`] rather than a second ruleset: the moment
/// two correlation engines exist they disagree.
pub fn primary_layer(state: &AppState) -> (l: Option<Layer>)
    ensures
        l == blamed(diagnosed(signals_of(state@))),
{
    primary_of(&diagnose(state))
}

// ---------------------------------------------------------------------------------------
// Laws
// ---------------------------------------------------------------------------------------

pub proof fn lemma_of_severity(v: Seq<Verdict>, h: Health)
    ensures
        forall|i: int|
            0 <= i < of_severity(v, h).len() ==> (#[trigger] of_severity(v, h)[i]).severity == h
                && v.contains(of_severity(v, h)[i]),
        forall|x: Verdict| v.contains(x) && x.severity == h ==> of_severity(v, h).contains(x),
        (exists|i: int| 0 <= i < v.len() && (#[trigger] v[i]).severity == h) ==> of_severity(
            v,
            h,
        ).len() > 0,
    decreases v.len(),
{
    if v.len() > 0 {
        let init = v.drop_last();
        lemma_of_severity(init, h);
        let before = of_severity(init, h);
        let f = of_severity(v, h);
        assert forall|i: int| 0 <= i < f.len() implies (#[trigger] f[i]).severity == h
            && v.contains(f[i]) by {
            if i < before.len() {
                assert(f[i] == before[i]);
                let k = choose|k: int| 0 <= k < init.len() && init[k] == before[i];
                assert(v[k] == f[i]);
            } else {
                assert(v[v.len() - 1] == f[i]);
            }
        }
        assert forall|x: Verdict| v.contains(x) && x.severity == h implies f.contains(x) by {
            let k = choose|k: int| 0 <= k < v.len() && v[k] == x;
            if k < init.len() {
                assert(init[k] == x);
                assert(init.contains(x));
                assert(before.contains(x));
                let j = choose|j: int| 0 <= j < before.len() && before[j] == x;
                assert(f[j] == x);
            } else {
                assert(f[f.len() - 1] == x);
            }
        }
        if exists|i: int| 0 <= i < v.len() && (#[trigger] v[i]).severity == h {
            let i = choose|i: int| 0 <= i < v.len() && (#[trigger] v[i]).severity == h;
            assert(v.contains(v[i]));
            assert(f.contains(v[i]));
        }
    }
}

/// Sorting keeps exactly the verdicts there were, and puts none after a milder one.
pub proof fn law_worst_first_sorts(v: Seq<Verdict>, x: Verdict)
    ensures
        worst_first(v).contains(x) <==> v.contains(x),
        forall|i: int, j: int|
            0 <= i < j < worst_first(v).len() ==> severity((#[trigger] worst_first(v)[i]).severity)
                >= severity((#[trigger] worst_first(v)[j]).severity),
{
    lemma_of_severity(v, Health::Crit);
    lemma_of_severity(v, Health::Warn);
    lemma_of_severity(v, Health::Good);
    let c = of_severity(v, Health::Crit);
    let w = of_severity(v, Health::Warn);
    let g = of_severity(v, Health::Good);
    let all = worst_first(v);
    if v.contains(x) {
        match x.severity {
            Health::Crit => {
                let k = choose|k: int| 0 <= k < c.len() && c[k] == x;
                assert(all[k] == x);
            },
            Health::Warn => {
                let k = choose|k: int| 0 <= k < w.len() && w[k] == x;
                assert(all[c.len() + k] == x);
            },
            Health::Good => {
                let k = choose|k: int| 0 <= k < g.len() && g[k] == x;
                assert(all[c.len() + w.len() + k] == x);
            },
        }
    }
    if all.contains(x) {
        let k = choose|k: int| 0 <= k < all.len() && all[k] == x;
        if k < c.len() {
            assert(all[k] == c[k]);
        } else if k < c.len() + w.len() {
            assert(all[k] == w[k - c.len()]);
        } else {
            assert(all[k] == g[k - c.len() - w.len()]);
        }
    }
    assert forall|i: int, j: int| 0 <= i < j < all.len() implies severity(
        (#[trigger] all[i]).severity,
    ) >= severity((#[trigger] all[j]).severity) by {
        if i >= c.len() + w.len() {
            assert(all[i] == g[i - c.len() - w.len()]);
        } else if i >= c.len() {
            assert(all[i] == w[i - c.len()]);
        } else {
            assert(all[i] == c[i]);
        }
        if j >= c.len() + w.len() {
            assert(all[j] == g[j - c.len() - w.len()]);
        } else if j >= c.len() {
            assert(all[j] == w[j - c.len()]);
        } else {
            assert(all[j] == c[j]);
        }
    }
}

pub proof fn lemma_severity_of_one(v: Verdict)
    ensures
        forall|h: Health| #[trigger]
            of_severity(seq![v], h) == (if v.severity == h {
                seq![v]
            } else {
                Seq::empty()
            }),
{
    let one = seq![v];
    assert(one.drop_last() =~= Seq::<Verdict>::empty());
    assert forall|h: Health| #[trigger]
        of_severity(one, h) == (if v.severity == h {
            one
        } else {
            Seq::empty()
        }) by {
        assert(of_severity(one.drop_last(), h) =~= Seq::<Verdict>::empty());
        assert(Seq::<Verdict>::empty().push(v) =~= one);
    }
}

pub proof fn lemma_severity_of_sum(a: Seq<Verdict>, b: Seq<Verdict>, h: Health)
    ensures
        of_severity(a + b, h) == of_severity(a, h) + of_severity(b, h),
    decreases b.len(),
{
    if b.len() == 0 {
        assert(a + b =~= a);
        assert(of_severity(a, h) + of_severity(b, h) =~= of_severity(a, h));
    } else {
        assert((a + b).drop_last() =~= a + b.drop_last());
        assert((a + b).last() == b.last());
        lemma_severity_of_sum(a, b.drop_last(), h);
        if b.last().severity == h {
            assert(of_severity(a, h) + of_severity(b.drop_last(), h).push(b.last())
                =~= (of_severity(a, h) + of_severity(b.drop_last(), h)).push(b.last()));
        }
    }
}

/// Verdicts of one severity are all of that severity and none of another.
proof fn lemma_of_one_severity(v: Seq<Verdict>, h: Health, other: Health)
    requires
        forall|i: int| 0 <= i < v.len() ==> (#[trigger] v[i]).severity == h,
        h != other,
    ensures
        of_severity(v, h) == v,
        of_severity(v, other) == Seq::<Verdict>::empty(),
    decreases v.len(),
{
    if v.len() > 0 {
        let init = v.drop_last();
        assert forall|i: int| 0 <= i < init.len() implies (#[trigger] init[i]).severity == h by {
            assert(init[i] == v[i]);
        }
        lemma_of_one_severity(init, h, other);
        assert(v.last() == v[v.len() - 1]);
        assert(init.push(v.last()) =~= v);
    } else {
        assert(v =~= Seq::<Verdict>::empty());
    }
}

/// Verdicts ranked by severity come apart into what they were put together from.
pub proof fn lemma_ranked(c: Seq<Verdict>, w: Seq<Verdict>, g: Seq<Verdict>)
    requires
        forall|i: int| 0 <= i < c.len() ==> (#[trigger] c[i]).severity == Health::Crit,
        forall|i: int| 0 <= i < w.len() ==> (#[trigger] w[i]).severity == Health::Warn,
        forall|i: int| 0 <= i < g.len() ==> (#[trigger] g[i]).severity == Health::Good,
    ensures
        of_severity(c + w + g, Health::Crit) == c,
        of_severity(c + w + g, Health::Warn) == w,
        of_severity(c + w + g, Health::Good) == g,
{
    lemma_severity_of_sum(c + w, g, Health::Crit);
    lemma_severity_of_sum(c + w, g, Health::Warn);
    lemma_severity_of_sum(c + w, g, Health::Good);
    lemma_severity_of_sum(c, w, Health::Crit);
    lemma_severity_of_sum(c, w, Health::Warn);
    lemma_severity_of_sum(c, w, Health::Good);
    lemma_of_one_severity(c, Health::Crit, Health::Warn);
    lemma_of_one_severity(c, Health::Crit, Health::Good);
    lemma_of_one_severity(w, Health::Warn, Health::Crit);
    lemma_of_one_severity(w, Health::Warn, Health::Good);
    lemma_of_one_severity(g, Health::Good, Health::Crit);
    lemma_of_one_severity(g, Health::Good, Health::Warn);
    assert(c + Seq::<Verdict>::empty() + Seq::<Verdict>::empty() =~= c);
    assert(Seq::<Verdict>::empty() + w + Seq::<Verdict>::empty() =~= w);
    assert(Seq::<Verdict>::empty() + Seq::<Verdict>::empty() + g =~= g);
}

/// Verdicts that are in order stay so.
proof fn lemma_sorted_stays(v: Seq<Verdict>)
    requires
        forall|i: int, j: int|
            0 <= i < j < v.len() ==> severity((#[trigger] v[i]).severity) >= severity(
                (#[trigger] v[j]).severity,
            ),
    ensures
        worst_first(v) == v,
    decreases v.len(),
{
    if v.len() > 0 {
        let init = v.drop_last();
        let x = v.last();
        assert forall|i: int, j: int| 0 <= i < j < init.len() implies severity(
            (#[trigger] init[i]).severity,
        ) >= severity((#[trigger] init[j]).severity) by {
            assert(init[i] == v[i] && init[j] == v[j]);
        }
        lemma_sorted_stays(init);
        lemma_of_severity(init, Health::Warn);
        lemma_of_severity(init, Health::Good);
        let w = of_severity(init, Health::Warn);
        let g = of_severity(init, Health::Good);
        if x.severity != Health::Good && g.len() > 0 {
            assert(init.contains(g[0]));
            let k = choose|k: int| 0 <= k < init.len() && init[k] == g[0];
            assert(v[k].severity == Health::Good && v[v.len() - 1] == x);
        }
        if x.severity == Health::Crit && w.len() > 0 {
            assert(init.contains(w[0]));
            let k = choose|k: int| 0 <= k < init.len() && init[k] == w[0];
            assert(v[k].severity == Health::Warn && v[v.len() - 1] == x);
        }
        assert(worst_first(v) =~= worst_first(init).push(x));
        assert(init.push(x) =~= v);
    } else {
        assert(worst_first(v) =~= v);
    }
}

/// There is always a verdict, and the first one is the worst.
pub proof fn law_diagnosis_is_never_empty(s: SignalsModel)
    ensures
        diagnosed(s).len() > 0,
        forall|i: int|
            0 <= i < diagnosed(s).len() ==> severity((#[trigger] diagnosed(s)[i]).severity)
                <= severity(diagnosed(s)[0].severity),
{
    reveal(diagnosed);
    let all = if findings(s).len() == 0 {
        seq![no_problem()]
    } else {
        findings(s)
    };
    assert(all.len() > 0);
    assert(all.contains(all[0]));
    law_worst_first_sorts(all, all[0]);
    assert(worst_first(all).contains(all[0]));
}

/// The rules say `v`, some of them.
pub open spec fn ruled(s: SignalsModel, v: Verdict) -> bool {
    ||| nic_rule(s) == Some(v)
    ||| wifi_rule(s) == Some(v)
    ||| gateway_rule(s) == Some(v)
    ||| captive_rule(s) == Some(v)
    ||| isp_rule(s) == Some(v)
    ||| bloat_rule(s) == Some(v)
    ||| dns_rule(s) == Some(v)
    ||| honesty_rule(s) == Some(v)
    ||| transport_rule(s) == Some(v)
    ||| cert_rule(s) == Some(v)
    ||| remote_rule(s) == Some(v)
    ||| endpoint_rule(s) == Some(v)
}

/// A ruling is what one of the rules says.
pub proof fn lemma_rulings_hold(s: SignalsModel, v: Verdict)
    ensures
        rulings(s).contains(v) <==> ruled(s, v),
{
    reveal(rulings);
    let a1 = given(nic_rule(s));
    let a2 = a1 + given(wifi_rule(s));
    let a3 = a2 + given(gateway_rule(s));
    let a4 = a3 + given(captive_rule(s));
    let a5 = a4 + given(isp_rule(s));
    let a6 = a5 + given(bloat_rule(s));
    let a7 = a6 + given(dns_rule(s));
    let a8 = a7 + given(honesty_rule(s));
    let a9 = a8 + given(transport_rule(s));
    let a10 = a9 + given(cert_rule(s));
    let a11 = a10 + given(remote_rule(s));
    let none = Seq::<Verdict>::empty();
    assert(none + a1 =~= a1);
    lemma_given(none, nic_rule(s), v);
    lemma_given(a1, wifi_rule(s), v);
    lemma_given(a2, gateway_rule(s), v);
    lemma_given(a3, captive_rule(s), v);
    lemma_given(a4, isp_rule(s), v);
    lemma_given(a5, bloat_rule(s), v);
    lemma_given(a6, dns_rule(s), v);
    lemma_given(a7, honesty_rule(s), v);
    lemma_given(a8, transport_rule(s), v);
    lemma_given(a9, cert_rule(s), v);
    lemma_given(a10, remote_rule(s), v);
    lemma_given(a11, endpoint_rule(s), v);
}

pub proof fn lemma_given(before: Seq<Verdict>, d: Option<Verdict>, v: Verdict)
    ensures
        (before + given(d)).contains(v) <==> before.contains(v) || d == Some(v),
{
    let all = before + given(d);
    if before.contains(v) {
        let k = choose|k: int| 0 <= k < before.len() && before[k] == v;
        assert(all[k] == v);
    }
    if d == Some(v) {
        assert(all[before.len() as int] == v);
    }
    if all.contains(v) {
        let k = choose|k: int| 0 <= k < all.len() && all[k] == v;
        if k < before.len() {
            assert(before[k] == v);
        }
    }
}

/// What the diagnosis lists is what was found, or else that nothing is wrong.
pub proof fn law_diagnosis_lists_the_findings(s: SignalsModel, v: Verdict)
    ensures
        diagnosed(s).contains(v) <==> findings(s).contains(v) || (findings(s).len() == 0 && v
            == no_problem()),
{
    reveal(diagnosed);
    let all = if findings(s).len() == 0 {
        seq![no_problem()]
    } else {
        findings(s)
    };
    law_worst_first_sorts(all, v);
    if findings(s).len() == 0 {
        assert(all[0] == no_problem());
    }
}

/// What was found is what the rules say, the first of it with its symptoms, or a fault that
/// no rule looks for and that is worse than all that they say.
pub proof fn lemma_findings(s: SignalsModel, v: Verdict)
    ensures
        findings(s).contains(v) <==> with_symptoms(ranked(s), s).contains(v) || (noticed(
            s,
            first_layer(ranked(s)),
            v,
        ) && severity(v.severity) > severity(first_severity(ranked(s)))),
        with_symptoms(ranked(s), s).contains(v) ==> rulings(s).contains(v) || (ranked(s).len() > 0
            && v == raised(ranked(s)[0], s)),
        ranked(s).len() == rulings(s).len(),
{
    let r = ranked(s);
    lemma_with_unsaid(with_symptoms(r, s), s, first_severity(r), first_layer(r), v);
    law_worst_first_sorts(rulings(s), v);
    lemma_worst_first_keeps_all(rulings(s));
    if with_symptoms(r, s).contains(v) && r.len() > 0 {
        let k = choose|k: int| 0 <= k < r.len() && with_symptoms(r, s)[k] == v;
        if k > 0 {
            assert(r[k] == v);
        }
    }
}

proof fn lemma_worst_first_keeps_all(v: Seq<Verdict>)
    ensures
        worst_first(v).len() == v.len(),
    decreases v.len(),
{
    if v.len() > 0 {
        lemma_worst_first_keeps_all(v.drop_last());
    }
}

/// `x` is the finding `v`, with more evidence and no milder.
pub open spec fn confirms(x: Verdict, v: Verdict) -> bool {
    &&& x.layer == v.layer
    &&& x.headline == v.headline
    &&& v.evidence.is_prefix_of(x.evidence)
    &&& severity(x.severity) >= severity(v.severity)
}

/// The listed verdict that confirms a ruling.
proof fn lemma_confirmed(s: SignalsModel, v: Verdict) -> (x: Verdict)
    requires
        rulings(s).contains(v),
    ensures
        diagnosed(s).contains(x),
        confirms(x, v),
        v.severity == Health::Crit ==> x == v,
{
    let r = ranked(s);
    law_worst_first_sorts(rulings(s), v);
    let k = choose|k: int| 0 <= k < r.len() && r[k] == v;
    let x = with_symptoms(r, s)[k];
    law_taking_symptoms_on(r[0], s);
    assert(with_symptoms(r, s).contains(x));
    assert(v.evidence.is_prefix_of(v.evidence));
    lemma_findings(s, x);
    law_diagnosis_lists_the_findings(s, x);
    x
}

/// Every ruling is listed, if need be with the symptoms that it accounts for; and unless
/// something is wrong that no rule looks for nothing else is.
pub proof fn law_diagnosis_lists_the_rulings(s: SignalsModel, v: Verdict)
    ensures
        rulings(s).contains(v) ==> exists|x: Verdict| #[trigger]
            diagnosed(s).contains(x) && confirms(x, v),
        settled(s) ==> diagnosed(s).len() == (if rulings(s).len() == 0 {
            1
        } else {
            rulings(s).len()
        }),
{
    if rulings(s).contains(v) {
        let x = lemma_confirmed(s, v);
        assert(diagnosed(s).contains(x) && confirms(x, v));
    }
    if settled(s) {
        let r = ranked(s);
        lemma_worst_first_keeps_all(rulings(s));
        reveal(with_unsaid);
        assert(findings(s) =~= with_symptoms(r, s));
        reveal(diagnosed);
        if findings(s).len() == 0 {
            lemma_worst_first_keeps_all(seq![no_problem()]);
        } else {
            lemma_worst_first_keeps_all(findings(s));
        }
    }
}

/// Nothing is wrong that no rule looks for.
pub open spec fn settled(s: SignalsModel) -> bool {
    &&& !bad(s.capacity)
    &&& !bad(s.route)
    &&& !bad(s.jitter_gateway)
    &&& !bad(s.jitter_internet)
    &&& !bad(s.radio)
    &&& !bad(s.reach)
}

/// "No problems detected" comes alone, and only where nothing was found.
pub proof fn law_no_problem_comes_alone(s: SignalsModel)
    ensures
        findings(s).len() == 0 ==> diagnosed(s) == seq![no_problem()],
        findings(s).len() > 0 ==> !diagnosed(s).contains(no_problem()),
{
    if findings(s).len() == 0 {
        reveal(diagnosed);
        let one = seq![no_problem()];
        assert(one.drop_last() =~= Seq::<Verdict>::empty());
        assert(of_severity(one.drop_last(), Health::Good) =~= Seq::<Verdict>::empty());
        assert(of_severity(one.drop_last(), Health::Warn) =~= Seq::<Verdict>::empty());
        assert(of_severity(one.drop_last(), Health::Crit) =~= Seq::<Verdict>::empty());
        assert(worst_first(one) =~= one);
    } else {
        law_diagnosis_lists_the_findings(s, no_problem());
        lemma_findings(s, no_problem());
        lemma_rulings_hold(s, no_problem());
        lemma_rules_name_a_fault(s);
        if ranked(s).len() > 0 {
            let first = ranked(s)[0];
            law_worst_first_sorts(rulings(s), first);
            lemma_rulings_hold(s, first);
            law_taking_symptoms_on(first, s);
            lemma_rules_name_a_fault_in_words(s, first);
        }
    }
}

/// What is wrong lies somewhere or has a severity: no rule says that nothing is wrong.
proof fn lemma_rules_name_a_fault(s: SignalsModel)
    ensures
        nic_rule(s) != Some(no_problem()),
        wifi_rule(s) != Some(no_problem()),
        gateway_rule(s) != Some(no_problem()),
        captive_rule(s) != Some(no_problem()),
        isp_rule(s) != Some(no_problem()),
        bloat_rule(s) != Some(no_problem()),
        dns_rule(s) != Some(no_problem()),
        honesty_rule(s) != Some(no_problem()),
        transport_rule(s) != Some(no_problem()),
        cert_rule(s) != Some(no_problem()),
        remote_rule(s) != Some(no_problem()),
        endpoint_rule(s) != Some(no_problem()),
{
}

/// No rule says in so many words that nothing is wrong.
proof fn lemma_rules_name_a_fault_in_words(s: SignalsModel, v: Verdict)
    requires
        ruled(s, v),
    ensures
        v.layer is None ==> bad(v.severity),
{
}

/// Failing lookups are a symptom, not a cause, while nothing gets through: the timing of DNS
/// is not blamed without some connectivity.
pub proof fn law_dns_timing_is_not_blamed_in_an_outage(s: SignalsModel)
    requires
        !some_connectivity(s),
    ensures
        dns_rule(s) is None,
{
}

/// A captive portal is reported, and no generic outage beside it.
pub proof fn law_a_captive_portal_replaces_the_outage_verdict(s: SignalsModel)
    requires
        s.captive,
    ensures
        isp_rule(s) is None,
        captive_rule(s) matches Some(v) && diagnosed(s).contains(v) && v.severity == Health::Crit,
{
    let v = captive_rule(s)->0;
    lemma_rulings_hold(s, v);
    let x = lemma_confirmed(s, v);
}

/// A card that works is never mentioned.
pub proof fn law_a_clean_card_is_not_mentioned(s: SignalsModel, v: Verdict)
    requires
        s.nic_errors == Health::Good,
        diagnosed(s).contains(v),
    ensures
        v.layer != Some(Layer::Nic),
{
    let first = ranked(s)[0];
    lemma_rulings_hold(s, v);
    law_diagnosis_lists_the_findings(s, v);
    lemma_findings(s, v);
    if ranked(s).len() > 0 {
        law_worst_first_sorts(rulings(s), first);
        lemma_rulings_hold(s, first);
        law_taking_symptoms_on(first, s);
    }
}

/// The verdict on a certificate blames no layer.
pub proof fn law_an_expiring_certificate_blames_no_layer(s: SignalsModel)
    requires
        bad(s.cert),
    ensures
        cert_rule(s) matches Some(v) && v.layer is None && exists|x: Verdict| #[trigger]
            diagnosed(s).contains(x) && confirms(x, v),
{
    let v = cert_rule(s)->0;
    lemma_rulings_hold(s, v);
    law_diagnosis_lists_the_rulings(s, v);
}

// ---------------------------------------------------------------------------------------
// One verdict for each local layer
// ---------------------------------------------------------------------------------------

/// How many of the verdicts blame the layer.
pub open spec fn blaming(v: Seq<Verdict>, l: Layer) -> nat
    decreases v.len(),
{
    if v.len() == 0 {
        0
    } else {
        blaming(v.drop_last(), l) + (if v.last().layer == Some(l) {
            1nat
        } else {
            0nat
        })
    }
}

proof fn lemma_blaming_sum(a: Seq<Verdict>, b: Seq<Verdict>, l: Layer)
    ensures
        blaming(a + b, l) == blaming(a, l) + blaming(b, l),
    decreases b.len(),
{
    if b.len() == 0 {
        assert(a + b =~= a);
    } else {
        assert((a + b).drop_last() =~= a + b.drop_last());
        lemma_blaming_sum(a, b.drop_last(), l);
    }
}

/// Whether a verdict blames the layer, as a count.
pub open spec fn blames(rule: Option<Verdict>, l: Layer) -> nat {
    if rule matches Some(x) && x.layer == Some(l) {
        1
    } else {
        0
    }
}

proof fn lemma_blaming_given(before: Seq<Verdict>, d: Option<Verdict>, l: Layer)
    ensures
        blaming(before + given(d), l) == blaming(before, l) + blames(d, l),
{
    match d {
        Some(x) => {
            assert((before + given(d)).drop_last() =~= before);
            assert((before + given(d)).last() == x);
        },
        None => {
            assert(before + given(d) =~= before);
        },
    }
}

/// Sorting verdicts changes nothing about how many blame a layer.
proof fn lemma_blaming_sorted(v: Seq<Verdict>, l: Layer)
    ensures
        blaming(worst_first(v), l) == blaming(v, l),
{
    lemma_blaming_parts(v, l);
    let c = of_severity(v, Health::Crit);
    let w = of_severity(v, Health::Warn);
    lemma_blaming_sum(c + w, of_severity(v, Health::Good), l);
    lemma_blaming_sum(c, w, l);
}

proof fn lemma_blaming_parts(v: Seq<Verdict>, l: Layer)
    ensures
        blaming(v, l) == blaming(of_severity(v, Health::Crit), l) + blaming(
            of_severity(v, Health::Warn),
            l,
        ) + blaming(of_severity(v, Health::Good), l),
    decreases v.len(),
{
    if v.len() > 0 {
        let init = v.drop_last();
        lemma_blaming_parts(init, l);
        let h = v.last().severity;
        assert(of_severity(v, h).drop_last() =~= of_severity(init, h));
    }
}

/// Verdicts on the same layers blame each layer as often.
proof fn lemma_blaming_same(a: Seq<Verdict>, b: Seq<Verdict>, l: Layer)
    requires
        a.len() == b.len(),
        forall|i: int| 0 <= i < a.len() ==> (#[trigger] a[i]).layer == (#[trigger] b[i]).layer,
    ensures
        blaming(a, l) == blaming(b, l),
    decreases a.len(),
{
    if a.len() > 0 {
        assert forall|i: int| 0 <= i < a.drop_last().len() implies (
        #[trigger] a.drop_last()[i]).layer == (#[trigger] b.drop_last()[i]).layer by {
            assert(a[i].layer == b[i].layer);
        }
        lemma_blaming_same(a.drop_last(), b.drop_last(), l);
        assert(a[a.len() - 1].layer == b[b.len() - 1].layer);
    }
}

proof fn lemma_blaming_six(
    before: Seq<Verdict>,
    a: Option<Verdict>,
    b: Option<Verdict>,
    c: Option<Verdict>,
    d: Option<Verdict>,
    e: Option<Verdict>,
    f: Option<Verdict>,
    l: Layer,
)
    ensures
        blaming(before + given(a) + given(b) + given(c) + given(d) + given(e) + given(f), l)
            == blaming(before, l) + blames(a, l) + blames(b, l) + blames(c, l) + blames(d, l)
            + blames(e, l) + blames(f, l),
{
    let v1 = before + given(a);
    let v2 = v1 + given(b);
    let v3 = v2 + given(c);
    let v4 = v3 + given(d);
    let v5 = v4 + given(e);
    lemma_blaming_given(before, a, l);
    lemma_blaming_given(v1, b, l);
    lemma_blaming_given(v2, c, l);
    lemma_blaming_given(v3, d, l);
    lemma_blaming_given(v4, e, l);
    lemma_blaming_given(v5, f, l);
}

/// What the rules say of each local layer.
proof fn lemma_blaming_rulings(s: SignalsModel, l: Layer)
    ensures
        l == Layer::Nic ==> blaming(rulings(s), l) == blames(nic_rule(s), l),
        l == Layer::Wifi ==> blaming(rulings(s), l) == blames(wifi_rule(s), l),
        l == Layer::Gateway ==> blaming(rulings(s), l) == blames(gateway_rule(s), l),
{
    let none = Seq::<Verdict>::empty();
    let half = none + given(nic_rule(s)) + given(wifi_rule(s)) + given(gateway_rule(s)) + given(
        captive_rule(s),
    ) + given(isp_rule(s)) + given(bloat_rule(s));
    assert(rulings(s) == half + given(dns_rule(s)) + given(honesty_rule(s)) + given(
        transport_rule(s),
    ) + given(cert_rule(s)) + given(remote_rule(s)) + given(endpoint_rule(s))) by {
        reveal(rulings);
        assert(none + given(nic_rule(s)) =~= given(nic_rule(s)));
    }
    lemma_blaming_six(
        none,
        nic_rule(s),
        wifi_rule(s),
        gateway_rule(s),
        captive_rule(s),
        isp_rule(s),
        bloat_rule(s),
        l,
    );
    lemma_blaming_six(
        half,
        dns_rule(s),
        honesty_rule(s),
        transport_rule(s),
        cert_rule(s),
        remote_rule(s),
        endpoint_rule(s),
        l,
    );
}

proof fn lemma_blaming_said(s: SignalsModel, l: Layer)
    ensures
        blaming(with_symptoms(ranked(s), s), l) == blaming(rulings(s), l),
{
    let r = ranked(s);
    let said = with_symptoms(r, s);
    lemma_blaming_sorted(rulings(s), l);
    if r.len() > 0 {
        law_taking_symptoms_on(r[0], s);
    }
    assert forall|i: int| 0 <= i < r.len() implies (#[trigger] r[i]).layer == (
    #[trigger] said[i]).layer by {}
    lemma_blaming_same(r, said, l);
}

proof fn lemma_blaming_findings(s: SignalsModel, l: Layer)
    ensures
        blaming(diagnosed(s), l) == blaming(findings(s), l),
{
    reveal(diagnosed);
    let all = findings(s);
    if all.len() == 0 {
        let one = seq![no_problem()];
        assert(one.drop_last() =~= Seq::<Verdict>::empty());
        assert(blaming(one.drop_last(), l) == 0);
        lemma_blaming_sorted(one, l);
    } else {
        lemma_blaming_sorted(all, l);
    }
}

proof fn lemma_blaming_diagnosed(s: SignalsModel, l: Layer)
    ensures
        ({
            let w = first_severity(ranked(s));
            blaming(diagnosed(s), l) == blaming(rulings(s), l) + blames(kept(radio_rule(s), w), l)
                + blames(kept(route_rule(s), w), l) + blames(kept(capacity_rule(s), w), l) + blames(
                kept(jitter_rule(s), w),
                l,
            ) + blames(kept(web_rule(s, first_layer(ranked(s))), w), l)
        }),
{
    let r = ranked(s);
    let w = first_severity(r);
    let said = with_symptoms(r, s);
    lemma_blaming_said(s, l);
    lemma_blaming_findings(s, l);
    lemma_blaming_six(
        said,
        kept(radio_rule(s), w),
        kept(route_rule(s), w),
        kept(capacity_rule(s), w),
        kept(jitter_rule(s), w),
        kept(web_rule(s, first_layer(r)), w),
        None,
        l,
    );
    reveal(with_unsaid);
    assert(findings(s) + given(None) =~= findings(s));
}

/// Without a local fault no verdict that the rules give comes first with a local layer.
proof fn lemma_nothing_local(s: SignalsModel)
    requires
        !local_fault(s),
    ensures
        first_layer(ranked(s)) != Some(Layer::Nic),
        first_layer(ranked(s)) != Some(Layer::Wifi),
        first_layer(ranked(s)) != Some(Layer::Gateway),
{
    if ranked(s).len() > 0 {
        law_worst_first_sorts(rulings(s), ranked(s)[0]);
        lemma_rulings_hold(s, ranked(s)[0]);
    }
}

/// Nothing local is reported twice. There is one verdict on the card exactly when it has
/// errors, and never more than one on the radio or on the gateway. But for recoveries and
/// jitter that no rule looks for, there is one on the radio exactly when its signal or quality
/// is bad, and one on the gateway exactly when it is bad and the radio is not.
pub proof fn law_nothing_local_is_reported_twice(s: SignalsModel)
    ensures
        blaming(diagnosed(s), Layer::Nic) == (if bad(s.nic_errors) {
            1nat
        } else {
            0
        }),
        blaming(diagnosed(s), Layer::Wifi) <= 1,
        blaming(diagnosed(s), Layer::Gateway) <= 1,
        !bad(s.radio) ==> blaming(diagnosed(s), Layer::Wifi) == (if bad(wifi_health(s)) {
            1nat
        } else {
            0
        }),
        !bad(s.jitter_gateway) ==> blaming(diagnosed(s), Layer::Gateway) == (if gateway_bad(s)
            && !bad(wifi_health(s)) {
            1nat
        } else {
            0
        }),
{
    lemma_blaming_diagnosed(s, Layer::Nic);
    lemma_blaming_diagnosed(s, Layer::Wifi);
    lemma_blaming_diagnosed(s, Layer::Gateway);
    lemma_blaming_rulings(s, Layer::Nic);
    lemma_blaming_rulings(s, Layer::Wifi);
    lemma_blaming_rulings(s, Layer::Gateway);
    if !local_fault(s) {
        lemma_nothing_local(s);
    }
}

// ---------------------------------------------------------------------------------------
// What the worst verdict covers
// ---------------------------------------------------------------------------------------

/// The counts of a snapshot agree with what they count.
pub open spec fn coherent(s: SignalsModel) -> bool {
    &&& s.internet_bad <= s.internet_total
    &&& s.internet_bad > 0 <==> bad(s.internet)
    &&& s.reach_bad <= s.reach_total
    &&& s.reach_all_fail <==> s.reach_total > 0 && s.reach_bad == s.reach_total
}

/// What the rules blame first is what the diagnosis blames, unless something that no rule
/// looks for is worse than all that they say.
pub proof fn law_a_symptom_goes_to_the_layer_of_its_cause(s: SignalsModel)
    requires
        coherent(s),
        !bad(s.radio),
        !bad(s.route),
        !bad(s.capacity),
        !bad(s.jitter_gateway),
        !bad(s.jitter_internet),
    ensures
        blamed(diagnosed(s)) == blamed(ranked(s)),
{
    let r = ranked(s);
    let w = first_severity(r);
    let said = with_symptoms(r, s);
    let web = kept(web_rule(s, first_layer(r)), w);
    reveal(with_unsaid);
    reveal(diagnosed);
    assert(findings(s) =~= said + given(web));
    law_diagnosis_is_never_empty(s);
    let top = diagnosed(s)[0];
    assert(diagnosed(s).contains(top));
    law_diagnosis_lists_the_findings(s, top);
    if r.len() > 0 {
        let first = r[0];
        law_worst_first_sorts(rulings(s), first);
        lemma_rulings_hold(s, first);
        assert(bad(first.severity));
        law_taking_symptoms_on(first, s);
        assert forall|i: int, j: int| 0 <= i < j < said.len() implies severity(
            (#[trigger] said[i]).severity,
        ) >= severity((#[trigger] said[j]).severity) by {
            assert(severity(r[i].severity) >= severity(r[j].severity));
        }
        lemma_sorted_stays(said);
        if web is None {
            assert(findings(s) =~= said);
        } else {
            lemma_given(said, web, top);
            let all = findings(s);
            assert(all[said.len() as int] == web->0);
            assert(all.contains(web->0));
            law_diagnosis_lists_the_findings(s, web->0);
            lemma_worst_covers(s, web->0);
            if top != web->0 {
                let k = choose|k: int| 0 <= k < said.len() && said[k] == top;
                if k > 0 {
                    assert(severity(r[0].severity) >= severity(r[k].severity));
                }
            }
        }
        assert(top.layer == first.layer && bad(top.severity));
    } else {
        assert(said =~= Seq::<Verdict>::empty());
        assert(top.layer is None);
        if web is None {
            assert(findings(s).len() == 0);
            law_no_problem_comes_alone(s);
            assert(diagnosed(s).drop_first() =~= Seq::<Verdict>::empty());
        } else {
            lemma_given(said, web, top);
        }
    }
}

/// `v` is among the verdicts, so the worst one is at least as severe.
proof fn lemma_worst_covers(s: SignalsModel, v: Verdict)
    requires
        diagnosed(s).contains(v),
    ensures
        severity(diagnosed(s)[0].severity) >= severity(v.severity),
{
    law_diagnosis_is_never_empty(s);
    let k = choose|k: int| 0 <= k < diagnosed(s).len() && diagnosed(s)[k] == v;
    assert(diagnosed(s)[k] == v);
}

/// What a rule says is among the verdicts, so the worst one is at least as severe.
pub proof fn lemma_worst_covers_rule(s: SignalsModel, rule: Option<Verdict>)
    requires
        rule matches Some(v) ==> ruled(s, v),
    ensures
        rule matches Some(v) ==> severity(diagnosed(s)[0].severity) >= severity(v.severity),
{
    match rule {
        Some(v) => {
            lemma_rulings_hold(s, v);
            let x = lemma_confirmed(s, v);
            lemma_worst_covers(s, x);
        },
        None => {},
    }
}

/// What no rule looks for is said where it is worse than all of their verdicts, so the worst
/// verdict is at least as severe either way.
pub proof fn lemma_worst_covers_unsaid(s: SignalsModel, rule: Option<Verdict>)
    requires
        rule matches Some(v) ==> noticed(s, first_layer(ranked(s)), v),
    ensures
        rule matches Some(v) ==> severity(diagnosed(s)[0].severity) >= severity(v.severity),
{
    match rule {
        Some(v) => {
            let r = ranked(s);
            if severity(v.severity) > severity(first_severity(r)) {
                lemma_findings(s, v);
                law_diagnosis_lists_the_findings(s, v);
                lemma_worst_covers(s, v);
            } else if r.len() > 0 {
                law_worst_first_sorts(rulings(s), r[0]);
                let x = lemma_confirmed(s, r[0]);
                lemma_worst_covers(s, x);
            }
        },
        None => {},
    }
}

/// Where the rules say anything the worst verdict is as severe as any symptom.
proof fn lemma_worst_covers_symptoms(s: SignalsModel)
    requires
        rulings(s).len() > 0,
    ensures
        covers(diagnosed(s)[0], lan_symptom(s)),
        covers(diagnosed(s)[0], hosts_symptom(s)),
        covers(diagnosed(s)[0], lookup_symptom(s)),
        covers(diagnosed(s)[0], web_symptom(s)),
        covers(diagnosed(s)[0], radio_symptom(s)),
        covers(diagnosed(s)[0], jitter_symptom(s)),
{
    let r = ranked(s);
    lemma_worst_first_keeps_all(rulings(s));
    let x = raised(r[0], s);
    law_taking_symptoms_on(r[0], s);
    assert(with_symptoms(r, s)[0] == x);
    assert(with_symptoms(r, s).contains(x));
    lemma_findings(s, x);
    law_diagnosis_lists_the_findings(s, x);
    lemma_worst_covers(s, x);
}

/// A rule that speaks is a ruling.
proof fn lemma_spoken(s: SignalsModel, rule: Option<Verdict>)
    requires
        rule matches Some(v) && ruled(s, v),
    ensures
        rulings(s).len() > 0,
{
    lemma_rulings_hold(s, rule->0);
}

/// The rules have something to say about each symptom.
proof fn lemma_symptoms_have_causes(s: SignalsModel)
    ensures
        near_fault(s) ==> rulings(s).len() > 0,
        local_fault(s) ==> rulings(s).len() > 0,
        coherent(s) && bad(s.internet) ==> rulings(s).len() > 0,
        coherent(s) && s.reach_bad > 0 ==> rulings(s).len() > 0,
        some_connectivity(s) && bad(lookup_health(s)) ==> rulings(s).len() > 0,
{
    if nic_rule(s) is Some {
        lemma_spoken(s, nic_rule(s));
    }
    if wifi_rule(s) is Some {
        lemma_spoken(s, wifi_rule(s));
    }
    if gateway_rule(s) is Some {
        lemma_spoken(s, gateway_rule(s));
    }
    if captive_rule(s) is Some {
        lemma_spoken(s, captive_rule(s));
    }
    if isp_rule(s) is Some {
        lemma_spoken(s, isp_rule(s));
    }
    if remote_rule(s) is Some {
        lemma_spoken(s, remote_rule(s));
    }
    if endpoint_rule(s) is Some {
        lemma_spoken(s, endpoint_rule(s));
    }
    if dns_rule(s) is Some {
        lemma_spoken(s, dns_rule(s));
    }
}

/// The diagnosis never looks milder than a fault it knows of: its worst verdict is at least
/// as severe as the card's errors, the radio and what is reported of it, the gateway and its
/// jitter, that of the internet hosts, a captive portal, the route, the capacity, bufferbloat,
/// the honesty of the resolvers, the handshakes and the certificates; and in a snapshot whose
/// counts are coherent also as the internet hosts, the timing of the resolvers and the
/// endpoints.
#[verifier::spinoff_prover]
#[verifier::rlimit(40)]
pub proof fn law_known_faults_are_explained(s: SignalsModel)
    ensures
        ({
            let worst = severity(diagnosed(s)[0].severity);
            &&& worst >= severity(s.nic_errors)
            &&& worst >= severity(s.wifi_signal)
            &&& worst >= severity(s.wifi_quality)
            &&& worst >= severity(s.radio)
            &&& s.gateway matches Some(h) ==> worst >= severity(h)
            &&& worst >= severity(s.jitter_gateway)
            &&& worst >= severity(s.jitter_internet)
            &&& s.captive ==> worst == severity(Health::Crit)
            &&& worst >= severity(s.route)
            &&& worst >= severity(s.capacity)
            &&& worst >= severity(s.bufferbloat)
            &&& worst >= severity(s.dns_integrity)
            &&& worst >= severity(s.transport)
            &&& worst >= severity(s.cert)
            &&& !s.reach_all_fail && 0 < s.reach_bad < s.reach_total ==> worst == severity(
                Health::Crit,
            )
            &&& coherent(s) ==> worst >= severity(s.internet)
            &&& coherent(s) && s.dns_system is Some ==> worst >= severity(s.dns_system->0)
            &&& coherent(s) ==> worst >= severity(s.dns_public)
            &&& coherent(s) ==> worst >= severity(s.reach)
        }),
{
    let l = first_layer(ranked(s));
    lemma_worst_covers_rule(s, nic_rule(s));
    lemma_worst_covers_rule(s, wifi_rule(s));
    lemma_worst_covers_rule(s, captive_rule(s));
    lemma_worst_covers_rule(s, bloat_rule(s));
    lemma_worst_covers_rule(s, honesty_rule(s));
    lemma_worst_covers_rule(s, transport_rule(s));
    lemma_worst_covers_rule(s, cert_rule(s));
    lemma_worst_covers_rule(s, endpoint_rule(s));
    lemma_worst_covers_unsaid(s, radio_rule(s));
    lemma_worst_covers_unsaid(s, route_rule(s));
    lemma_worst_covers_unsaid(s, capacity_rule(s));
    lemma_worst_covers_unsaid(s, jitter_rule(s));
    lemma_worst_covers_unsaid(s, web_rule(s, l));
    lemma_symptoms_have_causes(s);
    if rulings(s).len() > 0 {
        lemma_worst_covers_symptoms(s);
    }
}

/// Layers are told apart by their tags.
pub proof fn law_tags_tell_layers_apart(a: Layer, b: Layer)
    ensures
        layer_tag(a) == layer_tag(b) <==> a == b,
{
    reveal_strlit("NIC");
    reveal_strlit("WI-FI");
    reveal_strlit("GATEWAY");
    reveal_strlit("ISP/WAN");
    reveal_strlit("DNS");
    reveal_strlit("REMOTE");
    assert("NIC"@[0] == 'N' && "WI-FI"@[0] == 'W' && "GATEWAY"@[0] == 'G' && "ISP/WAN"@[0] == 'I'
        && "DNS"@[0] == 'D' && "REMOTE"@[0] == 'R');
}

} // verus!
