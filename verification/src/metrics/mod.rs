//! Metric identities and the readings that probes produce.

use std::collections::VecDeque;

use vstd::prelude::*;

use crate::metrics::dns::{Answer, Integrity};
use crate::units::Reading;

pub mod dns;
pub mod iface;
pub mod link;
pub mod ping;
pub mod pubip;
pub mod reachability;
pub mod routing;
pub mod tcp;
pub mod throughput;
pub mod tls;

verus! {

/// Stable identifier for each dashboard section / metric family.
#[derive(Debug, Clone, Copy, PartialEq, Eq, PartialOrd, Ord, Hash, Structural)]
pub enum MetricId {
    Latency,
    Loss,
    Jitter,
    Dns,
    DnsIntegrity,
    Routing,
    Throughput,
    Bufferbloat,
    Reachability,
    CaptivePortal,
    PublicIp,
    Link,
    InterfaceErrors,
    TcpHandshake,
    Tls,
    Certificate,
    /// The dashboard's own incident log.
    Log,
}

/// The position of a metric in the order of [`MetricId`].
pub open spec fn metric_rank(m: MetricId) -> int {
    match m {
        MetricId::Latency => 0,
        MetricId::Loss => 1,
        MetricId::Jitter => 2,
        MetricId::Dns => 3,
        MetricId::DnsIntegrity => 4,
        MetricId::Routing => 5,
        MetricId::Throughput => 6,
        MetricId::Bufferbloat => 7,
        MetricId::Reachability => 8,
        MetricId::CaptivePortal => 9,
        MetricId::PublicIp => 10,
        MetricId::Link => 11,
        MetricId::InterfaceErrors => 12,
        MetricId::TcpHandshake => 13,
        MetricId::Tls => 14,
        MetricId::Certificate => 15,
        MetricId::Log => 16,
    }
}

/// Short human label used in headers and the incident log.
pub open spec fn metric_label(m: MetricId) -> Seq<char> {
    match m {
        MetricId::Latency => "latency"@,
        MetricId::Loss => "loss"@,
        MetricId::Jitter => "jitter"@,
        MetricId::Dns => "dns"@,
        MetricId::DnsIntegrity => "dns integrity"@,
        MetricId::Routing => "routing"@,
        MetricId::Throughput => "throughput"@,
        MetricId::Bufferbloat => "bufferbloat"@,
        MetricId::Reachability => "reachability"@,
        MetricId::CaptivePortal => "captive portal"@,
        MetricId::PublicIp => "public ip"@,
        MetricId::Link => "link"@,
        MetricId::InterfaceErrors => "interface errors"@,
        MetricId::TcpHandshake => "tcp"@,
        MetricId::Tls => "tls"@,
        MetricId::Certificate => "certificate"@,
        MetricId::Log => "log"@,
    }
}

impl MetricId {
    /// Short human label used in headers and the incident log.
    pub fn label(self) -> (s: &'static str)
        ensures
            s@ == metric_label(self),
    {
        match self {
            MetricId::Latency => "latency",
            MetricId::Loss => "loss",
            MetricId::Jitter => "jitter",
            MetricId::Dns => "dns",
            MetricId::DnsIntegrity => "dns integrity",
            MetricId::Routing => "routing",
            MetricId::Throughput => "throughput",
            MetricId::Bufferbloat => "bufferbloat",
            MetricId::Reachability => "reachability",
            MetricId::CaptivePortal => "captive portal",
            MetricId::PublicIp => "public ip",
            MetricId::Link => "link",
            MetricId::InterfaceErrors => "interface errors",
            MetricId::TcpHandshake => "tcp",
            MetricId::Tls => "tls",
            MetricId::Certificate => "certificate",
            MetricId::Log => "log",
        }
    }

    /// The position in the order of the metrics.
    pub fn rank(self) -> (n: u8)
        ensures
            n == metric_rank(self),
    {
        match self {
            MetricId::Latency => 0,
            MetricId::Loss => 1,
            MetricId::Jitter => 2,
            MetricId::Dns => 3,
            MetricId::DnsIntegrity => 4,
            MetricId::Routing => 5,
            MetricId::Throughput => 6,
            MetricId::Bufferbloat => 7,
            MetricId::Reachability => 8,
            MetricId::CaptivePortal => 9,
            MetricId::PublicIp => 10,
            MetricId::Link => 11,
            MetricId::InterfaceErrors => 12,
            MetricId::TcpHandshake => 13,
            MetricId::Tls => 14,
            MetricId::Certificate => 15,
            MetricId::Log => 16,
        }
    }
}

/// One traceroute hop: its address (`"*"` if it never responded), the best RTT seen across
/// the probes to it, and the percentage of probes lost.
#[derive(Debug, Clone, PartialEq, Eq)]
pub struct Hop {
    pub addr: String,
    pub min_rtt_ms: Option<Reading>,
    pub loss_pct: Reading,
}

/// What a [`Hop`] says.
pub ghost struct HopModel {
    pub addr: Seq<char>,
    pub min_rtt_ms: Option<Reading>,
    pub loss_pct: Reading,
}

impl View for Hop {
    type V = HopModel;

    open spec fn view(&self) -> HopModel {
        HopModel { addr: self.addr@, min_rtt_ms: self.min_rtt_ms, loss_pct: self.loss_pct }
    }
}

/// The hops of a path.
pub open spec fn hops(v: Seq<Hop>) -> Seq<HopModel> {
    Seq::new(v.len(), |i: int| v[i]@)
}

/// A single reading produced by a probe; the reducer routes each to the metric it is about.
#[derive(Debug, Clone, PartialEq, Eq)]
pub enum Sample {
    /// One ICMP echo to a ping target. `rtt_ms == None` means the probe timed out (loss).
    Latency { target: String, rtt_ms: Option<Reading> },
    /// One DNS lookup.
    Dns { resolver: String, answer: Answer },
    /// The honesty verdict on one resolver.
    DnsIntegrity { resolver: String, verdict: Integrity },
    /// Passive throughput reading in bytes per second.
    Throughput { rx_bps: Reading, tx_bps: Reading },
    /// Active capacity-probe result in Mbps.
    ThroughputProbe { mbps: Reading },
    /// Latency measured while idle vs while the link is saturated (bufferbloat), in ms.
    Bufferbloat { idle_ms: Reading, loaded_ms: Reading },
    /// Reachability check for a named endpoint.
    Reachability { endpoint: String, ok: bool },
    /// Captive-portal detection result (a login page intercepting web traffic).
    CaptivePortal { detected: bool },
    /// The observed public/WAN IP address (for ISP/WAN-change detection).
    PublicIp { ip: String },
    /// Wireless link reading: RSSI/noise in dBm, negotiated Tx rate (Mbps), and current SSID.
    Link {
        rssi_dbm: Option<Reading>,
        noise_dbm: Option<Reading>,
        tx_rate: Option<Reading>,
        ssid: Option<String>,
    },
    /// Errors counted on the network interfaces in one probe interval.
    InterfaceErrors { rx_errors: u64, tx_errors: u64 },
    /// One TCP handshake. `connect_ms == None` means the connection failed.
    TcpHandshake { endpoint: String, connect_ms: Option<Reading> },
    /// One TLS negotiation. `handshake_ms == None` means it failed; `expires_in_days` is what
    /// the certificate had left, where one was seen.
    Tls { endpoint: String, handshake_ms: Option<Reading>, expires_in_days: Option<i64> },
    /// Routing/path result for a target: hop count, reachability, whether the path changed
    /// since the last probe, and per-hop detail (address, best RTT, probe loss).
    Routing { target: String, hops: usize, reachable: bool, changed: bool, detail: Vec<Hop> },
}

/// Test probe that replays scripted rounds of samples, then yields empty rounds forever.
pub struct FakeProbe {
    rounds: VecDeque<Vec<Sample>>,
}

impl View for FakeProbe {
    type V = Seq<Vec<Sample>>;

    closed spec fn view(&self) -> Seq<Vec<Sample>> {
        self.rounds@
    }
}

impl FakeProbe {
    pub fn new(rounds: Vec<Vec<Sample>>) -> (p: FakeProbe)
        ensures
            p@ == rounds@,
    {
        let mut rest = rounds;
        let mut q: VecDeque<Vec<Sample>> = VecDeque::new();
        assert(rest@ + q@ =~= rounds@);
        while rest.len() > 0
            invariant
                rest@ + q@ == rounds@,
            decreases rest@.len(),
        {
            let ghost before = rest@ + q@;
            match rest.pop() {
                Some(r) => q.push_front(r),
                None => {},
            }
            assert(rest@ + q@ =~= before);
        }
        assert(q@ =~= rounds@);
        FakeProbe { rounds: q }
    }

    pub fn remaining(&self) -> (n: usize)
        ensures
            n == self@.len(),
    {
        self.rounds.len()
    }

    /// The next scripted round, or an empty one once they are used up.
    pub fn next_round(&mut self) -> (r: Vec<Sample>)
        ensures
            old(self)@.len() > 0 ==> r == old(self)@[0] && final(self)@ == old(self)@.drop_first(),
            old(self)@.len() == 0 ==> r@.len() == 0 && final(self)@ == old(self)@,
    {
        match self.rounds.pop_front() {
            Some(r) => r,
            None => Vec::new(),
        }
    }
}

/// Metrics are told apart by rank, and stand in the order of their declaration.
pub proof fn law_ranks_differ(a: MetricId, b: MetricId)
    ensures
        metric_rank(a) == metric_rank(b) <==> a == b,
        0 <= metric_rank(a) < 17,
{
}

/// Metrics are told apart by label: the labels of the ones that are measured on several
/// targets, and of all others, are all different.
pub proof fn law_labels_differ(a: MetricId, b: MetricId)
    ensures
        metric_label(a) == metric_label(b) <==> a == b,
{
    lemma_label(a);
    lemma_label(b);
}

/// A label by its length, its first character and its last one.
proof fn lemma_label(m: MetricId)
    ensures
        ({
            let l = metric_label(m);
            &&& l.len() > 0
            &&& match m {
                MetricId::Latency => l.len() == 7 && l[0] == 'l',
                MetricId::Loss => l.len() == 4 && l[1] == 'o',
                MetricId::Jitter => l.len() == 6,
                MetricId::Dns => l.len() == 3 && l[0] == 'd',
                MetricId::DnsIntegrity => l.len() == 13,
                MetricId::Routing => l.len() == 7 && l[0] == 'r',
                MetricId::Throughput => l.len() == 10,
                MetricId::Bufferbloat => l.len() == 11 && l[0] == 'b',
                MetricId::Reachability => l.len() == 12,
                MetricId::CaptivePortal => l.len() == 14,
                MetricId::PublicIp => l.len() == 9,
                MetricId::Link => l.len() == 4 && l[1] == 'i',
                MetricId::InterfaceErrors => l.len() == 16,
                MetricId::TcpHandshake => l.len() == 3 && l[0] == 't' && l[1] == 'c',
                MetricId::Tls => l.len() == 3 && l[0] == 't' && l[1] == 'l',
                MetricId::Certificate => l.len() == 11 && l[0] == 'c',
                MetricId::Log => l.len() == 3 && l[0] == 'l',
            }
        }),
{
    reveal_strlit("latency");
    reveal_strlit("loss");
    reveal_strlit("jitter");
    reveal_strlit("dns");
    reveal_strlit("dns integrity");
    reveal_strlit("routing");
    reveal_strlit("throughput");
    reveal_strlit("bufferbloat");
    reveal_strlit("reachability");
    reveal_strlit("captive portal");
    reveal_strlit("public ip");
    reveal_strlit("link");
    reveal_strlit("interface errors");
    reveal_strlit("tcp");
    reveal_strlit("tls");
    reveal_strlit("certificate");
    reveal_strlit("log");
}

} // verus!
