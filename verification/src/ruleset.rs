//! The ruleset of the diagnosis engine, rule by rule.

use vstd::prelude::*;

use crate::app::observe::days_size;
use crate::diagnosis::{
    bad, bloat_rule, captive_rule, cert_rule, diagnosed, dns_rule, endpoint_rule, findings,
    gateway_bad, gateway_rule, given, honesty_rule, isp_rule, join, lemma_of_severity, lemma_ranked,
    lemma_severity_of_one, lemma_severity_of_sum, nic_rule, no_problem, of_severity,
    radio_facts, remote_rule, rulings, transport_rule, verdicts, wifi_rule, Diagnosis, Layer,
    Signals, Verdict, worst_first,
};
use crate::format::{push_decimal, push_fixed0};
use crate::health::Health;
use crate::text::strings;
use crate::unsaid::{
    add_unsaid, first_layer, first_severity, law_taking_symptoms_on, raise, with_symptoms,
};

verus! {

/// The verdict of an optional diagnosis.
pub open spec fn verdict_of(d: Option<Diagnosis>) -> Option<Verdict> {
    match d {
        Some(x) => Some(x@),
        None => None,
    }
}

/// Whether a state is not good.
pub(crate) fn unhealthy(h: Health) -> (r: bool)
    ensures
        r == bad(h),
{
    h != Health::Good
}

/// A list of one string.
pub(crate) fn one(s: String) -> (v: Vec<String>)
    ensures
        strings(v@) == seq![s@],
{
    let mut v: Vec<String> = Vec::new();
    v.push(s);
    assert(strings(v@) =~= seq![s@]);
    v
}

/// Append a string to a list.
pub(crate) fn put(v: &mut Vec<String>, s: String)
    ensures
        strings(final(v)@) == strings(old(v)@) + seq![s@],
{
    v.push(s);
    assert(strings(v@) =~= strings(old(v)@) + seq![s@]);
}

/// An empty list of strings.
pub(crate) fn nothing() -> (v: Vec<String>)
    ensures
        strings(v@) == Seq::<Seq<char>>::empty(),
{
    let v: Vec<String> = Vec::new();
    assert(strings(v@) =~= Seq::<Seq<char>>::empty());
    v
}

/// Append the parts to a string, joined by `sep`.
pub fn push_joined(s: &mut String, parts: &Vec<String>, sep: &str)
    ensures
        final(s)@ == old(s)@ + join(strings(parts@), sep@),
{
    let ghost all = strings(parts@);
    assert(old(s)@ + join(all.take(0), sep@) =~= old(s)@);
    for i in 0..parts.len()
        invariant
            all == strings(parts@),
            s@ == old(s)@ + join(all.take(i as int), sep@),
    {
        assert(all.take(i + 1).drop_last() =~= all.take(i as int));
        assert(all.take(i + 1).last() == parts@[i as int]@);
        if i > 0 {
            s.append(sep);
        }
        s.append(parts[i].as_str());
        assert(s@ =~= old(s)@ + join(all.take(i + 1), sep@));
    }
    assert(all.take(all.len() as int) =~= all);
}

pub(crate) fn gateway_unhealthy(s: &Signals) -> (r: bool)
    ensures
        r == gateway_bad(s@),
{
    match s.gateway {
        Some(h) => unhealthy(h),
        None => false,
    }
}

/// The card itself.
fn nic_verdict(s: &Signals) -> (r: Option<Diagnosis>)
    ensures
        verdict_of(r) == nic_rule(s@),
{
    if !unhealthy(s.nic_errors) {
        return None;
    }
    let mut evidence = nothing();
    match s.nic_error_count {
        Some(n) => {
            let mut fact = String::new();
            push_decimal(&mut fact, n);
            fact.append(" errors in the last interval");
            assert(fact@ =~= crate::format::decimal(n as nat) + " errors in the last interval"@);
            put(&mut evidence, fact);
        },
        None => {},
    }
    put(&mut evidence, "errors on the local interface".to_owned());
    let d = Diagnosis {
        layer: Some(Layer::Nic),
        severity: s.nic_errors,
        headline:
            "Network interface is dropping frames — check the cable, port or driver".to_owned(),
        evidence,
    };
    assert(d@ =~= nic_rule(s@)->0);
    Some(d)
}

/// What is known of the radio.
pub(crate) fn radio_evidence(s: &Signals) -> (v: Vec<String>)
    ensures
        strings(v@) == radio_facts(s@),
{
    let mut v = nothing();
    match s.rssi_dbm {
        Some(r) => {
            let mut fact = "RSSI ".to_owned();
            push_fixed0(&mut fact, r);
            fact.append(" dBm");
            put(&mut v, fact);
        },
        None => {},
    }
    match s.snr_db {
        Some(snr) => {
            let mut fact = "SNR ".to_owned();
            push_fixed0(&mut fact, snr);
            fact.append(" dB");
            put(&mut v, fact);
        },
        None => {},
    }
    match s.tx_rate {
        Some(t) => {
            let mut fact = String::new();
            push_fixed0(&mut fact, t);
            fact.append(" Mbps");
            assert(fact@ =~= crate::format::fixed0(t as int) + " Mbps"@);
            put(&mut v, fact);
        },
        None => {},
    }
    assert(strings(v@) =~= radio_facts(s@));
    v
}

/// The Wi-Fi radio.
fn wifi_verdict(s: &Signals) -> (r: Option<Diagnosis>)
    ensures
        verdict_of(r) == wifi_rule(s@),
{
    let wifi = s.wifi_signal.worst(s.wifi_quality);
    if !unhealthy(wifi) {
        return None;
    }
    let mut evidence = radio_evidence(s);
    let d = if !unhealthy(s.wifi_signal) {
        // RSSI is fine, so the culprit is interference / low SNR.
        Diagnosis {
            layer: Some(Layer::Wifi),
            severity: wifi,
            headline: "Wi-Fi link quality is poor (interference / low SNR)".to_owned(),
            evidence,
        }
    } else {
        match s.gateway {
            Some(g) if unhealthy(g) => {
                put(&mut evidence, "gateway shows latency/loss".to_owned());
                Diagnosis {
                    layer: Some(Layer::Wifi),
                    severity: wifi.worst(g),
                    headline: "Weak Wi-Fi signal — likely a local Wi-Fi problem".to_owned(),
                    evidence,
                }
            },
            _ => Diagnosis {
                layer: Some(Layer::Wifi),
                severity: wifi,
                headline: "Weak Wi-Fi signal".to_owned(),
                evidence,
            },
        }
    };
    Some(d)
}

/// The gateway / LAN.
fn gateway_verdict(s: &Signals) -> (r: Option<Diagnosis>)
    ensures
        verdict_of(r) == gateway_rule(s@),
{
    let wifi = s.wifi_signal.worst(s.wifi_quality);
    match s.gateway {
        Some(g) if unhealthy(g) && !unhealthy(wifi) => Some(
            Diagnosis {
                layer: Some(Layer::Gateway),
                severity: g,
                headline: "High latency/loss to your gateway — local network problem".to_owned(),
                evidence: one("gateway ping degraded".to_owned()),
            },
        ),
        _ => None,
    }
}

/// A captive portal.
fn captive_verdict(s: &Signals) -> (r: Option<Diagnosis>)
    ensures
        verdict_of(r) == captive_rule(s@),
{
    if s.captive {
        Some(
            Diagnosis {
                layer: Some(Layer::Isp),
                severity: Health::Crit,
                headline: "Captive portal — sign-in required to reach the internet".to_owned(),
                evidence: one("a web request was intercepted by a login page".to_owned()),
            },
        )
    } else {
        None
    }
}

/// The ISP / WAN.
fn isp_verdict(s: &Signals) -> (r: Option<Diagnosis>)
    ensures
        verdict_of(r) == isp_rule(s@),
{
    if gateway_unhealthy(s) || s.captive {
        return None;
    }
    let all_bad = s.internet_total > 0 && s.internet_bad == s.internet_total;
    let down = s.routing_seen && !s.routing_reachable;
    if s.reach_all_fail && (all_bad || down) {
        let mut evidence = one("web endpoints unreachable".to_owned());
        put(
            &mut evidence,
            if down {
                "route to the internet is down".to_owned()
            } else {
                "all internet hosts failing".to_owned()
            },
        );
        let d = Diagnosis {
            layer: Some(Layer::Isp),
            severity: Health::Crit,
            headline:
                "Internet unreachable — your router is fine, likely an ISP/WAN outage".to_owned(),
            evidence,
        };
        assert(d@ =~= isp_rule(s@)->0);
        Some(d)
    } else if all_bad {
        Some(
            Diagnosis {
                layer: Some(Layer::Isp),
                severity: s.internet,
                headline: "Internet path degraded beyond your gateway (ISP/WAN)".to_owned(),
                evidence: one("all internet hosts show latency/loss".to_owned()),
            },
        )
    } else if s.reach_all_fail {
        Some(
            Diagnosis {
                layer: Some(Layer::Isp),
                severity: Health::Warn,
                headline:
                    "Web (HTTP/HTTPS) unreachable though ping works — possible filtering or captive portal".to_owned(),
                evidence: one("reachability checks all failing".to_owned()),
            },
        )
    } else {
        None
    }
}

/// Bufferbloat.
fn bloat_verdict(s: &Signals) -> (r: Option<Diagnosis>)
    ensures
        verdict_of(r) == bloat_rule(s@),
{
    if !unhealthy(s.bufferbloat) {
        return None;
    }
    let evidence = match s.bufferbloat_ms {
        Some(d) => {
            let mut fact = "+".to_owned();
            push_fixed0(&mut fact, d);
            fact.append("ms latency under load");
            one(fact)
        },
        None => nothing(),
    };
    Some(
        Diagnosis {
            layer: Some(Layer::Isp),
            severity: s.bufferbloat,
            headline: "Bufferbloat — latency spikes when the connection is busy".to_owned(),
            evidence,
        },
    )
}

/// DNS timing.
fn dns_verdict(s: &Signals) -> (r: Option<Diagnosis>)
    ensures
        verdict_of(r) == dns_rule(s@),
{
    let system = match s.dns_system {
        Some(h) => h,
        None => Health::Good,
    };
    let system_bad = unhealthy(system);
    let public_bad = unhealthy(s.dns_public);
    let connected = s.reach_any_ok || s.internet == Health::Good || (s.routing_seen
        && s.routing_reachable);
    if !(system_bad || public_bad) || !connected {
        None
    } else if system_bad && !public_bad {
        Some(
            Diagnosis {
                layer: Some(Layer::Dns),
                severity: system,
                headline:
                    "Your configured DNS server is failing; public resolvers work — a DNS configuration problem".to_owned(),
                evidence: one("system resolver failing, 1.1.1.1 / 8.8.8.8 OK".to_owned()),
            },
        )
    } else {
        Some(
            Diagnosis {
                layer: Some(Layer::Dns),
                severity: system.worst(s.dns_public),
                headline: "DNS resolution is failing while connectivity is fine".to_owned(),
                evidence: one("resolvers slow or not answering".to_owned()),
            },
        )
    }
}

/// DNS honesty.
fn honesty_verdict(s: &Signals) -> (r: Option<Diagnosis>)
    ensures
        verdict_of(r) == honesty_rule(s@),
{
    if !unhealthy(s.dns_integrity) {
        return None;
    }
    let forged = s.dns_forged.len() > 0;
    let mut fact = String::new();
    if forged {
        push_joined(&mut fact, &s.dns_forged, ", ");
        fact.append(" replied to nothing that must resolve — the answers are not theirs");
        assert(fact@ =~= join(s@.dns_forged, ", "@)
            + " replied to nothing that must resolve — the answers are not theirs"@);
    } else {
        push_joined(&mut fact, &s.dns_hijacked, ", ");
        fact.append(" returns addresses for names that should not resolve");
        assert(fact@ =~= join(s@.dns_hijacked, ", "@)
            + " returns addresses for names that should not resolve"@);
    }
    Some(
        Diagnosis {
            layer: Some(Layer::Dns),
            severity: s.dns_integrity,
            headline: if forged {
                "Something on this network is answering DNS in place of your resolvers".to_owned()
            } else {
                "A resolver is answering for names it does not own".to_owned()
            },
            evidence: one(fact),
        },
    )
}

/// Transport.
fn transport_verdict(s: &Signals) -> (r: Option<Diagnosis>)
    ensures
        verdict_of(r) == transport_rule(s@),
{
    if !unhealthy(s.transport) {
        return None;
    }
    if s.transport_failed.len() == 0 {
        Some(
            Diagnosis {
                layer: Some(Layer::Isp),
                severity: s.transport,
                headline:
                    "Connections are slow to establish though the path itself looks healthy".to_owned(),
                evidence: one("handshakes are slow".to_owned()),
            },
        )
    } else {
        let mut fact = "no connection to ".to_owned();
        push_joined(&mut fact, &s.transport_failed, ", ");
        Some(
            Diagnosis {
                layer: Some(Layer::Isp),
                severity: s.transport,
                headline: "Connections are being refused or timing out (TCP/TLS)".to_owned(),
                evidence: one(fact),
            },
        )
    }
}

/// Certificate expiry.
fn cert_verdict(s: &Signals) -> (r: Option<Diagnosis>)
    ensures
        verdict_of(r) == cert_rule(s@),
{
    if !unhealthy(s.cert) {
        return None;
    }
    let (headline, evidence) = match &s.cert_soonest {
        Some(p) => {
            let days: i64 = p.1;
            let mut fact = p.0.clone();
            if days < 0 {
                fact.append(": expired ");
                push_decimal(&mut fact, days_size(days));
                fact.append("d ago");
                ("A TLS certificate has expired".to_owned(), one(fact))
            } else {
                let mut headline = "A TLS certificate expires in ".to_owned();
                push_decimal(&mut headline, days_size(days));
                headline.append(" days");
                fact.append(": ");
                push_decimal(&mut fact, days_size(days));
                fact.append("d left");
                (headline, one(fact))
            }
        },
        None => ("A TLS certificate is close to expiry".to_owned(), nothing()),
    };
    Some(Diagnosis { layer: None, severity: s.cert, headline, evidence })
}

/// A remote host.
fn remote_verdict(s: &Signals) -> (r: Option<Diagnosis>)
    ensures
        verdict_of(r) == remote_rule(s@),
{
    if gateway_unhealthy(s) || s.internet_total == 0 || s.internet_bad == 0 || s.internet_bad
        >= s.internet_total {
        return None;
    }
    let mut headline = "Some hosts are slow or lossy (".to_owned();
    push_decimal(&mut headline, s.internet_bad as u64);
    headline.append("/");
    push_decimal(&mut headline, s.internet_total as u64);
    headline.append("); the rest of your connection is healthy");
    let mut fact = "worst host: ".to_owned();
    match &s.worst_internet_host {
        Some(h) => fact.append(h.as_str()),
        None => fact.append("a remote host"),
    }
    Some(
        Diagnosis {
            layer: Some(Layer::Remote),
            severity: s.internet,
            headline,
            evidence: one(fact),
        },
    )
}

/// A minority of web endpoints failing.
fn endpoint_verdict(s: &Signals) -> (r: Option<Diagnosis>)
    ensures
        verdict_of(r) == endpoint_rule(s@),
{
    if s.reach_all_fail || s.reach_bad == 0 || s.reach_bad >= s.reach_total {
        return None;
    }
    let mut headline = String::new();
    push_decimal(&mut headline, s.reach_bad as u64);
    assert(headline@ =~= crate::format::decimal(s.reach_bad as nat));
    headline.append(" of ");
    push_decimal(&mut headline, s.reach_total as u64);
    headline.append(" web endpoints unreachable; the rest of your connection is healthy");
    Some(
        Diagnosis {
            layer: Some(Layer::Remote),
            severity: Health::Crit,
            headline,
            evidence: one("likely that service rather than your network".to_owned()),
        },
    )
}

/// Verdicts sorted by severity as they come in; equal severities keep their order.
pub(crate) struct Ranked {
    crit: Vec<Diagnosis>,
    warn: Vec<Diagnosis>,
    good: Vec<Diagnosis>,
}

impl Ranked {
    /// How many verdicts have come in.
    pub(crate) closed spec fn count(&self) -> nat {
        self.crit@.len() + self.warn@.len() + self.good@.len()
    }

    /// The verdicts of `all`, by severity.
    pub(crate) closed spec fn ranks(&self, all: Seq<Verdict>) -> bool {
        &&& verdicts(self.crit@) == of_severity(all, Health::Crit)
        &&& verdicts(self.warn@) == of_severity(all, Health::Warn)
        &&& verdicts(self.good@) == of_severity(all, Health::Good)
        &&& (self.crit@.len() + self.warn@.len() + self.good@.len() == 0 <==> all.len() == 0)
    }

    /// Rank one more verdict, where there is one.
    pub(crate) fn add_verdict(&mut self, d: Option<Diagnosis>, Ghost(all): Ghost<Seq<Verdict>>)
        requires
            old(self).ranks(all),
            old(self).count() < 100,
        ensures
            final(self).ranks(all + given(verdict_of(d))),
            final(self).count() <= old(self).count() + 1,
    {
        match d {
            Some(x) => {
                proof {
                    assert(all + given(Some(x@)) =~= all.push(x@));
                    assert(all.push(x@).drop_last() =~= all);
                }
                match x.severity {
                    Health::Crit => self.crit.push(x),
                    Health::Warn => self.warn.push(x),
                    Health::Good => self.good.push(x),
                }
                assert(verdicts(self.crit@) =~= of_severity(all.push(x@), Health::Crit));
                assert(verdicts(self.warn@) =~= of_severity(all.push(x@), Health::Warn));
                assert(verdicts(self.good@) =~= of_severity(all.push(x@), Health::Good));
            },
            None => {
                assert(all + given(None) =~= all);
            },
        }
    }
}

impl Ranked {
    /// The severity of the worst verdict.
    fn worst(&self, Ghost(all): Ghost<Seq<Verdict>>) -> (h: Health)
        requires
            self.ranks(all),
        ensures
            h == first_severity(worst_first(all)),
    {
        proof {
            lemma_of_severity(all, Health::Crit);
            lemma_of_severity(all, Health::Warn);
            lemma_of_severity(all, Health::Good);
        }
        if self.crit.len() > 0 {
            assert(worst_first(all)[0] == of_severity(all, Health::Crit)[0]);
            Health::Crit
        } else if self.warn.len() > 0 {
            assert(worst_first(all)[0] == of_severity(all, Health::Warn)[0]);
            Health::Warn
        } else {
            if self.good.len() > 0 {
                assert(worst_first(all)[0] == of_severity(all, Health::Good)[0]);
            }
            Health::Good
        }
    }

    /// The layer that the first of the worst verdicts blames.
    fn layer(&self, Ghost(all): Ghost<Seq<Verdict>>) -> (l: Option<Layer>)
        requires
            self.ranks(all),
        ensures
            l == first_layer(worst_first(all)),
    {
        proof {
            lemma_of_severity(all, Health::Crit);
            lemma_of_severity(all, Health::Warn);
            lemma_of_severity(all, Health::Good);
        }
        if self.crit.len() > 0 {
            assert(worst_first(all)[0] == verdicts(self.crit@)[0]);
            self.crit[0].layer
        } else if self.warn.len() > 0 {
            assert(worst_first(all)[0] == verdicts(self.warn@)[0]);
            self.warn[0].layer
        } else {
            if self.good.len() > 0 {
                assert(worst_first(all)[0] == verdicts(self.good@)[0]);
            }
            None
        }
    }

    /// Let the first of the worst verdicts take on every symptom that is worse than it is.
    fn raise_first(&mut self, s: &Signals, Ghost(all): Ghost<Seq<Verdict>>)
        requires
            old(self).ranks(all),
        ensures
            final(self).ranks(with_symptoms(worst_first(all), s@)),
            final(self).count() == old(self).count(),
    {
        let ghost v = worst_first(all);
        let ghost c = verdicts(self.crit@);
        let ghost w = verdicts(self.warn@);
        let ghost g = verdicts(self.good@);
        proof {
            lemma_of_severity(all, Health::Crit);
            lemma_of_severity(all, Health::Warn);
            lemma_of_severity(all, Health::Good);
            lemma_ranked(c, w, g);
            assert(v == c + w + g);
        }
        if self.crit.len() > 0 {
            proof {
                assert(v[0] == c[0]);
                law_taking_symptoms_on(v[0], s@);
                assert(with_symptoms(v, s@) =~= v);
            }
            return;
        }
        let mut x = if self.warn.len() > 0 {
            self.warn.remove(0)
        } else if self.good.len() > 0 {
            self.good.remove(0)
        } else {
            assert(v =~= Seq::<Verdict>::empty());
            return;
        };
        let ghost w2 = verdicts(self.warn@);
        let ghost g2 = verdicts(self.good@);
        let ghost rest = v.drop_first();
        proof {
            assert(x@ == v[0]);
            assert(w.len() > 0 ==> w2 =~= w.drop_first() && g2 =~= g);
            assert(w.len() == 0 ==> w2 =~= w && g2 =~= g.drop_first());
            assert(rest =~= c + w2 + g2);
            lemma_ranked(c, w2, g2);
        }
        raise(&mut x, s);
        let ghost y = x@;
        proof {
            assert(with_symptoms(v, s@) =~= seq![y] + rest);
            lemma_severity_of_sum(seq![y], rest, Health::Crit);
            lemma_severity_of_sum(seq![y], rest, Health::Warn);
            lemma_severity_of_sum(seq![y], rest, Health::Good);
            lemma_severity_of_one(y);
        }
        match x.severity {
            Health::Crit => self.crit.insert(0, x),
            Health::Warn => self.warn.insert(0, x),
            Health::Good => self.good.insert(0, x),
        }
        assert(verdicts(self.crit@) =~= of_severity(seq![y], Health::Crit) + c);
        assert(verdicts(self.warn@) =~= of_severity(seq![y], Health::Warn) + w2);
        assert(verdicts(self.good@) =~= of_severity(seq![y], Health::Good) + g2);
    }
}

/// The ruleset over a [`Signals`] snapshot: what is wrong and where, worst first.
pub fn diagnose_signals(s: &Signals) -> (out: Vec<Diagnosis>)
    ensures
        verdicts(out@) == diagnosed(s@),
{
    let mut ranked = Ranked { crit: Vec::new(), warn: Vec::new(), good: Vec::new() };
    let ghost none = Seq::<Verdict>::empty();
    assert(verdicts(ranked.crit@) =~= none);
    assert(verdicts(ranked.warn@) =~= none);
    assert(verdicts(ranked.good@) =~= none);
    assert(none + given(nic_rule(s@)) =~= given(nic_rule(s@)));
    let ghost mut all = none;
    ranked.add_verdict(nic_verdict(s), Ghost(all));
    proof {
        all = given(nic_rule(s@));
    }
    ranked.add_verdict(wifi_verdict(s), Ghost(all));
    proof {
        all = all + given(wifi_rule(s@));
    }
    ranked.add_verdict(gateway_verdict(s), Ghost(all));
    proof {
        all = all + given(gateway_rule(s@));
    }
    ranked.add_verdict(captive_verdict(s), Ghost(all));
    proof {
        all = all + given(captive_rule(s@));
    }
    ranked.add_verdict(isp_verdict(s), Ghost(all));
    proof {
        all = all + given(isp_rule(s@));
    }
    ranked.add_verdict(bloat_verdict(s), Ghost(all));
    proof {
        all = all + given(bloat_rule(s@));
    }
    ranked.add_verdict(dns_verdict(s), Ghost(all));
    proof {
        all = all + given(dns_rule(s@));
    }
    ranked.add_verdict(honesty_verdict(s), Ghost(all));
    proof {
        all = all + given(honesty_rule(s@));
    }
    ranked.add_verdict(transport_verdict(s), Ghost(all));
    proof {
        all = all + given(transport_rule(s@));
    }
    ranked.add_verdict(cert_verdict(s), Ghost(all));
    proof {
        all = all + given(cert_rule(s@));
    }
    ranked.add_verdict(remote_verdict(s), Ghost(all));
    proof {
        all = all + given(remote_rule(s@));
    }
    ranked.add_verdict(endpoint_verdict(s), Ghost(all));
    proof {
        all = all + given(endpoint_rule(s@));
        reveal(rulings);
        assert(all == rulings(s@));
    }
    let worst = ranked.worst(Ghost(all));
    let layer = ranked.layer(Ghost(all));
    ranked.raise_first(s, Ghost(all));
    proof {
        all = with_symptoms(worst_first(all), s@);
    }
    add_unsaid(&mut ranked, s, worst, layer, Ghost(all));
    proof {
        all = findings(s@);
        reveal(diagnosed);
    }
    if ranked.crit.len() == 0 && ranked.warn.len() == 0 && ranked.good.len() == 0 {
        let fine = Diagnosis {
            layer: None,
            severity: Health::Good,
            headline: "No problems detected".to_owned(),
            evidence: nothing(),
        };
        assert(fine@ =~= no_problem());
        ranked.add_verdict(Some(fine), Ghost(all));
        proof {
            all = all + given(Some(no_problem()));
            assert(all =~= seq![no_problem()]);
        }
    }
    let mut out = ranked.crit;
    let mut warn = ranked.warn;
    let mut good = ranked.good;
    let ghost c = out@;
    let ghost w = warn@;
    let ghost g = good@;
    out.append(&mut warn);
    out.append(&mut good);
    assert(verdicts(out@) =~= verdicts(c) + verdicts(w) + verdicts(g));
    out
}

} // verus!
