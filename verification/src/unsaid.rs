//! What the ruleset leaves unsaid: what is worse than every verdict of the rules.
//!
//! The rules look for causes, and leave a symptom to the verdict on its cause, even where the
//! symptom is worse: hosts behind a slow gateway, a gateway behind a noisy radio, lookups and
//! web endpoints in an outage. There the first verdict takes on the severity of the symptom,
//! and the symptom is added to its evidence.
//!
//! Other things have no cause among the rules: a capacity that is low, a route that changed,
//! latency that is merely unsteady, and what has recovered without the recovery being
//! confirmed. Each of these still turns a panel amber or red, so wherever one is worse than
//! all that the rules have said it gets a verdict of its own.

use vstd::prelude::*;

use crate::diagnosis::{
    bad, gateway_bad, given, radio_facts, wifi_health, Diagnosis, Layer, Signals, SignalsModel,
    Verdict,
};
use crate::format::{decimal, fixed0, push_decimal, push_fixed0};
use crate::health::{severity, worse, Health};
use crate::ruleset::{
    gateway_unhealthy, nothing, one, put, radio_evidence, unhealthy, verdict_of, Ranked,
};

verus! {

/// The severity of the first of some ranked verdicts.
pub open spec fn first_severity(ranked: Seq<Verdict>) -> Health {
    if ranked.len() > 0 {
        ranked[0].severity
    } else {
        Health::Good
    }
}

/// The layer that the first of some ranked verdicts blames.
pub open spec fn first_layer(ranked: Seq<Verdict>) -> Option<Layer> {
    if ranked.len() > 0 && bad(ranked[0].severity) {
        ranked[0].layer
    } else {
        None
    }
}

/// The radio or the gateway is at fault, so that a verdict stands on one of them.
pub open spec fn near_fault(s: SignalsModel) -> bool {
    bad(wifi_health(s)) || gateway_bad(s)
}

/// The card, the radio or the gateway is at fault, so that a verdict stands on one of them.
pub open spec fn local_fault(s: SignalsModel) -> bool {
    bad(s.nic_errors) || near_fault(s)
}

// ---------------------------------------------------------------------------------------
// Symptoms
// ---------------------------------------------------------------------------------------

/// The gateway.
pub open spec fn lan_symptom(s: SignalsModel) -> Option<(Health, Seq<char>)> {
    if gateway_bad(s) {
        Some((s.gateway->0, "gateway shows latency/loss"@))
    } else {
        None
    }
}

/// The internet hosts.
pub open spec fn hosts_symptom(s: SignalsModel) -> Option<(Health, Seq<char>)> {
    if bad(s.internet) {
        Some((s.internet, "internet hosts show latency/loss"@))
    } else {
        None
    }
}

/// The worse of the system's resolver and the public ones.
pub open spec fn lookup_health(s: SignalsModel) -> Health {
    worse(
        match s.dns_system {
            Some(h) => h,
            None => Health::Good,
        },
        s.dns_public,
    )
}

/// The lookups.
pub open spec fn lookup_symptom(s: SignalsModel) -> Option<(Health, Seq<char>)> {
    if bad(lookup_health(s)) {
        Some((lookup_health(s), "resolvers slow or not answering"@))
    } else {
        None
    }
}

/// The web endpoints, as reported: while some fail, or behind a local fault.
pub open spec fn web_symptom(s: SignalsModel) -> Option<(Health, Seq<char>)> {
    if !bad(s.reach) {
        None
    } else if s.reach_bad > 0 {
        Some(
            (
                s.reach,
                decimal(s.reach_bad) + " of "@ + decimal(s.reach_total)
                    + " web endpoints failing"@,
            ),
        )
    } else if local_fault(s) {
        Some((s.reach, "recovery of the web endpoints is not confirmed yet"@))
    } else {
        None
    }
}

/// The radio, as reported, where a verdict stands on it or on the gateway.
pub open spec fn radio_symptom(s: SignalsModel) -> Option<(Health, Seq<char>)> {
    if bad(s.radio) && near_fault(s) {
        Some((s.radio, "recovery of the Wi-Fi signal is not confirmed yet"@))
    } else {
        None
    }
}

/// The gateway's replies are as unsteady as those from beyond it, so that the local network
/// accounts for both.
pub open spec fn local_jitter(s: SignalsModel) -> bool {
    severity(s.jitter_gateway) >= severity(s.jitter_internet)
}

/// Jitter on the local network, where a verdict stands on the radio or on the gateway.
pub open spec fn jitter_symptom(s: SignalsModel) -> Option<(Health, Seq<char>)> {
    if bad(s.jitter_gateway) && local_jitter(s) && near_fault(s) {
        Some((s.jitter_gateway, "gateway replies vary"@))
    } else {
        None
    }
}

/// A verdict that takes on a symptom, where the symptom is worse than `w`.
pub open spec fn taking_on(v: Verdict, symptom: Option<(Health, Seq<char>)>, w: Health) -> Verdict {
    match symptom {
        Some((h, fact)) if severity(h) > severity(w) => Verdict {
            severity: worse(v.severity, h),
            evidence: v.evidence.push(fact),
            ..v
        },
        _ => v,
    }
}

/// A verdict that takes on every symptom that is worse than it is.
#[verifier::opaque]
pub open spec fn raised(v: Verdict, s: SignalsModel) -> Verdict {
    let w = v.severity;
    let v = taking_on(v, lan_symptom(s), w);
    let v = taking_on(v, hosts_symptom(s), w);
    let v = taking_on(v, lookup_symptom(s), w);
    let v = taking_on(v, web_symptom(s), w);
    let v = taking_on(v, radio_symptom(s), w);
    taking_on(v, jitter_symptom(s), w)
}

/// Ranked verdicts, the first of which takes on every symptom that is worse than it is.
pub open spec fn with_symptoms(ranked: Seq<Verdict>, s: SignalsModel) -> Seq<Verdict> {
    if ranked.len() > 0 {
        ranked.update(0, raised(ranked[0], s))
    } else {
        ranked
    }
}

/// `v` covers a symptom, where there is one.
pub open spec fn covers(v: Verdict, symptom: Option<(Health, Seq<char>)>) -> bool {
    symptom matches Some(x) ==> severity(v.severity) >= severity(x.0)
}

/// `h` is the severity of a symptom.
pub open spec fn felt(s: SignalsModel, h: Health) -> bool {
    ||| lan_symptom(s) matches Some(x) && x.0 == h
    ||| hosts_symptom(s) matches Some(x) && x.0 == h
    ||| lookup_symptom(s) matches Some(x) && x.0 == h
    ||| web_symptom(s) matches Some(x) && x.0 == h
    ||| radio_symptom(s) matches Some(x) && x.0 == h
    ||| jitter_symptom(s) matches Some(x) && x.0 == h
}

/// A verdict that takes symptoms on stays the same finding: it blames the same layer in the
/// same words and on the same evidence, and more, and is no milder. It is then as severe as
/// any symptom, and no worse than all of them.
pub proof fn law_taking_symptoms_on(v: Verdict, s: SignalsModel)
    ensures
        ({
            let r = raised(v, s);
            &&& r.layer == v.layer
            &&& r.headline == v.headline
            &&& v.evidence.is_prefix_of(r.evidence)
            &&& severity(r.severity) >= severity(v.severity)
            &&& covers(r, lan_symptom(s))
            &&& covers(r, hosts_symptom(s))
            &&& covers(r, lookup_symptom(s))
            &&& covers(r, web_symptom(s))
            &&& covers(r, radio_symptom(s))
            &&& covers(r, jitter_symptom(s))
            &&& r.severity == v.severity || felt(s, r.severity)
            &&& r.severity == v.severity ==> r == v
        }),
{
    reveal(raised);
    let w = v.severity;
    let a = taking_on(v, lan_symptom(s), w);
    let b = taking_on(a, hosts_symptom(s), w);
    let c = taking_on(b, lookup_symptom(s), w);
    let d = taking_on(c, web_symptom(s), w);
    let e = taking_on(d, radio_symptom(s), w);
    let f = taking_on(e, jitter_symptom(s), w);
    lemma_taking_on(v, v, lan_symptom(s), w);
    lemma_taking_on(v, a, hosts_symptom(s), w);
    lemma_taking_on(v, b, lookup_symptom(s), w);
    lemma_taking_on(v, c, web_symptom(s), w);
    lemma_taking_on(v, d, radio_symptom(s), w);
    lemma_taking_on(v, e, jitter_symptom(s), w);
    assert(v.evidence.is_prefix_of(v.evidence));
    assert(f == raised(v, s));
}

proof fn lemma_taking_on(
    first: Verdict,
    v: Verdict,
    symptom: Option<(Health, Seq<char>)>,
    w: Health,
)
    ensures
        ({
            let r = taking_on(v, symptom, w);
            &&& severity(r.severity) >= severity(v.severity)
            &&& severity(v.severity) >= severity(w) ==> covers(r, symptom)
            &&& r.severity == v.severity || (symptom matches Some(x) && x.0 == r.severity)
            &&& r != v ==> severity(r.severity) > severity(w)
            &&& first.evidence.is_prefix_of(v.evidence) ==> first.evidence.is_prefix_of(
                r.evidence,
            )
        }),
{
    let r = taking_on(v, symptom, w);
    if first.evidence.is_prefix_of(v.evidence) {
        assert(r.evidence.subrange(0, first.evidence.len() as int) =~= v.evidence.subrange(
            0,
            first.evidence.len() as int,
        ));
    }
}

// ---------------------------------------------------------------------------------------
// Faults of their own
// ---------------------------------------------------------------------------------------

/// A verdict that is worse than `w`.
pub open spec fn kept(v: Option<Verdict>, w: Health) -> Option<Verdict> {
    match v {
        Some(x) if severity(x.severity) > severity(w) => Some(x),
        _ => None,
    }
}

/// The radio, as reported: it stays unhealthy until a recovery is confirmed. Where a verdict
/// stands on it or on the gateway it is a symptom instead, so a weak radio isn't reported
/// twice.
pub open spec fn radio_rule(s: SignalsModel) -> Option<Verdict> {
    if bad(s.radio) && !near_fault(s) {
        Some(
            Verdict {
                layer: Some(Layer::Wifi),
                severity: s.radio,
                headline: "Wi-Fi signal was weak, and its recovery is not confirmed yet"@,
                evidence: radio_facts(s),
            },
        )
    } else {
        None
    }
}

/// The route by itself.
pub open spec fn route_rule(s: SignalsModel) -> Option<Verdict> {
    if bad(s.route) {
        Some(
            Verdict {
                layer: Some(Layer::Isp),
                severity: s.route,
                headline: if s.routing_reachable {
                    "The route to the internet has changed"@
                } else {
                    "The route to the internet is down"@
                },
                evidence: seq![
                    if s.routing_reachable {
                        "the path is not the one before"@
                    } else {
                        "the path probe does not get through"@
                    },
                ],
            },
        )
    } else {
        None
    }
}

/// The measured capacity.
pub open spec fn capacity_rule(s: SignalsModel) -> Option<Verdict> {
    if bad(s.capacity) {
        Some(
            Verdict {
                layer: Some(Layer::Isp),
                severity: s.capacity,
                headline: "Download capacity is low"@,
                evidence: match s.capacity_mbps {
                    Some(v) => seq![fixed0(v as int) + " Mbps at the last test"@],
                    None => Seq::empty(),
                },
            },
        )
    } else {
        None
    }
}

/// Jitter by itself. Where the gateway's replies are as unsteady as those from beyond it, the
/// local network is to blame; and where a verdict stands there already, it is a symptom.
pub open spec fn jitter_rule(s: SignalsModel) -> Option<Verdict> {
    let h = worse(s.jitter_gateway, s.jitter_internet);
    if !bad(h) {
        None
    } else if !local_jitter(s) {
        Some(
            Verdict {
                layer: Some(Layer::Isp),
                severity: h,
                headline: "Latency is unsteady (jitter) beyond your gateway"@,
                evidence: seq!["internet replies vary"@],
            },
        )
    } else if !near_fault(s) {
        Some(
            Verdict {
                layer: Some(Layer::Gateway),
                severity: h,
                headline: "Latency is unsteady (jitter) — already on your local network"@,
                evidence: seq!["gateway replies vary"@],
            },
        )
    } else {
        None
    }
}

/// The web endpoints, as reported, while none fails and nothing local is at fault: they stay
/// unhealthy until a recovery is confirmed.
pub open spec fn web_rule(s: SignalsModel, layer: Option<Layer>) -> Option<Verdict> {
    if bad(s.reach) && s.reach_bad == 0 && !local_fault(s) {
        Some(
            Verdict {
                layer,
                severity: s.reach,
                headline:
                    "Web endpoints could not be reached, and their recovery is not confirmed yet"@,
                evidence: seq!["the last checks of all of them got through"@],
            },
        )
    } else {
        None
    }
}

/// `said`, and then whatever is worse than `w`. Recovering endpoints go to `layer`.
#[verifier::opaque]
pub open spec fn with_unsaid(
    said: Seq<Verdict>,
    s: SignalsModel,
    w: Health,
    layer: Option<Layer>,
) -> Seq<Verdict> {
    said + given(kept(radio_rule(s), w)) + given(kept(route_rule(s), w)) + given(
        kept(capacity_rule(s), w),
    ) + given(kept(jitter_rule(s), w)) + given(kept(web_rule(s, layer), w))
}

/// `v` is a fault that no rule looks for.
pub open spec fn noticed(s: SignalsModel, layer: Option<Layer>, v: Verdict) -> bool {
    ||| radio_rule(s) == Some(v)
    ||| route_rule(s) == Some(v)
    ||| capacity_rule(s) == Some(v)
    ||| jitter_rule(s) == Some(v)
    ||| web_rule(s, layer) == Some(v)
}

/// What is added is noticed, and worse than `w`.
pub proof fn lemma_with_unsaid(
    said: Seq<Verdict>,
    s: SignalsModel,
    w: Health,
    layer: Option<Layer>,
    v: Verdict,
)
    ensures
        with_unsaid(said, s, w, layer).contains(v) <==> said.contains(v) || (noticed(s, layer, v)
            && severity(v.severity) > severity(w)),
{
    reveal(with_unsaid);
    let a1 = said + given(kept(radio_rule(s), w));
    let a2 = a1 + given(kept(route_rule(s), w));
    let a3 = a2 + given(kept(capacity_rule(s), w));
    let a4 = a3 + given(kept(jitter_rule(s), w));
    crate::diagnosis::lemma_given(said, kept(radio_rule(s), w), v);
    crate::diagnosis::lemma_given(a1, kept(route_rule(s), w), v);
    crate::diagnosis::lemma_given(a2, kept(capacity_rule(s), w), v);
    crate::diagnosis::lemma_given(a3, kept(jitter_rule(s), w), v);
    crate::diagnosis::lemma_given(a4, kept(web_rule(s, layer), w), v);
}

// ---------------------------------------------------------------------------------------
// The verdicts
// ---------------------------------------------------------------------------------------

/// What an optional symptom says.
pub open spec fn symptom_of(x: Option<(Health, String)>) -> Option<(Health, Seq<char>)> {
    match x {
        Some(p) => Some((p.0, p.1@)),
        None => None,
    }
}

fn near_faulty(s: &Signals) -> (r: bool)
    ensures
        r == near_fault(s@),
{
    unhealthy(s.wifi_signal.worst(s.wifi_quality)) || gateway_unhealthy(s)
}

fn local_faulty(s: &Signals) -> (r: bool)
    ensures
        r == local_fault(s@),
{
    unhealthy(s.nic_errors) || near_faulty(s)
}

fn lan_facts(s: &Signals) -> (r: Option<(Health, String)>)
    ensures
        symptom_of(r) == lan_symptom(s@),
{
    match s.gateway {
        Some(h) if unhealthy(h) => Some((h, "gateway shows latency/loss".to_owned())),
        _ => None,
    }
}

fn hosts_facts(s: &Signals) -> (r: Option<(Health, String)>)
    ensures
        symptom_of(r) == hosts_symptom(s@),
{
    if unhealthy(s.internet) {
        Some((s.internet, "internet hosts show latency/loss".to_owned()))
    } else {
        None
    }
}

fn lookup_facts(s: &Signals) -> (r: Option<(Health, String)>)
    ensures
        symptom_of(r) == lookup_symptom(s@),
{
    let system = match s.dns_system {
        Some(h) => h,
        None => Health::Good,
    };
    let h = system.worst(s.dns_public);
    if unhealthy(h) {
        Some((h, "resolvers slow or not answering".to_owned()))
    } else {
        None
    }
}

fn web_facts(s: &Signals) -> (r: Option<(Health, String)>)
    ensures
        symptom_of(r) == web_symptom(s@),
{
    if !unhealthy(s.reach) {
        return None;
    }
    if s.reach_bad > 0 {
        let mut fact = String::new();
        push_decimal(&mut fact, s.reach_bad as u64);
        fact.append(" of ");
        push_decimal(&mut fact, s.reach_total as u64);
        fact.append(" web endpoints failing");
        assert(fact@ =~= decimal(s.reach_bad as nat) + " of "@ + decimal(s.reach_total as nat)
            + " web endpoints failing"@);
        Some((s.reach, fact))
    } else if local_faulty(s) {
        Some((s.reach, "recovery of the web endpoints is not confirmed yet".to_owned()))
    } else {
        None
    }
}

fn radio_symptoms(s: &Signals) -> (r: Option<(Health, String)>)
    ensures
        symptom_of(r) == radio_symptom(s@),
{
    if unhealthy(s.radio) && near_faulty(s) {
        Some((s.radio, "recovery of the Wi-Fi signal is not confirmed yet".to_owned()))
    } else {
        None
    }
}

fn jitter_symptoms(s: &Signals) -> (r: Option<(Health, String)>)
    ensures
        symptom_of(r) == jitter_symptom(s@),
{
    if unhealthy(s.jitter_gateway) && s.jitter_gateway.level() >= s.jitter_internet.level()
        && near_faulty(s) {
        Some((s.jitter_gateway, "gateway replies vary".to_owned()))
    } else {
        None
    }
}

fn take_on(d: &mut Diagnosis, symptom: Option<(Health, String)>, w: Health)
    ensures
        final(d)@ == taking_on(old(d)@, symptom_of(symptom), w),
{
    match symptom {
        Some(p) => {
            if p.0.level() > w.level() {
                d.severity = d.severity.worst(p.0);
                put(&mut d.evidence, p.1);
                assert(d@ =~= taking_on(old(d)@, symptom_of(symptom), w));
            }
        },
        None => {},
    }
}

/// Let a verdict take on every symptom that is worse than it is.
pub(crate) fn raise(d: &mut Diagnosis, s: &Signals)
    ensures
        final(d)@ == raised(old(d)@, s@),
{
    let w = d.severity;
    take_on(d, lan_facts(s), w);
    take_on(d, hosts_facts(s), w);
    take_on(d, lookup_facts(s), w);
    take_on(d, web_facts(s), w);
    take_on(d, radio_symptoms(s), w);
    take_on(d, jitter_symptoms(s), w);
    proof {
        reveal(raised);
    }
}

/// The verdict, where it is worse than `w`.
fn keep(d: Option<Diagnosis>, w: Health) -> (r: Option<Diagnosis>)
    ensures
        verdict_of(r) == kept(verdict_of(d), w),
{
    match d {
        Some(x) => if x.severity.level() > w.level() {
            Some(x)
        } else {
            None
        },
        None => None,
    }
}

fn radio_verdict(s: &Signals) -> (r: Option<Diagnosis>)
    ensures
        verdict_of(r) == radio_rule(s@),
{
    if !unhealthy(s.radio) || near_faulty(s) {
        return None;
    }
    Some(
        Diagnosis {
            layer: Some(Layer::Wifi),
            severity: s.radio,
            headline: "Wi-Fi signal was weak, and its recovery is not confirmed yet".to_owned(),
            evidence: radio_evidence(s),
        },
    )
}

fn route_verdict(s: &Signals) -> (r: Option<Diagnosis>)
    ensures
        verdict_of(r) == route_rule(s@),
{
    if !unhealthy(s.route) {
        return None;
    }
    let (headline, fact) = if s.routing_reachable {
        ("The route to the internet has changed", "the path is not the one before")
    } else {
        ("The route to the internet is down", "the path probe does not get through")
    };
    Some(
        Diagnosis {
            layer: Some(Layer::Isp),
            severity: s.route,
            headline: headline.to_owned(),
            evidence: one(fact.to_owned()),
        },
    )
}

fn capacity_verdict(s: &Signals) -> (r: Option<Diagnosis>)
    ensures
        verdict_of(r) == capacity_rule(s@),
{
    if !unhealthy(s.capacity) {
        return None;
    }
    let evidence = match s.capacity_mbps {
        Some(v) => {
            let mut fact = String::new();
            push_fixed0(&mut fact, v);
            fact.append(" Mbps at the last test");
            assert(fact@ =~= fixed0(v as int) + " Mbps at the last test"@);
            one(fact)
        },
        None => nothing(),
    };
    Some(
        Diagnosis {
            layer: Some(Layer::Isp),
            severity: s.capacity,
            headline: "Download capacity is low".to_owned(),
            evidence,
        },
    )
}

fn jitter_verdict(s: &Signals) -> (r: Option<Diagnosis>)
    ensures
        verdict_of(r) == jitter_rule(s@),
{
    let h = s.jitter_gateway.worst(s.jitter_internet);
    if !unhealthy(h) {
        return None;
    }
    if s.jitter_gateway.level() < s.jitter_internet.level() {
        Some(
            Diagnosis {
                layer: Some(Layer::Isp),
                severity: h,
                headline: "Latency is unsteady (jitter) beyond your gateway".to_owned(),
                evidence: one("internet replies vary".to_owned()),
            },
        )
    } else if !near_faulty(s) {
        Some(
            Diagnosis {
                layer: Some(Layer::Gateway),
                severity: h,
                headline:
                    "Latency is unsteady (jitter) — already on your local network".to_owned(),
                evidence: one("gateway replies vary".to_owned()),
            },
        )
    } else {
        None
    }
}

fn web_verdict(s: &Signals, layer: Option<Layer>) -> (r: Option<Diagnosis>)
    ensures
        verdict_of(r) == web_rule(s@, layer),
{
    if !unhealthy(s.reach) || s.reach_bad > 0 || local_faulty(s) {
        return None;
    }
    Some(
        Diagnosis {
            layer,
            severity: s.reach,
            headline:
                "Web endpoints could not be reached, and their recovery is not confirmed yet".to_owned(),
            evidence: one("the last checks of all of them got through".to_owned()),
        },
    )
}

/// Add whatever is worse than `w` to the verdicts so far, `said`.
pub(crate) fn add_unsaid(
    ranked: &mut Ranked,
    s: &Signals,
    w: Health,
    layer: Option<Layer>,
    Ghost(said): Ghost<Seq<Verdict>>,
)
    requires
        old(ranked).ranks(said),
        old(ranked).count() < 50,
    ensures
        final(ranked).ranks(with_unsaid(said, s@, w, layer)),
        final(ranked).count() < 60,
{
    let ghost mut all = said;
    ranked.add_verdict(keep(radio_verdict(s), w), Ghost(all));
    proof {
        all = all + given(kept(radio_rule(s@), w));
    }
    ranked.add_verdict(keep(route_verdict(s), w), Ghost(all));
    proof {
        all = all + given(kept(route_rule(s@), w));
    }
    ranked.add_verdict(keep(capacity_verdict(s), w), Ghost(all));
    proof {
        all = all + given(kept(capacity_rule(s@), w));
    }
    ranked.add_verdict(keep(jitter_verdict(s), w), Ghost(all));
    proof {
        all = all + given(kept(jitter_rule(s@), w));
    }
    ranked.add_verdict(keep(web_verdict(s, layer), w), Ghost(all));
    proof {
        reveal(with_unsaid);
    }
}

} // verus!
