//! What the diagnosis says, and when: for each thing that can be wrong, the words that it is
//! reported in, the layer that is blamed, how severe it is and on what evidence, exactly where
//! it is wrong.

use vstd::prelude::*;

use crate::diagnosis::{
    blamed, bloat_rule, captive_rule, cert_rule, diagnosed, dns_rule, endpoint_rule, findings,
    gateway_rule, given, honesty_rule, isp_rule, join, law_diagnosis_lists_the_findings,
    law_no_problem_comes_alone, law_worst_first_sorts, lemma_findings, lemma_of_severity, lemma_rulings_hold,
    lemma_severity_of_one, lemma_severity_of_sum, nic_rule, no_problem, of_severity, radio_facts,
    ranked, remote_rule, ruled, rulings, transport_rule, wifi_rule, worst_first, Layer,
    SignalsModel, Verdict,
};
use crate::format::{decimal, fixed0};
use crate::health::{severity, worse, Health};
use crate::unsaid::{
    capacity_rule, first_layer, first_severity, hosts_symptom, jitter_rule, jitter_symptom,
    lan_symptom, law_taking_symptoms_on, lookup_symptom, noticed, radio_rule, radio_symptom,
    raised, route_rule, taking_on, web_rule, web_symptom, with_symptoms, with_unsaid,
};

verus! {

/// Something that a verdict may take on as a symptom is worse than `h`.
pub open spec fn worse_symptom(s: SignalsModel, h: Health) -> bool {
    ||| s.gateway matches Some(g) && severity(g) > severity(h)
    ||| severity(s.internet) > severity(h)
    ||| s.dns_system matches Some(d) && severity(d) > severity(h)
    ||| severity(s.dns_public) > severity(h)
    ||| severity(s.reach) > severity(h)
    ||| severity(s.radio) > severity(h)
    ||| severity(s.jitter_gateway) > severity(h)
}

/// `x` is the verdict `v`, or `v` with worse symptoms that it accounts for.
pub open spec fn stands_for(s: SignalsModel, x: Verdict, v: Verdict) -> bool {
    &&& x.layer == v.layer
    &&& x.headline == v.headline
    &&& v.evidence.is_prefix_of(x.evidence)
    &&& severity(x.severity) >= severity(v.severity)
    &&& x.severity == v.severity ==> x == v
    &&& x.severity != v.severity ==> worse_symptom(s, v.severity)
}

/// The diagnosis lists the verdict.
pub open spec fn listed(s: SignalsModel, v: Verdict) -> bool {
    exists|x: Verdict| #[trigger] diagnosed(s).contains(x) && stands_for(s, x, v)
}

/// The diagnosis lists a verdict in these words.
pub open spec fn mentioned(s: SignalsModel, headline: Seq<char>) -> bool {
    exists|x: Verdict| #[trigger] diagnosed(s).contains(x) && x.headline == headline
}

/// A rule has found something as severe as `h`.
pub open spec fn said_already(s: SignalsModel, h: Health) -> bool {
    exists|v: Verdict| #[trigger] ruled(s, v) && severity(v.severity) >= severity(h)
}

// ---------------------------------------------------------------------------------------
// Where verdicts come from
// ---------------------------------------------------------------------------------------

proof fn lemma_listed(s: SignalsModel, v: Verdict)
    requires
        ruled(s, v),
    ensures
        listed(s, v),
        mentioned(s, v.headline),
{
    let r = ranked(s);
    lemma_rulings_hold(s, v);
    law_worst_first_sorts(rulings(s), v);
    let k = choose|k: int| 0 <= k < r.len() && r[k] == v;
    let x = with_symptoms(r, s)[k];
    law_taking_symptoms_on(r[0], s);
    assert(with_symptoms(r, s).contains(x));
    assert(v.evidence.is_prefix_of(v.evidence));
    lemma_findings(s, x);
    law_diagnosis_lists_the_findings(s, x);
    assert(diagnosed(s).contains(x) && stands_for(s, x, v));
}

/// Whatever the diagnosis says is what a rule says, or a fault that no rule looks for, or that
/// nothing is wrong.
proof fn lemma_origin(s: SignalsModel, headline: Seq<char>) -> (v: Verdict)
    requires
        mentioned(s, headline),
    ensures
        v.headline == headline,
        ruled(s, v) || (noticed(s, first_layer(ranked(s)), v) && severity(v.severity) > severity(
            first_severity(ranked(s)),
        )) || v == no_problem(),
{
    let x = choose|x: Verdict| #[trigger] diagnosed(s).contains(x) && x.headline == headline;
    let first = ranked(s)[0];
    lemma_rulings_hold(s, x);
    law_diagnosis_lists_the_findings(s, x);
    lemma_findings(s, x);
    if ranked(s).len() > 0 {
        law_worst_first_sorts(rulings(s), first);
        lemma_rulings_hold(s, first);
        law_taking_symptoms_on(first, s);
        assert(ranked(s).contains(first));
    }
    if findings(s).contains(x) && with_symptoms(ranked(s), s).contains(x) && !rulings(s).contains(
        x,
    ) {
        first
    } else {
        x
    }
}

proof fn lemma_first_severity(s: SignalsModel, h: Health)
    requires
        h != Health::Good,
    ensures
        said_already(s, h) <==> severity(first_severity(ranked(s))) >= severity(h),
{
    let r = ranked(s);
    if said_already(s, h) {
        let v = choose|v: Verdict| #[trigger] ruled(s, v) && severity(v.severity) >= severity(h);
        lemma_rulings_hold(s, v);
        law_worst_first_sorts(rulings(s), v);
        let k = choose|k: int| 0 <= k < r.len() && r[k] == v;
        if k > 0 {
            assert(severity(r[0].severity) >= severity(r[k].severity));
        }
    }
    if severity(first_severity(r)) >= severity(h) {
        law_worst_first_sorts(rulings(s), r[0]);
        assert(r.contains(r[0]));
        lemma_rulings_hold(s, r[0]);
        assert(ruled(s, r[0]));
    }
}

/// A fault that no rule looks for is listed as it is, exactly where no rule has found anything
/// as severe.
proof fn lemma_noticed(s: SignalsModel, v: Verdict)
    requires
        noticed(s, first_layer(ranked(s)), v),
        v.severity != Health::Good,
        !said_already(s, v.severity),
    ensures
        diagnosed(s).contains(v),
        mentioned(s, v.headline),
{
    lemma_first_severity(s, v.severity);
    lemma_findings(s, v);
    law_diagnosis_lists_the_findings(s, v);
}

// ---------------------------------------------------------------------------------------
// How headlines begin
// ---------------------------------------------------------------------------------------

/// The text begins with the two characters.
pub open spec fn begins(h: Seq<char>, a: char, b: char) -> bool {
    h.len() >= 2 && h[0] == a && h[1] == b
}

proof fn lemma_local_words(s: SignalsModel)
    ensures
        nic_rule(s) matches Some(v) ==> begins(v.headline, 'N', 'e'),
        wifi_rule(s) matches Some(v) ==> begins(v.headline, 'W', 'i') || begins(
            v.headline,
            'W',
            'e',
        ),
        gateway_rule(s) matches Some(v) ==> begins(v.headline, 'H', 'i'),
        captive_rule(s) matches Some(v) ==> begins(v.headline, 'C', 'a'),
        begins(no_problem().headline, 'N', 'o'),
{
    reveal_strlit("Network interface is dropping frames — check the cable, port or driver");
    reveal_strlit("Wi-Fi link quality is poor (interference / low SNR)");
    reveal_strlit("Weak Wi-Fi signal — likely a local Wi-Fi problem");
    reveal_strlit("Weak Wi-Fi signal");
    reveal_strlit("High latency/loss to your gateway — local network problem");
    reveal_strlit("Captive portal — sign-in required to reach the internet");
    reveal_strlit("No problems detected");
}

proof fn lemma_provider_words(s: SignalsModel)
    ensures
        isp_rule(s) matches Some(v) ==> begins(v.headline, 'I', 'n') || begins(
            v.headline,
            'W',
            'e',
        ),
        bloat_rule(s) matches Some(v) ==> begins(v.headline, 'B', 'u'),
        transport_rule(s) matches Some(v) ==> begins(v.headline, 'C', 'o'),
{
    reveal_strlit("Internet unreachable — your router is fine, likely an ISP/WAN outage");
    reveal_strlit("Internet path degraded beyond your gateway (ISP/WAN)");
    reveal_strlit(
        "Web (HTTP/HTTPS) unreachable though ping works — possible filtering or captive portal",
    );
    reveal_strlit("Bufferbloat — latency spikes when the connection is busy");
    reveal_strlit("Connections are slow to establish though the path itself looks healthy");
    reveal_strlit("Connections are being refused or timing out (TCP/TLS)");
}

proof fn lemma_name_words(s: SignalsModel)
    ensures
        dns_rule(s) matches Some(v) ==> begins(v.headline, 'Y', 'o') || begins(
            v.headline,
            'D',
            'N',
        ),
        honesty_rule(s) matches Some(v) ==> begins(v.headline, 'S', 'o') || begins(
            v.headline,
            'A',
            ' ',
        ),
        cert_rule(s) matches Some(v) ==> begins(v.headline, 'A', ' '),
{
    reveal_strlit(
        "Your configured DNS server is failing; public resolvers work — a DNS configuration problem",
    );
    reveal_strlit("DNS resolution is failing while connectivity is fine");
    reveal_strlit("Something on this network is answering DNS in place of your resolvers");
    reveal_strlit("A resolver is answering for names it does not own");
    reveal_strlit("A TLS certificate has expired");
    reveal_strlit("A TLS certificate expires in ");
    reveal_strlit("A TLS certificate is close to expiry");
}

proof fn lemma_first_digit(n: nat)
    ensures
        decimal(n).len() > 0,
        '0' <= decimal(n)[0] <= '9',
    decreases n,
{
    if n >= 10 {
        lemma_first_digit(n / 10);
    }
}

proof fn lemma_remote_words(s: SignalsModel)
    ensures
        remote_rule(s) matches Some(v) ==> begins(v.headline, 'S', 'o'),
        endpoint_rule(s) matches Some(v) ==> v.headline.len() > 0 && '0' <= v.headline[0] <= '9',
{
    reveal_strlit("Some hosts are slow or lossy (");
    lemma_first_digit(s.reach_bad);
}

proof fn lemma_unsaid_words(s: SignalsModel, l: Option<Layer>)
    ensures
        radio_rule(s) matches Some(v) ==> begins(v.headline, 'W', 'i'),
        route_rule(s) matches Some(v) ==> begins(v.headline, 'T', 'h'),
        capacity_rule(s) matches Some(v) ==> begins(v.headline, 'D', 'o'),
        jitter_rule(s) matches Some(v) ==> begins(v.headline, 'L', 'a'),
        web_rule(s, l) matches Some(v) ==> begins(v.headline, 'W', 'e'),
{
    reveal_strlit("Wi-Fi signal was weak, and its recovery is not confirmed yet");
    reveal_strlit("The route to the internet has changed");
    reveal_strlit("The route to the internet is down");
    reveal_strlit("Download capacity is low");
    reveal_strlit("Latency is unsteady (jitter) beyond your gateway");
    reveal_strlit("Latency is unsteady (jitter) — already on your local network");
    reveal_strlit("Web endpoints could not be reached, and their recovery is not confirmed yet");
}

/// Where words come from, with how all other words begin.
proof fn lemma_words(s: SignalsModel, headline: Seq<char>) -> (v: Verdict)
    requires
        mentioned(s, headline),
        headline.len() >= 2,
    ensures
        v.headline == headline,
        begins(headline, 'N', 'e') ==> nic_rule(s) == Some(v),
        begins(headline, 'H', 'i') ==> gateway_rule(s) == Some(v),
        begins(headline, 'C', 'a') ==> captive_rule(s) == Some(v),
        begins(headline, 'I', 'n') ==> isp_rule(s) == Some(v),
        begins(headline, 'B', 'u') ==> bloat_rule(s) == Some(v),
        begins(headline, 'C', 'o') ==> transport_rule(s) == Some(v),
        begins(headline, 'Y', 'o') || begins(headline, 'D', 'N') ==> dns_rule(s) == Some(v),
        begins(headline, 'A', ' ') ==> honesty_rule(s) == Some(v) || cert_rule(s) == Some(v),
        begins(headline, 'S', 'o') ==> honesty_rule(s) == Some(v) || remote_rule(s) == Some(v),
        '0' <= headline[0] <= '9' ==> endpoint_rule(s) == Some(v),
        begins(headline, 'N', 'o') ==> v == no_problem(),
        begins(headline, 'W', 'i') ==> wifi_rule(s) == Some(v) || (radio_rule(s) == Some(v)
            && !said_already(s, v.severity)),
        begins(headline, 'W', 'e') ==> wifi_rule(s) == Some(v) || isp_rule(s) == Some(v) || (
        web_rule(s, first_layer(ranked(s))) == Some(v) && !said_already(s, v.severity)),
        begins(headline, 'T', 'h') ==> route_rule(s) == Some(v) && !said_already(s, v.severity),
        begins(headline, 'D', 'o') ==> capacity_rule(s) == Some(v) && !said_already(
            s,
            v.severity,
        ),
        begins(headline, 'L', 'a') ==> jitter_rule(s) == Some(v) && !said_already(s, v.severity),
{
    let v = lemma_origin(s, headline);
    let l = first_layer(ranked(s));
    lemma_local_words(s);
    lemma_provider_words(s);
    lemma_name_words(s);
    lemma_remote_words(s);
    lemma_unsaid_words(s, l);
    if noticed(s, l, v) {
        lemma_first_severity(s, v.severity);
    }
    v
}

// ---------------------------------------------------------------------------------------
// The card, the radio and the local network
// ---------------------------------------------------------------------------------------

/// The card is reported exactly while it has errors, with their count where it is known.
pub proof fn law_a_faulty_card_is_reported(s: SignalsModel)
    ensures
        ({
            let words =
                "Network interface is dropping frames — check the cable, port or driver"@;
            &&& mentioned(s, words) <==> s.nic_errors != Health::Good
            &&& s.nic_errors != Health::Good && s.nic_error_count is None ==> listed(
                s,
                Verdict {
                    layer: Some(Layer::Nic),
                    severity: s.nic_errors,
                    headline: words,
                    evidence: seq!["errors on the local interface"@],
                },
            )
            &&& s.nic_errors != Health::Good && s.nic_error_count is Some ==> listed(
                s,
                Verdict {
                    layer: Some(Layer::Nic),
                    severity: s.nic_errors,
                    headline: words,
                    evidence: seq![
                        decimal(s.nic_error_count->0 as nat) + " errors in the last interval"@,
                        "errors on the local interface"@,
                    ],
                },
            )
        }),
{
    let words = "Network interface is dropping frames — check the cable, port or driver"@;
    reveal_strlit("Network interface is dropping frames — check the cable, port or driver");
    if s.nic_errors != Health::Good {
        lemma_listed(s, nic_rule(s)->0);
    }
    if mentioned(s, words) {
        let v = lemma_words(s, words);
    }
}

/// What is said of the radio: each of the signal, its distance from the noise and the rate is
/// given where it is known, in that order, and nothing else is.
pub proof fn law_the_radio_is_described_by_what_is_known(s: SignalsModel)
    ensures
        radio_facts(s).len() == (if s.rssi_dbm is Some {
            1int
        } else {
            0
        }) + (if s.snr_db is Some {
            1int
        } else {
            0
        }) + (if s.tx_rate is Some {
            1int
        } else {
            0
        }),
        s.rssi_dbm matches Some(r) ==> radio_facts(s)[0] == "RSSI "@ + fixed0(r as int)
            + " dBm"@,
        s.snr_db matches Some(v) ==> radio_facts(s).contains("SNR "@ + fixed0(v as int) + " dB"@),
        s.tx_rate matches Some(t) ==> radio_facts(s).last() == fixed0(t as int) + " Mbps"@,
        s.rssi_dbm is Some && s.snr_db is Some ==> radio_facts(s)[1] == "SNR "@ + fixed0(
            s.snr_db->0 as int,
        ) + " dB"@,
{
    if s.snr_db is Some {
        let k: int = if s.rssi_dbm is Some {
            1
        } else {
            0
        };
        assert(radio_facts(s)[k] == "SNR "@ + fixed0(s.snr_db->0 as int) + " dB"@);
    }
}

/// A weak signal is told from a signal that is strong and disturbed, and from a weak signal
/// with a gateway that suffers from it; each is reported exactly where it is so.
pub proof fn law_a_faulty_radio_is_reported(s: SignalsModel)
    ensures
        ({
            let disturbed = "Wi-Fi link quality is poor (interference / low SNR)"@;
            let weak = "Weak Wi-Fi signal"@;
            let weak_and_felt = "Weak Wi-Fi signal — likely a local Wi-Fi problem"@;
            let gateway_bad = s.gateway is Some && s.gateway != Some(Health::Good);
            &&& mentioned(s, disturbed) <==> s.wifi_signal == Health::Good && s.wifi_quality
                != Health::Good
            &&& mentioned(s, weak) <==> s.wifi_signal != Health::Good && !gateway_bad
            &&& mentioned(s, weak_and_felt) <==> s.wifi_signal != Health::Good && gateway_bad
            &&& s.wifi_signal == Health::Good && s.wifi_quality != Health::Good ==> listed(
                s,
                Verdict {
                    layer: Some(Layer::Wifi),
                    severity: s.wifi_quality,
                    headline: disturbed,
                    evidence: radio_facts(s),
                },
            )
            &&& s.wifi_signal != Health::Good && !gateway_bad ==> listed(
                s,
                Verdict {
                    layer: Some(Layer::Wifi),
                    severity: worse(s.wifi_signal, s.wifi_quality),
                    headline: weak,
                    evidence: radio_facts(s),
                },
            )
            &&& s.wifi_signal != Health::Good && gateway_bad ==> listed(
                s,
                Verdict {
                    layer: Some(Layer::Wifi),
                    severity: worse(worse(s.wifi_signal, s.wifi_quality), s.gateway->0),
                    headline: weak_and_felt,
                    evidence: radio_facts(s).push("gateway shows latency/loss"@),
                },
            )
        }),
{
    let disturbed = "Wi-Fi link quality is poor (interference / low SNR)"@;
    let weak = "Weak Wi-Fi signal"@;
    let weak_and_felt = "Weak Wi-Fi signal — likely a local Wi-Fi problem"@;
    reveal_strlit("Wi-Fi link quality is poor (interference / low SNR)");
    reveal_strlit("Weak Wi-Fi signal");
    reveal_strlit("Weak Wi-Fi signal — likely a local Wi-Fi problem");
    reveal_strlit("Wi-Fi signal was weak, and its recovery is not confirmed yet");
    reveal_strlit("Web endpoints could not be reached, and their recovery is not confirmed yet");
    reveal_strlit(
        "Web (HTTP/HTTPS) unreachable though ping works — possible filtering or captive portal",
    );
    assert(radio_facts(s) + seq!["gateway shows latency/loss"@] =~= radio_facts(s).push(
        "gateway shows latency/loss"@,
    ));
    if wifi_rule(s) is Some {
        lemma_listed(s, wifi_rule(s)->0);
    }
    lemma_provider_words(s);
    assert(disturbed[6] == 'l');
    assert("Wi-Fi signal was weak, and its recovery is not confirmed yet"@[6] == 's');
    assert(weak[2] == 'a' && weak_and_felt[2] == 'a');
    assert("Web endpoints could not be reached, and their recovery is not confirmed yet"@[2]
        == 'b');
    if mentioned(s, disturbed) {
        let v = lemma_words(s, disturbed);
    }
    if mentioned(s, weak) {
        let v = lemma_words(s, weak);
        if isp_rule(s) == Some(v) {
            lemma_web_words(s);
        }
    }
    if mentioned(s, weak_and_felt) {
        let v = lemma_words(s, weak_and_felt);
        if isp_rule(s) == Some(v) {
            lemma_web_words(s);
        }
    }
}

proof fn lemma_web_words(s: SignalsModel)
    ensures
        isp_rule(s) matches Some(v) ==> v.headline.len() > 3 && v.headline[2] != 'a',
{
    reveal_strlit("Internet unreachable — your router is fine, likely an ISP/WAN outage");
    reveal_strlit("Internet path degraded beyond your gateway (ISP/WAN)");
    reveal_strlit(
        "Web (HTTP/HTTPS) unreachable though ping works — possible filtering or captive portal",
    );
}

/// The local network is blamed exactly where the gateway is known to be bad and the radio is
/// not to blame for it.
pub proof fn law_a_faulty_gateway_is_reported(s: SignalsModel)
    ensures
        ({
            let words = "High latency/loss to your gateway — local network problem"@;
            let bad = s.gateway is Some && s.gateway != Some(Health::Good) && s.wifi_signal
                == Health::Good && s.wifi_quality == Health::Good;
            &&& mentioned(s, words) <==> bad
            &&& bad ==> listed(
                s,
                Verdict {
                    layer: Some(Layer::Gateway),
                    severity: s.gateway->0,
                    headline: words,
                    evidence: seq!["gateway ping degraded"@],
                },
            )
        }),
{
    let words = "High latency/loss to your gateway — local network problem"@;
    reveal_strlit("High latency/loss to your gateway — local network problem");
    if gateway_rule(s) is Some {
        lemma_listed(s, gateway_rule(s)->0);
    }
    if mentioned(s, words) {
        let v = lemma_words(s, words);
    }
}

// ---------------------------------------------------------------------------------------
// The provider
// ---------------------------------------------------------------------------------------

/// A portal is reported exactly where one is seen, and as bad as it gets.
pub proof fn law_a_portal_is_reported(s: SignalsModel)
    ensures
        ({
            let words = "Captive portal — sign-in required to reach the internet"@;
            &&& mentioned(s, words) <==> s.captive
            &&& s.captive ==> listed(
                s,
                Verdict {
                    layer: Some(Layer::Isp),
                    severity: Health::Crit,
                    headline: words,
                    evidence: seq!["a web request was intercepted by a login page"@],
                },
            )
        }),
{
    let words = "Captive portal — sign-in required to reach the internet"@;
    reveal_strlit("Captive portal — sign-in required to reach the internet");
    if s.captive {
        lemma_listed(s, captive_rule(s)->0);
    }
    if mentioned(s, words) {
        let v = lemma_words(s, words);
    }
}

/// The provider is blamed only behind a gateway that is not known to be bad, and never for a
/// portal. It is an outage where no endpoint answers and either all hosts are bad or the route
/// is down; a degraded path where all hosts are bad otherwise; and filtering where only the
/// endpoints fail.
pub proof fn law_a_faulty_provider_is_reported(s: SignalsModel)
    ensures
        ({
            let outage = "Internet unreachable — your router is fine, likely an ISP/WAN outage"@;
            let degraded = "Internet path degraded beyond your gateway (ISP/WAN)"@;
            let filtered =
                "Web (HTTP/HTTPS) unreachable though ping works — possible filtering or captive portal"@;
            let beyond = (s.gateway is None || s.gateway == Some(Health::Good)) && !s.captive;
            let hosts = s.internet_total > 0 && s.internet_bad == s.internet_total;
            let route = s.routing_seen && !s.routing_reachable;
            &&& mentioned(s, outage) <==> beyond && s.reach_all_fail && (hosts || route)
            &&& mentioned(s, degraded) <==> beyond && hosts && !s.reach_all_fail
            &&& mentioned(s, filtered) <==> beyond && s.reach_all_fail && !hosts && !route
            &&& beyond && s.reach_all_fail && (hosts || route) ==> listed(
                s,
                Verdict {
                    layer: Some(Layer::Isp),
                    severity: Health::Crit,
                    headline: outage,
                    evidence: seq![
                        "web endpoints unreachable"@,
                        if route {
                            "route to the internet is down"@
                        } else {
                            "all internet hosts failing"@
                        },
                    ],
                },
            )
            &&& beyond && hosts && !s.reach_all_fail ==> listed(
                s,
                Verdict {
                    layer: Some(Layer::Isp),
                    severity: s.internet,
                    headline: degraded,
                    evidence: seq!["all internet hosts show latency/loss"@],
                },
            )
            &&& beyond && s.reach_all_fail && !hosts && !route ==> listed(
                s,
                Verdict {
                    layer: Some(Layer::Isp),
                    severity: Health::Warn,
                    headline: filtered,
                    evidence: seq!["reachability checks all failing"@],
                },
            )
        }),
{
    let outage = "Internet unreachable — your router is fine, likely an ISP/WAN outage"@;
    let degraded = "Internet path degraded beyond your gateway (ISP/WAN)"@;
    let filtered =
        "Web (HTTP/HTTPS) unreachable though ping works — possible filtering or captive portal"@;
    reveal_strlit("Internet unreachable — your router is fine, likely an ISP/WAN outage");
    reveal_strlit("Internet path degraded beyond your gateway (ISP/WAN)");
    reveal_strlit(
        "Web (HTTP/HTTPS) unreachable though ping works — possible filtering or captive portal",
    );
    assert(outage[9] == 'u' && degraded[9] == 'p' && filtered[4] == '(' && filtered[0] == 'W');
    if isp_rule(s) is Some {
        lemma_listed(s, isp_rule(s)->0);
    }
    if mentioned(s, outage) {
        let v = lemma_words(s, outage);
    }
    if mentioned(s, degraded) {
        let v = lemma_words(s, degraded);
    }
    if mentioned(s, filtered) {
        let v = lemma_words(s, filtered);
        lemma_weak_words(s);
        reveal_strlit("Web endpoints could not be reached, and their recovery is not confirmed yet");
        assert("Web endpoints could not be reached, and their recovery is not confirmed yet"@[4]
            == 'e');
        assert(filtered[2] == 'b');
    }
}

proof fn lemma_weak_words(s: SignalsModel)
    ensures
        wifi_rule(s) matches Some(v) ==> v.headline.len() > 3 && v.headline[2] != 'b',
{
    reveal_strlit("Wi-Fi link quality is poor (interference / low SNR)");
    reveal_strlit("Weak Wi-Fi signal — likely a local Wi-Fi problem");
    reveal_strlit("Weak Wi-Fi signal");
}

/// Bufferbloat is reported exactly while it is bad, with what it adds where that is known.
pub proof fn law_bufferbloat_is_reported(s: SignalsModel)
    ensures
        ({
            let words = "Bufferbloat — latency spikes when the connection is busy"@;
            &&& mentioned(s, words) <==> s.bufferbloat != Health::Good
            &&& s.bufferbloat != Health::Good ==> listed(
                s,
                Verdict {
                    layer: Some(Layer::Isp),
                    severity: s.bufferbloat,
                    headline: words,
                    evidence: match s.bufferbloat_ms {
                        Some(d) => seq!["+"@ + fixed0(d as int) + "ms latency under load"@],
                        None => Seq::empty(),
                    },
                },
            )
        }),
{
    let words = "Bufferbloat — latency spikes when the connection is busy"@;
    reveal_strlit("Bufferbloat — latency spikes when the connection is busy");
    if bloat_rule(s) is Some {
        lemma_listed(s, bloat_rule(s)->0);
    }
    if mentioned(s, words) {
        let v = lemma_words(s, words);
    }
}

/// Handshakes that fail are told from handshakes that are slow, and either is reported exactly
/// while they are bad.
pub proof fn law_faulty_handshakes_are_reported(s: SignalsModel)
    ensures
        ({
            let slow = "Connections are slow to establish though the path itself looks healthy"@;
            let refused = "Connections are being refused or timing out (TCP/TLS)"@;
            let bad = s.transport != Health::Good;
            &&& mentioned(s, slow) <==> bad && s.transport_failed.len() == 0
            &&& mentioned(s, refused) <==> bad && s.transport_failed.len() > 0
            &&& bad && s.transport_failed.len() == 0 ==> listed(
                s,
                Verdict {
                    layer: Some(Layer::Isp),
                    severity: s.transport,
                    headline: slow,
                    evidence: seq!["handshakes are slow"@],
                },
            )
            &&& bad && s.transport_failed.len() > 0 ==> listed(
                s,
                Verdict {
                    layer: Some(Layer::Isp),
                    severity: s.transport,
                    headline: refused,
                    evidence: seq!["no connection to "@ + join(s.transport_failed, ", "@)],
                },
            )
        }),
{
    let slow = "Connections are slow to establish though the path itself looks healthy"@;
    let refused = "Connections are being refused or timing out (TCP/TLS)"@;
    reveal_strlit("Connections are slow to establish though the path itself looks healthy");
    reveal_strlit("Connections are being refused or timing out (TCP/TLS)");
    assert(slow[16] == 's' && refused[16] == 'b');
    if transport_rule(s) is Some {
        lemma_listed(s, transport_rule(s)->0);
    }
    if mentioned(s, slow) {
        let v = lemma_words(s, slow);
    }
    if mentioned(s, refused) {
        let v = lemma_words(s, refused);
    }
}

// ---------------------------------------------------------------------------------------
// Name resolution
// ---------------------------------------------------------------------------------------

/// Lookups are blamed only while something gets through: an endpoint answers, the hosts are
/// fine or the route is. The configured resolver is at fault exactly where it alone is bad;
/// where the public ones are bad too, or alone, all lookups are.
pub proof fn law_failing_lookups_are_reported(s: SignalsModel)
    ensures
        ({
            let configured =
                "Your configured DNS server is failing; public resolvers work — a DNS configuration problem"@;
            let all = "DNS resolution is failing while connectivity is fine"@;
            let connected = s.reach_any_ok || s.internet == Health::Good || (s.routing_seen
                && s.routing_reachable);
            let system_bad = s.dns_system is Some && s.dns_system != Some(Health::Good);
            let public_bad = s.dns_public != Health::Good;
            &&& mentioned(s, configured) <==> connected && system_bad && !public_bad
            &&& mentioned(s, all) <==> connected && public_bad
            &&& connected && system_bad && !public_bad ==> listed(
                s,
                Verdict {
                    layer: Some(Layer::Dns),
                    severity: s.dns_system->0,
                    headline: configured,
                    evidence: seq!["system resolver failing, 1.1.1.1 / 8.8.8.8 OK"@],
                },
            )
            &&& connected && public_bad && !system_bad ==> listed(
                s,
                Verdict {
                    layer: Some(Layer::Dns),
                    severity: s.dns_public,
                    headline: all,
                    evidence: seq!["resolvers slow or not answering"@],
                },
            )
            &&& connected && public_bad && system_bad ==> listed(
                s,
                Verdict {
                    layer: Some(Layer::Dns),
                    severity: if s.dns_public == Health::Crit || s.dns_system == Some(
                        Health::Crit,
                    ) {
                        Health::Crit
                    } else {
                        Health::Warn
                    },
                    headline: all,
                    evidence: seq!["resolvers slow or not answering"@],
                },
            )
        }),
{
    let configured =
        "Your configured DNS server is failing; public resolvers work — a DNS configuration problem"@;
    let all = "DNS resolution is failing while connectivity is fine"@;
    reveal_strlit(
        "Your configured DNS server is failing; public resolvers work — a DNS configuration problem",
    );
    reveal_strlit("DNS resolution is failing while connectivity is fine");
    assert(configured[0] == 'Y' && all[0] == 'D');
    if dns_rule(s) is Some {
        lemma_listed(s, dns_rule(s)->0);
    }
    if mentioned(s, configured) {
        let v = lemma_words(s, configured);
    }
    if mentioned(s, all) {
        let v = lemma_words(s, all);
    }
}

/// A resolver that lies is reported whatever else there is: answers that are not the
/// resolver's own before answers for names that it does not own.
pub proof fn law_dishonest_resolvers_are_reported(s: SignalsModel)
    ensures
        ({
            let forged = "Something on this network is answering DNS in place of your resolvers"@;
            let hijacked = "A resolver is answering for names it does not own"@;
            let bad = s.dns_integrity != Health::Good;
            &&& mentioned(s, forged) <==> bad && s.dns_forged.len() > 0
            &&& mentioned(s, hijacked) <==> bad && s.dns_forged.len() == 0
            &&& bad && s.dns_forged.len() > 0 ==> listed(
                s,
                Verdict {
                    layer: Some(Layer::Dns),
                    severity: s.dns_integrity,
                    headline: forged,
                    evidence: seq![
                        join(s.dns_forged, ", "@)
                            + " replied to nothing that must resolve — the answers are not theirs"@,
                    ],
                },
            )
            &&& bad && s.dns_forged.len() == 0 ==> listed(
                s,
                Verdict {
                    layer: Some(Layer::Dns),
                    severity: s.dns_integrity,
                    headline: hijacked,
                    evidence: seq![
                        join(s.dns_hijacked, ", "@)
                            + " returns addresses for names that should not resolve"@,
                    ],
                },
            )
        }),
{
    let forged = "Something on this network is answering DNS in place of your resolvers"@;
    let hijacked = "A resolver is answering for names it does not own"@;
    reveal_strlit("Something on this network is answering DNS in place of your resolvers");
    reveal_strlit("A resolver is answering for names it does not own");
    assert(forged[4] == 't' && hijacked[2] == 'r');
    if honesty_rule(s) is Some {
        lemma_listed(s, honesty_rule(s)->0);
    }
    if mentioned(s, forged) {
        let v = lemma_words(s, forged);
        lemma_hosts_words(s);
    }
    if mentioned(s, hijacked) {
        let v = lemma_words(s, hijacked);
        lemma_tls_words(s);
    }
}

proof fn lemma_hosts_words(s: SignalsModel)
    ensures
        remote_rule(s) matches Some(v) ==> v.headline.len() > 4 && v.headline[4] == ' ',
{
    reveal_strlit("Some hosts are slow or lossy (");
}

proof fn lemma_tls_words(s: SignalsModel)
    ensures
        cert_rule(s) matches Some(v) ==> v.headline.len() > 2 && v.headline[2] == 'T',
{
    reveal_strlit("A TLS certificate has expired");
    reveal_strlit("A TLS certificate expires in ");
    reveal_strlit("A TLS certificate is close to expiry");
}

proof fn lemma_honesty_words(s: SignalsModel)
    ensures
        honesty_rule(s) matches Some(v) ==> v.headline.len() > 4 && v.headline[2] != 'T'
            && v.headline[4] != ' ',
{
    reveal_strlit("Something on this network is answering DNS in place of your resolvers");
    reveal_strlit("A resolver is answering for names it does not own");
}

// ---------------------------------------------------------------------------------------
// Certificates and single services
// ---------------------------------------------------------------------------------------

/// A certificate is reported exactly while one is close to its end, and blames no layer. The
/// one that ends first is named, with the days that it has, or that it has been over for.
pub proof fn law_ending_certificates_are_reported(s: SignalsModel)
    ensures
        ({
            let over = "A TLS certificate has expired"@;
            let close = "A TLS certificate is close to expiry"@;
            let bad = s.cert != Health::Good;
            &&& mentioned(s, over) <==> bad && s.cert_soonest is Some && (s.cert_soonest->0).1 < 0
            &&& mentioned(s, close) <==> bad && s.cert_soonest is None
            &&& bad && s.cert_soonest is None ==> listed(
                s,
                Verdict {
                    layer: None,
                    severity: s.cert,
                    headline: close,
                    evidence: Seq::empty(),
                },
            )
            &&& bad && s.cert_soonest is Some ==> {
                let name = (s.cert_soonest->0).0;
                let days = (s.cert_soonest->0).1;
                &&& days < 0 ==> listed(
                    s,
                    Verdict {
                        layer: None,
                        severity: s.cert,
                        headline: over,
                        evidence: seq![name + ": expired "@ + decimal((-days) as nat) + "d ago"@],
                    },
                )
                &&& days >= 0 ==> listed(
                    s,
                    Verdict {
                        layer: None,
                        severity: s.cert,
                        headline: "A TLS certificate expires in "@ + decimal(days as nat)
                            + " days"@,
                        evidence: seq![name + ": "@ + decimal(days as nat) + "d left"@],
                    },
                )
            }
        }),
{
    let over = "A TLS certificate has expired"@;
    let close = "A TLS certificate is close to expiry"@;
    reveal_strlit("A TLS certificate has expired");
    reveal_strlit("A TLS certificate is close to expiry");
    reveal_strlit("A TLS certificate expires in ");
    assert(over[18] == 'h' && close[18] == 'i' && "A TLS certificate expires in "@[18] == 'e');
    lemma_honesty_words(s);
    if cert_rule(s) is Some {
        lemma_listed(s, cert_rule(s)->0);
    }
    if mentioned(s, over) {
        let v = lemma_words(s, over);
    }
    if mentioned(s, close) {
        let v = lemma_words(s, close);
    }
}

/// Some hosts are reported as slow exactly where some are bad and some are not, behind a
/// gateway that is not known to be bad. The worst is named.
pub proof fn law_single_hosts_are_reported(s: SignalsModel)
    ensures
        ({
            let words = "Some hosts are slow or lossy ("@ + decimal(s.internet_bad) + "/"@
                + decimal(s.internet_total) + "); the rest of your connection is healthy"@;
            let some = (s.gateway is None || s.gateway == Some(Health::Good)) && 0
                < s.internet_bad < s.internet_total;
            &&& mentioned(s, words) <==> some
            &&& some ==> listed(
                s,
                Verdict {
                    layer: Some(Layer::Remote),
                    severity: s.internet,
                    headline: words,
                    evidence: seq![
                        "worst host: "@ + (match s.worst_internet_host {
                            Some(h) => h,
                            None => "a remote host"@,
                        }),
                    ],
                },
            )
        }),
{
    let words = "Some hosts are slow or lossy ("@ + decimal(s.internet_bad) + "/"@ + decimal(
        s.internet_total,
    ) + "); the rest of your connection is healthy"@;
    reveal_strlit("Some hosts are slow or lossy (");
    lemma_honesty_words(s);
    if remote_rule(s) is Some {
        lemma_listed(s, remote_rule(s)->0);
    }
    if mentioned(s, words) {
        let v = lemma_words(s, words);
    }
}

/// Single endpoints are reported, as bad as it gets, exactly where some fail and some do not.
pub proof fn law_single_endpoints_are_reported(s: SignalsModel)
    ensures
        ({
            let words = decimal(s.reach_bad) + " of "@ + decimal(s.reach_total)
                + " web endpoints unreachable; the rest of your connection is healthy"@;
            let some = !s.reach_all_fail && 0 < s.reach_bad < s.reach_total;
            &&& mentioned(s, words) <==> some
            &&& some ==> listed(
                s,
                Verdict {
                    layer: Some(Layer::Remote),
                    severity: Health::Crit,
                    headline: words,
                    evidence: seq!["likely that service rather than your network"@],
                },
            )
        }),
{
    let words = decimal(s.reach_bad) + " of "@ + decimal(s.reach_total)
        + " web endpoints unreachable; the rest of your connection is healthy"@;
    reveal_strlit(" of ");
    lemma_first_digit(s.reach_bad);
    if endpoint_rule(s) is Some {
        lemma_listed(s, endpoint_rule(s)->0);
    }
    if mentioned(s, words) {
        let v = lemma_words(s, words);
    }
}

/// Names in a list are separated, and nothing else is added.
pub proof fn law_joining_separates(parts: Seq<Seq<char>>, last: Seq<char>, sep: Seq<char>)
    ensures
        join(Seq::empty(), sep) == Seq::<char>::empty(),
        join(seq![last], sep) == last,
        parts.len() > 0 ==> join(parts.push(last), sep) == join(parts, sep) + sep + last,
{
    assert(parts.push(last).drop_last() =~= parts);
}

// ---------------------------------------------------------------------------------------
// What no rule looks for
// ---------------------------------------------------------------------------------------

/// A low capacity is reported exactly where no rule has found anything as severe.
pub proof fn law_a_low_capacity_is_reported(s: SignalsModel)
    ensures
        ({
            let words = "Download capacity is low"@;
            &&& mentioned(s, words) <==> s.capacity != Health::Good && !said_already(s, s.capacity)
            &&& mentioned(s, words) ==> diagnosed(s).contains(
                Verdict {
                    layer: Some(Layer::Isp),
                    severity: s.capacity,
                    headline: words,
                    evidence: match s.capacity_mbps {
                        Some(v) => seq![fixed0(v as int) + " Mbps at the last test"@],
                        None => Seq::empty(),
                    },
                },
            )
        }),
{
    let words = "Download capacity is low"@;
    reveal_strlit("Download capacity is low");
    if capacity_rule(s) is Some && !said_already(s, s.capacity) {
        lemma_noticed(s, capacity_rule(s)->0);
    }
    if mentioned(s, words) {
        let v = lemma_words(s, words);
        lemma_noticed(s, v);
    }
}

/// A route that changed, or that is down, is reported exactly where no rule has found anything
/// as severe.
pub proof fn law_a_troubled_route_is_reported(s: SignalsModel)
    ensures
        ({
            let changed = "The route to the internet has changed"@;
            let down = "The route to the internet is down"@;
            let new = s.route != Health::Good && !said_already(s, s.route);
            &&& mentioned(s, changed) <==> new && s.routing_reachable
            &&& mentioned(s, down) <==> new && !s.routing_reachable
            &&& new && s.routing_reachable ==> diagnosed(s).contains(
                Verdict {
                    layer: Some(Layer::Isp),
                    severity: s.route,
                    headline: changed,
                    evidence: seq!["the path is not the one before"@],
                },
            )
            &&& new && !s.routing_reachable ==> diagnosed(s).contains(
                Verdict {
                    layer: Some(Layer::Isp),
                    severity: s.route,
                    headline: down,
                    evidence: seq!["the path probe does not get through"@],
                },
            )
        }),
{
    let changed = "The route to the internet has changed"@;
    let down = "The route to the internet is down"@;
    reveal_strlit("The route to the internet has changed");
    reveal_strlit("The route to the internet is down");
    assert(changed[26] == 'h' && down[26] == 'i');
    if route_rule(s) is Some && !said_already(s, s.route) {
        lemma_noticed(s, route_rule(s)->0);
    }
    if mentioned(s, changed) {
        let v = lemma_words(s, changed);
    }
    if mentioned(s, down) {
        let v = lemma_words(s, down);
    }
}

/// Jitter is reported where no rule has found anything as severe. It lies beyond the gateway
/// exactly where the gateway's own replies are steadier; where they are not it lies on the
/// local network, and is left to the verdict on the radio or the gateway where there is one.
pub proof fn law_jitter_is_reported(s: SignalsModel)
    ensures
        ({
            let beyond = "Latency is unsteady (jitter) beyond your gateway"@;
            let local = "Latency is unsteady (jitter) — already on your local network"@;
            let outside = severity(s.jitter_internet) > severity(s.jitter_gateway);
            let near = s.wifi_signal != Health::Good || s.wifi_quality != Health::Good || (
            s.gateway is Some && s.gateway != Some(Health::Good));
            &&& mentioned(s, beyond) <==> outside && !said_already(s, s.jitter_internet)
            &&& mentioned(s, local) <==> !outside && s.jitter_gateway != Health::Good && !near
                && !said_already(s, s.jitter_gateway)
            &&& mentioned(s, beyond) ==> diagnosed(s).contains(
                Verdict {
                    layer: Some(Layer::Isp),
                    severity: s.jitter_internet,
                    headline: beyond,
                    evidence: seq!["internet replies vary"@],
                },
            )
            &&& mentioned(s, local) ==> diagnosed(s).contains(
                Verdict {
                    layer: Some(Layer::Gateway),
                    severity: s.jitter_gateway,
                    headline: local,
                    evidence: seq!["gateway replies vary"@],
                },
            )
        }),
{
    let beyond = "Latency is unsteady (jitter) beyond your gateway"@;
    let local = "Latency is unsteady (jitter) — already on your local network"@;
    reveal_strlit("Latency is unsteady (jitter) beyond your gateway");
    reveal_strlit("Latency is unsteady (jitter) — already on your local network");
    assert(beyond[29] == 'b' && local[29] != 'b');
    if jitter_rule(s) is Some && !said_already(s, jitter_rule(s)->0.severity) {
        lemma_noticed(s, jitter_rule(s)->0);
    }
    if mentioned(s, beyond) {
        let v = lemma_words(s, beyond);
        lemma_noticed(s, v);
    }
    if mentioned(s, local) {
        let v = lemma_words(s, local);
        lemma_noticed(s, v);
    }
}

/// A radio that has recovered, but for the confirmation, is reported exactly where nothing
/// else local is at fault and no rule has found anything as severe.
pub proof fn law_an_unconfirmed_radio_is_reported(s: SignalsModel)
    ensures
        ({
            let words = "Wi-Fi signal was weak, and its recovery is not confirmed yet"@;
            let near = s.wifi_signal != Health::Good || s.wifi_quality != Health::Good || (
            s.gateway is Some && s.gateway != Some(Health::Good));
            &&& mentioned(s, words) <==> s.radio != Health::Good && !near && !said_already(
                s,
                s.radio,
            )
            &&& mentioned(s, words) ==> diagnosed(s).contains(
                Verdict {
                    layer: Some(Layer::Wifi),
                    severity: s.radio,
                    headline: words,
                    evidence: radio_facts(s),
                },
            )
        }),
{
    let words = "Wi-Fi signal was weak, and its recovery is not confirmed yet"@;
    reveal_strlit("Wi-Fi signal was weak, and its recovery is not confirmed yet");
    reveal_strlit("Wi-Fi link quality is poor (interference / low SNR)");
    reveal_strlit("Weak Wi-Fi signal");
    reveal_strlit("Weak Wi-Fi signal — likely a local Wi-Fi problem");
    assert(words[6] == 's' && "Wi-Fi link quality is poor (interference / low SNR)"@[6] == 'l');
    assert(words[1] == 'i' && "Weak Wi-Fi signal"@[1] == 'e'
        && "Weak Wi-Fi signal — likely a local Wi-Fi problem"@[1] == 'e');
    if radio_rule(s) is Some && !said_already(s, s.radio) {
        lemma_noticed(s, radio_rule(s)->0);
    }
    if mentioned(s, words) {
        let v = lemma_words(s, words);
        lemma_noticed(s, v);
    }
}

/// Endpoints that have recovered, but for the confirmation, are reported exactly where none
/// fails any more, nothing local is at fault and no rule has found anything as severe.
pub proof fn law_unconfirmed_endpoints_are_reported(s: SignalsModel)
    ensures
        ({
            let words =
                "Web endpoints could not be reached, and their recovery is not confirmed yet"@;
            let local = s.nic_errors != Health::Good || s.wifi_signal != Health::Good
                || s.wifi_quality != Health::Good || (s.gateway is Some && s.gateway != Some(
                Health::Good,
            ));
            &&& mentioned(s, words) <==> s.reach != Health::Good && s.reach_bad == 0 && !local
                && !said_already(s, s.reach)
            &&& mentioned(s, words) ==> exists|x: Verdict| #[trigger]
                diagnosed(s).contains(x) && x.headline == words && x.severity == s.reach
                    && x.evidence == seq!["the last checks of all of them got through"@]
        }),
{
    let words = "Web endpoints could not be reached, and their recovery is not confirmed yet"@;
    reveal_strlit("Web endpoints could not be reached, and their recovery is not confirmed yet");
    reveal_strlit("Internet unreachable — your router is fine, likely an ISP/WAN outage");
    reveal_strlit("Internet path degraded beyond your gateway (ISP/WAN)");
    reveal_strlit(
        "Web (HTTP/HTTPS) unreachable though ping works — possible filtering or captive portal",
    );
    assert(words[4] == 'e' && words[2] == 'b' && words[0] == 'W');
    assert("Web (HTTP/HTTPS) unreachable though ping works — possible filtering or captive portal"@[4]
        == '(');
    assert("Internet unreachable — your router is fine, likely an ISP/WAN outage"@[0] == 'I');
    assert("Internet path degraded beyond your gateway (ISP/WAN)"@[0] == 'I');
    lemma_weak_words(s);
    let l = first_layer(ranked(s));
    if web_rule(s, l) is Some && !said_already(s, s.reach) {
        lemma_noticed(s, web_rule(s, l)->0);
    }
    if mentioned(s, words) {
        let v = lemma_words(s, words);
        lemma_noticed(s, v);
        assert(diagnosed(s).contains(v));
    }
}

// ---------------------------------------------------------------------------------------
// Whom to blame first
// ---------------------------------------------------------------------------------------

proof fn lemma_first_of_sum(before: Seq<Verdict>, d: Option<Verdict>, h: Health)
    ensures
        ({
            let all = of_severity(before + given(d), h);
            let was = of_severity(before, h);
            let hit = d is Some && d->0.severity == h;
            &&& all.len() > 0 <==> was.len() > 0 || hit
            &&& was.len() > 0 ==> all[0] == was[0]
            &&& was.len() == 0 && hit ==> all[0] == d->0
        }),
{
    lemma_severity_of_sum(before, given(d), h);
    if d is Some {
        lemma_severity_of_one(d->0);
    }
}

proof fn lemma_first_of_severity(v: Seq<Verdict>, h: Health)
    requires
        v.len() > 0,
        v[0].severity == h,
    ensures
        of_severity(v, h).len() > 0,
        of_severity(v, h)[0] == v[0],
    decreases v.len(),
{
    if v.len() == 1 {
        assert(v =~= seq![v[0]]);
        lemma_severity_of_one(v[0]);
    } else {
        assert(v.drop_last()[0] == v[0]);
        lemma_first_of_severity(v.drop_last(), h);
    }
}

/// The first critical ruling comes first in the diagnosis.
proof fn lemma_first_critical(s: SignalsModel)
    requires
        of_severity(rulings(s), Health::Crit).len() > 0,
    ensures
        diagnosed(s)[0].layer == of_severity(rulings(s), Health::Crit)[0].layer,
        diagnosed(s)[0].severity == Health::Crit,
        diagnosed(s).len() > 0,
{
    let c = of_severity(rulings(s), Health::Crit);
    let r = ranked(s);
    lemma_of_severity(rulings(s), Health::Crit);
    assert(r[0] == c[0]);
    assert(c[0].severity == Health::Crit);
    law_taking_symptoms_on(r[0], s);
    let said = with_symptoms(r, s);
    reveal(with_unsaid);
    let all = findings(s);
    assert(all[0] == said[0]);
    lemma_first_of_severity(all, Health::Crit);
    reveal(diagnosed);
}

/// A rule has found something critical.
spec fn critical(d: Option<Verdict>) -> bool {
    d is Some && d->0.severity == Health::Crit
}

/// The first critical verdict of four optional ones.
spec fn first_of(
    a: Option<Verdict>,
    b: Option<Verdict>,
    c: Option<Verdict>,
    d: Option<Verdict>,
) -> Option<Verdict> {
    if critical(a) {
        a
    } else if critical(b) {
        b
    } else if critical(c) {
        c
    } else if critical(d) {
        d
    } else {
        None
    }
}

proof fn lemma_first_of_four(
    before: Seq<Verdict>,
    a: Option<Verdict>,
    b: Option<Verdict>,
    c: Option<Verdict>,
    d: Option<Verdict>,
)
    ensures
        ({
            let was = of_severity(before, Health::Crit);
            let all = of_severity(
                before + given(a) + given(b) + given(c) + given(d),
                Health::Crit,
            );
            let first = first_of(a, b, c, d);
            &&& all.len() > 0 <==> was.len() > 0 || first is Some
            &&& was.len() > 0 ==> all[0] == was[0]
            &&& was.len() == 0 && first is Some ==> all[0] == first->0
        }),
{
    let h = Health::Crit;
    let a1 = before + given(a);
    let a2 = a1 + given(b);
    let a3 = a2 + given(c);
    lemma_first_of_sum(before, a, h);
    lemma_first_of_sum(a1, b, h);
    lemma_first_of_sum(a2, c, h);
    lemma_first_of_sum(a3, d, h);
}

/// Whom the first critical ruling blames.
proof fn lemma_first_critical_rule(s: SignalsModel)
    ensures
        ({
            let near = first_of(nic_rule(s), wifi_rule(s), gateway_rule(s), captive_rule(s));
            let far = first_of(isp_rule(s), bloat_rule(s), dns_rule(s), honesty_rule(s));
            let rest = first_of(transport_rule(s), cert_rule(s), remote_rule(s), endpoint_rule(s));
            &&& near is Some ==> blamed(diagnosed(s)) == near->0.layer
            &&& near is None && far is Some ==> blamed(diagnosed(s)) == far->0.layer
            &&& near is None && far is None && rest is Some ==> blamed(diagnosed(s))
                == rest->0.layer
        }),
{
    let a0 = Seq::<Verdict>::empty();
    let near = a0 + given(nic_rule(s)) + given(wifi_rule(s)) + given(gateway_rule(s)) + given(
        captive_rule(s),
    );
    let far = near + given(isp_rule(s)) + given(bloat_rule(s)) + given(dns_rule(s)) + given(
        honesty_rule(s),
    );
    let all = far + given(transport_rule(s)) + given(cert_rule(s)) + given(remote_rule(s)) + given(
        endpoint_rule(s),
    );
    assert(a0 + given(nic_rule(s)) =~= given(nic_rule(s)));
    assert(rulings(s) == all) by {
        reveal(rulings);
    }
    lemma_first_of_four(a0, nic_rule(s), wifi_rule(s), gateway_rule(s), captive_rule(s));
    lemma_first_of_four(near, isp_rule(s), bloat_rule(s), dns_rule(s), honesty_rule(s));
    lemma_first_of_four(far, transport_rule(s), cert_rule(s), remote_rule(s), endpoint_rule(s));
    if of_severity(rulings(s), Health::Crit).len() > 0 {
        lemma_first_critical(s);
    }
}

/// Of what is critical, the first in this order is to blame: the card, the radio, the
/// gateway, the provider (for a portal, an outage, a critical path or critical bufferbloat),
/// the lookups and their honesty, the provider again (for handshakes), nobody (for a
/// certificate), and then single hosts and endpoints.
pub proof fn law_the_nearest_critical_fault_is_blamed(s: SignalsModel)
    ensures
        ({
            let crit = Health::Crit;
            let good = Health::Good;
            let gateway_bad = s.gateway is Some && s.gateway != Some(good);
            let radio = s.wifi_signal == crit || s.wifi_quality == crit || (s.wifi_signal != good
                && s.gateway == Some(crit));
            let lan = s.gateway == Some(crit) && s.wifi_signal == good && s.wifi_quality == good;
            let hosts = s.internet_total > 0 && s.internet_bad == s.internet_total;
            let route = s.routing_seen && !s.routing_reachable;
            let path = !gateway_bad && ((s.reach_all_fail && (hosts || route)) || (hosts
                && s.internet == crit));
            let connected = s.reach_any_ok || s.internet == good || (s.routing_seen
                && s.routing_reachable);
            let lookups = connected && (s.dns_system == Some(crit) || s.dns_public == crit);
            let single_host = !gateway_bad && 0 < s.internet_bad < s.internet_total && s.internet
                == crit;
            let single_endpoint = !s.reach_all_fail && 0 < s.reach_bad < s.reach_total;
            let to_blame = blamed(diagnosed(s));
            if s.nic_errors == crit {
                to_blame == Some(Layer::Nic)
            } else if radio {
                to_blame == Some(Layer::Wifi)
            } else if lan {
                to_blame == Some(Layer::Gateway)
            } else if s.captive || path || s.bufferbloat == crit {
                to_blame == Some(Layer::Isp)
            } else if lookups || s.dns_integrity == crit {
                to_blame == Some(Layer::Dns)
            } else if s.transport == crit {
                to_blame == Some(Layer::Isp)
            } else if s.cert == crit {
                to_blame is None
            } else {
                single_host || single_endpoint ==> to_blame == Some(Layer::Remote)
            }
        }),
{
    lemma_first_critical_rule(s);
}

/// Verdicts of one severity keep their order.
pub proof fn law_ranking_keeps_the_order_of_equals(
    before: Seq<Verdict>,
    a: Verdict,
    between: Seq<Verdict>,
    b: Verdict,
    after: Seq<Verdict>,
)
    requires
        a.severity == b.severity,
    ensures
        exists|i: int, j: int|
            0 <= i < j < worst_first(before + seq![a] + between + seq![b] + after).len()
                && #[trigger] worst_first(before + seq![a] + between + seq![b] + after)[i] == a
                && #[trigger] worst_first(before + seq![a] + between + seq![b] + after)[j] == b,
{
    let h = a.severity;
    let v = before + seq![a] + between + seq![b] + after;
    lemma_severity_of_one(a);
    lemma_severity_of_one(b);
    lemma_severity_of_sum(before + seq![a] + between + seq![b], after, h);
    lemma_severity_of_sum(before + seq![a] + between, seq![b], h);
    lemma_severity_of_sum(before + seq![a], between, h);
    lemma_severity_of_sum(before, seq![a], h);
    let f = of_severity(v, h);
    let i = of_severity(before, h).len() as int;
    let j = i + 1 + of_severity(between, h).len();
    assert(f[i] == a && f[j] == b && 0 <= i < j < f.len());
    let o: int = match h {
        Health::Crit => 0,
        Health::Warn => of_severity(v, Health::Crit).len() as int,
        Health::Good => of_severity(v, Health::Crit).len() as int + of_severity(
            v,
            Health::Warn,
        ).len() as int,
    };
    assert(worst_first(v)[o + i] == a);
    assert(worst_first(v)[o + j] == b);
}

// ---------------------------------------------------------------------------------------
// Symptoms, and nothing at all
// ---------------------------------------------------------------------------------------

/// A word on something, where it is so.
pub open spec fn word_if(so: bool, text: Seq<char>) -> Seq<Seq<char>> {
    if so {
        seq![text]
    } else {
        Seq::empty()
    }
}

proof fn lemma_taking_on(
    v: Verdict,
    symptom: Option<(Health, Seq<char>)>,
    w: Health,
    so: bool,
    text: Seq<char>,
)
    requires
        so <==> symptom is Some && severity((symptom->0).0) > severity(w),
        so ==> (symptom->0).1 == text,
    ensures
        taking_on(v, symptom, w).evidence == v.evidence + word_if(so, text),
{
    if so {
        assert(v.evidence.push(text) =~= v.evidence + seq![text]);
    } else {
        assert(v.evidence + Seq::<Seq<char>>::empty() =~= v.evidence);
    }
}

/// A verdict takes on every symptom that is worse than it is, with a word on each, in this
/// order, and nothing else: the gateway, the hosts, the lookups; endpoints while some fail, or
/// behind a local fault until their recovery is confirmed; the radio behind a fault of its own
/// or of the gateway, and so the gateway's jitter where the internet's is no worse.
#[verifier::spinoff_prover]
#[verifier::rlimit(40)]
pub proof fn law_a_verdict_takes_on_worse_symptoms(v: Verdict, s: SignalsModel)
    ensures
        ({
            let good = Health::Good;
            let w = severity(v.severity);
            let near = s.wifi_signal != good || s.wifi_quality != good || (s.gateway is Some
                && s.gateway != Some(good));
            let gateway = s.gateway is Some && severity(s.gateway->0) > w;
            let hosts = severity(s.internet) > w;
            let lookups = severity(s.dns_public) > w || (s.dns_system is Some && severity(
                s.dns_system->0,
            ) > w);
            let failing = severity(s.reach) > w && s.reach_bad > 0;
            let recovering = severity(s.reach) > w && s.reach_bad == 0 && (near || s.nic_errors
                != good);
            let radio = severity(s.radio) > w && near;
            let jitter = severity(s.jitter_gateway) > w && severity(s.jitter_gateway) >= severity(
                s.jitter_internet,
            ) && near;
            raised(v, s).evidence == v.evidence + word_if(gateway, "gateway shows latency/loss"@)
                + word_if(hosts, "internet hosts show latency/loss"@) + word_if(
                lookups,
                "resolvers slow or not answering"@,
            ) + word_if(
                failing || recovering,
                if failing {
                    decimal(s.reach_bad) + " of "@ + decimal(s.reach_total)
                        + " web endpoints failing"@
                } else {
                    "recovery of the web endpoints is not confirmed yet"@
                },
            ) + word_if(radio, "recovery of the Wi-Fi signal is not confirmed yet"@) + word_if(
                jitter,
                "gateway replies vary"@,
            )
        }),
{
    let good = Health::Good;
    let w = v.severity;
    let near = s.wifi_signal != good || s.wifi_quality != good || (s.gateway is Some && s.gateway
        != Some(good));
    let gateway = s.gateway is Some && severity(s.gateway->0) > severity(w);
    let hosts = severity(s.internet) > severity(w);
    let lookups = severity(s.dns_public) > severity(w) || (s.dns_system is Some && severity(
        s.dns_system->0,
    ) > severity(w));
    let failing = severity(s.reach) > severity(w) && s.reach_bad > 0;
    let recovering = severity(s.reach) > severity(w) && s.reach_bad == 0 && (near || s.nic_errors
        != good);
    let web = if failing {
        decimal(s.reach_bad) + " of "@ + decimal(s.reach_total) + " web endpoints failing"@
    } else {
        "recovery of the web endpoints is not confirmed yet"@
    };
    let radio = severity(s.radio) > severity(w) && near;
    let jitter = severity(s.jitter_gateway) > severity(w) && severity(s.jitter_gateway)
        >= severity(s.jitter_internet) && near;
    reveal(raised);
    let v1 = taking_on(v, lan_symptom(s), w);
    let v2 = taking_on(v1, hosts_symptom(s), w);
    let v3 = taking_on(v2, lookup_symptom(s), w);
    let v4 = taking_on(v3, web_symptom(s), w);
    let v5 = taking_on(v4, radio_symptom(s), w);
    lemma_taking_on(v, lan_symptom(s), w, gateway, "gateway shows latency/loss"@);
    lemma_taking_on(v1, hosts_symptom(s), w, hosts, "internet hosts show latency/loss"@);
    lemma_taking_on(v2, lookup_symptom(s), w, lookups, "resolvers slow or not answering"@);
    lemma_taking_on(v3, web_symptom(s), w, failing || recovering, web);
    lemma_taking_on(
        v4,
        radio_symptom(s),
        w,
        radio,
        "recovery of the Wi-Fi signal is not confirmed yet"@,
    );
    lemma_taking_on(v5, jitter_symptom(s), w, jitter, "gateway replies vary"@);
}

/// The verdict that comes first of those that the rules give takes on its symptoms, and the
/// others stay as they are.
pub proof fn law_only_the_first_verdict_takes_symptoms_on(s: SignalsModel, i: int)
    requires
        0 <= i < ranked(s).len(),
    ensures
        i == 0 ==> diagnosed(s).contains(raised(ranked(s)[0], s)),
        i > 0 ==> diagnosed(s).contains(ranked(s)[i]),
{
    let x = with_symptoms(ranked(s), s)[i];
    assert(with_symptoms(ranked(s), s).contains(x));
    lemma_findings(s, x);
    law_diagnosis_lists_the_findings(s, x);
}

/// Nothing that the diagnosis looks at is wrong.
pub open spec fn nothing_wrong(s: SignalsModel) -> bool {
    let good = Health::Good;
    &&& s.nic_errors == good && s.wifi_signal == good && s.wifi_quality == good
    &&& s.gateway is None || s.gateway == Some(good)
    &&& !s.captive && !s.reach_all_fail && s.reach_bad == 0 && s.internet_bad == 0
    &&& s.bufferbloat == good && s.dns_public == good && s.dns_integrity == good
    &&& s.dns_system is None || s.dns_system == Some(good)
    &&& s.transport == good && s.cert == good && s.route == good && s.capacity == good
    &&& s.jitter_gateway == good && s.jitter_internet == good && s.radio == good && s.reach == good
}

/// Where nothing is wrong that is said, and nothing else; and it is said nowhere else.
pub proof fn law_nothing_wrong_is_said_alone(s: SignalsModel)
    ensures
        nothing_wrong(s) ==> diagnosed(s) == seq![
            Verdict {
                layer: None,
                severity: Health::Good,
                headline: "No problems detected"@,
                evidence: Seq::empty(),
            },
        ],
        mentioned(s, "No problems detected"@) ==> diagnosed(s).len() == 1 && diagnosed(
            s,
        )[0].severity == Health::Good,
{
    let words = "No problems detected"@;
    reveal_strlit("No problems detected");
    if nothing_wrong(s) {
        assert forall|v: Verdict| !findings(s).contains(v) by {
            lemma_findings(s, v);
            lemma_rulings_hold(s, v);
            if ranked(s).len() > 0 {
                let first = ranked(s)[0];
                assert(ranked(s).contains(first));
                law_worst_first_sorts(rulings(s), first);
                lemma_rulings_hold(s, first);
            }
        }
        if findings(s).len() > 0 {
            assert(findings(s).contains(findings(s)[0]));
        }
        law_no_problem_comes_alone(s);
    }
    if mentioned(s, words) {
        let v = lemma_words(s, words);
        let x = choose|x: Verdict| #[trigger] diagnosed(s).contains(x) && x.headline == words;
        law_diagnosis_lists_the_findings(s, x);
        if findings(s).len() > 0 {
            lemma_findings(s, x);
            lemma_rulings_hold(s, x);
            lemma_local_words(s);
            lemma_provider_words(s);
            lemma_name_words(s);
            lemma_remote_words(s);
            lemma_unsaid_words(s, first_layer(ranked(s)));
            if ranked(s).len() > 0 {
                let first = ranked(s)[0];
                assert(ranked(s).contains(first));
                law_worst_first_sorts(rulings(s), first);
                lemma_rulings_hold(s, first);
                law_taking_symptoms_on(first, s);
            }
        } else {
            law_no_problem_comes_alone(s);
        }
    }
}

} // verus!
