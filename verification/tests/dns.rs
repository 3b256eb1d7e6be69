//! What a resolver answered, and whether it was the one answering.

use network_dash::metrics::Sample;
use network_dash::metrics::dns::{
    absolute, answers_look_intercepted, combine_controls, control_names,
    integrity_sample, lookup_outcome,
    next_seed, nonexistent_name, nxdomain_is_hijacked, verdict, Answer, Integrity, IpAddr, Reply,
};

/// A reading.
fn r(v: f64) -> i64 {
    (v * 1e9).round() as i64
}

/// An address, written as std writes it.
fn ip(text: &str) -> IpAddr {
    if text.contains(':') {
        let (head, tail) = match text.split_once("::") {
            Some((h, t)) => (h, Some(t)),
            None => (text, None),
        };
        let words = |s: &str| -> Vec<u16> {
            s.split(':')
                .filter(|w| !w.is_empty())
                .map(|w| u16::from_str_radix(w, 16).unwrap())
                .collect()
        };
        let mut all = words(head);
        if let Some(t) = tail {
            let rest = words(t);
            while all.len() + rest.len() < 8 {
                all.push(0);
            }
            all.extend(rest);
        }
        IpAddr::V6(all.try_into().unwrap())
    } else {
        let octets: Vec<u8> = text.split('.').map(|o| o.parse().unwrap()).collect();
        IpAddr::V4(octets.try_into().unwrap())
    }
}

fn ips(addrs: &[&str]) -> Vec<IpAddr> {
    addrs.iter().map(|a| ip(a)).collect()
}

#[test]
fn any_real_answer_for_a_name_that_cannot_exist_is_a_hijack() {
    assert!(nxdomain_is_hijacked(&ips(&["92.242.140.21"])));
    assert!(nxdomain_is_hijacked(&ips(&["2001:db8::1"])));
}

#[test]
fn no_answer_at_all_is_the_correct_answer() {
    assert!(!nxdomain_is_hijacked(&[]));
}

#[test]
fn an_unspecified_address_is_a_refusal_rather_than_a_redirect() {
    // 0.0.0.0 / :: is how a filtering resolver says "no". It sends the client nowhere,
    // so it is a policy answer, not an interception.
    assert!(!nxdomain_is_hijacked(&ips(&["0.0.0.0", "::"])));
}

#[test]
fn a_public_name_answered_with_a_local_address_is_intercepted() {
    for addr in ["10.0.0.1", "192.168.1.1", "172.16.0.1", "127.0.0.1"] {
        assert!(
            answers_look_intercepted(&ips(&[addr])),
            "{addr} cannot host a public name"
        );
    }
    assert!(answers_look_intercepted(&ips(&["fd00::1"])), "unique-local");
    assert!(answers_look_intercepted(&ips(&["169.254.1.1"])), "APIPA");
}

#[test]
fn ordinary_public_answers_are_left_alone() {
    assert!(!answers_look_intercepted(&ips(&[
        "93.184.215.14",
        "2606:2800:21f:cb07:6820:80da:af6b:8b2c"
    ])));
}

// --- asking the question we meant to ask ---

#[test]
fn names_are_asked_as_absolute_so_the_search_list_cannot_rewrite_them() {
    // `np…nx.com` has one dot and the default ndots is 1, so the OS search list gets
    // appended and the query that leaves the machine is `np…nx.com.corp.example.` —
    // a different name, owned by somebody else, whose answer we then judge.
    assert_eq!(absolute("example.com"), "example.com.");
    assert_eq!(
        absolute(&nonexistent_name(7)),
        format!("{}.", nonexistent_name(7))
    );
}

#[test]
fn an_already_absolute_name_is_left_alone() {
    assert_eq!(absolute("example.com."), "example.com.");
}

#[test]
fn every_control_name_is_absolute() {
    for n in control_names() {
        assert!(n.ends_with('.'), "control name must be absolute: {n}");
    }
}

// --- what a lookup actually did ---

#[test]
fn silence_has_no_latency_but_an_empty_answer_does() {
    assert_eq!(Answer::Addresses(r(12.0)).latency_ms(), Some(r(12.0)));
    assert_eq!(Answer::Empty(r(4.0)).latency_ms(), Some(r(4.0)));
    assert_eq!(
        Answer::Silence.latency_ms(),
        None,
        "the deadline is ours, not a measurement of the resolver"
    );
}

#[test]
fn a_resolver_that_said_anything_at_all_was_reached() {
    assert!(Answer::Addresses(r(1.0)).reached());
    assert!(
        Answer::Empty(r(1.0)).reached(),
        "an empty answer is still an answer"
    );
    assert!(!Answer::Silence.reached());
}

// --- the integrity ruleset ---

#[test]
fn a_resolver_that_answers_normally_is_honest() {
    assert_eq!(
        verdict(Answer::Addresses(r(10.0)), &ips(&["93.184.215.14"]), &[]),
        Integrity::Honest
    );
}

#[test]
fn an_address_for_a_name_that_cannot_exist_is_still_a_hijack() {
    assert_eq!(
        verdict(
            Answer::Addresses(r(10.0)),
            &ips(&["93.184.215.14"]),
            &ips(&["92.242.140.21"])
        ),
        Integrity::Hijacked
    );
}

#[test]
fn a_public_name_pointed_at_this_network_is_still_a_hijack() {
    assert_eq!(
        verdict(Answer::Addresses(r(10.0)), &ips(&["192.168.1.1"]), &[]),
        Integrity::Hijacked
    );
}

// The bug this whole change exists for: a middlebox intercepting UDP/53 to a public
// resolver and replying with a well-formed empty answer in 4ms. The resolver is up and
// reachable, and every name it is asked about comes back with nothing.
#[test]
fn a_name_that_must_resolve_coming_back_empty_is_forged() {
    assert_eq!(
        verdict(Answer::Empty(r(4.0)), &[], &[]),
        Integrity::Forged,
        "a reachable resolver with nothing to say about a name that resolves for \
         everyone is not the one answering"
    );
}

// --- combining the controls ---

#[test]
fn one_real_answer_clears_the_resolver() {
    assert_eq!(
        combine_controls(&[Answer::Empty(r(3.0)), Answer::Addresses(r(20.0))]),
        Answer::Addresses(r(20.0)),
        "a resolver that answered one control properly is answering"
    );
}

#[test]
fn every_control_empty_is_a_forgery() {
    assert_eq!(
        combine_controls(&[Answer::Empty(r(3.0)), Answer::Empty(r(4.0))]),
        Answer::Empty(r(4.0))
    );
}

#[test]
fn one_blocked_name_is_policy_rather_than_forgery() {
    // A filtering resolver refusing a single name must not be accused of forgery; the
    // other control answering proves it is the one replying.
    assert_eq!(
        combine_controls(&[Answer::Empty(r(3.0)), Answer::Addresses(r(15.0))]),
        Answer::Addresses(r(15.0))
    );
}

#[test]
fn any_silence_withholds_the_claim() {
    assert_eq!(
        combine_controls(&[Answer::Empty(r(3.0)), Answer::Silence]),
        Answer::Silence,
        "a lookup that never came back is not evidence of an empty answer"
    );
    assert_eq!(combine_controls(&[]), Answer::Silence);
}

// The guard that keeps this from firing during an ordinary outage, when every lookup
// fails and nothing is being tampered with.
#[test]
fn silence_is_never_evidence_of_dishonesty() {
    assert_eq!(
        verdict(Answer::Silence, &[], &[]),
        Integrity::Honest,
        "an outage makes every lookup fail; that is not forgery"
    );
}

// The correct reply for the nonexistent name is nothing at all, and that must not be
// read as the control name having come back empty.
#[test]
fn an_empty_answer_for_the_name_that_cannot_exist_is_the_right_answer() {
    assert_eq!(
        verdict(Answer::Addresses(r(10.0)), &ips(&["93.184.215.14"]), &[]),
        Integrity::Honest
    );
}

// A hijack and a forgery at once: naming somebody for the redirect is more use than
// reporting that their reply was empty.
#[test]
fn a_hijack_outranks_a_forgery() {
    assert_eq!(
        verdict(Answer::Empty(r(4.0)), &[], &ips(&["92.242.140.21"])),
        Integrity::Hijacked
    );
}

#[test]
fn the_probe_name_is_unguessable_and_stable_for_a_given_seed() {
    let a = nonexistent_name(0x0123_4567_89ab_cdef);
    assert_eq!(a, nonexistent_name(0x0123_4567_89ab_cdef), "deterministic");
    assert_ne!(
        a,
        nonexistent_name(1),
        "a different seed is a different name"
    );
    assert!(
        a.ends_with(".com"),
        "a real TLD, so the NXDOMAIN is real: {a}"
    );
    assert!(
        a.len() > 16,
        "long enough that nobody has registered it: {a}"
    );
}


#[test]
fn a_lookup_is_an_answer_unless_nothing_came() {
    assert_eq!(
        lookup_outcome(Some((r(9.0), Reply::Records(ips(&["1.1.1.1"]))))),
        (Answer::Addresses(r(9.0)), ips(&["1.1.1.1"]))
    );
    assert_eq!(
        lookup_outcome(Some((r(9.0), Reply::Records(vec![])))),
        (Answer::Empty(r(9.0)), vec![])
    );
    assert_eq!(
        lookup_outcome(Some((r(4.0), Reply::NoRecords))),
        (Answer::Empty(r(4.0)), vec![])
    );
    assert_eq!(
        lookup_outcome(Some((r(4.0), Reply::Failed))),
        (Answer::Silence, vec![])
    );
    assert_eq!(lookup_outcome(None), (Answer::Silence, vec![]));
}

#[test]
fn making_a_name_absolute_twice_is_making_it_absolute() {
    for n in ["", "example.com", "example.com."] {
        assert_eq!(absolute(&absolute(n)), absolute(n));
    }
    assert_eq!(absolute(""), ".");
}

#[test]
fn the_probe_name_spells_its_seed() {
    assert_eq!(nonexistent_name(0xfeed), "np000000000000feednx.com");
    assert_eq!(next_seed(1), 6_364_136_223_846_793_006);
}

#[test]
fn a_round_of_integrity_lookups_becomes_one_verdict() {
    let sample = |controls: Vec<(Answer, Vec<IpAddr>)>, missing: Vec<IpAddr>| {
        match integrity_sample("system".into(), &controls, &missing) {
            Sample::DnsIntegrity { resolver, verdict } => {
                assert_eq!(resolver, "system");
                verdict
            }
            other => panic!("expected an integrity sample, got {other:?}"),
        }
    };
    let good = || (Answer::Addresses(r(8.0)), vec![ip("93.184.216.34")]);
    let lost = || (Answer::Silence, Vec::new());
    let empty = || (Answer::Empty(r(8.0)), Vec::new());
    assert_eq!(sample(vec![good(), lost()], vec![]), Integrity::Honest);
    assert_eq!(
        sample(vec![good(), lost()], vec![ip("203.0.113.7")]),
        Integrity::Hijacked
    );
    // One private answer among good ones is enough to say who is answering.
    assert_eq!(
        sample(
            vec![good(), (Answer::Addresses(r(8.0)), vec![ip("192.168.1.1")])],
            vec![]
        ),
        Integrity::Hijacked
    );
    assert_eq!(sample(vec![empty(), empty()], vec![]), Integrity::Forged);
    // Silence accuses nobody.
    assert_eq!(sample(vec![empty(), lost()], vec![]), Integrity::Honest);
    assert_eq!(sample(vec![lost(), lost()], vec![]), Integrity::Honest);
}
