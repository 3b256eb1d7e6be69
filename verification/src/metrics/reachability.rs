//! Reachability: HTTP(S) checks against well-known endpoints, one of them a captive-portal
//! detector.

use vstd::prelude::*;

use crate::metrics::tcp::endpoint_texts;
use crate::metrics::Sample;
use crate::scan::{begins_with, has_prefix, part};
use crate::text::{chars_of, same_text};

verus! {

/// Whether the captive-portal probe reached the genuine internet or was intercepted.
#[derive(Debug, Clone, Copy, PartialEq, Eq, Structural)]
pub enum CaptiveOutcome {
    /// The genuine origin answered: no portal.
    Online,
    /// The request was intercepted (a redirect, or a 2xx serving a login page).
    Portal,
}

/// `needle` occurs in `hay`.
pub open spec fn occurs_in(hay: Seq<char>, needle: Seq<char>) -> bool {
    exists|i: int| 0 <= i <= hay.len() && has_prefix(#[trigger] hay.skip(i), needle)
}

/// Whether `needle` occurs in `hay`.
pub fn contains_text(hay: &str, needle: &str) -> (r: bool)
    ensures
        r == occurs_in(hay@, needle@),
{
    let h = chars_of(hay);
    let mut i: usize = 0;
    loop
        invariant
            h@ == hay@,
            i <= h@.len(),
            forall|j: int| 0 <= j < i ==> !has_prefix(#[trigger] hay@.skip(j), needle@),
        decreases h@.len() - i,
    {
        let rest = part(&h, i, h.len());
        assert(rest@ =~= hay@.skip(i as int));
        if begins_with(&rest, needle) {
            return true;
        }
        if i == h.len() {
            return false;
        }
        i = i + 1;
    }
}

/// The genuine origin answers with a 2xx whose body holds `Success`.
pub open spec fn captive_outcome(status: u16, body: Seq<char>) -> CaptiveOutcome {
    if 200 <= status < 300 && occurs_in(body, "Success"@) {
        CaptiveOutcome::Online
    } else {
        CaptiveOutcome::Portal
    }
}

/// Classify the captive-portal detector's response. Apple's `hotspot-detect.html` returns a
/// 2xx whose body contains `Success` on a genuine connection; a captive portal instead
/// intercepts the request (a redirect, or a 2xx serving a login page), so anything that
/// isn't a 2xx-with-`Success` is treated as a portal.
pub fn detect_captive(status: u16, body: &str) -> (r: CaptiveOutcome)
    ensures
        r == captive_outcome(status, body@),
{
    if 200 <= status && status < 300 && contains_text(body, "Success") {
        CaptiveOutcome::Online
    } else {
        CaptiveOutcome::Portal
    }
}

/// What a request came back with.
pub enum HttpOutcome {
    /// A response, with its status and its body.
    Answered { status: u16, body: String },
    /// No response at all.
    Failed,
}

/// The captive-portal detector's verdict on a request: reachable or not, and whether a
/// portal was seen. No response means offline; that says nothing of a portal.
pub open spec fn captive_reading(outcome: HttpOutcome) -> (bool, bool) {
    match outcome {
        HttpOutcome::Answered { status, body } => (
            captive_outcome(status, body@) == CaptiveOutcome::Online,
            captive_outcome(status, body@) == CaptiveOutcome::Portal,
        ),
        HttpOutcome::Failed => (false, false),
    }
}

/// An ordinary endpoint is reachable where it answers with a success or a redirection.
pub open spec fn endpoint_ok(outcome: HttpOutcome) -> bool {
    match outcome {
        HttpOutcome::Answered { status, .. } => 200 <= status < 400,
        HttpOutcome::Failed => false,
    }
}

/// The readings that one endpoint's request yields. The `captive` endpoint is inspected by
/// its body, since a portal serves a login page or redirects and a plain 2xx is not enough:
/// it yields the reachability status *and* a distinct captive-portal signal.
pub fn endpoint_samples(label: String, outcome: HttpOutcome) -> (v: Vec<Sample>)
    ensures
        label@ == "captive"@ ==> v@ == seq![
            Sample::Reachability { endpoint: label, ok: captive_reading(outcome).0 },
            Sample::CaptivePortal { detected: captive_reading(outcome).1 },
        ],
        label@ != "captive"@ ==> v@ == seq![
            Sample::Reachability { endpoint: label, ok: endpoint_ok(outcome) },
        ],
{
    let mut v: Vec<Sample> = Vec::new();
    if same_text(label.as_str(), "captive") {
        let (ok, portal) = match &outcome {
            HttpOutcome::Answered { status, body } => match detect_captive(*status, body.as_str()) {
                CaptiveOutcome::Online => (true, false),
                CaptiveOutcome::Portal => (false, true),
            },
            HttpOutcome::Failed => (false, false),
        };
        v.push(Sample::Reachability { endpoint: label, ok });
        v.push(Sample::CaptivePortal { detected: portal });
        assert(v@ =~= seq![
            Sample::Reachability { endpoint: label, ok: captive_reading(outcome).0 },
            Sample::CaptivePortal { detected: captive_reading(outcome).1 },
        ]);
    } else {
        let ok = match &outcome {
            HttpOutcome::Answered { status, .. } => 200 <= *status && *status < 400,
            HttpOutcome::Failed => false,
        };
        v.push(Sample::Reachability { endpoint: label, ok });
        assert(v@ =~= seq![Sample::Reachability { endpoint: label, ok: endpoint_ok(outcome) }]);
    }
    v
}

/// The default endpoints, by label and URL.
pub open spec fn stock_endpoints() -> Seq<(Seq<char>, Seq<char>)> {
    seq![
        ("captive"@, "http://captive.apple.com/hotspot-detect.html"@),
        ("https"@, "https://www.cloudflare.com/cdn-cgi/trace"@),
        ("ipv6"@, "https://ipv6.google.com/"@),
    ]
}

/// Default endpoints: a captive-portal detector, an HTTPS trace endpoint, and an IPv6-only
/// host (its success indicates working IPv6).
pub fn default_endpoints() -> (v: Vec<(String, String)>)
    ensures
        endpoint_texts(v@) == stock_endpoints(),
{
    let mut v: Vec<(String, String)> = Vec::new();
    v.push(("captive".to_owned(), "http://captive.apple.com/hotspot-detect.html".to_owned()));
    v.push(("https".to_owned(), "https://www.cloudflare.com/cdn-cgi/trace".to_owned()));
    v.push(("ipv6".to_owned(), "https://ipv6.google.com/".to_owned()));
    assert(endpoint_texts(v@) =~= stock_endpoints());
    v
}

/// The endpoints worth checking: on a host without IPv6 the IPv6-only one is left out, since
/// a network that does not do IPv6 is not a fault.
pub open spec fn checkable(
    endpoints: Seq<(Seq<char>, Seq<char>)>,
    ipv6: bool,
) -> Seq<(Seq<char>, Seq<char>)>
    decreases endpoints.len(),
{
    if endpoints.len() == 0 {
        Seq::empty()
    } else {
        let init = checkable(endpoints.drop_last(), ipv6);
        if !ipv6 && endpoints.last().0 == "ipv6"@ {
            init
        } else {
            init.push(endpoints.last())
        }
    }
}

/// The endpoints worth checking, given whether this host has IPv6 at all.
pub fn checkable_endpoints(endpoints: Vec<(String, String)>, ipv6: bool) -> (v: Vec<
    (String, String),
>)
    ensures
        endpoint_texts(v@) == checkable(endpoint_texts(endpoints@), ipv6),
{
    let ghost all = endpoint_texts(endpoints@);
    let mut v: Vec<(String, String)> = Vec::new();
    assert(endpoint_texts(v@) =~= checkable(all.take(0), ipv6));
    for i in 0..endpoints.len()
        invariant
            all == endpoint_texts(endpoints@),
            endpoint_texts(v@) == checkable(all.take(i as int), ipv6),
    {
        assert(all.take(i + 1).drop_last() =~= all.take(i as int));
        let ghost before = v@;
        if ipv6 || !same_text(endpoints[i].0.as_str(), "ipv6") {
            v.push((endpoints[i].0.clone(), endpoints[i].1.clone()));
            assert(endpoint_texts(v@) =~= endpoint_texts(before).push(all[i as int]));
        }
    }
    assert(all.take(all.len() as int) =~= all);
    v
}

// ---------------------------------------------------------------------------------------
// Laws
// ---------------------------------------------------------------------------------------

/// What an endpoint other than the captive one is called: reachable on every success and on
/// every redirection, and on nothing else. An answer of `200 OK` is one, `404 Not Found` and
/// `500 Internal Server Error` are none, and neither is a request without an answer. What the
/// body holds does not matter.
pub proof fn law_an_endpoint_is_reachable_on_success_and_redirection(
    status: u16,
    body: String,
    other: String,
)
    ensures
        200 <= status <= 299 ==> endpoint_ok(HttpOutcome::Answered { status, body }),
        300 <= status <= 399 ==> endpoint_ok(HttpOutcome::Answered { status, body }),
        status <= 199 ==> !endpoint_ok(HttpOutcome::Answered { status, body }),
        status >= 400 ==> !endpoint_ok(HttpOutcome::Answered { status, body }),
        !endpoint_ok(HttpOutcome::Failed),
        endpoint_ok(HttpOutcome::Answered { status, body }) == endpoint_ok(
            HttpOutcome::Answered { status, body: other },
        ),
{
}

/// The captive-portal detector trusts the genuine page alone: a success whose body holds the
/// word `Success` somewhere is online and no portal; any other answer, a redirection or a
/// login page among them, is a portal and not online; and no answer is neither.
pub proof fn law_only_the_genuine_page_clears_a_portal(
    status: u16,
    body: String,
    before: Seq<char>,
    after: Seq<char>,
)
    ensures
        ({
            let read = captive_reading(HttpOutcome::Answered { status, body });
            &&& 200 <= status <= 299 && body@ == before + "Success"@ + after ==> read == (
                true,
                false,
            )
            &&& status <= 199 || 300 <= status ==> read == (false, true)
            &&& (forall|i: int|
                0 <= i && i + 7 <= body@.len() ==> #[trigger] body@.subrange(i, i + 7)
                    != "Success"@) ==> read == (false, true)
            &&& read.0 != read.1
        }),
        captive_reading(HttpOutcome::Failed) == (false, false),
{
    reveal_strlit("Success");
    let word = "Success"@;
    assert(word.len() == 7);
    if body@ == before + word + after {
        assert(body@.skip(before.len() as int) =~= word + after);
        assert((word + after).take(7) =~= word);
        assert(has_prefix(body@.skip(before.len() as int), word));
        assert(occurs_in(body@, word));
    }
    if occurs_in(body@, word) {
        let i = choose|i: int| 0 <= i <= body@.len() && has_prefix(#[trigger] body@.skip(i), word);
        assert(body@.subrange(i, i + 7) =~= body@.skip(i).take(7));
        assert(body@.skip(i).take(7) =~= word);
    }
}

/// Which endpoints are checked: with IPv6 all of them, without it all but those labelled
/// `ipv6`, and none that was not asked for.
pub proof fn law_only_ipv6_endpoints_are_left_out(
    endpoints: Seq<(Seq<char>, Seq<char>)>,
    ipv6: bool,
    e: (Seq<char>, Seq<char>),
)
    ensures
        checkable(endpoints, true) == endpoints,
        checkable(endpoints, ipv6).contains(e) <==> endpoints.contains(e) && (ipv6 || e.0
            != "ipv6"@),
        checkable(endpoints, ipv6).len() <= endpoints.len(),
    decreases endpoints.len(),
{
    if endpoints.len() > 0 {
        let init = endpoints.drop_last();
        law_only_ipv6_endpoints_are_left_out(init, ipv6, e);
        assert(init.push(endpoints.last()) =~= endpoints);
        lemma_push_holds(init, endpoints.last(), e);
        lemma_push_holds(checkable(init, ipv6), endpoints.last(), e);
    } else {
        assert(checkable(endpoints, true) =~= endpoints);
    }
}

proof fn lemma_push_holds<A>(s: Seq<A>, x: A, e: A)
    ensures
        s.push(x).contains(e) <==> s.contains(e) || x == e,
{
    let t = s.push(x);
    if s.contains(e) {
        let k = choose|k: int| 0 <= k < s.len() && s[k] == e;
        assert(t[k] == e);
    }
    assert(t[s.len() as int] == x);
    if t.contains(e) {
        let k = choose|k: int| 0 <= k < t.len() && t[k] == e;
        if k < s.len() {
            assert(s[k] == e);
        }
    }
}

} // verus!
