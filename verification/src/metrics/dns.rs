//! DNS: what a lookup did, and the rules that judge whether a resolver answers honestly.
//!
//! The integrity rules ask a different question from the timing ones: not "how fast did the
//! resolver answer" but "was the answer its own". Each withholds its verdict on silence,
//! since during an outage nothing answers and nobody is to blame. Raw answer *divergence*
//! between resolvers is deliberately not one of them: CDNs steer by resolver location, so
//! two resolvers returning different addresses for a name is the normal case.

use vstd::prelude::*;

use crate::metrics::Sample;
use crate::format::{last_digits, push_digits};
use crate::text::{chars_of, strings};
use crate::units::Reading;

verus! {

/// What one lookup actually did.
///
/// The distinction between the last two is the whole point: a resolver that answered
/// promptly, and whose answer had simply been replaced with an empty one somewhere in the
/// path, is not a resolver that is down.
#[derive(Debug, Clone, Copy, PartialEq, Eq, Structural)]
pub enum Answer {
    /// Addresses came back, in so many ms.
    Addresses(Reading),
    /// A well-formed, prompt "I have nothing" (NODATA or NXDOMAIN). The resolver is *up*.
    /// For a name that must resolve globally this is evidence of forgery, but it is never
    /// evidence that the resolver is unreachable.
    Empty(Reading),
    /// Nothing arrived before the deadline, or the transport failed outright.
    Silence,
}

/// Elapsed time, for the answers that had one.
pub open spec fn answer_latency(a: Answer) -> Option<Reading> {
    match a {
        Answer::Addresses(ms) => Some(ms),
        Answer::Empty(ms) => Some(ms),
        Answer::Silence => None,
    }
}

impl Answer {
    /// Elapsed time, for the answers that had one. `Silence` never has a latency: the
    /// deadline is ours, not a measurement of the resolver.
    pub fn latency_ms(&self) -> (r: Option<Reading>)
        ensures
            r == answer_latency(*self),
    {
        match *self {
            Answer::Addresses(ms) => Some(ms),
            Answer::Empty(ms) => Some(ms),
            Answer::Silence => None,
        }
    }

    /// Whether the resolver proved it is reachable, whatever it had to say.
    pub fn reached(&self) -> (b: bool)
        ensures
            b == (*self != Answer::Silence),
    {
        match *self {
            Answer::Silence => false,
            _ => true,
        }
    }
}

/// The honesty verdict for one resolver.
#[derive(Debug, Clone, Copy, PartialEq, Eq, Structural)]
pub enum Integrity {
    Honest,
    /// Answering for names it does not own: an address for a name that cannot exist, or a
    /// public name pointed at a box on this network.
    Hijacked,
    /// Something is answering *instead of* the resolver. Names that must resolve globally
    /// come back well-formed and empty from a server that is plainly reachable.
    Forged,
}

impl Default for Integrity {
    fn default() -> (i: Integrity)
        ensures
            i == Integrity::Honest,
    {
        Integrity::Honest
    }
}

/// An IP address.
#[derive(Debug, Clone, Copy, PartialEq, Eq)]
pub enum IpAddr {
    V4([u8; 4]),
    /// The eight 16-bit segments, first one first.
    V6([u16; 8]),
}

// ---------------------------------------------------------------------------------------
// Names
// ---------------------------------------------------------------------------------------

/// A name as an absolute one: with a dot at its end.
pub open spec fn absolute_name(name: Seq<char>) -> Seq<char> {
    if name.len() > 0 && name.last() == '.' {
        name
    } else {
        name.push('.')
    }
}

/// Ask for a name as an absolute one.
///
/// Without the trailing dot the OS search list is appended to anything with fewer dots than
/// `ndots`, and we would pass judgement on a name we never meant to ask about.
pub fn absolute(name: &str) -> (r: String)
    ensures
        r@ == absolute_name(name@),
{
    let v = chars_of(name);
    let mut r = name.to_owned();
    let n: usize = v.len();
    if n > 0 && v[n - 1] == '.' {
        r
    } else {
        r.push('.');
        r
    }
}

/// An absolute name stays as it is: asking twice for the absolute form changes nothing.
pub proof fn law_absolute_is_idempotent(name: Seq<char>)
    ensures
        absolute_name(absolute_name(name)) == absolute_name(name),
        absolute_name(name).last() == '.',
{
}

/// Names that resolve for everyone, used as controls.
///
/// Two of them, and forgery is only claimed when *both* come back empty: one name can be
/// blocked by a filtering resolver as a matter of policy, but a resolver with nothing to say
/// about either of these is not the one answering.
pub fn control_names() -> (names: [String; 2])
    ensures
        strings(names@) == seq![absolute_name("example.com"@), absolute_name("wikipedia.org"@)],
{
    let names = [absolute("example.com"), absolute("wikipedia.org")];
    assert(strings(names@) =~= seq![
        absolute_name("example.com"@),
        absolute_name("wikipedia.org"@),
    ]);
    names
}

/// Rotating set of names to look up (rotating reduces resolver-cache hits so the timing
/// reflects real work).
pub open spec fn lookup_names() -> Seq<Seq<char>> {
    seq![
        "example.com"@,
        "wikipedia.org"@,
        "github.com"@,
        "cloudflare.com"@,
        "mozilla.org"@,
    ]
}

/// Rotating set of names to look up.
pub fn default_names() -> (names: Vec<String>)
    ensures
        strings(names@) == lookup_names(),
{
    let mut names: Vec<String> = Vec::new();
    names.push("example.com".to_owned());
    names.push("wikipedia.org".to_owned());
    names.push("github.com".to_owned());
    names.push("cloudflare.com".to_owned());
    names.push("mozilla.org".to_owned());
    assert(strings(names@) =~= lookup_names());
    names
}

/// A name nobody can have registered, for the NXDOMAIN check.
///
/// Under `.com` rather than `.invalid`: the point is to see what the real resolution path
/// does with a real NXDOMAIN, and resolvers short-circuit the reserved TLDs. Deterministic in
/// `seed`.
pub fn nonexistent_name(seed: u64) -> (r: String)
    ensures
        r@ == "np"@ + last_digits(seed as nat, 16, 16) + "nx.com"@,
{
    let mut r = "np".to_owned();
    push_digits(&mut r, seed, 16, 16);
    r.append("nx.com");
    r
}

/// The seed of the next round: each asks about a name the previous one did not.
pub fn next_seed(seed: u64) -> (r: u64)
    ensures
        r == (seed as int * 6_364_136_223_846_793_005 + 1) % 0x1_0000_0000_0000_0000,
{
    let wide: u128 = seed as u128 * 6_364_136_223_846_793_005 + 1;
    (wide % 0x1_0000_0000_0000_0000) as u64
}

// ---------------------------------------------------------------------------------------
// Honesty
// ---------------------------------------------------------------------------------------

/// `0.0.0.0` or `::`.
pub open spec fn is_unspecified(ip: IpAddr) -> bool {
    match ip {
        IpAddr::V4(o) => o[0] == 0 && o[1] == 0 && o[2] == 0 && o[3] == 0,
        IpAddr::V6(s) => forall|i: int| 0 <= i < 8 ==> #[trigger] s[i] == 0,
    }
}

/// An address that cannot host a public name: private, loopback, link-local, unique-local
/// or unspecified.
pub open spec fn is_local(ip: IpAddr) -> bool {
    is_unspecified(ip) || match ip {
        IpAddr::V4(o) => {
            ||| o[0] == 10
            ||| o[0] == 172 && 16 <= o[1] <= 31
            ||| o[0] == 192 && o[1] == 168
            ||| o[0] == 127
            ||| o[0] == 169 && o[1] == 254
        },
        IpAddr::V6(s) => {
            ||| (forall|i: int| 0 <= i < 7 ==> #[trigger] s[i] == 0) && s[7] == 1
            ||| 0xfc00 <= s[0] <= 0xfdff
            ||| 0xfe80 <= s[0] <= 0xfebf
        },
    }
}

impl IpAddr {
    /// Whether this is `0.0.0.0` or `::`.
    pub fn is_unspecified(&self) -> (r: bool)
        ensures
            r == is_unspecified(*self),
    {
        match self {
            IpAddr::V4(o) => o[0] == 0 && o[1] == 0 && o[2] == 0 && o[3] == 0,
            IpAddr::V6(s) => {
                let r = s[0] == 0 && s[1] == 0 && s[2] == 0 && s[3] == 0 && s[4] == 0 && s[5] == 0
                    && s[6] == 0 && s[7] == 0;
                r
            },
        }
    }

    /// Whether a public name cannot legitimately live at this address.
    pub fn is_local(&self) -> (r: bool)
        ensures
            r == is_local(*self),
    {
        if self.is_unspecified() {
            return true;
        }
        match self {
            IpAddr::V4(o) => o[0] == 10 || (o[0] == 172 && 16 <= o[1] && o[1] <= 31) || (o[0] == 192
                && o[1] == 168) || o[0] == 127 || (o[0] == 169 && o[1] == 254),
            IpAddr::V6(s) => {
                let loopback = s[0] == 0 && s[1] == 0 && s[2] == 0 && s[3] == 0 && s[4] == 0 && s[5]
                    == 0 && s[6] == 0 && s[7] == 1;
                loopback || (0xfc00 <= s[0] && s[0] <= 0xfdff) || (0xfe80 <= s[0] && s[0] <= 0xfebf)
            },
        }
    }

    /// Whether this is an IPv6 address.
    pub fn is_ipv6(&self) -> (r: bool)
        ensures
            r == (*self is V6),
    {
        match self {
            IpAddr::V4(_) => false,
            IpAddr::V6(_) => true,
        }
    }
}

/// Some answer to a name that cannot exist is an address.
pub open spec fn hijacks(answers: Seq<IpAddr>) -> bool {
    exists|i: int| 0 <= i < answers.len() && !is_unspecified(#[trigger] answers[i])
}

/// Some answer to a public name lies on the local network.
pub open spec fn intercepts(answers: Seq<IpAddr>) -> bool {
    exists|i: int| 0 <= i < answers.len() && is_local(#[trigger] answers[i])
}

/// Whether answers to a name that cannot exist mean somebody is synthesizing replies.
///
/// A random label under `.com` has no owner, so the only correct reply is NXDOMAIN.
/// `0.0.0.0` / `::` are left out: that is how a filtering resolver says "no", and it sends
/// the client nowhere.
pub fn nxdomain_is_hijacked(answers: &[IpAddr]) -> (r: bool)
    ensures
        r == hijacks(answers@),
{
    for i in 0..answers.len()
        invariant
            forall|j: int| 0 <= j < i ==> is_unspecified(#[trigger] answers@[j]),
    {
        if !answers[i].is_unspecified() {
            assert(!is_unspecified(answers@[i as int]));
            return true;
        }
    }
    false
}

/// Whether answers for a *public* name point somewhere on the local network.
///
/// When they do, something between here and the resolver is redirecting the name to a box on
/// this network: a portal, a filter, or something worse.
pub fn answers_look_intercepted(answers: &[IpAddr]) -> (r: bool)
    ensures
        r == intercepts(answers@),
{
    for i in 0..answers.len()
        invariant
            forall|j: int| 0 <= j < i ==> !is_local(#[trigger] answers@[j]),
    {
        if answers[i].is_local() {
            assert(is_local(answers@[i as int]));
            return true;
        }
    }
    false
}

/// The first answer that carries addresses.
pub open spec fn first_with_addresses(answers: Seq<Answer>) -> Option<Answer>
    decreases answers.len(),
{
    if answers.len() == 0 {
        None
    } else if answers[0] is Addresses {
        Some(answers[0])
    } else {
        first_with_addresses(answers.drop_first())
    }
}

/// The longest time that an empty answer took, at least 0.
pub open spec fn slowest_empty(answers: Seq<Answer>) -> Reading
    decreases answers.len(),
{
    if answers.len() == 0 {
        0
    } else {
        let rest = slowest_empty(answers.drop_last());
        match answer_latency(answers.last()) {
            Some(ms) if ms > rest => ms,
            _ => rest,
        }
    }
}

/// The single answer that a set of control replies amounts to.
pub open spec fn combined(answers: Seq<Answer>) -> Answer {
    match first_with_addresses(answers) {
        Some(a) => a,
        None => if answers.len() == 0 || answers.contains(Answer::Silence) {
            Answer::Silence
        } else {
            Answer::Empty(slowest_empty(answers))
        },
    }
}

/// Reduce the control replies to the single answer the ruleset judges.
///
/// Forgery is only claimed when *every* control came back empty: one real answer clears it,
/// and any silence withholds the claim, since during an outage there is nothing to accuse
/// anyone of.
pub fn combine_controls(answers: &[Answer]) -> (r: Answer)
    ensures
        r == combined(answers@),
{
    let mut silent = false;
    let mut slowest: Reading = 0;
    assert(answers@.skip(0) =~= answers@);
    for i in 0..answers.len()
        invariant
            first_with_addresses(answers@) == first_with_addresses(answers@.skip(i as int)),
            silent == answers@.take(i as int).contains(Answer::Silence),
            slowest == slowest_empty(answers@.take(i as int)),
    {
        let a = answers[i];
        assert(answers@.skip(i as int)[0] == a);
        assert(answers@.skip(i as int).drop_first() =~= answers@.skip(i + 1));
        assert(answers@.take(i + 1).drop_last() =~= answers@.take(i as int));
        let ghost before = answers@.take(i as int);
        let ghost after = answers@.take(i + 1);
        assert(after =~= before.push(a));
        match a {
            Answer::Addresses(_) => {
                return a;
            },
            Answer::Empty(ms) => {
                assert(after.contains(Answer::Silence) ==> before.contains(Answer::Silence)) by {
                    if after.contains(Answer::Silence) {
                        let k = choose|k: int|
                            0 <= k < after.len() && after[k] == Answer::Silence;
                        assert(before[k] == Answer::Silence);
                    }
                }
                assert(before.contains(Answer::Silence) ==> after.contains(Answer::Silence)) by {
                    if before.contains(Answer::Silence) {
                        let k = choose|k: int|
                            0 <= k < before.len() && before[k] == Answer::Silence;
                        assert(after[k] == Answer::Silence);
                    }
                }
                if ms > slowest {
                    slowest = ms;
                }
            },
            Answer::Silence => {
                assert(after[i as int] == Answer::Silence);
                silent = true;
            },
        }
    }
    assert(answers@.take(answers@.len() as int) =~= answers@);
    assert(answers@.skip(answers@.len() as int).len() == 0);
    if answers.len() == 0 || silent {
        Answer::Silence
    } else {
        Answer::Empty(slowest)
    }
}

/// The verdict on a resolver: hijacking outranks forgery, which outranks honesty.
pub open spec fn judged(
    control: Answer,
    control_addrs: Seq<IpAddr>,
    missing_addrs: Seq<IpAddr>,
) -> Integrity {
    if hijacks(missing_addrs) || intercepts(control_addrs) {
        Integrity::Hijacked
    } else if control is Empty {
        Integrity::Forged
    } else {
        Integrity::Honest
    }
}

/// The integrity ruleset.
///
/// `missing_addrs` is the reply for a name that cannot exist; `control` is the reply for
/// names that must resolve, and `control_addrs` the addresses in it. Silence yields no
/// verdict at all: an outage is not evidence of dishonesty.
pub fn verdict(control: Answer, control_addrs: &[IpAddr], missing_addrs: &[IpAddr]) -> (r:
    Integrity)
    ensures
        r == judged(control, control_addrs@, missing_addrs@),
{
    if nxdomain_is_hijacked(missing_addrs) || answers_look_intercepted(control_addrs) {
        return Integrity::Hijacked;
    }
    match control {
        Answer::Empty(_) => Integrity::Forged,
        _ => Integrity::Honest,
    }
}

/// Silence accuses nobody: where some control went unanswered and no address came back that
/// is out of place, the verdict is honest, whatever the other controls said.
pub proof fn law_silence_never_accuses(
    answers: Seq<Answer>,
    control_addrs: Seq<IpAddr>,
    missing_addrs: Seq<IpAddr>,
)
    requires
        answers.contains(Answer::Silence),
        !hijacks(missing_addrs),
        !intercepts(control_addrs),
    ensures
        judged(combined(answers), control_addrs, missing_addrs) == Integrity::Honest,
{
    lemma_found_has_addresses(answers);
}

proof fn lemma_found_has_addresses(answers: Seq<Answer>)
    ensures
        first_with_addresses(answers) matches Some(a) ==> a is Addresses,
    decreases answers.len(),
{
    if answers.len() > 0 {
        lemma_found_has_addresses(answers.drop_first());
    }
}

/// Forgery is claimed exactly where every control was answered, and every answer was empty.
pub proof fn law_forgery_needs_every_control_empty(answers: Seq<Answer>)
    ensures
        combined(answers) is Empty <==> answers.len() > 0 && forall|i: int|
            0 <= i < answers.len() ==> (#[trigger] answers[i]) is Empty,
{
    lemma_found_has_addresses(answers);
    if combined(answers) is Empty {
        assert forall|i: int| 0 <= i < answers.len() implies (#[trigger] answers[i]) is Empty by {
            if answers[i] is Addresses {
                lemma_first_with_addresses(answers, i);
            } else if answers[i] is Silence {
                assert(answers.contains(Answer::Silence));
            }
        }
    } else if answers.len() > 0 && forall|i: int|
        0 <= i < answers.len() ==> (#[trigger] answers[i]) is Empty {
        lemma_no_addresses(answers);
    }
}

proof fn lemma_no_addresses(answers: Seq<Answer>)
    requires
        forall|i: int| 0 <= i < answers.len() ==> (#[trigger] answers[i]) is Empty,
    ensures
        first_with_addresses(answers) is None,
    decreases answers.len(),
{
    if answers.len() > 0 {
        assert forall|i: int| 0 <= i < answers.drop_first().len() implies (
        #[trigger] answers.drop_first()[i]) is Empty by {
            assert(answers.drop_first()[i] == answers[i + 1]);
        }
        assert(answers[0] is Empty);
        lemma_no_addresses(answers.drop_first());
    }
}

/// One real answer clears a resolver of forgery.
pub proof fn law_one_answer_clears_forgery(answers: Seq<Answer>, i: int)
    requires
        0 <= i < answers.len(),
        answers[i] is Addresses,
    ensures
        combined(answers) is Addresses,
{
    lemma_first_with_addresses(answers, i);
}

proof fn lemma_first_with_addresses(answers: Seq<Answer>, i: int)
    requires
        0 <= i < answers.len(),
        answers[i] is Addresses,
    ensures
        first_with_addresses(answers) matches Some(a) && a is Addresses,
    decreases answers.len(),
{
    if !(answers[0] is Addresses) {
        assert(answers.drop_first()[i - 1] == answers[i]);
        lemma_first_with_addresses(answers.drop_first(), i - 1);
    }
}

// ---------------------------------------------------------------------------------------
// What a lookup came back with
// ---------------------------------------------------------------------------------------

/// The reply to one lookup.
pub enum Reply {
    /// A reply with these addresses in it, none perhaps.
    Records(Vec<IpAddr>),
    /// A reply that says there are no records.
    NoRecords,
    /// The lookup failed otherwise.
    Failed,
}

/// What a lookup that took `ms` did, from its reply; without one the deadline passed.
pub fn lookup_outcome(timed: Option<(Reading, Reply)>) -> (r: (Answer, Vec<IpAddr>))
    ensures
        match timed {
            Some((ms, Reply::Records(addrs))) => r.1 == addrs && r.0 == (if addrs@.len() == 0 {
                Answer::Empty(ms)
            } else {
                Answer::Addresses(ms)
            }),
            Some((ms, Reply::NoRecords)) => r.0 == Answer::Empty(ms) && r.1@.len() == 0,
            Some((_, Reply::Failed)) => r.0 == Answer::Silence && r.1@.len() == 0,
            None => r.0 == Answer::Silence && r.1@.len() == 0,
        },
{
    match timed {
        Some((ms, Reply::Records(addrs))) => {
            if addrs.len() == 0 {
                (Answer::Empty(ms), addrs)
            } else {
                (Answer::Addresses(ms), addrs)
            }
        },
        // The resolver replied, it simply had no records: that is a live resolver.
        Some((ms, Reply::NoRecords)) => (Answer::Empty(ms), Vec::new()),
        Some((_, Reply::Failed)) => (Answer::Silence, Vec::new()),
        None => (Answer::Silence, Vec::new()),
    }
}

/// The position in a list of `count` names that round `round` asks about.
pub fn rotation(round: usize, count: usize) -> (i: usize)
    requires
        count > 0,
    ensures
        i == round % count,
        i < count,
{
    round % count
}

/// What each lookup did.
pub open spec fn answers_of(v: Seq<(Answer, Vec<IpAddr>)>) -> Seq<Answer> {
    Seq::new(v.len(), |i: int| v[i].0)
}

/// The addresses of all lookups, in order.
pub open spec fn addresses_of(v: Seq<(Answer, Vec<IpAddr>)>) -> Seq<IpAddr>
    decreases v.len(),
{
    if v.len() == 0 {
        Seq::empty()
    } else {
        addresses_of(v.drop_last()) + v.last().1@
    }
}

/// The honesty of one resolver, from what it said of the control names and of the name that
/// cannot exist.
pub fn integrity_sample(
    resolver: String,
    controls: &Vec<(Answer, Vec<IpAddr>)>,
    missing_addrs: &Vec<IpAddr>,
) -> (s: Sample)
    ensures
        s == (Sample::DnsIntegrity {
            resolver,
            verdict: judged(
                combined(answers_of(controls@)),
                addresses_of(controls@),
                missing_addrs@,
            ),
        }),
{
    let mut answers: Vec<Answer> = Vec::new();
    let mut addrs: Vec<IpAddr> = Vec::new();
    let n: usize = controls.len();
    assert(controls@.take(0) =~= Seq::empty());
    for i in 0..n
        invariant
            n == controls@.len(),
            answers@ == answers_of(controls@).take(i as int),
            addrs@ == addresses_of(controls@.take(i as int)),
    {
        assert(controls@.take(i + 1).drop_last() =~= controls@.take(i as int));
        answers.push(controls[i].0);
        assert(answers@ =~= answers_of(controls@).take(i + 1));
        let found = &controls[i].1;
        let m: usize = found.len();
        let ghost before = addrs@;
        assert(before + found@.take(0) =~= before);
        for j in 0..m
            invariant
                m == found@.len(),
                addrs@ == before + found@.take(j as int),
        {
            addrs.push(found[j]);
            assert(addrs@ =~= before + found@.take(j + 1));
        }
        assert(found@.take(m as int) =~= found@);
    }
    assert(controls@.take(n as int) =~= controls@);
    assert(answers@ =~= answers_of(controls@));
    Sample::DnsIntegrity {
        resolver,
        verdict: verdict(
            combine_controls(answers.as_slice()),
            addrs.as_slice(),
            missing_addrs.as_slice(),
        ),
    }
}

// ---------------------------------------------------------------------------------------
// What the verdicts rest on
// ---------------------------------------------------------------------------------------

/// A resolver is a hijacker exactly where an address came back for the name that cannot exist,
/// unless it is the all-zero one, or where an address for a public name lies on the local
/// network; otherwise it is forged exactly where the controls came back empty; and in every
/// other case it is honest.
pub proof fn law_a_verdict_needs_its_evidence(
    control: Answer,
    control_addrs: Seq<IpAddr>,
    missing_addrs: Seq<IpAddr>,
)
    ensures
        ({
            let v = judged(control, control_addrs, missing_addrs);
            let made_up = exists|i: int|
                0 <= i < missing_addrs.len() && !is_unspecified(#[trigger] missing_addrs[i]);
            let redirected = exists|i: int|
                0 <= i < control_addrs.len() && is_local(#[trigger] control_addrs[i]);
            &&& v == Integrity::Hijacked <==> made_up || redirected
            &&& v == Integrity::Forged <==> control is Empty && !made_up && !redirected
            &&& control is Silence && !made_up && !redirected ==> v == Integrity::Honest
            &&& control is Addresses && !made_up && !redirected ==> v == Integrity::Honest
        }),
{
}

/// More addresses never clear a resolver that an address has already given away.
pub proof fn law_more_answers_never_clear_a_hijacker(
    control: Answer,
    control_addrs: Seq<IpAddr>,
    missing_addrs: Seq<IpAddr>,
    ip: IpAddr,
)
    requires
        judged(control, control_addrs, missing_addrs) == Integrity::Hijacked,
    ensures
        judged(control, control_addrs.push(ip), missing_addrs) == Integrity::Hijacked,
        judged(control, control_addrs, missing_addrs.push(ip)) == Integrity::Hijacked,
{
    if hijacks(missing_addrs) {
        let i = choose|i: int|
            0 <= i < missing_addrs.len() && !is_unspecified(#[trigger] missing_addrs[i]);
        assert(missing_addrs.push(ip)[i] == missing_addrs[i]);
    } else {
        let i = choose|i: int| 0 <= i < control_addrs.len() && is_local(#[trigger] control_addrs[i]);
        assert(control_addrs.push(ip)[i] == control_addrs[i]);
    }
}

/// Which IPv4 addresses cannot host a public name: those of the three private blocks, of the
/// loopback and link-local blocks, and the all-zero one. Addresses on either side of a block
/// are public.
pub proof fn law_local_ipv4_addresses(o: [u8; 4])
    ensures
        ({
            let local = is_local(IpAddr::V4(o));
            &&& o[0] == 10 || o[0] == 127 ==> local
            &&& o[0] == 172 ==> (local <==> 16 <= o[1] && o[1] < 32)
            &&& o[0] == 192 ==> (local <==> o[1] == 168)
            &&& o[0] == 169 ==> (local <==> o[1] == 254)
            &&& o[0] == 0 ==> (local <==> o[1] == 0 && o[2] == 0 && o[3] == 0)
            &&& o[0] != 0 && o[0] != 10 && o[0] != 127 && o[0] != 169 && o[0] != 172 && o[0]
                != 192 ==> !local
            &&& is_unspecified(IpAddr::V4(o)) <==> o[0] == 0 && o[1] == 0 && o[2] == 0 && o[3] == 0
        }),
{
}

/// Which IPv6 addresses cannot host a public name: the unique-local and link-local blocks,
/// the loopback address and the all-zero one.
pub proof fn law_local_ipv6_addresses(ip: IpAddr)
    ensures
        ip matches IpAddr::V6(s) ==> ({
            let local = is_local(ip);
            let zeros = s[0] == 0 && s[1] == 0 && s[2] == 0 && s[3] == 0 && s[4] == 0 && s[5] == 0
                && s[6] == 0;
            &&& 0xfc00 <= s[0] && s[0] < 0xfe00 ==> local
            &&& 0xfe80 <= s[0] && s[0] < 0xfec0 ==> local
            &&& zeros && (s[7] == 0 || s[7] == 1) ==> local
            &&& zeros && s[7] > 1 ==> !local
            &&& s[0] == 0 && !zeros ==> !local
            &&& 0 < s[0] && s[0] < 0xfc00 ==> !local
            &&& 0xfe00 <= s[0] && s[0] < 0xfe80 ==> !local
            &&& 0xfec0 <= s[0] ==> !local
            &&& is_unspecified(ip) <==> zeros && s[7] == 0
        }),
{
    match ip {
        IpAddr::V6(s) => {
            if is_unspecified(ip) {
                assert(forall|i: int| 0 <= i < 8 ==> #[trigger] s[i] == 0);
                assert(s[0] == 0 && s[1] == 0 && s[2] == 0 && s[3] == 0);
                assert(s[4] == 0 && s[5] == 0 && s[6] == 0 && s[7] == 0);
            }
            if forall|i: int| 0 <= i < 7 ==> #[trigger] s[i] == 0 {
                assert(s[0] == 0 && s[1] == 0 && s[2] == 0 && s[3] == 0);
                assert(s[4] == 0 && s[5] == 0 && s[6] == 0);
            }
            if s[0] == 0 && s[1] == 0 && s[2] == 0 && s[3] == 0 && s[4] == 0 && s[5] == 0 && s[6]
                == 0 {
                assert forall|i: int| 0 <= i < 7 implies #[trigger] s[i] == 0 by {
                    assert(i == 0 || i == 1 || i == 2 || i == 3 || i == 4 || i == 5 || i == 6);
                }
                if s[7] == 0 {
                    assert forall|i: int| 0 <= i < 8 implies #[trigger] s[i] == 0 by {
                        assert(i < 7 || i == 7);
                    }
                }
            }
        },
        IpAddr::V4(_) => {},
    }
}

/// What several controls amount to is the first real answer among them with its own time;
/// without one it is silence as soon as one of them is silent; and otherwise an empty answer
/// that took as long as the slowest of them.
pub proof fn law_controls_combine_to_one_of_them(answers: Seq<Answer>)
    ensures
        match combined(answers) {
            Answer::Addresses(ms) => exists|i: int|
                0 <= i < answers.len() && #[trigger] answers[i] == Answer::Addresses(ms)
                    && forall|j: int| 0 <= j < i ==> !(#[trigger] answers[j] is Addresses),
            Answer::Empty(ms) => answers.len() > 0 && ms >= 0 && (forall|i: int|
                0 <= i < answers.len() ==> (#[trigger] answers[i] matches Answer::Empty(t) && t
                    <= ms)) && (ms > 0 ==> answers.contains(Answer::Empty(ms))),
            Answer::Silence => answers.len() == 0 || (answers.contains(Answer::Silence)
                && forall|i: int| 0 <= i < answers.len() ==> !(#[trigger] answers[i] is Addresses)),
        },
{
    lemma_first_is_first(answers);
    match combined(answers) {
        Answer::Empty(ms) => {
            law_forgery_needs_every_control_empty(answers);
            lemma_slowest(answers);
        },
        _ => {},
    }
}

proof fn lemma_first_is_first(answers: Seq<Answer>)
    ensures
        match first_with_addresses(answers) {
            Some(a) => a is Addresses && exists|i: int|
                0 <= i < answers.len() && #[trigger] answers[i] == a && forall|j: int|
                    0 <= j < i ==> !(#[trigger] answers[j] is Addresses),
            None => forall|i: int| 0 <= i < answers.len() ==> !(#[trigger] answers[i] is Addresses),
        },
    decreases answers.len(),
{
    if answers.len() > 0 {
        let rest = answers.drop_first();
        lemma_first_is_first(rest);
        if answers[0] is Addresses {
            assert(answers[0] == answers[0]);
        } else {
            match first_with_addresses(rest) {
                Some(a) => {
                    let i = choose|i: int|
                        0 <= i < rest.len() && #[trigger] rest[i] == a && forall|j: int|
                            0 <= j < i ==> !(#[trigger] rest[j] is Addresses);
                    assert(answers[i + 1] == a);
                    assert forall|j: int| 0 <= j < i + 1 implies !(#[trigger] answers[j] is Addresses) by {
                        if j > 0 {
                            assert(rest[j - 1] == answers[j]);
                        }
                    }
                },
                None => {
                    assert forall|i: int| 0 <= i < answers.len() implies !(#[trigger] answers[i] is Addresses) by {
                        if i > 0 {
                            assert(rest[i - 1] == answers[i]);
                        }
                    }
                },
            }
        }
    }
}

proof fn lemma_slowest(answers: Seq<Answer>)
    requires
        forall|i: int| 0 <= i < answers.len() ==> #[trigger] answers[i] is Empty,
    ensures
        slowest_empty(answers) >= 0,
        forall|i: int|
            0 <= i < answers.len() ==> (#[trigger] answers[i] matches Answer::Empty(t) && t
                <= slowest_empty(answers)),
        slowest_empty(answers) > 0 ==> answers.contains(Answer::Empty(slowest_empty(answers))),
    decreases answers.len(),
{
    if answers.len() > 0 {
        let init = answers.drop_last();
        assert forall|i: int| 0 <= i < init.len() implies #[trigger] init[i] is Empty by {
            assert(init[i] == answers[i]);
        }
        lemma_slowest(init);
        assert(answers.last() == answers[answers.len() - 1]);
        assert forall|i: int| 0 <= i < answers.len() implies (#[trigger] answers[i] matches Answer::Empty(t)
            && t <= slowest_empty(answers)) by {
            if i < init.len() {
                assert(init[i] == answers[i]);
            }
        }
        let ms = slowest_empty(answers);
        if ms > 0 {
            if init.contains(Answer::Empty(ms)) {
                let k = choose|k: int| 0 <= k < init.len() && init[k] == Answer::Empty(ms);
                assert(answers[k] == Answer::Empty(ms));
            } else {
                assert(answers[answers.len() - 1] == Answer::Empty(ms));
            }
        }
    }
}

/// An empty answer is an answer: it has a time as a real one does, and only silence has none.
pub proof fn law_only_silence_has_no_time(a: Answer, ms: Reading)
    ensures
        answer_latency(Answer::Addresses(ms)) == Some(ms),
        answer_latency(Answer::Empty(ms)) == Some(ms),
        answer_latency(a) is None <==> a is Silence,
{
}

/// An address is judged whichever control it came with: those of all lookups, and no other.
pub proof fn law_every_address_is_looked_at(v: Seq<(Answer, Vec<IpAddr>)>, ip: IpAddr)
    ensures
        addresses_of(v).contains(ip) <==> exists|i: int|
            0 <= i < v.len() && (#[trigger] v[i]).1@.contains(ip),
    decreases v.len(),
{
    if v.len() > 0 {
        let init = v.drop_last();
        law_every_address_is_looked_at(init, ip);
        let a = addresses_of(init);
        let b = v.last().1@;
        if a.contains(ip) {
            let i = choose|i: int| 0 <= i < init.len() && (#[trigger] init[i]).1@.contains(ip);
            assert(v[i].1@.contains(ip));
            let k = choose|k: int| 0 <= k < a.len() && a[k] == ip;
            assert((a + b)[k] == ip);
        }
        if b.contains(ip) {
            assert(v[v.len() - 1].1@.contains(ip));
            let k = choose|k: int| 0 <= k < b.len() && b[k] == ip;
            assert((a + b)[a.len() + k] == ip);
        }
        if (a + b).contains(ip) {
            let k = choose|k: int| 0 <= k < (a + b).len() && (a + b)[k] == ip;
            if k < a.len() {
                assert(a[k] == ip);
            } else {
                assert(b[k - a.len()] == ip);
            }
        }
        if exists|i: int| 0 <= i < v.len() && (#[trigger] v[i]).1@.contains(ip) {
            let i = choose|i: int| 0 <= i < v.len() && (#[trigger] v[i]).1@.contains(ip);
            if i < init.len() {
                assert(init[i].1@.contains(ip));
            }
        }
    }
}

} // verus!
