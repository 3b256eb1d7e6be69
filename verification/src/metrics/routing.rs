//! Routing: the text of a `traceroute`, hop by hop, and route-change detection.

use vstd::prelude::*;

use crate::history::{percent, percentage};
use crate::metrics::{hops, Hop, HopModel, Sample};
use crate::scan::{
    all_digits, exponent_mark, find, is_digit, is_nan, is_number, lemma_find, lines, lines_of,
    mantissa, number_digits, parse_number, parse_u32, read_number, read_u32, spelled, spells_nan,
    unsigned_part, words, words_of,
};
use crate::text::{chars_of, same_text, spells, string_of, strings, texts};
use crate::units::Reading;

verus! {

/// Parsed path to a target.
pub struct Route {
    pub hops: usize,
    pub reachable: bool,
    /// Per-hop address (or `"*"` for a non-responding hop), first hop first.
    pub path: Vec<String>,
    /// Per-hop detail (address, best RTT, probe loss), first hop first.
    pub detail: Vec<Hop>,
}

/// What the tokens of a hop line amount to so far: the first responder, the RTTs, how many
/// probes were answered, and how many were lost.
pub ghost struct HopScan {
    pub addr: Option<Seq<char>>,
    pub rtts: Seq<Reading>,
    pub replies: nat,
    pub lost: nat,
}

/// Nothing read yet.
pub open spec fn no_scan() -> HopScan {
    HopScan { addr: None, rtts: Seq::empty(), replies: 0, lost: 0 }
}

/// One more probe was answered, with the RTT that `token` reads as, if it does.
pub open spec fn answered(acc: HopScan, token: Seq<char>) -> HopScan {
    HopScan {
        rtts: match read_number(token) {
            Some(v) => acc.rtts.push(v),
            None => acc.rtts,
        },
        replies: acc.replies + 1,
        ..acc
    }
}

/// Read the tokens of a hop line: `*` is a lost probe, a number before `ms` an RTT, any other
/// number and a stray `ms` mean nothing, and the first token of any other kind is the address.
pub open spec fn scan_hop(tokens: Seq<Seq<char>>, acc: HopScan) -> HopScan
    decreases tokens.len(),
{
    if tokens.len() == 0 {
        acc
    } else if tokens[0] == "*"@ {
        scan_hop(tokens.skip(1), HopScan { lost: acc.lost + 1, ..acc })
    } else if tokens[0] == "ms"@ {
        scan_hop(tokens.skip(1), acc)
    } else if is_number(tokens[0]) || is_nan(tokens[0]) {
        if tokens.len() > 1 && tokens[1] == "ms"@ {
            scan_hop(tokens.skip(2), answered(acc, tokens[0]))
        } else {
            scan_hop(tokens.skip(1), acc)
        }
    } else {
        scan_hop(
            tokens.skip(1),
            HopScan {
                addr: match acc.addr {
                    Some(a) => Some(a),
                    None => Some(tokens[0]),
                },
                ..acc
            },
        )
    }
}

/// The least of `rtts`.
pub open spec fn least(rtts: Seq<Reading>) -> Option<Reading>
    decreases rtts.len(),
{
    if rtts.len() == 0 {
        None
    } else {
        match least(rtts.drop_last()) {
            Some(m) if m <= rtts.last() => Some(m),
            _ => Some(rtts.last()),
        }
    }
}

/// The hop that a scan describes: `*` where nothing responded, the best RTT, and the
/// percentage of probes lost.
pub open spec fn hop_of(scan: HopScan) -> HopModel {
    HopModel {
        addr: match scan.addr {
            Some(a) => a,
            None => "*"@,
        },
        min_rtt_ms: least(scan.rtts),
        loss_pct: if scan.replies + scan.lost == 0 {
            0
        } else {
            percent(scan.lost, scan.replies + scan.lost)
        },
    }
}

/// The hop that the tokens after a hop number describe.
pub open spec fn hop_from(tokens: Seq<Seq<char>>) -> HopModel {
    hop_of(scan_hop(tokens, no_scan()))
}

/// The hops of a traceroute: one per line that begins with a number.
pub open spec fn hops_in(ls: Seq<Seq<char>>) -> Seq<HopModel>
    decreases ls.len(),
{
    if ls.len() == 0 {
        Seq::empty()
    } else {
        let init = hops_in(ls.drop_last());
        let ws = words(ls.last());
        if ws.len() > 0 && read_u32(ws[0]) is Some {
            init.push(hop_from(ws.skip(1)))
        } else {
            init
        }
    }
}

/// The addresses of a path.
pub open spec fn addresses(hs: Seq<HopModel>) -> Seq<Seq<char>> {
    Seq::new(hs.len(), |i: int| hs[i].addr)
}

/// The target is reached where it is the last hop.
pub open spec fn reaches(hs: Seq<HopModel>, target: Seq<char>) -> bool {
    hs.len() > 0 && hs.last().addr == target
}

/// Parse one hop line's tokens (everything after the hop number). With `-q N` a hop may
/// carry several RTT samples and/or `*` (lost probes); `-n` keeps addresses numeric.
fn parse_hop(words: &Vec<Vec<char>>, from: usize) -> (h: Hop)
    requires
        from <= words@.len(),
    ensures
        h@ == hop_from(texts(words@).skip(from as int)),
{
    let ghost all = texts(words@);
    let ghost start = no_scan();
    let mut addr: Option<String> = None;
    let mut min_rtt: Option<Reading> = None;
    let mut replies: usize = 0;
    let mut lost: usize = 0;
    let ghost mut acc = start;
    let mut i: usize = from;
    while i < words.len()
        invariant
            all == texts(words@),
            from <= i <= words@.len(),
            scan_hop(all.skip(i as int), acc) == scan_hop(all.skip(from as int), start),
            crate::text::text_of(addr) == acc.addr,
            min_rtt == least(acc.rtts),
            replies == acc.replies,
            lost == acc.lost,
            replies + lost <= i - from,
        decreases words@.len() - i,
    {
        let ghost rest = all.skip(i as int);
        assert(rest[0] == words@[i as int]@);
        assert(rest.skip(1) =~= all.skip(i + 1));
        let tok = &words[i];
        if spells(tok, "*") {
            lost = lost + 1;
            proof {
                acc = HopScan { lost: acc.lost + 1, ..acc };
            }
            i = i + 1;
        } else if spells(tok, "ms") {
            i = i + 1;
        } else {
            let rtt = parse_number(tok);
            if rtt.is_some() || spells_nan(tok) {
                // A latency reading if the next token is the "ms" unit.
                if i + 1 < words.len() && spells(&words[i + 1], "ms") {
                    assert(rest[1] == words@[i + 1]@);
                    assert(rest.skip(2) =~= all.skip(i + 2));
                    let ghost before = acc.rtts;
                    match rtt {
                        Some(v) => {
                            assert(before.push(v).drop_last() =~= before);
                            min_rtt = match min_rtt {
                                Some(m) => if m <= v {
                                    Some(m)
                                } else {
                                    Some(v)
                                },
                                None => Some(v),
                            };
                        },
                        None => {},
                    }
                    replies = replies + 1;
                    proof {
                        acc = answered(acc, rest[0]);
                    }
                    i = i + 2;
                } else {
                    if i + 1 < words.len() {
                        assert(rest[1] == words@[i + 1]@);
                    }
                    i = i + 1;
                }
            } else {
                // A hop address (IP with `-n`); keep the first responder.
                if addr.is_none() {
                    addr = Some(string_of(tok));
                }
                proof {
                    acc = HopScan {
                        addr: match acc.addr {
                            Some(a) => Some(a),
                            None => Some(rest[0]),
                        },
                        ..acc
                    };
                }
                i = i + 1;
            }
        }
    }
    assert(all.skip(i as int).len() == 0);
    let loss_pct: Reading = if replies + lost == 0 {
        0
    } else {
        percentage(lost, replies + lost)
    };
    let addr = match addr {
        Some(a) => a,
        None => "*".to_owned(),
    };
    Hop { addr, min_rtt_ms: min_rtt, loss_pct }
}

/// Parse `traceroute -n` output. `reachable` is true when the final hop is `target`.
pub fn parse_traceroute(output: &str, target: &str) -> (r: Route)
    ensures
        hops(r.detail@) == hops_in(lines(output@)),
        r.hops == r.detail@.len(),
        strings(r.path@) == addresses(hops(r.detail@)),
        r.reachable == reaches(hops(r.detail@), target@),
{
    let text = chars_of(output);
    let ls = lines_of(&text);
    let ghost all = texts(ls@);
    let mut detail: Vec<Hop> = Vec::new();
    let mut path: Vec<String> = Vec::new();
    assert(hops(detail@) =~= hops_in(all.take(0)));
    assert(strings(path@) =~= addresses(hops(detail@)));
    for i in 0..ls.len()
        invariant
            all == texts(ls@),
            hops(detail@) == hops_in(all.take(i as int)),
            strings(path@) == addresses(hops(detail@)),
    {
        assert(all.take(i + 1).drop_last() =~= all.take(i as int));
        assert(all.take(i + 1).last() == ls@[i as int]@);
        let ws = words_of(&ls[i]);
        let ghost toks = words(all[i as int]);
        // A line that does not begin with a hop number is a header or blank.
        if ws.len() > 0 && parse_u32(&ws[0]).is_some() {
            let hop = parse_hop(&ws, 1);
            let ghost before = detail@;
            let ghost path_before = path@;
            path.push(hop.addr.clone());
            detail.push(hop);
            assert(hops(detail@) =~= hops(before).push(hop@));
            assert(strings(path@) =~= strings(path_before).push(hop.addr@));
            assert(addresses(hops(detail@)) =~= addresses(hops(before)).push(hop@.addr));
        }
    }
    assert(all.take(all.len() as int) =~= all);
    let n: usize = detail.len();
    let reachable = n > 0 && same_text(detail[n - 1].addr.as_str(), target);
    Route { hops: n, reachable, path, detail }
}

/// Runs of a path probe to a stable target, so that a change of path can be told.
pub struct RoutingProbe {
    pub target: String,
    pub max_hops: usize,
    /// The path of the last run, once there was one.
    pub prev_path: Option<Vec<String>>,
}

/// The path of the last run.
pub open spec fn path_text(p: Option<Vec<String>>) -> Option<Seq<Seq<char>>> {
    match p {
        Some(v) => Some(strings(v@)),
        None => None,
    }
}

fn same_path(a: &Vec<String>, b: &Vec<String>) -> (r: bool)
    ensures
        r == (strings(a@) == strings(b@)),
{
    if a.len() != b.len() {
        assert(strings(a@).len() != strings(b@).len());
        return false;
    }
    for i in 0..a.len()
        invariant
            a@.len() == b@.len(),
            forall|j: int| 0 <= j < i ==> (#[trigger] a@[j])@ == b@[j]@,
    {
        if !same_text(a[i].as_str(), b[i].as_str()) {
            assert(strings(a@)[i as int] != strings(b@)[i as int]);
            return false;
        }
    }
    assert(strings(a@) =~= strings(b@));
    true
}

impl RoutingProbe {
    pub fn new(target: String, max_hops: usize) -> (p: RoutingProbe)
        ensures
            p.target == target,
            p.max_hops == max_hops,
            p.prev_path is None,
    {
        RoutingProbe { target, max_hops, prev_path: None }
    }

    /// The reading that the output of one run yields; the path counts as changed where it
    /// differs from that of the run before.
    pub fn observe(&mut self, output: &str) -> (s: Sample)
        ensures
            final(self).target == old(self).target,
            final(self).max_hops == old(self).max_hops,
            ({
                let hs = hops_in(lines(output@));
                &&& path_text(final(self).prev_path) == Some(addresses(hs))
                &&& s matches Sample::Routing { target, hops: n, reachable, changed, detail }
                    && target@ == old(self).target@ && n == hs.len() && reachable == reaches(
                    hs,
                    target@,
                ) && changed == (path_text(old(self).prev_path) is Some && path_text(
                    old(self).prev_path,
                ) != Some(addresses(hs))) && hops(detail@) == hs
            }),
    {
        let route = parse_traceroute(output, self.target.as_str());
        let changed = match &self.prev_path {
            Some(p) => !same_path(p, &route.path),
            None => false,
        };
        self.prev_path = Some(route.path);
        Sample::Routing {
            target: self.target.clone(),
            hops: route.hops,
            reachable: route.reachable,
            changed,
            detail: route.detail,
        }
    }
}

// ---------------------------------------------------------------------------------------
// Laws
// ---------------------------------------------------------------------------------------

/// The line begins with a hop number: its first word is digits alone, one or several, that
/// spell a 32-bit number, with a plus before them or not.
pub open spec fn numbered_line(line: Seq<char>) -> bool {
    words(line).len() > 0 && {
        let first = words(line)[0];
        let digits = if first.len() > 0 && first[0] == '+' {
            first.skip(1)
        } else {
            first
        };
        digits.len() > 0 && all_digits(digits) && spelled(digits, digits.len() as int) <= u32::MAX
    }
}

/// How many of the lines begin with a hop number.
pub open spec fn numbered_lines(ls: Seq<Seq<char>>) -> nat
    decreases ls.len(),
{
    if ls.len() == 0 {
        0
    } else {
        numbered_lines(ls.drop_last()) + (if numbered_line(ls.last()) {
            1nat
        } else {
            0nat
        })
    }
}

/// Every line that begins with a number, of one digit or of several, is one hop, in order, and
/// no other line is: the hops are as many as those lines, and each line adds its own hop, the
/// one that its other words describe, behind those of the lines before it.
pub proof fn law_every_numbered_line_is_one_hop(ls: Seq<Seq<char>>, line: Seq<char>)
    ensures
        hops_in(ls).len() == numbered_lines(ls),
        numbered_line(line) ==> hops_in(ls.push(line)) == hops_in(ls).push(
            hop_from(words(line).skip(1)),
        ),
        !numbered_line(line) ==> hops_in(ls.push(line)) == hops_in(ls),
    decreases ls.len(),
{
    if ls.len() > 0 {
        law_every_numbered_line_is_one_hop(ls.drop_last(), ls.last());
        assert(ls.drop_last().push(ls.last()) =~= ls);
    }
    assert(ls.push(line).drop_last() =~= ls);
    if words(line).len() > 0 {
        let first = words(line)[0];
        assert(first.len() > 0 && first[0] == '+' ==> first.drop_first() =~= first.skip(1));
    }
}

/// The target is reached exactly where the last numbered line names it as its address, however
/// many lines came before, and lines without a number behind it change nothing.
pub proof fn law_the_last_hop_decides(
    ls: Seq<Seq<char>>,
    line: Seq<char>,
    trailer: Seq<char>,
    target: Seq<char>,
)
    requires
        numbered_line(line),
        !numbered_line(trailer),
    ensures
        reaches(hops_in(ls.push(line)), target) <==> hop_from(words(line).skip(1)).addr == target,
        reaches(hops_in(ls.push(line).push(trailer)), target) == reaches(
            hops_in(ls.push(line)),
            target,
        ),
        !reaches(Seq::empty(), target),
{
    law_every_numbered_line_is_one_hop(ls, line);
    law_every_numbered_line_is_one_hop(ls.push(line), trailer);
}

/// A word that says nothing of where the hop is: a lost probe, the unit, or a number.
pub open spec fn no_address(token: Seq<char>) -> bool {
    token == "*"@ || token == "ms"@ || is_number(token) || is_nan(token)
}

/// The address of a hop is the first word that is neither a lost probe, nor the unit, nor a
/// number; where there is none it is `*`.
pub proof fn law_the_first_address_is_the_hop(tokens: Seq<Seq<char>>, i: int)
    requires
        0 <= i <= tokens.len(),
        forall|j: int| 0 <= j < i ==> no_address(#[trigger] tokens[j]),
    ensures
        i < tokens.len() && !no_address(tokens[i]) ==> hop_from(tokens).addr == tokens[i],
        i == tokens.len() ==> hop_from(tokens).addr == "*"@,
{
    lemma_scan_addr(tokens, no_scan(), i);
}

proof fn lemma_scan_addr(tokens: Seq<Seq<char>>, acc: HopScan, i: int)
    requires
        0 <= i <= tokens.len(),
        forall|j: int| 0 <= j < i ==> no_address(#[trigger] tokens[j]),
    ensures
        acc.addr is Some ==> scan_hop(tokens, acc).addr == acc.addr,
        acc.addr is None && i < tokens.len() && !no_address(tokens[i]) ==> scan_hop(
            tokens,
            acc,
        ).addr == Some(tokens[i]),
        acc.addr is None && i == tokens.len() ==> scan_hop(tokens, acc).addr is None,
    decreases tokens.len(),
{
    if tokens.len() > 0 {
        let one = tokens.skip(1);
        let two = tokens.skip(2);
        if i > 0 {
            assert(no_address(tokens[0]));
        }
        let k1 = if i >= 1 {
            i - 1
        } else {
            0
        };
        let k2 = if i >= 2 {
            i - 2
        } else {
            0
        };
        assert forall|j: int| 0 <= j < k1 implies no_address(#[trigger] one[j]) by {
            assert(one[j] == tokens[j + 1]);
        }
        if tokens.len() > 1 {
            assert forall|j: int| 0 <= j < k2 implies no_address(#[trigger] two[j]) by {
                assert(two[j] == tokens[j + 2]);
            }
        }
        if tokens[0] == "*"@ {
            lemma_scan_addr(one, HopScan { lost: acc.lost + 1, ..acc }, k1);
        } else if tokens[0] == "ms"@ {
            lemma_scan_addr(one, acc, k1);
        } else if is_number(tokens[0]) || is_nan(tokens[0]) {
            if tokens.len() > 1 && tokens[1] == "ms"@ {
                lemma_scan_addr(two, answered(acc, tokens[0]), k2);
            } else {
                lemma_scan_addr(one, acc, k1);
            }
        } else {
            lemma_scan_addr(
                one,
                HopScan {
                    addr: match acc.addr {
                        Some(a) => Some(a),
                        None => Some(tokens[0]),
                    },
                    ..acc
                },
                k1,
            );
        }
    }
}

/// The word at `i` is a time: a number with the unit behind it.
pub open spec fn time_at(tokens: Seq<Seq<char>>, i: int) -> bool {
    &&& 0 <= i
    &&& i + 1 < tokens.len()
    &&& tokens[i] != "*"@
    &&& tokens[i] != "ms"@
    &&& is_number(tokens[i]) || is_nan(tokens[i])
    &&& tokens[i + 1] == "ms"@
}

/// How many of the words are lost probes.
pub open spec fn lost_probes(tokens: Seq<Seq<char>>) -> nat
    decreases tokens.len(),
{
    if tokens.len() == 0 {
        0
    } else {
        lost_probes(tokens.skip(1)) + (if tokens[0] == "*"@ {
            1nat
        } else {
            0nat
        })
    }
}

/// How many of the words are times.
pub open spec fn answered_probes(tokens: Seq<Seq<char>>) -> nat
    decreases tokens.len(),
{
    if tokens.len() == 0 {
        0
    } else {
        answered_probes(tokens.skip(1)) + (if time_at(tokens, 0) {
            1nat
        } else {
            0nat
        })
    }
}

/// Some time among the words reads as `v`.
pub open spec fn times(tokens: Seq<Seq<char>>, v: Reading) -> bool {
    exists|i: int| #[trigger] time_at(tokens, i) && read_number(tokens[i]) == Some(v)
}

proof fn lemma_times(tokens: Seq<Seq<char>>, v: Reading)
    requires
        tokens.len() > 0,
    ensures
        times(tokens, v) <==> (time_at(tokens, 0) && read_number(tokens[0]) == Some(v)) || times(
            tokens.skip(1),
            v,
        ),
{
    let rest = tokens.skip(1);
    assert forall|i: int| i >= 1 implies time_at(tokens, i) == time_at(rest, i - 1) by {
        if i < tokens.len() {
            assert(rest[i - 1] == tokens[i]);
            if i + 1 < tokens.len() {
                assert(rest[i] == tokens[i + 1]);
            }
        }
    }
    if times(tokens, v) {
        let i = choose|i: int| #[trigger] time_at(tokens, i) && read_number(tokens[i]) == Some(v);
        if i > 0 {
            assert(time_at(rest, i - 1));
        }
    }
    if times(rest, v) {
        let i = choose|i: int| #[trigger] time_at(rest, i) && read_number(rest[i]) == Some(v);
        assert(time_at(tokens, i + 1));
    }
}

proof fn lemma_scan_counts(tokens: Seq<Seq<char>>, acc: HopScan)
    ensures
        ({
            let s = scan_hop(tokens, acc);
            &&& s.lost == acc.lost + lost_probes(tokens)
            &&& s.replies == acc.replies + answered_probes(tokens)
            &&& forall|v: Reading| #[trigger]
                s.rtts.contains(v) <==> acc.rtts.contains(v) || times(tokens, v)
        }),
    decreases tokens.len(),
{
    let s = scan_hop(tokens, acc);
    if tokens.len() > 0 {
        let one = tokens.skip(1);
        assert forall|v: Reading|
            #![trigger times(tokens, v)]
            #![trigger times(one, v)]
            times(tokens, v) <==> (time_at(tokens, 0) && read_number(tokens[0]) == Some(v))
            || times(one, v) by {
            lemma_times(tokens, v);
        }
        if tokens[0] == "*"@ {
            lemma_scan_counts(one, HopScan { lost: acc.lost + 1, ..acc });
        } else if tokens[0] == "ms"@ {
            lemma_scan_counts(one, acc);
        } else if is_number(tokens[0]) || is_nan(tokens[0]) {
            if tokens.len() > 1 && tokens[1] == "ms"@ {
                let two = tokens.skip(2);
                let next = answered(acc, tokens[0]);
                assert(time_at(tokens, 0));
                assert(one.skip(1) =~= two);
                assert(one[0] == tokens[1]);
                lemma_ms_is_no_star();
                assert(!time_at(one, 0));
                assert forall|v: Reading|
                    #![trigger times(one, v)]
                    #![trigger times(two, v)]
                    times(one, v) <==> times(two, v) by {
                    lemma_times(one, v);
                }
                assert(lost_probes(one) == lost_probes(two));
                assert(answered_probes(one) == answered_probes(two));
                lemma_scan_counts(two, next);
                assert forall|v: Reading| #[trigger] next.rtts.contains(v) <==> acc.rtts.contains(v)
                    || read_number(tokens[0]) == Some(v) by {
                    lemma_pushed(acc.rtts, read_number(tokens[0]), v);
                }
            } else {
                assert(!time_at(tokens, 0));
                lemma_scan_counts(one, acc);
            }
        } else {
            lemma_scan_counts(
                one,
                HopScan {
                    addr: match acc.addr {
                        Some(a) => Some(a),
                        None => Some(tokens[0]),
                    },
                    ..acc
                },
            );
        }
    }
}

proof fn lemma_ms_is_no_star()
    ensures
        "ms"@ != "*"@,
{
    reveal_strlit("ms");
    reveal_strlit("*");
    assert("ms"@.len() != "*"@.len());
}

proof fn lemma_pushed(s: Seq<Reading>, x: Option<Reading>, v: Reading)
    ensures
        (match x {
            Some(y) => s.push(y),
            None => s,
        }).contains(v) <==> s.contains(v) || x == Some(v),
{
    match x {
        Some(y) => {
            let t = s.push(y);
            assert(t[s.len() as int] == y);
            if s.contains(v) {
                let k = choose|k: int| 0 <= k < s.len() && s[k] == v;
                assert(t[k] == v);
            }
            if t.contains(v) {
                let k = choose|k: int| 0 <= k < t.len() && t[k] == v;
                if k < s.len() {
                    assert(s[k] == v);
                }
            }
        },
        None => {},
    }
}

proof fn lemma_least(rtts: Seq<Reading>)
    ensures
        match least(rtts) {
            Some(m) => rtts.contains(m) && forall|v: Reading| #[trigger]
                rtts.contains(v) ==> m <= v,
            None => rtts.len() == 0,
        },
    decreases rtts.len(),
{
    if rtts.len() > 0 {
        let init = rtts.drop_last();
        lemma_least(init);
        assert forall|v: Reading| #[trigger] rtts.contains(v) implies init.contains(v) || v
            == rtts.last() by {
            let k = choose|k: int| 0 <= k < rtts.len() && rtts[k] == v;
            if k < init.len() {
                assert(init[k] == v);
            }
        }
        assert(rtts[rtts.len() - 1] == rtts.last());
        if least(init) is Some {
            let k = choose|k: int| 0 <= k < init.len() && init[k] == least(init)->0;
            assert(rtts[k] == init[k]);
        }
    }
}

/// What a hop line says of its probes: the loss is the share of lost ones among all that were
/// lost or answered, none where there was no probe; and the time is one that was given, the
/// best of them, there being one exactly where some time reads as a number.
pub proof fn law_a_hop_has_its_best_time_and_its_loss(tokens: Seq<Seq<char>>, v: Reading)
    ensures
        ({
            let hop = hop_from(tokens);
            let lost = lost_probes(tokens);
            let all = lost + answered_probes(tokens);
            &&& all == 0 ==> hop.loss_pct == 0
            &&& all > 0 ==> hop.loss_pct == lost * 100_000_000_000 / all
            &&& hop.min_rtt_ms matches Some(m) ==> times(tokens, m)
            &&& times(tokens, v) ==> (hop.min_rtt_ms matches Some(m) && m <= v)
        }),
{
    let s = scan_hop(tokens, no_scan());
    lemma_scan_counts(tokens, no_scan());
    lemma_least(s.rtts);
    let lost = lost_probes(tokens);
    let all = lost + answered_probes(tokens);
    if all > 0 {
        assert(0 <= lost * 100_000_000_000 / all <= 100_000_000_000) by (nonlinear_arith)
            requires
                lost <= all,
                all > 0,
        ;
    }
    if least(s.rtts) is Some {
        assert(s.rtts.contains(least(s.rtts)->0));
    }
    if times(tokens, v) {
        assert(s.rtts.contains(v));
    }
}

/// A text with two points, as an IPv4 address has, is no number.
pub proof fn law_dotted_addresses_are_no_numbers(a: Seq<char>, b: Seq<char>, c: Seq<char>)
    requires
        all_digits(a),
        all_digits(b),
        a.len() > 0,
    ensures
        !is_number(a + seq!['.'] + b + seq!['.'] + c),
{
    let s = a + seq!['.'] + b + seq!['.'] + c;
    assert(s[0] == a[0]);
    assert(is_digit(a[0]));
    assert(unsigned_part(s) == s);
    let m = exponent_mark(s);
    let before = a.len() + 1 + b.len();
    let front = a + seq!['.'] + b + seq!['.'];
    assert(s[before as int] == '.');
    lemma_find(s, 'e');
    lemma_find(s, 'E');
    assert forall|i: int| 0 <= i <= before implies s[i] != 'e' && s[i] != 'E' by {
        if i < a.len() {
            assert(s[i] == a[i]);
            assert(is_digit(a[i]));
        } else if a.len() < i < before {
            assert(s[i] == b[i - a.len() - 1]);
            assert(is_digit(b[i - a.len() - 1]));
        }
    }
    assert(m > before);
    let body = mantissa(s);
    assert(body[a.len() as int] == '.');
    lemma_find(body, '.');
    let k = find(body, '.');
    if k < a.len() {
        assert(body[k] == a[k]);
        assert(is_digit(a[k]));
    }
    assert(k == a.len());
    let digits = number_digits(body);
    assert(digits[before - 1] == body[before as int]);
    assert(digits[before - 1] == '.');
    reveal_strlit("inf");
    reveal_strlit("infinity");
}

} // verus!
