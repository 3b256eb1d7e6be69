//! Interface error counters: the cheapest fault signal there is.
//!
//! A cable with a bad crimp, a duplex mismatch, or a radio dropping frames shows up in the
//! per-NIC error counters long before it shows up as latency, and it points at *your
//! hardware* rather than at the network. [`is_physical`] is what makes the numbers usable:
//! macOS carries a fleet of pseudo-interfaces whose counters are meaningless.

use vstd::prelude::*;

use crate::metrics::Sample;
use crate::scan::{all_digits, begins_with, has_prefix, is_digit, only_digits, part};
use crate::text::chars_of;

verus! {

/// Interface-name prefixes whose error counters say nothing about the network.
///
/// `awdl`/`llw` (Apple Wireless Direct Link and its low-latency sibling) are the important
/// ones on macOS: they accumulate errors constantly by design. The rest are loopback,
/// tunnels and virtual bridges: traffic that never touches a wire.
pub open spec fn pseudo_prefixes() -> Seq<Seq<char>> {
    seq![
        "lo"@,
        "utun"@,
        "gif"@,
        "stf"@,
        "ipsec"@,
        "ppp"@,
        "awdl"@,
        "llw"@,
        "bridge"@,
        "vmnet"@,
        "docker"@,
        "veth"@,
        "ap"@,
    ]
}

/// `name` is `prefix` followed by digits alone.
pub open spec fn is_numbered(name: Seq<char>, prefix: Seq<char>) -> bool {
    has_prefix(name, prefix) && all_digits(name.skip(prefix.len() as int))
}

/// `name` is not a numbered pseudo-interface.
pub open spec fn physical(name: Seq<char>) -> bool {
    forall|i: int|
        0 <= i < pseudo_prefixes().len() ==> !is_numbered(name, #[trigger] pseudo_prefixes()[i])
}

fn numbered(name: &[char], prefix: &str) -> (r: bool)
    ensures
        r == is_numbered(name@, prefix@),
{
    if !begins_with(name, prefix) {
        return false;
    }
    let rest = part(name, chars_of(prefix).len(), name.len());
    assert(rest@ =~= name@.skip(prefix@.len() as int));
    only_digits(&rest)
}

/// Whether an interface's counters reflect real network hardware.
///
/// Prefix matching, deliberately: interfaces are numbered (`utun0`, `utun1`, ...) and new
/// ones appear whenever a VPN connects, so an exact-name list would go stale the first time
/// someone opened a tunnel.
pub fn is_physical(name: &str) -> (r: bool)
    ensures
        r == physical(name@),
{
    let n = chars_of(name);
    let r = !(numbered(&n, "lo") || numbered(&n, "utun") || numbered(&n, "gif") || numbered(
        &n,
        "stf",
    ) || numbered(&n, "ipsec") || numbered(&n, "ppp") || numbered(&n, "awdl") || numbered(&n, "llw")
        || numbered(&n, "bridge") || numbered(&n, "vmnet") || numbered(&n, "docker") || numbered(
        &n,
        "veth",
    ) || numbered(&n, "ap"));
    proof {
        let p = pseudo_prefixes();
        assert(p[0] == "lo"@ && p[1] == "utun"@ && p[2] == "gif"@ && p[3] == "stf"@ && p[4]
            == "ipsec"@ && p[5] == "ppp"@ && p[6] == "awdl"@ && p[7] == "llw"@ && p[8] == "bridge"@
            && p[9] == "vmnet"@ && p[10] == "docker"@ && p[11] == "veth"@ && p[12] == "ap"@);
    }
    r
}

/// The error counters of one interface over the last interval.
pub struct InterfaceCounters {
    pub name: String,
    pub rx_errors: u64,
    pub tx_errors: u64,
}

/// The receive errors of the physical interfaces, added up.
pub open spec fn rx_total(v: Seq<InterfaceCounters>) -> int
    decreases v.len(),
{
    if v.len() == 0 {
        0
    } else {
        rx_total(v.drop_last()) + (if physical(v.last().name@) {
            v.last().rx_errors as int
        } else {
            0
        })
    }
}

/// The transmit errors of the physical interfaces, added up.
pub open spec fn tx_total(v: Seq<InterfaceCounters>) -> int
    decreases v.len(),
{
    if v.len() == 0 {
        0
    } else {
        tx_total(v.drop_last()) + (if physical(v.last().name@) {
            v.last().tx_errors as int
        } else {
            0
        })
    }
}

/// A count held to what a counter can say.
pub open spec fn held_count(n: int) -> int {
    if n > u64::MAX {
        u64::MAX as int
    } else {
        n
    }
}

/// The reading that a refresh of the interface counters yields: the errors of the physical
/// interfaces, added up.
pub fn interface_sample(counters: &Vec<InterfaceCounters>) -> (s: Sample)
    ensures
        s matches Sample::InterfaceErrors { rx_errors, tx_errors } && rx_errors == held_count(
            rx_total(counters@),
        ) && tx_errors == held_count(tx_total(counters@)),
{
    let mut rx: u64 = 0;
    let mut tx: u64 = 0;
    for i in 0..counters.len()
        invariant
            rx == held_count(rx_total(counters@.take(i as int))),
            tx == held_count(tx_total(counters@.take(i as int))),
    {
        assert(counters@.take(i + 1).drop_last() =~= counters@.take(i as int));
        if is_physical(counters[i].name.as_str()) {
            rx = rx.saturating_add(counters[i].rx_errors);
            tx = tx.saturating_add(counters[i].tx_errors);
        }
    }
    assert(counters@.take(counters@.len() as int) =~= counters@);
    Sample::InterfaceErrors { rx_errors: rx, tx_errors: tx }
}

// ---------------------------------------------------------------------------------------
// Laws
// ---------------------------------------------------------------------------------------

/// The loopback, tunnels, virtual bridges and Apple's direct link are left out, with any
/// number behind their name, and so are their bare names; cards with the usual names are not.
pub proof fn law_numbered_pseudo_interfaces_are_left_out(digits: Seq<char>)
    requires
        all_digits(digits),
    ensures
        !physical("lo"@ + digits),
        !physical("utun"@ + digits),
        !physical("gif"@ + digits),
        !physical("stf"@ + digits),
        !physical("ipsec"@ + digits),
        !physical("ppp"@ + digits),
        !physical("awdl"@ + digits),
        !physical("llw"@ + digits),
        !physical("bridge"@ + digits),
        !physical("vmnet"@ + digits),
        !physical("docker"@ + digits),
        !physical("veth"@ + digits),
        !physical("ap"@ + digits),
        physical("en"@ + digits),
        physical("eth"@ + digits),
        physical("wlan"@ + digits),
{
    let names = pseudo_prefixes();
    lemma_is_pseudo(0, digits);
    lemma_is_pseudo(1, digits);
    lemma_is_pseudo(2, digits);
    lemma_is_pseudo(3, digits);
    lemma_is_pseudo(4, digits);
    lemma_is_pseudo(5, digits);
    lemma_is_pseudo(6, digits);
    lemma_is_pseudo(7, digits);
    lemma_is_pseudo(8, digits);
    lemma_is_pseudo(9, digits);
    lemma_is_pseudo(10, digits);
    lemma_is_pseudo(11, digits);
    lemma_is_pseudo(12, digits);
    assert(names[0] == "lo"@ && names[1] == "utun"@ && names[2] == "gif"@ && names[3] == "stf"@);
    assert(names[4] == "ipsec"@ && names[5] == "ppp"@ && names[6] == "awdl"@);
    assert(names[7] == "llw"@ && names[8] == "bridge"@ && names[9] == "vmnet"@);
    assert(names[10] == "docker"@ && names[11] == "veth"@ && names[12] == "ap"@);
    lemma_openings(digits);
}

/// A name that does not end in a digit and is no pseudo-interface's own is a card's.
pub proof fn law_other_names_are_cards(name: Seq<char>)
    requires
        name.len() > 0,
        !is_digit(name.last()),
        !pseudo_prefixes().contains(name),
    ensures
        physical(name),
{
    let names = pseudo_prefixes();
    assert forall|i: int| 0 <= i < names.len() implies !is_numbered(name, #[trigger] names[i]) by {
        if is_numbered(name, names[i]) {
            let tail = name.skip(names[i].len() as int);
            if tail.len() > 0 {
                assert(is_digit(tail[tail.len() - 1]));
                assert(tail[tail.len() - 1] == name.last());
            } else {
                assert(name =~= name.take(names[i].len() as int));
                assert(names[i] == name);
            }
        }
    }
}

proof fn lemma_is_pseudo(i: int, digits: Seq<char>)
    requires
        0 <= i < 13,
        all_digits(digits),
    ensures
        !physical(pseudo_prefixes()[i] + digits),
{
    let prefix = pseudo_prefixes()[i];
    let name = prefix + digits;
    assert(name.take(prefix.len() as int) =~= prefix);
    assert(name.skip(prefix.len() as int) =~= digits);
    assert(is_numbered(name, pseudo_prefixes()[i]));
}

proof fn lemma_openings(digits: Seq<char>)
    ensures
        physical("en"@ + digits),
        physical("eth"@ + digits),
        physical("wlan"@ + digits),
{
    reveal_strlit("lo");
    reveal_strlit("utun");
    reveal_strlit("gif");
    reveal_strlit("stf");
    reveal_strlit("ipsec");
    reveal_strlit("ppp");
    reveal_strlit("awdl");
    reveal_strlit("llw");
    reveal_strlit("bridge");
    reveal_strlit("vmnet");
    reveal_strlit("docker");
    reveal_strlit("veth");
    reveal_strlit("ap");
    reveal_strlit("en");
    reveal_strlit("eth");
    reveal_strlit("wlan");
    lemma_not_pseudo("en"@ + digits);
    lemma_not_pseudo("eth"@ + digits);
    lemma_not_pseudo("wlan"@ + digits);
}

proof fn lemma_not_pseudo(name: Seq<char>)
    requires
        name.len() > 0,
        name[0] == 'e' || name[0] == 'w',
    ensures
        physical(name),
{
    reveal_strlit("lo");
    reveal_strlit("utun");
    reveal_strlit("gif");
    reveal_strlit("stf");
    reveal_strlit("ipsec");
    reveal_strlit("ppp");
    reveal_strlit("awdl");
    reveal_strlit("llw");
    reveal_strlit("bridge");
    reveal_strlit("vmnet");
    reveal_strlit("docker");
    reveal_strlit("veth");
    reveal_strlit("ap");
    let names = pseudo_prefixes();
    assert forall|i: int| 0 <= i < names.len() implies !is_numbered(name, #[trigger] names[i]) by {
        if is_numbered(name, names[i]) {
            assert(name.take(names[i].len() as int)[0] == name[0]);
            assert(names[i][0] == name[0]);
        }
    }
}

/// Every physical interface counts once, its receive errors as received and its transmit
/// errors as sent, and no other interface counts at all.
pub proof fn law_only_physical_interfaces_count(v: Seq<InterfaceCounters>, c: InterfaceCounters)
    ensures
        rx_total(v.push(c)) == rx_total(v) + (if physical(c.name@) {
            c.rx_errors as int
        } else {
            0
        }),
        tx_total(v.push(c)) == tx_total(v) + (if physical(c.name@) {
            c.tx_errors as int
        } else {
            0
        }),
        rx_total(Seq::empty()) == 0,
        tx_total(Seq::empty()) == 0,
        forall|n: int| 0 <= n <= u64::MAX ==> #[trigger] held_count(n) == n,
{
    assert(v.push(c).drop_last() =~= v);
}

} // verus!
