//! Ping targets: which of the configured hosts to ping, on which address family.
//!
//! ICMPv4 and ICMPv6 are separate protocols needing separate sockets. The two are worth
//! measuring side by side: a v6 path takes different routers than the v4 path to the same
//! operator.

use vstd::prelude::*;

use crate::metrics::dns::IpAddr;

verus! {

/// A ping target: the string it was configured as, and the address it resolved to.
pub type Target = (String, IpAddr);

/// What a list of targets says.
pub open spec fn target_texts(v: Seq<Target>) -> Seq<(Seq<char>, IpAddr)> {
    Seq::new(v.len(), |i: int| (v[i].0@, v[i].1))
}

/// The configured hosts that are addresses, with those addresses, in order.
pub open spec fn resolved(
    names: Seq<Seq<char>>,
    addresses: Seq<Option<IpAddr>>,
) -> Seq<(Seq<char>, IpAddr)>
    decreases names.len(),
{
    if names.len() == 0 {
        Seq::empty()
    } else {
        let init = resolved(names.drop_last(), addresses.drop_last());
        match addresses.last() {
            Some(ip) => init.push((names.last(), ip)),
            None => init,
        }
    }
}

/// The targets of one family, in order.
pub open spec fn of_family(targets: Seq<(Seq<char>, IpAddr)>, v6: bool) -> Seq<
    (Seq<char>, IpAddr),
> {
    targets.filter(|t: (Seq<char>, IpAddr)| (t.1 is V6) == v6)
}

/// The targets worth pinging: the v4 ones, then the v6 ones where the host has IPv6.
pub open spec fn pingable(targets: Seq<(Seq<char>, IpAddr)>, ipv6: bool) -> Seq<
    (Seq<char>, IpAddr),
> {
    if ipv6 {
        of_family(targets, false) + of_family(targets, true)
    } else {
        of_family(targets, false)
    }
}

/// Pair each configured host with the address that it reads as (`addresses`), dropping the
/// ones that are no address.
pub fn resolve_targets(targets: &Vec<String>, addresses: &Vec<Option<IpAddr>>) -> (v: Vec<Target>)
    requires
        targets@.len() == addresses@.len(),
    ensures
        target_texts(v@) == resolved(crate::text::strings(targets@), addresses@),
{
    let ghost names = crate::text::strings(targets@);
    let mut v: Vec<Target> = Vec::new();
    assert(target_texts(v@) =~= resolved(names.take(0), addresses@.take(0)));
    for i in 0..targets.len()
        invariant
            targets@.len() == addresses@.len(),
            names == crate::text::strings(targets@),
            target_texts(v@) == resolved(names.take(i as int), addresses@.take(i as int)),
    {
        assert(names.take(i + 1).drop_last() =~= names.take(i as int));
        assert(addresses@.take(i + 1).drop_last() =~= addresses@.take(i as int));
        let ghost before = v@;
        match addresses[i] {
            Some(ip) => {
                v.push((targets[i].clone(), ip));
                assert(target_texts(v@) =~= target_texts(before).push((names[i as int], ip)));
            },
            None => {},
        }
    }
    assert(names.take(names.len() as int) =~= names);
    assert(addresses@.take(addresses@.len() as int) =~= addresses@);
    v
}

/// The targets of one family, in order.
fn family(targets: &Vec<Target>, v6: bool) -> (v: Vec<Target>)
    ensures
        target_texts(v@) == of_family(target_texts(targets@), v6),
{
    let ghost all = target_texts(targets@);
    let ghost keep = |t: (Seq<char>, IpAddr)| (t.1 is V6) == v6;
    let mut v: Vec<Target> = Vec::new();
    assert(target_texts(v@) =~= of_family(all.take(0), v6)) by {
        reveal(Seq::filter);
    }
    for i in 0..targets.len()
        invariant
            all == target_texts(targets@),
            keep == (|t: (Seq<char>, IpAddr)| (t.1 is V6) == v6),
            target_texts(v@) == of_family(all.take(i as int), v6),
    {
        assert(all.take(i + 1).drop_last() =~= all.take(i as int));
        assert(all.take(i + 1).filter(keep) == if keep(all[i as int]) {
            all.take(i as int).filter(keep).push(all[i as int])
        } else {
            all.take(i as int).filter(keep)
        }) by {
            reveal(Seq::filter);
        }
        let ghost before = v@;
        if targets[i].1.is_ipv6() == v6 {
            v.push((targets[i].0.clone(), targets[i].1));
            assert(target_texts(v@) =~= target_texts(before).push(all[i as int]));
        }
    }
    assert(all.take(all.len() as int) =~= all);
    v
}

/// Split resolved targets into `(v4, v6)`. Each family needs its own ICMP socket, so they
/// are separated once here rather than re-tested at every use.
pub fn split_by_family(targets: &Vec<Target>) -> (r: (Vec<Target>, Vec<Target>))
    ensures
        target_texts(r.0@) == of_family(target_texts(targets@), false),
        target_texts(r.1@) == of_family(target_texts(targets@), true),
{
    (family(targets, false), family(targets, true))
}

/// The targets worth pinging, given whether this host has IPv6 at all: on a v4-only host the
/// v6 targets are dropped rather than pinged into timeouts.
pub fn pingable_targets(
    targets: &Vec<String>,
    addresses: &Vec<Option<IpAddr>>,
    ipv6: bool,
) -> (v: Vec<Target>)
    requires
        targets@.len() == addresses@.len(),
    ensures
        target_texts(v@) == pingable(
            resolved(crate::text::strings(targets@), addresses@),
            ipv6,
        ),
{
    let all = resolve_targets(targets, addresses);
    let (v4, v6) = split_by_family(&all);
    let mut v = v4;
    if ipv6 {
        let mut rest = v6;
        let ghost a = v@;
        let ghost b = rest@;
        v.append(&mut rest);
        assert(target_texts(v@) =~= target_texts(a) + target_texts(b));
    }
    v
}

/// The targets to ping, given whether a v6 socket could be opened. One the kernel refused
/// leaves its targets unpingable, so they are dropped too; otherwise every one of them would
/// read as loss forever.
pub fn usable_targets(targets: Vec<Target>, v6_open: bool) -> (v: Vec<Target>)
    ensures
        target_texts(v@) == (if v6_open {
            target_texts(targets@)
        } else {
            of_family(target_texts(targets@), false)
        }),
{
    if v6_open {
        targets
    } else {
        family(&targets, false)
    }
}

/// Without IPv6 nothing is pinged over it, and no v4 target is lost.
pub proof fn law_no_ipv6_drops_only_v6(targets: Seq<(Seq<char>, IpAddr)>, t: (Seq<char>, IpAddr))
    ensures
        pingable(targets, false).contains(t) <==> targets.contains(t) && !(t.1 is V6),
        pingable(targets, true).contains(t) <==> targets.contains(t),
{
    broadcast use vstd::seq_lib::group_seq_properties;
    let keep4 = |t: (Seq<char>, IpAddr)| (t.1 is V6) == false;
    let keep6 = |t: (Seq<char>, IpAddr)| (t.1 is V6) == true;
    lemma_kept(targets, keep4, t);
    lemma_kept(targets, keep6, t);
}

proof fn lemma_kept(
    s: Seq<(Seq<char>, IpAddr)>,
    keep: spec_fn((Seq<char>, IpAddr)) -> bool,
    t: (Seq<char>, IpAddr),
)
    ensures
        s.filter(keep).contains(t) <==> s.contains(t) && keep(t),
    decreases s.len(),
{
    reveal(Seq::filter);
    if s.len() > 0 {
        lemma_kept(s.drop_last(), keep, t);
        let init = s.drop_last();
        let f = init.filter(keep);
        assert(s =~= init.push(s.last()));
        assert(s.contains(t) <==> init.contains(t) || s.last() == t) by {
            if init.contains(t) {
                let k = choose|k: int| 0 <= k < init.len() && init[k] == t;
                assert(s[k] == t);
            }
            if s.last() == t {
                assert(s[s.len() - 1] == t);
            }
        }
        assert(f.push(s.last()).contains(t) <==> f.contains(t) || s.last() == t) by {
            if f.contains(t) {
                let k = choose|k: int| 0 <= k < f.len() && f[k] == t;
                assert(f.push(s.last())[k] == t);
            }
            if s.last() == t {
                assert(f.push(s.last())[f.len() as int] == t);
            }
        }
    }
}

/// A host is pinged under its own name at the address that it reads as, and one that reads as
/// none is not pinged; nothing else is, and the order stays.
pub proof fn law_hosts_keep_their_addresses(
    names: Seq<Seq<char>>,
    addresses: Seq<Option<IpAddr>>,
    name: Seq<char>,
    addr: Option<IpAddr>,
)
    requires
        names.len() == addresses.len(),
    ensures
        resolved(Seq::empty(), Seq::empty()).len() == 0,
        addr matches Some(ip) ==> resolved(names.push(name), addresses.push(addr)) == resolved(
            names,
            addresses,
        ).push((name, ip)),
        addr is None ==> resolved(names.push(name), addresses.push(addr)) == resolved(
            names,
            addresses,
        ),
{
    assert(names.push(name).drop_last() =~= names);
    assert(addresses.push(addr).drop_last() =~= addresses);
}

/// The two families part the targets: the v6 ones go with v6 and all others with v4.
pub proof fn law_families_part_the_targets(
    targets: Seq<(Seq<char>, IpAddr)>,
    v6: bool,
    t: (Seq<char>, IpAddr),
)
    ensures
        of_family(targets, v6).contains(t) ==> targets.contains(t) && (t.1 is V6) == v6,
        targets.contains(t) && t.1 is V6 ==> of_family(targets, true).contains(t)
            && !of_family(targets, false).contains(t),
        targets.contains(t) && t.1 is V4 ==> of_family(targets, false).contains(t)
            && !of_family(targets, true).contains(t),
{
    let p = |x: (Seq<char>, IpAddr)| (x.1 is V6) == v6;
    let q = |x: (Seq<char>, IpAddr)| (x.1 is V6) == true;
    let r = |x: (Seq<char>, IpAddr)| (x.1 is V6) == false;
    lemma_kept(targets, p, t);
    lemma_kept(targets, q, t);
    lemma_kept(targets, r, t);
}

} // verus!
