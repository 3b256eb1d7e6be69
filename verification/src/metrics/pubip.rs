//! Public IP: read the WAN address from an echo endpoint's trace so the reducer can flag
//! ISP/WAN address changes (a WAN flap, a CGNAT shuffle, a failover).

use vstd::prelude::*;

use crate::metrics::Sample;
use crate::scan::{
    after_prefix, has_prefix, law_a_prefix_and_what_follows, lines, lines_of, strip, trim, trimmed,
};
use crate::text::{chars_of, string_of, text_of, texts};

verus! {

/// The value of the first line that begins with `ip=`, trimmed.
pub open spec fn first_ip(ls: Seq<Seq<char>>) -> Option<Seq<char>>
    decreases ls.len(),
{
    if ls.len() == 0 {
        None
    } else {
        match after_prefix(ls[0], "ip="@) {
            Some(rest) => Some(trim(rest)),
            None => first_ip(ls.drop_first()),
        }
    }
}

/// The address that a trace body reports: that of its first `ip=` line, unless it is blank.
pub open spec fn trace_ip(body: Seq<char>) -> Option<Seq<char>> {
    match first_ip(lines(body)) {
        Some(ip) if ip.len() > 0 => Some(ip),
        _ => None,
    }
}

/// Extract the `ip=` value from a Cloudflare `cdn-cgi/trace` body.
pub fn parse_trace_ip(body: &str) -> (r: Option<String>)
    ensures
        text_of(r) == trace_ip(body@),
{
    let text = chars_of(body);
    let ls = lines_of(&text);
    let ghost all = texts(ls@);
    let mut i: usize = 0;
    assert(all.skip(0) =~= all);
    while i < ls.len()
        invariant
            all == texts(ls@),
            all == lines(body@),
            i <= ls@.len(),
            first_ip(all) == first_ip(all.skip(i as int)),
        decreases ls@.len() - i,
    {
        assert(all.skip(i as int)[0] == ls@[i as int]@);
        assert(all.skip(i as int).drop_first() =~= all.skip(i + 1));
        match strip(&ls[i], "ip=") {
            Some(rest) => {
                let ip = trimmed(&rest);
                return if ip.len() > 0 {
                    Some(string_of(&ip))
                } else {
                    None
                };
            },
            None => {},
        }
        i = i + 1;
    }
    None
}

/// The readings that a fetched trace yields. A failed fetch, or one without an address,
/// yields none rather than a spurious "changed": the reducer keeps the last known address.
pub fn public_ip_samples(body: Option<&str>) -> (v: Vec<Sample>)
    ensures
        match body {
            Some(b) => match trace_ip(b@) {
                Some(ip) => v@.len() == 1 && (v@[0] matches Sample::PublicIp { ip: found } && found@
                    == ip),
                None => v@.len() == 0,
            },
            None => v@.len() == 0,
        },
{
    let mut v: Vec<Sample> = Vec::new();
    match body {
        Some(b) => match parse_trace_ip(b) {
            Some(ip) => v.push(Sample::PublicIp { ip }),
            None => {},
        },
        None => {},
    }
    v
}

/// The address is what stands behind the first `ip=` at the beginning of a line, without the
/// white space round it, whatever the lines before and after it say; a trace without such a
/// line, or with nothing behind the first one, has no address.
pub proof fn law_the_first_ip_line_is_the_address(body: Seq<char>, i: int, ip: Seq<char>)
    requires
        0 <= i <= lines(body).len(),
        forall|j: int| 0 <= j < i ==> !has_prefix(#[trigger] lines(body)[j], "ip="@),
    ensures
        i == lines(body).len() ==> trace_ip(body) is None,
        i < lines(body).len() && lines(body)[i] == "ip="@ + ip ==> trace_ip(body) == (if trim(
            ip,
        ).len() > 0 {
            Some(trim(ip))
        } else {
            None
        }),
{
    lemma_first_ip(lines(body), i, ip);
}

proof fn lemma_first_ip(ls: Seq<Seq<char>>, i: int, ip: Seq<char>)
    requires
        0 <= i <= ls.len(),
        forall|j: int| 0 <= j < i ==> !has_prefix(#[trigger] ls[j], "ip="@),
    ensures
        i == ls.len() ==> first_ip(ls) is None,
        i < ls.len() && ls[i] == "ip="@ + ip ==> first_ip(ls) == Some(trim(ip)),
    decreases ls.len(),
{
    if ls.len() > 0 {
        if i > 0 {
            assert(!has_prefix(ls[0], "ip="@));
            let rest = ls.drop_first();
            assert forall|j: int| 0 <= j < i - 1 implies !has_prefix(#[trigger] rest[j], "ip="@) by {
                assert(rest[j] == ls[j + 1]);
            }
            lemma_first_ip(rest, i - 1, ip);
        } else {
            law_a_prefix_and_what_follows("ip="@, ip, ip, 0);
        }
    }
}

} // verus!
