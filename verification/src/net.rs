//! Default-route introspection: gateway, interface, MTU and VPN, read from the text of
//! `route -n get default`.

use vstd::prelude::*;

use crate::scan::{
    begins_with, blank, find, has_prefix, is_space, law_a_prefix_and_what_follows,
    law_the_first_occurrence_is_found, law_trimming_takes_off_the_white_space_round, lines,
    lines_of, parse_u32, part, position_from, read_u32, trim, trimmed, words, words_of,
};
use crate::text::{chars_of, spells, string_of, text_of, texts};

verus! {

/// The default route's key facts.
#[derive(Debug, Clone, PartialEq, Eq)]
pub struct RouteInfo {
    pub gateway: Option<String>,
    /// The interface carrying the default route (e.g. `en0`, `utun3`).
    pub interface: Option<String>,
    /// Path MTU for the route, when reported.
    pub mtu: Option<u32>,
}

/// What a [`RouteInfo`] says.
pub ghost struct RouteModel {
    pub gateway: Option<Seq<char>>,
    pub interface: Option<Seq<char>>,
    pub mtu: Option<u32>,
}

impl View for RouteInfo {
    type V = RouteModel;

    open spec fn view(&self) -> RouteModel {
        RouteModel {
            gateway: text_of(self.gateway),
            interface: text_of(self.interface),
            mtu: self.mtu,
        }
    }
}

impl Default for RouteInfo {
    fn default() -> (r: RouteInfo)
        ensures
            r@ == (RouteModel { gateway: None, interface: None, mtu: None }),
    {
        RouteInfo { gateway: None, interface: None, mtu: None }
    }
}

/// The name of a VPN or tunnel interface begins with one of these.
pub open spec fn names_a_tunnel(iface: Seq<char>) -> bool {
    ||| has_prefix(iface, "utun"@)
    ||| has_prefix(iface, "ipsec"@)
    ||| has_prefix(iface, "ppp"@)
    ||| has_prefix(iface, "tun"@)
    ||| has_prefix(iface, "tap"@)
}

/// The default route runs over a tunnel.
pub open spec fn over_vpn(r: RouteModel) -> bool {
    r.interface matches Some(i) && names_a_tunnel(i)
}

impl RouteInfo {
    /// Whether the default route runs over a VPN/tunnel interface.
    pub fn is_vpn(&self) -> (b: bool)
        ensures
            b == over_vpn(self@),
    {
        match &self.interface {
            Some(i) => is_vpn_interface(i.as_str()),
            None => false,
        }
    }
}

/// Heuristic: does this interface name denote a VPN / tunnel? macOS VPNs carry the default
/// route over `utun*` / `ipsec*` / `ppp*` when a full tunnel is active.
pub fn is_vpn_interface(iface: &str) -> (b: bool)
    ensures
        b == names_a_tunnel(iface@),
{
    let name = chars_of(iface);
    begins_with(&name, "utun") || begins_with(&name, "ipsec") || begins_with(&name, "ppp")
        || begins_with(&name, "tun") || begins_with(&name, "tap")
}

/// The value of a `key: value` line, where it has that key and the value is not blank.
pub open spec fn field_in(line: Seq<char>, key: Seq<char>) -> Option<Seq<char>> {
    let k = find(line, ':');
    if k < line.len() && trim(line.take(k)) == key && trim(line.skip(k + 1)).len() > 0 {
        Some(trim(line.skip(k + 1)))
    } else {
        None
    }
}

/// The value of the last line that gives `key` one.
pub open spec fn last_field(ls: Seq<Seq<char>>, key: Seq<char>) -> Option<Seq<char>>
    decreases ls.len(),
{
    if ls.len() == 0 {
        None
    } else {
        match field_in(ls.last(), key) {
            Some(v) => Some(v),
            None => last_field(ls.drop_last(), key),
        }
    }
}

/// The position of the first `w` among `ws`, or the number of them.
pub open spec fn position_of(ws: Seq<Seq<char>>, w: Seq<char>) -> int
    decreases ws.len(),
{
    if ws.len() == 0 || ws[0] == w {
        0
    } else {
        1 + position_of(ws.drop_first(), w)
    }
}

/// The position of the first line that holds the word `w`, or the number of lines.
pub open spec fn line_with_word(ls: Seq<Seq<char>>, w: Seq<char>) -> int
    decreases ls.len(),
{
    if ls.len() == 0 || position_of(words(ls[0]), w) < words(ls[0]).len() {
        0
    } else {
        1 + line_with_word(ls.drop_first(), w)
    }
}

/// The number in the column that `w` heads: the table has a header row with the word `w`
/// and a row of values under it.
pub open spec fn number_under(ls: Seq<Seq<char>>, w: Seq<char>) -> Option<u32> {
    let h = line_with_word(ls, w);
    if h + 1 < ls.len() {
        let col = position_of(words(ls[h]), w);
        let values = words(ls[h + 1]);
        if col < values.len() {
            read_u32(values[col])
        } else {
            None
        }
    } else {
        None
    }
}

/// What the output of `route -n get default` says.
pub open spec fn route_of(output: Seq<char>) -> RouteModel {
    let ls = lines(output);
    RouteModel {
        gateway: last_field(ls, "gateway"@),
        interface: last_field(ls, "interface"@),
        mtu: number_under(ls, "mtu"@),
    }
}

/// The value of a `key: value` line with the given key.
fn field_of(line: &[char], key: &str) -> (r: Option<String>)
    ensures
        text_of(r) == field_in(line@, key@),
{
    assert(line@.skip(0) =~= line@);
    let k: usize = position_from(line, 0, ':');
    if k >= line.len() {
        return None;
    }
    let before = part(line, 0, k);
    assert(before@ =~= line@.take(k as int));
    if !spells(&trimmed(&before), key) {
        return None;
    }
    let after = part(line, k + 1, line.len());
    assert(after@ =~= line@.skip(k + 1));
    let value = trimmed(&after);
    if value.len() == 0 {
        None
    } else {
        Some(string_of(&value))
    }
}

/// The position of the first `w` among `ws`, or the number of them.
fn position_in(ws: &Vec<Vec<char>>, w: &str) -> (i: usize)
    ensures
        i == position_of(texts(ws@), w@),
        i <= ws@.len(),
{
    let ghost all = texts(ws@);
    let mut i: usize = 0;
    assert(all.skip(0) =~= all);
    while i < ws.len() && !spells(&ws[i], w)
        invariant
            all == texts(ws@),
            i <= ws@.len(),
            position_of(all, w@) == i + position_of(all.skip(i as int), w@),
        decreases ws@.len() - i,
    {
        assert(all.skip(i as int)[0] == ws@[i as int]@);
        assert(all.skip(i as int).drop_first() =~= all.skip(i + 1));
        i = i + 1;
    }
    if i < ws.len() {
        assert(all.skip(i as int)[0] == ws@[i as int]@);
    }
    i
}

/// The number in the column that `w` heads.
fn column_number(ls: &Vec<Vec<char>>, w: &str) -> (r: Option<u32>)
    ensures
        r == number_under(texts(ls@), w@),
{
    let ghost all = texts(ls@);
    let mut h: usize = 0;
    assert(all.skip(0) =~= all);
    while h < ls.len()
        invariant
            all == texts(ls@),
            h <= ls@.len(),
            line_with_word(all, w@) == h + line_with_word(all.skip(h as int), w@),
        decreases ls@.len() - h,
    {
        let ws = words_of(&ls[h]);
        let col: usize = position_in(&ws, w);
        assert(all.skip(h as int)[0] == ls@[h as int]@);
        if col < ws.len() {
            assert(line_with_word(all, w@) == h);
            if h + 1 < ls.len() {
                let values = words_of(&ls[h + 1]);
                assert(texts(values@) == words(all[h + 1]));
                if col < values.len() {
                    return parse_u32(&values[col]);
                }
            }
            return None;
        }
        assert(all.skip(h as int).drop_first() =~= all.skip(h + 1));
        h = h + 1;
    }
    None
}

/// Parse the gateway, interface, and MTU from `route -n get default` output.
pub fn parse_route_default(output: &str) -> (info: RouteInfo)
    ensures
        info@ == route_of(output@),
{
    let text = chars_of(output);
    let ls = lines_of(&text);
    let ghost all = texts(ls@);
    let mut info = RouteInfo { gateway: None, interface: None, mtu: None };
    for i in 0..ls.len()
        invariant
            all == texts(ls@),
            text_of(info.gateway) == last_field(all.take(i as int), "gateway"@),
            text_of(info.interface) == last_field(all.take(i as int), "interface"@),
    {
        assert(all.take(i + 1).drop_last() =~= all.take(i as int));
        assert(all.take(i + 1).last() == ls@[i as int]@);
        match field_of(&ls[i], "gateway") {
            Some(v) => {
                info.gateway = Some(v);
            },
            None => {},
        }
        match field_of(&ls[i], "interface") {
            Some(v) => {
                info.interface = Some(v);
            },
            None => {},
        }
    }
    assert(all.take(all.len() as int) =~= all);
    // The MTU lives in a positional table; the "mtu" column is located by name so that the
    // column spacing does not matter.
    info.mtu = column_number(&ls, "mtu");
    info
}

/// Parse just the gateway IP from `route -n get default` output.
pub fn parse_default_gateway(output: &str) -> (r: Option<String>)
    ensures
        text_of(r) == route_of(output@).gateway,
{
    parse_route_default(output).gateway
}

// ---------------------------------------------------------------------------------------
// Laws
// ---------------------------------------------------------------------------------------

/// A `key: value` line gives its key that value, whatever white space stands round either, and
/// gives no other key one; the value may hold colons of its own.
pub proof fn law_a_field_is_its_key_and_value(
    indent: Seq<char>,
    key: Seq<char>,
    gap: Seq<char>,
    value: Seq<char>,
    end: Seq<char>,
    other: Seq<char>,
)
    requires
        blank(indent),
        blank(gap),
        blank(end),
        key.len() > 0,
        !is_space(key[0]) && !is_space(key.last()),
        !key.contains(':'),
        value.len() > 0,
        !is_space(value[0]) && !is_space(value.last()),
    ensures
        ({
            let line = indent + key + seq![':'] + (gap + value + end);
            &&& field_in(line, key) == Some(value)
            &&& other != key ==> field_in(line, other) is None
        }),
{
    let front = indent + key;
    let back = gap + value + end;
    let line = front + seq![':'] + back;
    if front.contains(':') {
        let k = choose|k: int| 0 <= k < front.len() && front[k] == ':';
        if k < indent.len() {
            assert(front[k] == indent[k]);
            assert(is_space(indent[k]));
        } else {
            assert(front[k] == key[k - indent.len()]);
        }
    }
    law_the_first_occurrence_is_found(front, ':', back);
    assert(line.take(front.len() as int) =~= front);
    assert(line.skip(front.len() as int + 1) =~= back);
    let none = Seq::<char>::empty();
    assert(front + none =~= front);
    law_trimming_takes_off_the_white_space_round(indent, key, none);
    law_trimming_takes_off_the_white_space_round(gap, value, end);
}

/// Of the lines that give a key a value the last one counts.
pub proof fn law_the_last_field_counts(ls: Seq<Seq<char>>, i: int, key: Seq<char>)
    requires
        0 <= i < ls.len(),
        field_in(ls[i], key) is Some,
        forall|j: int| i < j < ls.len() ==> field_in(#[trigger] ls[j], key) is None,
    ensures
        last_field(ls, key) == field_in(ls[i], key),
    decreases ls.len(),
{
    if i < ls.len() - 1 {
        assert(field_in(ls[ls.len() - 1], key) is None);
        let init = ls.drop_last();
        assert forall|j: int| i < j < init.len() implies field_in(#[trigger] init[j], key) is None by {
            assert(init[j] == ls[j]);
        }
        law_the_last_field_counts(init, i, key);
    }
}

/// A key that no line gives a value has none.
pub proof fn law_a_missing_field_is_missing(ls: Seq<Seq<char>>, key: Seq<char>)
    requires
        forall|j: int| 0 <= j < ls.len() ==> field_in(#[trigger] ls[j], key) is None,
    ensures
        last_field(ls, key) is None,
    decreases ls.len(),
{
    if ls.len() > 0 {
        assert(field_in(ls[ls.len() - 1], key) is None);
        let init = ls.drop_last();
        assert forall|j: int| 0 <= j < init.len() implies field_in(#[trigger] init[j], key) is None by {
            assert(init[j] == ls[j]);
        }
        law_a_missing_field_is_missing(init, key);
    }
}

/// Of the default route the gateway is the `gateway` field, the interface the `interface`
/// field, and the MTU the number that stands in the row right below the word `mtu`, at the
/// same place among the words, where the first line with that word is the table's head.
pub proof fn law_the_route_is_its_fields(output: Seq<char>, i: int, h: int, col: int)
    requires
        0 <= i < lines(output).len(),
    ensures
        ({
            let ls = lines(output);
            let r = route_of(output);
            &&& field_in(ls[i], "gateway"@) is Some && (forall|j: int|
                i < j < ls.len() ==> field_in(#[trigger] ls[j], "gateway"@) is None) ==> r.gateway
                == field_in(ls[i], "gateway"@)
            &&& field_in(ls[i], "interface"@) is Some && (forall|j: int|
                i < j < ls.len() ==> field_in(#[trigger] ls[j], "interface"@) is None)
                ==> r.interface == field_in(ls[i], "interface"@)
            &&& 0 <= h && h + 1 < ls.len() && (forall|j: int|
                0 <= j < h ==> !words(#[trigger] ls[j]).contains("mtu"@)) && 0 <= col < words(
                ls[h],
            ).len() && words(ls[h])[col] == "mtu"@ && (forall|k: int|
                0 <= k < col ==> #[trigger] words(ls[h])[k] != "mtu"@) && col < words(
                ls[h + 1],
            ).len() ==> r.mtu == read_u32(words(ls[h + 1])[col])
            &&& (forall|j: int| 0 <= j < ls.len() ==> !words(#[trigger] ls[j]).contains("mtu"@))
                ==> r.mtu is None
        }),
{
    let ls = lines(output);
    if field_in(ls[i], "gateway"@) is Some && (forall|j: int|
        i < j < ls.len() ==> field_in(#[trigger] ls[j], "gateway"@) is None) {
        law_the_last_field_counts(ls, i, "gateway"@);
    }
    if field_in(ls[i], "interface"@) is Some && (forall|j: int|
        i < j < ls.len() ==> field_in(#[trigger] ls[j], "interface"@) is None) {
        law_the_last_field_counts(ls, i, "interface"@);
    }
    if 0 <= h && h + 1 < ls.len() && (forall|j: int|
        0 <= j < h ==> !words(#[trigger] ls[j]).contains("mtu"@)) && 0 <= col < words(ls[h]).len()
        && words(ls[h])[col] == "mtu"@ && (forall|k: int|
        0 <= k < col ==> #[trigger] words(ls[h])[k] != "mtu"@) {
        lemma_position(words(ls[h]), "mtu"@, col);
        assert(words(ls[h]).contains("mtu"@));
        lemma_line_with(ls, "mtu"@, h);
    }
    if forall|j: int| 0 <= j < ls.len() ==> !words(#[trigger] ls[j]).contains("mtu"@) {
        lemma_line_with(ls, "mtu"@, ls.len() as int);
    }
}

proof fn lemma_position(ws: Seq<Seq<char>>, w: Seq<char>, k: int)
    requires
        0 <= k <= ws.len(),
        forall|j: int| 0 <= j < k ==> #[trigger] ws[j] != w,
        k < ws.len() ==> ws[k] == w,
    ensures
        position_of(ws, w) == k,
    decreases ws.len(),
{
    if k > 0 {
        assert(ws[0] != w);
        let rest = ws.drop_first();
        assert forall|j: int| 0 <= j < k - 1 implies #[trigger] rest[j] != w by {
            assert(rest[j] == ws[j + 1]);
        }
        lemma_position(rest, w, k - 1);
    }
}

proof fn lemma_contained(ws: Seq<Seq<char>>, w: Seq<char>)
    ensures
        position_of(ws, w) < ws.len() <==> ws.contains(w),
        0 <= position_of(ws, w) <= ws.len(),
    decreases ws.len(),
{
    if ws.len() > 0 && ws[0] != w {
        lemma_contained(ws.drop_first(), w);
        if ws.contains(w) {
            let k = choose|k: int| 0 <= k < ws.len() && ws[k] == w;
            assert(ws.drop_first()[k - 1] == w);
        }
        if ws.drop_first().contains(w) {
            let k = choose|k: int| 0 <= k < ws.drop_first().len() && ws.drop_first()[k] == w;
            assert(ws[k + 1] == w);
        }
    } else if ws.len() > 0 {
        assert(ws.contains(w));
    }
}

proof fn lemma_line_with(ls: Seq<Seq<char>>, w: Seq<char>, h: int)
    requires
        0 <= h <= ls.len(),
        forall|j: int| 0 <= j < h ==> !words(#[trigger] ls[j]).contains(w),
        h < ls.len() ==> words(ls[h]).contains(w),
    ensures
        line_with_word(ls, w) == h,
    decreases ls.len(),
{
    if ls.len() > 0 {
        lemma_contained(words(ls[0]), w);
        if h > 0 {
            let rest = ls.drop_first();
            assert forall|j: int| 0 <= j < h - 1 implies !words(#[trigger] rest[j]).contains(w) by {
                assert(rest[j] == ls[j + 1]);
            }
            lemma_line_with(rest, w, h - 1);
        }
    }
}

/// A route over a tunnel is told by the name of its interface: those of the tunnels that a VPN
/// opens, whatever number follows, and neither a card's nor the loopback's.
pub proof fn law_tunnels_are_told_by_name(r: RouteModel, rest: Seq<char>)
    ensures
        names_a_tunnel("utun"@ + rest),
        names_a_tunnel("ipsec"@ + rest),
        names_a_tunnel("ppp"@ + rest),
        names_a_tunnel("tun"@ + rest),
        names_a_tunnel("tap"@ + rest),
        !names_a_tunnel("en"@ + rest),
        !names_a_tunnel("eth"@ + rest),
        !names_a_tunnel("wlan"@ + rest),
        !names_a_tunnel("lo"@ + rest),
        over_vpn(r) <==> (r.interface matches Some(i) && names_a_tunnel(i)),
        r.interface is None ==> !over_vpn(r),
{
    law_a_prefix_and_what_follows("utun"@, rest, rest, 0);
    law_a_prefix_and_what_follows("ipsec"@, rest, rest, 0);
    law_a_prefix_and_what_follows("ppp"@, rest, rest, 0);
    law_a_prefix_and_what_follows("tun"@, rest, rest, 0);
    law_a_prefix_and_what_follows("tap"@, rest, rest, 0);
    reveal_strlit("en");
    reveal_strlit("eth");
    reveal_strlit("wlan");
    reveal_strlit("lo");
    lemma_no_tunnel("en"@ + rest);
    lemma_no_tunnel("eth"@ + rest);
    lemma_no_tunnel("wlan"@ + rest);
    lemma_no_tunnel("lo"@ + rest);
}

proof fn lemma_no_tunnel(s: Seq<char>)
    requires
        s.len() > 0,
        s[0] != 'u' && s[0] != 'i' && s[0] != 'p' && s[0] != 't',
    ensures
        !names_a_tunnel(s),
{
    reveal_strlit("utun");
    reveal_strlit("ipsec");
    reveal_strlit("ppp");
    reveal_strlit("tun");
    reveal_strlit("tap");
    law_a_prefix_and_what_follows("utun"@, s, s, 0);
    law_a_prefix_and_what_follows("ipsec"@, s, s, 0);
    law_a_prefix_and_what_follows("ppp"@, s, s, 0);
    law_a_prefix_and_what_follows("tun"@, s, s, 0);
    law_a_prefix_and_what_follows("tap"@, s, s, 0);
}

/// A line without a colon gives no field a value.
pub proof fn law_a_line_without_a_colon_says_nothing(line: Seq<char>, key: Seq<char>)
    requires
        !line.contains(':'),
    ensures
        field_in(line, key) is None,
{
    crate::scan::law_the_first_occurrence_is_found(line, ':', Seq::empty());
}

} // verus!
