//! The wireless link (macOS): the text of `system_profiler SPAirPortDataType`.

use vstd::prelude::*;

use crate::metrics::Sample;
use crate::scan::{
    after_prefix, begins_with, blank, has_prefix, is_space, law_a_prefix_and_what_follows,
    law_splitting_undoes_joining, law_trimming_takes_off_the_white_space_round, lines, lines_of,
    parse_number, part, pieces, read_number, split_on, strip, trim, trimmed, words, words_of,
};
use crate::text::{chars_of, spells, string_of, text_of, texts};
use crate::units::Reading;

verus! {

/// Parsed wireless link details.
#[derive(Debug, Clone, PartialEq, Eq)]
pub struct WifiInfo {
    pub ssid: Option<String>,
    pub rssi_dbm: Option<Reading>,
    pub noise_dbm: Option<Reading>,
    pub tx_rate: Option<Reading>,
    pub channel: Option<String>,
    pub phy_mode: Option<String>,
}

/// What a [`WifiInfo`] says.
pub ghost struct WifiModel {
    pub ssid: Option<Seq<char>>,
    pub rssi_dbm: Option<Reading>,
    pub noise_dbm: Option<Reading>,
    pub tx_rate: Option<Reading>,
    pub channel: Option<Seq<char>>,
    pub phy_mode: Option<Seq<char>>,
}

impl View for WifiInfo {
    type V = WifiModel;

    open spec fn view(&self) -> WifiModel {
        WifiModel {
            ssid: text_of(self.ssid),
            rssi_dbm: self.rssi_dbm,
            noise_dbm: self.noise_dbm,
            tx_rate: self.tx_rate,
            channel: text_of(self.channel),
            phy_mode: text_of(self.phy_mode),
        }
    }
}

/// The position of the first line that is `heading` but for the white space round it, or
/// the number of lines.
pub open spec fn heading_at(ls: Seq<Seq<char>>, heading: Seq<char>) -> int
    decreases ls.len(),
{
    if ls.len() == 0 || trim(ls[0]) == heading {
        0
    } else {
        1 + heading_at(ls.drop_first(), heading)
    }
}

/// The position of the first line that begins with `heading` but for leading white space, or
/// the number of lines.
pub open spec fn heading_prefix_at(ls: Seq<Seq<char>>, heading: Seq<char>) -> int
    decreases ls.len(),
{
    if ls.len() == 0 || has_prefix(trim(ls[0]), heading) {
        0
    } else {
        1 + heading_prefix_at(ls.drop_first(), heading)
    }
}

/// The lines about the current network: from the one after its heading up to the heading of
/// the other networks.
pub open spec fn current_section(ls: Seq<Seq<char>>) -> Option<Seq<Seq<char>>> {
    let start = heading_at(ls, "Current Network Information:"@);
    if start < ls.len() {
        let rest = ls.skip(start + 1);
        Some(rest.take(heading_prefix_at(rest, "Other Local Wi-Fi Networks:"@)))
    } else {
        None
    }
}

/// `s` without the colons at its end.
pub open spec fn without_colons(s: Seq<char>) -> Seq<char>
    decreases s.len(),
{
    if s.len() > 0 && s.last() == ':' {
        without_colons(s.drop_last())
    } else {
        s
    }
}

/// The network's name: the first line that is not blank, without the colons at its end.
pub open spec fn ssid_in(section: Seq<Seq<char>>) -> Option<Seq<char>>
    decreases section.len(),
{
    if section.len() == 0 {
        None
    } else if trim(section[0]).len() > 0 {
        Some(without_colons(trim(section[0])))
    } else {
        ssid_in(section.drop_first())
    }
}

/// The numbers that the parts begin with, leaving out the parts that begin with none.
pub open spec fn leading_numbers(parts: Seq<Seq<char>>) -> Seq<Reading>
    decreases parts.len(),
{
    if parts.len() == 0 {
        Seq::empty()
    } else {
        let init = leading_numbers(parts.drop_last());
        let ws = words(parts.last());
        if ws.len() > 0 && read_number(ws[0]) is Some {
            init.push(read_number(ws[0])->0)
        } else {
            init
        }
    }
}

/// The element at position `i`, where there is one.
pub open spec fn nth(s: Seq<Reading>, i: int) -> Option<Reading> {
    if i < s.len() {
        Some(s[i])
    } else {
        None
    }
}

/// What one line of the section adds to what the lines before it said.
pub open spec fn with_line(info: WifiModel, line: Seq<char>) -> WifiModel {
    let t = trim(line);
    match after_prefix(t, "Signal / Noise:"@) {
        Some(rest) => {
            let nums = leading_numbers(split_on(rest, '/'));
            WifiModel { rssi_dbm: nth(nums, 0), noise_dbm: nth(nums, 1), ..info }
        },
        None => match after_prefix(t, "Transmit Rate:"@) {
            Some(rest) => WifiModel { tx_rate: read_number(trim(rest)), ..info },
            None => match after_prefix(t, "Channel:"@) {
                Some(rest) => WifiModel { channel: Some(trim(rest)), ..info },
                None => match after_prefix(t, "PHY Mode:"@) {
                    Some(rest) => WifiModel { phy_mode: Some(trim(rest)), ..info },
                    None => info,
                },
            },
        },
    }
}

/// What the lines of the section say, read in order.
pub open spec fn section_info(section: Seq<Seq<char>>, ssid: Option<Seq<char>>) -> WifiModel
    decreases section.len(),
{
    if section.len() == 0 {
        WifiModel {
            ssid,
            rssi_dbm: None,
            noise_dbm: None,
            tx_rate: None,
            channel: None,
            phy_mode: None,
        }
    } else {
        with_line(section_info(section.drop_last(), ssid), section.last())
    }
}

/// What the output says of the current network; nothing when there is none.
pub open spec fn airport(output: Seq<char>) -> Option<WifiModel> {
    match current_section(lines(output)) {
        Some(section) => Some(section_info(section, ssid_in(section))),
        None => None,
    }
}

/// The link details of an optional parse.
pub open spec fn wifi_model(w: Option<WifiInfo>) -> Option<WifiModel> {
    match w {
        Some(i) => Some(i@),
        None => None,
    }
}

fn find_heading(ls: &Vec<Vec<char>>, heading: &str) -> (i: usize)
    ensures
        i == heading_at(texts(ls@), heading@),
        i <= ls@.len(),
{
    let ghost all = texts(ls@);
    let mut i: usize = 0;
    assert(all.skip(0) =~= all);
    while i < ls.len()
        invariant
            all == texts(ls@),
            i <= ls@.len(),
            heading_at(all, heading@) == i + heading_at(all.skip(i as int), heading@),
        decreases ls@.len() - i,
    {
        assert(all.skip(i as int)[0] == ls@[i as int]@);
        assert(all.skip(i as int).drop_first() =~= all.skip(i + 1));
        if spells(&trimmed(&ls[i]), heading) {
            return i;
        }
        i = i + 1;
    }
    i
}

fn find_heading_prefix(ls: &Vec<Vec<char>>, from: usize, heading: &str) -> (i: usize)
    requires
        from <= ls@.len(),
    ensures
        i == from + heading_prefix_at(texts(ls@).skip(from as int), heading@),
        from <= i <= ls@.len(),
{
    let ghost all = texts(ls@);
    let ghost rest = all.skip(from as int);
    let mut i: usize = from;
    while i < ls.len()
        invariant
            all == texts(ls@),
            rest == all.skip(from as int),
            from <= i <= ls@.len(),
            from + heading_prefix_at(rest, heading@) == i + heading_prefix_at(
                all.skip(i as int),
                heading@,
            ),
        decreases ls@.len() - i,
    {
        assert(all.skip(i as int)[0] == ls@[i as int]@);
        assert(all.skip(i as int).drop_first() =~= all.skip(i + 1));
        if begins_with(&trimmed(&ls[i]), heading) {
            return i;
        }
        i = i + 1;
    }
    i
}

fn drop_colons(s: &[char]) -> (r: Vec<char>)
    ensures
        r@ == without_colons(s@),
{
    let mut n: usize = s.len();
    assert(s@.take(n as int) =~= s@);
    while n > 0 && s[n - 1] == ':'
        invariant
            n <= s@.len(),
            without_colons(s@.take(n as int)) == without_colons(s@),
        decreases n,
    {
        assert(s@.take(n as int).drop_last() =~= s@.take(n - 1));
        n = n - 1;
    }
    assert(s@.take(n as int) =~= s@.subrange(0, n as int));
    part(s, 0, n)
}

fn numbers_in(parts: &Vec<Vec<char>>) -> (v: Vec<Reading>)
    ensures
        v@ == leading_numbers(texts(parts@)),
{
    let ghost all = texts(parts@);
    let mut v: Vec<Reading> = Vec::new();
    for i in 0..parts.len()
        invariant
            all == texts(parts@),
            v@ == leading_numbers(all.take(i as int)),
    {
        assert(all.take(i + 1).drop_last() =~= all.take(i as int));
        assert(all.take(i + 1).last() == parts@[i as int]@);
        let ws = words_of(&parts[i]);
        if ws.len() > 0 {
            assert(texts(ws@)[0] == ws@[0]@);
            match parse_number(&ws[0]) {
                Some(n) => v.push(n),
                None => {},
            }
        }
    }
    assert(all.take(all.len() as int) =~= all);
    v
}

fn at(v: &Vec<Reading>, i: usize) -> (r: Option<Reading>)
    ensures
        r == nth(v@, i as int),
{
    if i < v.len() {
        Some(v[i])
    } else {
        None
    }
}

/// Take what one line of the section says into `info`.
fn read_line(info: &mut WifiInfo, line: &[char])
    ensures
        final(info)@ == with_line(old(info)@, line@),
{
    let t = trimmed(line);
    match strip(&t, "Signal / Noise:") {
        Some(rest) => {
            let nums = numbers_in(&pieces(&rest, '/'));
            info.rssi_dbm = at(&nums, 0);
            info.noise_dbm = at(&nums, 1);
            return;
        },
        None => {},
    }
    match strip(&t, "Transmit Rate:") {
        Some(rest) => {
            info.tx_rate = parse_number(&trimmed(&rest));
            return;
        },
        None => {},
    }
    match strip(&t, "Channel:") {
        Some(rest) => {
            info.channel = Some(string_of(&trimmed(&rest)));
            return;
        },
        None => {},
    }
    match strip(&t, "PHY Mode:") {
        Some(rest) => {
            info.phy_mode = Some(string_of(&trimmed(&rest)));
        },
        None => {},
    }
}

/// Parse the output of `system_profiler SPAirPortDataType`. Returns `None` when there is no
/// current network (not connected).
pub fn parse_airport(output: &str) -> (r: Option<WifiInfo>)
    ensures
        wifi_model(r) == airport(output@),
{
    let text = chars_of(output);
    let ls = lines_of(&text);
    let ghost all = texts(ls@);
    let start: usize = find_heading(&ls, "Current Network Information:");
    if start >= ls.len() {
        return None;
    }
    // The current-network block ends where the "Other Local Wi-Fi Networks" list begins.
    let end: usize = find_heading_prefix(&ls, start + 1, "Other Local Wi-Fi Networks:");
    let ghost section = all.subrange(start + 1, end as int);
    proof {
        let rest = all.skip(start + 1);
        assert(section =~= rest.take(heading_prefix_at(rest, "Other Local Wi-Fi Networks:"@)));
    }
    // The SSID is the first non-empty line of the block (a "<name>:" header).
    let mut ssid: Option<String> = None;
    let mut i: usize = start + 1;
    assert(section.skip(0) =~= section);
    while i < end && ssid.is_none()
        invariant
            all == texts(ls@),
            start + 1 <= i <= end <= ls@.len(),
            section == all.subrange(start + 1, end as int),
            ssid is None ==> ssid_in(section) == ssid_in(section.skip(i - (start + 1))),
            ssid is Some ==> text_of(ssid) == ssid_in(section),
        decreases end - i,
    {
        let ghost k = i - (start + 1);
        assert(section.skip(k)[0] == ls@[i as int]@);
        assert(section.skip(k).drop_first() =~= section.skip(k + 1));
        let t = trimmed(&ls[i]);
        if t.len() > 0 {
            ssid = Some(string_of(&drop_colons(&t)));
        }
        i = i + 1;
    }
    if ssid.is_none() {
        assert(section.skip(section.len() as int).len() == 0);
    }
    assert(text_of(ssid) == ssid_in(section));
    let ghost name = text_of(ssid);
    let mut info = WifiInfo {
        ssid,
        rssi_dbm: None,
        noise_dbm: None,
        tx_rate: None,
        channel: None,
        phy_mode: None,
    };
    let mut j: usize = start + 1;
    while j < end
        invariant
            all == texts(ls@),
            start + 1 <= j <= end <= ls@.len(),
            section == all.subrange(start + 1, end as int),
            info@ == section_info(section.take(j - (start + 1)), name),
        decreases end - j,
    {
        let ghost k = j - (start + 1);
        assert(section.take(k + 1).drop_last() =~= section.take(k));
        assert(section.take(k + 1).last() == ls@[j as int]@);
        read_line(&mut info, &ls[j]);
        j = j + 1;
    }
    assert(section.take(section.len() as int) =~= section);
    Some(info)
}

/// The reading of a parsed link.
pub open spec fn is_link_reading(s: Sample, w: WifiModel) -> bool {
    s matches Sample::Link { rssi_dbm, noise_dbm, tx_rate, ssid } && rssi_dbm == w.rssi_dbm
        && noise_dbm == w.noise_dbm && tx_rate == w.tx_rate && text_of(ssid) == w.ssid
}

/// Reads the wireless link from the profiler's output.
pub struct WifiProbe;

impl WifiProbe {
    /// The readings that one run of the profiler yields: none where it could not be run or
    /// there is no current network.
    pub fn samples(&self, output: Option<&str>) -> (v: Vec<Sample>)
        ensures
            match output {
                Some(text) => match airport(text@) {
                    Some(w) => v@.len() == 1 && is_link_reading(v@[0], w),
                    None => v@.len() == 0,
                },
                None => v@.len() == 0,
            },
    {
        let mut v: Vec<Sample> = Vec::new();
        match output {
            Some(text) => match parse_airport(text) {
                Some(w) => v.push(
                    Sample::Link {
                        rssi_dbm: w.rssi_dbm,
                        noise_dbm: w.noise_dbm,
                        tx_rate: w.tx_rate,
                        ssid: w.ssid,
                    },
                ),
                None => {},
            },
            None => {},
        }
        v
    }
}

// ---------------------------------------------------------------------------------------
// Laws
// ---------------------------------------------------------------------------------------

/// Of the whole output only the current network counts: what stands before its heading and
/// from the heading of the other networks on, says nothing; and without the heading there is
/// no network.
pub proof fn law_only_the_current_network_counts(
    before: Seq<Seq<char>>,
    heading: Seq<char>,
    section: Seq<Seq<char>>,
    others: Seq<char>,
    after: Seq<Seq<char>>,
)
    requires
        forall|i: int|
            0 <= i < before.len() ==> trim(#[trigger] before[i]) != "Current Network Information:"@,
        trim(heading) == "Current Network Information:"@,
        forall|i: int|
            0 <= i < section.len() ==> !has_prefix(
                trim(#[trigger] section[i]),
                "Other Local Wi-Fi Networks:"@,
            ),
        has_prefix(trim(others), "Other Local Wi-Fi Networks:"@),
    ensures
        current_section(before + seq![heading] + section + seq![others] + after) == Some(section),
        current_section(before + seq![heading] + section) == Some(section),
        current_section(before) is None,
{
    let head = "Current Network Information:"@;
    let stop = "Other Local Wi-Fi Networks:"@;
    let whole = before + seq![heading] + section + seq![others] + after;
    let open = before + seq![heading] + section;
    lemma_heading(before, heading, section + seq![others] + after, head);
    assert(whole =~= before + seq![heading] + (section + seq![others] + after));
    lemma_heading(before, heading, section, head);
    assert(whole.skip(before.len() as int + 1) =~= section + seq![others] + after);
    assert(open.skip(before.len() as int + 1) =~= section);
    lemma_stop(section, others, after, stop);
    assert((section + seq![others] + after).take(section.len() as int) =~= section);
    assert(section.take(section.len() as int) =~= section);
    lemma_no_heading(before, head);
}

proof fn lemma_heading(
    before: Seq<Seq<char>>,
    line: Seq<char>,
    after: Seq<Seq<char>>,
    heading: Seq<char>,
)
    requires
        forall|i: int| 0 <= i < before.len() ==> trim(#[trigger] before[i]) != heading,
        trim(line) == heading,
    ensures
        heading_at(before + seq![line] + after, heading) == before.len(),
    decreases before.len(),
{
    let all = before + seq![line] + after;
    if before.len() > 0 {
        assert(all[0] == before[0]);
        let rest = before.drop_first();
        assert(all.drop_first() =~= rest + seq![line] + after);
        assert forall|i: int| 0 <= i < rest.len() implies trim(#[trigger] rest[i]) != heading by {
            assert(rest[i] == before[i + 1]);
        }
        lemma_heading(rest, line, after, heading);
    } else {
        assert(all[0] == line);
    }
}

proof fn lemma_no_heading(ls: Seq<Seq<char>>, heading: Seq<char>)
    requires
        forall|i: int| 0 <= i < ls.len() ==> trim(#[trigger] ls[i]) != heading,
    ensures
        heading_at(ls, heading) == ls.len(),
    decreases ls.len(),
{
    if ls.len() > 0 {
        let rest = ls.drop_first();
        assert forall|i: int| 0 <= i < rest.len() implies trim(#[trigger] rest[i]) != heading by {
            assert(rest[i] == ls[i + 1]);
        }
        lemma_no_heading(rest, heading);
    }
}

proof fn lemma_stop(
    section: Seq<Seq<char>>,
    line: Seq<char>,
    after: Seq<Seq<char>>,
    stop: Seq<char>,
)
    requires
        forall|i: int| 0 <= i < section.len() ==> !has_prefix(trim(#[trigger] section[i]), stop),
        has_prefix(trim(line), stop),
    ensures
        heading_prefix_at(section + seq![line] + after, stop) == section.len(),
        heading_prefix_at(section, stop) == section.len(),
    decreases section.len(),
{
    let all = section + seq![line] + after;
    if section.len() > 0 {
        assert(all[0] == section[0]);
        let rest = section.drop_first();
        assert(all.drop_first() =~= rest + seq![line] + after);
        assert forall|i: int| 0 <= i < rest.len() implies !has_prefix(
            trim(#[trigger] rest[i]),
            stop,
        ) by {
            assert(rest[i] == section[i + 1]);
        }
        lemma_stop(rest, line, after, stop);
    } else {
        assert(all[0] == line);
    }
}

/// The network's name is its first line that is not blank, without the colon behind it.
pub proof fn law_the_first_line_names_the_network(
    blanks: Seq<Seq<char>>,
    indent: Seq<char>,
    name: Seq<char>,
    rest: Seq<Seq<char>>,
)
    requires
        forall|i: int| 0 <= i < blanks.len() ==> trim(#[trigger] blanks[i]).len() == 0,
        blank(indent),
        name.len() > 0,
        !is_space(name[0]),
        name.last() != ':',
    ensures
        ssid_in(blanks + seq![indent + name.push(':')] + rest) == Some(name),
        ssid_in(blanks) is None,
    decreases blanks.len(),
{
    let line = indent + name.push(':');
    let all = blanks + seq![line] + rest;
    if blanks.len() > 0 {
        assert(all[0] == blanks[0]);
        let tail = blanks.drop_first();
        assert(all.drop_first() =~= tail + seq![line] + rest);
        assert forall|i: int| 0 <= i < tail.len() implies trim(#[trigger] tail[i]).len() == 0 by {
            assert(tail[i] == blanks[i + 1]);
        }
        law_the_first_line_names_the_network(tail, indent, name, rest);
    } else {
        let none = Seq::<char>::empty();
        assert(all[0] == line);
        assert(line + none =~= line);
        law_trimming_takes_off_the_white_space_round(indent, name.push(':'), none);
        assert(name.push(':').drop_last() =~= name);
        assert(without_colons(name) == name);
    }
}

/// What a line of the section says: the signal line gives the signal and the noise, the
/// number before the slash and the one behind it; the rate, channel and mode lines give what
/// stands behind their colon; and each leaves alone what it does not speak of.
pub proof fn law_a_line_says_what_its_key_names(
    info: WifiModel,
    indent: Seq<char>,
    signal: Seq<char>,
    noise: Seq<char>,
    gap: Seq<char>,
    value: Seq<char>,
)
    requires
        blank(indent),
        blank(gap),
        !signal.contains('/') && !noise.contains('/'),
        words(signal).len() > 0 && read_number(words(signal)[0]) is Some,
        words(noise).len() > 0 && read_number(words(noise)[0]) is Some,
        noise.len() > 0 && !is_space(noise.last()),
        value.len() > 0 && !is_space(value[0]) && !is_space(value.last()),
    ensures
        with_line(info, indent + ("Signal / Noise:"@ + (signal + seq!['/'] + noise))) == (
        WifiModel {
            rssi_dbm: read_number(words(signal)[0]),
            noise_dbm: read_number(words(noise)[0]),
            ..info
        }),
        with_line(info, indent + ("Transmit Rate:"@ + (gap + value))) == (WifiModel {
            tx_rate: read_number(value),
            ..info
        }),
        with_line(info, indent + ("Channel:"@ + (gap + value))) == (WifiModel {
            channel: Some(value),
            ..info
        }),
        with_line(info, indent + ("PHY Mode:"@ + (gap + value))) == (WifiModel {
            phy_mode: Some(value),
            ..info
        }),
{
    reveal_strlit("Signal / Noise:");
    reveal_strlit("Transmit Rate:");
    reveal_strlit("Channel:");
    reveal_strlit("PHY Mode:");
    let none = Seq::<char>::empty();
    let pair = signal + seq!['/'] + noise;
    lemma_line("Signal / Noise:"@, indent, pair);
    lemma_line("Transmit Rate:"@, indent, gap + value);
    lemma_line("Channel:"@, indent, gap + value);
    lemma_line("PHY Mode:"@, indent, gap + value);
    assert(gap + value + none =~= gap + value);
    law_trimming_takes_off_the_white_space_round(gap, value, none);
    law_splitting_undoes_joining(signal, '/', noise);
    law_splitting_undoes_joining(noise, '/', none);
    let parts = seq![signal] + seq![noise];
    assert(parts =~= seq![signal, noise]);
    lemma_two_numbers(signal, noise);
    let t = "Transmit Rate:"@ + (gap + value);
    law_a_prefix_and_what_follows("Signal / Noise:"@, none, t, 0);
    let c = "Channel:"@ + (gap + value);
    law_a_prefix_and_what_follows("Signal / Noise:"@, none, c, 0);
    law_a_prefix_and_what_follows("Transmit Rate:"@, none, c, 0);
    let p = "PHY Mode:"@ + (gap + value);
    law_a_prefix_and_what_follows("Signal / Noise:"@, none, p, 0);
    law_a_prefix_and_what_follows("Transmit Rate:"@, none, p, 0);
    law_a_prefix_and_what_follows("Channel:"@, none, p, 0);
}

proof fn lemma_line(key: Seq<char>, indent: Seq<char>, rest: Seq<char>)
    requires
        blank(indent),
        key.len() > 0,
        !is_space(key[0]),
        rest.len() > 0,
        !is_space(rest.last()),
    ensures
        trim(indent + (key + rest)) == key + rest,
        after_prefix(key + rest, key) == Some(rest),
{
    let none = Seq::<char>::empty();
    let text = key + rest;
    assert(text[0] == key[0]);
    assert(text.last() == rest.last());
    assert(indent + text + none =~= indent + text);
    law_trimming_takes_off_the_white_space_round(indent, text, none);
    law_a_prefix_and_what_follows(key, rest, rest, 0);
}

proof fn lemma_two_numbers(a: Seq<char>, b: Seq<char>)
    requires
        words(a).len() > 0 && read_number(words(a)[0]) is Some,
        words(b).len() > 0 && read_number(words(b)[0]) is Some,
    ensures
        leading_numbers(seq![a, b]) == seq![
            read_number(words(a)[0])->0,
            read_number(words(b)[0])->0,
        ],
{
    let parts = seq![a, b];
    assert(parts.drop_last() =~= seq![a]);
    assert(seq![a].drop_last() =~= Seq::<Seq<char>>::empty());
    assert(leading_numbers(Seq::<Seq<char>>::empty()) =~= Seq::<Reading>::empty());
    assert(leading_numbers(seq![a]) =~= seq![read_number(words(a)[0])->0]);
    assert(leading_numbers(parts) =~= seq![
        read_number(words(a)[0])->0,
        read_number(words(b)[0])->0,
    ]);
}

/// The lines of the section are read in order, a later one over an earlier one, and a section
/// of no lines says nothing but the name.
pub proof fn law_lines_are_read_in_order(
    section: Seq<Seq<char>>,
    line: Seq<char>,
    ssid: Option<Seq<char>>,
)
    ensures
        section_info(section.push(line), ssid) == with_line(section_info(section, ssid), line),
        section_info(Seq::empty(), ssid) == (WifiModel {
            ssid,
            rssi_dbm: None,
            noise_dbm: None,
            tx_rate: None,
            channel: None,
            phy_mode: None,
        }),
        section_info(section, ssid).ssid == ssid,
    decreases section.len(),
{
    assert(section.push(line).drop_last() =~= section);
    if section.len() > 0 {
        law_lines_are_read_in_order(section.drop_last(), line, ssid);
    }
}

/// The reading of a link carries what was parsed of it, each in its place.
pub proof fn law_a_reading_carries_what_was_parsed(
    w: WifiModel,
    rssi_dbm: Option<Reading>,
    noise_dbm: Option<Reading>,
    tx_rate: Option<Reading>,
    ssid: Option<String>,
)
    ensures
        is_link_reading(Sample::Link { rssi_dbm, noise_dbm, tx_rate, ssid }, w) <==> (w.rssi_dbm
            == rssi_dbm && w.noise_dbm == noise_dbm && w.tx_rate == tx_rate && w.ssid == text_of(
            ssid,
        )),
{
}

} // verus!
