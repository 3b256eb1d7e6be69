//! Dashboard panels.
//!
//! Each panel is a function from the state, and the room there is for it, to what it shows.

use vstd::prelude::*;

use crate::diagnosis::join;
use crate::format::{
    fixed0, left_aligned, push_fixed0, push_left_aligned, push_right_aligned, right_aligned,
};
use crate::ruleset::push_joined;
use crate::text::strings;
use crate::ui::charts::{
    chart_bounds, highest, last_index, law_traces_fit_their_axes, lemma_floor, longest, traces,
    Chart, ChartModel, LineSeries, Trace,
};
use crate::units::Reading;

pub mod feed;
pub mod flow;
pub mod names;
pub mod overlays;
pub mod path;
pub mod pings;
pub mod radio;
pub mod status;
pub mod transports;
pub use self::feed::{clock_text, events};
pub use self::flow::{human_rate, throughput};
pub use self::names::dns;
pub use self::overlays::{footer, help_overlay, theme_picker_overlay, Overlay};
pub use self::path::{hop_bar, routing, truncate};
pub use self::pings::{latency, loss};
pub use self::radio::{link, wifi_signal};
pub use self::status::{availability, diagnosis, header};
pub use self::transports::transport;

verus! {

/// A reading that may be missing, as text without decimals; zero where it is.
pub open spec fn or_zero(v: Option<Reading>) -> int {
    match v {
        Some(x) => x as int,
        None => 0,
    }
}

/// A reading that may be missing; zero where it is.
pub fn value_or_zero(v: Option<Reading>) -> (r: Reading)
    ensures
        r == or_zero(v),
{
    match v {
        Some(x) => x,
        None => 0,
    }
}

/// A reading without decimals, as text.
pub fn whole(v: Reading) -> (s: String)
    ensures
        s@ == fixed0(v as int),
{
    let mut s = String::new();
    push_fixed0(&mut s, v);
    assert(s@ =~= fixed0(v as int));
    s
}

/// `t`, left-aligned.
pub fn left(t: &str, width: usize) -> (s: String)
    ensures
        s@ == left_aligned(t@, width as int),
{
    let mut s = String::new();
    push_left_aligned(&mut s, t, width);
    assert(s@ =~= left_aligned(t@, width as int));
    s
}

/// `t`, right-aligned.
pub fn right(t: &str, width: usize) -> (s: String)
    ensures
        s@ == right_aligned(t@, width as int),
{
    let mut s = String::new();
    push_right_aligned(&mut s, t, width);
    assert(s@ =~= right_aligned(t@, width as int));
    s
}

/// The parts in one line, `sep` between them.
pub fn joined(parts: &Vec<String>, sep: &str) -> (s: String)
    ensures
        s@ == join(strings(parts@), sep@),
{
    let mut s = String::new();
    push_joined(&mut s, parts, sep);
    assert(s@ =~= join(strings(parts@), sep@));
    s
}

/// `before`, a reading without decimals, `after`.
pub fn around(before: &str, v: Reading, after: &str) -> (s: String)
    ensures
        s@ == before@ + fixed0(v as int) + after@,
{
    let mut s = before.to_owned();
    push_fixed0(&mut s, v);
    s.append(after);
    s
}

/// Append a reading without decimals, right-aligned.
pub fn push_whole_right(s: &mut String, v: Reading, width: usize)
    ensures
        final(s)@ == old(s)@ + right_aligned(fixed0(v as int), width as int),
{
    let t = whole(v);
    push_right_aligned(s, t.as_str(), width);
}

/// A chart from zero up to the highest point, and at least up to `floor`.
pub open spec fn zero_based(s: Seq<Trace>, floor: Reading, unit: Seq<char>) -> ChartModel {
    ChartModel {
        series: s,
        x_max: last_index(s),
        y_min: 0,
        y_max: highest(s, floor),
        bottom: "0"@,
        top: fixed0(highest(s, floor) as int) + unit,
    }
}

/// A chart from zero up to the highest point, and at least up to `floor`.
pub fn zero_based_chart(series: Vec<LineSeries>, floor: Reading, unit: &str) -> (c: Chart)
    ensures
        c@ == zero_based(traces(series@), floor, unit@),
{
    let (x_max, y_max) = chart_bounds(&series, floor);
    let mut top = whole(y_max);
    top.append(unit);
    Chart { series, x_max, y_min: 0, y_max, bottom: "0".to_owned(), top }
}

/// A chart from zero up has its traces, the index of the longest one's last reading at its
/// right end, and its top at the highest reading or the floor, with that as its label.
pub proof fn law_a_zero_based_chart_reaches_its_highest_reading(
    s: Seq<Trace>,
    floor: Reading,
    unit: Seq<char>,
    i: int,
)
    requires
        0 <= i < s.len(),
        longest(s) <= usize::MAX,
    ensures
        ({
            let c = zero_based(s, floor, unit);
            &&& c.series == s
            &&& c.y_min == 0 && c.bottom == "0"@
            &&& c.y_max >= floor
            &&& s[i].points.len() > 0 ==> s[i].points.len() <= c.x_max + 1 && c.y_max
                >= s[i].points[0].y
            &&& c.top == fixed0(c.y_max as int) + unit
        }),
{
    if s[i].points.len() > 0 {
        law_traces_fit_their_axes(s, floor, i, 0);
        law_traces_fit_their_axes(s, floor, i, s[i].points.len() - 1);
    } else {
        lemma_floor(s, floor);
    }
}

/// What is not known counts as nought, and what is known as it is.
pub proof fn law_unknown_counts_as_nought(v: Reading)
    ensures
        or_zero(Some(v)) == v,
        or_zero(None) == 0,
{
}

} // verus!
