//! Line charts: the traces of a chart, its axes and the labels on them.

use vstd::prelude::*;

use crate::ui::theme::Color;
use crate::units::{clamped, Reading};

verus! {

/// One point of a trace: a sample index and the reading there.
#[derive(Debug, Clone, Copy, PartialEq, Eq, Structural)]
pub struct Point {
    pub x: usize,
    pub y: Reading,
}

/// One named, colored line of a chart.
#[derive(Debug, PartialEq, Eq)]
pub struct LineSeries {
    pub name: String,
    pub color: Color,
    pub points: Vec<Point>,
}

/// What a [`LineSeries`] shows.
#[verifier::ext_equal]
pub ghost struct Trace {
    pub name: Seq<char>,
    pub color: Color,
    pub points: Seq<Point>,
}

impl View for LineSeries {
    type V = Trace;

    open spec fn view(&self) -> Trace {
        Trace { name: self.name@, color: self.color, points: self.points@ }
    }
}

/// What the series of a list show.
pub open spec fn traces(v: Seq<LineSeries>) -> Seq<Trace> {
    Seq::new(v.len(), |i: int| v[i]@)
}

/// A trace of readings, the sample index as the x coordinate.
pub open spec fn plotted(name: Seq<char>, color: Color, values: Seq<Reading>) -> Trace {
    Trace {
        name,
        color,
        points: Seq::new(values.len(), |i: int| Point { x: i as usize, y: values[i] }),
    }
}

/// The right end of an x axis: never left of one.
pub open spec fn axis_end(x_max: usize) -> usize {
    if x_max > 1 {
        x_max
    } else {
        1
    }
}

/// The right end of an x axis: never left of one.
pub fn end_of_axis(x_max: usize) -> (x: usize)
    ensures
        x == axis_end(x_max),
{
    if x_max > 1 {
        x_max
    } else {
        1
    }
}

/// A flat line across the chart.
pub open spec fn band(color: Color, y: Reading, x_max: usize) -> Trace {
    Trace {
        name: Seq::empty(),
        color,
        points: seq![Point { x: 0, y }, Point { x: axis_end(x_max), y }],
    }
}

impl LineSeries {
    /// Build a series from readings, using the sample index as the x coordinate.
    pub fn from_values(name: &str, color: Color, values: &Vec<Reading>) -> (s: LineSeries)
        ensures
            s@ == plotted(name@, color, values@),
    {
        let n: usize = values.len();
        let mut points: Vec<Point> = Vec::new();
        for i in 0..n
            invariant
                n == values@.len(),
                points@ == plotted(name@, color, values@).points.take(i as int),
        {
            points.push(Point { x: i, y: values[i] });
            assert(points@ =~= plotted(name@, color, values@).points.take(i + 1));
        }
        let s = LineSeries { name: name.to_owned(), color, points };
        assert(s@ =~= plotted(name@, color, values@));
        s
    }

    /// A flat horizontal line at `y` spanning the chart: a threshold band. Deliberately
    /// unnamed: it is a scale marker, not a measurement, and naming it would put it in the
    /// panel's colour key alongside the real targets.
    pub fn reference(color: Color, y: Reading, x_max: usize) -> (s: LineSeries)
        ensures
            s@ == band(color, y, x_max),
    {
        let mut points: Vec<Point> = Vec::new();
        points.push(Point { x: 0, y });
        points.push(Point { x: end_of_axis(x_max), y });
        let s = LineSeries { name: String::new(), color, points };
        assert(s@ =~= band(color, y, x_max));
        s
    }
}

/// A line chart over `series`, x spanning `0..=x_max`, y from `y_min` to `y_max`.
pub struct Chart {
    pub series: Vec<LineSeries>,
    pub x_max: usize,
    pub y_min: Reading,
    pub y_max: Reading,
    /// The labels at the bottom and at the top of the y axis.
    pub bottom: String,
    pub top: String,
}

/// What a [`Chart`] shows.
#[verifier::ext_equal]
pub ghost struct ChartModel {
    pub series: Seq<Trace>,
    pub x_max: usize,
    pub y_min: Reading,
    pub y_max: Reading,
    pub bottom: Seq<char>,
    pub top: Seq<char>,
}

impl View for Chart {
    type V = ChartModel;

    open spec fn view(&self) -> ChartModel {
        ChartModel {
            series: traces(self.series@),
            x_max: self.x_max,
            y_min: self.y_min,
            y_max: self.y_max,
            bottom: self.bottom@,
            top: self.top@,
        }
    }
}

/// What the charts of a list show.
pub open spec fn charts(v: Seq<Chart>) -> Seq<ChartModel> {
    Seq::new(v.len(), |i: int| v[i]@)
}

/// Put a series at the end of a list.
pub fn push_series_line(v: &mut Vec<LineSeries>, s: LineSeries)
    ensures
        traces(final(v)@) == traces(old(v)@).push(s@),
{
    let ghost shown = s@;
    v.push(s);
    assert(traces(v@) =~= traces(old(v)@).push(shown));
}

/// Put a chart at the end of a list.
pub fn push_chart(v: &mut Vec<Chart>, c: Chart)
    ensures
        charts(final(v)@) == charts(old(v)@).push(c@),
{
    let ghost shown = c@;
    v.push(c);
    assert(charts(v@) =~= charts(old(v)@).push(shown));
}

// ---------------------------------------------------------------------------------------
// Axes
// ---------------------------------------------------------------------------------------

/// The greater of two readings.
pub open spec fn greater(a: Reading, b: Reading) -> Reading {
    if a > b {
        a
    } else {
        b
    }
}

/// The length of the longest trace.
pub open spec fn longest(s: Seq<Trace>) -> nat
    decreases s.len(),
{
    if s.len() == 0 {
        0
    } else {
        let before = longest(s.drop_last());
        if s.last().points.len() > before {
            s.last().points.len()
        } else {
            before
        }
    }
}

/// The last sample index of the longest trace.
pub open spec fn last_index(s: Seq<Trace>) -> usize {
    (if longest(s) == 0 {
        0
    } else {
        longest(s) - 1
    }) as usize
}

/// The highest of `floor` and the points.
pub open spec fn highest_point(points: Seq<Point>, floor: Reading) -> Reading
    decreases points.len(),
{
    if points.len() == 0 {
        floor
    } else {
        greater(highest_point(points.drop_last(), floor), points.last().y)
    }
}

/// The lowest of `ceiling` and the points.
pub open spec fn lowest_point(points: Seq<Point>, ceiling: Reading) -> Reading
    decreases points.len(),
{
    if points.len() == 0 {
        ceiling
    } else {
        let before = lowest_point(points.drop_last(), ceiling);
        if points.last().y < before {
            points.last().y
        } else {
            before
        }
    }
}

/// The highest of `floor` and every point of every trace.
pub open spec fn highest(s: Seq<Trace>, floor: Reading) -> Reading
    decreases s.len(),
{
    if s.len() == 0 {
        floor
    } else {
        highest_point(s.last().points, highest(s.drop_last(), floor))
    }
}

/// The lowest of `ceiling` and every point of every trace.
pub open spec fn lowest(s: Seq<Trace>, ceiling: Reading) -> Reading
    decreases s.len(),
{
    if s.len() == 0 {
        ceiling
    } else {
        lowest_point(s.last().points, lowest(s.drop_last(), ceiling))
    }
}

fn highest_of_points(points: &Vec<Point>, floor: Reading) -> (y: Reading)
    ensures
        y == highest_point(points@, floor),
{
    let n: usize = points.len();
    let mut y: Reading = floor;
    for i in 0..n
        invariant
            n == points@.len(),
            y == highest_point(points@.take(i as int), floor),
    {
        assert(points@.take(i + 1).drop_last() =~= points@.take(i as int));
        if points[i].y > y {
            y = points[i].y;
        }
    }
    assert(points@.take(n as int) =~= points@);
    y
}

fn lowest_of_points(points: &Vec<Point>, ceiling: Reading) -> (y: Reading)
    ensures
        y == lowest_point(points@, ceiling),
{
    let n: usize = points.len();
    let mut y: Reading = ceiling;
    for i in 0..n
        invariant
            n == points@.len(),
            y == lowest_point(points@.take(i as int), ceiling),
    {
        assert(points@.take(i + 1).drop_last() =~= points@.take(i as int));
        if points[i].y < y {
            y = points[i].y;
        }
    }
    assert(points@.take(n as int) =~= points@);
    y
}

/// Compute `(x_max, y_max)` for a set of series, with `y_max` never below `y_floor`.
pub fn chart_bounds(series: &Vec<LineSeries>, y_floor: Reading) -> (r: (usize, Reading))
    ensures
        r == (last_index(traces(series@)), highest(traces(series@), y_floor)),
{
    let ghost all = traces(series@);
    let n: usize = series.len();
    let mut len: usize = 0;
    let mut y: Reading = y_floor;
    assert(all.take(0) =~= Seq::empty());
    for i in 0..n
        invariant
            n == series@.len(),
            all == traces(series@),
            len == longest(all.take(i as int)),
            y == highest(all.take(i as int), y_floor),
    {
        assert(all.take(i + 1).drop_last() =~= all.take(i as int));
        assert(all.take(i + 1).last() == series@[i as int]@);
        if series[i].points.len() > len {
            len = series[i].points.len();
        }
        y = highest_of_points(&series[i].points, y);
    }
    assert(all.take(n as int) =~= all);
    let x: usize = if len == 0 {
        0
    } else {
        len - 1
    };
    (x, y)
}

/// Both ends of a y axis.
#[derive(Debug, Clone, Copy, PartialEq, Eq, Structural)]
pub struct Bounds {
    pub low: Reading,
    pub high: Reading,
}

/// The axis for readings that live away from zero: centered on them, with one unit of air
/// above and below, and at least `min_span` high without the air.
pub open spec fn span_around(low: int, high: int, min_span: int) -> Bounds {
    let spread = if high - low > min_span {
        high - low
    } else {
        min_span
    };
    Bounds {
        low: clamped((low + high - spread) / 2 - 1_000_000_000) as Reading,
        high: clamped((low + high + spread) / 2 + 1_000_000_000) as Reading,
    }
}

/// The y axis of series that live away from zero.
pub open spec fn axis_span(s: Seq<Trace>, min_span: Reading) -> Bounds {
    if longest(s) == 0 {
        Bounds { low: 0, high: min_span }
    } else {
        span_around(
            lowest(s, i64::MAX) as int,
            highest(s, i64::MIN) as int,
            min_span as int,
        )
    }
}

fn held(v: i128) -> (r: Reading)
    ensures
        r == clamped(v as int),
{
    if v > i64::MAX as i128 {
        i64::MAX
    } else if v < i64::MIN as i128 {
        i64::MIN
    } else {
        v as i64
    }
}

/// Compute the y axis for series that live away from zero: dBm readings sit in the -30..-100
/// band, where [`chart_bounds`]' zero-based axis would flatten every trace onto the top edge.
/// Widened to at least `min_span` so a steady signal isn't drawn as noise.
pub fn chart_span(series: &Vec<LineSeries>, min_span: Reading) -> (b: Bounds)
    ensures
        b == axis_span(traces(series@), min_span),
{
    let ghost all = traces(series@);
    let n: usize = series.len();
    let mut len: usize = 0;
    let mut low: Reading = i64::MAX;
    let mut high: Reading = i64::MIN;
    assert(all.take(0) =~= Seq::empty());
    for i in 0..n
        invariant
            n == series@.len(),
            all == traces(series@),
            len == longest(all.take(i as int)),
            low == lowest(all.take(i as int), i64::MAX),
            high == highest(all.take(i as int), i64::MIN),
    {
        assert(all.take(i + 1).drop_last() =~= all.take(i as int));
        assert(all.take(i + 1).last() == series@[i as int]@);
        if series[i].points.len() > len {
            len = series[i].points.len();
        }
        low = lowest_of_points(&series[i].points, low);
        high = highest_of_points(&series[i].points, high);
    }
    assert(all.take(n as int) =~= all);
    if len == 0 {
        return Bounds { low: 0, high: min_span };
    }
    let sum: i128 = low as i128 + high as i128;
    let spread: i128 = if high as i128 - low as i128 > min_span as i128 {
        high as i128 - low as i128
    } else {
        min_span as i128
    };
    Bounds {
        low: held(crate::history::floor_div(sum - spread, 2) - 1_000_000_000),
        high: held(crate::history::floor_div(sum + spread, 2) + 1_000_000_000),
    }
}

proof fn lemma_highest_point(points: Seq<Point>, floor: Reading)
    ensures
        highest_point(points, floor) >= floor,
        forall|i: int| 0 <= i < points.len() ==> (#[trigger] points[i]).y <= highest_point(
            points,
            floor,
        ),
    decreases points.len(),
{
    if points.len() > 0 {
        lemma_highest_point(points.drop_last(), floor);
        assert forall|i: int| 0 <= i < points.len() implies (#[trigger] points[i]).y
            <= highest_point(points, floor) by {
            if i < points.len() - 1 {
                assert(points.drop_last()[i] == points[i]);
            }
        }
    }
}

/// Every point of every trace lies on the chart: at or below the top of the axis, which is
/// never below the floor, and at or left of its right end where the trace starts at index
/// zero.
pub proof fn law_traces_fit_their_axes(s: Seq<Trace>, floor: Reading, i: int, j: int)
    requires
        0 <= i < s.len(),
        0 <= j < s[i].points.len(),
    ensures
        floor <= highest(s, floor),
        s[i].points[j].y <= highest(s, floor),
        j < longest(s),
    decreases s.len(),
{
    let last = s.last();
    lemma_highest_point(last.points, highest(s.drop_last(), floor));
    if i < s.len() - 1 {
        assert(s.drop_last()[i] == s[i]);
        law_traces_fit_their_axes(s.drop_last(), floor, i, j);
    } else {
        lemma_floor(s.drop_last(), floor);
    }
}

pub proof fn lemma_floor(s: Seq<Trace>, floor: Reading)
    ensures
        floor <= highest(s, floor),
    decreases s.len(),
{
    if s.len() > 0 {
        lemma_floor(s.drop_last(), floor);
        lemma_highest_point(s.last().points, highest(s.drop_last(), floor));
    }
}

/// A trace has one point per reading, at its index, and a flat line runs from the left end of
/// the axis to its right end.
pub proof fn law_traces_plot_every_reading(
    name: Seq<char>,
    color: Color,
    values: Seq<Reading>,
    i: int,
    y: Reading,
    x_max: usize,
)
    requires
        values.len() <= usize::MAX,
        0 <= i < values.len(),
    ensures
        plotted(name, color, values).points.len() == values.len(),
        plotted(name, color, values).points[i].x == i,
        plotted(name, color, values).points[i].y == values[i],
        plotted(name, color, values).name == name && plotted(name, color, values).color == color,
        ({
            let b = band(color, y, x_max);
            &&& b.points.len() == 2
            &&& b.points[0] == (Point { x: 0, y })
            &&& b.points[1].y == y && b.points[1].x >= x_max && b.points[1].x >= 1
            &&& x_max >= 1 ==> b.points[1].x == x_max
        }),
{
}

/// The top of an axis is the floor or a point, the bottom the ceiling or a point, and no point
/// lies above the one or below the other.
pub proof fn law_axes_end_at_a_point(s: Seq<Trace>, floor: Reading, ceiling: Reading)
    ensures
        highest(s, floor) == floor || exists|i: int, j: int|
            0 <= i < s.len() && 0 <= j < s[i].points.len() && (#[trigger] s[i].points[j]).y
                == highest(s, floor),
        lowest(s, ceiling) == ceiling || exists|i: int, j: int|
            0 <= i < s.len() && 0 <= j < s[i].points.len() && (#[trigger] s[i].points[j]).y
                == lowest(s, ceiling),
        lowest(s, ceiling) <= ceiling,
        forall|i: int, j: int|
            0 <= i < s.len() && 0 <= j < s[i].points.len() ==> lowest(s, ceiling) <= (
            #[trigger] s[i].points[j]).y,
    decreases s.len(),
{
    if s.len() > 0 {
        let init = s.drop_last();
        let n = s.len() - 1;
        law_axes_end_at_a_point(init, floor, ceiling);
        assert(s[n] == s.last());
        lemma_highest_is_a_point(s.last().points, highest(init, floor));
        lemma_lowest_is_a_point(s.last().points, lowest(init, ceiling));
        let h = highest(s, floor);
        if h != floor {
            if h == highest(init, floor) {
                let (a, b) = choose|a: int, b: int|
                    0 <= a < init.len() && 0 <= b < init[a].points.len() && (
                    #[trigger] init[a].points[b]).y == h;
                assert(s[a].points[b].y == h);
            } else {
                let b = choose|b: int|
                    0 <= b < s.last().points.len() && (#[trigger] s.last().points[b]).y == h;
                assert(s[n].points[b].y == h);
            }
        }
        let l = lowest(s, ceiling);
        if l != ceiling {
            if l == lowest(init, ceiling) {
                let (a, b) = choose|a: int, b: int|
                    0 <= a < init.len() && 0 <= b < init[a].points.len() && (
                    #[trigger] init[a].points[b]).y == l;
                assert(s[a].points[b].y == l);
            } else {
                let b = choose|b: int|
                    0 <= b < s.last().points.len() && (#[trigger] s.last().points[b]).y == l;
                assert(s[n].points[b].y == l);
            }
        }
        assert forall|i: int, j: int|
            0 <= i < s.len() && 0 <= j < s[i].points.len() implies l <= (
        #[trigger] s[i].points[j]).y by {
            if i < n {
                assert(init[i].points[j].y == s[i].points[j].y);
            } else {
                assert(s.last().points[j].y == s[i].points[j].y);
            }
        }
    }
}

proof fn lemma_highest_is_a_point(points: Seq<Point>, floor: Reading)
    ensures
        highest_point(points, floor) == floor || exists|j: int|
            0 <= j < points.len() && (#[trigger] points[j]).y == highest_point(points, floor),
    decreases points.len(),
{
    if points.len() > 0 {
        let init = points.drop_last();
        lemma_highest_is_a_point(init, floor);
        let h = highest_point(points, floor);
        if h != floor && h == highest_point(init, floor) {
            let j = choose|j: int| 0 <= j < init.len() && (#[trigger] init[j]).y == h;
            assert(points[j].y == h);
        } else if h != floor {
            assert(points[points.len() - 1].y == h);
        }
    }
}

proof fn lemma_lowest_is_a_point(points: Seq<Point>, ceiling: Reading)
    ensures
        lowest_point(points, ceiling) == ceiling || exists|j: int|
            0 <= j < points.len() && (#[trigger] points[j]).y == lowest_point(points, ceiling),
        lowest_point(points, ceiling) <= ceiling,
        forall|j: int|
            0 <= j < points.len() ==> lowest_point(points, ceiling) <= (#[trigger] points[j]).y,
    decreases points.len(),
{
    if points.len() > 0 {
        let init = points.drop_last();
        lemma_lowest_is_a_point(init, ceiling);
        let l = lowest_point(points, ceiling);
        if l != ceiling && l == lowest_point(init, ceiling) {
            let j = choose|j: int| 0 <= j < init.len() && (#[trigger] init[j]).y == l;
            assert(points[j].y == l);
        } else if l != ceiling {
            assert(points[points.len() - 1].y == l);
        }
        assert forall|j: int| 0 <= j < points.len() implies l <= (#[trigger] points[j]).y by {
            if j < init.len() {
                assert(init[j].y == points[j].y);
            }
        }
    }
}

/// The axis of readings away from zero leaves a whole unit of air above and below, is no
/// shorter than asked for, and has as much on either side, up to the rounding.
pub proof fn law_a_span_leaves_air(low: int, high: int, min_span: int)
    requires
        low <= high,
        0 <= min_span <= 1_000_000_000_000_000,
        -1_000_000_000_000_000 <= low,
        high <= 1_000_000_000_000_000,
    ensures
        ({
            let b = span_around(low, high, min_span);
            let below = low - b.low;
            let above = b.high - high;
            &&& below >= 1_000_000_000 && above >= 1_000_000_000
            &&& b.high - b.low >= min_span + 2_000_000_000 - 1
            &&& -1 <= below - above <= 1
            &&& high - low >= min_span ==> below == 1_000_000_000 && above == 1_000_000_000
        }),
{
}

} // verus!
