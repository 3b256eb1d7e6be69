//! The routing panel: the path and what each hop of it costs.

use vstd::prelude::*;

use crate::app::rollup::panel;
use crate::app::{AppModel, AppState};
use crate::config::ThresholdConfig;
use crate::format::{decimal, decimal_text, fixed0, left_aligned, push_decimal, right_aligned};
use crate::metrics::{hops, Hop, HopModel, MetricId};
use crate::text::{chars_of, same_text};
use crate::ui::panels::{around, left, right, whole};
use crate::ui::theme::{color_of, series_color_of, Palette, Style};
use crate::ui::view::{
    colored, health_frame, lines, metric_block, new_text_panel, plain, push_line, raw, styled,
    text_panel, Line, Panel, PanelModel, SpanModel,
};
use crate::units::Reading;

verus! {

// ---------------------------------------------------------------------------------------
// Bars
// ---------------------------------------------------------------------------------------

/// How many eighths of a cell a bar of `width` cells takes for `part` out of `whole`, to the
/// nearest eighth.
pub open spec fn eighths(part: Reading, whole: Reading, width: u16) -> nat {
    if part <= 0 || whole <= 0 {
        0
    } else {
        let held = if part > whole {
            whole
        } else {
            part
        };
        ((held * width * 16 + whole) / (2 * whole)) as nat
    }
}

/// A block that fills `n` eighths of a cell.
pub open spec fn partial_block(n: int) -> char {
    if n == 1 {
        '▏'
    } else if n == 2 {
        '▎'
    } else if n == 3 {
        '▍'
    } else if n == 4 {
        '▌'
    } else if n == 5 {
        '▋'
    } else if n == 6 {
        '▊'
    } else if n == 7 {
        '▉'
    } else {
        '█'
    }
}

/// A bar of `n` eighths: whole cells, then the rest. A reading too small for an eighth still
/// gets one, so that it is not mistaken for no reading.
pub open spec fn bar_of(n: nat, seen: bool) -> Seq<char> {
    let cells = Seq::new(n / 8, |i: int| '█');
    if n % 8 > 0 {
        cells.push(partial_block((n % 8) as int))
    } else if n == 0 && seen {
        seq![partial_block(1)]
    } else {
        cells
    }
}

/// The bar for `part` out of `whole`.
pub open spec fn bar(part: Reading, whole: Reading, width: u16) -> Seq<char> {
    bar_of(eighths(part, whole, width), part > 0 && whole > 0)
}

fn eighths_of(part: Reading, whole: Reading, width: u16) -> (n: u64)
    ensures
        n == eighths(part, whole, width),
        n <= 8 * width,
{
    if part <= 0 || whole <= 0 {
        return 0;
    }
    let held: Reading = if part > whole {
        whole
    } else {
        part
    };
    assert(0 <= held * width <= 0x7fff_ffff_ffff_ffff * 0xffff) by (nonlinear_arith)
        requires
            0 <= held <= 0x7fff_ffff_ffff_ffff,
            0 <= width <= 0xffff,
    ;
    let top: i128 = held as i128 * width as i128 * 16 + whole as i128;
    let n: i128 = top / (2 * whole as i128);
    proof {
        lemma_eighths(held as int, whole as int, width as int);
    }
    n as u64
}

proof fn lemma_eighths(held: int, whole: int, width: int)
    requires
        0 <= held <= whole,
        0 < whole,
        0 <= width,
    ensures
        0 <= (held * width * 16 + whole) / (2 * whole) <= 8 * width,
{
    assert(0 <= held * width <= whole * width) by (nonlinear_arith)
        requires
            0 <= held <= whole,
            0 <= width,
    ;
    let top = held * width * 16 + whole;
    assert(top / (2 * whole) <= 8 * width) by (nonlinear_arith)
        requires
            top <= whole * width * 16 + whole,
            0 < whole,
            0 <= width,
    ;
    assert(0 <= top / (2 * whole)) by (nonlinear_arith)
        requires
            0 <= top,
            0 < whole,
    ;
}

fn block_char(n: u64) -> (c: char)
    ensures
        c == partial_block(n as int),
{
    match n {
        1 => '▏',
        2 => '▎',
        3 => '▍',
        4 => '▌',
        5 => '▋',
        6 => '▊',
        7 => '▉',
        _ => '█',
    }
}

/// Eighth-resolution horizontal bar covering `part` out of `whole` in `width` cells.
///
/// Partial blocks matter here: hop RTTs on a LAN-to-WAN path routinely span two orders of
/// magnitude, and whole-cell rounding would collapse every near-hop to nothing, which reads
/// as "no measurement" rather than "fast".
pub fn hop_bar(part: Reading, whole: Reading, width: u16) -> (s: String)
    ensures
        s@ == bar(part, whole, width),
{
    let n: u64 = eighths_of(part, whole, width);
    let mut s = String::new();
    let full: u64 = n / 8;
    assert(s@ =~= Seq::new(0, |i: int| '█'));
    for i in 0..full
        invariant
            s@ == Seq::new(i as nat, |i: int| '█'),
    {
        s.push('█');
        assert(s@ =~= Seq::new((i + 1) as nat, |i: int| '█'));
    }
    if n % 8 > 0 {
        s.push(block_char(n % 8));
    } else if n == 0 && part > 0 && whole > 0 {
        s.push(block_char(1));
        assert(s@ =~= seq![partial_block(1)]);
    }
    s
}

/// A bar fits its width, and a real reading is never rounded away.
pub proof fn law_a_bar_fits_and_never_vanishes(part: Reading, whole: Reading, width: u16)
    requires
        width > 0,
    ensures
        bar(part, whole, width).len() <= width,
        part > 0 && whole > 0 ==> bar(part, whole, width).len() > 0,
        part <= 0 ==> bar(part, whole, width).len() == 0,
        part == whole && part > 0 ==> bar(part, whole, width) == Seq::new(
            width as nat,
            |i: int| '█',
        ),
{
    if part > 0 && whole > 0 {
        let held = if part > whole {
            whole as int
        } else {
            part as int
        };
        lemma_eighths(held, whole as int, width as int);
        if part == whole {
            assert((whole * width * 16 + whole) / (2 * whole) == 8 * width) by (nonlinear_arith)
                requires
                    whole > 0,
            ;
            assert(bar(part, whole, width) =~= Seq::new(width as nat, |i: int| '█'));
        }
    }
}

/// A slower hop never gets a shorter bar.
pub proof fn law_bars_grow_with_the_reading(a: Reading, b: Reading, whole: Reading, width: u16)
    requires
        a <= b,
    ensures
        eighths(a, whole, width) <= eighths(b, whole, width),
        bar(a, whole, width).len() <= bar(b, whole, width).len(),
{
    if a > 0 && whole > 0 {
        let x = if a > whole {
            whole as int
        } else {
            a as int
        };
        let y = if b > whole {
            whole as int
        } else {
            b as int
        };
        lemma_eighths(x, whole as int, width as int);
        lemma_eighths(y, whole as int, width as int);
        assert(x * width <= y * width) by (nonlinear_arith)
            requires
                x <= y,
                width >= 0,
        ;
        assert((x * width * 16 + whole) / (2 * whole as int) <= (y * width * 16 + whole) / (2
            * whole as int)) by (nonlinear_arith)
            requires
                x * width <= y * width,
                whole > 0,
        ;
    } else if b > 0 && whole > 0 {
        lemma_eighths(
            if b > whole {
                whole as int
            } else {
                b as int
            },
            whole as int,
            width as int,
        );
    }
}

// ---------------------------------------------------------------------------------------
// Addresses
// ---------------------------------------------------------------------------------------

/// `s` clipped to `max` characters.
pub open spec fn clipped(s: Seq<char>, max: nat) -> Seq<char> {
    if s.len() <= max {
        s
    } else {
        s.take(
            if max == 0 {
                0
            } else {
                max - 1
            },
        ).push('…')
    }
}

/// A clipped address fits and says that it was cut; one that fits is left as it is.
pub proof fn law_a_clipped_text_says_so(s: Seq<char>, max: nat)
    requires
        max > 0,
    ensures
        clipped(s, max).len() <= max,
        s.len() > max ==> clipped(s, max).last() == '…',
        s.len() <= max ==> clipped(s, max) == s,
{
}

/// Clip `s` to `max` characters, marking the cut so a truncated address is never mistaken
/// for a real one.
pub fn truncate(s: &str, max: usize) -> (t: String)
    ensures
        t@ == clipped(s@, max as nat),
{
    let all = chars_of(s);
    if all.len() <= max {
        return s.to_owned();
    }
    let keep: usize = if max == 0 {
        0
    } else {
        max - 1
    };
    let mut t = String::new();
    assert(t@ =~= all@.take(0));
    for i in 0..keep
        invariant
            keep <= all@.len(),
            t@ == all@.take(i as int),
    {
        t.push(all[i]);
        assert(t@ =~= all@.take(i + 1));
    }
    t.push('…');
    t
}

// ---------------------------------------------------------------------------------------
// The path
// ---------------------------------------------------------------------------------------

/// The time of the slowest hop, zero where none answered.
pub open spec fn slowest(d: Seq<HopModel>) -> Reading
    decreases d.len(),
{
    if d.len() == 0 {
        0
    } else {
        let before = slowest(d.drop_last());
        match d.last().min_rtt_ms {
            Some(ms) => if ms > before {
                ms
            } else {
                before
            },
            None => before,
        }
    }
}

/// The last hop that gave its address.
pub open spec fn last_answering(d: Seq<HopModel>) -> Option<int>
    decreases d.len(),
{
    if d.len() == 0 {
        None
    } else if d.last().addr != "*"@ {
        Some(d.len() - 1)
    } else {
        last_answering(d.drop_last())
    }
}

/// The time of the whole path, or where the path dies.
pub open spec fn path_info(reachable: bool, d: Seq<HopModel>) -> Seq<char> {
    if reachable {
        if d.len() == 0 {
            ""@
        } else {
            match d.last().min_rtt_ms {
                Some(ms) => "  "@ + fixed0(ms as int) + "ms"@,
                None => ""@,
            }
        }
    } else {
        match last_answering(d) {
            Some(i) => "  stops @ hop "@ + decimal((i + 1) as nat) + " ("@ + d[i].addr + ")"@,
            None => ""@,
        }
    }
}

/// Whether the path works, in words and color.
pub open spec fn path_status(p: Palette, reachable: bool, changed: bool) -> SpanModel {
    if !reachable {
        styled("unreachable"@, colored(p.crit))
    } else if changed {
        styled("route changed"@, colored(p.warn))
    } else {
        styled("stable"@, colored(p.ok))
    }
}

/// Cells left for the bars once the other fields of a hop's row have theirs.
pub open spec fn bar_width(width: u16) -> u16 {
    if width < 48 {
        4
    } else if width > 72 {
        28
    } else {
        (width - 44) as u16
    }
}

/// One hop of the profile. The last one is the destination, so its time and loss are judged;
/// on the way there they are only where the time accrues and where routers limit their own
/// replies.
pub open spec fn hop_row(
    p: Palette,
    cfg: ThresholdConfig,
    i: int,
    last: bool,
    worst: Reading,
    cells: u16,
    h: HopModel,
) -> Seq<SpanModel> {
    let index = styled(right_aligned(decimal((i + 1) as nat), 2) + " "@, colored(p.muted));
    match h.min_rtt_ms {
        None => seq![
            index,
            styled(left_aligned("*"@, 17) + " ·· no reply"@, colored(p.muted)),
        ],
        Some(rtt) => {
            let row = seq![
                index,
                raw(left_aligned(clipped(h.addr, 17), 17) + " "@),
                styled(
                    left_aligned(bar(rtt, worst, cells), cells as int),
                    colored(series_color_of(p, 0)),
                ),
                styled(
                    " "@ + right_aligned(fixed0(rtt as int), 5) + "ms"@,
                    if last {
                        colored(color_of(p, cfg.latency_internet.health_of(rtt as int)))
                    } else {
                        plain()
                    },
                ),
            ];
            if h.loss_pct > 0 {
                row.push(
                    styled(
                        "  !"@ + fixed0(h.loss_pct as int) + "%"@,
                        if last {
                            colored(color_of(p, cfg.loss.health_of(h.loss_pct as int)))
                        } else {
                            colored(p.muted)
                        },
                    ),
                )
            } else {
                row
            }
        },
    }
}

/// How many hops are shown in `rows` rows: all of them, or one less than there are rows, so
/// that the last row can say how many are missing.
pub open spec fn shown_hops(n: nat, rows: nat) -> nat {
    if n > rows {
        (rows - 1) as nat
    } else {
        n
    }
}

/// The profile: one row per hop shown, and what was left out.
pub open spec fn profile(m: AppModel, width: u16, rows: nat) -> Seq<Seq<SpanModel>> {
    let d = m.routing.detail;
    let shown = shown_hops(d.len(), rows);
    let hops_shown = Seq::new(
        shown,
        |i: int|
            hop_row(
                m.theme,
                m.config.thresholds,
                i,
                i == d.len() - 1,
                slowest(d),
                bar_width(width),
                d[i],
            ),
    );
    if shown < d.len() {
        hops_shown.push(
            seq![
                styled(
                    "   +"@ + decimal((d.len() - shown) as nat) + " more hops"@,
                    colored(m.theme.muted),
                ),
            ],
        )
    } else {
        hops_shown
    }
}

/// The two lines over the profile.
pub open spec fn path_summary(m: AppModel) -> Seq<Seq<SpanModel>> {
    let r = m.routing;
    seq![
        seq![raw("hops: "@ + decimal(r.hops as nat) + path_info(r.reachable, r.detail))],
        seq![raw("path: "@), path_status(m.theme, r.reachable, r.changed)],
    ]
}

/// The routing panel.
#[verifier::opaque]
pub open spec fn routing_panel(m: AppModel, width: u16, height: u16) -> PanelModel {
    let frame = health_frame("ROUTING & PATH"@, panel(m, MetricId::Routing), m.theme);
    if !m.routing.seen {
        text_panel(frame, height, seq![seq![styled("tracing…"@, colored(m.theme.muted))]])
    } else if height <= 2 || m.routing.detail.len() == 0 {
        text_panel(frame, height, path_summary(m))
    } else {
        text_panel(
            frame,
            height,
            path_summary(m) + profile(m, width, (height - 2) as nat),
        )
    }
}

fn slowest_hop(d: &Vec<Hop>) -> (w: Reading)
    ensures
        w == slowest(hops(d@)),
{
    let ghost all = hops(d@);
    let n: usize = d.len();
    let mut w: Reading = 0;
    assert(all.take(0) =~= Seq::empty());
    for i in 0..n
        invariant
            n == d@.len(),
            all == hops(d@),
            w == slowest(all.take(i as int)),
    {
        assert(all.take(i + 1).drop_last() =~= all.take(i as int));
        assert(all.take(i + 1).last() == d@[i as int]@);
        match d[i].min_rtt_ms {
            Some(ms) => {
                if ms > w {
                    w = ms;
                }
            },
            None => {},
        }
    }
    assert(all.take(n as int) =~= all);
    w
}

fn last_answering_hop(d: &Vec<Hop>) -> (r: Option<usize>)
    ensures
        match r {
            Some(i) => i < d@.len() && last_answering(hops(d@)) == Some(i as int),
            None => last_answering(hops(d@)) is None,
        },
{
    let ghost all = hops(d@);
    let mut i: usize = d.len();
    assert(all.take(i as int) =~= all);
    while i > 0
        invariant
            i <= d@.len(),
            all == hops(d@),
            last_answering(all) == last_answering(all.take(i as int)),
        decreases i,
    {
        assert(all.take(i as int).drop_last() =~= all.take(i - 1));
        assert(all.take(i as int).last() == d@[i - 1]@);
        i = i - 1;
        if !same_text(d[i].addr.as_str(), "*") {
            return Some(i);
        }
    }
    None
}

fn bar_cells(width: u16) -> (w: u16)
    ensures
        w == bar_width(width),
{
    if width < 48 {
        4
    } else if width > 72 {
        28
    } else {
        width - 44
    }
}

impl AppState {
    fn path_text(&self) -> (s: String)
        ensures
            s@ == "hops: "@ + decimal(self@.routing.hops as nat) + path_info(
                self@.routing.reachable,
                self@.routing.detail,
            ),
    {
        let r = &self.routing;
        let mut s = "hops: ".to_owned();
        push_decimal(&mut s, r.hops as u64);
        let info = if r.reachable {
            if r.detail.len() == 0 {
                "".to_owned()
            } else {
                match r.detail[r.detail.len() - 1].min_rtt_ms {
                    Some(ms) => around("  ", ms, "ms"),
                    None => "".to_owned(),
                }
            }
        } else {
            match last_answering_hop(&r.detail) {
                Some(i) => {
                    let mut t = "  stops @ hop ".to_owned();
                    assert(i < r.detail.len());
                    push_decimal(&mut t, i as u64 + 1);
                    t.append(" (");
                    t.append(r.detail[i].addr.as_str());
                    t.append(")");
                    t
                },
                None => "".to_owned(),
            }
        };
        s.append(info.as_str());
        s
    }

    fn hop_line(&self, i: usize, worst: Reading, cells: u16) -> (l: Line)
        requires
            i < self.routing.detail@.len(),
        ensures
            l@ == hop_row(
                self.theme@,
                self.config.thresholds,
                i as int,
                i == self.routing.detail@.len() - 1,
                worst,
                cells,
                self.routing.detail@[i as int]@,
            ),
    {
        let hop = &self.routing.detail[i];
        let last = i == self.routing.detail.len() - 1;
        let muted = Style::colored(self.theme.muted);
        let mut index = right(decimal_text(i as u64 + 1).as_str(), 2);
        index.append(" ");
        let mut l = Line::new();
        l.push(index, muted);
        match hop.min_rtt_ms {
            None => {
                let mut silent = left("*", 17);
                silent.append(" ·· no reply");
                l.push(silent, muted);
            },
            Some(rtt) => {
                let mut addr = left(truncate(hop.addr.as_str(), 17).as_str(), 17);
                addr.append(" ");
                l.push(addr, Style::plain());
                l.push(
                    left(hop_bar(rtt, worst, cells).as_str(), cells as usize),
                    Style::colored(self.theme.series_color(0)),
                );
                let mut time = " ".to_owned();
                time.append(right(whole(rtt).as_str(), 5).as_str());
                time.append("ms");
                // The final hop is the destination, so its RTT is the one worth judging
                // against the latency thresholds; intermediate hops are just where the time
                // accrues.
                let style = if last {
                    Style::colored(
                        self.theme.health_color(
                            self.config.thresholds.latency_internet.evaluate(rtt),
                        ),
                    )
                } else {
                    Style::plain()
                };
                l.push(time, style);
                if hop.loss_pct > 0 {
                    // Mid-path loss is usually the router rate-limiting its own TTL-exceeded
                    // replies, not dropped traffic: visible, but muted so it doesn't read as
                    // a fault. Loss at the final hop really is loss, so that one gets a
                    // health color.
                    let style = if last {
                        Style::colored(
                            self.theme.health_color(
                                self.config.thresholds.loss.evaluate(hop.loss_pct),
                            ),
                        )
                    } else {
                        muted
                    };
                    l.push(around("  !", hop.loss_pct, "%"), style);
                }
            },
        }
        l
    }

    fn push_profile(&self, shown: &mut Vec<Line>, width: u16, rows: usize)
        requires
            rows > 0,
        ensures
            lines(final(shown)@) == lines(old(shown)@) + profile(self@, width, rows as nat),
    {
        let ghost before = lines(shown@);
        let ghost d = self@.routing.detail;
        let ghost all = profile(self@, width, rows as nat);
        // Bars are relative to the slowest hop on this path, so the profile always uses its
        // full width: an absolute scale would flatten every LAN path into one column.
        let worst: Reading = slowest_hop(&self.routing.detail);
        let cells: u16 = bar_cells(width);
        let n: usize = self.routing.detail.len();
        // A path longer than the panel loses its *tail*, but the tail is the interesting
        // end, so say how many rows went missing rather than pretending the path ended here.
        let count: usize = if n > rows {
            rows - 1
        } else {
            n
        };
        assert(before + all.take(0) =~= before);
        for i in 0..count
            invariant
                count <= n,
                n == d.len(),
                n == self.routing.detail@.len(),
                d == self@.routing.detail,
                worst == slowest(d),
                cells == bar_width(width),
                count == shown_hops(d.len(), rows as nat),
                all == profile(self@, width, rows as nat),
                lines(shown@) == before + all.take(i as int),
        {
            let l = self.hop_line(i, worst, cells);
            assert(l@ == all[i as int]);
            push_line(shown, l);
            assert(lines(shown@) =~= before + all.take(i + 1));
        }
        if count < n {
            let mut more = "   +".to_owned();
            push_decimal(&mut more, (n - count) as u64);
            more.append(" more hops");
            let mut l = Line::new();
            l.push(more, Style::colored(self.theme.muted));
            assert(l@ =~= all[count as int]);
            push_line(shown, l);
        }
        assert(lines(shown@) =~= before + all);
    }
}

/// Routing panel: hop count, reachability, and a per-hop latency profile.
///
/// The profile is the payload: "8 hops, stable" says the path exists, but only the per-hop
/// bars say *which* hop the 90ms is coming from.
pub fn routing(state: &AppState, width: u16, height: u16) -> (p: Panel)
    ensures
        p@ == routing_panel(state@, width, height),
{
    reveal(routing_panel);
    let block = metric_block(
        "ROUTING & PATH",
        state.panel_health(MetricId::Routing),
        &state.theme,
    );
    let mut shown: Vec<Line> = Vec::new();
    assert(lines(shown@) =~= Seq::empty());
    if !state.routing.seen {
        push_line(
            &mut shown,
            Line::new().styled("tracing…", Style::colored(state.theme.muted)),
        );
        return new_text_panel(block, height, shown);
    }
    let mut count = Line::new();
    count.push(state.path_text(), Style::plain());
    assert(count@ == path_summary(state@)[0]);
    push_line(&mut shown, count);
    let status = Line::new().raw("path: ");
    let status = if !state.routing.reachable {
        status.styled("unreachable", Style::colored(state.theme.crit))
    } else if state.routing.changed {
        status.styled("route changed", Style::colored(state.theme.warn))
    } else {
        status.styled("stable", Style::colored(state.theme.ok))
    };
    assert(status@ == path_summary(state@)[1]);
    push_line(&mut shown, status);
    assert(lines(shown@) =~= path_summary(state@));
    if height > 2 && state.routing.detail.len() > 0 {
        state.push_profile(&mut shown, width, (height - 2) as usize);
    }
    new_text_panel(block, height, shown)
}

/// The slowest hop is one of the hops, and none is slower; without an answer it is nought.
pub proof fn law_the_slowest_hop_is_the_slowest(d: Seq<HopModel>)
    ensures
        slowest(d) >= 0,
        forall|i: int|
            0 <= i < d.len() && (#[trigger] d[i]).min_rtt_ms is Some ==> d[i].min_rtt_ms->0
                <= slowest(d),
        slowest(d) > 0 ==> exists|i: int|
            0 <= i < d.len() && (#[trigger] d[i]).min_rtt_ms == Some(slowest(d)),
    decreases d.len(),
{
    if d.len() > 0 {
        let init = d.drop_last();
        law_the_slowest_hop_is_the_slowest(init);
        let n = d.len() - 1;
        assert(d[n] == d.last());
        assert forall|i: int| 0 <= i < d.len() && (#[trigger] d[i]).min_rtt_ms is Some implies d[i].min_rtt_ms->0
            <= slowest(d) by {
            if i < n {
                assert(init[i].min_rtt_ms is Some);
            }
        }
        if slowest(d) > 0 && d[n].min_rtt_ms != Some(slowest(d)) {
            let k = choose|k: int|
                0 <= k < init.len() && (#[trigger] init[k]).min_rtt_ms == Some(slowest(init));
            assert(d[k] == init[k]);
        }
    }
}

/// A path dies at the last hop that gave its address, and nowhere where none did.
pub proof fn law_a_path_dies_at_the_last_answer(d: Seq<HopModel>)
    ensures
        last_answering(d) is None <==> forall|i: int|
            0 <= i < d.len() ==> (#[trigger] d[i]).addr == "*"@,
        last_answering(d) matches Some(k) ==> {
            &&& 0 <= k < d.len()
            &&& d[k].addr != "*"@
            &&& forall|i: int| k < i < d.len() ==> (#[trigger] d[i]).addr == "*"@
            &&& path_info(false, d) == "  stops @ hop "@ + decimal((k + 1) as nat) + " ("@
                + d[k].addr + ")"@
        },
    decreases d.len(),
{
    if d.len() > 0 {
        let init = d.drop_last();
        law_a_path_dies_at_the_last_answer(init);
        let n = d.len() - 1;
        assert(d[n] == d.last());
        if d.last().addr == "*"@ {
            assert forall|i: int| 0 <= i < n implies #[trigger] d[i] == init[i] by {}
            if last_answering(init) is None {
                assert forall|i: int| 0 <= i < d.len() implies (#[trigger] d[i]).addr == "*"@ by {
                    if i < n {
                        assert(init[i].addr == "*"@);
                    }
                }
            } else {
                let k = last_answering(init)->0;
                assert(d[k].addr != "*"@);
                assert forall|i: int| k < i < d.len() implies (#[trigger] d[i]).addr == "*"@ by {
                    if i < n {
                        assert(init[i].addr == "*"@);
                    }
                }
            }
        }
    }
}

/// A path that works is timed by its destination, the last hop.
pub proof fn law_a_working_path_is_timed_by_its_end(d: Seq<HopModel>)
    requires
        d.len() > 0,
    ensures
        d.last().min_rtt_ms matches Some(ms) ==> path_info(true, d) == "  "@ + fixed0(ms as int)
            + "ms"@,
        d.last().min_rtt_ms is None ==> path_info(true, d) == ""@,
{
}

/// A path is unreachable, changed or stable, in the colors of what is critical, worth a
/// warning, and fine.
pub proof fn law_a_path_is_named_by_its_state(p: Palette, reachable: bool, changed: bool)
    ensures
        ({
            let s = path_status(p, reachable, changed);
            &&& !reachable ==> s.text == "unreachable"@ && s.style == colored(p.crit)
            &&& reachable && changed ==> s.text == "route changed"@ && s.style == colored(p.warn)
            &&& reachable && !changed ==> s.text == "stable"@ && s.style == colored(p.ok)
        }),
{
}

/// A bar is as long as its share of the width, to the nearest eighth of a cell.
pub proof fn law_a_bar_is_its_share_of_the_width(part: Reading, whole: Reading, width: u16)
    requires
        0 < part <= whole,
    ensures
        ({
            let n = eighths(part, whole, width);
            &&& 2 * (n * whole) <= 16 * (part * width) + whole
            &&& 16 * (part * width) + whole < 2 * (n * whole) + 2 * whole
        }),
{
    let a = part * width * 16 + whole;
    let d = 2 * whole;
    assert(part * width >= 0) by (nonlinear_arith)
        requires
            part > 0,
    ;
    vstd::arithmetic::div_mod::lemma_fundamental_div_mod(a as int, d as int);
    vstd::arithmetic::div_mod::lemma_mod_bound(a as int, d as int);
    let q = a as int / d as int;
    assert(q >= 0) by {
        vstd::arithmetic::div_mod::lemma_div_pos_is_pos(a as int, d as int);
    }
    assert(d * q == 2 * (q * whole)) by (nonlinear_arith)
        requires
            d == 2 * whole,
    ;
    assert(part * width * 16 == 16 * (part * width));
}

/// Every cell of a bar is full but the last, which fills the eighths that are left.
pub proof fn law_only_the_last_cell_is_partial(n: nat, seen: bool, i: int)
    ensures
        0 <= i < n / 8 ==> bar_of(n, seen)[i] == '█',
        n % 8 > 0 ==> bar_of(n, seen).len() == n / 8 + 1 && bar_of(n, seen).last()
            == partial_block((n % 8) as int),
        n % 8 == 0 && n > 0 ==> bar_of(n, seen).len() == n / 8,
        n == 0 && !seen ==> bar_of(n, seen).len() == 0,
        n == 0 && seen ==> bar_of(n, seen) == seq!['▏'],
        1 <= n <= 8 ==> partial_block(n as int) as int == '█' as int + (8 - n),
{
}

/// A clipped text keeps its beginning.
pub proof fn law_a_clipped_text_keeps_its_beginning(s: Seq<char>, max: nat, i: int)
    requires
        max > 0,
        s.len() > max,
        0 <= i < max - 1,
    ensures
        clipped(s, max).len() == max,
        clipped(s, max)[i] == s[i],
{
}

/// Bars take what the other fields leave, and no less than four cells nor more than
/// twenty-eight.
pub proof fn law_bars_take_what_is_left(width: u16)
    ensures
        4 <= bar_width(width) <= 28,
        48 <= width <= 72 ==> bar_width(width) + 44 == width,
        width < 48 ==> bar_width(width) == 4,
        width > 72 ==> bar_width(width) == 28,
{
}

/// What a hop's row says: its number, counted from one, its address, its time and, where
/// probes were lost, the loss. Only the destination is judged.
#[verifier::spinoff_prover]
pub proof fn law_only_the_destination_is_judged(
    p: Palette,
    cfg: ThresholdConfig,
    i: int,
    last: bool,
    worst: Reading,
    cells: u16,
    h: HopModel,
)
    requires
        i >= 0,
    ensures
        ({
            let row = hop_row(p, cfg, i, last, worst, cells, h);
            &&& row[0].text == right_aligned(decimal((i + 1) as nat), 2) + " "@
            &&& h.min_rtt_ms is None ==> row.len() == 2 && row[1].style == colored(p.muted)
                && row[1].text == left_aligned("*"@, 17) + " ·· no reply"@
            &&& h.min_rtt_ms matches Some(rtt) ==> {
                &&& row.len() == (if h.loss_pct > 0 {
                    5int
                } else {
                    4
                })
                &&& row[1].text == left_aligned(clipped(h.addr, 17), 17) + " "@
                &&& row[2].text == left_aligned(bar(rtt, worst, cells), cells as int)
                &&& row[3].text == " "@ + right_aligned(fixed0(rtt as int), 5) + "ms"@
                &&& !last ==> row[3].style == plain()
                &&& last ==> row[3].style == colored(
                    color_of(p, cfg.latency_internet.health_of(rtt as int)),
                )
                &&& h.loss_pct > 0 ==> row[4].text == "  !"@ + fixed0(h.loss_pct as int) + "%"@
                &&& h.loss_pct > 0 && !last ==> row[4].style == colored(p.muted)
                &&& h.loss_pct > 0 && last ==> row[4].style == colored(
                    color_of(p, cfg.loss.health_of(h.loss_pct as int)),
                )
            }
        }),
{
}

/// Every hop has its row where there are rows enough; where not, the last row says how many
/// hops it stands for.
pub proof fn law_hops_left_out_are_counted(m: AppModel, width: u16, rows: nat, i: int)
    requires
        rows > 0,
    ensures
        ({
            let d = m.routing.detail;
            let shown = profile(m, width, rows);
            &&& d.len() <= rows ==> shown.len() == d.len()
            &&& d.len() > rows ==> shown.len() == rows && shown.last()[0].text == "   +"@ + decimal(
                (d.len() - rows + 1) as nat,
            ) + " more hops"@
            &&& 0 <= i < d.len() && (d.len() <= rows || i < rows - 1) ==> shown[i] == hop_row(
                m.theme,
                m.config.thresholds,
                i,
                i == d.len() - 1,
                slowest(d),
                bar_width(width),
                d[i],
            )
        }),
{
}

/// The routing panel says that it is tracing until a path is known, and then the number of
/// hops and the state of the path, with the profile where there is room for it.
pub proof fn law_the_routing_panel_shows_the_path(m: AppModel, width: u16, height: u16)
    ensures
        ({
            let p = routing_panel(m, width, height);
            let r = m.routing;
            &&& !r.seen ==> p.lines.len() == 1 && p.lines[0][0].text == "tracing…"@
            &&& r.seen ==> p.lines.len() >= 2 && p.lines[0][0].text == "hops: "@ + decimal(
                r.hops as nat,
            ) + path_info(r.reachable, r.detail) && p.lines[1][1] == path_status(
                m.theme,
                r.reachable,
                r.changed,
            )
            &&& r.seen && height > 2 && r.detail.len() > 0 ==> p.lines.skip(2) == profile(
                m,
                width,
                (height - 2) as nat,
            )
            &&& r.seen && (height <= 2 || r.detail.len() == 0) ==> p.lines.len() == 2
        }),
{
    reveal(routing_panel);
    if m.routing.seen && height > 2 && m.routing.detail.len() > 0 {
        let p = routing_panel(m, width, height);
        assert(p.lines.skip(2) =~= profile(m, width, (height - 2) as nat));
    }
}

} // verus!
