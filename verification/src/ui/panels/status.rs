//! The panels at the top: the header, the diagnosis and the availability strip.

use vstd::prelude::*;

use crate::app::rollup::{minutes_in, overall, uptime};
use crate::app::state::Minute;
use crate::app::{AppModel, AppState};
use crate::diagnosis::{diagnose, diagnosed, layer_tag, verdicts, Diagnosis, Layer, Verdict};
use crate::format::{decimal, fixed1, push_decimal, push_fixed1, spaces};
use crate::health::Health;
use crate::projection::signals_of;

use crate::ui::panels::left;
use crate::ui::theme::{
    border_of, color_of, health_label, health_symbol, label_of, symbol_of, Palette, Style, Theme,
};
use crate::ui::view::{
    colored, health_frame, lines, metric_block, new_text_panel, push_line, raw, strong, styled,
    text_panel, Block, BlockModel, Line, Panel, PanelModel, SpanModel,
};

verus! {

// ---------------------------------------------------------------------------------------
// Header
// ---------------------------------------------------------------------------------------

/// The name of the program and its overall health, in words and as a glyph.
pub open spec fn banner(p: Palette, h: Health) -> Seq<SpanModel> {
    seq![
        styled("NetPulse"@, strong(p.accent)),
        raw("  "@),
        styled(symbol_of(h), strong(color_of(p, h))),
        raw(" "@),
        styled(label_of(h), strong(color_of(p, h))),
    ]
}

/// `l`, and the culprit inline when there is one, so the header says *what*, not just *that*.
pub open spec fn with_culprit(l: Seq<SpanModel>, p: Palette, h: Health, top: Verdict) -> Seq<
    SpanModel,
> {
    if top.severity != Health::Good {
        l.push(raw("  "@)).push(styled(top.headline, strong(color_of(p, h))))
    } else {
        l
    }
}

/// `l`, and the status fields.
pub open spec fn with_status(l: Seq<SpanModel>, m: AppModel) -> Seq<SpanModel> {
    let targets = l.push(raw("   targets: "@ + decimal(m.targets.len())));
    let wan = match m.public_ip {
        Some(ip) => targets.push(raw("   wan "@ + ip)),
        None => targets,
    };
    let log = if m.log_error is Some {
        wan.push(styled("   [LOG ERR]"@, strong(color_of(m.theme, Health::Warn))))
    } else {
        wan
    };
    log.push(
        raw(
            if m.paused {
                "   [PAUSED]"@
            } else {
                ""@
            },
        ),
    )
}

/// The header's one line.
pub open spec fn header_line(m: AppModel) -> Seq<SpanModel> {
    with_status(
        with_culprit(
            banner(m.theme, overall(m)),
            m.theme,
            overall(m),
            diagnosed(signals_of(m))[0],
        ),
        m,
    )
}

/// The header.
#[verifier::opaque]
pub open spec fn header_panel(m: AppModel, height: u16) -> PanelModel {
    text_panel(
        BlockModel { title: Seq::empty(), border: border_of(m.theme, overall(m)) },
        height,
        seq![header_line(m)],
    )
}

impl AppState {
    fn push_status(&self, l: &mut Line)
        ensures
            final(l)@ == with_status(old(l)@, self@),
    {
        let mut targets = "   targets: ".to_owned();
        push_decimal(&mut targets, self.targets.len() as u64);
        l.push(targets, Style::plain());
        match &self.public_ip {
            Some(ip) => {
                let mut wan = "   wan ".to_owned();
                wan.append(ip.as_str());
                l.push(wan, Style::plain());
            },
            None => {},
        }
        // A log that stopped recording is invisible by nature: badge it, or the operator only
        // finds out when they go looking for history that was never written.
        if self.log_error.is_some() {
            l.push(
                "   [LOG ERR]".to_owned(),
                Style::strong(self.theme.health_color(Health::Warn)),
            );
        }
        if self.paused {
            l.push("   [PAUSED]".to_owned(), Style::plain());
        } else {
            l.push("".to_owned(), Style::plain());
        }
    }
}

/// Header banner: app name, overall health, the top verdict, and status fields.
pub fn header(state: &AppState, height: u16) -> (p: Panel)
    ensures
        p@ == header_panel(state@, height),
{
    reveal(header_panel);
    let health = state.overall_health();
    let color = state.theme.health_color(health);
    let accent = Style::strong(state.theme.accent);
    let mut l = Line::new().styled("NetPulse", accent).raw("  ").styled(
        health_symbol(health),
        Style::strong(color),
    ).raw(" ").styled(health_label(health), Style::strong(color));
    assert(l@ == banner(state.theme@, health));
    let list = diagnose(state);
    let top = &list[0];
    assert(verdicts(list@)[0] == top@);
    if top.severity != Health::Good {
        l = l.raw("  ").styled(top.headline.as_str(), Style::strong(color));
    }
    state.push_status(&mut l);
    let mut shown: Vec<Line> = Vec::new();
    assert(lines(shown@) =~= Seq::empty());
    push_line(&mut shown, l);
    let block = Block { title: Line::new(), border: state.theme.border_style(health) };
    new_text_panel(block, height, shown)
}

// ---------------------------------------------------------------------------------------
// Diagnosis
// ---------------------------------------------------------------------------------------

/// The tag of the blamed layer.
pub open spec fn tag_of(l: Option<Layer>) -> Seq<char> {
    match l {
        Some(x) => layer_tag(x),
        None => "OK"@,
    }
}

/// One verdict and the first piece of evidence for it.
pub open spec fn verdict_row(p: Palette, v: Verdict) -> Seq<SpanModel> {
    let c = color_of(p, v.severity);
    let row = seq![
        styled(symbol_of(v.severity), colored(c)),
        raw(" "@),
        styled("["@ + tag_of(v.layer) + "]"@, strong(c)),
        raw(" "@),
        raw(v.headline),
    ];
    if v.evidence.len() > 0 {
        row.push(styled("  ("@ + v.evidence[0] + ")"@, colored(p.muted)))
    } else {
        row
    }
}

/// As many verdicts as there are rows, worst first.
pub open spec fn verdict_rows(p: Palette, v: Seq<Verdict>, height: u16) -> Seq<Seq<SpanModel>> {
    Seq::new(
        if v.len() < height {
            v.len()
        } else {
            height as nat
        },
        |i: int| verdict_row(p, v[i]),
    )
}

/// The diagnosis panel.
#[verifier::opaque]
pub open spec fn diagnosis_panel(m: AppModel, height: u16) -> PanelModel {
    let v = diagnosed(signals_of(m));
    text_panel(
        health_frame("DIAGNOSIS"@, v[0].severity, m.theme),
        height,
        verdict_rows(m.theme, v, height),
    )
}

fn verdict_line(theme: &Theme, d: &Diagnosis) -> (l: Line)
    ensures
        l@ == verdict_row(theme@, d@),
{
    let color = theme.health_color(d.severity);
    let mut tag = "[".to_owned();
    match d.layer {
        Some(x) => tag.append(x.tag()),
        None => tag.append("OK"),
    }
    tag.append("]");
    let mut l = Line::new().styled(health_symbol(d.severity), Style::colored(color)).raw(" ");
    l.push(tag, Style::strong(color));
    let mut l = l.raw(" ").raw(d.headline.as_str());
    if d.evidence.len() > 0 {
        let mut ev = "  (".to_owned();
        ev.append(d.evidence[0].as_str());
        ev.append(")");
        l.push(ev, Style::colored(theme.muted));
    }
    l
}

/// Top "what's wrong" panel: the worst-first, localized verdicts from the diagnosis engine.
/// This is the at-a-glance answer: the border and each verdict carry the health color, and
/// the healthy state renders a single "No problems detected" line.
pub fn diagnosis(state: &AppState, height: u16) -> (p: Panel)
    ensures
        p@ == diagnosis_panel(state@, height),
{
    reveal(diagnosis_panel);
    let list = diagnose(state);
    let ghost v = verdicts(list@);
    assert(v[0] == list@[0]@);
    let block = metric_block("DIAGNOSIS", list[0].severity, &state.theme);
    let n: usize = if list.len() < height as usize {
        list.len()
    } else {
        height as usize
    };
    let mut shown: Vec<Line> = Vec::new();
    let ghost all = verdict_rows(state.theme@, v, height);
    assert(lines(shown@) =~= all.take(0));
    for i in 0..n
        invariant
            n <= list@.len(),
            n == all.len(),
            v == verdicts(list@),
            all == verdict_rows(state.theme@, v, height),
            lines(shown@) == all.take(i as int),
    {
        assert(v[i as int] == list@[i as int]@);
        push_line(&mut shown, verdict_line(&state.theme, &list[i]));
        assert(lines(shown@) =~= all.take(i + 1));
    }
    assert(all.take(n as int) =~= all);
    new_text_panel(block, height, shown)
}

// ---------------------------------------------------------------------------------------
// Availability
// ---------------------------------------------------------------------------------------

/// The headline of the strip. Unobserved minutes are only mentioned when there are some, so
/// the usual case stays terse.
pub open spec fn strip_title(s: Seq<Minute>) -> Seq<char> {
    let known = "AVAILABILITY  "@ + fixed1(uptime(s) as int) + "%  ·  "@ + decimal(
        minutes_in(s, Some(Health::Good)),
    ) + "m ok · "@ + decimal(minutes_in(s, Some(Health::Warn))) + "m degraded · "@ + decimal(
        minutes_in(s, Some(Health::Crit)),
    ) + "m down"@;
    if minutes_in(s, None) > 0 {
        known + " · "@ + decimal(minutes_in(s, None)) + "m unknown"@
    } else {
        known
    }
}

/// One minute. A minute nobody watched is not a healthy minute; it has its own glyph.
pub open spec fn minute_cell(p: Palette, m: Minute) -> SpanModel {
    match m.health {
        Some(h) => styled("█"@, colored(color_of(p, h))),
        None => styled("·"@, colored(p.muted)),
    }
}

/// How many of the oldest minutes do not fit.
pub open spec fn hidden_minutes(n: nat, width: u16) -> nat {
    if n > width {
        (n - width) as nat
    } else {
        0
    }
}

/// The strip, right-aligned: it is a timeline and "now" is its right edge, so a part-full
/// strip must grow leftwards rather than leaving now stranded mid-panel.
pub open spec fn strip(p: Palette, s: Seq<Minute>, width: u16) -> Seq<SpanModel> {
    let skip = hidden_minutes(s.len(), width);
    seq![raw(spaces(width - (s.len() - skip)))] + Seq::new(
        (s.len() - skip) as nat,
        |i: int| minute_cell(p, s[skip + i]),
    )
}

/// The availability panel.
#[verifier::opaque]
pub open spec fn availability_panel(m: AppModel, width: u16, height: u16) -> PanelModel {
    text_panel(
        health_frame(strip_title(m.availability.items), overall(m), m.theme),
        height,
        if width == 0 || height == 0 {
            Seq::empty()
        } else {
            seq![strip(m.theme, m.availability.items, width)]
        },
    )
}

impl AppState {
    fn strip_headline(&self) -> (s: String)
        ensures
            s@ == strip_title(self@.availability.items),
    {
        let r = self.availability_rollup();
        let mut s = "AVAILABILITY  ".to_owned();
        push_fixed1(&mut s, r.uptime_pct);
        s.append("%  ·  ");
        push_decimal(&mut s, r.ok as u64);
        s.append("m ok · ");
        push_decimal(&mut s, r.degraded as u64);
        s.append("m degraded · ");
        push_decimal(&mut s, r.down as u64);
        s.append("m down");
        if r.unknown > 0 {
            s.append(" · ");
            push_decimal(&mut s, r.unknown as u64);
            s.append("m unknown");
        }
        s
    }

    fn strip_line(&self, width: u16) -> (l: Line)
        ensures
            l@ == strip(self.theme@, self@.availability.items, width),
    {
        let ghost s = self@.availability.items;
        let ghost all = strip(self.theme@, s, width);
        let n: usize = self.availability.len();
        let skip: usize = if n > width as usize {
            n - width as usize
        } else {
            0
        };
        let pad: usize = width as usize - (n - skip);
        let mut l = Line::new();
        proof {
            reveal_strlit("");
            assert(crate::format::left_aligned(""@, pad as int) =~= spaces(pad as int));
        }
        l.push(left("", pad), Style::plain());
        assert(l@ =~= all.take(1));
        for i in skip..n
            invariant
                n == s.len(),
                s == self@.availability.items,
                skip == hidden_minutes(s.len(), width),
                skip <= n,
                all == strip(self.theme@, s, width),
                l@ == all.take(1 + i - skip),
        {
            match self.availability.get(i) {
                Some(m) => {
                    assert(*m == s[i as int]);
                    match m.health {
                        Some(h) => l.push(
                            "█".to_owned(),
                            Style::colored(self.theme.health_color(h)),
                        ),
                        None => l.push("·".to_owned(), Style::colored(self.theme.muted)),
                    }
                    assert(l@ =~= all.take(2 + i - skip));
                },
                None => {},
            }
        }
        assert(l@ =~= all);
        l
    }
}

/// Availability heat strip: one cell per minute of recorded history, coloured by the worst
/// health seen in that minute. A single glance answers "has this been solid all afternoon?",
/// which no instantaneous panel can.
pub fn availability(state: &AppState, width: u16, height: u16) -> (p: Panel)
    ensures
        p@ == availability_panel(state@, width, height),
{
    reveal(availability_panel);
    let title = state.strip_headline();
    let block = metric_block(title.as_str(), state.overall_health(), &state.theme);
    let mut shown: Vec<Line> = Vec::new();
    assert(lines(shown@) =~= Seq::empty());
    if width > 0 && height > 0 {
        push_line(&mut shown, state.strip_line(width));
    }
    new_text_panel(block, height, shown)
}

/// The strip fills its width exactly, and its last cell is the newest minute.
pub proof fn law_the_strip_ends_now(p: Palette, s: Seq<Minute>, width: u16)
    requires
        s.len() > 0,
        width > 0,
    ensures
        strip(p, s, width).last() == minute_cell(p, s.last()),
        strip(p, s, width)[0].text.len() + (strip(p, s, width).len() - 1) == width,
{
}

/// The header names the culprit exactly while there is one, in the words of the worst verdict.
pub proof fn law_the_header_names_the_culprit(m: AppModel, height: u16)
    ensures
        ({
            let line = header_panel(m, height).lines[0];
            let top = diagnosed(signals_of(m))[0];
            &&& line[0].text == "NetPulse"@
            &&& line[2].text == symbol_of(overall(m)) && line[4].text == label_of(overall(m))
            &&& line[4].style == strong(color_of(m.theme, overall(m)))
            &&& top.severity != Health::Good ==> line[6].text == top.headline && line[7].text
                == "   targets: "@ + decimal(m.targets.len())
            &&& top.severity == Health::Good ==> line[5].text == "   targets: "@ + decimal(
                m.targets.len(),
            )
        }),
{
    reveal(header_panel);
}

/// The status at the end of the header: the public address where it is known, a badge while
/// the log cannot be written, and whether the dashboard is paused.
pub proof fn law_the_header_ends_in_the_status(l: Seq<SpanModel>, m: AppModel)
    ensures
        ({
            let line = with_status(l, m);
            let wan: int = if m.public_ip is Some {
                1
            } else {
                0
            };
            let log: int = if m.log_error is Some {
                1
            } else {
                0
            };
            &&& line.len() == l.len() + 2 + wan + log
            &&& m.public_ip matches Some(ip) ==> line[l.len() as int + 1].text == "   wan "@ + ip
            &&& m.log_error is Some ==> line[l.len() as int + 1 + wan].text == "   [LOG ERR]"@
                && line[l.len() as int + 1 + wan].style == strong(m.theme.warn)
            &&& m.paused ==> line.last().text == "   [PAUSED]"@
            &&& !m.paused ==> line.last().text == ""@
        }),
{
}

/// The diagnosis panel lists the verdicts in their order, as many as there are rows for.
pub proof fn law_the_panel_lists_the_verdicts(m: AppModel, height: u16, i: int)
    ensures
        ({
            let v = diagnosed(signals_of(m));
            let rows = diagnosis_panel(m, height).lines;
            &&& rows.len() <= height && rows.len() <= v.len()
            &&& rows.len() == height || rows.len() == v.len()
            &&& 0 <= i < rows.len() ==> {
                &&& rows[i][0].text == symbol_of(v[i].severity)
                &&& rows[i][4].text == v[i].headline
                &&& v[i].layer matches Some(l) ==> rows[i][2].text == "["@ + layer_tag(l) + "]"@
                &&& v[i].layer is None ==> rows[i][2].text == "["@ + "OK"@ + "]"@
                &&& rows[i][2].style == strong(color_of(m.theme, v[i].severity))
                &&& v[i].evidence.len() > 0 ==> rows[i].len() == 6 && rows[i][5].text == "  ("@
                    + v[i].evidence[0] + ")"@
                &&& v[i].evidence.len() == 0 ==> rows[i].len() == 5
            }
        }),
{
    reveal(diagnosis_panel);
}

/// The strip shows the newest minutes that fit, in their order: a watched one as a block in
/// the color of its health, one that nobody watched as a muted dot.
pub proof fn law_the_strip_shows_the_newest_minutes(
    p: Palette,
    s: Seq<Minute>,
    width: u16,
    back: int,
)
    requires
        0 <= back < s.len(),
        back < width,
    ensures
        ({
            let cell = strip(p, s, width)[strip(p, s, width).len() - 1 - back];
            let minute = s[s.len() - 1 - back];
            &&& minute.health matches Some(h) ==> cell.text == "█"@ && cell.style == colored(
                color_of(p, h),
            )
            &&& minute.health is None ==> cell.text == "·"@ && cell.style == colored(p.muted)
        }),
{
}

/// The headline of the strip counts the minutes of each kind, and mentions unwatched ones only
/// where there are some.
pub proof fn law_the_headline_counts_the_minutes(s: Seq<Minute>)
    ensures
        ({
            let known = "AVAILABILITY  "@ + fixed1(uptime(s) as int) + "%  ·  "@ + decimal(
                minutes_in(s, Some(Health::Good)),
            ) + "m ok · "@ + decimal(minutes_in(s, Some(Health::Warn))) + "m degraded · "@
                + decimal(minutes_in(s, Some(Health::Crit))) + "m down"@;
            &&& minutes_in(s, None) == 0 ==> strip_title(s) == known
            &&& minutes_in(s, None) > 0 ==> strip_title(s) == known + " · "@ + decimal(
                minutes_in(s, None),
            ) + "m unknown"@
        }),
{
}

/// The strip is drawn where there is a cell for it, under its headline.
pub proof fn law_the_strip_needs_room(m: AppModel, width: u16, height: u16)
    ensures
        ({
            let p = availability_panel(m, width, height);
            &&& width > 0 && height > 0 ==> p.lines == seq![
                strip(m.theme, m.availability.items, width),
            ]
            &&& width == 0 || height == 0 ==> p.lines.len() == 0
            &&& p.block.title[1].text == strip_title(m.availability.items)
        }),
{
    reveal(availability_panel);
}

} // verus!
