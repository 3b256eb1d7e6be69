//! Incident records and the framing of the append-only JSONL log.
//!
//! An [`Incident`] is emitted on a confirmed health transition (see the reducer). Each is
//! written as one JSON object per line so the log is both human-greppable and
//! machine-parseable. [`IncidentLog`] keeps the byte count of any sink, and [`Rotation`]
//! decides when the live file has to make way for a fresh one.

use vstd::prelude::*;

use crate::diagnosis::Layer;
use crate::health::Health;
use crate::metrics::MetricId;
use crate::scan::{is_space, trim_end, without_trailing_space};
use crate::text::{chars_of, string_of, text_of};
use crate::units::{Reading, Timestamp};

verus! {

/// A single logged network-health event.
#[derive(Debug, PartialEq, Eq)]
pub struct Incident {
    /// When it occurred.
    pub ts: Timestamp,
    pub metric: MetricId,
    /// Severity the metric transitioned *to* (`Good` marks a recovery).
    pub severity: Health,
    pub value: Option<Reading>,
    pub unit: String,
    pub threshold: Option<Reading>,
    pub target: Option<String>,
    /// The upstream layer that already accounts for this incident, when one does: a DNS
    /// timeout during a gateway outage is an echo, not a second fault.
    ///
    /// Recorded, never used to drop the incident: the correlation is a judgement about the
    /// state at one instant, and a log that quietly omits events is worse than a noisy one.
    pub cause: Option<Layer>,
    pub message: String,
}

/// What an [`Incident`] says.
#[verifier::ext_equal]
pub ghost struct IncidentModel {
    pub ts: Timestamp,
    pub metric: MetricId,
    pub severity: Health,
    pub value: Option<Reading>,
    pub unit: Seq<char>,
    pub threshold: Option<Reading>,
    pub target: Option<Seq<char>>,
    pub cause: Option<Layer>,
    pub message: Seq<char>,
}

impl View for Incident {
    type V = IncidentModel;

    open spec fn view(&self) -> IncidentModel {
        IncidentModel {
            ts: self.ts,
            metric: self.metric,
            severity: self.severity,
            value: self.value,
            unit: self.unit@,
            threshold: self.threshold,
            target: text_of(self.target),
            cause: self.cause,
            message: self.message@,
        }
    }
}

/// A bare event: no value, no threshold, no target, no cause.
pub open spec fn event(
    ts: Timestamp,
    metric: MetricId,
    severity: Health,
    message: Seq<char>,
) -> IncidentModel {
    IncidentModel {
        ts,
        metric,
        severity,
        value: None,
        unit: Seq::empty(),
        threshold: None,
        target: None,
        cause: None,
        message,
    }
}

/// The incidents of a list.
pub open spec fn incidents(v: Seq<Incident>) -> Seq<IncidentModel> {
    Seq::new(v.len(), |i: int| v[i]@)
}

/// A copy of an optional string.
pub fn copy_text(s: &Option<String>) -> (r: Option<String>)
    ensures
        text_of(r) == text_of(*s),
{
    match s {
        Some(t) => Some(t.clone()),
        None => None,
    }
}

impl Clone for Incident {
    fn clone(&self) -> (r: Incident)
        ensures
            r@ == self@,
    {
        Incident {
            ts: self.ts,
            metric: self.metric,
            severity: self.severity,
            value: self.value,
            unit: self.unit.clone(),
            threshold: self.threshold,
            target: copy_text(&self.target),
            cause: self.cause,
            message: self.message.clone(),
        }
    }
}

impl Incident {
    pub fn new(ts: Timestamp, metric: MetricId, severity: Health, message: String) -> (i: Incident)
        ensures
            i@ == event(ts, metric, severity, message@),
    {
        Incident {
            ts,
            metric,
            severity,
            value: None,
            unit: String::new(),
            threshold: None,
            target: None,
            cause: None,
            message,
        }
    }

    pub fn with_value(self, value: Reading, unit: &str) -> (i: Incident)
        ensures
            i@ == (IncidentModel { value: Some(value), unit: unit@, ..self@ }),
    {
        Incident { value: Some(value), unit: unit.to_owned(), ..self }
    }

    pub fn with_threshold(self, threshold: Reading) -> (i: Incident)
        ensures
            i@ == (IncidentModel { threshold: Some(threshold), ..self@ }),
    {
        Incident { threshold: Some(threshold), ..self }
    }

    pub fn with_target(self, target: &str) -> (i: Incident)
        ensures
            i@ == (IncidentModel { target: Some(target@), ..self@ }),
    {
        Incident { target: Some(target.to_owned()), ..self }
    }

    /// Mark this incident as already explained by a fault at `layer`.
    pub fn caused_by(self, layer: Layer) -> (i: Incident)
        ensures
            i@ == (IncidentModel { cause: Some(layer), ..self@ }),
    {
        Incident { cause: Some(layer), ..self }
    }

    /// Whether an upstream fault already accounts for this incident.
    pub fn is_downstream(&self) -> (b: bool)
        ensures
            b == (self@.cause is Some),
    {
        self.cause.is_some()
    }
}

// ---------------------------------------------------------------------------------------
// Framing
// ---------------------------------------------------------------------------------------

/// One line of the log: a JSON object and the line feed that ends it.
pub fn jsonl_line(json: String) -> (line: String)
    ensures
        line@ == json@.push('\n'),
{
    let mut line = json;
    line.push('\n');
    line
}

/// The JSON object of one line of the log; the line feed at its end is optional.
pub fn jsonl_body(line: &str) -> (json: String)
    ensures
        json@ == trim_end(line@),
{
    let v = chars_of(line);
    string_of(&without_trailing_space(&v))
}

/// What a line holds is what was framed in it, for any object, which does not end in white
/// space.
pub proof fn law_a_line_holds_what_was_framed(json: Seq<char>)
    requires
        json.len() > 0 ==> !is_space(json.last()),
    ensures
        trim_end(json.push('\n')) == json,
        trim_end(json) == json,
{
    assert(json.push('\n').drop_last() =~= json);
    reveal_with_fuel(trim_end, 2);
}

// ---------------------------------------------------------------------------------------
// Size and rotation
// ---------------------------------------------------------------------------------------

/// A byte count after a line of `bytes` more, which never runs over.
pub open spec fn counted(written: int, bytes: u64) -> int {
    if written + bytes > u64::MAX {
        u64::MAX as int
    } else {
        written + bytes
    }
}

/// A byte count after lines of these lengths, one append after another.
pub open spec fn counted_all(written: int, lines: Seq<u64>) -> int
    decreases lines.len(),
{
    if lines.len() == 0 {
        written
    } else {
        counted(counted_all(written, lines.drop_last()), lines.last())
    }
}

/// How many bytes the lines of these lengths come to.
pub open spec fn total_bytes(lines: Seq<u64>) -> int
    decreases lines.len(),
{
    if lines.len() == 0 {
        0
    } else {
        total_bytes(lines.drop_last()) + lines.last()
    }
}

/// The count of a log is what it started with and every byte appended since, held to
/// `u64::MAX`: over any number of appends none is lost and none counts twice.
pub proof fn law_the_count_is_the_sum_of_the_appends(written: u64, lines: Seq<u64>)
    ensures
        total_bytes(lines) >= 0,
        counted_all(written as int, lines) == (if written + total_bytes(lines) > u64::MAX {
            u64::MAX as int
        } else {
            written + total_bytes(lines)
        }),
    decreases lines.len(),
{
    if lines.len() > 0 {
        law_the_count_is_the_sum_of_the_appends(written, lines.drop_last());
    }
}

/// Append-only log over any sink: the sink and the bytes that went through it.
pub struct IncidentLog<W> {
    sink: W,
    written: u64,
}

impl<W> IncidentLog<W> {
    /// The sink.
    pub closed spec fn spec_sink(&self) -> W {
        self.sink
    }

    /// The byte count.
    pub closed spec fn spec_written(&self) -> u64 {
        self.written
    }

    pub fn new(sink: W) -> (l: IncidentLog<W>)
        ensures
            l.spec_sink() == sink,
            l.spec_written() == 0,
    {
        IncidentLog { sink, written: 0 }
    }

    /// Same as [`IncidentLog::new`], but starting the byte count at `written`: used when
    /// reopening a log that already has content on disk.
    pub fn resuming(sink: W, written: u64) -> (l: IncidentLog<W>)
        ensures
            l.spec_sink() == sink,
            l.spec_written() == written,
    {
        IncidentLog { sink, written }
    }

    /// Bytes appended through this log, including any pre-existing content it resumed.
    pub fn written(&self) -> (n: u64)
        ensures
            n == self.spec_written(),
    {
        self.written
    }

    /// The sink, to be written to.
    pub fn sink_mut(&mut self) -> (s: &mut W)
        ensures
            *s == old(self).spec_sink(),
            final(self).spec_sink() == *final(s),
            final(self).spec_written() == old(self).spec_written(),
    {
        &mut self.sink
    }

    /// Count a line that has landed in the sink. To be called only after the write, so a
    /// failed append can't inflate the count and trigger a rotation over bytes that were
    /// never stored.
    pub fn note_written(&mut self, bytes: u64)
        ensures
            final(self).spec_sink() == old(self).spec_sink(),
            final(self).spec_written() == counted(old(self).spec_written() as int, bytes),
    {
        self.written = self.written.saturating_add(bytes);
    }

    /// Recover the underlying sink.
    pub fn into_inner(self) -> (s: W)
        ensures
            s == self.spec_sink(),
    {
        self.sink
    }
}

/// Rotate the log once it passes 5 MiB. At roughly 200 bytes per incident that is 25 thousand
/// events, far more history than anyone reads, and it bounds the log at twice the cap.
pub const DEFAULT_MAX_BYTES: u64 = 5_242_880;

/// Single-generation size rotation: once the live file has reached `max_bytes` it makes way
/// for a fresh one before the next append.
pub struct Rotation {
    pub max_bytes: u64,
}

impl Rotation {
    /// A cap of one byte at least.
    pub fn new(max_bytes: u64) -> (r: Rotation)
        ensures
            r.max_bytes == (if max_bytes == 0 {
                1
            } else {
                max_bytes
            }),
    {
        Rotation {
            max_bytes: if max_bytes == 0 {
                1
            } else {
                max_bytes
            },
        }
    }

    /// Whether a log with `written` bytes rolls over before the next append.
    pub fn is_due(&self, written: u64) -> (b: bool)
        ensures
            b == due(*self, written as nat),
    {
        written >= self.max_bytes
    }
}

/// The bytes on disk: in the live file, and in the one that last made way for it.
pub ghost struct Generations {
    pub live: nat,
    pub retired: nat,
}

/// A log of `live` bytes rolls over before the next append.
pub open spec fn due(r: Rotation, live: nat) -> bool {
    live >= r.max_bytes
}

/// The bytes on disk after appending a line of `line` bytes, which rolls the live file over
/// first where that is due.
pub open spec fn after_append(r: Rotation, g: Generations, line: nat) -> Generations {
    if due(r, g.live) {
        Generations { live: line, retired: g.live }
    } else {
        Generations { live: g.live + line, ..g }
    }
}

/// Neither generation is as long as the cap and one line.
pub open spec fn bounded(r: Rotation, g: Generations, longest: nat) -> bool {
    g.live < r.max_bytes + longest && g.retired < r.max_bytes + longest
}

/// A dashboard left running for months costs a bounded amount of disk: while no line is longer
/// than `longest`, no append takes either generation to the cap and one line more.
pub proof fn law_the_log_on_disk_is_bounded(
    r: Rotation,
    g: Generations,
    line: nat,
    longest: nat,
)
    requires
        r.max_bytes > 0,
        line <= longest,
        bounded(r, g, longest),
    ensures
        bounded(r, after_append(r, g, line), longest),
        after_append(r, g, line).live + after_append(r, g, line).retired < 2 * (r.max_bytes
            + longest),
{
}

/// A live file rolls over exactly when it has reached the cap, and then becomes the retired
/// one whole; until then it takes every line, and the retired one stays.
pub proof fn law_a_full_log_makes_way(r: Rotation, g: Generations, line: nat)
    ensures
        g.live >= r.max_bytes ==> after_append(r, g, line).retired == g.live && after_append(
            r,
            g,
            line,
        ).live == line,
        g.live < r.max_bytes ==> after_append(r, g, line).retired == g.retired && after_append(
            r,
            g,
            line,
        ).live == g.live + line,
        due(r, g.live) <==> g.live >= r.max_bytes,
{
}

/// A bare event says when, what, how bad and in which words, and nothing else.
pub proof fn law_a_bare_event_claims_nothing_more(
    ts: Timestamp,
    metric: MetricId,
    severity: Health,
    message: Seq<char>,
)
    ensures
        ({
            let e = event(ts, metric, severity, message);
            &&& e.ts == ts && e.metric == metric && e.severity == severity && e.message == message
            &&& e.value is None && e.threshold is None && e.target is None && e.cause is None
            &&& e.unit.len() == 0
        }),
{
}

} // verus!
