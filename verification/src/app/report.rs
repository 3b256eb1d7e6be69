//! The incidents that the reducer raises.

use vstd::prelude::*;

use crate::app::state::{FlapKey, FlapKeyModel};
use crate::config::AlertConfig;
use crate::format::{decimal, fixed0, push_decimal, push_fixed0};
use crate::health::{FlapDetector, Flaps, Health, Thresholds};
use crate::incidents::{event, Incident, IncidentModel};
use crate::metrics::{metric_label, MetricId};

use crate::units::{Reading, Timestamp};

verus! {

/// An incident for a boolean/status metric transition (no scalar threshold).
pub open spec fn status_report(
    now: Timestamp,
    metric: MetricId,
    target: Seq<char>,
    severity: Health,
    message: Seq<char>,
) -> IncidentModel {
    IncidentModel { target: Some(target), ..event(now, metric, severity, message) }
}

/// The bound that a severity has crossed; a recovery has crossed none.
pub open spec fn crossed(thr: Thresholds, severity: Health) -> Option<Reading> {
    match severity {
        Health::Crit => Some(thr.crit),
        Health::Warn => Some(thr.warn),
        Health::Good => None,
    }
}

/// The message of a scalar-threshold metric transition.
pub open spec fn scalar_message(
    metric: MetricId,
    target: Seq<char>,
    severity: Health,
    value: Reading,
    unit: Seq<char>,
) -> Seq<char> {
    if severity == Health::Good {
        metric_label(metric) + " recovered ("@ + target + ")"@
    } else {
        metric_label(metric) + " "@ + fixed0(value as int) + unit + " ("@ + target + ")"@
    }
}

/// An incident for a scalar-threshold metric transition. Recoveries carry no threshold;
/// warn/crit carry the boundary they crossed.
pub open spec fn scalar_report(
    now: Timestamp,
    metric: MetricId,
    target: Seq<char>,
    severity: Health,
    value: Reading,
    unit: Seq<char>,
    thr: Thresholds,
) -> IncidentModel {
    IncidentModel {
        value: Some(value),
        unit,
        target: Some(target),
        threshold: crossed(thr, severity),
        ..event(now, metric, severity, scalar_message(metric, target, severity, value, unit))
    }
}

/// `a`, `b` and `c` in a row.
pub fn joined3(a: &str, b: &str, c: &str) -> (s: String)
    ensures
        s@ == a@ + b@ + c@,
{
    let mut s = a.to_owned();
    s.append(b);
    s.append(c);
    s
}

/// Build an incident for a boolean/status metric transition (no scalar threshold).
pub fn status_incident(
    now: Timestamp,
    metric: MetricId,
    target: &str,
    severity: Health,
    message: String,
) -> (i: Incident)
    ensures
        i@ == status_report(now, metric, target@, severity, message@),
{
    Incident::new(now, metric, severity, message).with_target(target)
}

/// Build an incident for a scalar-threshold metric transition. Recoveries carry no threshold;
/// warn/crit carry the boundary they crossed.
pub fn incident_for(
    now: Timestamp,
    metric: MetricId,
    target: &str,
    severity: Health,
    value: Reading,
    unit: &str,
    thr: &Thresholds,
) -> (i: Incident)
    ensures
        i@ == scalar_report(now, metric, target@, severity, value, unit@, *thr),
{
    let mut message = metric.label().to_owned();
    match severity {
        Health::Good => {
            message.append(" recovered (");
        },
        _ => {
            message.append(" ");
            push_fixed0(&mut message, value);
            message.append(unit);
            message.append(" (");
        },
    }
    message.append(target);
    message.append(")");
    let inc = Incident::new(now, metric, severity, message).with_value(value, unit).with_target(
        target,
    );
    match severity {
        Health::Crit => inc.with_threshold(thr.crit),
        Health::Warn => inc.with_threshold(thr.warn),
        Health::Good => inc,
    }
}

/// The one line that stands in for a burst of individual swings.
pub open spec fn flapping_report(
    now: Timestamp,
    key: FlapKeyModel,
    detector: Flaps,
    alerts: AlertConfig,
) -> IncidentModel {
    status_report(
        now,
        key.metric,
        key.target,
        Health::Warn,
        metric_label(key.metric) + " flapping ("@ + key.target + "): "@ + decimal(
            detector.transitions.len(),
        ) + " changes in "@ + fixed0(alerts.flap_window_secs as int) + "s"@,
    )
}

/// The one line that stands in for a burst of individual swings.
///
/// `Warn`, never `Crit`, whichever way the metric happens to be pointing as it trips: this
/// says "you can't trust this reading", which is a different and lesser claim than "this is
/// down". The swing that mattered is reported on its own when the metric settles.
pub fn flapping_incident(
    now: Timestamp,
    key: &FlapKey,
    detector: &FlapDetector,
    alerts: &AlertConfig,
) -> (i: Incident)
    ensures
        i@ == flapping_report(now, key@, detector@, *alerts),
{
    let mut message = key.metric.label().to_owned();
    message.append(" flapping (");
    message.append(key.target.as_str());
    message.append("): ");
    push_decimal(&mut message, detector.recent() as u64);
    message.append(" changes in ");
    push_fixed0(&mut message, alerts.flap_window_secs);
    message.append("s");
    status_incident(now, key.metric, key.target.as_str(), Health::Warn, message)
}

/// What closes out a flapping episode.
pub open spec fn settle_report(
    now: Timestamp,
    key: FlapKeyModel,
    last: Option<IncidentModel>,
) -> IncidentModel {
    match last {
        Some(inc) => IncidentModel {
            ts: now,
            message: inc.message + " · settled after flapping"@,
            ..inc
        },
        None => status_report(
            now,
            key.metric,
            key.target,
            Health::Good,
            metric_label(key.metric) + " stopped flapping ("@ + key.target + ")"@,
        ),
    }
}

/// Closes out a flapping episode by reporting the swing that was held back last, re-stamped
/// at the moment the metric went quiet.
///
/// `last` is `None` when nothing was suppressed: the detector tripped on the very transition
/// that was reported as "flapping", and nothing came after it. There is no landing state to
/// report in that case, only the fact that the noise stopped.
pub fn settle_incident(now: Timestamp, key: &FlapKey, last: Option<Incident>) -> (i: Incident)
    ensures
        i@ == settle_report(
            now,
            key@,
            crate::app::state::incident_model(last),
        ),
{
    match last {
        Some(inc) => {
            let mut message = inc.message.clone();
            message.append(" · settled after flapping");
            Incident { ts: now, message, ..inc }
        },
        None => {
            let mut message = key.metric.label().to_owned();
            message.append(" stopped flapping (");
            message.append(key.target.as_str());
            message.append(")");
            status_incident(now, key.metric, key.target.as_str(), Health::Good, message)
        },
    }
}

} // verus!
