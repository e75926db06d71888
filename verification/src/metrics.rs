//! What the relay counts and measures.
//!
//! Each function here says what one occurrence does to which series. Recording it
//! is left to the caller, so a deployment without metrics pays nothing for them.
//!
//! Most series are labelled with the bot's `project_id`, so that bots stay
//! distinguishable in aggregated dashboards.

use crate::text;
use crate::text::{trim, Strip};
use vstd::prelude::*;

verus! {

/// Environment variable that selects the Prometheus listener's bind address. Unset
/// or blank turns metrics off.
pub const METRICS_ADDR_ENV: &'static str = "METRICS_ADDR";

/// Counter: dispatch events queued for delivery.
pub const EVENTS_RECEIVED: &'static str = "relay_events_received_total";

/// Counter: events delivered downstream.
pub const EVENTS_FORWARDED: &'static str = "relay_events_forwarded_total";

/// Counter: events dropped at a saturated lane.
pub const EVENTS_DROPPED: &'static str = "relay_events_dropped_total";

/// Counter: forwards that failed for good.
pub const FORWARD_FAILURES: &'static str = "relay_forward_failures_total";

/// Counter: retries across all forwards.
pub const FORWARD_RETRIES: &'static str = "relay_forward_retries_total";

/// Histogram: the latency of a forward in seconds, retries counted in.
pub const FORWARD_LATENCY: &'static str = "relay_forward_latency_seconds";

/// Counter: fresh reconnects and re-identifies.
pub const GATEWAY_RECONNECTS: &'static str = "relay_gateway_reconnects_total";

/// Counter: session resumes after a drop.
pub const GATEWAY_RESUMES: &'static str = "relay_gateway_resumes_total";

/// Gauge: bots currently supervised.
pub const ACTIVE_BOTS: &'static str = "relay_active_bots";

/// What one occurrence does to a series.
pub enum Sample {
    /// Adds to a counter that is labelled with the bot's project.
    Count {
        /// The name of the series.
        series: &'static str,
        /// The label.
        project_id: String,
        /// How much is added.
        by: u64,
    },
    /// Sets an unlabelled gauge.
    Level {
        /// The name of the series.
        series: &'static str,
        /// What the gauge is set to.
        value: u64,
    },
}

/// The contents of a [`Sample`].
#[verifier::ext_equal]
pub enum SampleView {
    /// See [`Sample::Count`].
    Count(Seq<char>, Seq<char>, int),
    /// See [`Sample::Level`].
    Level(Seq<char>, int),
}

impl View for Sample {
    type V = SampleView;

    open spec fn view(&self) -> SampleView {
        match self {
            Sample::Count { series, project_id, by } => SampleView::Count(
                series@,
                project_id@,
                *by as int,
            ),
            Sample::Level { series, value } => SampleView::Level(series@, *value as int),
        }
    }
}

/// The contents of a list of samples.
pub open spec fn samples(list: Seq<Sample>) -> Seq<SampleView> {
    list.map_values(|s: Sample| s@)
}

/// How much a list of samples adds to a bot's counter.
pub open spec fn total(list: Seq<SampleView>, series: Seq<char>, project_id: Seq<char>) -> int
    decreases list.len(),
{
    if list.len() == 0 {
        0
    } else {
        total(list.drop_last(), series, project_id) + match list.last() {
            SampleView::Count(s, p, by) => if s == series && p == project_id {
                by
            } else {
                0
            },
            SampleView::Level(_, _) => 0,
        }
    }
}

/// The address to serve Prometheus metrics on, given the value of
/// [`METRICS_ADDR_ENV`]: the value without surrounding white space, or nothing where
/// it is unset or blank, which turns metrics off.
pub fn init(addr: Option<&str>) -> (r: Option<String>)
    ensures
        r is Some <==> addr is Some && !text::is_blank(addr->0@),
        r is Some ==> r->0@ == text::strip(addr->0@, Strip::White),
{
    match addr {
        Some(v) => {
            let v = trim(v, Strip::White);
            if v.is_empty() {
                None
            } else {
                Some(v.to_owned())
            }
        },
        None => None,
    }
}

fn count(series: &'static str, project_id: &str, by: u64) -> (r: Sample)
    ensures
        r@ == SampleView::Count(series@, project_id@, by as int),
{
    Sample::Count { series, project_id: project_id.to_owned(), by }
}

/// An event was received from the gateway and queued for delivery.
pub fn event_received(project_id: &str) -> (r: Sample)
    ensures
        r@ == SampleView::Count(EVENTS_RECEIVED@, project_id@, 1),
{
    count(EVENTS_RECEIVED, project_id, 1)
}

/// An event was delivered downstream.
pub fn event_forwarded(project_id: &str) -> (r: Sample)
    ensures
        r@ == SampleView::Count(EVENTS_FORWARDED@, project_id@, 1),
{
    count(EVENTS_FORWARDED, project_id, 1)
}

/// An event was dropped because its delivery lane was saturated.
pub fn event_dropped(project_id: &str) -> (r: Sample)
    ensures
        r@ == SampleView::Count(EVENTS_DROPPED@, project_id@, 1),
{
    count(EVENTS_DROPPED, project_id, 1)
}

/// A forward failed for good: its retries were exhausted, or it was not worth one.
pub fn forward_failure(project_id: &str) -> (r: Sample)
    ensures
        r@ == SampleView::Count(FORWARD_FAILURES@, project_id@, 1),
{
    count(FORWARD_FAILURES, project_id, 1)
}

/// `n` retries were performed for a single forward. Nothing is recorded for none.
pub fn forward_retries(project_id: &str, n: u64) -> (r: Option<Sample>)
    ensures
        r is Some <==> n > 0,
        r is Some ==> r->0@ == SampleView::Count(FORWARD_RETRIES@, project_id@, n as int),
{
    if n > 0 {
        Some(count(FORWARD_RETRIES, project_id, n))
    } else {
        None
    }
}

/// The gateway is reconnected after a connection error or with a fresh session.
pub fn gateway_reconnect(project_id: &str) -> (r: Sample)
    ensures
        r@ == SampleView::Count(GATEWAY_RECONNECTS@, project_id@, 1),
{
    count(GATEWAY_RECONNECTS, project_id, 1)
}

/// The gateway resumes an existing session.
pub fn gateway_resume(project_id: &str) -> (r: Sample)
    ensures
        r@ == SampleView::Count(GATEWAY_RESUMES@, project_id@, 1),
{
    count(GATEWAY_RESUMES, project_id, 1)
}

/// `n` bots are supervised now.
pub fn set_active_bots(n: usize) -> (r: Sample)
    ensures
        r@ == SampleView::Level(ACTIVE_BOTS@, n as int),
{
    Sample::Level { series: ACTIVE_BOTS, value: n as u64 }
}

/// A list of samples has the contents of its samples, one for one.
pub proof fn law_contents_are_the_samples(list: Seq<Sample>, i: int)
    requires
        0 <= i < list.len(),
    ensures
        samples(list).len() == list.len(),
        match list[i] {
            Sample::Count { series, project_id, by } => samples(list)[i] == SampleView::Count(
                series@,
                project_id@,
                by as int,
            ),
            Sample::Level { series, value } => samples(list)[i] == SampleView::Level(
                series@,
                value as int,
            ),
        },
{
}

} // verus!
