//! The metrics sink interface and the naming of per-target gauges.

use vstd::prelude::*;

use crate::config::{CanaryCheck, CanaryTarget, CanaryTargetTypes};
use crate::text::join_text;

verus! {

/// A sink for per-target metrics, built once at startup from the targets.
pub trait Metrics {
    fn new(targets: &CanaryTargetTypes) -> Self where Self: Sized;

    fn update(&self, target_name: &str, result: &CanaryCheck) -> Result<(), String>;

    fn print(&self) -> Result<String, String>;
}

/// The name of the status gauge of the target tagged `tag`.
pub fn status_metric_name(tag: &str) -> (r: String)
    ensures
        r@ == tag@ + "_status"@,
{
    join_text(tag, "_status")
}

/// The name of the latency gauge of the target tagged `tag`.
pub fn latency_metric_name(tag: &str) -> (r: String)
    ensures
        r@ == tag@ + "_latency_ms"@,
{
    join_text(tag, "_latency_ms")
}

/// The metrics tag of a target; every target needs one once metrics are on.
pub fn metric_tag(target: &CanaryTarget) -> (r: Result<String, String>)
    ensures
        target.tag_metric matches Some(t) ==> (r matches Ok(s) && s == t),
        target.tag_metric is None ==> (r matches Err(m) && m@ == "Missing tag_metric for "@
            + target.host@),
{
    match &target.tag_metric {
        Some(t) => Ok(t.clone()),
        None => Err(join_text("Missing tag_metric for ", target.host.as_str())),
    }
}

} // verus!
