//! Turns the per-address results of one cycle into the target's outcome.

use vstd::prelude::*;

use crate::checkengine::{
    code_summary, format_status_codes, worst_status, CheckResult, CheckResultElement, CheckStatus,
};
use crate::config::{CanaryCheck, CanaryTarget, Status};
use crate::text::join_text;

verus! {

/// The public name of an aggregate status.
pub open spec fn public_status(s: CheckStatus) -> Status {
    match s {
        CheckStatus::Alive => Status::Okay,
        CheckStatus::Degraded => Status::Unknown,
        CheckStatus::Failed => Status::Fire,
    }
}

/// The public status of a cycle's outcomes. A cycle that reached no address
/// is the name-lookup failure, reported `Unknown`.
pub open spec fn cycle_status(elems: Seq<CheckResultElement>) -> Status {
    if elems.len() == 0 {
        Status::Unknown
    } else {
        public_status(worst_status(elems))
    }
}

/// Whether an outcome in `status` asks for a notification by itself: never
/// when okay, else when the target has alerts on.
pub open spec fn asks_for_alert(status: Status, target_alert: bool) -> bool {
    status != Status::Okay && target_alert
}

/// The first non-empty error message among the outcomes, or empty.
pub open spec fn first_error(elems: Seq<CheckResultElement>) -> Seq<char>
    decreases elems.len(),
{
    if elems.len() == 0 {
        Seq::empty()
    } else {
        match elems[0].err_msg {
            Some(m) if m@.len() > 0 => m@,
            _ => first_error(elems.drop_first()),
        }
    }
}

/// Finds the first non-empty error message among the outcomes.
pub fn first_error_message(elems: &[CheckResultElement]) -> (r: String)
    ensures
        r@ == first_error(elems@),
{
    let mut i: usize = 0;
    assert(elems@.skip(0) =~= elems@);
    while i < elems.len()
        invariant
            i <= elems@.len(),
            first_error(elems@) == first_error(elems@.skip(i as int)),
        decreases elems@.len() - i,
    {
        proof {
            assert(elems@.skip(i as int)[0] == elems@[i as int]);
            assert(elems@.skip(i as int).drop_first() =~= elems@.skip(i + 1));
        }
        if let Some(m) = &elems[i].err_msg {
            if m.as_str().unicode_len() > 0 {
                return m.clone();
            }
        }
        i = i + 1;
    }
    proof {
        assert(elems@.skip(i as int) =~= Seq::<CheckResultElement>::empty());
    }
    String::new()
}

pub open spec fn poll_failure_text(msg: Seq<char>) -> Seq<char> {
    "failed to poll server: "@ + msg
}

/// Builds the outcome of one cycle of `target`. `result` is what probing
/// produced, or the message of the error that stopped it before any
/// address was tried (an invalid URL, a failed name lookup); `latency_ms`
/// and `time` are the measured duration and the time stamp of the cycle.
pub fn classify(
    target: &CanaryTarget,
    result: &Result<CheckResult, String>,
    latency_ms: u64,
    time: String,
) -> (r: CanaryCheck)
    ensures
        r.target == *target,
        r.alert == target.alert,
        r.latency_ms == latency_ms,
        r.time == time,
        match *result {
            Err(msg) => {
                &&& r.status == Status::Unknown
                &&& r.need_to_alert == target.alert
                &&& r.status_code@ == poll_failure_text(msg@)
                &&& r.status_reason@ == msg@
            },
            Ok(res) => {
                &&& r.status == cycle_status(res.elements@)
                &&& r.need_to_alert == asks_for_alert(r.status, target.alert)
                &&& r.status_code@ == code_summary(res.elements@)
                &&& r.status_reason@ == first_error(res.elements@)
            },
        },
{
    match result {
        Err(msg) => CanaryCheck {
            alert: target.alert,
            latency_ms,
            need_to_alert: target.alert,
            status_code: join_text("failed to poll server: ", msg.as_str()),
            status_reason: msg.clone(),
            status: Status::Unknown,
            target: target.clone(),
            time,
        },
        Ok(res) => {
            let (status, need_to_alert) = if res.elements.len() == 0 {
                (Status::Unknown, target.alert)
            } else {
                match res.status() {
                    CheckStatus::Alive => (Status::Okay, false),
                    CheckStatus::Degraded => (Status::Unknown, target.alert),
                    CheckStatus::Failed => (Status::Fire, target.alert),
                }
            };
            CanaryCheck {
                alert: target.alert,
                latency_ms,
                need_to_alert,
                status_code: format_status_codes(res.elements()),
                status_reason: first_error_message(res.elements()),
                status,
                target: target.clone(),
                time,
            }
        },
    }
}

/// A duration given as whole seconds and sub-second nanoseconds, in whole
/// milliseconds, saturating at `u64::MAX`.
pub fn latency_millis(secs: u64, subsec_nanos: u32) -> (r: u64)
    requires
        subsec_nanos < 1_000_000_000,
    ensures
        secs * 1000 + subsec_nanos / 1_000_000 <= u64::MAX ==> r == secs * 1000 + subsec_nanos
            / 1_000_000,
        secs * 1000 + subsec_nanos / 1_000_000 > u64::MAX ==> r == u64::MAX,
{
    let ms = (subsec_nanos / 1_000_000) as u64;
    if secs > (u64::MAX - ms) / 1000 {
        assert(secs * 1000 + ms > u64::MAX) by (nonlinear_arith)
            requires
                secs > (u64::MAX - ms) / 1000,
                ms < 1000,
        ;
        u64::MAX
    } else {
        assert(secs * 1000 + ms <= u64::MAX) by (nonlinear_arith)
            requires
                secs <= (u64::MAX - ms) / 1000,
                ms < 1000,
        ;
        secs * 1000 + ms
    }
}

} // verus!
