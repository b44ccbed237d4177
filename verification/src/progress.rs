//! The progress reporter: throughput, remaining-time estimate, percent
//! complete, and the snapshot handed to whoever watches the run. Every
//! figure is defined for every input — a zero elapsed time or an empty
//! input never divides by zero — and is exact integer arithmetic.
use vstd::prelude::*;

use crate::engine::RunStatus;
use crate::numtext::{pad2, push_pad2};

verus! {

/// A progress snapshot is emitted at most once per this many milliseconds.
pub const PROGRESS_INTERVAL_MILLIS: u64 = 3000;

/// How many lines are left once `processed` of `total` are done; zero when
/// the counters ever cross.
pub open spec fn remaining_of(processed: nat, total: nat) -> nat {
    if total > processed {
        (total - processed) as nat
    } else {
        0
    }
}

/// Lines handled per second of elapsed time. Before a full second has
/// elapsed the processed count itself stands in, as a lower bound that
/// avoids dividing by zero.
pub open spec fn throughput_spec(processed: nat, elapsed_secs: nat) -> nat {
    if elapsed_secs == 0 {
        processed
    } else {
        processed / elapsed_secs
    }
}

/// The estimated seconds left: the remaining lines over the observed rate,
/// computed as `remaining * elapsed / processed` so that nothing is lost
/// to intermediate truncation. Zero until anything was processed.
pub open spec fn eta_secs_spec(processed: nat, total: nat, elapsed_secs: nat) -> nat {
    if processed == 0 {
        0
    } else {
        remaining_of(processed, total) * elapsed_secs / processed
    }
}

/// A duration as clock text: `MM:SS`, or `HH:MM:SS` once there is an hour
/// component, each field two digits or more.
pub open spec fn duration_text(total_secs: nat) -> Seq<char> {
    let h = total_secs / 3600;
    let m = (total_secs % 3600) / 60;
    let s = total_secs % 60;
    if h > 0 {
        pad2(h) + seq![':'] + pad2(m) + seq![':'] + pad2(s)
    } else {
        pad2(m) + seq![':'] + pad2(s)
    }
}

/// The remaining-time text: a placeholder until the first line is done,
/// then the estimate as clock text, capped at the largest representable
/// number of seconds.
pub open spec fn eta_text(processed: nat, total: nat, elapsed_secs: nat) -> Seq<char> {
    if processed == 0 {
        "Calculating..."@
    } else if eta_secs_spec(processed, total, elapsed_secs) > u64::MAX {
        duration_text(u64::MAX as nat)
    } else {
        duration_text(eta_secs_spec(processed, total, elapsed_secs))
    }
}

/// Percent complete, guarded against an empty input.
pub open spec fn percent_spec(current: nat, total: nat) -> nat {
    if total == 0 {
        0
    } else {
        100 * current / total
    }
}

/// The progress figures are total and bounded: for every combination of
/// counters and elapsed time — zero elapsed time included — the throughput
/// never exceeds the processed count, the estimate never exceeds
/// `remaining * elapsed`, and the percentage never exceeds one hundred.
pub proof fn lemma_progress_figures_bounded(processed: nat, total: nat, elapsed_secs: nat)
    ensures
        throughput_spec(processed, elapsed_secs) <= processed,
        eta_secs_spec(processed, total, elapsed_secs) <= remaining_of(processed, total)
            * elapsed_secs,
        percent_spec(processed, total) <= 100 || processed > total,
{
    if elapsed_secs > 0 {
        vstd::arithmetic::div_mod::lemma_div_nonincreasing(processed as int, elapsed_secs as int);
    }
    if processed > 0 {
        vstd::arithmetic::div_mod::lemma_div_nonincreasing(
            remaining_of(processed, total) * elapsed_secs as int,
            processed as int,
        );
        vstd::arithmetic::div_mod::lemma_div_pos_is_pos(
            remaining_of(processed, total) * elapsed_secs as int,
            processed as int,
        );
    }
    if total > 0 && processed <= total {
        vstd::arithmetic::div_mod::lemma_div_is_ordered(
            100 * processed as int,
            100 * total as int,
            total as int,
        );
        vstd::arithmetic::div_mod::lemma_div_by_multiple(100, total as int);
    }
}

/// Format a duration as clock text.
pub fn format_duration(total_secs: u64) -> (r: String)
    ensures
        r@ == duration_text(total_secs as nat),
{
    proof {
        reveal_strlit(":");
    }
    let h = total_secs / 3600;
    let m = (total_secs % 3600) / 60;
    let s = total_secs % 60;
    let mut out = String::new();
    if h > 0 {
        push_pad2(&mut out, h);
        out.append(":");
    }
    push_pad2(&mut out, m);
    out.append(":");
    push_pad2(&mut out, s);
    proof {
        assert(out@ =~= duration_text(total_secs as nat));
    }
    out
}

/// Lines handled per second, defined for every input.
pub fn throughput(processed: u64, elapsed_secs: u64) -> (r: u64)
    ensures
        r == throughput_spec(processed as nat, elapsed_secs as nat),
{
    if elapsed_secs == 0 {
        processed
    } else {
        processed / elapsed_secs
    }
}

/// The remaining-time text for the given counters, defined for every
/// input, zero elapsed time included.
pub fn estimate_remaining(processed: u64, total: u64, elapsed_secs: u64) -> (r: String)
    ensures
        r@ == eta_text(processed as nat, total as nat, elapsed_secs as nat),
{
    if processed == 0 {
        return String::from_str("Calculating...");
    }
    let remaining = if total > processed {
        total - processed
    } else {
        0
    };
    assert((remaining as int) * (elapsed_secs as int) <= (u64::MAX as int) * (u64::MAX as int))
        by (nonlinear_arith)
        requires
            0 <= remaining as int <= u64::MAX as int,
            0 <= elapsed_secs as int <= u64::MAX as int,
    ;
    let prod = (remaining as u128) * (elapsed_secs as u128);
    let eta128 = prod / (processed as u128);
    let eta = if eta128 > u64::MAX as u128 {
        u64::MAX
    } else {
        eta128 as u64
    };
    format_duration(eta)
}

/// Percent complete, never above one hundred.
pub fn percent_complete(current: u64, total: u64) -> (r: u64)
    requires
        current <= total,
    ensures
        r == percent_spec(current as nat, total as nat),
        r <= 100,
{
    if total == 0 {
        0
    } else {
        let num = 100u128 * (current as u128);
        let pct = num / (total as u128);
        proof {
            vstd::arithmetic::div_mod::lemma_div_is_ordered(
                100 * current as int,
                100 * total as int,
                total as int,
            );
            vstd::arithmetic::div_mod::lemma_div_by_multiple(100, total as int);
        }
        pct as u64
    }
}

/// The text shown for each run state.
pub open spec fn status_text_spec(s: RunStatus) -> Seq<char> {
    match s {
        RunStatus::Running => "Processing..."@,
        RunStatus::Completed => "Done."@,
        RunStatus::Cancelled => "Cancelled."@,
        RunStatus::Failed => "Failed."@,
    }
}

impl RunStatus {
    /// The text shown for this run state.
    pub fn text(&self) -> (r: String)
        ensures
            r@ == status_text_spec(*self),
    {
        match self {
            RunStatus::Running => String::from_str("Processing..."),
            RunStatus::Completed => String::from_str("Done."),
            RunStatus::Cancelled => String::from_str("Cancelled."),
            RunStatus::Failed => String::from_str("Failed."),
        }
    }
}

/// One snapshot of a run for whoever watches it: the counters, the rate,
/// the remaining-time text and the state text.
pub struct ProgressSnapshot {
    /// Lines counted as processed so far.
    pub processed: u64,
    /// Lines accepted into the output so far.
    pub valid: u64,
    /// Lines in the input.
    pub total: u64,
    /// Lines handled per second of elapsed time.
    pub throughput: u64,
    /// Remaining-time text.
    pub eta: String,
    /// State text.
    pub status_text: String,
}

/// Build the snapshot for the given counters and state.
pub fn make_snapshot(
    processed: u64,
    valid: u64,
    total: u64,
    elapsed_secs: u64,
    status: &RunStatus,
) -> (r: ProgressSnapshot)
    ensures
        r.processed == processed,
        r.valid == valid,
        r.total == total,
        r.throughput == throughput_spec(processed as nat, elapsed_secs as nat),
        r.eta@ == eta_text(processed as nat, total as nat, elapsed_secs as nat),
        r.status_text@ == status_text_spec(*status),
{
    ProgressSnapshot {
        processed,
        valid,
        total,
        throughput: throughput(processed, elapsed_secs),
        eta: estimate_remaining(processed, total, elapsed_secs),
        status_text: status.text(),
    }
}

/// The throttle: a new snapshot is due once the interval has passed since
/// the last one was emitted.
pub fn progress_due(now_millis: u64, last_emit_millis: u64) -> (r: bool)
    requires
        last_emit_millis <= now_millis,
    ensures
        r == (now_millis - last_emit_millis >= PROGRESS_INTERVAL_MILLIS),
{
    now_millis - last_emit_millis >= PROGRESS_INTERVAL_MILLIS
}

} // verus!
