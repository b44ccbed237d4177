//! The verified core of the worker pool: one pass over the lines of the
//! input, starting at the resume point, counting processed and valid lines,
//! collecting accepted lines for the output sink, and stopping early when
//! the run is cancelled.
//!
//! Cancellation is cooperative and is decided before a line is picked up;
//! the `budget` argument of [`run_lines`] says how many lines may still be
//! picked up before the cancellation flag is honoured.
use vstd::prelude::*;

use crate::phrase::{classify_line, counts_line, line_accepted, LineClass};
use crate::source::{spec_lines, split_lines};

verus! {

/// How many of the lines in `[from, to)` count as processed.
pub open spec fn spec_processed(lines: Seq<Seq<char>>, from: int, to: int) -> nat
    recommends
        0 <= from,
        to <= lines.len(),
    decreases to - from,
{
    if to <= from {
        0
    } else {
        spec_processed(lines, from, to - 1) + (if counts_line(lines[to - 1]) {
            1nat
        } else {
            0nat
        })
    }
}

/// How many of the lines in `[from, to)` are accepted into the output.
pub open spec fn spec_valid(lines: Seq<Seq<char>>, from: int, to: int) -> nat
    recommends
        0 <= from,
        to <= lines.len(),
    decreases to - from,
{
    if to <= from {
        0
    } else {
        spec_valid(lines, from, to - 1) + (if line_accepted(lines[to - 1]) {
            1nat
        } else {
            0nat
        })
    }
}

/// The accepted lines of `[from, to)`, in input order, each kept as it was
/// read.
pub open spec fn spec_output(lines: Seq<Seq<char>>, from: int, to: int) -> Seq<Seq<char>>
    recommends
        0 <= from,
        to <= lines.len(),
    decreases to - from,
{
    if to <= from {
        Seq::empty()
    } else {
        spec_output(lines, from, to - 1) + (if line_accepted(lines[to - 1]) {
            seq![lines[to - 1]]
        } else {
            Seq::empty()
        })
    }
}

/// The index a run starts at: the loaded checkpoint, capped by the number
/// of lines.
pub open spec fn run_start(len: int, checkpoint: int) -> int {
    if checkpoint <= len {
        checkpoint
    } else {
        len
    }
}

/// The first index a run does not examine: the run stops early after
/// `budget` lines when cancelled, and otherwise reaches the end.
pub open spec fn run_end(len: int, start: int, budget: int) -> int {
    if budget <= len - start {
        start + budget
    } else {
        len
    }
}

/// How a run ended.
pub enum RunStatus {
    /// The run is still going; only progress snapshots carry this state.
    Running,
    /// Every line was consumed without cancellation.
    Completed,
    /// The cancellation flag was honoured before the end of the input.
    Cancelled,
    /// A fatal error aborted the run; only progress snapshots carry this state.
    Failed,
}

/// What one run hands back: the counters, the accepted lines for the
/// output sink, the checkpoint to persist, and how the run ended.
pub struct RunResult {
    /// Lines examined that held any non-white-space text.
    pub processed: usize,
    /// Processed lines whose trimmed text the predicate accepted.
    pub valid: usize,
    /// The accepted lines, in input order, each as it was read.
    pub output: Vec<String>,
    /// The index below which every line has been handled; never below the
    /// checkpoint the run started from.
    pub next_checkpoint: usize,
    /// Completed when all lines were consumed, Cancelled otherwise.
    pub status: RunStatus,
}

/// Process the lines of one run: skip everything below `checkpoint`, then
/// examine lines in order until the input ends or `budget` lines have been
/// picked up (a cancelled run). Blank lines are skipped without being
/// counted; every other line counts as processed, and is copied to the
/// output exactly when the predicate accepts its trimmed text.
pub fn run_lines(lines: &Vec<String>, checkpoint: usize, budget: usize) -> (r: RunResult)
    ensures
        ({
            let ld = lines.deep_view();
            let len = ld.len() as int;
            let start = run_start(len, checkpoint as int);
            let end = run_end(len, start, budget as int);
            &&& r.processed == spec_processed(ld, start, end)
            &&& r.valid == spec_valid(ld, start, end)
            &&& r.output.deep_view() == spec_output(ld, start, end)
            &&& r.next_checkpoint == if checkpoint as int > end {
                checkpoint as int
            } else {
                end
            }
            &&& r.next_checkpoint >= checkpoint
            &&& (r.status is Completed <==> end == len)
            &&& (r.status is Cancelled <==> end < len)
            &&& r.valid <= r.processed
            &&& r.processed <= end - start
        }),
{
    let ghost ld = lines.deep_view();
    let n = lines.len();
    let start = if checkpoint < n {
        checkpoint
    } else {
        n
    };
    let mut i = start;
    let mut processed: usize = 0;
    let mut valid: usize = 0;
    let mut output: Vec<String> = Vec::new();
    assert(output.deep_view() =~= spec_output(ld, start as int, start as int));
    while i < n && (i - start) < budget
        invariant
            ld == lines.deep_view(),
            n == ld.len(),
            start <= i <= n,
            i - start <= budget,
            processed == spec_processed(ld, start as int, i as int),
            valid == spec_valid(ld, start as int, i as int),
            output.deep_view() == spec_output(ld, start as int, i as int),
            valid <= processed,
            processed <= i - start,
        decreases n - i,
    {
        let line = &lines[i];
        assert(line@ == ld[i as int]);
        match classify_line(line.as_str()) {
            LineClass::Blank => {
            },
            LineClass::Invalid => {
                processed = processed + 1;
            },
            LineClass::Valid => {
                processed = processed + 1;
                valid = valid + 1;
                let ghost old_dv = output.deep_view();
                output.push(line.clone());
                assert(output.deep_view() =~= old_dv.push(ld[i as int]));
                assert(spec_output(ld, start as int, i + 1) =~= old_dv.push(ld[i as int]));
            },
        }
        i = i + 1;
    }
    let next_checkpoint = if checkpoint > i {
        checkpoint
    } else {
        i
    };
    let status = if i == n {
        RunStatus::Completed
    } else {
        RunStatus::Cancelled
    };
    RunResult { processed, valid, output, next_checkpoint, status }
}

/// The counters can never cross: however many lines a range holds, the
/// accepted lines are among the processed ones.
pub proof fn lemma_valid_le_processed(lines: Seq<Seq<char>>, from: int, to: int)
    ensures
        spec_valid(lines, from, to) <= spec_processed(lines, from, to),
    decreases to - from,
{
    if from < to {
        lemma_valid_le_processed(lines, from, to - 1);
    }
}

/// A run over `[from, to)` splits at any `mid` between them: the two parts
/// count and output exactly what the whole does, with nothing lost at the
/// seam.
pub proof fn lemma_run_splits(lines: Seq<Seq<char>>, from: int, mid: int, to: int)
    requires
        from <= mid <= to,
    ensures
        spec_processed(lines, from, to) == spec_processed(lines, from, mid) + spec_processed(
            lines,
            mid,
            to,
        ),
        spec_valid(lines, from, to) == spec_valid(lines, from, mid) + spec_valid(lines, mid, to),
        spec_output(lines, from, to) == spec_output(lines, from, mid) + spec_output(
            lines,
            mid,
            to,
        ),
    decreases to - mid,
{
    if to <= mid {
        assert(spec_output(lines, from, to) =~= spec_output(lines, from, mid) + spec_output(
            lines,
            mid,
            to,
        ));
    } else {
        lemma_run_splits(lines, from, mid, to - 1);
        assert(spec_output(lines, from, to) =~= spec_output(lines, from, mid) + spec_output(
            lines,
            mid,
            to,
        ));
    }
}

/// Resuming at `n` reads nothing below `n`: the counters and the output of
/// a run over `[n, len)` are the same on any two inputs that agree on the
/// lines at and above `n`, whatever stands below.
pub proof fn lemma_resume_ignores_prefix(a: Seq<Seq<char>>, b: Seq<Seq<char>>, n: int, to: int)
    requires
        0 <= n <= to,
        to <= a.len(),
        to <= b.len(),
        forall|i: int| n <= i < to ==> a[i] == b[i],
    ensures
        spec_processed(a, n, to) == spec_processed(b, n, to),
        spec_valid(a, n, to) == spec_valid(b, n, to),
        spec_output(a, n, to) == spec_output(b, n, to),
    decreases to - n,
{
    if n < to {
        lemma_resume_ignores_prefix(a, b, n, to - 1);
        assert(spec_output(a, n, to) =~= spec_output(b, n, to));
    } else {
        assert(spec_output(a, n, to) =~= spec_output(b, n, to));
    }
}

/// Resuming at `n` is a fresh run over the suffix: a run over `[n, to)`
/// counts and outputs exactly what a run from the start over the same
/// lines, re-indexed from zero, does. Lines below the resume point are
/// skipped; lines at or above it are all reprocessed.
pub proof fn lemma_resume_is_suffix_run(lines: Seq<Seq<char>>, n: int, to: int)
    requires
        0 <= n <= to <= lines.len(),
    ensures
        spec_processed(lines, n, to) == spec_processed(lines.skip(n), 0, to - n),
        spec_valid(lines, n, to) == spec_valid(lines.skip(n), 0, to - n),
        spec_output(lines, n, to) == spec_output(lines.skip(n), 0, to - n),
    decreases to - n,
{
    if n < to {
        lemma_resume_is_suffix_run(lines, n, to - 1);
        assert(lines.skip(n)[to - n - 1] == lines[to - 1]);
        assert(spec_output(lines, n, to) =~= spec_output(lines.skip(n), 0, to - n));
    } else {
        assert(spec_output(lines, n, to) =~= spec_output(lines.skip(n), 0, to - n));
    }
}

/// With a deterministic predicate and an unchanged input, a full run is a
/// function of the lines alone: two full runs count the same and produce
/// the same output, line for line, and so as a multiset of lines.
pub proof fn lemma_full_runs_identical(a: Seq<Seq<char>>, b: Seq<Seq<char>>)
    requires
        a =~= b,
    ensures
        spec_processed(a, 0, a.len() as int) == spec_processed(b, 0, b.len() as int),
        spec_valid(a, 0, a.len() as int) == spec_valid(b, 0, b.len() as int),
        spec_output(a, 0, a.len() as int) == spec_output(b, 0, b.len() as int),
        spec_output(a, 0, a.len() as int).to_multiset() == spec_output(
            b,
            0,
            b.len() as int,
        ).to_multiset(),
{
}

/// Empty input: a run over no lines processes nothing, accepts nothing,
/// outputs nothing, and is complete at once.
pub proof fn lemma_empty_input(lines: Seq<Seq<char>>, checkpoint: int, budget: int)
    requires
        lines.len() == 0,
        0 <= checkpoint,
        0 <= budget,
    ensures
        spec_processed(lines, run_start(0, checkpoint), run_end(0, run_start(0, checkpoint), budget))
            == 0,
        spec_valid(lines, run_start(0, checkpoint), run_end(0, run_start(0, checkpoint), budget))
            == 0,
        spec_output(lines, run_start(0, checkpoint), run_end(0, run_start(0, checkpoint), budget))
            =~= Seq::<Seq<char>>::empty(),
        run_end(0, run_start(0, checkpoint), budget) == lines.len(),
{
}

/// A run cancelled after picking up `budget` lines stops at an index no
/// greater than `start + budget`, and persists exactly that index; a run
/// resumed there picks up every remaining line, so the cancelled run and
/// the resumed run together cover the whole input: nothing is silently
/// skipped.
pub proof fn lemma_cancel_then_resume(lines: Seq<Seq<char>>, start: int, budget: int)
    requires
        0 <= start <= lines.len(),
        0 <= budget,
    ensures
        ({
            let end = run_end(lines.len() as int, start, budget);
            &&& start <= end <= start + budget
            &&& end <= lines.len()
            &&& spec_processed(lines, start, lines.len() as int) == spec_processed(
                lines,
                start,
                end,
            ) + spec_processed(lines, end, lines.len() as int)
            &&& spec_valid(lines, start, lines.len() as int) == spec_valid(lines, start, end)
                + spec_valid(lines, end, lines.len() as int)
            &&& spec_output(lines, start, lines.len() as int) == spec_output(lines, start, end)
                + spec_output(lines, end, lines.len() as int)
        }),
{
    let end = run_end(lines.len() as int, start, budget);
    lemma_run_splits(lines, start, end, lines.len() as int);
}

/// A full, uncancelled run from the checkpoint to the end of the input.
pub fn run_to_completion(lines: &Vec<String>, checkpoint: usize) -> (r: RunResult)
    ensures
        ({
            let ld = lines.deep_view();
            let len = ld.len() as int;
            let start = run_start(len, checkpoint as int);
            &&& r.processed == spec_processed(ld, start, len)
            &&& r.valid == spec_valid(ld, start, len)
            &&& r.output.deep_view() == spec_output(ld, start, len)
            &&& r.status is Completed
            &&& r.valid <= r.processed
        }),
{
    run_lines(lines, checkpoint, lines.len())
}

/// One run over the text of the whole input: split it into lines, then
/// process them from the checkpoint under the cancellation budget.
pub fn process_content(content: &str, checkpoint: usize, budget: usize) -> (r: RunResult)
    ensures
        ({
            let ld = spec_lines(content@);
            let len = ld.len() as int;
            let start = run_start(len, checkpoint as int);
            let end = run_end(len, start, budget as int);
            &&& r.processed == spec_processed(ld, start, end)
            &&& r.valid == spec_valid(ld, start, end)
            &&& r.output.deep_view() == spec_output(ld, start, end)
            &&& r.next_checkpoint >= checkpoint
            &&& (r.status is Completed <==> end == len)
            &&& (r.status is Cancelled <==> end < len)
            &&& r.valid <= r.processed
        }),
{
    let lines = split_lines(content);
    run_lines(&lines, checkpoint, budget)
}

} // verus!
