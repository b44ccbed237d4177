//! The checkpoint: a single non-negative integer persisted as plain text,
//! marking the index below which every line has been handled. Corrupt or
//! missing text is never fatal; it only resets the run to the beginning.
//! The store also carries the high-water mark that keeps checkpoint
//! advancement monotonic under parallel workers, and the cadence rule that
//! decides when a worker persists.
use vstd::prelude::*;

use crate::numtext::{
    all_digits, dec_digits, dec_val, digit_val, is_digit, lemma_dec_digits_all_digits,
    lemma_dec_digits_round_trip, lemma_dec_val_prefix, render_u64,
};

verus! {

/// A worker persists a checkpoint whenever its line index crosses an
/// interval boundary.
pub const CHECKPOINT_INTERVAL: usize = 10000;

/// The resume index that checkpoint text stands for: its value when the
/// text is plain decimal digits whose value fits, and zero for anything
/// else — corrupt state only restarts the run.
pub open spec fn checkpoint_of(s: Seq<char>) -> nat {
    if s.len() > 0 && all_digits(s) && dec_val(s) <= usize::MAX {
        dec_val(s) as nat
    } else {
        0
    }
}

/// Read checkpoint text. Digit text that fits gives its value; empty,
/// malformed or oversized text gives zero.
pub fn parse_checkpoint(s: &str) -> (r: usize)
    ensures
        r == checkpoint_of(s@),
{
    let n = s.unicode_len();
    let mut i: usize = 0;
    let mut acc: usize = 0;
    while i < n
        invariant
            n == s@.len(),
            0 <= i <= n,
            forall|k: int| 0 <= k < i ==> is_digit(#[trigger] s@[k]),
            acc == dec_val(s@.take(i as int)),
        decreases n - i,
    {
        let c = s.get_char(i);
        let u = c as u32;
        if u < 48 || 57 < u {
            assert(!is_digit(s@[i as int]));
            return 0;
        }
        let d = (u - 48) as usize;
        proof {
            assert(s@.take(i + 1).drop_last() =~= s@.take(i as int));
            assert(s@.take(i + 1).last() == s@[i as int]);
            assert(digit_val(s@[i as int]) == d as int);
        }
        let next = match acc.checked_mul(10) {
            Some(m) => m.checked_add(d),
            None => None,
        };
        match next {
            Some(v) => {
                acc = v;
            },
            None => {
                proof {
                    assert(dec_val(s@.take(i + 1)) > usize::MAX);
                    if all_digits(s@) {
                        lemma_dec_val_prefix(s@, i + 1);
                    }
                }
                return 0;
            },
        }
        i = i + 1;
    }
    proof {
        assert(s@.take(n as int) =~= s@);
    }
    acc
}

/// Write a checkpoint as plain decimal text.
pub fn render_checkpoint(n: usize) -> (r: String)
    ensures
        r@ == dec_digits(n as nat),
{
    render_u64(n as u64)
}

/// Reading a rendered checkpoint back gives the index that was saved: a
/// persisted checkpoint is never misread.
pub proof fn lemma_checkpoint_round_trip(n: nat)
    requires
        n <= usize::MAX,
    ensures
        checkpoint_of(dec_digits(n)) == n,
{
    lemma_dec_digits_all_digits(n);
    lemma_dec_digits_round_trip(n);
}

/// The highest line index confirmed handled so far. Merging observed
/// indices through `advance` only ever raises the stored value, so a
/// checkpoint taken from it never regresses, in whatever order parallel
/// workers report.
pub struct HighWaterMark {
    /// The highest index seen so far.
    pub value: usize,
}

impl HighWaterMark {
    /// Start tracking at the loaded checkpoint.
    pub fn new(start: usize) -> (r: HighWaterMark)
        ensures
            r.value == start,
    {
        HighWaterMark { value: start }
    }

    /// Merge one observed index: take the maximum of the stored value and
    /// the observation. The stored value never decreases.
    pub fn advance(&mut self, observed: usize)
        ensures
            final(self).value == if observed > old(self).value {
                observed as int
            } else {
                old(self).value as int
            },
            final(self).value >= old(self).value,
            final(self).value >= observed,
    {
        if observed > self.value {
            self.value = observed;
        }
    }
}

/// The cadence rule: a worker at line index `index` persists a checkpoint
/// exactly when the index sits on an interval boundary past the checkpoint
/// the run started from.
pub fn should_save_checkpoint(index: usize, start_checkpoint: usize) -> (r: bool)
    ensures
        r == (index as int % CHECKPOINT_INTERVAL as int == 0 && index > start_checkpoint),
{
    index % CHECKPOINT_INTERVAL == 0 && index > start_checkpoint
}

} // verus!
