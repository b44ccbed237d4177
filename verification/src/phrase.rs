//! The validity predicate and the per-line decision the workers make:
//! blank lines are skipped, other lines are trimmed and handed to the
//! predicate, and accepted lines go to the output.
use vstd::prelude::*;

use crate::text::{trim_line, trim_spec};

verus! {

/// Whether a trimmed line is a valid mnemonic phrase. The predicate is an
/// external collaborator: a pure, deterministic function of the text alone,
/// so its result carries a name rather than a definition.
pub uninterp spec fn phrase_valid(s: Seq<char>) -> bool;

/// Relies on bip39's Mnemonic::parse_in_normalized with the English word
/// list: whether it returns Ok depends on the characters of `s` alone
/// (word lookup plus an entropy checksum), and the call returns on every
/// input.
#[verifier::external_body]
fn check_phrase(s: &str) -> (r: bool)
    ensures
        r == phrase_valid(s@),
{
    bip39::Mnemonic::parse_in_normalized(bip39::Language::English, s).is_ok()
}

/// Whether a line counts as processed: it holds at least one
/// non-white-space character.
pub open spec fn counts_line(l: Seq<char>) -> bool {
    trim_spec(l).len() > 0
}

/// Whether a line is accepted into the output: it counts, and its trimmed
/// text satisfies the validity predicate.
pub open spec fn line_accepted(l: Seq<char>) -> bool {
    counts_line(l) && phrase_valid(trim_spec(l))
}

/// What a worker decides about one line.
pub enum LineClass {
    /// Blank or white-space-only: skipped, not counted as processed.
    Blank,
    /// Counted as processed; the predicate rejected the trimmed text.
    Invalid,
    /// Counted as processed and accepted into the output.
    Valid,
}

/// Classify one line exactly as the run does: trim it, skip it when blank,
/// otherwise ask the predicate about the trimmed text.
pub fn classify_line(line: &str) -> (r: LineClass)
    ensures
        r is Blank <==> !counts_line(line@),
        r is Valid <==> line_accepted(line@),
{
    let t = trim_line(line);
    if t.unicode_len() == 0 {
        LineClass::Blank
    } else if check_phrase(t) {
        LineClass::Valid
    } else {
        LineClass::Invalid
    }
}

} // verus!
