use mnemonic_validator::engine::{process_content, run_lines, run_to_completion, RunStatus};
use mnemonic_validator::phrase::{classify_line, LineClass};

// BIP39 test vectors for the English word list: all-zero entropy.
const VALID_12: &str = "abandon abandon abandon abandon abandon abandon abandon abandon abandon abandon abandon about";
const VALID_24: &str = "abandon abandon abandon abandon abandon abandon abandon abandon abandon abandon abandon abandon abandon abandon abandon abandon abandon abandon abandon abandon abandon abandon abandon art";

fn strings(v: &[&str]) -> Vec<String> {
    v.iter().map(|s| s.to_string()).collect()
}

#[test]
fn scenario_two_valid_of_three() {
    let lines = strings(&[VALID_24, "not a phrase", VALID_12]);
    let r = run_to_completion(&lines, 0);
    assert_eq!(r.processed, 3);
    assert_eq!(r.valid, 2);
    assert_eq!(r.output, vec![VALID_24.to_string(), VALID_12.to_string()]);
    assert!(matches!(r.status, RunStatus::Completed));
}

#[test]
fn classify_blank_invalid_valid() {
    assert!(matches!(classify_line(""), LineClass::Blank));
    assert!(matches!(classify_line("   \t  "), LineClass::Blank));
    assert!(matches!(classify_line("not a phrase"), LineClass::Invalid));
    assert!(matches!(classify_line(VALID_12), LineClass::Valid));
    // The predicate sees the trimmed text.
    assert!(matches!(
        classify_line(&format!("  {}  ", VALID_12)),
        LineClass::Valid
    ));
    // Eleven words of twelve: rejected.
    assert!(matches!(
        classify_line("abandon abandon abandon abandon abandon abandon abandon abandon abandon abandon about"),
        LineClass::Invalid
    ));
}

#[test]
fn empty_input_completes_at_once() {
    let lines: Vec<String> = Vec::new();
    let r = run_to_completion(&lines, 0);
    assert_eq!(r.processed, 0);
    assert_eq!(r.valid, 0);
    assert!(r.output.is_empty());
    assert!(matches!(r.status, RunStatus::Completed));
}

#[test]
fn blank_lines_are_not_counted() {
    let lines = strings(&["", "   ", "\t", VALID_12, ""]);
    let r = run_to_completion(&lines, 0);
    assert_eq!(r.processed, 1);
    assert_eq!(r.valid, 1);
    assert_eq!(r.output, vec![VALID_12.to_string()]);
}

#[test]
fn resume_skips_exactly_the_prefix() {
    let lines = strings(&[VALID_12, "x", VALID_24, "y", VALID_12]);
    // Checkpoint 2: lines 0 and 1 are skipped, 2..5 are processed.
    let r = run_to_completion(&lines, 2);
    assert_eq!(r.processed, 3);
    assert_eq!(r.valid, 2);
    assert_eq!(r.output, vec![VALID_24.to_string(), VALID_12.to_string()]);
    // Checkpoint at the end: nothing left.
    let r = run_to_completion(&lines, 5);
    assert_eq!(r.processed, 0);
    assert!(matches!(r.status, RunStatus::Completed));
    // Checkpoint beyond the end behaves the same.
    let r = run_to_completion(&lines, 100);
    assert_eq!(r.processed, 0);
    assert!(matches!(r.status, RunStatus::Completed));
}

#[test]
fn full_runs_are_idempotent() {
    let lines = strings(&[VALID_24, "junk", "", VALID_12, "more junk"]);
    let a = run_to_completion(&lines, 0);
    let b = run_to_completion(&lines, 0);
    assert_eq!(a.output, b.output);
    assert_eq!(a.processed, b.processed);
    assert_eq!(a.valid, b.valid);
}

#[test]
fn cancelled_run_persists_a_safe_checkpoint() {
    let lines = strings(&["a", VALID_12, "b", VALID_24, "c"]);
    // Cancelled after picking up two lines.
    let cancelled = run_lines(&lines, 0, 2);
    assert!(matches!(cancelled.status, RunStatus::Cancelled));
    assert!(cancelled.next_checkpoint <= 2);
    assert_eq!(cancelled.next_checkpoint, 2);
    assert_eq!(cancelled.output, vec![VALID_12.to_string()]);
    // Resuming from the persisted checkpoint covers the rest: together the
    // two runs produce exactly what one full run does.
    let resumed = run_to_completion(&lines, cancelled.next_checkpoint);
    assert!(matches!(resumed.status, RunStatus::Completed));
    let full = run_to_completion(&lines, 0);
    let mut joined = cancelled.output.clone();
    joined.extend(resumed.output.clone());
    assert_eq!(joined, full.output);
    assert_eq!(cancelled.processed + resumed.processed, full.processed);
    assert_eq!(cancelled.valid + resumed.valid, full.valid);
}

#[test]
fn zero_budget_examines_nothing() {
    let lines = strings(&[VALID_12, VALID_24]);
    let r = run_lines(&lines, 0, 0);
    assert_eq!(r.processed, 0);
    assert_eq!(r.valid, 0);
    assert!(r.output.is_empty());
    assert_eq!(r.next_checkpoint, 0);
    assert!(matches!(r.status, RunStatus::Cancelled));
}

#[test]
fn budget_reaching_the_end_completes() {
    let lines = strings(&["x", VALID_12]);
    let r = run_lines(&lines, 0, 2);
    assert!(matches!(r.status, RunStatus::Completed));
    assert_eq!(r.next_checkpoint, 2);
    assert_eq!(r.valid, 1);
}

#[test]
fn checkpoint_never_regresses() {
    let lines = strings(&["a", "b", "c"]);
    let r = run_lines(&lines, 2, 0);
    assert_eq!(r.next_checkpoint, 2);
    let r = run_to_completion(&lines, 2);
    assert!(r.next_checkpoint >= 2);
}

#[test]
fn process_content_runs_over_split_text() {
    let content = format!("{}\nnot a phrase\r\n{}\n\n", VALID_24, VALID_12);
    let r = process_content(&content, 0, usize::MAX);
    assert_eq!(r.processed, 3);
    assert_eq!(r.valid, 2);
    assert_eq!(r.output, vec![VALID_24.to_string(), VALID_12.to_string()]);
    assert!(matches!(r.status, RunStatus::Completed));
}

#[test]
fn process_content_empty_text() {
    let r = process_content("", 0, usize::MAX);
    assert_eq!(r.processed, 0);
    assert_eq!(r.valid, 0);
    assert!(r.output.is_empty());
    assert!(matches!(r.status, RunStatus::Completed));
}
