//! The line source: the text of the input file split into lines, exactly
//! as the run sees them. Lines are separated by a line feed, and a carriage
//! return directly before the separator belongs to the separator, not to
//! the line. A final line without a terminator is yielded as it stands;
//! text ending in a terminator yields no extra empty line.
use vstd::prelude::*;

verus! {

/// The index of the first line feed at or after `i`, or the length when
/// none is left.
pub open spec fn find_nl(s: Seq<char>, i: int) -> int
    recommends
        0 <= i <= s.len(),
    decreases s.len() - i,
    when 0 <= i <= s.len()
{
    if i >= s.len() {
        i
    } else if s[i] == '\n' {
        i
    } else {
        find_nl(s, i + 1)
    }
}

pub proof fn lemma_find_nl_bounds(s: Seq<char>, i: int)
    requires
        0 <= i <= s.len(),
    ensures
        i <= find_nl(s, i) <= s.len(),
    decreases s.len() - i,
{
    if i < s.len() && s[i] != '\n' {
        lemma_find_nl_bounds(s, i + 1);
    }
}

/// Where the first line feed at or after `i` stands: at the first index
/// not excluded by the characters before it.
pub proof fn lemma_find_nl_at(s: Seq<char>, i: int, j: int)
    requires
        0 <= i <= j <= s.len(),
        forall|k: int| i <= k < j ==> s[k] != '\n',
        j == s.len() || s[j] == '\n',
    ensures
        find_nl(s, i) == j,
    decreases j - i,
{
    if i < j {
        lemma_find_nl_at(s, i + 1, j);
    }
}

/// A terminated line with its carriage return, if it carried one, removed.
pub open spec fn strip_cr(l: Seq<char>) -> Seq<char> {
    if l.len() > 0 && l.last() == '\r' {
        l.drop_last()
    } else {
        l
    }
}

/// The lines of the text from position `i` on.
pub open spec fn spec_lines_from(s: Seq<char>, i: int) -> Seq<Seq<char>>
    recommends
        0 <= i <= s.len(),
    decreases s.len() - i,
    when 0 <= i <= s.len()
    via spec_lines_from_decreases
{
    if i >= s.len() {
        Seq::empty()
    } else {
        let j = find_nl(s, i);
        if j >= s.len() {
            seq![s.subrange(i, j)]
        } else {
            seq![strip_cr(s.subrange(i, j))] + spec_lines_from(s, j + 1)
        }
    }
}

#[via_fn]
proof fn spec_lines_from_decreases(s: Seq<char>, i: int) {
    if 0 <= i <= s.len() {
        lemma_find_nl_bounds(s, i);
    }
}

/// The lines of the text.
pub open spec fn spec_lines(s: Seq<char>) -> Seq<Seq<char>> {
    spec_lines_from(s, 0)
}

/// Split the text of the input into its lines.
pub fn split_lines(content: &str) -> (r: Vec<String>)
    ensures
        r.deep_view() == spec_lines(content@),
{
    let n = content.unicode_len();
    let mut out: Vec<String> = Vec::new();
    let mut ls: usize = 0;
    let mut i: usize = 0;
    proof {
        assert(out.deep_view() =~= Seq::<Seq<char>>::empty());
    }
    while i < n
        invariant
            n == content@.len(),
            0 <= ls <= i <= n,
            forall|k: int| ls <= k < i ==> content@[k] != '\n',
            out.deep_view() + spec_lines_from(content@, ls as int) == spec_lines(content@),
        decreases n - i,
    {
        let c = content.get_char(i);
        if c == '\n' {
            proof {
                lemma_find_nl_at(content@, ls as int, i as int);
            }
            let ghost seg = content@.subrange(ls as int, i as int);
            let line_str = if i > ls && content.get_char(i - 1) == '\r' {
                content.substring_char(ls, i - 1)
            } else {
                content.substring_char(ls, i)
            };
            proof {
                if i > ls && content@[i - 1] == '\r' {
                    assert(seg.last() == content@[i - 1]);
                    assert(content@.subrange(ls as int, i - 1) =~= seg.drop_last());
                } else {
                    if i > ls {
                        assert(seg.last() == content@[i - 1]);
                    }
                }
                assert(line_str@ == strip_cr(seg));
            }
            let ghost old_dv = out.deep_view();
            out.push(String::from_str(line_str));
            proof {
                assert(out.deep_view() =~= old_dv.push(strip_cr(seg)));
                assert(spec_lines_from(content@, ls as int) == seq![strip_cr(seg)]
                    + spec_lines_from(content@, i + 1));
                assert(out.deep_view() + spec_lines_from(content@, i + 1) =~= old_dv
                    + spec_lines_from(content@, ls as int));
            }
            ls = i + 1;
        }
        i = i + 1;
    }
    if ls < n {
        proof {
            lemma_find_nl_at(content@, ls as int, n as int);
        }
        let tail = content.substring_char(ls, n);
        let ghost old_dv = out.deep_view();
        out.push(String::from_str(tail));
        proof {
            assert(out.deep_view() =~= old_dv.push(content@.subrange(ls as int, n as int)));
            assert(spec_lines_from(content@, ls as int) == seq![
                content@.subrange(ls as int, n as int),
            ]);
            assert(out.deep_view() =~= old_dv + spec_lines_from(content@, ls as int));
        }
    } else {
        proof {
            assert(out.deep_view() + spec_lines_from(content@, ls as int) =~= out.deep_view());
        }
    }
    out
}

/// Count the lines of the input: the total the progress reporter works
/// against.
pub fn count_lines(content: &str) -> (r: usize)
    ensures
        r == spec_lines(content@).len(),
{
    let lines = split_lines(content);
    lines.len()
}

} // verus!
