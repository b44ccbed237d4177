//! Character-level text handling for the line processor: the white-space
//! test used to decide whether a line is blank, and trimming of a line
//! before the validity predicate sees it.
use vstd::prelude::*;

verus! {

/// The Unicode white-space code points: the set of characters that are
/// stripped from the ends of a line and that make a line blank when no
/// other character is present.
pub open spec fn is_ws_code(u: u32) -> bool {
    (0x9 <= u && u <= 0xD) || u == 0x20 || u == 0x85 || u == 0xA0 || u == 0x1680 || (0x2000 <= u
        && u <= 0x200A) || u == 0x2028 || u == 0x2029 || u == 0x202F || u == 0x205F || u == 0x3000
}

/// Whether a character counts as white space when trimming a line.
pub open spec fn is_ws(c: char) -> bool {
    is_ws_code(c as u32)
}

/// Executable white-space test, equal to the spec-level one.
pub fn is_ws_char(c: char) -> (r: bool)
    ensures
        r == is_ws(c),
{
    let u = c as u32;
    (0x9 <= u && u <= 0xD) || u == 0x20 || u == 0x85 || u == 0xA0 || u == 0x1680 || (0x2000 <= u
        && u <= 0x200A) || u == 0x2028 || u == 0x2029 || u == 0x202F || u == 0x205F || u == 0x3000
}

/// Index of the first non-white-space character at or after `i`,
/// or `s.len()` if white space runs to the end.
pub open spec fn skip_ws_from(s: Seq<char>, i: int) -> int
    recommends
        0 <= i <= s.len(),
    decreases s.len() - i,
    when 0 <= i <= s.len()
{
    if i >= s.len() {
        i
    } else if !is_ws(s[i]) {
        i
    } else {
        skip_ws_from(s, i + 1)
    }
}

/// One past the last non-white-space character strictly before `j`,
/// or `0` if white space runs back to the start.
pub open spec fn skip_ws_back(s: Seq<char>, j: int) -> int
    recommends
        0 <= j <= s.len(),
    decreases j,
    when 0 <= j <= s.len()
{
    if j <= 0 {
        j
    } else if !is_ws(s[j - 1]) {
        j
    } else {
        skip_ws_back(s, j - 1)
    }
}

/// The line with leading and trailing white space removed.
pub open spec fn trim_spec(s: Seq<char>) -> Seq<char> {
    let a = skip_ws_from(s, 0);
    let b = skip_ws_back(s, s.len() as int);
    if a < b {
        s.subrange(a, b)
    } else {
        Seq::empty()
    }
}

pub proof fn lemma_skip_ws_back_bounds(s: Seq<char>, j: int)
    requires
        0 <= j <= s.len(),
    ensures
        0 <= skip_ws_back(s, j) <= j,
    decreases j,
{
    if j > 0 && is_ws(s[j - 1]) {
        lemma_skip_ws_back_bounds(s, j - 1);
    }
}

/// Trimming a line, verified against `trim_spec`.
pub fn trim_line(s: &str) -> (r: &str)
    ensures
        r@ == trim_spec(s@),
{
    let n = s.unicode_len();
    let mut a: usize = 0;
    while a < n && is_ws_char(s.get_char(a))
        invariant
            n == s@.len(),
            0 <= a <= n,
            skip_ws_from(s@, a as int) == skip_ws_from(s@, 0),
        decreases n - a,
    {
        a = a + 1;
    }
    assert(skip_ws_from(s@, 0) == a as int);
    let mut b: usize = n;
    while b > a && is_ws_char(s.get_char(b - 1))
        invariant
            n == s@.len(),
            a <= b <= n,
            a as int == skip_ws_from(s@, 0),
            skip_ws_back(s@, b as int) == skip_ws_back(s@, n as int),
        decreases b,
    {
        b = b - 1;
    }
    if a < b {
        assert(skip_ws_back(s@, n as int) == b as int);
        s.substring_char(a, b)
    } else {
        proof {
            lemma_skip_ws_back_bounds(s@, b as int);
            assert(s@.subrange(0, 0) =~= Seq::<char>::empty());
            assert(skip_ws_back(s@, s@.len() as int) <= a as int);
        }
        s.substring_char(0, 0)
    }
}

} // verus!
