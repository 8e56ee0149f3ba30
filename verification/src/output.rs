//! Comparing a test program's output with the output it was expected to
//! give, line by line.
use vstd::prelude::*;
use similar::{ChangeTag, TextDiff};
use crate::text::{push_char, push_str};

verus! {

/// One line of a line-by-line comparison, with its line ending.
#[derive(Clone, Debug, PartialEq)]
pub enum LineChange {
    /// A line that both texts have.
    Same(String),
    /// A line of the expected text that the actual text lacks.
    Missing(String),
    /// A line of the actual text that the expected text lacks.
    Extra(String),
}

pub open spec fn line_text(c: LineChange) -> Seq<char> {
    match c {
        LineChange::Same(s) => s@,
        LineChange::Missing(s) => s@,
        LineChange::Extra(s) => s@,
    }
}

/// The lines of the expected text, in order: those that both texts have and
/// those that are missing from the actual text.
pub open spec fn old_side(d: Seq<LineChange>) -> Seq<Seq<char>> {
    d.filter(|c: LineChange| !(c is Extra)).map_values(|c: LineChange| line_text(c))
}

/// The lines of the actual text, in order: those that both texts have and
/// the extra ones.
pub open spec fn new_side(d: Seq<LineChange>) -> Seq<Seq<char>> {
    d.filter(|c: LineChange| !(c is Missing)).map_values(|c: LineChange| line_text(c))
}

/// Where the line that starts at `i` ends: just after the first `\n`, after
/// a `\r\n` pair, or after a lone `\r`; at the end of the text when none
/// follows.
pub open spec fn line_end(s: Seq<char>, i: int) -> int
    decreases s.len() - i,
{
    if i < 0 || i >= s.len() {
        s.len() as int
    } else if s[i] == '\n' {
        i + 1
    } else if s[i] == '\r' {
        if i + 1 < s.len() && s[i + 1] == '\n' { i + 2 } else { i + 1 }
    } else {
        line_end(s, i + 1)
    }
}

pub proof fn lemma_line_end(s: Seq<char>, i: int)
    requires
        0 <= i < s.len(),
    ensures
        i < line_end(s, i) <= s.len(),
    decreases s.len() - i,
{
    if s[i] != '\n' && s[i] != '\r' {
        if i + 1 < s.len() {
            lemma_line_end(s, i + 1);
        } else {
            assert(line_end(s, i + 1) == s.len());
        }
    }
}

/// The lines of `s` from position `i` on, each with its line ending.
pub open spec fn lines_from(s: Seq<char>, i: int) -> Seq<Seq<char>>
    decreases s.len() - i,
{
    if i < 0 || i >= s.len() {
        Seq::empty()
    } else {
        proof {
            lemma_line_end(s, i);
        }
        seq![s.subrange(i, line_end(s, i))] + lines_from(s, line_end(s, i))
    }
}

/// The lines of a text, each with its line ending (`\n`, `\r\n` or `\r`);
/// a last line without an ending is a line too, and the empty text has none.
pub open spec fn split_lines(s: Seq<char>) -> Seq<Seq<char>> {
    lines_from(s, 0)
}

/// Joining the lines of a text gives the text back.
pub proof fn lemma_split_lines_join(s: Seq<char>)
    ensures
        split_lines(s).flatten() == s,
{
    lemma_lines_from_join(s, 0);
    assert(s.subrange(0, s.len() as int) =~= s);
}

proof fn lemma_lines_from_join(s: Seq<char>, i: int)
    requires
        0 <= i <= s.len(),
    ensures
        lines_from(s, i).flatten() == s.subrange(i, s.len() as int),
    decreases s.len() - i,
{
    if i < s.len() {
        lemma_line_end(s, i);
        let e = line_end(s, i);
        lemma_lines_from_join(s, e);
        let l = lines_from(s, i);
        assert(l.first() == s.subrange(i, e));
        assert(l.drop_first() =~= lines_from(s, e));
        assert(s.subrange(i, e) + s.subrange(e, s.len() as int) =~= s.subrange(i, s.len() as int));
    } else {
        assert(s.subrange(i, s.len() as int) =~= Seq::<char>::empty());
    }
}

/// A line of a comparison as a tag and its text: 0 for a line both texts
/// have, 1 for a line missing from the actual text, 2 for an extra line.
pub open spec fn change_pair(c: LineChange) -> (u8, Seq<char>) {
    match c {
        LineChange::Same(s) => (0u8, s@),
        LineChange::Missing(s) => (1u8, s@),
        LineChange::Extra(s) => (2u8, s@),
    }
}

/// The line diff that `similar::TextDiff::from_lines` makes of two texts,
/// walked by its `iter_all_changes`, as tagged lines (see [`change_pair`]).
pub uninterp spec fn line_diff(expected: Seq<char>, actual: Seq<char>) -> Seq<(u8, Seq<char>)>;

/// A line-by-line comparison of two texts, made with
/// `similar::TextDiff::from_lines` and its `iter_all_changes`. The result is
/// that diff, which depends on the two texts alone. That call splits each
/// text into lines with their endings and walks the diff's operations over
/// all lines of both texts in order, so the lines that are not extra are the
/// expected text's lines and those that are not missing are the actual
/// text's lines. Which lines it marks as the same is left to that diff.
#[verifier::external_body]
pub(crate) fn diff_lines(expected: &str, actual: &str) -> (r: Vec<LineChange>)
    ensures
        r@.map_values(|c: LineChange| change_pair(c)) == line_diff(expected@, actual@),
        old_side(r@) == split_lines(expected@),
        new_side(r@) == split_lines(actual@),
{
    let diff = TextDiff::from_lines(expected, actual);
    let mut out = Vec::new();
    for change in diff.iter_all_changes() {
        out.push(match change.tag() {
            ChangeTag::Equal => LineChange::Same(change.value().to_string()),
            ChangeTag::Delete => LineChange::Missing(change.value().to_string()),
            ChangeTag::Insert => LineChange::Extra(change.value().to_string()),
        });
    }
    out
}

/// Compares a program's output with the expected output: nothing when they
/// are equal, and otherwise their line diff (see [`line_diff`]), whose sides
/// are the lines of each text.
pub fn check_output(expected: &String, actual: &String) -> (r: Option<Vec<LineChange>>)
    ensures
        r is None <==> expected@ == actual@,
        r matches Some(d) ==> {
            &&& d@.map_values(|c: LineChange| change_pair(c)) == line_diff(expected@, actual@)
            &&& old_side(d@) == split_lines(expected@)
            &&& new_side(d@) == split_lines(actual@)
            &&& old_side(d@).flatten() == expected@
            &&& new_side(d@).flatten() == actual@
        },
{
    if *expected == *actual {
        None
    } else {
        let d = diff_lines(expected.as_str(), actual.as_str());
        proof {
            lemma_split_lines_join(expected@);
            lemma_split_lines_join(actual@);
        }
        Some(d)
    }
}

/// `s` with each occurrence of a nonempty pattern replaced, left to right
/// and without overlaps, as `str::replace` does. (With the empty pattern it
/// is `s` itself.)
pub open spec fn replace_all(s: Seq<char>, pat: Seq<char>, rep: Seq<char>) -> Seq<char>
    decreases s.len(),
{
    if pat.len() == 0 || s.len() < pat.len() {
        s
    } else if s.subrange(0, pat.len() as int) == pat {
        rep + replace_all(s.subrange(pat.len() as int, s.len() as int), pat, rep)
    } else {
        seq![s[0]] + replace_all(s.subrange(1, s.len() as int), pat, rep)
    }
}

/// The marker in an expected-output file that stands for the test file's path.
pub open spec fn file_name_marker() -> Seq<char> {
    seq!['%', 'F', 'I', 'L', 'E', '_', 'N', 'A', 'M', 'E', '%']
}

fn marker_chars() -> (v: Vec<char>)
    ensures
        v@ == file_name_marker(),
{
    let v = vec!['%', 'F', 'I', 'L', 'E', '_', 'N', 'A', 'M', 'E', '%'];
    assert(v@ =~= file_name_marker());
    v
}

fn chars_of(s: &String) -> (v: Vec<char>)
    ensures
        v@ == s@,
{
    let mut v: Vec<char> = Vec::new();
    for c in it: s.as_str().chars()
        invariant
            v@ == it.seq().take(it.index() as int),
    {
        v.push(c);
        assert(v@ =~= it.seq().take(it.index() + 1));
    }
    assert(v@ =~= s@);
    v
}

fn matches_at(cs: &Vec<char>, i: usize, m: &Vec<char>) -> (r: bool)
    requires
        i + m@.len() <= cs@.len(),
    ensures
        r == (cs@.subrange(i as int, i + m@.len()) == m@),
{
    let n = m.len();
    let mut j: usize = 0;
    while j < n
        invariant
            n == m@.len(),
            i + n <= cs.len(),
            j <= n,
            forall|k: int| 0 <= k < j ==> cs@[i + k] == m@[k],
        decreases n - j,
    {
        if cs[i + j] != m[j] {
            assert(cs@.subrange(i as int, i + n)[j as int] != m@[j as int]);
            return false;
        }
        j = j + 1;
    }
    assert(cs@.subrange(i as int, i + n) =~= m@);
    true
}

/// The expected output of a test given by a text file: the file's contents
/// with each file-name marker replaced by the test file's path.
pub fn expected_vs_txt(contents: &String, test_path: &String) -> (r: String)
    ensures
        r@ == replace_all(contents@, file_name_marker(), test_path@),
{
    let cs = chars_of(contents);
    let m = marker_chars();
    let n = cs.len();
    let ml = m.len();
    let mut out = String::new();
    let mut i: usize = 0;
    let ghost pat = file_name_marker();
    let ghost rep = test_path@;
    assert(cs@.subrange(0, n as int) =~= cs@);
    while i < n
        invariant
            n == cs@.len(),
            ml == m@.len(),
            m@ == pat,
            pat == file_name_marker(),
            rep == test_path@,
            cs@ == contents@,
            i <= n,
            out@ + replace_all(cs@.subrange(i as int, n as int), pat, rep) == replace_all(cs@, pat, rep),
        decreases n - i,
    {
        let ghost rest = cs@.subrange(i as int, n as int);
        if ml <= n && i <= n - ml && matches_at(&cs, i, &m) {
            assert(rest.subrange(0, ml as int) =~= cs@.subrange(i as int, i + ml));
            assert(rest.subrange(ml as int, rest.len() as int) =~= cs@.subrange(i + ml, n as int));
            push_str(&mut out, test_path);
            assert(out@ + replace_all(cs@.subrange(i + ml, n as int), pat, rep)
                =~= replace_all(cs@, pat, rep));
            i = i + ml;
        } else {
            if ml <= n && i <= n - ml {
                assert(rest.subrange(0, ml as int) =~= cs@.subrange(i as int, i + ml));
            }
            assert(rest.subrange(1, rest.len() as int) =~= cs@.subrange(i + 1, n as int));
            let c = cs[i];
            push_char(&mut out, c);
            assert(out@ + replace_all(cs@.subrange(i + 1, n as int), pat, rep)
                =~= replace_all(cs@, pat, rep));
            i = i + 1;
        }
    }
    assert(cs@.subrange(n as int, n as int) =~= Seq::<char>::empty());
    assert(out@ =~= replace_all(cs@, pat, rep));
    out
}

} // verus!
