//! Character-level text helpers: whitespace, blank lines, splitting pasted
//! text into lines and joining lines back together.

use vstd::prelude::*;

verus! {

/// Characters with the Unicode `White_Space` property.
pub open spec fn is_space(c: char) -> bool {
    let u = c as u32;
    ||| 0x09 <= u <= 0x0d
    ||| u == 0x20
    ||| u == 0x85
    ||| u == 0xa0
    ||| u == 0x1680
    ||| 0x2000 <= u <= 0x200a
    ||| u == 0x2028
    ||| u == 0x2029
    ||| u == 0x202f
    ||| u == 0x205f
    ||| u == 0x3000
}

/// A line is blank when it is empty or holds only whitespace.
pub open spec fn blank(s: Seq<char>) -> bool {
    forall|i: int| 0 <= i < s.len() ==> is_space(#[trigger] s[i])
}

/// Number of whitespace characters at the start of `s`.
pub open spec fn leading_spaces(s: Seq<char>) -> nat
    decreases s.len(),
{
    if s.len() > 0 && is_space(s[0]) {
        1 + leading_spaces(s.drop_first())
    } else {
        0
    }
}

/// `s` without its leading whitespace.
pub open spec fn trimmed_start(s: Seq<char>) -> Seq<char> {
    s.subrange(leading_spaces(s) as int, s.len() as int)
}

/// `l` without one trailing carriage return.
pub open spec fn strip_cr(l: Seq<char>) -> Seq<char> {
    if l.len() > 0 && l.last() == '\r' {
        l.drop_last()
    } else {
        l
    }
}

/// Reading `s` from the start: the lines that a line feed has ended (each
/// without its `"\n"` or `"\r\n"`), and the characters read since the last
/// line feed.
pub open spec fn scan_lines(s: Seq<char>) -> (Seq<Seq<char>>, Seq<char>)
    decreases s.len(),
{
    if s.len() == 0 {
        (Seq::empty(), Seq::empty())
    } else {
        let (done, cur) = scan_lines(s.drop_last());
        if s.last() == '\n' {
            (done.push(strip_cr(cur)), Seq::empty())
        } else {
            (done, cur.push(s.last()))
        }
    }
}

/// The lines of `s`: split at `"\n"` or `"\r\n"`; a final line ending adds no
/// empty line, and an empty text has no lines.
pub open spec fn lines_of(s: Seq<char>) -> Seq<Seq<char>> {
    let (done, cur) = scan_lines(s);
    if cur.len() == 0 {
        done
    } else {
        done.push(cur)
    }
}

/// `lines` joined with a single line feed between neighbours.
pub open spec fn joined(lines: Seq<Seq<char>>) -> Seq<char>
    decreases lines.len(),
{
    if lines.len() == 0 {
        Seq::empty()
    } else if lines.len() == 1 {
        lines[0]
    } else {
        joined(lines.drop_last()).push('\n').add(lines.last())
    }
}

/// The character sequences that the vectors of `v` hold.
pub open spec fn views(v: Seq<Vec<char>>) -> Seq<Seq<char>> {
    v.map_values(|l: Vec<char>| l@)
}

/// No line of `s` is longer than `s`, and `s` has no more lines than characters.
pub proof fn lemma_lines_bounded(s: Seq<char>)
    ensures
        lines_of(s).len() <= s.len(),
        forall|k: int| 0 <= k < lines_of(s).len() ==> (#[trigger] lines_of(s)[k]).len() <= s.len(),
{
    lemma_scan_bounded(s);
}

proof fn lemma_scan_bounded(s: Seq<char>)
    ensures
        scan_lines(s).0.len() + scan_lines(s).1.len() <= s.len(),
        forall|k: int| 0 <= k < scan_lines(s).0.len() ==> (#[trigger] scan_lines(s).0[k]).len() <= s.len(),
    decreases s.len(),
{
    if s.len() > 0 {
        lemma_scan_bounded(s.drop_last());
    }
}

/// Relies on `str::chars`: the characters of `s`, in order.
#[verifier::external_body]
pub(crate) fn chars_of(s: &str) -> (r: Vec<char>)
    ensures
        r@ == s@,
{
    s.chars().collect()
}

/// Relies on `String`'s `FromIterator<&char>`: the string of these characters.
#[verifier::external_body]
pub(crate) fn string_of(v: &Vec<char>) -> (r: String)
    ensures
        r@ == v@,
{
    v.iter().collect()
}

/// Whether `c` is whitespace in the Unicode sense.
pub fn is_whitespace(c: char) -> (r: bool)
    ensures
        r == is_space(c),
{
    let u = c as u32;
    (0x09 <= u && u <= 0x0d) || u == 0x20 || u == 0x85 || u == 0xa0 || u == 0x1680 || (0x2000 <= u
        && u <= 0x200a) || u == 0x2028 || u == 0x2029 || u == 0x202f || u == 0x205f || u == 0x3000
}

/// Whether `line` is empty or whitespace only.
pub fn is_blank(line: &Vec<char>) -> (r: bool)
    ensures
        r == blank(line@),
{
    let mut i: usize = 0;
    while i < line.len()
        invariant
            i <= line@.len(),
            forall|j: int| 0 <= j < i ==> is_space(#[trigger] line@[j]),
        decreases line@.len() - i,
    {
        if !is_whitespace(line[i]) {
            return false;
        }
        i = i + 1;
    }
    true
}

proof fn lemma_leading_spaces(s: Seq<char>, i: int)
    requires
        0 <= i <= s.len(),
        forall|j: int| 0 <= j < i ==> is_space(#[trigger] s[j]),
        i == s.len() || !is_space(s[i]),
    ensures
        leading_spaces(s) == i,
    decreases i,
{
    if i > 0 {
        let t = s.drop_first();
        assert forall|j: int| 0 <= j < i - 1 implies is_space(#[trigger] t[j]) by {
            assert(t[j] == s[j + 1]);
        }
        if i - 1 < t.len() {
            assert(t[i - 1] == s[i]);
        }
        lemma_leading_spaces(t, i - 1);
    }
}

/// `line` without its leading whitespace.
pub fn trim_start(line: &Vec<char>) -> (r: Vec<char>)
    ensures
        r@ == trimmed_start(line@),
        r@.len() <= line@.len(),
{
    let mut i: usize = 0;
    while i < line.len() && is_whitespace(line[i])
        invariant
            i <= line@.len(),
            forall|j: int| 0 <= j < i ==> is_space(#[trigger] line@[j]),
        decreases line@.len() - i,
    {
        i = i + 1;
    }
    proof {
        lemma_leading_spaces(line@, i as int);
    }
    let mut r: Vec<char> = Vec::new();
    let mut k: usize = i;
    while k < line.len()
        invariant
            i <= k <= line@.len(),
            r@ == line@.subrange(i as int, k as int),
        decreases line@.len() - k,
    {
        r.push(line[k]);
        k = k + 1;
        assert(r@ =~= line@.subrange(i as int, k as int));
    }
    r
}

/// The lines of `text`, as `str::lines` gives them.
pub fn split_lines(text: &Vec<char>) -> (r: Vec<Vec<char>>)
    ensures
        views(r@) == lines_of(text@),
{
    let mut done: Vec<Vec<char>> = Vec::new();
    let mut cur: Vec<char> = Vec::new();
    let mut i: usize = 0;
    while i < text.len()
        invariant
            i <= text@.len(),
            (views(done@), cur@) == scan_lines(text@.subrange(0, i as int)),
        decreases text@.len() - i,
    {
        let c = text[i];
        proof {
            let s = text@.subrange(0, i + 1);
            assert(s.drop_last() =~= text@.subrange(0, i as int));
            assert(s.last() == c);
        }
        if c == '\n' {
            let ghost before = done@;
            let n = cur.len();
            if n > 0 && cur[n - 1] == '\r' {
                cur.pop();
            }
            done.push(cur);
            cur = Vec::new();
            proof {
                assert(views(done@) =~= views(before).push(done@.last()@));
            }
        } else {
            cur.push(c);
        }
        i = i + 1;
    }
    proof {
        assert(text@.subrange(0, text@.len() as int) =~= text@);
    }
    if cur.len() > 0 {
        let ghost before = done@;
        done.push(cur);
        proof {
            assert(views(done@) =~= views(before).push(done@.last()@));
        }
    }
    done
}

/// `lines` joined with a line feed between neighbours.
pub fn join_lines(lines: &Vec<Vec<char>>) -> (out: String)
    ensures
        out@ == joined(views(lines@)),
{
    let mut r: Vec<char> = Vec::new();
    let mut i: usize = 0;
    while i < lines.len()
        invariant
            i <= lines@.len(),
            r@ == joined(views(lines@.subrange(0, i as int))),
        decreases lines@.len() - i,
    {
        proof {
            let ls = views(lines@.subrange(0, i + 1));
            assert(ls.drop_last() =~= views(lines@.subrange(0, i as int)));
            assert(ls.last() == lines@[i as int]@);
        }
        if i > 0 {
            r.push('\n');
        }
        let line = &lines[i];
        let mut k: usize = 0;
        let ghost start = r@;
        while k < line.len()
            invariant
                k <= line@.len(),
                r@ == start.add(line@.subrange(0, k as int)),
            decreases line@.len() - k,
        {
            r.push(line[k]);
            k = k + 1;
            assert(r@ =~= start.add(line@.subrange(0, k as int)));
        }
        proof {
            assert(line@.subrange(0, line@.len() as int) =~= line@);
            if i == 0 {
                assert(r@ =~= views(lines@.subrange(0, 1))[0]);
            }
        }
        i = i + 1;
    }
    proof {
        assert(lines@.subrange(0, lines@.len() as int) =~= lines@);
    }
    string_of(&r)
}

} // verus!
