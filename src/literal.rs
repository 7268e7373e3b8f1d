//! Formatting text as a string literal: double-quoted, single-quoted, or raw
//! with enough `#` marks.

use vstd::prelude::*;
use crate::text::{chars_of, string_of};

verus! {

/// The quoting style of the literal.
#[derive(Debug, Clone, Copy, PartialEq, Eq)]
pub enum QuoteFormat {
    /// `"..."`, the default.
    Double,
    /// `'...'`.
    Single,
    /// `r#"..."#`, Rust style.
    Raw,
}

/// How `c` is written inside a literal delimited by `quote`.
pub open spec fn escape_char(c: char, quote: char) -> Seq<char> {
    if c == '\\' {
        seq!['\\', '\\']
    } else if c == quote {
        seq!['\\', quote]
    } else if c == '\n' {
        seq!['\\', 'n']
    } else if c == '\r' {
        seq!['\\', 'r']
    } else if c == '\t' {
        seq!['\\', 't']
    } else {
        seq![c]
    }
}

/// `s` with each character escaped for a literal delimited by `quote`.
pub open spec fn escaped(s: Seq<char>, quote: char) -> Seq<char>
    decreases s.len(),
{
    if s.len() == 0 {
        Seq::empty()
    } else {
        escaped(s.drop_last(), quote).add(escape_char(s.last(), quote))
    }
}

/// Number of `'"'` characters that end `s`.
pub open spec fn trailing_quotes(s: Seq<char>) -> nat
    decreases s.len(),
{
    if s.len() > 0 && s.last() == '"' {
        1 + trailing_quotes(s.drop_last())
    } else {
        0
    }
}

/// The longest run of consecutive `'"'` characters in `s`.
pub open spec fn longest_quote_run(s: Seq<char>) -> nat
    decreases s.len(),
{
    if s.len() == 0 {
        0
    } else {
        let before = longest_quote_run(s.drop_last());
        let here = trailing_quotes(s);
        if here > before {
            here
        } else {
            before
        }
    }
}

/// The `#` marks of a raw literal of `s`: one more than its longest run of
/// quotes, so that no run can close the literal early.
pub open spec fn raw_delimiter(s: Seq<char>) -> Seq<char> {
    Seq::new(longest_quote_run(s) + 1, |i: int| '#')
}

/// The literal of `s` in style `format`.
pub open spec fn literal_of(s: Seq<char>, format: QuoteFormat) -> Seq<char> {
    match format {
        QuoteFormat::Double => seq!['"'].add(escaped(s, '"')).push('"'),
        QuoteFormat::Single => seq!['\''].add(escaped(s, '\'')).push('\''),
        QuoteFormat::Raw => seq!['r'].add(raw_delimiter(s)).push('"').add(s).push('"').add(raw_delimiter(s)),
    }
}

/// Appends `s`, escaped for a literal delimited by `quote`, to `out`.
fn push_escaped(out: &mut Vec<char>, s: &Vec<char>, quote: char)
    ensures
        final(out)@ == old(out)@.add(escaped(s@, quote)),
{
    let mut i: usize = 0;
    while i < s.len()
        invariant
            i <= s@.len(),
            out@ == old(out)@.add(escaped(s@.subrange(0, i as int), quote)),
        decreases s@.len() - i,
    {
        let c = s[i];
        proof {
            let t = s@.subrange(0, i + 1);
            assert(t.drop_last() =~= s@.subrange(0, i as int));
            assert(t.last() == c);
        }
        let ghost before = out@;
        if c == '\\' {
            out.push('\\');
            out.push('\\');
        } else if c == quote {
            out.push('\\');
            out.push(quote);
        } else if c == '\n' {
            out.push('\\');
            out.push('n');
        } else if c == '\r' {
            out.push('\\');
            out.push('r');
        } else if c == '\t' {
            out.push('\\');
            out.push('t');
        } else {
            out.push(c);
        }
        proof {
            assert(out@ =~= before.add(escape_char(c, quote)));
            assert(old(out)@.add(escaped(s@.subrange(0, i + 1), quote)) =~= before.add(escape_char(c, quote)));
        }
        i = i + 1;
    }
    assert(s@.subrange(0, s@.len() as int) =~= s@);
}

fn raw_delimiter_chars(s: &Vec<char>) -> (r: Vec<char>)
    ensures
        r@ == raw_delimiter(s@),
{
    let mut longest: usize = 0;
    let mut current: usize = 0;
    let mut i: usize = 0;
    while i < s.len()
        invariant
            i <= s@.len(),
            current == trailing_quotes(s@.subrange(0, i as int)),
            longest == longest_quote_run(s@.subrange(0, i as int)),
            current <= i,
            longest <= i,
        decreases s@.len() - i,
    {
        proof {
            let t = s@.subrange(0, i + 1);
            assert(t.drop_last() =~= s@.subrange(0, i as int));
            assert(t.last() == s@[i as int]);
        }
        if s[i] == '"' {
            current = current + 1;
            if current > longest {
                longest = current;
            }
        } else {
            current = 0;
        }
        i = i + 1;
    }
    assert(s@.subrange(0, s@.len() as int) =~= s@);
    let mut r: Vec<char> = Vec::new();
    let mut k: usize = 0;
    while k < longest
        invariant
            k <= longest,
            r@ == Seq::new(k as nat, |j: int| '#'),
        decreases longest - k,
    {
        r.push('#');
        k = k + 1;
        assert(r@ =~= Seq::new(k as nat, |j: int| '#'));
    }
    r.push('#');
    assert(r@ =~= raw_delimiter(s@));
    r
}

/// The `#` marks that a raw literal of `content` needs.
pub fn find_raw_string_delimiter(content: &str) -> (r: String)
    ensures
        r@ == raw_delimiter(content@),
{
    let chars = chars_of(content);
    string_of(&raw_delimiter_chars(&chars))
}

/// `input` escaped for a literal delimited by `quote`, without the quotes.
pub fn escape_for_quote(input: &str, quote: char) -> (r: String)
    ensures
        r@ == escaped(input@, quote),
{
    let chars = chars_of(input);
    let mut out: Vec<char> = Vec::new();
    push_escaped(&mut out, &chars, quote);
    assert(out@ =~= escaped(input@, quote));
    string_of(&out)
}

/// `input` written as a literal in style `format`.
pub fn format_literal(input: &str, format: QuoteFormat) -> (r: String)
    ensures
        r@ == literal_of(input@, format),
{
    let chars = chars_of(input);
    let mut out: Vec<char> = Vec::new();
    match format {
        QuoteFormat::Double => {
            out.push('"');
            push_escaped(&mut out, &chars, '"');
            out.push('"');
        },
        QuoteFormat::Single => {
            out.push('\'');
            push_escaped(&mut out, &chars, '\'');
            out.push('\'');
        },
        QuoteFormat::Raw => {
            let delimiter = raw_delimiter_chars(&chars);
            out.push('r');
            let mut d1 = delimiter.clone();
            out.append(&mut d1);
            out.push('"');
            let mut body = chars.clone();
            out.append(&mut body);
            out.push('"');
            let mut d2 = delimiter.clone();
            out.append(&mut d2);
        },
    }
    assert(out@ =~= literal_of(input@, format));
    string_of(&out)
}

} // verus!
