//! The prompt shown before each line: the line number, right-aligned in two
//! columns, followed by `"> "`.
//!
//! From line 100 on the number takes more than two columns. The width used
//! for cursor columns is the length of the very characters that are written,
//! so the prompt widens and the columns follow it.

use vstd::prelude::*;

verus! {

/// The decimal digit character for `d < 10`.
pub open spec fn digit_char(d: nat) -> char {
    ((d + 48) as u8) as char
}

/// The decimal digits of `n`, most significant first, with no leading zeros.
pub open spec fn decimal(n: nat) -> Seq<char>
    decreases n,
{
    if n < 10 {
        seq![digit_char(n)]
    } else {
        decimal(n / 10).push(digit_char(n % 10))
    }
}

/// The prompt for line `n`: the number padded on the left with spaces to
/// a width of two, then `'>'` and a space.
pub open spec fn prompt_of(n: nat) -> Seq<char> {
    let num = if n < 10 { seq![' '].add(decimal(n)) } else { decimal(n) };
    num.add(seq!['>', ' '])
}

/// Screen columns taken by the prompt of line `n`.
pub open spec fn prompt_width_of(n: nat) -> nat {
    prompt_of(n).len()
}

/// `10^k`.
pub open spec fn pow10(k: nat) -> nat
    decreases k,
{
    if k == 0 {
        1
    } else {
        10 * pow10((k - 1) as nat)
    }
}

/// A number below `10^k` has at most `k` digits.
pub proof fn lemma_decimal_len(n: nat, k: nat)
    requires
        n < pow10(k),
        k >= 1,
    ensures
        1 <= decimal(n).len() <= k,
    decreases n,
{
    if n >= 10 {
        let k1 = (k - 1) as nat;
        assert(pow10(k) == 10 * pow10(k1));
        if k1 == 0 {
            assert(pow10(0) == 1);
        }
        assert(n / 10 < pow10(k1)) by (nonlinear_arith)
            requires
                n < 10 * pow10(k1),
        ;
        lemma_decimal_len(n / 10, k1);
    }
}

/// The prompt of any line numbered by a `usize` takes at most 22 columns.
pub proof fn lemma_prompt_width_bound(n: usize)
    ensures
        prompt_width_of(n as nat) <= 22,
{
    reveal_with_fuel(pow10, 21);
    assert(pow10(20) == 100_000_000_000_000_000_000nat);
    lemma_decimal_len(n as nat, 20);
}

fn push_decimal(n: usize, out: &mut Vec<char>)
    ensures
        final(out)@ == old(out)@.add(decimal(n as nat)),
    decreases n,
{
    if n >= 10 {
        push_decimal(n / 10, out);
    }
    let d: u8 = (n % 10) as u8;
    out.push((d + 48) as char);
    proof {
        assert(final(out)@ =~= old(out)@.add(decimal(n as nat)));
    }
}

/// The characters of the prompt for line `line_number`.
pub fn prompt_text(line_number: usize) -> (r: Vec<char>)
    ensures
        r@ == prompt_of(line_number as nat),
{
    let mut r: Vec<char> = Vec::new();
    if line_number < 10 {
        r.push(' ');
    }
    push_decimal(line_number, &mut r);
    r.push('>');
    r.push(' ');
    proof {
        if line_number < 10 {
            assert(r@ =~= prompt_of(line_number as nat));
        } else {
            assert(r@ =~= prompt_of(line_number as nat));
        }
    }
    r
}

/// Screen columns taken by the prompt of line `line_number`.
pub fn get_prompt_width(line_number: usize) -> (r: usize)
    ensures
        r == prompt_width_of(line_number as nat),
        r <= 22,
{
    proof {
        lemma_prompt_width_bound(line_number);
    }
    prompt_text(line_number).len()
}

} // verus!
