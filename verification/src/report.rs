//! The counts of a sequence as text.

use crate::count::NucCounts;
use vstd::prelude::*;

verus! {

/// The character that writes a digit.
pub open spec fn digit_char(d: int) -> char {
    if d == 0 {
        '0'
    } else if d == 1 {
        '1'
    } else if d == 2 {
        '2'
    } else if d == 3 {
        '3'
    } else if d == 4 {
        '4'
    } else if d == 5 {
        '5'
    } else if d == 6 {
        '6'
    } else if d == 7 {
        '7'
    } else if d == 8 {
        '8'
    } else {
        '9'
    }
}

/// A number in decimal digits, without leading zeros.
pub open spec fn decimal(n: nat) -> Seq<char>
    decreases n,
{
    if n < 10 {
        seq![digit_char(n as int)]
    } else {
        decimal(n / 10).push(digit_char((n % 10) as int))
    }
}

/// What is printed for an input and the counts of its bases: the input,
/// an empty line, and one line for each base in the order A, C, G, T.
pub open spec fn report_text(input: Seq<char>, counts: NucCounts) -> Seq<char> {
    "Input: "@ + input + "\n\nA: "@ + decimal(counts.a as nat) + "\nC: "@ + decimal(
        counts.c as nat,
    ) + "\nG: "@ + decimal(counts.g as nat) + "\nT: "@ + decimal(counts.t as nat) + "\n"@
}

fn digit(d: usize) -> (c: char)
    requires
        d < 10,
    ensures
        c == digit_char(d as int),
{
    if d == 0 {
        '0'
    } else if d == 1 {
        '1'
    } else if d == 2 {
        '2'
    } else if d == 3 {
        '3'
    } else if d == 4 {
        '4'
    } else if d == 5 {
        '5'
    } else if d == 6 {
        '6'
    } else if d == 7 {
        '7'
    } else if d == 8 {
        '8'
    } else {
        '9'
    }
}

/// Writes a number in decimal digits at the end of a string.
pub fn push_decimal(out: &mut String, n: usize)
    ensures
        final(out)@ == old(out)@ + decimal(n as nat),
{
    let mut low: Vec<char> = Vec::new();
    let mut m: usize = n;
    let ghost mut tail: Seq<char> = Seq::empty();
    assert(decimal(m as nat) + tail =~= decimal(n as nat));
    while m >= 10
        invariant
            decimal(m as nat) + tail == decimal(n as nat),
            low@.len() == tail.len(),
            forall|i: int| 0 <= i < tail.len() ==> low@[i] == tail[tail.len() - 1 - i],
        decreases m,
    {
        let c: char = digit(m % 10);
        low.push(c);
        proof {
            assert(decimal((m / 10) as nat) + (seq![c] + tail) =~= decimal(m as nat) + tail);
            tail = seq![c] + tail;
        }
        m = m / 10;
    }
    out.push(digit(m));
    let mut i: usize = low.len();
    assert(old(out)@ + decimal(m as nat) + tail.take(0) =~= out@);
    while i > 0
        invariant
            i <= low@.len() == tail.len(),
            forall|j: int| 0 <= j < tail.len() ==> low@[j] == tail[tail.len() - 1 - j],
            out@ == old(out)@ + decimal(m as nat) + tail.take(tail.len() - i),
        decreases i,
    {
        i = i - 1;
        out.push(low[i]);
        assert(tail.take(tail.len() - i - 1).push(low@[i as int]) =~= tail.take(tail.len() - i));
    }
    assert(tail.take(tail.len() as int) =~= tail);
    assert(old(out)@ + decimal(m as nat) + tail =~= old(out)@ + (decimal(m as nat) + tail));
}

/// The report for an input and the counts of its bases.
pub fn report(input: &str, counts: &NucCounts) -> (text: String)
    ensures
        text@ == report_text(input@, *counts),
{
    let mut text: String = String::new();
    text.append("Input: ");
    text.append(input);
    text.append("\n\nA: ");
    push_decimal(&mut text, counts.a);
    text.append("\nC: ");
    push_decimal(&mut text, counts.c);
    text.append("\nG: ");
    push_decimal(&mut text, counts.g);
    text.append("\nT: ");
    push_decimal(&mut text, counts.t);
    text.append("\n");
    assert(text@ =~= report_text(input@, *counts));
    text
}

} // verus!
