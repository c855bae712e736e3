//! Keeps a numeric text field to the characters that a number is written with.

use vstd::prelude::*;
use crate::period::{all_digits, is_digit};

verus! {

broadcast use vstd::string::group_string_axioms;

/// `String::push` of the standard library appends the character to the end of
/// the string.
pub assume_specification[ String::push ](text: &mut String, c: char)
    ensures
        final(text)@ == old(text)@.push(c),
;

/// Whether the character at position `i` stays: a digit always, and in a
/// decimal field also the first point.
pub open spec fn stays(s: Seq<char>, i: int, decimal: bool) -> bool {
    is_digit(s[i]) || (decimal && s[i] == '.' && !s.take(i).contains('.'))
}

/// The characters among the first `n` that stay, in their order.
pub open spec fn kept(s: Seq<char>, n: int, decimal: bool) -> Seq<char>
    decreases n,
{
    if n <= 0 {
        Seq::empty()
    } else {
        let earlier = kept(s, n - 1, decimal);
        if stays(s, n - 1, decimal) {
            earlier.push(s[n - 1])
        } else {
            earlier
        }
    }
}

/// What is kept of a period field holds digits only.
pub proof fn lemma_kept_digits(s: Seq<char>, n: int)
    requires
        0 <= n <= s.len(),
    ensures
        all_digits(kept(s, n, false)),
    decreases n,
{
    if n > 0 {
        lemma_kept_digits(s, n - 1);
    }
}

/// A point occurs among the first `n + 1` characters where it occurs among the
/// first `n` or is the next one.
proof fn lemma_point_seen(s: Seq<char>, n: int)
    requires
        0 <= n < s.len(),
    ensures
        s.take(n + 1).contains('.') == (s.take(n).contains('.') || s[n] == '.'),
{
    let longer = s.take(n + 1);
    let shorter = s.take(n);
    if shorter.contains('.') {
        let j = choose|j: int| 0 <= j < shorter.len() && shorter[j] == '.';
        assert(longer[j] == '.');
    }
    if s[n] == '.' {
        assert(longer[n] == '.');
    }
    if longer.contains('.') {
        let j = choose|j: int| 0 <= j < longer.len() && longer[j] == '.';
        if j < n {
            assert(shorter[j] == '.');
        }
    }
}

/// Filters a text field: digits stay, and where `decimal` is set the first
/// point stays too.
fn sanitize(text: &str, decimal: bool) -> (clean: String)
    ensures
        clean@ == kept(text@, text@.len() as int, decimal),
{
    let mut clean = String::new();
    let mut seen_point = false;
    for c in it: text.chars()
        invariant
            it.seq() == text@,
            seen_point == text@.take(it.index() as int).contains('.'),
            clean@ == kept(text@, it.index() as int, decimal),
    {
        proof {
            lemma_point_seen(text@, it.index() as int);
        }
        if '0' <= c && c <= '9' {
            clean.push(c);
        } else if c == '.' {
            if decimal && !seen_point {
                clean.push(c);
            }
            seen_point = true;
        }
    }
    clean
}

/// What stays of the text of an end period: its digits.
pub fn sanitize_period(text: &str) -> (clean: String)
    ensures
        clean@ == kept(text@, text@.len() as int, false),
        all_digits(clean@),
{
    proof {
        lemma_kept_digits(text@, text@.len() as int);
    }
    sanitize(text, false)
}

/// What stays of the text of a rate or a step size: its digits and its first
/// point.
pub fn sanitize_decimal(text: &str) -> (clean: String)
    ensures
        clean@ == kept(text@, text@.len() as int, true),
{
    sanitize(text, true)
}

} // verus!
