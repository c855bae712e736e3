//! Reads the end of a segment: an unsigned decimal numeral, or 0 where the text
//! is none.

use vstd::prelude::*;

verus! {

broadcast use vstd::string::group_string_axioms;

/// Whether `c` is one of the ten ASCII digits.
pub open spec fn is_digit(c: char) -> bool {
    '0' <= c <= '9'
}

/// The value of an ASCII digit.
pub open spec fn digit_value(c: char) -> nat {
    (c as u32 - '0' as u32) as nat
}

/// Whether every character is an ASCII digit.
pub open spec fn all_digits(s: Seq<char>) -> bool {
    forall|i: int| 0 <= i < s.len() ==> is_digit(#[trigger] s[i])
}

/// The number that a string of digits writes in base ten.
pub open spec fn digits_value(s: Seq<char>) -> nat
    decreases s.len(),
{
    if s.len() == 0 {
        0
    } else {
        10 * digits_value(s.drop_last()) + digit_value(s.last())
    }
}

/// Length of the optional leading plus sign.
pub open spec fn sign_len(s: Seq<char>) -> int {
    if s.len() > 0 && s[0] == '+' {
        1
    } else {
        0
    }
}

/// The numeral without its optional leading plus sign.
pub open spec fn numeral_digits(s: Seq<char>) -> Seq<char> {
    s.subrange(sign_len(s), s.len() as int)
}

/// The number that `s` writes: an optional `+`, then one or more digits.
pub open spec fn numeral_value(s: Seq<char>) -> Option<nat> {
    let digits = numeral_digits(s);
    if digits.len() > 0 && all_digits(digits) {
        Some(digits_value(digits))
    } else {
        None
    }
}

/// The end period that a field's text stands for: its value where the text is
/// a numeral that fits the machine word, else 0.
pub open spec fn period_of(s: Seq<char>) -> usize {
    match numeral_value(s) {
        Some(v) => if v <= usize::MAX {
            v as usize
        } else {
            0
        },
        None => 0,
    }
}

/// A string of digits is worth at least as much as each of its prefixes.
proof fn lemma_prefix_value(s: Seq<char>, n: int)
    requires
        0 <= n <= s.len(),
    ensures
        digits_value(s.take(n)) <= digits_value(s),
    decreases s.len() - n,
{
    if n == s.len() {
        assert(s.take(n) =~= s);
    } else {
        lemma_prefix_value(s.drop_last(), n);
        assert(s.drop_last().take(n) =~= s.take(n));
    }
}

/// Parses the end of a segment, substituting 0 for text that is no numeral or
/// does not fit.
pub fn parse_period(text: &str) -> (period: usize)
    ensures
        period == period_of(text@),
{
    let mut value: usize = 0;
    let mut any_digit = false;
    let mut first = true;
    for c in it: text.chars()
        invariant
            it.seq() == text@,
            first == (it.index() == 0),
            !first ==> sign_len(text@) <= it.index(),
            !first ==> any_digit == (it.index() > sign_len(text@)),
            !first ==> all_digits(text@.subrange(sign_len(text@), it.index() as int)),
            !first ==> value == digits_value(text@.subrange(sign_len(text@), it.index() as int)),
            first ==> value == 0 && !any_digit,
    {
        let ghost k = it.index() as int;
        let ghost from = sign_len(text@);
        let ghost digits = numeral_digits(text@);
        if first && c == '+' {
            proof {
                assert(text@.subrange(1, 1) =~= Seq::<char>::empty());
            }
        } else if '0' <= c && c <= '9' {
            let d: usize = (c as u32 - '0' as u32) as usize;
            proof {
                let before = text@.subrange(from, k);
                let after = text@.subrange(from, k + 1);
                if first {
                    assert(before =~= Seq::<char>::empty());
                }
                assert(after.drop_last() =~= before);
                assert(after.last() == c);
                assert(digits.take(k + 1 - from) =~= after);
                if all_digits(digits) {
                    lemma_prefix_value(digits, k + 1 - from);
                }
                assert(all_digits(after)) by {
                    assert forall|i: int| 0 <= i < after.len() implies is_digit(
                        #[trigger] after[i],
                    ) by {
                        if i < before.len() {
                            assert(after[i] == before[i]);
                        }
                    }
                }
            }
            let tens = match value.checked_mul(10) {
                Some(v) => v,
                None => { return 0; },
            };
            value = match tens.checked_add(d) {
                Some(v) => v,
                None => { return 0; },
            };
            any_digit = true;
        } else {
            proof {
                assert(digits[k - from] == c);
                assert(!is_digit(digits[k - from]));
            }
            return 0;
        }
        first = false;
    }
    proof {
        assert(text@.subrange(sign_len(text@), text@.len() as int) =~= numeral_digits(text@));
        if first {
            assert(numeral_digits(text@).len() == 0);
        }
    }
    if any_digit {
        value
    } else {
        0
    }
}

} // verus!
