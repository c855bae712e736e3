//! Tags a segment's formula by the reserved variables it mentions.

use vstd::prelude::*;

verus! {

broadcast use vstd::string::group_string_axioms;

/// The mathematical model that governs a segment.
#[derive(Clone, Copy, PartialEq, Eq, Debug, Structural)]
pub enum ModelKind {
    /// No reserved variable occurs: one value for every period.
    Constant,
    /// `t` occurs and `y` does not: an explicit function of time.
    TimeFunction,
    /// `y` occurs: the right-hand side of `dy/dt = f(t, y)`.
    DifferentialEquation,
}

/// The kind of a formula: `y` takes precedence over `t`.
pub open spec fn classification(expr: Seq<char>) -> ModelKind {
    if expr.contains('y') {
        ModelKind::DifferentialEquation
    } else if expr.contains('t') {
        ModelKind::TimeFunction
    } else {
        ModelKind::Constant
    }
}

/// Whether a character occurs among the first `n + 1` characters follows from
/// whether it occurs among the first `n` and what the next one is.
proof fn lemma_contains_step(s: Seq<char>, n: int, wanted: char)
    requires
        0 <= n < s.len(),
    ensures
        s.take(n + 1).contains(wanted) == (s.take(n).contains(wanted) || s[n] == wanted),
{
    let longer = s.take(n + 1);
    let shorter = s.take(n);
    if shorter.contains(wanted) {
        let j = choose|j: int| 0 <= j < shorter.len() && shorter[j] == wanted;
        assert(longer[j] == wanted);
    }
    if s[n] == wanted {
        assert(longer[n] == wanted);
    }
    if longer.contains(wanted) {
        let j = choose|j: int| 0 <= j < longer.len() && longer[j] == wanted;
        if j < n {
            assert(shorter[j] == wanted);
        }
    }
}

/// Tells whether `wanted` occurs in `text`.
pub fn mentions(text: &str, wanted: char) -> (found: bool)
    ensures
        found == text@.contains(wanted),
{
    let mut found = false;
    for c in it: text.chars()
        invariant
            it.seq() == text@,
            found == text@.take(it.index() as int).contains(wanted),
    {
        proof {
            lemma_contains_step(text@, it.index() as int, wanted);
        }
        if c == wanted {
            found = true;
        }
    }
    proof {
        assert(text@.take(text@.len() as int) =~= text@);
    }
    found
}

/// Classifies a formula by textual inspection; nothing is parsed.
pub fn classify(expr: &str) -> (kind: ModelKind)
    ensures
        kind == classification(expr@),
{
    if mentions(expr, 'y') {
        ModelKind::DifferentialEquation
    } else if mentions(expr, 't') {
        ModelKind::TimeFunction
    } else {
        ModelKind::Constant
    }
}

} // verus!
