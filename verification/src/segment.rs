//! Turns what the host's evaluation of one segment gave into that segment's
//! block of per-period samples.

use vstd::prelude::*;
use crate::classifier::ModelKind;
use crate::numeric::{negated, negation, Numerics, Operation, TOLERANCE, ZERO};

verus! {

/// The host's evaluation of formulas.
///
/// `constant` evaluates a formula without free variables.  `bind` binds a
/// formula as a function of `t` and gives that function, which takes a time to
/// the value of the formula at it.  `trajectory` binds a formula as `f(t, y)`
/// and integrates `dy/dt = f(t, y)` from time 0 to the length in its second
/// argument, starting from the value in its third, with the step hint in its
/// fourth and the tolerance in its fifth; it gives the output times and the
/// values at them.  Each gives `None` where the formula cannot be parsed, bound
/// or evaluated, or the integration fails.
pub struct Evaluator<C, S, T> {
    pub constant: C,
    pub bind: S,
    pub trajectory: T,
}

impl<C, S, F, T> Evaluator<C, S, T> where
    C: Fn(&String) -> Option<u64>,
    S: Fn(&String) -> Option<F>,
    F: Fn(u64) -> u64,
    T: Fn(&String, usize, u64, u64, u64) -> Option<(Vec<u64>, Vec<u64>)>,
 {
    /// Every closure accepts every argument, and so does every function that
    /// `bind` gives.
    pub open spec fn total(&self) -> bool {
        &&& forall|expr: &String| call_requires(self.constant, (expr,))
        &&& forall|expr: &String| call_requires(self.bind, (expr,))
        &&& forall|expr: &String, f: F, time: u64|
            #![trigger call_ensures(self.bind, (expr,), Some(f)), call_requires(f, (time,))]
            call_ensures(self.bind, (expr,), Some(f)) ==> call_requires(f, (time,))
        &&& forall|expr: &String, length: usize, initial: u64, step: u64, tolerance: u64|
            call_requires(self.trajectory, (expr, length, initial, step, tolerance))
    }

    /// Every closure has at most one result for each argument.  Of `bind` this
    /// asks that a formula is either bound every time or never, and that the
    /// functions it is bound to have the same one value at each time.
    pub open spec fn deterministic(&self) -> bool {
        &&& forall|expr: &String, r1: Option<u64>, r2: Option<u64>|
            call_ensures(self.constant, (expr,), r1) && call_ensures(self.constant, (expr,), r2)
                ==> r1 == r2
        &&& forall|expr: &String, r1: Option<F>, r2: Option<F>|
            call_ensures(self.bind, (expr,), r1) && call_ensures(self.bind, (expr,), r2) ==> (r1
                is None <==> r2 is None)
        &&& forall|expr: &String, f1: F, f2: F, time: u64, v1: u64, v2: u64|
            #![trigger
                call_ensures(self.bind, (expr,), Some(f1)),
                call_ensures(self.bind, (expr,), Some(f2)),
                call_ensures(f1, (time,), v1),
                call_ensures(f2, (time,), v2),
            ]
            call_ensures(self.bind, (expr,), Some(f1)) && call_ensures(self.bind, (expr,), Some(f2))
                && call_ensures(f1, (time,), v1) && call_ensures(f2, (time,), v2) ==> v1 == v2
        &&& forall|
            expr: &String,
            length: usize,
            initial: u64,
            step: u64,
            tolerance: u64,
            r1: Option<(Vec<u64>, Vec<u64>)>,
            r2: Option<(Vec<u64>, Vec<u64>)>,
        |
            call_ensures(self.trajectory, (expr, length, initial, step, tolerance), r1)
                && call_ensures(self.trajectory, (expr, length, initial, step, tolerance), r2)
                ==> trajectory_view(r1) == trajectory_view(r2)
    }
}

/// What an integration gave, as two sequences: output times and values.
pub open spec fn trajectory_view(outcome: Option<(Vec<u64>, Vec<u64>)>) -> Option<
    (Seq<u64>, Seq<u64>),
> {
    match outcome {
        Some((times, values)) => Some((times@, values@)),
        None => None,
    }
}

/// `count` copies of `value`.
pub open spec fn repeat(value: u64, count: nat) -> Seq<u64> {
    Seq::new(count, |i: int| value)
}

/// The block of a segment that failed: one zero for each of its periods.
pub open spec fn zero_fill(length: nat) -> Seq<u64> {
    repeat(ZERO, length)
}

/// The first local time that a segment samples: 0 where it opens the series,
/// which adds the leading sample, else 1.
pub open spec fn first_time(leading: bool) -> usize {
    if leading {
        0
    } else {
        1
    }
}

/// The number of samples of a segment that succeeded.
pub open spec fn sample_count(length: nat, leading: bool) -> nat {
    (length + 1 - first_time(leading)) as nat
}

/// The block of a constant segment.
pub open spec fn constant_block(outcome: Option<u64>, length: nat, leading: bool) -> Seq<u64> {
    match outcome {
        Some(c) => repeat(c, sample_count(length, leading)),
        None => zero_fill(length),
    }
}

/// `value` is a value of the bound function `f` at the local time `t`: what
/// `f` gives for the number that the host converts `t` to.
pub open spec fn sampled<F, A, G, I>(
    f: F,
    numerics: &Numerics<A, G, I>,
    t: usize,
    value: u64,
) -> bool where
    F: Fn(u64) -> u64,
    A: Fn(Operation, u64, u64) -> u64,
    G: Fn(u64, u64) -> bool,
    I: Fn(usize) -> u64,
 {
    exists|time: u64| #[trigger]
        call_ensures(numerics.from_index, (t,), time) && call_ensures(f, (time,), value)
}

/// `block` is a block of a time-function segment: a value of the bound
/// function at each local time from `first_time(leading)` to `length`, in
/// order; and the zero-fill where the formula was not bound.
pub open spec fn function_block<F, A, G, I>(
    bound: Option<F>,
    numerics: &Numerics<A, G, I>,
    length: nat,
    leading: bool,
    block: Seq<u64>,
) -> bool where
    F: Fn(u64) -> u64,
    A: Fn(Operation, u64, u64) -> u64,
    G: Fn(u64, u64) -> bool,
    I: Fn(usize) -> u64,
 {
    match bound {
        Some(f) => {
            &&& block.len() == sample_count(length, leading)
            &&& forall|i: int|
                0 <= i < block.len() ==> sampled(
                    f,
                    numerics,
                    (first_time(leading) + i) as usize,
                    #[trigger] block[i],
                )
        },
        None => block == zero_fill(length),
    }
}

/// The values among the first `n` whose position is marked in `hits`.
pub open spec fn picked(values: Seq<u64>, hits: Seq<bool>, n: int) -> Seq<u64>
    decreases n,
{
    if n <= 0 {
        Seq::empty()
    } else {
        let earlier = picked(values, hits, n - 1);
        if hits[n - 1] {
            earlier.push(values[n - 1])
        } else {
            earlier
        }
    }
}

impl<A, G, I> Numerics<A, G, I> where
    A: Fn(Operation, u64, u64) -> u64,
    G: Fn(u64, u64) -> bool,
    I: Fn(usize) -> u64,
 {
    /// `hit` is an answer of the host to the question whether the output time
    /// `x` has reached the boundary `n`: whether `x - n` exceeds `threshold`.
    pub open spec fn reaches(&self, x: u64, n: usize, threshold: u64, hit: bool) -> bool {
        exists|boundary: u64, distance: u64|
            call_ensures(self.from_index, (n,), boundary) && call_ensures(
                self.arith,
                (Operation::Sub, x, boundary),
                distance,
            ) && call_ensures(self.exceeds, (distance, threshold), hit)
    }

    /// `hits` marks the output times that a walk over `times` snaps to: point
    /// `i` is marked where it has reached the boundary that is due when the walk
    /// comes to it.  The first boundary is `first`, and each marked point moves
    /// the walk to the next boundary.  The threshold is the negated spacing of
    /// the first two output times.
    pub open spec fn marks(
        &self,
        times: Seq<u64>,
        values: Seq<u64>,
        first: nat,
        spacing: u64,
        hits: Seq<bool>,
    ) -> bool {
        &&& call_ensures(self.arith, (Operation::Sub, times[1], times[0]), spacing)
        &&& hits.len() == times.len()
        &&& forall|i: int|
            0 <= i < times.len() ==> self.reaches(
                times[i],
                (first + picked(values, hits, i).len()) as usize,
                negation(spacing),
                #[trigger] hits[i],
            )
    }

    /// `block` is a resampling of the trajectory onto period boundaries: the
    /// values at the output times that the walk snaps to.
    pub open spec fn resamples(
        &self,
        times: Seq<u64>,
        values: Seq<u64>,
        first: nat,
        block: Seq<u64>,
    ) -> bool {
        exists|spacing: u64, hits: Seq<bool>|
            self.marks(times, values, first, spacing, hits) && block == picked(
                values,
                hits,
                times.len() as int,
            )
    }

    /// `block` is a block of an ODE segment.  An integration that failed, or
    /// whose output is not a value for each of at least two times, zero-fills
    /// the segment.
    pub open spec fn trajectory_block(
        &self,
        outcome: Option<(Seq<u64>, Seq<u64>)>,
        length: nat,
        leading: bool,
        block: Seq<u64>,
    ) -> bool {
        match outcome {
            Some((times, values)) => if times.len() == values.len() && times.len() >= 2 {
                self.resamples(times, values, first_time(leading) as nat, block)
            } else {
                block == zero_fill(length)
            },
            None => block == zero_fill(length),
        }
    }
}

/// Marks beyond the first `n` points do not change what was picked among them.
pub proof fn lemma_picked_prefix(values: Seq<u64>, hits: Seq<bool>, longer: Seq<bool>, n: int)
    requires
        n <= hits.len() <= longer.len(),
        forall|i: int| 0 <= i < hits.len() ==> hits[i] == longer[i],
    ensures
        picked(values, longer, n) == picked(values, hits, n),
    decreases n,
{
    if n > 0 {
        lemma_picked_prefix(values, hits, longer, n - 1);
    }
}

/// No more values are picked than there are points.
pub proof fn lemma_picked_len(values: Seq<u64>, hits: Seq<bool>, n: int)
    requires
        0 <= n,
    ensures
        picked(values, hits, n).len() <= n,
    decreases n,
{
    if n > 0 {
        lemma_picked_len(values, hits, n - 1);
    }
}

/// Appends `count` copies of `value` to `block`.
pub fn extend_repeated(block: &mut Vec<u64>, value: u64, count: usize)
    ensures
        final(block)@ == old(block)@ + repeat(value, count as nat),
{
    let ghost before = block@;
    let mut done: usize = 0;
    while done < count
        invariant
            done <= count,
            block@ == before + repeat(value, done as nat),
        decreases count - done,
    {
        block.push(value);
        done += 1;
        assert(block@ =~= before + repeat(value, done as nat));
    }
}

/// The block of a failed segment: `length` zeros and no leading sample.
pub fn zero_samples(length: usize) -> (block: Vec<u64>)
    ensures
        block@ == zero_fill(length as nat),
{
    let mut block: Vec<u64> = Vec::new();
    extend_repeated(&mut block, ZERO, length);
    assert(block@ =~= zero_fill(length as nat));
    block
}

/// The block of a constant segment from what the evaluation of its formula
/// gave: its value for each period, and once more in front where the segment
/// opens the series.
pub fn constant_samples(outcome: Option<u64>, length: usize, leading: bool) -> (block: Vec<u64>)
    ensures
        block@ == constant_block(outcome, length as nat, leading),
{
    match outcome {
        Some(c) => {
            let mut block: Vec<u64> = Vec::new();
            if leading {
                block.push(c);
            }
            extend_repeated(&mut block, c, length);
            assert(block@ =~= repeat(c, sample_count(length as nat, leading)));
            block
        },
        None => zero_samples(length),
    }
}

/// The block of a time-function segment from what binding its formula gave:
/// the value of the function at each local time from 1 to `length`, behind its
/// value at time 0 where the segment opens the series.
pub fn function_samples<F, A, G, I>(
    bound: Option<F>,
    length: usize,
    leading: bool,
    numerics: &Numerics<A, G, I>,
) -> (block: Vec<u64>) where
    F: Fn(u64) -> u64,
    A: Fn(Operation, u64, u64) -> u64,
    G: Fn(u64, u64) -> bool,
    I: Fn(usize) -> u64,

    requires
        numerics.total(),
        bound matches Some(f) ==> forall|time: u64| call_requires(f, (time,)),
    ensures
        function_block(bound, numerics, length as nat, leading, block@),
{
    match bound {
        Some(f) => {
            let mut block: Vec<u64> = Vec::new();
            if leading {
                let time = (numerics.from_index)(0);
                let value = f(time);
                block.push(value);
            }
            let mut t: usize = 0;
            while t < length
                invariant
                    numerics.total(),
                    forall|time: u64| call_requires(f, (time,)),
                    t <= length,
                    block@.len() == t + 1 - first_time(leading),
                    forall|i: int|
                        0 <= i < block@.len() ==> sampled(
                            f,
                            numerics,
                            (first_time(leading) + i) as usize,
                            #[trigger] block@[i],
                        ),
                decreases length - t,
            {
                t += 1;
                let time = (numerics.from_index)(t);
                let value = f(time);
                let ghost earlier = block@;
                block.push(value);
                proof {
                    assert(sampled(f, numerics, t, value));
                    assert forall|i: int| 0 <= i < block@.len() implies sampled(
                        f,
                        numerics,
                        (first_time(leading) + i) as usize,
                        #[trigger] block@[i],
                    ) by {
                        if i < earlier.len() {
                            assert(block@[i] == earlier[i]);
                        }
                    }
                }
            }
            block
        },
        None => zero_samples(length),
    }
}

/// Resamples an adaptive trajectory onto integer period boundaries.
///
/// The walk takes the output times in order.  With `n` the boundary that is
/// due (at first 0 where the segment opens the series, else 1), it takes the
/// value at the first output time `x` with `x - n > -step`, `step` being the
/// spacing of the first two output times, and goes on to the boundary `n + 1`.
pub fn resample<A, G, I>(
    times: &Vec<u64>,
    values: &Vec<u64>,
    leading: bool,
    numerics: &Numerics<A, G, I>,
) -> (block: Vec<u64>) where
    A: Fn(Operation, u64, u64) -> u64,
    G: Fn(u64, u64) -> bool,
    I: Fn(usize) -> u64,

    requires
        numerics.total(),
        times.len() == values.len(),
        times.len() >= 2,
    ensures
        numerics.resamples(times@, values@, first_time(leading) as nat, block@),
{
    let spacing = (numerics.arith)(Operation::Sub, times[1], times[0]);
    let threshold = negated(spacing);
    let first: usize = if leading {
        0
    } else {
        1
    };
    let mut block: Vec<u64> = Vec::new();
    let ghost mut hits: Seq<bool> = Seq::empty();
    let mut i: usize = 0;
    while i < times.len()
        invariant
            numerics.total(),
            times.len() == values.len(),
            times.len() >= 2,
            first == first_time(leading),
            threshold == negation(spacing),
            call_ensures(numerics.arith, (Operation::Sub, times@[1], times@[0]), spacing),
            i <= times.len(),
            hits.len() == i,
            block@ == picked(values@, hits, i as int),
            forall|j: int|
                0 <= j < i ==> numerics.reaches(
                    times@[j],
                    (first + picked(values@, hits, j).len()) as usize,
                    threshold,
                    #[trigger] hits[j],
                ),
        decreases times.len() - i,
    {
        proof {
            lemma_picked_len(values@, hits, i as int);
        }
        let due: usize = first + block.len();
        let boundary = (numerics.from_index)(due);
        let distance = (numerics.arith)(Operation::Sub, times[i], boundary);
        let hit = (numerics.exceeds)(distance, threshold);
        let ghost earlier = hits;
        proof {
            hits = hits.push(hit);
            assert forall|j: int| 0 <= j <= i implies #[trigger] picked(values@, hits, j)
                == picked(values@, earlier, j) by {
                lemma_picked_prefix(values@, earlier, hits, j);
            }
            assert(numerics.reaches(times@[i as int], due, threshold, hit));
            assert(picked(values@, hits, i + 1) == if hit {
                picked(values@, hits, i as int).push(values@[i as int])
            } else {
                picked(values@, hits, i as int)
            });
        }
        if hit {
            block.push(values[i]);
        }
        i += 1;
    }
    proof {
        assert(numerics.marks(times@, values@, first_time(leading) as nat, spacing, hits));
    }
    block
}

/// The block of an ODE segment from what the integration gave.
pub fn trajectory_samples<A, G, I>(
    outcome: Option<(Vec<u64>, Vec<u64>)>,
    length: usize,
    leading: bool,
    numerics: &Numerics<A, G, I>,
) -> (block: Vec<u64>) where
    A: Fn(Operation, u64, u64) -> u64,
    G: Fn(u64, u64) -> bool,
    I: Fn(usize) -> u64,

    requires
        numerics.total(),
    ensures
        numerics.trajectory_block(trajectory_view(outcome), length as nat, leading, block@),
{
    match outcome {
        Some((times, values)) => {
            if times.len() == values.len() && times.len() >= 2 {
                resample(&times, &values, leading, numerics)
            } else {
                zero_samples(length)
            }
        },
        None => zero_samples(length),
    }
}

impl<C, S, F, T> Evaluator<C, S, T> where
    C: Fn(&String) -> Option<u64>,
    S: Fn(&String) -> Option<F>,
    F: Fn(u64) -> u64,
    T: Fn(&String, usize, u64, u64, u64) -> Option<(Vec<u64>, Vec<u64>)>,
 {
    /// `block` is a block of a constant segment: what `constant_block` makes
    /// of an answer of the host for the formula.
    pub open spec fn constant_segment(
        &self,
        expr: &String,
        length: usize,
        leading: bool,
        block: Seq<u64>,
    ) -> bool {
        exists|outcome: Option<u64>| #[trigger]
            call_ensures(self.constant, (expr,), outcome) && block == constant_block(
                outcome,
                length as nat,
                leading,
            )
    }

    /// `block` is a block of a time-function segment: the samples, or the
    /// zero-fill, of an answer of the host to binding the formula.
    pub open spec fn function_segment<A, G, I>(
        &self,
        numerics: &Numerics<A, G, I>,
        expr: &String,
        length: usize,
        leading: bool,
        block: Seq<u64>,
    ) -> bool where
        A: Fn(Operation, u64, u64) -> u64,
        G: Fn(u64, u64) -> bool,
        I: Fn(usize) -> u64,
     {
        exists|bound: Option<F>| #[trigger]
            call_ensures(self.bind, (expr,), bound) && function_block(
                bound,
                numerics,
                length as nat,
                leading,
                block,
            )
    }

    /// `block` is a block of an ODE segment: a resampling, or the zero-fill,
    /// of an answer of the host to integrating the formula over the segment
    /// from `initial`, with the step hint `step` and the fixed tolerance.
    pub open spec fn trajectory_segment<A, G, I>(
        &self,
        numerics: &Numerics<A, G, I>,
        expr: &String,
        length: usize,
        leading: bool,
        initial: u64,
        step: u64,
        block: Seq<u64>,
    ) -> bool where
        A: Fn(Operation, u64, u64) -> u64,
        G: Fn(u64, u64) -> bool,
        I: Fn(usize) -> u64,
     {
        exists|outcome: Option<(Vec<u64>, Vec<u64>)>| #[trigger]
            call_ensures(self.trajectory, (expr, length, initial, step, TOLERANCE), outcome)
                && numerics.trajectory_block(
                trajectory_view(outcome),
                length as nat,
                leading,
                block,
            )
    }
}

/// `block` is a block of the segment under the evaluation strategy of its
/// kind.  An ODE segment is integrated from the carry-in.
pub open spec fn is_segment_block<C, S, F, T, A, G, I>(
    kind: ModelKind,
    expr: &String,
    length: usize,
    leading: bool,
    carry_in: u64,
    step: u64,
    evaluator: &Evaluator<C, S, T>,
    numerics: &Numerics<A, G, I>,
    block: Seq<u64>,
) -> bool where
    C: Fn(&String) -> Option<u64>,
    S: Fn(&String) -> Option<F>,
    F: Fn(u64) -> u64,
    T: Fn(&String, usize, u64, u64, u64) -> Option<(Vec<u64>, Vec<u64>)>,
    A: Fn(Operation, u64, u64) -> u64,
    G: Fn(u64, u64) -> bool,
    I: Fn(usize) -> u64,
 {
    match kind {
        ModelKind::Constant => evaluator.constant_segment(expr, length, leading, block),
        ModelKind::TimeFunction => evaluator.function_segment(
            numerics,
            expr,
            length,
            leading,
            block,
        ),
        ModelKind::DifferentialEquation => evaluator.trajectory_segment(
            numerics,
            expr,
            length,
            leading,
            carry_in,
            step,
            block,
        ),
    }
}

/// Evaluates one segment into its block of samples.
///
/// A segment that succeeds gives one sample for each of its `length` periods,
/// and one more in front where it opens the series (`leading`).  A segment
/// whose formula cannot be parsed, bound or evaluated, or whose integration
/// fails, gives `length` zeros.
pub fn evaluate_segment<C, S, F, T, A, G, I>(
    kind: ModelKind,
    expr: &String,
    length: usize,
    leading: bool,
    carry_in: u64,
    step: u64,
    evaluator: &Evaluator<C, S, T>,
    numerics: &Numerics<A, G, I>,
) -> (block: Vec<u64>) where
    C: Fn(&String) -> Option<u64>,
    S: Fn(&String) -> Option<F>,
    F: Fn(u64) -> u64,
    T: Fn(&String, usize, u64, u64, u64) -> Option<(Vec<u64>, Vec<u64>)>,
    A: Fn(Operation, u64, u64) -> u64,
    G: Fn(u64, u64) -> bool,
    I: Fn(usize) -> u64,

    requires
        evaluator.total(),
        numerics.total(),
    ensures
        is_segment_block(kind, expr, length, leading, carry_in, step, evaluator, numerics, block@),
{
    match kind {
        ModelKind::Constant => {
            let outcome = (evaluator.constant)(expr);
            constant_samples(outcome, length, leading)
        },
        ModelKind::TimeFunction => {
            let bound = (evaluator.bind)(expr);
            let ghost seen = bound;
            let block = function_samples(bound, length, leading, numerics);
            proof {
                assert(call_ensures(evaluator.bind, (expr,), seen));
            }
            block
        },
        ModelKind::DifferentialEquation => {
            let outcome = (evaluator.trajectory)(expr, length, carry_in, step, TOLERANCE);
            let ghost seen = outcome;
            let block = trajectory_samples(outcome, length, leading, numerics);
            proof {
                assert(call_ensures(
                    evaluator.trajectory,
                    (expr, length, carry_in, step, TOLERANCE),
                    seen,
                ));
            }
            block
        },
    }
}

} // verus!
