//! What holds of every projection and of every valuation.

use vstd::prelude::*;
use crate::classifier::{classification, ModelKind};
use crate::document::{end_period, ordered, segment_length, start_period, Row};
use crate::numeric::{Numerics, Operation, ONE, TOLERANCE, ZERO};
use crate::projection::{carry_in, extends_by_segment, is_assembly, is_cashflow};
use crate::segment::{is_segment_block, lemma_picked_len, picked, zero_fill, Evaluator};
use crate::valuation::{discounts, discounts_with, DcfData};

verus! {

/// A segment that ends before the one in front of it puts the segments out of
/// order, so that no series is projected.
pub proof fn law_earlier_end_is_out_of_order(rows: Seq<Row>, i: int)
    requires
        0 < i < rows.len(),
        end_period(rows, i) < end_period(rows, i - 1),
    ensures
        !ordered(rows),
{
    assert(start_period(rows, i) == end_period(rows, i - 1));
}

/// Segments are out of order only where one of them ends before the one in
/// front of it.
pub proof fn law_out_of_order_has_earlier_end(rows: Seq<Row>)
    requires
        !ordered(rows),
    ensures
        exists|i: int|
            0 < i < rows.len() && #[trigger] end_period(rows, i) < end_period(rows, i - 1),
{
    let k = choose|k: int| 0 <= k < rows.len() && !(start_period(rows, k) <= end_period(rows, k));
    assert(0 < k < rows.len() && end_period(rows, k) < end_period(rows, k - 1));
}

/// A constant or time-function segment emits one sample for each of its
/// periods, not counting the leading sample of the series.
pub proof fn law_segment_length<C, S, F, T, A, G, I>(
    kind: ModelKind,
    expr: &String,
    length: usize,
    leading: bool,
    carry: u64,
    step: u64,
    evaluator: &Evaluator<C, S, T>,
    numerics: &Numerics<A, G, I>,
    block: Seq<u64>,
) where
    C: Fn(&String) -> Option<u64>,
    S: Fn(&String) -> Option<F>,
    F: Fn(u64) -> u64,
    T: Fn(&String, usize, u64, u64, u64) -> Option<(Vec<u64>, Vec<u64>)>,
    A: Fn(Operation, u64, u64) -> u64,
    G: Fn(u64, u64) -> bool,
    I: Fn(usize) -> u64,

    requires
        kind != ModelKind::DifferentialEquation,
        is_segment_block(kind, expr, length, leading, carry, step, evaluator, numerics, block),
    ensures
        block.len() == length || (leading && block.len() == length + 1),
{
}

/// A resampled trajectory holds at most one sample for each output time.
pub proof fn law_resampling_length<A, G, I>(
    numerics: &Numerics<A, G, I>,
    times: Seq<u64>,
    values: Seq<u64>,
    first: nat,
    block: Seq<u64>,
) where A: Fn(Operation, u64, u64) -> u64, G: Fn(u64, u64) -> bool, I: Fn(usize) -> u64
    requires
        numerics.resamples(times, values, first, block),
    ensures
        block.len() <= times.len(),
{
    let (spacing, hits) = choose|spacing: u64, hits: Seq<bool>|
        numerics.marks(times, values, first, spacing, hits) && block == picked(
            values,
            hits,
            times.len() as int,
        );
    lemma_picked_len(values, hits, times.len() as int);
}

/// Where no segment is a differential equation, the series holds one sample
/// for each period up to the end of the last segment, and at most the leading
/// sample more.
pub proof fn law_series_length<C, S, F, T, A, G, I>(
    rows: Seq<Row>,
    step: u64,
    evaluator: &Evaluator<C, S, T>,
    numerics: &Numerics<A, G, I>,
    samples: Seq<u64>,
) where
    C: Fn(&String) -> Option<u64>,
    S: Fn(&String) -> Option<F>,
    F: Fn(u64) -> u64,
    T: Fn(&String, usize, u64, u64, u64) -> Option<(Vec<u64>, Vec<u64>)>,
    A: Fn(Operation, u64, u64) -> u64,
    G: Fn(u64, u64) -> bool,
    I: Fn(usize) -> u64,

    requires
        ordered(rows),
        is_cashflow(rows, step, evaluator, numerics, samples),
        forall|k: int|
            0 <= k < rows.len() ==> classification(#[trigger] rows[k].expr@)
                != ModelKind::DifferentialEquation,
    ensures
        samples.len() == start_period(rows, rows.len() as int) || samples.len() == start_period(
            rows,
            rows.len() as int,
        ) + 1,
{
    let stages = choose|stages: Seq<Seq<u64>>|
        is_assembly(rows, step, evaluator, numerics, stages) && stages.last() == samples;
    lemma_stage_length(rows, step, evaluator, numerics, stages, rows.len() as int);
}

/// The length of the series after `k` segments none of which is a differential
/// equation.
proof fn lemma_stage_length<C, S, F, T, A, G, I>(
    rows: Seq<Row>,
    step: u64,
    evaluator: &Evaluator<C, S, T>,
    numerics: &Numerics<A, G, I>,
    stages: Seq<Seq<u64>>,
    k: int,
) where
    C: Fn(&String) -> Option<u64>,
    S: Fn(&String) -> Option<F>,
    F: Fn(u64) -> u64,
    T: Fn(&String, usize, u64, u64, u64) -> Option<(Vec<u64>, Vec<u64>)>,
    A: Fn(Operation, u64, u64) -> u64,
    G: Fn(u64, u64) -> bool,
    I: Fn(usize) -> u64,

    requires
        ordered(rows),
        is_assembly(rows, step, evaluator, numerics, stages),
        forall|j: int|
            0 <= j < rows.len() ==> classification(#[trigger] rows[j].expr@)
                != ModelKind::DifferentialEquation,
        0 <= k <= rows.len(),
    ensures
        stages[k].len() == start_period(rows, k) || stages[k].len() == start_period(rows, k) + 1,
    decreases k,
{
    if k > 0 {
        lemma_stage_length(rows, step, evaluator, numerics, stages, k - 1);
        let before = stages[k - 1];
        let after = stages[k];
        assert(extends_by_segment(rows, k - 1, step, evaluator, numerics, before, after));
        assert(start_period(rows, k - 1) <= end_period(rows, k - 1));
        let kind = classification(rows[k - 1].expr@);
        assert(kind != ModelKind::DifferentialEquation);
        law_segment_length(
            kind,
            &rows[k - 1].expr,
            segment_length(rows, k - 1) as usize,
            before.len() == 0,
            carry_in(before),
            step,
            evaluator,
            numerics,
            after.skip(before.len() as int),
        );
    }
}

/// Continuity: the integration of a differential-equation segment starts from
/// the last sample that the segments before it emitted, and from zero where
/// they emitted none.
pub proof fn law_continuity<C, S, F, T, A, G, I>(
    rows: Seq<Row>,
    step: u64,
    evaluator: &Evaluator<C, S, T>,
    numerics: &Numerics<A, G, I>,
    stages: Seq<Seq<u64>>,
    k: int,
) where
    C: Fn(&String) -> Option<u64>,
    S: Fn(&String) -> Option<F>,
    F: Fn(u64) -> u64,
    T: Fn(&String, usize, u64, u64, u64) -> Option<(Vec<u64>, Vec<u64>)>,
    A: Fn(Operation, u64, u64) -> u64,
    G: Fn(u64, u64) -> bool,
    I: Fn(usize) -> u64,

    requires
        is_assembly(rows, step, evaluator, numerics, stages),
        0 <= k < rows.len(),
        classification(rows[k].expr@) == ModelKind::DifferentialEquation,
    ensures
        evaluator.trajectory_segment(
            numerics,
            &rows[k].expr,
            segment_length(rows, k) as usize,
            stages[k].len() == 0,
            if stages[k].len() == 0 {
                ZERO
            } else {
                stages[k].last()
            },
            step,
            stages[k + 1].skip(stages[k].len() as int),
        ),
{
    assert(extends_by_segment(rows, k, step, evaluator, numerics, stages[k], stages[k + 1]));
}

/// The host fails the segment: whatever it answers for it is `None`.
pub open spec fn fails<C, S, F, T>(
    evaluator: &Evaluator<C, S, T>,
    kind: ModelKind,
    expr: &String,
    length: usize,
    leading: bool,
    carry: u64,
    step: u64,
) -> bool where
    C: Fn(&String) -> Option<u64>,
    S: Fn(&String) -> Option<F>,
    F: Fn(u64) -> u64,
    T: Fn(&String, usize, u64, u64, u64) -> Option<(Vec<u64>, Vec<u64>)>,
 {
    match kind {
        ModelKind::Constant => forall|outcome: Option<u64>|
            call_ensures(evaluator.constant, (expr,), outcome) ==> outcome is None,
        ModelKind::TimeFunction => forall|bound: Option<F>|
            call_ensures(evaluator.bind, (expr,), bound) ==> bound is None,
        ModelKind::DifferentialEquation => forall|outcome: Option<(Vec<u64>, Vec<u64>)>|
            call_ensures(evaluator.trajectory, (expr, length, carry, step, TOLERANCE), outcome)
                ==> outcome is None,
    }
}

/// A segment that the host fails is zero-filled: it emits exactly one zero for
/// each of its periods, and no leading sample.
pub proof fn law_failure_zero_fills<C, S, F, T, A, G, I>(
    kind: ModelKind,
    expr: &String,
    length: usize,
    leading: bool,
    carry: u64,
    step: u64,
    evaluator: &Evaluator<C, S, T>,
    numerics: &Numerics<A, G, I>,
    block: Seq<u64>,
) where
    C: Fn(&String) -> Option<u64>,
    S: Fn(&String) -> Option<F>,
    F: Fn(u64) -> u64,
    T: Fn(&String, usize, u64, u64, u64) -> Option<(Vec<u64>, Vec<u64>)>,
    A: Fn(Operation, u64, u64) -> u64,
    G: Fn(u64, u64) -> bool,
    I: Fn(usize) -> u64,

    requires
        fails(evaluator, kind, expr, length, leading, carry, step),
        is_segment_block(kind, expr, length, leading, carry, step, evaluator, numerics, block),
    ensures
        block == zero_fill(length as nat),
{
}

/// The carry-in behind a zero-filled segment is zero, and where the segment
/// has no period it is the carry-in that the segment itself had.
pub proof fn law_carry_after_zero_fill(before: Seq<u64>, length: nat)
    ensures
        carry_in(before + zero_fill(length)) == if length == 0 {
            carry_in(before)
        } else {
            ZERO
        },
{
    if length == 0 {
        assert(before + zero_fill(length) =~= before);
    }
}

/// The cumulative sum law: the running sum of each period is the running sum
/// of the period before it plus the discounted value of the period, and the
/// running sum in front of period 0 is zero.
pub proof fn law_cumulative_sum<A: Fn(Operation, u64, u64) -> u64>(
    cashflow: Seq<u64>,
    rate: u64,
    arith: A,
    records: Seq<DcfData>,
    i: int,
)
    requires
        discounts(cashflow, rate, arith, records),
        0 <= i < records.len(),
    ensures
        call_ensures(
            arith,
            (
                Operation::Add,
                if i == 0 {
                    ZERO
                } else {
                    records[i - 1].dcf_sum
                },
                records[i].dcf_unit,
            ),
            records[i].dcf_sum,
        ),
{
    let factors = choose|factors: Seq<u64>| discounts_with(cashflow, rate, arith, factors, records);
    assert(records[i].period == i);
}

/// Where adding to zero changes nothing, the first running sum is the first
/// discounted value.
pub proof fn law_first_sum<A: Fn(Operation, u64, u64) -> u64>(
    cashflow: Seq<u64>,
    rate: u64,
    arith: A,
    records: Seq<DcfData>,
)
    requires
        discounts(cashflow, rate, arith, records),
        records.len() > 0,
        forall|x: u64, r: u64| call_ensures(arith, (Operation::Add, ZERO, x), r) ==> r == x,
    ensures
        records[0].dcf_sum == records[0].dcf_unit,
{
    law_cumulative_sum(cashflow, rate, arith, records, 0);
}

/// Period 0 is not discounted: its cash flow is divided by one.  The rate
/// enters from period 1 on, whose cash flow is divided by one times the rate.
pub proof fn law_discount_starts_at_period_one<A: Fn(Operation, u64, u64) -> u64>(
    cashflow: Seq<u64>,
    rate: u64,
    arith: A,
    records: Seq<DcfData>,
)
    requires
        discounts(cashflow, rate, arith, records),
        records.len() > 0,
    ensures
        call_ensures(arith, (Operation::Div, cashflow[0], ONE), records[0].dcf_unit),
        records.len() > 1 ==> exists|factor: u64|
            call_ensures(arith, (Operation::Mul, ONE, rate), factor) && call_ensures(
                arith,
                (Operation::Div, cashflow[1], factor),
                records[1].dcf_unit,
            ),
{
    let factors = choose|factors: Seq<u64>| discounts_with(cashflow, rate, arith, factors, records);
    assert(records[0].period == 0);
    if records.len() > 1 {
        assert(records[1].period == 1);
        assert(call_ensures(arith, (Operation::Mul, ONE, rate), factors[1]));
    }
}

} // verus!
