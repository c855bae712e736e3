//! With a host that answers each question in one way only, a document has one
//! result: computing it again gives the same series and the same valuation.

use vstd::prelude::*;
use crate::classifier::{classification, ModelKind};
use crate::document::{segment_length, Row, StateData};
use crate::engine::{
    is_computation, is_computation_under, is_parameters, parse_deterministic, Computation,
    ProjectionParameters,
};
use crate::numeric::{arith_deterministic, negation, Numerics, Operation, TOLERANCE};
use crate::projection::{carry_in, extends_by_segment, is_assembly, is_cashflow};
use crate::segment::{
    constant_block, first_time, function_block, is_segment_block, picked, sampled,
    trajectory_view, Evaluator,
};
use crate::valuation::{discounts, discounts_with, sum_before, values, DcfData, ValuationResult};

verus! {

/// A deterministic host answers the question whether an output time has
/// reached a boundary in one way.
proof fn lemma_reaches_unique<A, G, I>(
    numerics: &Numerics<A, G, I>,
    x: u64,
    n: usize,
    threshold: u64,
    hit1: bool,
    hit2: bool,
) where A: Fn(Operation, u64, u64) -> u64, G: Fn(u64, u64) -> bool, I: Fn(usize) -> u64
    requires
        numerics.deterministic(),
        numerics.reaches(x, n, threshold, hit1),
        numerics.reaches(x, n, threshold, hit2),
    ensures
        hit1 == hit2,
{
    let (b1, d1) = choose|boundary: u64, distance: u64|
        call_ensures(numerics.from_index, (n,), boundary) && call_ensures(
            numerics.arith,
            (Operation::Sub, x, boundary),
            distance,
        ) && call_ensures(numerics.exceeds, (distance, threshold), hit1);
    let (b2, d2) = choose|boundary: u64, distance: u64|
        call_ensures(numerics.from_index, (n,), boundary) && call_ensures(
            numerics.arith,
            (Operation::Sub, x, boundary),
            distance,
        ) && call_ensures(numerics.exceeds, (distance, threshold), hit2);
    assert(b1 == b2);
    assert(d1 == d2);
}

/// Two walks over one trajectory pick the same values among the first `n`
/// points.
proof fn lemma_marks_agree<A, G, I>(
    numerics: &Numerics<A, G, I>,
    times: Seq<u64>,
    values: Seq<u64>,
    first: nat,
    spacing: u64,
    hits1: Seq<bool>,
    hits2: Seq<bool>,
    n: int,
) where A: Fn(Operation, u64, u64) -> u64, G: Fn(u64, u64) -> bool, I: Fn(usize) -> u64
    requires
        numerics.deterministic(),
        numerics.marks(times, values, first, spacing, hits1),
        numerics.marks(times, values, first, spacing, hits2),
        0 <= n <= times.len(),
    ensures
        picked(values, hits1, n) == picked(values, hits2, n),
    decreases n,
{
    if n > 0 {
        let i = n - 1;
        lemma_marks_agree(numerics, times, values, first, spacing, hits1, hits2, i);
        let due = (first + picked(values, hits1, i).len()) as usize;
        assert(numerics.reaches(times[i], due, negation(spacing), hits1[i]));
        assert(numerics.reaches(times[i], due, negation(spacing), hits2[i]));
        lemma_reaches_unique(numerics, times[i], due, negation(spacing), hits1[i], hits2[i]);
    }
}

/// With deterministic arithmetic a trajectory has one resampling.
pub proof fn law_resampling_unique<A, G, I>(
    numerics: &Numerics<A, G, I>,
    times: Seq<u64>,
    values: Seq<u64>,
    first: nat,
    block1: Seq<u64>,
    block2: Seq<u64>,
) where A: Fn(Operation, u64, u64) -> u64, G: Fn(u64, u64) -> bool, I: Fn(usize) -> u64
    requires
        numerics.deterministic(),
        numerics.resamples(times, values, first, block1),
        numerics.resamples(times, values, first, block2),
    ensures
        block1 == block2,
{
    let (s1, h1) = choose|spacing: u64, hits: Seq<bool>|
        numerics.marks(times, values, first, spacing, hits) && block1 == picked(
            values,
            hits,
            times.len() as int,
        );
    let (s2, h2) = choose|spacing: u64, hits: Seq<bool>|
        numerics.marks(times, values, first, spacing, hits) && block2 == picked(
            values,
            hits,
            times.len() as int,
        );
    assert(s1 == s2);
    lemma_marks_agree(numerics, times, values, first, s1, h1, h2, times.len() as int);
}

/// With a deterministic host a segment has one block.
pub proof fn law_segment_block_unique<C, S, F, T, A, G, I>(
    kind: ModelKind,
    expr: &String,
    length: usize,
    leading: bool,
    carry: u64,
    step: u64,
    evaluator: &Evaluator<C, S, T>,
    numerics: &Numerics<A, G, I>,
    block1: Seq<u64>,
    block2: Seq<u64>,
) where
    C: Fn(&String) -> Option<u64>,
    S: Fn(&String) -> Option<F>,
    F: Fn(u64) -> u64,
    T: Fn(&String, usize, u64, u64, u64) -> Option<(Vec<u64>, Vec<u64>)>,
    A: Fn(Operation, u64, u64) -> u64,
    G: Fn(u64, u64) -> bool,
    I: Fn(usize) -> u64,

    requires
        evaluator.deterministic(),
        numerics.deterministic(),
        is_segment_block(kind, expr, length, leading, carry, step, evaluator, numerics, block1),
        is_segment_block(kind, expr, length, leading, carry, step, evaluator, numerics, block2),
    ensures
        block1 == block2,
{
    match kind {
        ModelKind::Constant => {
            let o1 = choose|outcome: Option<u64>| #[trigger]
                call_ensures(evaluator.constant, (expr,), outcome) && block1 == constant_block(
                    outcome,
                    length as nat,
                    leading,
                );
            let o2 = choose|outcome: Option<u64>| #[trigger]
                call_ensures(evaluator.constant, (expr,), outcome) && block2 == constant_block(
                    outcome,
                    length as nat,
                    leading,
                );
            assert(o1 == o2);
        },
        ModelKind::TimeFunction => {
            let b1 = choose|bound: Option<F>| #[trigger]
                call_ensures(evaluator.bind, (expr,), bound) && function_block(
                    bound,
                    numerics,
                    length as nat,
                    leading,
                    block1,
                );
            let b2 = choose|bound: Option<F>| #[trigger]
                call_ensures(evaluator.bind, (expr,), bound) && function_block(
                    bound,
                    numerics,
                    length as nat,
                    leading,
                    block2,
                );
            assert(b1 is None <==> b2 is None);
            if b1 is Some {
                let f1 = b1->0;
                let f2 = b2->0;
                assert forall|i: int| 0 <= i < block1.len() implies block1[i] == block2[i] by {
                    let t = (first_time(leading) + i) as usize;
                    assert(sampled(f1, numerics, t, block1[i]));
                    assert(sampled(f2, numerics, t, block2[i]));
                    let time1 = choose|time: u64| #[trigger]
                        call_ensures(numerics.from_index, (t,), time) && call_ensures(
                            f1,
                            (time,),
                            block1[i],
                        );
                    let time2 = choose|time: u64| #[trigger]
                        call_ensures(numerics.from_index, (t,), time) && call_ensures(
                            f2,
                            (time,),
                            block2[i],
                        );
                    assert(time1 == time2);
                }
                assert(block1 =~= block2);
            }
        },
        ModelKind::DifferentialEquation => {
            let o1 = choose|outcome: Option<(Vec<u64>, Vec<u64>)>| #[trigger]
                call_ensures(evaluator.trajectory, (expr, length, carry, step, TOLERANCE), outcome)
                    && numerics.trajectory_block(
                    trajectory_view(outcome),
                    length as nat,
                    leading,
                    block1,
                );
            let o2 = choose|outcome: Option<(Vec<u64>, Vec<u64>)>| #[trigger]
                call_ensures(evaluator.trajectory, (expr, length, carry, step, TOLERANCE), outcome)
                    && numerics.trajectory_block(
                    trajectory_view(outcome),
                    length as nat,
                    leading,
                    block2,
                );
            assert(trajectory_view(o1) == trajectory_view(o2));
            match trajectory_view(o1) {
                Some((times, values)) => {
                    if times.len() == values.len() && times.len() >= 2 {
                        law_resampling_unique(
                            numerics,
                            times,
                            values,
                            first_time(leading) as nat,
                            block1,
                            block2,
                        );
                    }
                },
                None => {},
            }
        },
    }
}

/// Two assemblies of the same segments agree after each segment.
proof fn lemma_stages_agree<C, S, F, T, A, G, I>(
    rows: Seq<Row>,
    step: u64,
    evaluator: &Evaluator<C, S, T>,
    numerics: &Numerics<A, G, I>,
    stages1: Seq<Seq<u64>>,
    stages2: Seq<Seq<u64>>,
    k: int,
) where
    C: Fn(&String) -> Option<u64>,
    S: Fn(&String) -> Option<F>,
    F: Fn(u64) -> u64,
    T: Fn(&String, usize, u64, u64, u64) -> Option<(Vec<u64>, Vec<u64>)>,
    A: Fn(Operation, u64, u64) -> u64,
    G: Fn(u64, u64) -> bool,
    I: Fn(usize) -> u64,

    requires
        evaluator.deterministic(),
        numerics.deterministic(),
        is_assembly(rows, step, evaluator, numerics, stages1),
        is_assembly(rows, step, evaluator, numerics, stages2),
        0 <= k <= rows.len(),
    ensures
        stages1[k] == stages2[k],
    decreases k,
{
    if k == 0 {
        assert(stages1[0] =~= stages2[0]);
    } else {
        let j = k - 1;
        lemma_stages_agree(rows, step, evaluator, numerics, stages1, stages2, j);
        let before = stages1[j];
        assert(extends_by_segment(rows, j, step, evaluator, numerics, stages1[j], stages1[j + 1]));
        assert(extends_by_segment(rows, j, step, evaluator, numerics, stages2[j], stages2[j + 1]));
        let block1 = stages1[k].skip(before.len() as int);
        let block2 = stages2[k].skip(before.len() as int);
        law_segment_block_unique(
            classification(rows[j].expr@),
            &rows[j].expr,
            segment_length(rows, j) as usize,
            before.len() == 0,
            carry_in(before),
            step,
            evaluator,
            numerics,
            block1,
            block2,
        );
        assert(stages1[k] =~= stages1[k].take(before.len() as int) + block1);
        assert(stages2[k] =~= stages2[k].take(before.len() as int) + block2);
    }
}

/// With a deterministic host the segments have one cash-flow series.
pub proof fn law_cashflow_unique<C, S, F, T, A, G, I>(
    rows: Seq<Row>,
    step: u64,
    evaluator: &Evaluator<C, S, T>,
    numerics: &Numerics<A, G, I>,
    samples1: Seq<u64>,
    samples2: Seq<u64>,
) where
    C: Fn(&String) -> Option<u64>,
    S: Fn(&String) -> Option<F>,
    F: Fn(u64) -> u64,
    T: Fn(&String, usize, u64, u64, u64) -> Option<(Vec<u64>, Vec<u64>)>,
    A: Fn(Operation, u64, u64) -> u64,
    G: Fn(u64, u64) -> bool,
    I: Fn(usize) -> u64,

    requires
        evaluator.deterministic(),
        numerics.deterministic(),
        is_cashflow(rows, step, evaluator, numerics, samples1),
        is_cashflow(rows, step, evaluator, numerics, samples2),
    ensures
        samples1 == samples2,
{
    let stages1 = choose|stages: Seq<Seq<u64>>|
        is_assembly(rows, step, evaluator, numerics, stages) && stages.last() == samples1;
    let stages2 = choose|stages: Seq<Seq<u64>>|
        is_assembly(rows, step, evaluator, numerics, stages) && stages.last() == samples2;
    lemma_stages_agree(
        rows,
        step,
        evaluator,
        numerics,
        stages1,
        stages2,
        rows.len() as int,
    );
}

/// Two discountings of one series use the same factor for period `k`, have the
/// same running sum in front of it, and the same record for the period before.
proof fn lemma_discounts_agree<A: Fn(Operation, u64, u64) -> u64>(
    cashflow: Seq<u64>,
    rate: u64,
    arith: A,
    factors1: Seq<u64>,
    factors2: Seq<u64>,
    records1: Seq<DcfData>,
    records2: Seq<DcfData>,
    k: int,
)
    requires
        arith_deterministic(arith),
        discounts_with(cashflow, rate, arith, factors1, records1),
        discounts_with(cashflow, rate, arith, factors2, records2),
        0 <= k <= cashflow.len(),
    ensures
        factors1[k] == factors2[k],
        sum_before(records1, k) == sum_before(records2, k),
        k > 0 ==> records1[k - 1] == records2[k - 1],
    decreases k,
{
    if k > 0 {
        let i = k - 1;
        lemma_discounts_agree(cashflow, rate, arith, factors1, factors2, records1, records2, i);
        let r1 = records1[i];
        let r2 = records2[i];
        assert(r1.period == i && r2.period == i);
        assert(r1.cashflow == cashflow[i] && r2.cashflow == cashflow[i]);
        assert(call_ensures(arith, (Operation::Div, cashflow[i], factors1[i]), r1.dcf_unit));
        assert(call_ensures(arith, (Operation::Div, cashflow[i], factors1[i]), r2.dcf_unit));
        assert(r1.dcf_unit == r2.dcf_unit);
        assert(call_ensures(
            arith,
            (Operation::Add, sum_before(records1, i), r1.dcf_unit),
            r1.dcf_sum,
        ));
        assert(call_ensures(
            arith,
            (Operation::Add, sum_before(records1, i), r1.dcf_unit),
            r2.dcf_sum,
        ));
        assert(r1.dcf_sum == r2.dcf_sum);
        assert(call_ensures(arith, (Operation::Mul, factors1[i], rate), factors1[k]));
        assert(call_ensures(arith, (Operation::Mul, factors1[i], rate), factors2[k]));
    }
}

/// With deterministic arithmetic a series has one discounted cash flow.
pub proof fn law_discounts_unique<A: Fn(Operation, u64, u64) -> u64>(
    cashflow: Seq<u64>,
    rate: u64,
    arith: A,
    records1: Seq<DcfData>,
    records2: Seq<DcfData>,
)
    requires
        arith_deterministic(arith),
        discounts(cashflow, rate, arith, records1),
        discounts(cashflow, rate, arith, records2),
    ensures
        records1 == records2,
{
    let factors1 = choose|factors: Seq<u64>|
        discounts_with(cashflow, rate, arith, factors, records1);
    let factors2 = choose|factors: Seq<u64>|
        discounts_with(cashflow, rate, arith, factors, records2);
    assert forall|j: int| 0 <= j < records1.len() implies records1[j] == records2[j] by {
        lemma_discounts_agree(
            cashflow,
            rate,
            arith,
            factors1,
            factors2,
            records1,
            records2,
            j + 1,
        );
    }
    assert(records1 =~= records2);
}

/// With deterministic arithmetic a series has one valuation.
pub proof fn law_valuation_unique<A: Fn(Operation, u64, u64) -> u64>(
    cashflow: Seq<u64>,
    growth: u64,
    rate: u64,
    arith: A,
    first: ValuationResult,
    second: ValuationResult,
)
    requires
        arith_deterministic(arith),
        values(cashflow, growth, rate, arith, first),
        values(cashflow, growth, rate, arith, second),
    ensures
        first.dcf_records@ == second.dcf_records@,
        first.terminal_value == second.terminal_value,
        first.total_value == second.total_value,
{
    law_discounts_unique(cashflow, rate, arith, first.dcf_records@, second.dcf_records@);
    let records = first.dcf_records@;
    if records.len() > 0 {
        let (g1, s1) = choose|grown: u64, spread: u64|
            call_ensures(arith, (Operation::Mul, records.last().cashflow, growth), grown)
                && call_ensures(arith, (Operation::Sub, rate, growth), spread) && call_ensures(
                arith,
                (Operation::Div, grown, spread),
                first.terminal_value,
            );
        let (g2, s2) = choose|grown: u64, spread: u64|
            call_ensures(arith, (Operation::Mul, records.last().cashflow, growth), grown)
                && call_ensures(arith, (Operation::Sub, rate, growth), spread) && call_ensures(
                arith,
                (Operation::Div, grown, spread),
                second.terminal_value,
            );
        assert(g1 == g2);
        assert(s1 == s2);
    }
}

/// Idempotence: with a deterministic host, computing an unchanged document
/// again gives the result that was computed before, sample by sample and
/// record by record.
pub proof fn law_recomputation_is_idempotent<C, S, F, T, A, G, I, P>(
    state: &StateData,
    evaluator: &Evaluator<C, S, T>,
    numerics: &Numerics<A, G, I>,
    parse: P,
    first: Option<Computation>,
    second: Option<Computation>,
) where
    C: Fn(&String) -> Option<u64>,
    S: Fn(&String) -> Option<F>,
    F: Fn(u64) -> u64,
    T: Fn(&String, usize, u64, u64, u64) -> Option<(Vec<u64>, Vec<u64>)>,
    A: Fn(Operation, u64, u64) -> u64,
    G: Fn(u64, u64) -> bool,
    I: Fn(usize) -> u64,
    P: Fn(&String) -> Option<u64>,

    requires
        evaluator.deterministic(),
        numerics.deterministic(),
        parse_deterministic(parse),
        is_computation(state, evaluator, numerics, parse, first),
        is_computation(state, evaluator, numerics, parse, second),
    ensures
        first is Some == second is Some,
        first is Some ==> {
            &&& first->0.cashflow@ == second->0.cashflow@
            &&& first->0.valuation.dcf_records@ == second->0.valuation.dcf_records@
            &&& first->0.valuation.terminal_value == second->0.valuation.terminal_value
            &&& first->0.valuation.total_value == second->0.valuation.total_value
        },
{
    let params1 = choose|params: ProjectionParameters|
        is_parameters(state, parse, params) && is_computation_under(
            state,
            params,
            evaluator,
            numerics,
            first,
        );
    let params2 = choose|params: ProjectionParameters|
        is_parameters(state, parse, params) && is_computation_under(
            state,
            params,
            evaluator,
            numerics,
            second,
        );
    lemma_parameters_unique(state, parse, params1, params2);
    if first is Some {
        let a = first->0;
        let b = second->0;
        law_cashflow_unique(
            state.rows@,
            params1.ode_step_size,
            evaluator,
            numerics,
            a.cashflow@,
            b.cashflow@,
        );
        law_valuation_unique(
            a.cashflow@,
            params1.terminal_growth_rate,
            params1.discount_rate_per_period,
            numerics.arith,
            a.valuation,
            b.valuation,
        );
    }
}

/// A deterministic parser reads one set of parameters from a document.
proof fn lemma_parameters_unique<P: Fn(&String) -> Option<u64>>(
    state: &StateData,
    parse: P,
    first: ProjectionParameters,
    second: ProjectionParameters,
)
    requires
        parse_deterministic(parse),
        is_parameters(state, parse, first),
        is_parameters(state, parse, second),
    ensures
        first == second,
{
    let (g1, d1, s1) = choose|growth: Option<u64>, discount: Option<u64>, step: Option<u64>|
        call_ensures(parse, (&state.growth,), growth) && call_ensures(
            parse,
            (&state.discount,),
            discount,
        ) && call_ensures(parse, (&state.ode_step_size,), step) && first
            == ProjectionParameters::of(growth, discount, step);
    let (g2, d2, s2) = choose|growth: Option<u64>, discount: Option<u64>, step: Option<u64>|
        call_ensures(parse, (&state.growth,), growth) && call_ensures(
            parse,
            (&state.discount,),
            discount,
        ) && call_ensures(parse, (&state.ode_step_size,), step) && second
            == ProjectionParameters::of(growth, discount, step);
    assert(g1 == g2 && d1 == d2 && s1 == s2);
}

} // verus!
