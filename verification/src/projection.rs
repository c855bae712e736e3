//! Walks the ordered segments and stitches their blocks into one continuous
//! cash-flow series.

use vstd::prelude::*;
use crate::classifier::{classification, classify};
use crate::document::{end_period, ordered, segment_length, start_period, Row};
use crate::numeric::{Numerics, Operation, ZERO};
use crate::period::parse_period;
use crate::segment::{evaluate_segment, is_segment_block, Evaluator};

verus! {

/// What a segment starts from: the last sample of the series so far, and zero
/// where there is none.
pub open spec fn carry_in(samples: Seq<u64>) -> u64 {
    if samples.len() == 0 {
        ZERO
    } else {
        samples.last()
    }
}

/// `after` is `before` with a block of segment `k` behind it.  The segment
/// opens the series where `before` is empty, and its carry-in is the last
/// sample of `before`.
pub open spec fn extends_by_segment<C, S, F, T, A, G, I>(
    rows: Seq<Row>,
    k: int,
    step: u64,
    evaluator: &Evaluator<C, S, T>,
    numerics: &Numerics<A, G, I>,
    before: Seq<u64>,
    after: Seq<u64>,
) -> bool where
    C: Fn(&String) -> Option<u64>,
    S: Fn(&String) -> Option<F>,
    F: Fn(u64) -> u64,
    T: Fn(&String, usize, u64, u64, u64) -> Option<(Vec<u64>, Vec<u64>)>,
    A: Fn(Operation, u64, u64) -> u64,
    G: Fn(u64, u64) -> bool,
    I: Fn(usize) -> u64,
 {
    &&& before.len() <= after.len()
    &&& after.take(before.len() as int) =~= before
    &&& is_segment_block(
        classification(rows[k].expr@),
        &rows[k].expr,
        segment_length(rows, k) as usize,
        before.len() == 0,
        carry_in(before),
        step,
        evaluator,
        numerics,
        after.skip(before.len() as int),
    )
}

/// `stages[k]` is the series after the first `k` segments: it starts empty and
/// each segment extends it by one of its blocks.
pub open spec fn is_assembly<C, S, F, T, A, G, I>(
    rows: Seq<Row>,
    step: u64,
    evaluator: &Evaluator<C, S, T>,
    numerics: &Numerics<A, G, I>,
    stages: Seq<Seq<u64>>,
) -> bool where
    C: Fn(&String) -> Option<u64>,
    S: Fn(&String) -> Option<F>,
    F: Fn(u64) -> u64,
    T: Fn(&String, usize, u64, u64, u64) -> Option<(Vec<u64>, Vec<u64>)>,
    A: Fn(Operation, u64, u64) -> u64,
    G: Fn(u64, u64) -> bool,
    I: Fn(usize) -> u64,
 {
    &&& stages.len() == rows.len() + 1
    &&& stages[0] =~= Seq::<u64>::empty()
    &&& forall|k: int|
        0 <= k < rows.len() ==> extends_by_segment(
            rows,
            k,
            step,
            evaluator,
            numerics,
            #[trigger] stages[k],
            stages[k + 1],
        )
}

/// `samples` is a cash-flow series of the segments: the blocks of all of them,
/// in order.
pub open spec fn is_cashflow<C, S, F, T, A, G, I>(
    rows: Seq<Row>,
    step: u64,
    evaluator: &Evaluator<C, S, T>,
    numerics: &Numerics<A, G, I>,
    samples: Seq<u64>,
) -> bool where
    C: Fn(&String) -> Option<u64>,
    S: Fn(&String) -> Option<F>,
    F: Fn(u64) -> u64,
    T: Fn(&String, usize, u64, u64, u64) -> Option<(Vec<u64>, Vec<u64>)>,
    A: Fn(Operation, u64, u64) -> u64,
    G: Fn(u64, u64) -> bool,
    I: Fn(usize) -> u64,
 {
    exists|stages: Seq<Seq<u64>>|
        is_assembly(rows, step, evaluator, numerics, stages) && stages.last() == samples
}

/// Projects the cash flow of the segments, period by period.
///
/// Gives nothing where a segment ends before the one in front of it.  Else
/// each segment adds its block behind the blocks of those before it; a segment
/// that fails adds zeros and the projection goes on.
pub fn calculate_cashflow<C, S, F, T, A, G, I>(
    rows: &Vec<Row>,
    step: u64,
    evaluator: &Evaluator<C, S, T>,
    numerics: &Numerics<A, G, I>,
) -> (result: Option<Vec<u64>>) where
    C: Fn(&String) -> Option<u64>,
    S: Fn(&String) -> Option<F>,
    F: Fn(u64) -> u64,
    T: Fn(&String, usize, u64, u64, u64) -> Option<(Vec<u64>, Vec<u64>)>,
    A: Fn(Operation, u64, u64) -> u64,
    G: Fn(u64, u64) -> bool,
    I: Fn(usize) -> u64,

    requires
        evaluator.total(),
        numerics.total(),
    ensures
        result is Some <==> ordered(rows@),
        result matches Some(samples) ==> is_cashflow(rows@, step, evaluator, numerics, samples@),
{
    let mut output: Vec<u64> = Vec::new();
    let mut prev_period: usize = 0;
    let ghost mut stages: Seq<Seq<u64>> = seq![Seq::<u64>::empty()];
    let mut k: usize = 0;
    while k < rows.len()
        invariant
            evaluator.total(),
            numerics.total(),
            k <= rows.len(),
            prev_period == start_period(rows@, k as int),
            stages.len() == k + 1,
            stages[0] =~= Seq::<u64>::empty(),
            stages[k as int] == output@,
            forall|j: int| 0 <= j < k ==> start_period(rows@, j) <= #[trigger] end_period(rows@, j),
            forall|j: int|
                0 <= j < k ==> extends_by_segment(
                    rows@,
                    j,
                    step,
                    evaluator,
                    numerics,
                    #[trigger] stages[j],
                    stages[j + 1],
                ),
        decreases rows.len() - k,
    {
        let row = &rows[k];
        let period = parse_period(row.end.as_str());
        if period < prev_period {
            proof {
                assert(end_period(rows@, k as int) < start_period(rows@, k as int));
            }
            return None;
        }
        let kind = classify(row.expr.as_str());
        let leading = output.len() == 0;
        let carry = if leading {
            ZERO
        } else {
            output[output.len() - 1]
        };
        let mut block = evaluate_segment(
            kind,
            &row.expr,
            period - prev_period,
            leading,
            carry,
            step,
            evaluator,
            numerics,
        );
        let ghost before = output@;
        let ghost added = block@;
        let ghost earlier = stages;
        output.append(&mut block);
        proof {
            stages = stages.push(output@);
            assert(output@.take(before.len() as int) =~= before);
            assert(output@.skip(before.len() as int) =~= added) by {
                assert(output@ =~= before + output@.skip(before.len() as int));
            }
            assert forall|j: int| 0 <= j < k + 1 implies extends_by_segment(
                rows@,
                j,
                step,
                evaluator,
                numerics,
                #[trigger] stages[j],
                stages[j + 1],
            ) by {
                if j < k {
                    assert(stages[j] == earlier[j]);
                    assert(stages[j + 1] == earlier[j + 1]);
                }
            }
        }
        prev_period = period;
        k += 1;
    }
    proof {
        assert(is_assembly(rows@, step, evaluator, numerics, stages));
        assert(stages.last() == output@);
    }
    Some(output)
}

} // verus!
