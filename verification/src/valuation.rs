//! Folds a cash-flow series into discounted values with a running sum, and
//! values the tail beyond the last period.

use vstd::prelude::*;
use crate::numeric::{arith_total, Operation, ONE, ZERO};

verus! {

/// One period of the discounted cash flow.
#[derive(Clone, Copy, PartialEq, Eq, Debug, Structural)]
pub struct DcfData {
    /// Index of the period, counted from 0.
    pub period: usize,
    /// Cash flow of the period.
    pub cashflow: u64,
    /// The cash flow divided by the discount factor of the period.
    pub dcf_unit: u64,
    /// Sum of the discounted values up to and including this period.
    pub dcf_sum: u64,
}

/// The discounted series with the value of the tail.
#[derive(Clone, PartialEq, Eq, Debug)]
pub struct ValuationResult {
    pub dcf_records: Vec<DcfData>,
    /// Value of the tail beyond the last period.
    pub terminal_value: u64,
    /// The terminal value plus the sum of all discounted values.
    pub total_value: u64,
}

/// The running sum in front of period `i`: zero in front of the first.
pub open spec fn sum_before(records: Seq<DcfData>, i: int) -> u64 {
    if i <= 0 {
        ZERO
    } else {
        records[i - 1].dcf_sum
    }
}

/// `records` discount `cashflow` with the discount factors `factors`.
///
/// The factor of period 0 is one, and each later factor is the one before it
/// times `rate`.  The discounted value of a period is its cash flow divided by
/// its factor, and the running sum of a period is the running sum in front of
/// it plus its discounted value.
pub open spec fn discounts_with<A: Fn(Operation, u64, u64) -> u64>(
    cashflow: Seq<u64>,
    rate: u64,
    arith: A,
    factors: Seq<u64>,
    records: Seq<DcfData>,
) -> bool {
    &&& records.len() == cashflow.len()
    &&& factors.len() == cashflow.len() + 1
    &&& factors[0] == ONE
    &&& forall|i: int|
        0 <= i < cashflow.len() ==> {
            &&& (#[trigger] records[i]).period == i
            &&& records[i].cashflow == cashflow[i]
            &&& call_ensures(arith, (Operation::Div, cashflow[i], factors[i]), records[i].dcf_unit)
            &&& call_ensures(
                arith,
                (Operation::Add, sum_before(records, i), records[i].dcf_unit),
                records[i].dcf_sum,
            )
            &&& call_ensures(arith, (Operation::Mul, factors[i], rate), factors[i + 1])
        }
}

/// `records` are a discounted cash flow of `cashflow` at `rate`.
pub open spec fn discounts<A: Fn(Operation, u64, u64) -> u64>(
    cashflow: Seq<u64>,
    rate: u64,
    arith: A,
    records: Seq<DcfData>,
) -> bool {
    exists|factors: Seq<u64>| discounts_with(cashflow, rate, arith, factors, records)
}

/// `value` is a terminal value behind `records`: the last cash flow times
/// `growth`, divided by `rate` minus `growth`; zero where there is no period.
/// The denominator is not guarded.
pub open spec fn is_terminal_value<A: Fn(Operation, u64, u64) -> u64>(
    records: Seq<DcfData>,
    growth: u64,
    rate: u64,
    arith: A,
    value: u64,
) -> bool {
    if records.len() == 0 {
        value == ZERO
    } else {
        exists|grown: u64, spread: u64|
            call_ensures(arith, (Operation::Mul, records.last().cashflow, growth), grown)
                && call_ensures(arith, (Operation::Sub, rate, growth), spread) && call_ensures(
                arith,
                (Operation::Div, grown, spread),
                value,
            )
    }
}

/// `valuation` values `cashflow`: its records discount it, its terminal value
/// belongs to them, and its total is the terminal value plus the last running
/// sum.
pub open spec fn values<A: Fn(Operation, u64, u64) -> u64>(
    cashflow: Seq<u64>,
    growth: u64,
    rate: u64,
    arith: A,
    valuation: ValuationResult,
) -> bool {
    &&& discounts(cashflow, rate, arith, valuation.dcf_records@)
    &&& is_terminal_value(valuation.dcf_records@, growth, rate, arith, valuation.terminal_value)
    &&& call_ensures(
        arith,
        (
            Operation::Add,
            valuation.terminal_value,
            sum_before(valuation.dcf_records@, valuation.dcf_records@.len() as int),
        ),
        valuation.total_value,
    )
}

/// Discounts a cash-flow series.  Period 0 is not discounted: the factor is
/// multiplied by `rate` after each period, not before it.
pub fn calculate_dcf<A: Fn(Operation, u64, u64) -> u64>(
    cashflow: &Vec<u64>,
    rate: u64,
    arith: &A,
) -> (records: Vec<DcfData>)
    requires
        arith_total(*arith),
    ensures
        discounts(cashflow@, rate, *arith, records@),
{
    let mut records: Vec<DcfData> = Vec::new();
    let mut discount: u64 = ONE;
    let mut dcf_sum: u64 = ZERO;
    let ghost mut factors: Seq<u64> = seq![ONE];
    let mut i: usize = 0;
    while i < cashflow.len()
        invariant
            arith_total(*arith),
            i <= cashflow.len(),
            records.len() == i,
            factors.len() == i + 1,
            factors[0] == ONE,
            factors[i as int] == discount,
            dcf_sum == sum_before(records@, i as int),
            forall|j: int|
                0 <= j < i ==> {
                    &&& (#[trigger] records@[j]).period == j
                    &&& records@[j].cashflow == cashflow@[j]
                    &&& call_ensures(
                        *arith,
                        (Operation::Div, cashflow@[j], factors[j]),
                        records@[j].dcf_unit,
                    )
                    &&& call_ensures(
                        *arith,
                        (Operation::Add, sum_before(records@, j), records@[j].dcf_unit),
                        records@[j].dcf_sum,
                    )
                    &&& call_ensures(*arith, (Operation::Mul, factors[j], rate), factors[j + 1])
                },
        decreases cashflow.len() - i,
    {
        let amount = cashflow[i];
        let dcf_unit = arith(Operation::Div, amount, discount);
        let sum = arith(Operation::Add, dcf_sum, dcf_unit);
        let next = arith(Operation::Mul, discount, rate);
        let ghost earlier = records@;
        let ghost earlier_factors = factors;
        records.push(DcfData { period: i, cashflow: amount, dcf_unit, dcf_sum: sum });
        proof {
            factors = factors.push(next);
            assert forall|j: int| 0 <= j < i + 1 implies {
                &&& (#[trigger] records@[j]).period == j
                &&& records@[j].cashflow == cashflow@[j]
                &&& call_ensures(
                    *arith,
                    (Operation::Div, cashflow@[j], factors[j]),
                    records@[j].dcf_unit,
                )
                &&& call_ensures(
                    *arith,
                    (Operation::Add, sum_before(records@, j), records@[j].dcf_unit),
                    records@[j].dcf_sum,
                )
                &&& call_ensures(*arith, (Operation::Mul, factors[j], rate), factors[j + 1])
            } by {
                if j < i {
                    assert(records@[j] == earlier[j]);
                    assert(sum_before(records@, j) == sum_before(earlier, j));
                    assert(factors[j] == earlier_factors[j]);
                    assert(factors[j + 1] == earlier_factors[j + 1]);
                }
            }
        }
        dcf_sum = sum;
        discount = next;
        i += 1;
    }
    proof {
        assert(discounts_with(cashflow@, rate, *arith, factors, records@));
    }
    records
}

/// Values the tail beyond the last period under constant growth.
pub fn terminal_value<A: Fn(Operation, u64, u64) -> u64>(
    records: &Vec<DcfData>,
    growth: u64,
    rate: u64,
    arith: &A,
) -> (value: u64)
    requires
        arith_total(*arith),
    ensures
        is_terminal_value(records@, growth, rate, *arith, value),
{
    if records.len() == 0 {
        ZERO
    } else {
        let last = records[records.len() - 1];
        let grown = arith(Operation::Mul, last.cashflow, growth);
        let spread = arith(Operation::Sub, rate, growth);
        arith(Operation::Div, grown, spread)
    }
}

/// Discounts a cash-flow series and adds the terminal value to its sum.
pub fn valuate<A: Fn(Operation, u64, u64) -> u64>(
    cashflow: &Vec<u64>,
    growth: u64,
    rate: u64,
    arith: &A,
) -> (valuation: ValuationResult)
    requires
        arith_total(*arith),
    ensures
        values(cashflow@, growth, rate, *arith, valuation),
{
    let dcf_records = calculate_dcf(cashflow, rate, arith);
    let terminal_value = terminal_value(&dcf_records, growth, rate, arith);
    let last_sum = if dcf_records.len() == 0 {
        ZERO
    } else {
        dcf_records[dcf_records.len() - 1].dcf_sum
    };
    let total_value = arith(Operation::Add, terminal_value, last_sum);
    ValuationResult { dcf_records, terminal_value, total_value }
}

} // verus!
