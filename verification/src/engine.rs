//! From an input document to the series and its valuation, and the cache that
//! keeps the last result until the document changes.

use vstd::prelude::*;
use crate::document::{ordered, same_inputs, same_text, StateData};
use crate::numeric::{parse_or_default, value_or, Numerics, Operation, ONE};
use crate::projection::{calculate_cashflow, is_cashflow};
use crate::segment::Evaluator;
use crate::valuation::{valuate, values, ValuationResult};

verus! {

/// The numeric parameters of a projection, each the bit pattern of a number.
#[derive(Clone, Copy, PartialEq, Eq, Debug, Structural)]
pub struct ProjectionParameters {
    pub terminal_growth_rate: u64,
    pub discount_rate_per_period: u64,
    pub ode_step_size: u64,
}

impl ProjectionParameters {
    /// The parameters from what parsing the three fields gave, with one in
    /// place of each field that did not parse.
    pub open spec fn of(growth: Option<u64>, discount: Option<u64>, step: Option<u64>) -> Self {
        ProjectionParameters {
            terminal_growth_rate: value_or(growth, ONE),
            discount_rate_per_period: value_or(discount, ONE),
            ode_step_size: value_or(step, ONE),
        }
    }

    /// Builds the parameters from what parsing the three fields gave.
    pub fn from_parsed(growth: Option<u64>, discount: Option<u64>, step: Option<u64>) -> (params:
        Self)
        ensures
            params == Self::of(growth, discount, step),
    {
        ProjectionParameters {
            terminal_growth_rate: parse_or_default(growth, ONE),
            discount_rate_per_period: parse_or_default(discount, ONE),
            ode_step_size: parse_or_default(step, ONE),
        }
    }
}

/// `parse` accepts every text.
pub open spec fn parse_total<P: Fn(&String) -> Option<u64>>(parse: P) -> bool {
    forall|text: &String| call_requires(parse, (text,))
}

/// `parse` has at most one result for each text.
pub open spec fn parse_deterministic<P: Fn(&String) -> Option<u64>>(parse: P) -> bool {
    forall|text: &String, r1: Option<u64>, r2: Option<u64>|
        call_ensures(parse, (text,), r1) && call_ensures(parse, (text,), r2) ==> r1 == r2
}

/// `params` are parameters of the document: each is what `parse` makes of its
/// field, or one.
pub open spec fn is_parameters<P: Fn(&String) -> Option<u64>>(
    state: &StateData,
    parse: P,
    params: ProjectionParameters,
) -> bool {
    exists|growth: Option<u64>, discount: Option<u64>, step: Option<u64>|
        call_ensures(parse, (&state.growth,), growth) && call_ensures(
            parse,
            (&state.discount,),
            discount,
        ) && call_ensures(parse, (&state.ode_step_size,), step) && params
            == ProjectionParameters::of(growth, discount, step)
}

/// Reads the three numeric fields of the document with the host's parser.
pub fn resolve_parameters<P: Fn(&String) -> Option<u64>>(state: &StateData, parse: &P) -> (params:
    ProjectionParameters)
    requires
        parse_total(*parse),
    ensures
        is_parameters(state, *parse, params),
{
    let growth = parse(&state.growth);
    let discount = parse(&state.discount);
    let step = parse(&state.ode_step_size);
    ProjectionParameters::from_parsed(growth, discount, step)
}

/// The cash-flow series of a document with its valuation.
#[derive(Clone, PartialEq, Eq, Debug)]
pub struct Computation {
    pub cashflow: Vec<u64>,
    pub valuation: ValuationResult,
}

/// `result` is an outcome of computing the document under `params`: nothing
/// where the segments are out of order, else a cash-flow series of the
/// segments with a valuation of that series.
pub open spec fn is_computation_under<C, S, F, T, A, G, I>(
    state: &StateData,
    params: ProjectionParameters,
    evaluator: &Evaluator<C, S, T>,
    numerics: &Numerics<A, G, I>,
    result: Option<Computation>,
) -> bool where
    C: Fn(&String) -> Option<u64>,
    S: Fn(&String) -> Option<F>,
    F: Fn(u64) -> u64,
    T: Fn(&String, usize, u64, u64, u64) -> Option<(Vec<u64>, Vec<u64>)>,
    A: Fn(Operation, u64, u64) -> u64,
    G: Fn(u64, u64) -> bool,
    I: Fn(usize) -> u64,
 {
    match result {
        None => !ordered(state.rows@),
        Some(computation) => {
            &&& ordered(state.rows@)
            &&& is_cashflow(
                state.rows@,
                params.ode_step_size,
                evaluator,
                numerics,
                computation.cashflow@,
            )
            &&& values(
                computation.cashflow@,
                params.terminal_growth_rate,
                params.discount_rate_per_period,
                numerics.arith,
                computation.valuation,
            )
        },
    }
}

/// `result` is an outcome of computing the document.
pub open spec fn is_computation<C, S, F, T, A, G, I, P>(
    state: &StateData,
    evaluator: &Evaluator<C, S, T>,
    numerics: &Numerics<A, G, I>,
    parse: P,
    result: Option<Computation>,
) -> bool where
    C: Fn(&String) -> Option<u64>,
    S: Fn(&String) -> Option<F>,
    F: Fn(u64) -> u64,
    T: Fn(&String, usize, u64, u64, u64) -> Option<(Vec<u64>, Vec<u64>)>,
    A: Fn(Operation, u64, u64) -> u64,
    G: Fn(u64, u64) -> bool,
    I: Fn(usize) -> u64,
    P: Fn(&String) -> Option<u64>,
 {
    exists|params: ProjectionParameters|
        is_parameters(state, parse, params) && is_computation_under(
            state,
            params,
            evaluator,
            numerics,
            result,
        )
}

/// Computes the cash-flow series of a document and values it.
///
/// Gives nothing, and no partial result, where a segment ends before the one in
/// front of it.
pub fn compute<C, S, F, T, A, G, I, P>(
    state: &StateData,
    evaluator: &Evaluator<C, S, T>,
    numerics: &Numerics<A, G, I>,
    parse: &P,
) -> (result: Option<Computation>) where
    C: Fn(&String) -> Option<u64>,
    S: Fn(&String) -> Option<F>,
    F: Fn(u64) -> u64,
    T: Fn(&String, usize, u64, u64, u64) -> Option<(Vec<u64>, Vec<u64>)>,
    A: Fn(Operation, u64, u64) -> u64,
    G: Fn(u64, u64) -> bool,
    I: Fn(usize) -> u64,
    P: Fn(&String) -> Option<u64>,

    requires
        evaluator.total(),
        numerics.total(),
        parse_total(*parse),
    ensures
        result is Some <==> ordered(state.rows@),
        is_computation(state, evaluator, numerics, *parse, result),
{
    let params = resolve_parameters(state, parse);
    let result = match calculate_cashflow(&state.rows, params.ode_step_size, evaluator, numerics) {
        Some(cashflow) => {
            let valuation = valuate(
                &cashflow,
                params.terminal_growth_rate,
                params.discount_rate_per_period,
                &numerics.arith,
            );
            Some(Computation { cashflow, valuation })
        },
        None => None,
    };
    proof {
        assert(is_computation_under(state, params, evaluator, numerics, result));
    }
    result
}

/// The last computed result with the document it was computed from.
///
/// A read of a cache that is empty, or that holds the result of a document
/// that reads otherwise, computes afresh; the cache is never updated in part.
#[derive(Debug)]
pub struct ResultCache {
    entry: Option<(StateData, Computation)>,
}

impl ResultCache {
    /// The result that the cache holds.
    pub closed spec fn entry(&self) -> Option<Computation> {
        match self.entry {
            Some((_, computation)) => Some(computation),
            None => None,
        }
    }

    /// The document that the held result was computed from.
    pub closed spec fn key(&self) -> Option<StateData> {
        match self.entry {
            Some((key, _)) => Some(key),
            None => None,
        }
    }

    /// The cache holds the result of a document that reads as `state` does.
    pub open spec fn holds(&self, state: &StateData) -> bool {
        self.key() matches Some(key) && same_text(&key, state)
    }

    /// An empty cache.
    pub fn new() -> (cache: Self)
        ensures
            cache.entry() is None,
            cache.key() is None,
    {
        ResultCache { entry: None }
    }

    /// Discards the result.
    pub fn invalidate(&mut self)
        ensures
            final(self).entry() is None,
            final(self).key() is None,
    {
        self.entry = None;
    }

    /// Whether a result is held.
    pub fn is_valid(&self) -> (valid: bool)
        ensures
            valid == self.entry() is Some,
            valid == self.key() is Some,
    {
        self.entry.is_some()
    }

    /// Whether the held result belongs to a document that reads as `state`
    /// does.
    pub fn is_current(&self, state: &StateData) -> (current: bool)
        ensures
            current == self.holds(state),
    {
        match &self.entry {
            Some((key, _)) => key.reads_as(state),
            None => false,
        }
    }

    /// The result that is held, if any.
    pub fn get(&self) -> (held: Option<&Computation>)
        ensures
            held is Some == self.entry() is Some,
            held matches Some(computation) ==> self.entry() == Some(*computation),
    {
        match &self.entry {
            Some((_, computation)) => Some(computation),
            None => None,
        }
    }

    /// Makes the cache hold a result of the document.  A result of a document
    /// that reads the same stays as it is.  Else the document is computed: its
    /// result is held with a copy of the document, and where the segments are
    /// out of order the cache is left empty.
    pub fn refresh<C, S, F, T, A, G, I, P>(
        &mut self,
        state: &StateData,
        evaluator: &Evaluator<C, S, T>,
        numerics: &Numerics<A, G, I>,
        parse: &P,
    ) where
        C: Fn(&String) -> Option<u64>,
        S: Fn(&String) -> Option<F>,
    F: Fn(u64) -> u64,
        T: Fn(&String, usize, u64, u64, u64) -> Option<(Vec<u64>, Vec<u64>)>,
        A: Fn(Operation, u64, u64) -> u64,
        G: Fn(u64, u64) -> bool,
        I: Fn(usize) -> u64,
        P: Fn(&String) -> Option<u64>,

        requires
            evaluator.total(),
            numerics.total(),
            parse_total(*parse),
        ensures
            old(self).holds(state) ==> *final(self) == *old(self),
            !old(self).holds(state) ==> {
                &&& final(self).entry() is Some <==> ordered(state.rows@)
                &&& final(self).key() is Some <==> ordered(state.rows@)
                &&& final(self).key() matches Some(key) ==> same_inputs(&key, state)
                &&& is_computation(state, evaluator, numerics, *parse, final(self).entry())
            },
    {
        if !self.is_current(state) {
            self.entry = match compute(state, evaluator, numerics, parse) {
                Some(computation) => Some((state.duplicate(), computation)),
                None => None,
            };
        }
    }
}

} // verus!
