//! A verified engine for piecewise cash-flow projections and their
//! discounted-cash-flow valuation.
//!
//! Every cash-flow sample is carried as the bit pattern of an IEEE 754
//! binary64 number.  The engine never computes with such a number itself: the
//! host hands it the arithmetic, the expression evaluation and the ODE
//! integration as closures, and the contracts say which operation is applied to
//! which operands, in which order, and where each result goes.

pub mod classifier;
pub mod numeric;
pub mod period;
pub mod segment;
pub mod document;
pub mod projection;
pub mod valuation;
pub mod engine;
pub mod laws;
pub mod determinism;
pub mod input;
