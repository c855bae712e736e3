//! Bit patterns of the numbers the engine fixes, and the arithmetic that the
//! host supplies.

use vstd::prelude::*;

verus! {

/// Bit pattern of positive zero: the sample of a zero-filled period and the
/// start of every running sum.
pub const ZERO: u64 = 0;

/// Bit pattern of one: the fallback of an unparseable rate or step size, and the
/// discount factor of period 0.
pub const ONE: u64 = 0x3FF0_0000_0000_0000;

/// Bit pattern of the error tolerance (absolute and relative) of the ODE
/// integration, ten to the power of minus ten.
pub const TOLERANCE: u64 = 0x3DDB_7CDF_D9D7_BDBB;

/// The sign bit of a binary64 number.
pub const SIGN_BIT: u64 = 0x8000_0000_0000_0000;

/// The bit pattern of the negation: the same bits with the sign flipped.
pub open spec fn negation(bits: u64) -> u64 {
    bits ^ SIGN_BIT
}

/// Negates a number given by its bit pattern.
pub fn negated(bits: u64) -> (r: u64)
    ensures
        r == negation(bits),
{
    bits ^ SIGN_BIT
}

/// A parsed numeric field, or its fallback where the text did not parse.
pub open spec fn value_or(parsed: Option<u64>, fallback: u64) -> u64 {
    match parsed {
        Some(v) => v,
        None => fallback,
    }
}

/// Substitutes `fallback` for a field that did not parse.
pub fn parse_or_default(parsed: Option<u64>, fallback: u64) -> (r: u64)
    ensures
        r == value_or(parsed, fallback),
{
    match parsed {
        Some(v) => v,
        None => fallback,
    }
}

/// The binary operations the engine asks of the host.
#[derive(Clone, Copy, PartialEq, Eq, Debug, Structural)]
pub enum Operation {
    Add,
    Sub,
    Mul,
    Div,
}

/// The host's arithmetic on bit patterns.
///
/// `arith` applies a binary operation, `exceeds` tells whether its first
/// argument is greater than its second, and `from_index` converts a period
/// index to the number of the same value.
pub struct Numerics<A, G, I> {
    pub arith: A,
    pub exceeds: G,
    pub from_index: I,
}

impl<A, G, I> Numerics<A, G, I> where
    A: Fn(Operation, u64, u64) -> u64,
    G: Fn(u64, u64) -> bool,
    I: Fn(usize) -> u64,
 {
    /// Every closure accepts every argument.
    pub open spec fn total(&self) -> bool {
        &&& forall|op: Operation, a: u64, b: u64| call_requires(self.arith, (op, a, b))
        &&& forall|a: u64, b: u64| call_requires(self.exceeds, (a, b))
        &&& forall|n: usize| call_requires(self.from_index, (n,))
    }

    /// Every closure has at most one result for each argument.
    pub open spec fn deterministic(&self) -> bool {
        &&& forall|op: Operation, a: u64, b: u64, r1: u64, r2: u64|
            call_ensures(self.arith, (op, a, b), r1) && call_ensures(self.arith, (op, a, b), r2)
                ==> r1 == r2
        &&& forall|a: u64, b: u64, r1: bool, r2: bool|
            call_ensures(self.exceeds, (a, b), r1) && call_ensures(self.exceeds, (a, b), r2)
                ==> r1 == r2
        &&& forall|n: usize, r1: u64, r2: u64|
            call_ensures(self.from_index, (n,), r1) && call_ensures(self.from_index, (n,), r2)
                ==> r1 == r2
    }
}

/// `arith` accepts every argument.
pub open spec fn arith_total<A: Fn(Operation, u64, u64) -> u64>(arith: A) -> bool {
    forall|op: Operation, a: u64, b: u64| call_requires(arith, (op, a, b))
}

/// `arith` has at most one result for each argument.
pub open spec fn arith_deterministic<A: Fn(Operation, u64, u64) -> u64>(arith: A) -> bool {
    forall|op: Operation, a: u64, b: u64, r1: u64, r2: u64|
        call_ensures(arith, (op, a, b), r1) && call_ensures(arith, (op, a, b), r2) ==> r1 == r2
}

} // verus!
