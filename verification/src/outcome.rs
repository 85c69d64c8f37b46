//! The outcome model: exactly one variant per solve invocation, carrying
//! either a verified solution, the reason the problem is unsatisfiable, or
//! how many search nodes were explored before the termination policy fired.

use vstd::prelude::*;

verus! {

/// An immutable assignment of a single value to each of the two variables,
/// produced only when both domains were reduced to singletons and the
/// constraint was verified satisfied.
#[derive(Clone, Copy, PartialEq, Eq, Structural, Debug)]
pub struct Solution {
    pub x: i32,
    pub y: i32,
}

/// Why a solve concluded that no solution exists.
#[derive(Clone, Copy, PartialEq, Eq, Structural, Debug)]
pub enum UnsatReason {
    /// A bound pair with `lo > hi` was supplied; no search was performed.
    InvalidDomain,
    /// The post of the constraint was rejected: the initial domains already
    /// ruled every pair out.
    PostRejected,
    /// The search exhausted every branch without finding a solution.
    SearchExhausted,
}

/// The three-way result of one solve invocation.
#[derive(Clone, Copy, PartialEq, Eq, Structural, Debug)]
pub enum Outcome {
    /// A solution was found and verified.
    Satisfiable(Solution),
    /// No solution exists, proven.
    Unsatisfiable(UnsatReason),
    /// The termination policy cut the search short after this many nodes.
    Unknown(u64),
}

} // verus!
