//! A small, fully verified constraint-satisfaction core for sum problems:
//! two bounded integer variables `x` and `y` and one linear equality
//! `x + y = target`.  The crate provides the variable store, the constraint
//! registry with bounds-consistency propagation, a depth-first search
//! controller with explicit backtracking and a polled termination policy,
//! and the JSON result reporting used by the public `solve_sum` entry point.

pub mod constraint;
pub mod domain;
pub mod format;
pub mod laws;
pub mod outcome;
pub mod propagate;
pub mod search;
pub mod store;
pub mod termination;

use vstd::prelude::*;

use crate::constraint::{
    lemma_empty_tightening_unsolvable, lemma_solvable_via_domains, lemma_tighten_preserves,
    pair_solution, pair_solvable, sum_solvable, ConstraintRegistry, PostError, SumConstraint,
};
use crate::domain::Domain;
use crate::format::{no_solution_json, render_outcome, solution_json};
use crate::outcome::{Outcome, UnsatReason};
use crate::search::{lemma_min_solution_value, search};
use crate::store::VariableStore;
use crate::termination::TerminationPolicy;

verus! {

/// The bound pairs describe non-empty ranges for both variables.
pub open spec fn bounds_valid(min_x: int, max_x: int, min_y: int, max_y: int) -> bool {
    min_x <= max_x && min_y <= max_y
}

/// The `x` value of the lexicographically least solution, when one exists.
pub open spec fn min_sum_x(min_x: int, max_y: int, target: int) -> int {
    vstd::math::max(min_x, target - max_y)
}

/// Everything `solve` promises about its outcome.
pub open spec fn solve_post(
    min_x: int,
    max_x: int,
    min_y: int,
    max_y: int,
    target: int,
    policy: TerminationPolicy,
    r: Outcome,
) -> bool {
    &&& (policy == TerminationPolicy::Indefinite ==> !(r is Unknown))
    &&& if !bounds_valid(min_x, max_x, min_y, max_y) {
        r == Outcome::Unsatisfiable(UnsatReason::InvalidDomain)
    } else if !sum_solvable(min_x, max_x, min_y, max_y, target) {
        r == Outcome::Unsatisfiable(UnsatReason::PostRejected)
    } else {
        match r {
            Outcome::Satisfiable(sol) => sol.x as int == min_sum_x(min_x, max_y, target)
                && sol.y as int == target - min_sum_x(min_x, max_y, target),
            Outcome::Unsatisfiable(_) => false,
            Outcome::Unknown(n) => policy == TerminationPolicy::NodeBudget(n),
        }
    }
}

/// Solves `x + y = target` with `x` in `[min_x, max_x]` and `y` in
/// `[min_y, max_y]` under the given termination policy: registers the two
/// variables, posts the constraint, and runs the depth-first search.
///
/// A malformed bound pair is rejected immediately, with no search
/// performed.  A post the initial domains already rule out is reported as
/// unsatisfiable.  Otherwise a solution exists, and under the indefinite
/// policy the solver returns the lexicographically least one; a node
/// budget may instead stop the search, which is reported as `Unknown`.
pub fn solve(
    min_x: i32,
    max_x: i32,
    min_y: i32,
    max_y: i32,
    target: i32,
    policy: TerminationPolicy,
) -> (r: Outcome)
    ensures
        solve_post(
            min_x as int,
            max_x as int,
            min_y as int,
            max_y as int,
            target as int,
            policy,
            r,
        ),
{
    let ghost tt = target as int;
    let mut store = VariableStore::new();
    let x = match store.register(min_x, max_x) {
        Ok(id) => id,
        Err(_) => {
            return Outcome::Unsatisfiable(UnsatReason::InvalidDomain);
        },
    };
    let y = match store.register(min_y, max_y) {
        Ok(id) => id,
        Err(_) => {
            return Outcome::Unsatisfiable(UnsatReason::InvalidDomain);
        },
    };
    let ghost dxv = Domain { lo: min_x, hi: max_x };
    let ghost dyv = Domain { lo: min_y, hi: max_y };
    proof {
        assert(store@[0] == dxv);
        assert(store@[1] == dyv);
    }
    let mut registry = ConstraintRegistry::new();
    let tag = registry.new_constraint_tag();
    let c = SumConstraint { x, y, target, tag };
    match registry.post(&mut store, c) {
        Err(PostError::UnknownVariable) => {
            proof {
                assert(false);
            }
            Outcome::Unsatisfiable(UnsatReason::PostRejected)
        },
        Err(PostError::ImmediatelyUnsatisfiable) => {
            proof {
                lemma_empty_tightening_unsolvable(dxv, dyv, tt);
                lemma_solvable_via_domains(dxv, dyv, tt);
            }
            Outcome::Unsatisfiable(UnsatReason::PostRejected)
        },
        Ok(()) => {
            let (tlx, thx) = store.current_domain(x);
            let (tly, thy) = store.current_domain(y);
            let tdx = Domain::new(tlx, thx);
            let tdy = Domain::new(tly, thy);
            proof {
                assert(tdx == store@[0]);
                assert(tdy == store@[1]);
                lemma_tighten_preserves(dxv, dyv, tdx, tdy, tt);
                lemma_empty_tightening_unsolvable(dxv, dyv, tt);
                lemma_solvable_via_domains(dxv, dyv, tt);
                assert(pair_solvable(dxv, dyv, tt));
            }
            let out = search(tdx, tdy, target, policy);
            proof {
                assert(pair_solvable(tdx, tdy, tt)) by {
                    let (p, q) = choose|p: int, q: int| pair_solution(dxv, dyv, tt, p, q);
                    assert(pair_solution(tdx, tdy, tt, p, q));
                }
                match out {
                    Outcome::Satisfiable(sol) => {
                        assert(pair_solution(dxv, dyv, tt, sol.x as int, sol.y as int));
                        assert forall|p: int, q: int| pair_solution(dxv, dyv, tt, p, q) implies
                            crate::search::lex_le(sol.x as int, sol.y as int, p, q) by {
                            assert(pair_solution(tdx, tdy, tt, p, q));
                        }
                        lemma_min_solution_value(dxv, dyv, tt, sol.x as int, sol.y as int);
                    },
                    Outcome::Unsatisfiable(_) => {
                        assert(false);
                    },
                    Outcome::Unknown(_) => {},
                }
            }
            out
        },
    }
}

/// Solve the constraint `x + y = target` where `x` is in `[min_x, max_x]`
/// and `y` is in `[min_y, max_y]`, and return the result as a JSON string:
/// `{"x": <int>, "y": <int>}` on success, or a document with an `error`
/// field when no solution exists.  The search runs under the indefinite
/// termination policy, so it always decides.
pub fn solve_sum(min_x: i32, max_x: i32, min_y: i32, max_y: i32, target: i32) -> (r: String)
    ensures
        !bounds_valid(min_x as int, max_x as int, min_y as int, max_y as int) ==> r@
            == no_solution_json(),
        bounds_valid(min_x as int, max_x as int, min_y as int, max_y as int) && !sum_solvable(
            min_x as int,
            max_x as int,
            min_y as int,
            max_y as int,
            target as int,
        ) ==> r@ == no_solution_json(),
        bounds_valid(min_x as int, max_x as int, min_y as int, max_y as int) && sum_solvable(
            min_x as int,
            max_x as int,
            min_y as int,
            max_y as int,
            target as int,
        ) ==> r@ == solution_json(
            min_sum_x(min_x as int, max_y as int, target as int),
            target - min_sum_x(min_x as int, max_y as int, target as int),
        ),
{
    let o = solve(min_x, max_x, min_y, max_y, target, TerminationPolicy::Indefinite);
    render_outcome(&o)
}

} // verus!
