//! The laws the solver obeys, stated once over its contract and proved for
//! every input: completeness, refutation soundness, determinism, and the
//! singleton boundary case.

use vstd::prelude::*;

use crate::constraint::{sum_solution, sum_solvable};
use crate::outcome::Outcome;
use crate::outcome::UnsatReason;
use crate::termination::TerminationPolicy;
use crate::{bounds_valid, min_sum_x, solve_post};

verus! {

/// For a solvable problem the closed-form least pair really lies within
/// both bound pairs and sums to the target.
proof fn lemma_closed_form_in_range(min_x: int, max_x: int, min_y: int, max_y: int, t: int)
    requires
        bounds_valid(min_x, max_x, min_y, max_y),
        sum_solvable(min_x, max_x, min_y, max_y, t),
    ensures
        sum_solution(
            min_x,
            max_x,
            min_y,
            max_y,
            t,
            min_sum_x(min_x, max_y, t),
            t - min_sum_x(min_x, max_y, t),
        ),
{
    let (p, q) = choose|p: int, q: int| sum_solution(min_x, max_x, min_y, max_y, t, p, q);
    assert(p >= min_sum_x(min_x, max_y, t));
}

/// For all `lo <= hi` bound pairs and any target: whenever some pair
/// `(x, y)` with `lo_x <= x <= hi_x`, `lo_y <= y <= hi_y` sums to the
/// target, the solver under the indefinite policy returns `Satisfiable`
/// with such a pair.
pub proof fn lemma_solvable_satisfiable(
    min_x: int,
    max_x: int,
    min_y: int,
    max_y: int,
    t: int,
    r: Outcome,
)
    requires
        bounds_valid(min_x, max_x, min_y, max_y),
        sum_solvable(min_x, max_x, min_y, max_y, t),
        solve_post(min_x, max_x, min_y, max_y, t, TerminationPolicy::Indefinite, r),
    ensures
        r matches Outcome::Satisfiable(sol) && sum_solution(
            min_x,
            max_x,
            min_y,
            max_y,
            t,
            sol.x as int,
            sol.y as int,
        ),
{
    lemma_closed_form_in_range(min_x, max_x, min_y, max_y, t);
}

/// When no pair within the bound pairs sums to the target, the solver
/// under the indefinite policy returns `Unsatisfiable` — never `Unknown`.
pub proof fn lemma_unsolvable_unsatisfiable(
    min_x: int,
    max_x: int,
    min_y: int,
    max_y: int,
    t: int,
    r: Outcome,
)
    requires
        bounds_valid(min_x, max_x, min_y, max_y),
        !sum_solvable(min_x, max_x, min_y, max_y, t),
        solve_post(min_x, max_x, min_y, max_y, t, TerminationPolicy::Indefinite, r),
    ensures
        r is Unsatisfiable,
        !(r is Unknown),
{
}

/// Solving the same bound pairs and target twice yields the same outcome,
/// solution values included: under the indefinite policy the solver's
/// contract pins the outcome as a function of its inputs alone.
pub proof fn lemma_solve_deterministic(
    min_x: int,
    max_x: int,
    min_y: int,
    max_y: int,
    t: int,
    r1: Outcome,
    r2: Outcome,
)
    requires
        solve_post(min_x, max_x, min_y, max_y, t, TerminationPolicy::Indefinite, r1),
        solve_post(min_x, max_x, min_y, max_y, t, TerminationPolicy::Indefinite, r2),
    ensures
        r1 == r2,
{
}

/// When both bound pairs are singletons the solver checks the single
/// combination: it returns `Satisfiable` with exactly that pair when it
/// sums to the target, and rejects the post otherwise.
pub proof fn lemma_singleton_boundary(vx: int, vy: int, t: int, r: Outcome)
    requires
        solve_post(vx, vx, vy, vy, t, TerminationPolicy::Indefinite, r),
    ensures
        (r is Satisfiable) <==> vx + vy == t,
        vx + vy == t ==> (r matches Outcome::Satisfiable(sol) && sol.x as int == vx && sol.y as int
            == vy),
        vx + vy != t ==> r == Outcome::Unsatisfiable(UnsatReason::PostRejected),
{
    if vx + vy == t {
        assert(sum_solution(vx, vx, vy, vy, t, vx, vy));
    } else {
        if sum_solvable(vx, vx, vy, vy, t) {
            let (p, q) = choose|p: int, q: int| sum_solution(vx, vx, vy, vy, t, p, q);
            assert(false);
        }
    }
}

} // verus!
