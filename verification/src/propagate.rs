//! The propagation engine: a fixpoint loop that repeatedly re-examines the
//! sum constraint and tightens both domains until no bound changes in a
//! full pass, or a domain empties (which fails the current search branch).
//! Bounds consistency is cheap for a linear equality and decides the pair
//! problem without search in the common case.

use vstd::prelude::*;

use crate::constraint::{pair_solution, pair_solvable, lemma_empty_tightening_unsolvable};
use crate::domain::Domain;
use crate::store::TightenError;

verus! {

/// No pass of bounds-consistency propagation can tighten either domain any
/// further.
pub open spec fn at_fixpoint(dx: Domain, dy: Domain, t: int) -> bool {
    &&& dx.lo >= t - dy.hi
    &&& dx.hi <= t - dy.lo
    &&& dy.lo >= t - dx.hi
    &&& dy.hi <= t - dx.lo
}

/// Runs the fixpoint loop for `x + y = target` on the two domains.
/// On success the domains are non-empty, bounds-consistent, narrowed in
/// place, and hold exactly the solutions they held before.  An `EmptyDomain`
/// failure means the incoming pair had no solution at all.
pub fn propagate(dx: &mut Domain, dy: &mut Domain, target: i32) -> (r: Result<(), TightenError>)
    requires
        old(dx).is_nonempty(),
        old(dy).is_nonempty(),
    ensures
        r is Ok ==> {
            &&& final(dx).is_nonempty()
            &&& final(dy).is_nonempty()
            &&& final(dx).within(*old(dx))
            &&& final(dy).within(*old(dy))
            &&& at_fixpoint(*final(dx), *final(dy), target as int)
            &&& forall|x: int, y: int|
                pair_solution(*old(dx), *old(dy), target as int, x, y) <==> pair_solution(
                    *final(dx),
                    *final(dy),
                    target as int,
                    x,
                    y,
                )
        },
        r is Err ==> !pair_solvable(*old(dx), *old(dy), target as int),
{
    let ghost dx0 = *dx;
    let ghost dy0 = *dy;
    let ghost tt = target as int;
    let t: i64 = target as i64;
    let mut changed = true;
    while changed
        invariant
            dx.is_nonempty(),
            dy.is_nonempty(),
            dx.within(dx0),
            dy.within(dy0),
            forall|x: int, y: int|
                pair_solution(dx0, dy0, tt, x, y) <==> pair_solution(*dx, *dy, tt, x, y),
            !changed ==> at_fixpoint(*dx, *dy, tt),
            t == tt,
            i32::MIN <= t <= i32::MAX,
            dx0 == *old(dx),
            dy0 == *old(dy),
            tt == target as int,
        decreases dx.size() + dy.size() + (if changed { 1int } else { 0int }),
    {
        let lox = dx.lo;
        let hix = dx.hi;
        let loy = dy.lo;
        let hiy = dy.hi;

        let cand_lo_x: i64 = t - (hiy as i64);
        let nlx64: i64 = if (lox as i64) >= cand_lo_x { lox as i64 } else { cand_lo_x };
        let cand_hi_x: i64 = t - (loy as i64);
        let nhx64: i64 = if (hix as i64) <= cand_hi_x { hix as i64 } else { cand_hi_x };
        if nlx64 > nhx64 {
            proof {
                if pair_solvable(dx0, dy0, tt) {
                    let (x, y) = choose|x: int, y: int| pair_solution(dx0, dy0, tt, x, y);
                    assert(pair_solution(*dx, *dy, tt, x, y));
                    lemma_empty_tightening_unsolvable(*dx, *dy, tt);
                }
            }
            return Err(TightenError::EmptyDomain);
        }
        let nlx: i32 = nlx64 as i32;
        let nhx: i32 = nhx64 as i32;
        *dx = Domain { lo: nlx, hi: nhx };

        let cand_lo_y: i64 = t - (nhx as i64);
        let nly64: i64 = if (loy as i64) >= cand_lo_y { loy as i64 } else { cand_lo_y };
        let cand_hi_y: i64 = t - (nlx as i64);
        let nhy64: i64 = if (hiy as i64) <= cand_hi_y { hiy as i64 } else { cand_hi_y };
        proof {
            assert(nly64 <= nhy64);
        }
        let nly: i32 = nly64 as i32;
        let nhy: i32 = nhy64 as i32;
        *dy = Domain { lo: nly, hi: nhy };

        changed = nlx != lox || nhx != hix || nly != loy || nhy != hiy;
    }
    Ok(())
}

} // verus!
