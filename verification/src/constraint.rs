//! The constraint registry: holds posted sum constraints in canonical form
//! and tightens the affected domains to bounds consistency as soon as a
//! constraint is posted, reporting failure upward when the tightest ranges
//! are already empty.

use vstd::prelude::*;
use vstd::math::max;
use vstd::math::min;

use crate::domain::Domain;
use crate::store::{VariableId, VariableStore};

verus! {

/// The relation `x + y = target` over two registered variables, plus a
/// tag for diagnostics.  Immutable once posted.
#[derive(Clone, Copy, PartialEq, Eq, Structural, Debug)]
pub struct SumConstraint {
    pub x: VariableId,
    pub y: VariableId,
    pub target: i32,
    pub tag: u64,
}

/// Failure of `post`.
#[derive(Clone, Copy, PartialEq, Eq, Structural, Debug)]
pub enum PostError {
    /// The constraint references a variable the store has not registered.
    UnknownVariable,
    /// The initial domains already make the constraint unsatisfiable.
    ImmediatelyUnsatisfiable,
}

/// `(x, y)` lies in both domains and sums to `target`.
pub open spec fn pair_solution(dx: Domain, dy: Domain, target: int, x: int, y: int) -> bool {
    dx.contains(x) && dy.contains(y) && x + y == target
}

/// Some pair in the two domains sums to `target`.
pub open spec fn pair_solvable(dx: Domain, dy: Domain, target: int) -> bool {
    exists|x: int, y: int| pair_solution(dx, dy, target, x, y)
}

/// `(x, y)` lies within the given bound pairs and sums to `target`.
pub open spec fn sum_solution(
    min_x: int,
    max_x: int,
    min_y: int,
    max_y: int,
    target: int,
    x: int,
    y: int,
) -> bool {
    min_x <= x <= max_x && min_y <= y <= max_y && x + y == target
}

/// Some pair within the bound pairs sums to `target`.
pub open spec fn sum_solvable(min_x: int, max_x: int, min_y: int, max_y: int, target: int) -> bool {
    exists|x: int, y: int| sum_solution(min_x, max_x, min_y, max_y, target, x, y)
}

/// Solvability of a pair of domains is solvability of their bound pairs.
pub proof fn lemma_solvable_via_domains(dx: Domain, dy: Domain, t: int)
    ensures
        pair_solvable(dx, dy, t) <==> sum_solvable(
            dx.lo as int,
            dx.hi as int,
            dy.lo as int,
            dy.hi as int,
            t,
        ),
{
    if pair_solvable(dx, dy, t) {
        let (x, y) = choose|x: int, y: int| pair_solution(dx, dy, t, x, y);
        assert(sum_solution(dx.lo as int, dx.hi as int, dy.lo as int, dy.hi as int, t, x, y));
    }
    if sum_solvable(dx.lo as int, dx.hi as int, dy.lo as int, dy.hi as int, t) {
        let (x, y) = choose|x: int, y: int|
            sum_solution(dx.lo as int, dx.hi as int, dy.lo as int, dy.hi as int, t, x, y);
        assert(pair_solution(dx, dy, t, x, y));
    }
}

/// The tightest lower bound for `x` consistent with `x + y = target`.
pub open spec fn tight_lo(lo: int, target: int, other_hi: int) -> int {
    max(lo, target - other_hi)
}

/// The tightest upper bound for `x` consistent with `x + y = target`.
pub open spec fn tight_hi(hi: int, target: int, other_lo: int) -> int {
    min(hi, target - other_lo)
}

/// Tightening both domains to the tightest ranges consistent with the
/// target (first `x`, then `y` against the new `x` range) keeps the set of
/// solutions exactly as it was.
pub proof fn lemma_tighten_preserves(dx: Domain, dy: Domain, dx2: Domain, dy2: Domain, t: int)
    requires
        dx2.lo == tight_lo(dx.lo as int, t, dy.hi as int),
        dx2.hi == tight_hi(dx.hi as int, t, dy.lo as int),
        dy2.lo == tight_lo(dy.lo as int, t, dx2.hi as int),
        dy2.hi == tight_hi(dy.hi as int, t, dx2.lo as int),
    ensures
        forall|x: int, y: int| pair_solution(dx, dy, t, x, y) <==> pair_solution(dx2, dy2, t, x, y),
{
}

/// For non-empty domains, the tightened `x` range is empty exactly when no
/// solution exists.
pub proof fn lemma_empty_tightening_unsolvable(dx: Domain, dy: Domain, t: int)
    requires
        dx.is_nonempty(),
        dy.is_nonempty(),
    ensures
        (tight_lo(dx.lo as int, t, dy.hi as int) > tight_hi(dx.hi as int, t, dy.lo as int))
            <==> !pair_solvable(dx, dy, t),
{
    let nlx = tight_lo(dx.lo as int, t, dy.hi as int);
    let nhx = tight_hi(dx.hi as int, t, dy.lo as int);
    if nlx <= nhx {
        assert(pair_solution(dx, dy, t, nlx, t - nlx));
    }
}

/// Holds the posted constraints for the duration of a solve and hands out
/// tags for diagnostics.
pub struct ConstraintRegistry {
    constraints: Vec<SumConstraint>,
    next_tag: u64,
}

impl View for ConstraintRegistry {
    type V = Seq<SumConstraint>;

    closed spec fn view(&self) -> Seq<SumConstraint> {
        self.constraints@
    }
}

impl ConstraintRegistry {
    /// The tag the next call of `new_constraint_tag` hands out.
    pub closed spec fn fresh_tag(self) -> int {
        self.next_tag as int
    }

    pub fn new() -> (r: ConstraintRegistry)
        ensures
            r@ =~= Seq::<SumConstraint>::empty(),
            r.fresh_tag() == 0,
    {
        ConstraintRegistry { constraints: Vec::new(), next_tag: 0 }
    }

    /// Hands out a tag for diagnostics; the posted constraints are untouched.
    pub fn new_constraint_tag(&mut self) -> (r: u64)
        ensures
            r as int == old(self).fresh_tag(),
            final(self)@ =~= old(self)@,
    {
        let tag = self.next_tag;
        if self.next_tag < u64::MAX {
            self.next_tag = self.next_tag + 1;
        }
        tag
    }

    /// Posts `x + y = target`.  Rejects identifiers the store does not know
    /// with `UnknownVariable`.  Otherwise both domains are immediately
    /// tightened to the tightest ranges consistent with the target; when
    /// that range is already empty the post is rejected with
    /// `ImmediatelyUnsatisfiable` and the store is left unchanged.
    pub fn post(&mut self, store: &mut VariableStore, c: SumConstraint) -> (r: Result<
        (),
        PostError,
    >)
        requires
            old(store).wf(),
            c.x.index != c.y.index,
        ensures
            final(store).wf(),
            !(old(store).knows(c.x) && old(store).knows(c.y)) ==> r == Result::<(),
                PostError,
            >::Err(PostError::UnknownVariable) && *final(store) == *old(store) && *final(self)
                == *old(self),
            old(store).knows(c.x) && old(store).knows(c.y) ==> {
                let dx = old(store)@[c.x.index as int];
                let dy = old(store)@[c.y.index as int];
                let t = c.target as int;
                let nlx = tight_lo(dx.lo as int, t, dy.hi as int);
                let nhx = tight_hi(dx.hi as int, t, dy.lo as int);
                let nly = tight_lo(dy.lo as int, t, nhx);
                let nhy = tight_hi(dy.hi as int, t, nlx);
                &&& (nlx > nhx ==> r == Result::<(), PostError>::Err(
                    PostError::ImmediatelyUnsatisfiable,
                ) && *final(store) == *old(store) && *final(self) == *old(self))
                &&& (nlx <= nhx ==> {
                    &&& r == Result::<(), PostError>::Ok(())
                    &&& final(self)@ =~= old(self)@.push(c)
                    &&& final(self).fresh_tag() == old(self).fresh_tag()
                    &&& final(store)@.len() == old(store)@.len()
                    &&& final(store)@[c.x.index as int].lo == nlx
                    &&& final(store)@[c.x.index as int].hi == nhx
                    &&& final(store)@[c.y.index as int].lo == nly
                    &&& final(store)@[c.y.index as int].hi == nhy
                    &&& forall|k: int|
                        0 <= k < old(store)@.len() && k != c.x.index && k != c.y.index
                            ==> #[trigger] final(store)@[k] == old(store)@[k]
                })
            },
    {
        let n = store.len();
        if c.x.index >= n || c.y.index >= n {
            return Err(PostError::UnknownVariable);
        }
        let (lox, hix) = store.current_domain(c.x);
        let (loy, hiy) = store.current_domain(c.y);
        let t: i64 = c.target as i64;

        let cand_lo_x: i64 = t - (hiy as i64);
        let nlx64: i64 = if (lox as i64) >= cand_lo_x { lox as i64 } else { cand_lo_x };
        let cand_hi_x: i64 = t - (loy as i64);
        let nhx64: i64 = if (hix as i64) <= cand_hi_x { hix as i64 } else { cand_hi_x };
        if nlx64 > nhx64 {
            return Err(PostError::ImmediatelyUnsatisfiable);
        }
        let nlx: i32 = nlx64 as i32;
        let nhx: i32 = nhx64 as i32;
        match store.tighten(c.x, nlx, nhx) {
            Ok(()) => (),
            Err(_) => { proof { assert(false); } },
        }

        let cand_lo_y: i64 = t - (nhx as i64);
        let nly64: i64 = if (loy as i64) >= cand_lo_y { loy as i64 } else { cand_lo_y };
        let cand_hi_y: i64 = t - (nlx as i64);
        let nhy64: i64 = if (hiy as i64) <= cand_hi_y { hiy as i64 } else { cand_hi_y };
        proof {
            assert(nly64 <= nhy64);
        }
        let nly: i32 = nly64 as i32;
        let nhy: i32 = nhy64 as i32;
        match store.tighten(c.y, nly, nhy) {
            Ok(()) => (),
            Err(_) => { proof { assert(false); } },
        }

        self.constraints.push(c);
        Ok(())
    }
}

} // verus!
