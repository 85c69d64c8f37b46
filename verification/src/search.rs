//! The search controller: a deterministic depth-first search with explicit
//! backtracking over search nodes.  Each node is a pair of domains; entering
//! a node runs propagation; an emptied domain backtracks; two singleton
//! domains finish; otherwise the first variable with more than one value is
//! split at its midpoint and the lower half is explored first, so the search
//! always finds the lexicographically least solution.  The termination
//! policy is polled at the start of every branch and backtrack transition.

use vstd::prelude::*;

use crate::constraint::{pair_solution, pair_solvable};
use crate::domain::Domain;
use crate::outcome::{Outcome, Solution, UnsatReason};
use crate::propagate::{at_fixpoint, propagate};
use crate::termination::TerminationPolicy;

verus! {

/// `(x1, y1)` comes no later than `(x2, y2)` in lexicographic order.
pub open spec fn lex_le(x1: int, y1: int, x2: int, y2: int) -> bool {
    x1 < x2 || (x1 == x2 && y1 <= y2)
}

/// `(x, y)` is the lexicographically least solution of the pair problem.
pub open spec fn is_min_solution(dx: Domain, dy: Domain, t: int, x: int, y: int) -> bool {
    &&& pair_solution(dx, dy, t, x, y)
    &&& forall|p: int, q: int| pair_solution(dx, dy, t, p, q) ==> lex_le(x, y, p, q)
}

/// One state of the depth-first search: the remaining domain of each
/// variable.
#[derive(Clone, Copy, PartialEq, Eq, Structural, Debug)]
pub struct SearchNode {
    pub dx: Domain,
    pub dy: Domain,
}

impl SearchNode {
    /// Both domains are non-empty.
    pub open spec fn wf(self) -> bool {
        self.dx.is_nonempty() && self.dy.is_nonempty()
    }

    /// The node still allows the assignment `(x, y)`.
    pub open spec fn contains(self, x: int, y: int) -> bool {
        self.dx.contains(x) && self.dy.contains(y)
    }

    /// Number of assignments the node still allows.
    pub open spec fn size(self) -> int {
        self.dx.size() * self.dy.size()
    }

    /// Every assignment of `self` is an assignment of `outer`.
    pub open spec fn within(self, outer: SearchNode) -> bool {
        outer.dx.lo <= self.dx.lo && self.dx.hi <= outer.dx.hi && outer.dy.lo <= self.dy.lo
            && self.dy.hi <= outer.dy.hi
    }

    /// Every assignment of `self` is lexicographically no later than every
    /// assignment of `other`.
    pub open spec fn precedes(self, other: SearchNode) -> bool {
        self.dx.hi < other.dx.lo || (self.dx.hi == other.dx.lo && self.dy.hi <= other.dy.lo)
    }
}

/// A well-formed node allows at least one assignment.
pub proof fn lemma_size_at_least_one(n: SearchNode)
    requires
        n.wf(),
    ensures
        n.size() >= 1,
{
    let a = n.dx.size();
    let b = n.dy.size();
    assert(a * b >= 1) by (nonlinear_arith)
        requires
            a >= 1,
            b >= 1,
    ;
}

/// Shrinking a well-formed node cannot increase its size.
pub proof fn lemma_size_monotone(a: SearchNode, b: SearchNode)
    requires
        a.wf(),
        b.wf(),
        a.within(b),
    ensures
        a.size() <= b.size(),
{
    let ax = a.dx.size();
    let ay = a.dy.size();
    let bx = b.dx.size();
    let by = b.dy.size();
    assert(ax * ay <= bx * by) by (nonlinear_arith)
        requires
            1 <= ax <= bx,
            1 <= ay <= by,
    ;
}

/// `precedes` really orders all the assignments of the two nodes.
pub proof fn lemma_precedes_orders(a: SearchNode, b: SearchNode, x1: int, y1: int, x2: int, y2: int)
    requires
        a.precedes(b),
        a.contains(x1, y1),
        b.contains(x2, y2),
    ensures
        lex_le(x1, y1, x2, y2),
{
}

/// A node shrunk in place keeps preceding whatever its original preceded.
pub proof fn lemma_within_precedes(inner: SearchNode, a: SearchNode, b: SearchNode)
    requires
        inner.within(a),
        a.precedes(b),
    ensures
        inner.precedes(b),
{
}

/// The lexicographically least solution of a solvable pair problem has the
/// closed form `x = max(lo_x, target - hi_y)`, `y = target - x`.
pub proof fn lemma_min_solution_value(dx: Domain, dy: Domain, t: int, x: int, y: int)
    requires
        dx.is_nonempty(),
        dy.is_nonempty(),
        is_min_solution(dx, dy, t, x, y),
    ensures
        x == vstd::math::max(dx.lo as int, t - dy.hi),
        y == t - x,
{
    let xs = vstd::math::max(dx.lo as int, t - dy.hi);
    let ys = t - xs;
    assert(pair_solution(dx, dy, t, xs, ys));
    assert(lex_le(x, y, xs, ys));
}

/// Combined size of a stack of alternative search nodes.
pub open spec fn total_size(s: Seq<SearchNode>) -> int
    decreases s.len(),
{
    if s.len() == 0 {
        0
    } else {
        total_size(s.drop_last()) + s.last().size()
    }
}

/// A stack of well-formed nodes has combined size at least its length.
pub proof fn lemma_total_size_ge_len(s: Seq<SearchNode>)
    requires
        forall|i: int| 0 <= i < s.len() ==> (#[trigger] s[i]).wf(),
    ensures
        total_size(s) >= s.len(),
    decreases s.len(),
{
    if s.len() > 0 {
        lemma_total_size_ge_len(s.drop_last());
        lemma_size_at_least_one(s.last());
    }
}

/// Splits a node that is not yet decided: the first variable with more
/// than one value is bisected at its midpoint.  The two halves partition
/// the node's assignments, the lower half precedes the upper half, and
/// their sizes add up to the node's size.
fn split(n: SearchNode) -> (r: (SearchNode, SearchNode))
    requires
        n.wf(),
        !(n.dx.is_singleton() && n.dy.is_singleton()),
    ensures
        r.0.wf(),
        r.1.wf(),
        r.0.within(n),
        r.1.within(n),
        forall|x: int, y: int|
            #[trigger] n.contains(x, y) <==> r.0.contains(x, y) || r.1.contains(x, y),
        r.0.precedes(r.1),
        r.0.size() + r.1.size() == n.size(),
{
    if n.dx.lo < n.dx.hi {
        let w: i64 = (n.dx.hi as i64) - (n.dx.lo as i64);
        let mid64: i64 = (n.dx.lo as i64) + w / 2;
        let mid: i32 = mid64 as i32;
        let lower = SearchNode { dx: Domain { lo: n.dx.lo, hi: mid }, dy: n.dy };
        let upper = SearchNode { dx: Domain { lo: mid + 1, hi: n.dx.hi }, dy: n.dy };
        proof {
            let a = lower.dx.size();
            let b = upper.dx.size();
            let c = n.dy.size();
            assert(a * c + b * c == (a + b) * c) by (nonlinear_arith);
            assert(a + b == n.dx.size());
        }
        (lower, upper)
    } else {
        let w: i64 = (n.dy.hi as i64) - (n.dy.lo as i64);
        let mid64: i64 = (n.dy.lo as i64) + w / 2;
        let mid: i32 = mid64 as i32;
        let lower = SearchNode { dx: n.dx, dy: Domain { lo: n.dy.lo, hi: mid } };
        let upper = SearchNode { dx: n.dx, dy: Domain { lo: mid + 1, hi: n.dy.hi } };
        proof {
            let a = lower.dy.size();
            let b = upper.dy.size();
            let c = n.dx.size();
            assert(c * a + c * b == c * (a + b)) by (nonlinear_arith);
            assert(a + b == n.dy.size());
        }
        (lower, upper)
    }
}

/// Everything the search promises about its outcome.
pub open spec fn search_post(
    dx: Domain,
    dy: Domain,
    t: int,
    policy: TerminationPolicy,
    r: Outcome,
) -> bool {
    &&& match r {
        Outcome::Satisfiable(sol) => is_min_solution(dx, dy, t, sol.x as int, sol.y as int),
        Outcome::Unsatisfiable(reason) => !pair_solvable(dx, dy, t) && reason
            == UnsatReason::SearchExhausted,
        Outcome::Unknown(nodes) => policy == TerminationPolicy::NodeBudget(nodes),
    }
    &&& (policy == TerminationPolicy::Indefinite ==> !(r is Unknown))
}

/// Explores the remaining search space of `x + y = target` over the two
/// domains.  Under the indefinite policy the search always decides: it
/// returns the lexicographically least solution, or proves that none
/// exists.  Under a node budget it may instead report `Unknown` carrying
/// the number of nodes explored, which then equals the budget.
pub fn search(dx: Domain, dy: Domain, target: i32, policy: TerminationPolicy) -> (r: Outcome)
    requires
        dx.is_nonempty(),
        dy.is_nonempty(),
    ensures
        search_post(dx, dy, target as int, policy, r),
{
    let ghost tt = target as int;
    let mut cdx = dx;
    let mut cdy = dy;
    if propagate(&mut cdx, &mut cdy, target).is_err() {
        return Outcome::Unsatisfiable(UnsatReason::SearchExhausted);
    }
    let mut cur = SearchNode { dx: cdx, dy: cdy };
    let mut stack: Vec<SearchNode> = Vec::new();
    let mut nodes: u64 = 0;
    loop
        invariant
            tt == target as int,
            cur.wf(),
            at_fixpoint(cur.dx, cur.dy, tt),
            dx.lo <= cur.dx.lo && cur.dx.hi <= dx.hi && dy.lo <= cur.dy.lo && cur.dy.hi <= dy.hi,
            forall|i: int|
                0 <= i < stack@.len() ==> (#[trigger] stack@[i]).wf() && stack@[i].dx.within(dx)
                    && stack@[i].dy.within(dy),
            forall|x: int, y: int|
                #[trigger] pair_solution(dx, dy, tt, x, y) ==> cur.contains(x, y) || exists|i: int|
                    0 <= i < stack@.len() && (#[trigger] stack@[i]).contains(x, y),
            forall|i: int| 0 <= i < stack@.len() ==> cur.precedes(#[trigger] stack@[i]),
            forall|i: int, j: int|
                0 <= i < j < stack@.len() ==> (#[trigger] stack@[j]).precedes(#[trigger] stack@[i]),
            policy matches TerminationPolicy::NodeBudget(b) ==> nodes <= b,
        decreases 2 * (cur.size() + total_size(stack@)) - stack@.len(),
    {
        if cur.dx.lo == cur.dx.hi && cur.dy.lo == cur.dy.hi {
            // Done: propagation at fixpoint over singleton domains means the
            // constraint is verified satisfied.
            let sol = Solution { x: cur.dx.lo, y: cur.dy.lo };
            proof {
                assert(sol.x + sol.y == tt);
                assert(pair_solution(dx, dy, tt, sol.x as int, sol.y as int));
                assert forall|p: int, q: int| pair_solution(dx, dy, tt, p, q) implies lex_le(
                    sol.x as int,
                    sol.y as int,
                    p,
                    q,
                ) by {
                    if cur.contains(p, q) {
                    } else {
                        let i = choose|i: int|
                            0 <= i < stack@.len() && (#[trigger] stack@[i]).contains(p, q);
                        lemma_precedes_orders(cur, stack@[i], sol.x as int, sol.y as int, p, q);
                    }
                }
            }
            return Outcome::Satisfiable(sol);
        }
        // Branch transition: poll the termination policy, consume a node.
        if policy.fires(nodes) {
            return Outcome::Unknown(nodes);
        }
        match policy {
            TerminationPolicy::NodeBudget(_) => {
                nodes = nodes + 1;
            },
            TerminationPolicy::Indefinite => {},
        }
        let ghost m0 = 2 * (cur.size() + total_size(stack@)) - stack@.len();
        let ghost stack_before = stack@;
        let (lower, upper) = split(cur);
        stack.push(upper);
        let ghost branched = cur;
        proof {
            assert(stack@.drop_last() =~= stack_before);
            lemma_size_at_least_one(cur);
            assert forall|x: int, y: int| #[trigger] pair_solution(dx, dy, tt, x, y) implies
                lower.contains(x, y) || exists|i: int|
                0 <= i < stack@.len() && (#[trigger] stack@[i]).contains(x, y) by {
                if branched.contains(x, y) {
                    if !lower.contains(x, y) {
                        assert(upper.contains(x, y));
                        assert((stack@[stack@.len() - 1]).contains(x, y));
                    }
                } else {
                    let i = choose|i: int|
                        0 <= i < stack_before.len() && (#[trigger] stack_before[i]).contains(x, y);
                    assert((stack@[i]).contains(x, y));
                }
            }
        }
        let mut cand = lower;
        loop
            invariant
                tt == target as int,
                cand.wf(),
                dx.lo <= cand.dx.lo && cand.dx.hi <= dx.hi && dy.lo <= cand.dy.lo && cand.dy.hi
                    <= dy.hi,
                forall|i: int|
                    0 <= i < stack@.len() ==> (#[trigger] stack@[i]).wf() && stack@[i].dx.within(
                        dx,
                    ) && stack@[i].dy.within(dy),
                forall|x: int, y: int|
                    #[trigger] pair_solution(dx, dy, tt, x, y) ==> cand.contains(x, y) || exists|
                        i: int,
                    | 0 <= i < stack@.len() && (#[trigger] stack@[i]).contains(x, y),
                forall|i: int| 0 <= i < stack@.len() ==> cand.precedes(#[trigger] stack@[i]),
                forall|i: int, j: int|
                    0 <= i < j < stack@.len() ==> (#[trigger] stack@[j]).precedes(
                        #[trigger] stack@[i],
                    ),
                policy matches TerminationPolicy::NodeBudget(b) ==> nodes <= b,
                2 * (cand.size() + total_size(stack@)) - stack@.len() <= m0 - 1,
            ensures
                cur.wf(),
                at_fixpoint(cur.dx, cur.dy, tt),
                dx.lo <= cur.dx.lo && cur.dx.hi <= dx.hi && dy.lo <= cur.dy.lo && cur.dy.hi
                    <= dy.hi,
                forall|i: int|
                    0 <= i < stack@.len() ==> (#[trigger] stack@[i]).wf() && stack@[i].dx.within(
                        dx,
                    ) && stack@[i].dy.within(dy),
                forall|x: int, y: int|
                    #[trigger] pair_solution(dx, dy, tt, x, y) ==> cur.contains(x, y) || exists|
                        i: int,
                    | 0 <= i < stack@.len() && (#[trigger] stack@[i]).contains(x, y),
                forall|i: int| 0 <= i < stack@.len() ==> cur.precedes(#[trigger] stack@[i]),
                forall|i: int, j: int|
                    0 <= i < j < stack@.len() ==> (#[trigger] stack@[j]).precedes(
                        #[trigger] stack@[i],
                    ),
                policy matches TerminationPolicy::NodeBudget(b) ==> nodes <= b,
                2 * (cur.size() + total_size(stack@)) - stack@.len() <= m0 - 1,
            decreases stack@.len(),
        {
            let ghost entered = cand;
            let mut pdx = cand.dx;
            let mut pdy = cand.dy;
            if propagate(&mut pdx, &mut pdy, target).is_ok() {
                cand = SearchNode { dx: pdx, dy: pdy };
                cur = cand;
                proof {
                    lemma_size_monotone(cur, entered);
                    assert forall|i: int| 0 <= i < stack@.len() implies cur.precedes(
                        #[trigger] stack@[i],
                    ) by {
                        lemma_within_precedes(cur, entered, stack@[i]);
                    }
                    assert forall|x: int, y: int| #[trigger] pair_solution(dx, dy, tt, x, y)
                        implies cand.contains(x, y) || exists|i: int|
                        0 <= i < stack@.len() && (#[trigger] stack@[i]).contains(x, y) by {
                        if entered.contains(x, y) {
                            assert(pair_solution(entered.dx, entered.dy, tt, x, y));
                            assert(pair_solution(cand.dx, cand.dy, tt, x, y));
                        }
                    }
                }
                break;
            }
            // The entered node is a dead branch.  Backtrack transition:
            // poll the termination policy, consume a node, pop the next
            // alternative.
            if policy.fires(nodes) {
                return Outcome::Unknown(nodes);
            }
            match policy {
                TerminationPolicy::NodeBudget(_) => {
                    nodes = nodes + 1;
                },
                TerminationPolicy::Indefinite => {},
            }
            let ghost popped_from = stack@;
            match stack.pop() {
                Some(top) => {
                    proof {
                        assert(stack@ =~= popped_from.drop_last());
                        lemma_size_at_least_one(entered);
                        assert forall|x: int, y: int| #[trigger] pair_solution(dx, dy, tt, x, y)
                            implies top.contains(x, y) || exists|i: int|
                            0 <= i < stack@.len() && (#[trigger] stack@[i]).contains(x, y) by {
                            if entered.contains(x, y) {
                                assert(pair_solution(entered.dx, entered.dy, tt, x, y));
                            } else {
                                let i = choose|i: int|
                                    0 <= i < popped_from.len() && (
                                    #[trigger] popped_from[i]).contains(x, y);
                                if i < popped_from.len() - 1 {
                                    assert(stack@[i].contains(x, y));
                                }
                            }
                        }
                    }
                    cand = top;
                },
                None => {
                    proof {
                        if pair_solvable(dx, dy, tt) {
                            let (x, y) = choose|x: int, y: int| pair_solution(dx, dy, tt, x, y);
                            assert(pair_solution(entered.dx, entered.dy, tt, x, y));
                        }
                    }
                    return Outcome::Unsatisfiable(UnsatReason::SearchExhausted);
                },
            }
        }
        proof {
            lemma_total_size_ge_len(stack@);
            lemma_size_at_least_one(cur);
        }
    }
}

} // verus!
