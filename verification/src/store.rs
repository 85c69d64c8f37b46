//! The variable store: owns the bounded integer domains and hands out
//! stable identifiers.  Registration rejects a malformed bound pair, and
//! tightening reports an emptied domain, so every domain in a store is
//! non-empty at all times.

use vstd::prelude::*;

use crate::domain::Domain;

verus! {

/// Opaque handle for a registered variable.
#[derive(Clone, Copy, PartialEq, Eq, Structural, Debug)]
pub struct VariableId {
    pub index: usize,
}

/// Failure of `register`: the supplied bound pair has `lo > hi`.
#[derive(Clone, Copy, PartialEq, Eq, Structural, Debug)]
pub enum RegisterError {
    InvalidDomain,
}

/// Failure of `tighten`: the requested range is empty, which signals local
/// unsatisfiability to the caller.
#[derive(Clone, Copy, PartialEq, Eq, Structural, Debug)]
pub enum TightenError {
    EmptyDomain,
}

/// Owns one domain per registered variable; identifiers are indices into
/// the registration order and stay stable for the whole solve.
pub struct VariableStore {
    doms: Vec<Domain>,
}

impl View for VariableStore {
    type V = Seq<Domain>;

    closed spec fn view(&self) -> Seq<Domain> {
        self.doms@
    }
}

impl VariableStore {
    /// All domains held by the store are non-empty.
    pub open spec fn wf(self) -> bool {
        forall|i: int| 0 <= i < self@.len() ==> (#[trigger] self@[i]).is_nonempty()
    }

    /// `id` names a variable this store has registered.
    pub open spec fn knows(self, id: VariableId) -> bool {
        id.index < self@.len()
    }

    pub fn new() -> (s: VariableStore)
        ensures
            s@ =~= Seq::<Domain>::empty(),
            s.wf(),
    {
        VariableStore { doms: Vec::new() }
    }

    /// Registers a fresh variable with the initial range `[lo, hi]`;
    /// fails with `InvalidDomain` when `lo > hi`.
    pub fn register(&mut self, lo: i32, hi: i32) -> (r: Result<VariableId, RegisterError>)
        ensures
            lo > hi ==> r == Result::<VariableId, RegisterError>::Err(RegisterError::InvalidDomain)
                && *final(self) == *old(self),
            lo <= hi ==> r == Result::<VariableId, RegisterError>::Ok(VariableId {
                index: old(self)@.len() as usize,
            }) && final(self)@ =~= old(self)@.push(Domain { lo, hi }),
            old(self).wf() && lo <= hi ==> final(self).wf(),
    {
        if lo > hi {
            Err(RegisterError::InvalidDomain)
        } else {
            let id = VariableId { index: self.doms.len() };
            self.doms.push(Domain { lo, hi });
            Ok(id)
        }
    }

    /// Number of registered variables.
    pub fn len(&self) -> (r: usize)
        ensures
            r == self@.len(),
    {
        self.doms.len()
    }

    /// Current inclusive bounds of a registered variable.
    pub fn current_domain(&self, id: VariableId) -> (r: (i32, i32))
        requires
            self.knows(id),
        ensures
            r.0 == self@[id.index as int].lo,
            r.1 == self@[id.index as int].hi,
    {
        let d = self.doms[id.index];
        (d.lo, d.hi)
    }

    /// Replaces the domain of `id` with `[new_lo, new_hi]`; fails with
    /// `EmptyDomain` when `new_lo > new_hi`, leaving the store unchanged.
    pub fn tighten(&mut self, id: VariableId, new_lo: i32, new_hi: i32) -> (r: Result<
        (),
        TightenError,
    >)
        requires
            old(self).knows(id),
        ensures
            new_lo > new_hi ==> r == Result::<(), TightenError>::Err(TightenError::EmptyDomain)
                && *final(self) == *old(self),
            new_lo <= new_hi ==> r == Result::<(), TightenError>::Ok(()) && final(self)@ =~= old(
                self,
            )@.update(id.index as int, Domain { lo: new_lo, hi: new_hi }),
            old(self).wf() ==> final(self).wf(),
    {
        if new_lo > new_hi {
            Err(TightenError::EmptyDomain)
        } else {
            self.doms.set(id.index, Domain { lo: new_lo, hi: new_hi });
            Ok(())
        }
    }
}

} // verus!
