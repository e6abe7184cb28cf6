//! The concurrency budget: a counting resource that bounds how many targets
//! are probed at once.

use vstd::prelude::*;

verus! {

/// The mathematical content of a `ConcurrencyBudget`.
pub struct BudgetView {
    /// The most units that may be held at once.
    pub capacity: nat,
    /// The units that are held now.
    pub held: nat,
}

impl BudgetView {
    /// No more units are held than there are.
    pub open spec fn respected(self) -> bool {
        self.held <= self.capacity
    }

    /// Whether a unit is free.
    pub open spec fn has_room(self) -> bool {
        self.held < self.capacity
    }

    /// The budget after an attempt to take a unit: one more is held if one was
    /// free, else nothing changes.
    pub open spec fn after_acquire(self) -> BudgetView {
        if self.has_room() {
            BudgetView { capacity: self.capacity, held: self.held + 1 }
        } else {
            self
        }
    }

    /// The budget after a unit is given back: one fewer is held if any was,
    /// else nothing changes.
    pub open spec fn after_release(self) -> BudgetView {
        if self.held > 0 {
            BudgetView { capacity: self.capacity, held: (self.held - 1) as nat }
        } else {
            self
        }
    }
}

/// A budget of units, one for each target that is being probed. It counts; it
/// does not wait: a caller that finds no unit free tries again after a release.
#[derive(Clone, Copy, Debug)]
pub struct ConcurrencyBudget {
    capacity: usize,
    held: usize,
}

impl View for ConcurrencyBudget {
    type V = BudgetView;

    closed spec fn view(&self) -> BudgetView {
        BudgetView { capacity: self.capacity as nat, held: self.held as nat }
    }
}

impl ConcurrencyBudget {
    /// The invariant of every budget that this module hands out: it is
    /// respected.
    pub closed spec fn wf(&self) -> bool {
        self.held <= self.capacity
    }

    /// A budget of `capacity` units, all of them free.
    pub fn new(capacity: usize) -> (b: Self)
        ensures
            b.wf(),
            b@ == (BudgetView { capacity: capacity as nat, held: 0 }),
    {
        ConcurrencyBudget { capacity, held: 0 }
    }

    /// The most units that may be held at once.
    pub fn capacity(&self) -> (n: usize)
        ensures
            n == self@.capacity,
    {
        self.capacity
    }

    /// The units that are held now.
    pub fn held(&self) -> (n: usize)
        requires
            self.wf(),
        ensures
            n == self@.held,
            n <= self@.capacity,
    {
        self.held
    }

    /// Whether a unit is free.
    pub fn has_room(&self) -> (b: bool)
        ensures
            b == self@.has_room(),
    {
        self.held < self.capacity
    }

    /// Takes a unit if one is free, and says whether it did.
    pub fn try_acquire(&mut self) -> (acquired: bool)
        requires
            old(self).wf(),
        ensures
            final(self).wf(),
            acquired == old(self)@.has_room(),
            final(self)@ == old(self)@.after_acquire(),
    {
        if self.held < self.capacity {
            self.held = self.held + 1;
            true
        } else {
            false
        }
    }

    /// Gives a unit back, and says whether one was held.
    pub fn release(&mut self) -> (released: bool)
        requires
            old(self).wf(),
        ensures
            final(self).wf(),
            released == (old(self)@.held > 0),
            final(self)@ == old(self)@.after_release(),
    {
        if self.held > 0 {
            self.held = self.held - 1;
            true
        } else {
            false
        }
    }
}

/// A budget that hands out units stays respected, whatever is asked of it.
pub proof fn lemma_budget_stays_respected(b: BudgetView)
    requires
        b.respected(),
    ensures
        b.after_acquire().respected(),
        b.after_release().respected(),
        b.after_acquire().capacity == b.capacity,
        b.after_release().capacity == b.capacity,
{
}

/// A well-formed budget is respected.
pub proof fn lemma_wf_is_respected(b: ConcurrencyBudget)
    requires
        b.wf(),
    ensures
        b@.respected(),
{
}

} // verus!
