//! One-way flags shared by the leases that wait on one dispatch.
use vstd::prelude::*;

verus! {

/// The state of one dispatch fence. Both flags only ever rise.
#[derive(Clone, Copy, Debug, PartialEq, Eq, Structural)]
pub struct SubmitFence {
    pub relinquished: bool,
    pub disclosed: bool,
}

impl SubmitFence {
    pub fn new() -> (fence: Self)
        ensures
            fence == (SubmitFence { relinquished: false, disclosed: false }),
    {
        SubmitFence { relinquished: false, disclosed: false }
    }

    pub fn is_relinquished(&self) -> (relinquished: bool)
        ensures
            relinquished == self.relinquished,
    {
        self.relinquished
    }

    pub fn relinquish(&mut self)
        ensures
            *final(self) == (SubmitFence { relinquished: true, disclosed: old(self).disclosed }),
    {
        self.relinquished = true;
    }

    /// `true` for the first caller only.
    pub fn disclose_once(&mut self) -> (first: bool)
        ensures
            first == !old(self).disclosed,
            *final(self) == (SubmitFence { relinquished: old(self).relinquished, disclosed: true }),
    {
        let first = !self.disclosed;
        self.disclosed = true;
        first
    }
}

/// A handle on one fence of a [`FenceTable`]. Every holder of the handle sees the same flags.
#[derive(Clone, Copy, Debug, PartialEq, Eq, Structural)]
pub struct FenceId {
    pub index: usize,
}

/// Every fence that was raised, by handle.
pub struct FenceTable {
    pub fences: Vec<SubmitFence>,
}

/// The fence behind `id` has been let go. A handle that names no fence guards nothing.
pub open spec fn is_let_go(fences: Seq<SubmitFence>, id: FenceId) -> bool {
    id.index < fences.len() ==> fences[id.index as int].relinquished
}

/// `fences` with the one behind `id` let go.
pub open spec fn let_go(fences: Seq<SubmitFence>, id: FenceId) -> Seq<SubmitFence> {
    if id.index < fences.len() {
        fences.update(
            id.index as int,
            SubmitFence { relinquished: true, disclosed: fences[id.index as int].disclosed },
        )
    } else {
        fences
    }
}

/// The fence behind `id` has been disclosed to the user.
pub open spec fn is_disclosed(fences: Seq<SubmitFence>, id: FenceId) -> bool {
    id.index < fences.len() ==> fences[id.index as int].disclosed
}

/// `fences` with the one behind `id` disclosed.
pub open spec fn disclosed(fences: Seq<SubmitFence>, id: FenceId) -> Seq<SubmitFence> {
    if id.index < fences.len() {
        fences.update(
            id.index as int,
            SubmitFence { relinquished: fences[id.index as int].relinquished, disclosed: true },
        )
    } else {
        fences
    }
}

/// Fences are only ever added, let go and disclosed.
pub open spec fn only_rises(before: Seq<SubmitFence>, after: Seq<SubmitFence>) -> bool {
    &&& before.len() <= after.len()
    &&& forall|i: int|
        0 <= i < before.len() ==> ((#[trigger] before[i]).relinquished ==> after[i].relinquished)
            && (before[i].disclosed ==> after[i].disclosed)
}

impl FenceTable {
    pub fn new() -> (table: Self)
        ensures
            table.fences@ == Seq::<SubmitFence>::empty(),
    {
        FenceTable { fences: Vec::new() }
    }

    /// Raises a new fence.
    pub fn raise(&mut self) -> (id: FenceId)
        ensures
            id.index == old(self).fences@.len(),
            final(self).fences@ == old(self).fences@.push(
                SubmitFence { relinquished: false, disclosed: false },
            ),
            only_rises(old(self).fences@, final(self).fences@),
    {
        let index: usize = self.fences.len();
        self.fences.push(SubmitFence::new());
        FenceId { index }
    }

    pub fn is_relinquished(&self, id: FenceId) -> (relinquished: bool)
        ensures
            relinquished == is_let_go(self.fences@, id),
    {
        id.index >= self.fences.len() || self.fences[id.index].is_relinquished()
    }

    pub fn relinquish(&mut self, id: FenceId)
        ensures
            final(self).fences@ == let_go(old(self).fences@, id),
            only_rises(old(self).fences@, final(self).fences@),
            is_let_go(final(self).fences@, id),
    {
        if id.index < self.fences.len() {
            let mut fence: SubmitFence = self.fences[id.index];
            fence.relinquish();
            self.fences[id.index] = fence;
        }
    }

    /// `true` for the first caller with this handle only.
    pub fn disclose_once(&mut self, id: FenceId) -> (first: bool)
        ensures
            first == !is_disclosed(old(self).fences@, id),
            final(self).fences@ == disclosed(old(self).fences@, id),
            only_rises(old(self).fences@, final(self).fences@),
            is_disclosed(final(self).fences@, id),
    {
        if id.index < self.fences.len() {
            let mut fence: SubmitFence = self.fences[id.index];
            let first = fence.disclose_once();
            self.fences[id.index] = fence;
            first
        } else {
            false
        }
    }
}

} // verus!
