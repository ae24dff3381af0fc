//! The bounded undo/redo double stack of whole-buffer snapshots.

use vstd::prelude::*;

verus! {

/// The most snapshots either stack keeps; pushing beyond it discards
/// the oldest entry.
pub const UNDO_DEPTH: usize = 1000;

/// A whole-buffer snapshot taken before a mutation; popping it restores
/// the pre-mutation state.
pub struct UndoSnapshot {
    pub text: String,
    pub cursor: usize,
}

/// The mathematical content of a snapshot.
#[verifier::ext_equal]
pub ghost struct SnapModel {
    pub text: Seq<char>,
    pub cursor: nat,
}

impl SnapModel {
    /// The snapshot's cursor lies within its text.
    pub open spec fn wf(self) -> bool {
        self.cursor <= self.text.len()
    }
}

impl View for UndoSnapshot {
    type V = SnapModel;

    open spec fn view(&self) -> SnapModel {
        SnapModel { text: self.text@, cursor: self.cursor as nat }
    }
}

/// The two stacks as sequences, oldest entry first.
#[verifier::ext_equal]
pub ghost struct UndoModel {
    pub undo: Seq<SnapModel>,
    pub redo: Seq<SnapModel>,
}

/// A bounded stack of well-formed snapshots.
pub open spec fn stack_wf(stack: Seq<SnapModel>) -> bool {
    &&& stack.len() <= UNDO_DEPTH
    &&& forall|i: int| 0 <= i < stack.len() ==> (#[trigger] stack[i]).wf()
}

impl UndoModel {
    pub open spec fn wf(self) -> bool {
        &&& stack_wf(self.undo)
        &&& stack_wf(self.redo)
    }
}

/// Pushing a well-formed snapshot keeps a stack well formed.
pub proof fn lemma_push_capped_wf(stack: Seq<SnapModel>, s: SnapModel)
    requires
        stack_wf(stack),
        s.wf(),
    ensures
        stack_wf(push_capped(stack, s)),
{
}

/// Pushing onto a bounded stack: the new entry goes on top and, past
/// the depth limit, the oldest entry is discarded.
pub open spec fn push_capped(stack: Seq<SnapModel>, s: SnapModel) -> Seq<SnapModel> {
    let p = stack.push(s);
    if p.len() > UNDO_DEPTH {
        p.skip(1)
    } else {
        p
    }
}

/// The sequence of snapshot models held by a vector of snapshots.
pub open spec fn snaps_view(v: Seq<UndoSnapshot>) -> Seq<SnapModel> {
    v.map_values(|s: UndoSnapshot| s@)
}

/// Two bounded stacks of snapshots: one for undo, one for redo.
pub struct UndoStack {
    undo_stack: Vec<UndoSnapshot>,
    redo_stack: Vec<UndoSnapshot>,
}

impl View for UndoStack {
    type V = UndoModel;

    closed spec fn view(&self) -> UndoModel {
        UndoModel { undo: snaps_view(self.undo_stack@), redo: snaps_view(self.redo_stack@) }
    }
}

impl UndoStack {
    pub fn new() -> (r: UndoStack)
        ensures
            r@.undo == Seq::<SnapModel>::empty(),
            r@.redo == Seq::<SnapModel>::empty(),
    {
        let r = UndoStack { undo_stack: Vec::new(), redo_stack: Vec::new() };
        proof {
            assert(r@.undo =~= Seq::<SnapModel>::empty());
            assert(r@.redo =~= Seq::<SnapModel>::empty());
        }
        r
    }

    pub fn push_undo(&mut self, snapshot: UndoSnapshot)
        ensures
            final(self)@.undo == push_capped(old(self)@.undo, snapshot@),
            final(self)@.redo == old(self)@.redo,
    {
        let ghost pre = self.undo_stack@;
        self.undo_stack.push(snapshot);
        proof {
            assert(snaps_view(self.undo_stack@) =~= snaps_view(pre).push(snapshot@));
        }
        if self.undo_stack.len() > UNDO_DEPTH {
            let ghost mid = self.undo_stack@;
            self.undo_stack.remove(0);
            proof {
                assert(snaps_view(self.undo_stack@) =~= snaps_view(mid).skip(1));
            }
        }
        proof {
            assert(final(self)@.undo =~= push_capped(old(self)@.undo, snapshot@));
        }
    }

    pub fn pop_undo(&mut self) -> (r: Option<UndoSnapshot>)
        ensures
            old(self)@.undo.len() == 0 ==> r is None && final(self)@ == old(self)@,
            old(self)@.undo.len() > 0 ==> {
                &&& r matches Some(s) && s@ == old(self)@.undo.last()
                &&& final(self)@.undo == old(self)@.undo.drop_last()
                &&& final(self)@.redo == old(self)@.redo
            },
    {
        let r = self.undo_stack.pop();
        proof {
            if old(self)@.undo.len() > 0 {
                assert(snaps_view(self.undo_stack@) =~= snaps_view(old(self).undo_stack@).drop_last());
            } else {
                assert(final(self)@ =~= old(self)@);
            }
        }
        r
    }

    pub fn push_redo(&mut self, snapshot: UndoSnapshot)
        ensures
            final(self)@.redo == push_capped(old(self)@.redo, snapshot@),
            final(self)@.undo == old(self)@.undo,
    {
        let ghost pre = self.redo_stack@;
        self.redo_stack.push(snapshot);
        proof {
            assert(snaps_view(self.redo_stack@) =~= snaps_view(pre).push(snapshot@));
        }
        if self.redo_stack.len() > UNDO_DEPTH {
            let ghost mid = self.redo_stack@;
            self.redo_stack.remove(0);
            proof {
                assert(snaps_view(self.redo_stack@) =~= snaps_view(mid).skip(1));
            }
        }
        proof {
            assert(final(self)@.redo =~= push_capped(old(self)@.redo, snapshot@));
        }
    }

    pub fn pop_redo(&mut self) -> (r: Option<UndoSnapshot>)
        ensures
            old(self)@.redo.len() == 0 ==> r is None && final(self)@ == old(self)@,
            old(self)@.redo.len() > 0 ==> {
                &&& r matches Some(s) && s@ == old(self)@.redo.last()
                &&& final(self)@.redo == old(self)@.redo.drop_last()
                &&& final(self)@.undo == old(self)@.undo
            },
    {
        let r = self.redo_stack.pop();
        proof {
            if old(self)@.redo.len() > 0 {
                assert(snaps_view(self.redo_stack@) =~= snaps_view(old(self).redo_stack@).drop_last());
            } else {
                assert(final(self)@ =~= old(self)@);
            }
        }
        r
    }

    pub fn clear_redo(&mut self)
        ensures
            final(self)@.undo == old(self)@.undo,
            final(self)@.redo == Seq::<SnapModel>::empty(),
    {
        self.redo_stack.clear();
        proof {
            assert(final(self)@.redo =~= Seq::<SnapModel>::empty());
        }
    }

    pub fn clear_all(&mut self)
        ensures
            final(self)@.undo == Seq::<SnapModel>::empty(),
            final(self)@.redo == Seq::<SnapModel>::empty(),
    {
        self.undo_stack.clear();
        self.redo_stack.clear();
        proof {
            assert(final(self)@.undo =~= Seq::<SnapModel>::empty());
            assert(final(self)@.redo =~= Seq::<SnapModel>::empty());
        }
    }
}

} // verus!
