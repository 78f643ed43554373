//! The mathematical model of the course-list engine: the catalog size, the
//! set of active ids, and the two history stacks, together with the step
//! each operation takes and the laws those steps obey.

use vstd::prelude::*;

use super::history::{action_id, Action};

verus! {

/// Abstract engine state: catalog size, active ids, and the history stacks.
#[verifier::ext_equal]
pub struct EngineModel {
    /// Number of courses in the catalog; its ids are exactly `0..n`.
    pub n: usize,
    /// Ids of the currently active courses.
    pub active: Set<usize>,
    /// Performed actions, most recent last.
    pub past: Seq<Action>,
    /// Undone actions, most recently undone last.
    pub future: Seq<Action>,
}

/// The full id range `0..n` as a set.
pub open spec fn all_ids(n: usize) -> Set<usize> {
    Set::new(|i: usize| i < n)
}

/// The removed ids: the complement of the active set within `0..n`.
pub open spec fn removed_of(m: EngineModel) -> Set<usize> {
    Set::new(|i: usize| i < m.n && !m.active.contains(i))
}

/// Every id the model mentions names a course of the catalog.
pub open spec fn wf_model(m: EngineModel) -> bool {
    &&& forall|i: usize| m.active.contains(i) ==> i < m.n
    &&& forall|k: int| 0 <= k < m.past.len() ==> action_id(#[trigger] m.past[k]) < m.n
    &&& forall|k: int| 0 <= k < m.future.len() ==> action_id(#[trigger] m.future[k]) < m.n
}

/// Replay an action in its original direction.
pub open spec fn action_applied(active: Set<usize>, a: Action) -> Set<usize> {
    match a {
        Action::Add(i) => active.insert(i),
        Action::Remove(i) => active.remove(i),
    }
}

/// Apply the inverse of an action.
pub open spec fn action_inverted(active: Set<usize>, a: Action) -> Set<usize> {
    match a {
        Action::Add(i) => active.remove(i),
        Action::Remove(i) => active.insert(i),
    }
}

/// The action agrees with the partition it is about to be undone from or
/// replayed onto: an `Add` stands while its id is active, a `Remove` while
/// it is not.
pub open spec fn action_consistent(a: Action, active: Set<usize>) -> bool {
    match a {
        Action::Add(i) => active.contains(i),
        Action::Remove(i) => !active.contains(i),
    }
}

/// Activating id `i`: move it into the active set and record the move,
/// discarding any redo history.
pub open spec fn activate_step(m: EngineModel, i: usize) -> EngineModel {
    EngineModel {
        n: m.n,
        active: m.active.insert(i),
        past: m.past.push(Action::Add(i)),
        future: Seq::empty(),
    }
}

/// Deactivating id `i`: move it out of the active set and record the move,
/// discarding any redo history.
pub open spec fn deactivate_step(m: EngineModel, i: usize) -> EngineModel {
    EngineModel {
        n: m.n,
        active: m.active.remove(i),
        past: m.past.push(Action::Remove(i)),
        future: Seq::empty(),
    }
}

/// Undo: pop the most recent action, apply its inverse, and park the action
/// on the `future` stack. Meaningful only when `m.past` is not empty.
pub open spec fn undo_step(m: EngineModel) -> EngineModel {
    EngineModel {
        n: m.n,
        active: action_inverted(m.active, m.past.last()),
        past: m.past.drop_last(),
        future: m.future.push(m.past.last()),
    }
}

/// Redo: pop the most recently undone action and replay it forward.
/// Meaningful only when `m.future` is not empty.
pub open spec fn redo_step(m: EngineModel) -> EngineModel {
    EngineModel {
        n: m.n,
        active: action_applied(m.active, m.future.last()),
        past: m.past.push(m.future.last()),
        future: m.future.drop_last(),
    }
}

/// Reset: every id becomes active and both history stacks are cleared.
pub open spec fn reset_step(m: EngineModel) -> EngineModel {
    EngineModel { n: m.n, active: all_ids(m.n), past: Seq::empty(), future: Seq::empty() }
}

/// Abstract snapshot contents: the save name, the active ids in ascending
/// order, and the two history stacks.
#[verifier::ext_equal]
pub struct SnapshotModel {
    /// Name of the save the state belongs to.
    pub save_name: Seq<char>,
    /// Ids of the active courses, ascending.
    pub active: Seq<usize>,
    /// Performed actions, most recent last.
    pub past: Seq<Action>,
    /// Undone actions, most recently undone last.
    pub future: Seq<Action>,
}

/// `s` captures engine state `m` under the given save name: the active ids
/// are listed in ascending order and hold exactly `m`'s active set, and the
/// history stacks are carried over unchanged.
pub open spec fn snapshot_of(m: EngineModel, save_name: Seq<char>, s: SnapshotModel) -> bool {
    &&& s.save_name == save_name
    &&& forall|a: int, b: int| 0 <= a < b < s.active.len() ==> s.active[a] < s.active[b]
    &&& s.active.to_set() == m.active
    &&& s.past == m.past
    &&& s.future == m.future
}

/// Every id the snapshot mentions names a course of a catalog of `n`
/// courses.
pub open spec fn snapshot_valid(n: usize, s: SnapshotModel) -> bool {
    &&& forall|k: int| 0 <= k < s.active.len() ==> (#[trigger] s.active[k]) < n
    &&& forall|k: int| 0 <= k < s.past.len() ==> action_id(#[trigger] s.past[k]) < n
    &&& forall|k: int| 0 <= k < s.future.len() ==> action_id(#[trigger] s.future[k]) < n
}

/// The engine state a valid snapshot restores to, over a catalog of `n`
/// courses.
pub open spec fn restore_model(n: usize, s: SnapshotModel) -> EngineModel {
    EngineModel { n, active: s.active.to_set(), past: s.past, future: s.future }
}

/// Law: a snapshot of a well-formed engine is valid for a catalog of the
/// same size, and restoring it reproduces the very partition and history it
/// was taken from, field for field.
pub proof fn lemma_snapshot_roundtrip(m: EngineModel, save_name: Seq<char>, s: SnapshotModel)
    requires
        wf_model(m),
        snapshot_of(m, save_name, s),
    ensures
        snapshot_valid(m.n, s),
        restore_model(m.n, s) =~= m,
{
    assert forall|k: int| 0 <= k < s.active.len() implies (#[trigger] s.active[k]) < m.n by {
        assert(s.active.contains(s.active[k]));
        assert(s.active.to_set().contains(s.active[k]));
    }
}

/// Law: the active and removed sets partition `0..n` — their union is the
/// whole id range and their intersection is empty.
pub proof fn lemma_partition_invariant(m: EngineModel)
    requires
        wf_model(m),
    ensures
        m.active.union(removed_of(m)) =~= all_ids(m.n),
        m.active.intersect(removed_of(m)) =~= Set::<usize>::empty(),
{
}

/// Law: every operation's step keeps the model well formed when the id it
/// touches is in range.
pub proof fn lemma_steps_preserve_wf(m: EngineModel, i: usize)
    requires
        wf_model(m),
    ensures
        i < m.n ==> wf_model(activate_step(m, i)),
        i < m.n ==> wf_model(deactivate_step(m, i)),
        m.past.len() > 0 ==> wf_model(undo_step(m)),
        m.future.len() > 0 ==> wf_model(redo_step(m)),
        wf_model(reset_step(m)),
{
}

/// Law: deactivating an active id and then undoing restores the partition
/// and the undo stack exactly.
pub proof fn lemma_deactivate_then_undo(m: EngineModel, i: usize)
    requires
        m.active.contains(i),
    ensures
        undo_step(deactivate_step(m, i)).active =~= m.active,
        undo_step(deactivate_step(m, i)).past =~= m.past,
        undo_step(deactivate_step(m, i)).n == m.n,
{
}

/// Law: undoing and then redoing leaves the partition and both history
/// stacks as they were, provided the undone action agrees with the
/// partition (as every action recorded by the engine does).
pub proof fn lemma_undo_then_redo(m: EngineModel)
    requires
        m.past.len() > 0,
        action_consistent(m.past.last(), m.active),
    ensures
        redo_step(undo_step(m)).active =~= m.active,
        redo_step(undo_step(m)).past =~= m.past,
        redo_step(undo_step(m)).future =~= m.future,
        redo_step(undo_step(m)).n == m.n,
{
}

/// Law: recording a new action empties the redo stack, whatever it held, so
/// a redo right after fails.
pub proof fn lemma_redo_invalidation(m: EngineModel, i: usize)
    ensures
        activate_step(m, i).future.len() == 0,
        deactivate_step(m, i).future.len() == 0,
{
}

} // verus!
