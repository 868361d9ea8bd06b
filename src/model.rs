use vstd::prelude::*;

use crate::errors::CommandErrors;
use crate::types::{OperationView, Operand};

verus! {

/// The observable state of a processor: the value it started from, its current value, the
/// recorded operations and how many of them are applied.
pub struct ProcessorModel<V> {
    pub initial: V,
    pub value: V,
    pub history: Seq<OperationView>,
    pub position: nat,
}

/// Runs `ops` in order from `value`, each as `execute` would run it. `None` if one of them fails
/// or would be recorded other than as it stands.
pub open spec fn replay<T: Operand>(value: T::V, ops: Seq<OperationView>) -> Option<T::V>
    decreases ops.len(),
{
    if ops.len() == 0 {
        Some(value)
    } else {
        match replay::<T>(value, ops.drop_last()) {
            Some(before) => match T::step(before, ops.last()) {
                Ok((after, recorded)) => if recorded == ops.last() {
                    Some(after)
                } else {
                    None
                },
                Err(_) => None,
            },
            None => None,
        }
    }
}

/// The whole history replays from the initial value, and its applied part gives the current
/// value.
pub open spec fn well_formed<T: Operand>(m: ProcessorModel<T::V>) -> bool {
    &&& m.position <= m.history.len()
    &&& replay::<T>(m.initial, m.history) is Some
    &&& replay::<T>(m.initial, m.history.take(m.position as int)) == Some(m.value)
}

/// A processor just created around `value`.
pub open spec fn fresh_model<V>(value: V) -> ProcessorModel<V> {
    ProcessorModel { initial: value, value, history: Seq::empty(), position: 0 }
}

/// Executing `op`: on success the undone operations are dropped and the recorded one follows the
/// applied ones; on failure nothing changes.
pub open spec fn execute_model<T: Operand>(m: ProcessorModel<T::V>, op: OperationView) -> (
    ProcessorModel<T::V>,
    Result<(), CommandErrors>,
) {
    match T::step(m.value, op) {
        Ok((value, recorded)) => (
            ProcessorModel {
                initial: m.initial,
                value,
                history: m.history.take(m.position as int).push(recorded),
                position: m.position + 1,
            },
            Ok(()),
        ),
        Err(e) => (m, Err(e)),
    }
}

/// Undoing the last applied operation.
pub open spec fn undo_model<T: Operand>(m: ProcessorModel<T::V>) -> (
    ProcessorModel<T::V>,
    Result<(), CommandErrors>,
) {
    if m.position == 0 {
        (m, Err(CommandErrors::NothingToUndo))
    } else {
        match T::unstep(m.value, m.history[m.position - 1]) {
            Ok(value) => (
                ProcessorModel {
                    initial: m.initial,
                    value,
                    history: m.history,
                    position: (m.position - 1) as nat,
                },
                Ok(()),
            ),
            Err(e) => (m, Err(e)),
        }
    }
}

/// Redoing the first undone operation.
pub open spec fn redo_model<T: Operand>(m: ProcessorModel<T::V>) -> (
    ProcessorModel<T::V>,
    Result<(), CommandErrors>,
) {
    if m.position >= m.history.len() {
        (m, Err(CommandErrors::NothingToRedo))
    } else {
        match T::step(m.value, m.history[m.position as int]) {
            Ok((value, _)) => (
                ProcessorModel {
                    initial: m.initial,
                    value,
                    history: m.history,
                    position: m.position + 1,
                },
                Ok(()),
            ),
            Err(e) => (m, Err(e)),
        }
    }
}

/// Every prefix of a history that replays also replays.
pub proof fn lemma_replay_prefix<T: Operand>(value: T::V, ops: Seq<OperationView>, k: int)
    requires
        replay::<T>(value, ops) is Some,
        0 <= k <= ops.len(),
    ensures
        replay::<T>(value, ops.take(k)) is Some,
    decreases ops.len(),
{
    if k < ops.len() {
        lemma_replay_prefix::<T>(value, ops.drop_last(), k);
        assert(ops.drop_last().take(k) =~= ops.take(k));
    } else {
        assert(ops.take(k) =~= ops);
    }
}

/// Replaying one operation more than a prefix.
proof fn lemma_replay_next<T: Operand>(value: T::V, ops: Seq<OperationView>, k: int)
    requires
        0 <= k < ops.len(),
    ensures
        ops.take(k + 1).drop_last() == ops.take(k),
        ops.take(k + 1).last() == ops[k],
{
    assert(ops.take(k + 1).drop_last() =~= ops.take(k));
}

/// A new processor is well formed.
pub proof fn lemma_fresh_well_formed<T: Operand>(value: T::V)
    ensures
        well_formed::<T>(fresh_model(value)),
{
    assert(Seq::<OperationView>::empty().take(0) =~= Seq::<OperationView>::empty());
}

/// Executing keeps a processor well formed, whether it succeeds or not.
pub proof fn lemma_execute_keeps_invariant<T: Operand>(m: ProcessorModel<T::V>, op: OperationView)
    requires
        well_formed::<T>(m),
    ensures
        well_formed::<T>(execute_model::<T>(m, op).0),
{
    if T::step(m.value, op) is Ok {
        T::lemma_step_reversible(m.value, op);
        let n = execute_model::<T>(m, op).0;
        let p = m.position as int;
        assert(n.history.drop_last() =~= m.history.take(p));
        assert(n.history.take(p + 1) =~= n.history);
    }
}

/// Undoing keeps a processor well formed, and on a well-formed one fails only with nothing to
/// undo.
pub proof fn lemma_undo_keeps_invariant<T: Operand>(m: ProcessorModel<T::V>)
    requires
        well_formed::<T>(m),
    ensures
        well_formed::<T>(undo_model::<T>(m).0),
        undo_model::<T>(m).1 is Ok <==> m.position > 0,
{
    if m.position > 0 {
        let p = m.position - 1;
        lemma_replay_prefix::<T>(m.initial, m.history, p);
        lemma_replay_next::<T>(m.initial, m.history, p);
        let before = replay::<T>(m.initial, m.history.take(p))->Some_0;
        T::lemma_step_reversible(before, m.history[p]);
    }
}

/// Redoing keeps a processor well formed, and on a well-formed one fails only with nothing to
/// redo.
pub proof fn lemma_redo_keeps_invariant<T: Operand>(m: ProcessorModel<T::V>)
    requires
        well_formed::<T>(m),
    ensures
        well_formed::<T>(redo_model::<T>(m).0),
        redo_model::<T>(m).1 is Ok <==> m.position < m.history.len(),
{
    if m.position < m.history.len() {
        let p = m.position as int;
        lemma_replay_prefix::<T>(m.initial, m.history, p + 1);
        lemma_replay_next::<T>(m.initial, m.history, p);
    }
}

} // verus!
