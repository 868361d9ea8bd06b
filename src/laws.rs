use vstd::prelude::*;

use crate::errors::CommandErrors;
use crate::model::{
    execute_model, fresh_model, lemma_execute_keeps_invariant, lemma_fresh_well_formed,
    lemma_redo_keeps_invariant, lemma_undo_keeps_invariant, redo_model, replay, undo_model,
    well_formed, ProcessorModel,
};
use crate::types::{OperationView, Operand};

verus! {

/// A new processor is well formed, and execute, undo and redo keep it so whatever they return.
/// Hence in every reachable state, replaying the applied operations from the initial value, as
/// execute applies them, yields exactly the current value.
pub proof fn law_replay_gives_value<T: Operand>(
    start: T::V,
    m: ProcessorModel<T::V>,
    op: OperationView,
)
    requires
        well_formed::<T>(m),
    ensures
        well_formed::<T>(fresh_model(start)),
        replay::<T>(m.initial, m.history.take(m.position as int)) == Some(m.value),
        well_formed::<T>(execute_model::<T>(m, op).0),
        well_formed::<T>(undo_model::<T>(m).0),
        well_formed::<T>(redo_model::<T>(m).0),
{
    lemma_fresh_well_formed::<T>(start);
    lemma_execute_keeps_invariant::<T>(m, op);
    lemma_undo_keeps_invariant::<T>(m);
    lemma_redo_keeps_invariant::<T>(m);
}

/// After a successful execute, an undo followed by a redo both succeed and give back exactly the
/// state the execute left: the same value, cursor and history.
pub proof fn law_undo_redo_round_trip<T: Operand>(m: ProcessorModel<T::V>, op: OperationView)
    requires
        well_formed::<T>(m),
        execute_model::<T>(m, op).1 is Ok,
    ensures
        undo_model::<T>(execute_model::<T>(m, op).0).1 is Ok,
        redo_model::<T>(undo_model::<T>(execute_model::<T>(m, op).0).0) == (
            execute_model::<T>(m, op).0,
            Ok::<(), CommandErrors>(()),
        ),
{
    T::lemma_step_reversible(m.value, op);
    let executed = execute_model::<T>(m, op).0;
    assert(executed.history[m.position as int] == T::step(m.value, op)->Ok_0.1);
}

/// Executing after an undo drops the undone operations: after execute, execute, undo and a third
/// successful execute, there is nothing to redo.
pub proof fn law_execute_discards_undone<T: Operand>(
    m: ProcessorModel<T::V>,
    first: OperationView,
    second: OperationView,
    third: OperationView,
)
    requires
        well_formed::<T>(m),
        execute_model::<T>(m, first).1 is Ok,
        execute_model::<T>(execute_model::<T>(m, first).0, second).1 is Ok,
        execute_model::<T>(
            undo_model::<T>(execute_model::<T>(execute_model::<T>(m, first).0, second).0).0,
            third,
        ).1 is Ok,
    ensures
        undo_model::<T>(execute_model::<T>(execute_model::<T>(m, first).0, second).0).1 is Ok,
        ({
            let last = execute_model::<T>(
                undo_model::<T>(execute_model::<T>(execute_model::<T>(m, first).0, second).0).0,
                third,
            ).0;
            redo_model::<T>(last) == (last, Err::<(), CommandErrors>(CommandErrors::NothingToRedo))
        }),
{
    let m1 = execute_model::<T>(m, first).0;
    lemma_execute_keeps_invariant::<T>(m, first);
    let m2 = execute_model::<T>(m1, second).0;
    lemma_execute_keeps_invariant::<T>(m1, second);
    lemma_undo_keeps_invariant::<T>(m2);
}

/// A counter processor refuses text operations, and a text processor refuses counter
/// operations, leaving its state untouched.
pub proof fn law_wrong_kind_rejected(
    counter: ProcessorModel<u32>,
    text: ProcessorModel<Seq<char>>,
    s: Seq<char>,
    n: usize,
    a: u32,
)
    ensures
        execute_model::<u32>(counter, OperationView::Append(s)) == (
            counter,
            Err::<(), CommandErrors>(CommandErrors::InvalidOperationTypeOnData),
        ),
        execute_model::<u32>(counter, OperationView::Truncate(n, s)) == (
            counter,
            Err::<(), CommandErrors>(CommandErrors::InvalidOperationTypeOnData),
        ),
        execute_model::<String>(text, OperationView::Increment(a)) == (
            text,
            Err::<(), CommandErrors>(CommandErrors::InvalidOperationTypeOnData),
        ),
        execute_model::<String>(text, OperationView::Decrement(a)) == (
            text,
            Err::<(), CommandErrors>(CommandErrors::InvalidOperationTypeOnData),
        ),
{
}

} // verus!
