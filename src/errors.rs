use vstd::prelude::*;

verus! {

/// Every way an operation, an undo or a redo can fail.
#[derive(Debug, Clone, Copy, PartialEq, Eq, Structural)]
pub enum CommandErrors {
    IntegerOverflowError,
    IntegerUnderflowError,
    CannotIncreaseByZero,
    CannotDecreaseByZero,
    InputStringIsEmpty,
    CannotRemoveZeroCharacters,
    AmountLargerThanString,
    InvalidOperationTypeOnData,
    NothingToUndo,
    NothingToRedo,
}

} // verus!
