use vstd::prelude::*;

use crate::errors::CommandErrors;
use crate::model::{
    execute_model, fresh_model, lemma_execute_keeps_invariant, lemma_fresh_well_formed,
    lemma_redo_keeps_invariant, lemma_undo_keeps_invariant, redo_model, undo_model, well_formed,
    ProcessorModel,
};
use crate::text::{chars_of, string_of_range};

verus! {

/// Execute, undo and redo on a processor whose value is of type `T`.
///
/// Every call keeps the processor well formed, and a failed call changes nothing.
pub trait Commands<T: Operand>: Sized {
    /// The processor's observable state.
    spec fn model(&self) -> ProcessorModel<T::V>;

    /// Applies `operation`, dropping any undone operations and recording it as applied.
    fn execute(&mut self, operation: Operations) -> (r: Result<(), CommandErrors>)
        requires
            well_formed::<T>(old(self).model()),
        ensures
            well_formed::<T>(final(self).model()),
            (final(self).model(), r) == execute_model::<T>(old(self).model(), operation@),
    ;

    /// Reverts the last applied operation.
    fn undo(&mut self) -> (r: Result<(), CommandErrors>)
        requires
            well_formed::<T>(old(self).model()),
        ensures
            well_formed::<T>(final(self).model()),
            (final(self).model(), r) == undo_model::<T>(old(self).model()),
            r is Ok <==> old(self).model().position > 0,
            r is Err ==> r == Err::<(), CommandErrors>(CommandErrors::NothingToUndo),
    ;

    /// Applies again the first undone operation.
    fn redo(&mut self) -> (r: Result<(), CommandErrors>)
        requires
            well_formed::<T>(old(self).model()),
        ensures
            well_formed::<T>(final(self).model()),
            (final(self).model(), r) == redo_model::<T>(old(self).model()),
            r is Ok <==> old(self).model().position < old(self).model().history.len(),
            r is Err ==> r == Err::<(), CommandErrors>(CommandErrors::NothingToRedo),
    ;
}

/// One reversible action over the managed value.
///
/// `Truncate` carries the text it removed, captured when it runs; whatever text it is given
/// before that is ignored.
#[derive(Debug, Clone, PartialEq, Eq)]
pub enum Operations {
    Increment(u32),
    Decrement(u32),
    Append(String),
    Truncate(usize, String),
}

/// An operation with its text seen as a sequence of characters.
pub enum OperationView {
    Increment(u32),
    Decrement(u32),
    Append(Seq<char>),
    Truncate(usize, Seq<char>),
}

impl View for Operations {
    type V = OperationView;

    open spec fn view(&self) -> OperationView {
        match self {
            Operations::Increment(a) => OperationView::Increment(*a),
            Operations::Decrement(a) => OperationView::Decrement(*a),
            Operations::Append(s) => OperationView::Append(s@),
            Operations::Truncate(n, s) => OperationView::Truncate(*n, s@),
        }
    }
}

/// Outcome of adding `amount` to a counter.
pub open spec fn counter_increase(value: u32, amount: u32) -> Result<u32, CommandErrors> {
    if amount == 0 {
        Err(CommandErrors::CannotIncreaseByZero)
    } else if value + amount > u32::MAX {
        Err(CommandErrors::IntegerOverflowError)
    } else {
        Ok((value + amount) as u32)
    }
}

/// Outcome of subtracting `amount` from a counter.
pub open spec fn counter_decrease(value: u32, amount: u32) -> Result<u32, CommandErrors> {
    if amount == 0 {
        Err(CommandErrors::CannotDecreaseByZero)
    } else if amount > value {
        Err(CommandErrors::IntegerUnderflowError)
    } else {
        Ok((value - amount) as u32)
    }
}

/// Outcome of appending `input` to the text `value`.
pub open spec fn text_append(value: Seq<char>, input: Seq<char>) -> Result<
    Seq<char>,
    CommandErrors,
> {
    if input.len() == 0 {
        Err(CommandErrors::InputStringIsEmpty)
    } else {
        Ok(value + input)
    }
}

/// Outcome of removing the last `amount` characters of `value`: what is kept, and what was removed.
pub open spec fn text_cut(value: Seq<char>, amount: nat) -> Result<
    (Seq<char>, Seq<char>),
    CommandErrors,
> {
    if amount == 0 {
        Err(CommandErrors::CannotRemoveZeroCharacters)
    } else if amount > value.len() {
        Err(CommandErrors::AmountLargerThanString)
    } else {
        Ok((value.take(value.len() - amount), value.skip(value.len() - amount)))
    }
}

impl Operations {
    /// Adds `amount` to `value`; zero amounts and overflow are errors.
    pub fn increase(value: &u32, amount: u32) -> (r: Result<u32, CommandErrors>)
        ensures
            r == counter_increase(*value, amount),
    {
        if amount == 0 {
            return Err(CommandErrors::CannotIncreaseByZero);
        }
        match value.checked_add(amount) {
            Some(sum) => Ok(sum),
            None => Err(CommandErrors::IntegerOverflowError),
        }
    }

    /// Subtracts `amount` from `value`; zero amounts and underflow are errors.
    pub fn decrease(value: &u32, amount: u32) -> (r: Result<u32, CommandErrors>)
        ensures
            r == counter_decrease(*value, amount),
    {
        if amount == 0 {
            return Err(CommandErrors::CannotDecreaseByZero);
        }
        match value.checked_sub(amount) {
            Some(difference) => Ok(difference),
            None => Err(CommandErrors::IntegerUnderflowError),
        }
    }

    /// Returns `value` followed by `input`; an empty `input` is an error.
    pub fn append(value: &String, input: &str) -> (r: Result<String, CommandErrors>)
        ensures
            match text_append(value@, input@) {
                Ok(s) => r is Ok && r->Ok_0@ == s,
                Err(e) => r == Err::<String, CommandErrors>(e),
            },
    {
        if input.is_empty() {
            return Err(CommandErrors::InputStringIsEmpty);
        }
        let mut result = value.clone();
        result.append(input);
        Ok(result)
    }

    /// Splits off the last `amount` characters of `value`, returning what is kept and
    /// what was removed.
    pub fn cut(value: &String, amount: usize) -> (r: Result<(String, String), CommandErrors>)
        ensures
            match text_cut(value@, amount as nat) {
                Ok((kept, removed)) => r is Ok && r->Ok_0.0@ == kept && r->Ok_0.1@ == removed,
                Err(e) => r == Err::<(String, String), CommandErrors>(e),
            },
    {
        if amount == 0 {
            return Err(CommandErrors::CannotRemoveZeroCharacters);
        }
        let chars = chars_of(value.as_str());
        if amount > chars.len() {
            return Err(CommandErrors::AmountLargerThanString);
        }
        let split = chars.len() - amount;
        let kept = string_of_range(&chars, 0, split);
        let removed = string_of_range(&chars, split, chars.len());
        Ok((kept, removed))
    }
}


/// A kind of value that a processor can manage: which operations apply to it, how each is
/// applied and recorded, and how a recorded one is reverted.
pub trait Operand: View + Sized {
    /// What executing `op` on `value` gives: the new value and the operation as it is recorded.
    spec fn step(value: Self::V, op: OperationView) -> Result<(Self::V, OperationView), CommandErrors>;

    /// What reverting the recorded `op` on `value` gives.
    spec fn unstep(value: Self::V, op: OperationView) -> Result<Self::V, CommandErrors>;

    /// Executes `op` on `self`, returning the new value and the operation to record.
    fn apply(&self, op: &Operations) -> (r: Result<(Self, Operations), CommandErrors>)
        ensures
            match Self::step(self@, op@) {
                Ok((value, recorded)) => r is Ok && r->Ok_0.0@ == value && r->Ok_0.1@ == recorded,
                Err(e) => r == Err::<(Self, Operations), CommandErrors>(e),
            },
    ;

    /// Reverts the recorded `op` on `self`.
    fn revert(&self, op: &Operations) -> (r: Result<Self, CommandErrors>)
        ensures
            match Self::unstep(self@, op@) {
                Ok(value) => r is Ok && r->Ok_0@ == value,
                Err(e) => r == Err::<Self, CommandErrors>(e),
            },
    ;

    /// Executing the recorded form of an operation gives what executing the operation gave, and
    /// reverting it restores the value it was executed on.
    proof fn lemma_step_reversible(value: Self::V, op: OperationView)
        requires
            Self::step(value, op) is Ok,
        ensures
            Self::step(value, Self::step(value, op)->Ok_0.1) == Self::step(value, op),
            Self::unstep(Self::step(value, op)->Ok_0.0, Self::step(value, op)->Ok_0.1) == Ok::<
                Self::V,
                CommandErrors,
            >(value),
    ;
}

/// A counter takes `Increment` and `Decrement`.
impl Operand for u32 {
    open spec fn step(value: u32, op: OperationView) -> Result<(u32, OperationView), CommandErrors> {
        match op {
            OperationView::Increment(a) => match counter_increase(value, a) {
                Ok(v) => Ok((v, op)),
                Err(e) => Err(e),
            },
            OperationView::Decrement(a) => match counter_decrease(value, a) {
                Ok(v) => Ok((v, op)),
                Err(e) => Err(e),
            },
            _ => Err(CommandErrors::InvalidOperationTypeOnData),
        }
    }

    open spec fn unstep(value: u32, op: OperationView) -> Result<u32, CommandErrors> {
        match op {
            OperationView::Increment(a) => counter_decrease(value, a),
            OperationView::Decrement(a) => counter_increase(value, a),
            _ => Err(CommandErrors::InvalidOperationTypeOnData),
        }
    }

    fn apply(&self, op: &Operations) -> (r: Result<(u32, Operations), CommandErrors>) {
        match op {
            Operations::Increment(a) => match Operations::increase(self, *a) {
                Ok(v) => Ok((v, Operations::Increment(*a))),
                Err(e) => Err(e),
            },
            Operations::Decrement(a) => match Operations::decrease(self, *a) {
                Ok(v) => Ok((v, Operations::Decrement(*a))),
                Err(e) => Err(e),
            },
            _ => Err(CommandErrors::InvalidOperationTypeOnData),
        }
    }

    fn revert(&self, op: &Operations) -> (r: Result<u32, CommandErrors>) {
        match op {
            Operations::Increment(a) => Operations::decrease(self, *a),
            Operations::Decrement(a) => Operations::increase(self, *a),
            _ => Err(CommandErrors::InvalidOperationTypeOnData),
        }
    }

    proof fn lemma_step_reversible(value: u32, op: OperationView) {
    }
}

/// A text buffer takes `Append` and `Truncate`.
impl Operand for String {
    open spec fn step(value: Seq<char>, op: OperationView) -> Result<
        (Seq<char>, OperationView),
        CommandErrors,
    > {
        match op {
            OperationView::Append(w) => match text_append(value, w) {
                Ok(v) => Ok((v, op)),
                Err(e) => Err(e),
            },
            OperationView::Truncate(n, _) => match text_cut(value, n as nat) {
                Ok((v, removed)) => Ok((v, OperationView::Truncate(n, removed))),
                Err(e) => Err(e),
            },
            _ => Err(CommandErrors::InvalidOperationTypeOnData),
        }
    }

    open spec fn unstep(value: Seq<char>, op: OperationView) -> Result<Seq<char>, CommandErrors> {
        match op {
            OperationView::Append(w) => match text_cut(value, w.len()) {
                Ok((v, _)) => Ok(v),
                Err(e) => Err(e),
            },
            OperationView::Truncate(_, removed) => text_append(value, removed),
            _ => Err(CommandErrors::InvalidOperationTypeOnData),
        }
    }

    fn apply(&self, op: &Operations) -> (r: Result<(String, Operations), CommandErrors>) {
        match op {
            Operations::Append(w) => match Operations::append(self, w.as_str()) {
                Ok(v) => Ok((v, Operations::Append(w.clone()))),
                Err(e) => Err(e),
            },
            Operations::Truncate(n, _) => match Operations::cut(self, *n) {
                Ok((v, removed)) => Ok((v, Operations::Truncate(*n, removed))),
                Err(e) => Err(e),
            },
            _ => Err(CommandErrors::InvalidOperationTypeOnData),
        }
    }

    fn revert(&self, op: &Operations) -> (r: Result<String, CommandErrors>) {
        match op {
            Operations::Append(w) => {
                let appended = chars_of(w.as_str()).len();
                match Operations::cut(self, appended) {
                    Ok((v, _)) => Ok(v),
                    Err(e) => Err(e),
                }
            },
            Operations::Truncate(_, removed) => Operations::append(self, removed.as_str()),
            _ => Err(CommandErrors::InvalidOperationTypeOnData),
        }
    }

    proof fn lemma_step_reversible(value: Seq<char>, op: OperationView) {
        match op {
            OperationView::Append(w) => {
                assert((value + w).take(value.len() as int) =~= value);
            },
            OperationView::Truncate(n, _) => {
                let k = value.len() - n;
                assert(value.take(k) + value.skip(k) =~= value);
            },
            _ => {},
        }
    }
}


/// A value together with the operations executed on it and a cursor into them.
pub struct CommandProcessor<T> {
    commands: Vec<Operations>,
    current_position: usize,
    data: T,
    initial: Ghost<T>,
}

impl<T: Operand> CommandProcessor<T> {
    /// A processor around `data` with an empty history.
    pub fn new(data: T) -> (p: CommandProcessor<T>)
        ensures
            p.model() == fresh_model(data@),
            well_formed::<T>(p.model()),
    {
        proof {
            lemma_fresh_well_formed::<T>(data@);
        }
        let p = CommandProcessor {
            commands: Vec::new(),
            current_position: 0,
            data,
            initial: Ghost(data),
        };
        assert(p.commands@.map_values(|o: Operations| o@) =~= Seq::<OperationView>::empty());
        p
    }

    /// The current value.
    pub fn data(&self) -> (r: &T)
        ensures
            r@ == self.model().value,
    {
        &self.data
    }

    /// How many recorded operations are applied.
    pub fn current_position(&self) -> (r: usize)
        ensures
            r == self.model().position,
    {
        self.current_position
    }

    /// The recorded operations, applied ones first.
    pub fn commands(&self) -> (r: &Vec<Operations>)
        ensures
            r@.map_values(|o: Operations| o@) == self.model().history,
    {
        &self.commands
    }
}

impl<T: Operand> Commands<T> for CommandProcessor<T> {
    closed spec fn model(&self) -> ProcessorModel<T::V> {
        ProcessorModel {
            initial: self.initial@@,
            value: self.data@,
            history: self.commands@.map_values(|o: Operations| o@),
            position: self.current_position as nat,
        }
    }

    fn execute(&mut self, operation: Operations) -> (r: Result<(), CommandErrors>) {
        proof {
            lemma_execute_keeps_invariant::<T>(old(self).model(), operation@);
        }
        match self.data.apply(&operation) {
            Ok((value, recorded)) => {
                self.commands.truncate(self.current_position);
                self.commands.push(recorded);
                self.data = value;
                self.current_position = self.commands.len();
                assert(self.commands@.map_values(|o: Operations| o@) =~= old(
                    self,
                ).model().history.take(old(self).current_position as int).push(recorded@));
                Ok(())
            },
            Err(e) => Err(e),
        }
    }

    fn undo(&mut self) -> (r: Result<(), CommandErrors>) {
        proof {
            lemma_undo_keeps_invariant::<T>(old(self).model());
        }
        if self.current_position == 0 {
            return Err(CommandErrors::NothingToUndo);
        }
        let p = self.current_position - 1;
        match self.data.revert(&self.commands[p]) {
            Ok(value) => {
                self.data = value;
                self.current_position = p;
                Ok(())
            },
            Err(e) => Err(e),
        }
    }

    fn redo(&mut self) -> (r: Result<(), CommandErrors>) {
        proof {
            lemma_redo_keeps_invariant::<T>(old(self).model());
        }
        if self.current_position >= self.commands.len() {
            return Err(CommandErrors::NothingToRedo);
        }
        let p = self.current_position;
        match self.data.apply(&self.commands[p]) {
            Ok((value, _)) => {
                self.data = value;
                self.current_position = p + 1;
                Ok(())
            },
            Err(e) => Err(e),
        }
    }
}

} // verus!
