use vstd::prelude::*;

use crate::effect::Effect;
use crate::text::{join, joined};
use crate::value::Value;
use crate::words::{ints_of, signed_of, signed_words, unsigned_words};

verus! {

/// The bits of each value of a sequence, in the same order.
pub open spec fn bits_of(values: Seq<Value>) -> Seq<u32> {
    Seq::new(values.len(), |i: int| values[i]@)
}

/// The operand stack: the values that operators take their inputs from and
/// push their outputs to. The last element of `values` is the top.
#[derive(Debug)]
pub struct OperandStack {
    /// The values on the stack, in the order in which they were pushed.
    pub values: Vec<Value>,
}

/// A value was to be popped from an empty operand stack.
#[derive(Debug)]
pub struct OperandStackUnderflow;

/// The operand stack, by its short name.
pub type Stack = OperandStack;

/// The underflow of the operand stack, by its short name.
pub type StackUnderflow = OperandStackUnderflow;

/// An index from the top named no value on the operand stack.
#[derive(Debug)]
pub struct InvalidStackIndex;

impl View for OperandStack {
    type V = Seq<u32>;

    /// The bits of the values on the stack, bottom first.
    open spec fn view(&self) -> Seq<u32> {
        bits_of(self.values@)
    }
}

impl Default for OperandStack {
    /// An empty stack.
    fn default() -> (stack: OperandStack)
        ensures
            stack.values@ == Seq::<Value>::empty(),
            stack@ == Seq::<u32>::empty(),
    {
        let stack = OperandStack { values: Vec::new() };
        assert(stack@ =~= Seq::<u32>::empty());
        stack
    }
}

impl OperandStack {
    /// Push a value to the top of the stack.
    pub fn push(&mut self, value: Value)
        ensures
            final(self).values@ == old(self).values@.push(value),
            final(self)@ == old(self)@.push(value@),
    {
        self.values.push(value);
        assert(self@ =~= old(self)@.push(value@));
    }

    /// Pop the value at the top of the stack, if there is one.
    pub fn pop(&mut self) -> (result: Result<Value, OperandStackUnderflow>)
        ensures
            match result {
                Ok(value) => old(self)@.len() > 0 && value == old(self).values@.last(),
                Err(_) => old(self)@.len() == 0,
            },
            final(self).values@ == (if old(self)@.len() == 0 {
                old(self).values@
            } else {
                old(self).values@.drop_last()
            }),
            final(self)@ == (if old(self)@.len() == 0 {
                old(self)@
            } else {
                old(self)@.drop_last()
            }),
    {
        match self.values.pop() {
            Some(value) => {
                assert(self@ =~= old(self)@.drop_last());
                Ok(value)
            },
            None => Err(OperandStackUnderflow),
        }
    }

    /// The position, counted from the bottom, of the value that is
    /// `index_from_top` places below the top.
    pub fn convert_index(&self, index_from_top: usize) -> (result: Result<
        usize,
        InvalidStackIndex,
    >)
        ensures
            match result {
                Ok(index_from_bottom) => index_from_top < self@.len() && index_from_bottom
                    == self@.len() - 1 - index_from_top,
                Err(_) => index_from_top >= self@.len(),
            },
    {
        let len = self.values.len();
        if len == 0 {
            return Err(InvalidStackIndex);
        }
        let top = len - 1;
        if index_from_top > top {
            return Err(InvalidStackIndex);
        }
        Ok(top - index_from_top)
    }

    /// The value that is `index_from_top` places below the top; `0` names the
    /// top itself.
    pub fn get(&self, index_from_top: usize) -> (result: Result<Value, InvalidStackIndex>)
        ensures
            match result {
                Ok(value) => index_from_top < self@.len() && value == self.values@[self@.len() - 1
                    - index_from_top],
                Err(_) => index_from_top >= self@.len(),
            },
    {
        match self.convert_index(index_from_top) {
            Ok(index_from_bottom) => Ok(self.values[index_from_bottom]),
            Err(error) => Err(error),
        }
    }

    /// Remove the value that is `index_from_top` places below the top. The
    /// values above it move down by one place and keep their order.
    pub fn remove(&mut self, index_from_top: usize) -> (result: Result<(), InvalidStackIndex>)
        ensures
            result is Ok <==> index_from_top < old(self)@.len(),
            final(self).values@ == (if index_from_top < old(self)@.len() {
                old(self).values@.remove(old(self)@.len() - 1 - index_from_top)
            } else {
                old(self).values@
            }),
            final(self)@ == (if index_from_top < old(self)@.len() {
                old(self)@.remove(old(self)@.len() - 1 - index_from_top)
            } else {
                old(self)@
            }),
    {
        match self.convert_index(index_from_top) {
            Ok(index_from_bottom) => {
                self.values.remove(index_from_bottom);
                assert(self@ =~= old(self)@.remove(index_from_bottom as int));
                Ok(())
            },
            Err(error) => Err(error),
        }
    }

    /// The stack as text: its values in decimal notation, read as unsigned
    /// integers, bottom first, with a space between each two of them.
    pub fn to_text(&self) -> (text: String)
        ensures
            text@ == joined(self@, seq![' ']),
    {
        proof {
            reveal_strlit(" ");
            assert(" "@ =~= seq![' ']);
        }
        join(&unsigned_words(&self.values), " ")
    }

    /// The values on the stack, bottom first, read as signed integers.
    pub fn to_i32_slice(&self) -> (numbers: Vec<i32>)
        ensures
            ints_of(numbers@) == signed_of(self@),
    {
        signed_words(&self.values)
    }

    /// The values on the stack, bottom first, read as unsigned integers.
    pub fn to_u32_slice(&self) -> (words: Vec<u32>)
        ensures
            words@ == self@,
    {
        unsigned_words(&self.values)
    }
}

impl From<OperandStackUnderflow> for Effect {
    fn from(underflow: OperandStackUnderflow) -> (effect: Effect) {
        Effect::OperandStackUnderflow
    }
}

impl vstd::std_specs::convert::FromSpecImpl<OperandStackUnderflow> for Effect {
    open spec fn obeys_from_spec() -> bool {
        true
    }

    open spec fn from_spec(underflow: OperandStackUnderflow) -> Effect {
        Effect::OperandStackUnderflow
    }
}

impl From<InvalidStackIndex> for Effect {
    fn from(invalid: InvalidStackIndex) -> (effect: Effect) {
        Effect::InvalidOperandStackIndex
    }
}

impl vstd::std_specs::convert::FromSpecImpl<InvalidStackIndex> for Effect {
    open spec fn obeys_from_spec() -> bool {
        true
    }

    open spec fn from_spec(invalid: InvalidStackIndex) -> Effect {
        Effect::InvalidOperandStackIndex
    }
}

} // verus!
