use vstd::prelude::*;
use vstd::string::StringSliceAdditionalSpecFns;

use crate::effect::Effect;
use crate::memory::Memory;
use crate::operand_stack::OperandStack;
use crate::operation::{compute_binary, compute_unary, identify};
use crate::script::{Operator, OperatorIndex, Script};
use crate::semantics::{
    apply, evaluate, halts, is_binary, is_unary, lemma_division_in_range, lemma_steps_add,
    lemma_steps_at_rest, outcome, quotient, remainder, step, steps, EvalState, Operation,
};
use crate::syntax::{compiled, ScriptView};
use crate::value::Value;

verus! {

broadcast use crate::value::Value::lemma_from_bits;

/// The number of words that the memory of a new evaluation has.
pub const MEMORY_SIZE: usize = 1024;

/// The positions of a sequence of operator indices, in the same order.
pub open spec fn positions(indices: Seq<OperatorIndex>) -> Seq<u32> {
    Seq::new(indices.len(), |i: int| indices[i]@)
}

/// The state in which every evaluation starts: the cursor at the first
/// operator, both stacks empty, no effect, and all of the memory zero.
pub open spec fn initial_state() -> EvalState {
    EvalState {
        next_operator: 0,
        call_stack: Seq::empty(),
        effect: None,
        operand_stack: Seq::empty(),
        memory: Seq::new(MEMORY_SIZE as nat, |i: int| 0u32),
    }
}

/// The ongoing evaluation of a script.
///
/// An evaluation advances by `step` and `run` for as long as no effect is
/// active. Once the script has triggered one, the host decides: it may stop
/// there, or handle the effect, clear it, and go on.
#[derive(Debug)]
pub struct Eval {
    script: Script,
    next_operator: OperatorIndex,
    call_stack: Vec<OperatorIndex>,
    /// The active effect, if one has triggered.
    pub effect: Option<Effect>,
    /// The operand stack.
    pub operand_stack: OperandStack,
    /// The memory.
    pub memory: Memory,
}

/// What the operator at the cursor asks for, once its names are looked up.
enum Decoded {
    Push { value: Value },
    Apply { operation: Operation },
    Fail { effect: Effect },
}

impl View for Eval {
    type V = EvalState;

    closed spec fn view(&self) -> EvalState {
        EvalState {
            next_operator: self.next_operator@,
            call_stack: positions(self.call_stack@),
            effect: self.effect,
            operand_stack: self.operand_stack@,
            memory: self.memory@,
        }
    }
}

impl Eval {
    /// The script that is evaluated.
    pub closed spec fn script(&self) -> ScriptView {
        self.script@
    }

    /// Start the evaluation of a compiled script. No operator is evaluated
    /// yet.
    pub fn new(script: Script) -> (eval: Eval)
        ensures
            eval.script() == script@,
            eval@ == initial_state(),
    {
        let eval = Eval {
            script,
            next_operator: OperatorIndex::new(0),
            call_stack: Vec::new(),
            effect: None,
            operand_stack: OperandStack { values: Vec::new() },
            memory: Memory::new(MEMORY_SIZE),
        };
        assert(eval@ =~= initial_state());
        eval
    }

    /// Compile the source text of a script and start its evaluation. No
    /// operator is evaluated yet.
    pub fn start(script: &str) -> (eval: Eval)
        requires
            compiled(script.spec_bytes()).operators.len() <= u32::MAX,
        ensures
            eval.script() == compiled(script.spec_bytes()),
            eval@ == initial_state(),
    {
        Eval::new(Script::compile(script))
    }

    /// The active effect, if one has triggered.
    pub fn effect(&self) -> (effect: Option<Effect>)
        ensures
            effect == self@.effect,
    {
        self.effect
    }

    /// The operand stack, to look at.
    pub fn operand_stack(&self) -> (stack: &OperandStack)
        ensures
            stack@ == self@.operand_stack,
    {
        &self.operand_stack
    }

    /// The memory, to look at.
    pub fn memory(&self) -> (memory: &Memory)
        ensures
            memory@ == self@.memory,
    {
        &self.memory
    }

    /// The operand stack, to change. What the host leaves there is what the
    /// evaluation goes on with; nothing else changes.
    pub fn operand_stack_mut(&mut self) -> (stack: &mut OperandStack)
        ensures
            stack@ == old(self)@.operand_stack,
            final(self).script() == old(self).script(),
            final(self)@ == (EvalState { operand_stack: final(stack)@, ..old(self)@ }),
    {
        &mut self.operand_stack
    }

    /// The memory, to change. What the host leaves there is what the
    /// evaluation goes on with; nothing else changes.
    pub fn memory_mut(&mut self) -> (memory: &mut Memory)
        ensures
            memory@ == old(self)@.memory,
            final(self).script() == old(self).script(),
            final(self)@ == (EvalState { memory: final(memory)@, ..old(self)@ }),
    {
        &mut self.memory
    }

    /// Clear the active effect, so that evaluation can go on.
    pub fn clear_effect(&mut self)
        ensures
            final(self).script() == old(self).script(),
            final(self)@ == (EvalState { effect: None, ..old(self)@ }),
    {
        self.effect = None;
    }

    /// Advance the evaluation by one step: do nothing while an effect is
    /// active, else evaluate the next operator.
    pub fn step(&mut self)
        ensures
            final(self).script() == old(self).script(),
            final(self)@ == step(old(self).script(), old(self)@),
    {
        if self.effect.is_some() {
            return ;
        }
        match self.evaluate_next_operator() {
            Ok(_) => {},
            Err(effect) => {
                self.effect = Some(effect);
            },
        }
    }

    /// Advance the evaluation until an effect is active, and return that
    /// effect. Where one is active already, nothing is evaluated.
    ///
    /// A script may go on forever without triggering an effect. `run` is for
    /// evaluations that come to rest; `run_for` takes any.
    pub fn run(&mut self) -> (effect: &mut Effect)
        requires
            halts(old(self).script(), old(self)@),
        ensures
            final(self).script() == old(self).script(),
            outcome(old(self).script(), old(self)@).effect == Some(*effect),
            final(self)@ == (EvalState {
                effect: Some(*final(effect)),
                ..outcome(old(self).script(), old(self)@)
            }),
    {
        let ghost script = self.script();
        let ghost total = choose|count: nat|
            (#[trigger] steps(script, old(self)@, count)).effect is Some;
        let ghost mut remaining = total;
        while self.effect.is_none()
            invariant
                self.script() == script,
                steps(script, self@, remaining) == steps(script, old(self)@, total),
                steps(script, old(self)@, total).effect is Some,
            decreases remaining,
        {
            self.step();
            proof {
                remaining = (remaining - 1) as nat;
            }
        }
        proof {
            lemma_steps_at_rest(script, self@, remaining);
        }
        match &mut self.effect {
            Some(effect) => effect,
            None => vstd::pervasive::unreached(),
        }
    }

    /// Advance the evaluation by `limit` steps, or until an effect is active
    /// if that comes first. Return the effect that is active then, if any.
    pub fn run_for(&mut self, limit: u64) -> (effect: Option<Effect>)
        ensures
            final(self).script() == old(self).script(),
            final(self)@ == steps(old(self).script(), old(self)@, limit as nat),
            final(self)@.effect == effect,
    {
        let ghost script = self.script();
        let mut done: u64 = 0;
        while done < limit && self.effect.is_none()
            invariant
                done <= limit,
                self.script() == script,
                self@ == steps(script, old(self)@, done as nat),
            decreases limit - done,
        {
            let ghost before = self@;
            self.step();
            done += 1;
            proof {
                lemma_steps_add(script, old(self)@, (done - 1) as nat, 1);
                assert(steps(script, before, 1) == step(script, before)) by {
                    reveal_with_fuel(steps, 2);
                }
            }
        }
        proof {
            if done < limit {
                lemma_steps_add(script, old(self)@, done as nat, (limit - done) as nat);
                lemma_steps_at_rest(script, self@, (limit - done) as nat);
            }
        }
        self.effect
    }

    /// Evaluate the operator at the cursor.
    fn evaluate_next_operator(&mut self) -> (result: Result<(), Effect>)
        requires
            old(self).effect is None,
        ensures
            final(self).script() == old(self).script(),
            match result {
                Ok(_) => final(self)@ == evaluate(old(self).script(), old(self)@),
                Err(effect) => final(self)@.trigger(effect) == evaluate(
                    old(self).script(),
                    old(self)@,
                ),
            },
    {
        let decoded = match self.script.get_operator(self.next_operator) {
            Ok(Operator::Integer { value }) => Decoded::Push { value: *value },
            Ok(Operator::Reference { name }) => match self.script.resolve_reference(
                name.as_str(),
            ) {
                Ok(target) => Decoded::Push { value: Value::from(target.position()) },
                Err(_) => Decoded::Fail { effect: Effect::InvalidReference },
            },
            Ok(Operator::Identifier { value }) => match identify(value.as_str()) {
                Some(operation) => Decoded::Apply { operation },
                None => Decoded::Fail { effect: Effect::UnknownIdentifier },
            },
            Err(_) => {
                assert(self@.trigger(Effect::OutOfOperators) =~= evaluate(self.script(), self@));
                return Err(Effect::OutOfOperators);
            },
        };
        let next = self.next_operator.position() + 1;
        self.jump(next);
        match decoded {
            Decoded::Push { value } => {
                self.push(value);
                Ok(())
            },
            Decoded::Apply { operation } => self.apply(operation),
            Decoded::Fail { effect } => Err(effect),
        }
    }

    /// Apply `operation` to the state.
    fn apply(&mut self, operation: Operation) -> (result: Result<(), Effect>)
        requires
            old(self).effect is None,
        ensures
            final(self).script() == old(self).script(),
            match result {
                Ok(_) => final(self)@ == apply(operation, old(self)@),
                Err(effect) => final(self)@.trigger(effect) == apply(operation, old(self)@),
            },
    {
        match operation {
            Operation::Multiply
            | Operation::Add
            | Operation::Subtract
            | Operation::Less
            | Operation::LessOrEqual
            | Operation::Equal
            | Operation::Greater
            | Operation::GreaterOrEqual
            | Operation::And
            | Operation::Or
            | Operation::Xor
            | Operation::RotateLeft
            | Operation::RotateRight
            | Operation::ShiftLeft
            | Operation::ShiftRight => self.apply_binary(operation),
            Operation::CountOnes
            | Operation::LeadingZeros
            | Operation::TrailingZeros => self.apply_unary(operation),
            Operation::Divide => self.divide(),
            Operation::Copy => self.copy(),
            Operation::Drop => self.drop(),
            Operation::Jump => self.jump_to_operand(),
            Operation::JumpIf => self.jump_if(),
            Operation::Call => self.call(),
            Operation::CallEither => self.call_either(),
            Operation::Return => self.return_from_call(),
            Operation::Assert => self.assert_operand(),
            Operation::Yield => {
                reveal(apply);
                Err(Effect::Yield)
            },
            Operation::Read => self.read(),
            Operation::Write => self.write(),
        }
    }

    /// Apply an operation that takes two operands and gives one word.
    fn apply_binary(&mut self, operation: Operation) -> (result: Result<(), Effect>)
        requires
            old(self).effect is None,
            is_binary(operation),
        ensures
            final(self).script() == old(self).script(),
            match result {
                Ok(_) => final(self)@ == apply(operation, old(self)@),
                Err(effect) => final(self)@.trigger(effect) == apply(operation, old(self)@),
            },
    {
        reveal(apply);
        let (a, b) = match self.pop_two() {
            Ok(operands) => operands,
            Err(effect) => {
                return Err(effect);
            },
        };
        self.push(compute_binary(operation, a, b));
        Ok(())
    }

    /// Apply an operation that takes one operand and gives one word.
    fn apply_unary(&mut self, operation: Operation) -> (result: Result<(), Effect>)
        requires
            old(self).effect is None,
            is_unary(operation),
        ensures
            final(self).script() == old(self).script(),
            match result {
                Ok(_) => final(self)@ == apply(operation, old(self)@),
                Err(effect) => final(self)@.trigger(effect) == apply(operation, old(self)@),
            },
    {
        reveal(apply);
        let a = match self.pop_one() {
            Ok(operand) => operand,
            Err(effect) => {
                return Err(effect);
            },
        };
        self.push(compute_unary(operation, a));
        Ok(())
    }

    /// `/`: divide the first operand by the second, both read as signed
    /// integers, and push the quotient, then the remainder.
    fn divide(&mut self) -> (result: Result<(), Effect>)
        requires
            old(self).effect is None,
        ensures
            final(self).script() == old(self).script(),
            match result {
                Ok(_) => final(self)@ == apply(Operation::Divide, old(self)@),
                Err(effect) => final(self)@.trigger(effect) == apply(
                    Operation::Divide,
                    old(self)@,
                ),
            },
    {
        reveal(apply);
        let (a, b) = match self.pop_two() {
            Ok(operands) => operands,
            Err(effect) => {
                return Err(effect);
            },
        };
        let a = a.to_i32();
        let b = b.to_i32();
        if b == 0 {
            return Err(Effect::DivisionByZero);
        }
        proof {
            if !(a == i32::MIN && b == -1) {
                lemma_division_in_range(a as int, b as int);
            }
        }
        let (q, r) = match (a.checked_div(b), a.checked_rem(b)) {
            (Some(q), Some(r)) => (q, r),
            _ => {
                return Err(Effect::IntegerOverflow);
            },
        };
        assert(q == quotient(a as int, b as int));
        assert(r == remainder(a as int, b as int));
        self.push(Value::from(q));
        self.push(Value::from(r));
        Ok(())
    }

    /// `copy`: push a copy of the value that the popped index names.
    fn copy(&mut self) -> (result: Result<(), Effect>)
        requires
            old(self).effect is None,
        ensures
            final(self).script() == old(self).script(),
            match result {
                Ok(_) => final(self)@ == apply(Operation::Copy, old(self)@),
                Err(effect) => final(self)@.trigger(effect) == apply(Operation::Copy, old(self)@),
            },
    {
        reveal(apply);
        let index = match self.pop_one() {
            Ok(operand) => operand,
            Err(effect) => {
                return Err(effect);
            },
        };
        match self.operand_stack.get(index.to_usize()) {
            Ok(value) => {
                self.push(value);
                Ok(())
            },
            Err(_) => Err(Effect::InvalidOperandStackIndex),
        }
    }

    /// `drop`: remove the value that the popped index names.
    fn drop(&mut self) -> (result: Result<(), Effect>)
        requires
            old(self).effect is None,
        ensures
            final(self).script() == old(self).script(),
            match result {
                Ok(_) => final(self)@ == apply(Operation::Drop, old(self)@),
                Err(effect) => final(self)@.trigger(effect) == apply(Operation::Drop, old(self)@),
            },
    {
        reveal(apply);
        let index = match self.pop_one() {
            Ok(operand) => operand,
            Err(effect) => {
                return Err(effect);
            },
        };
        match self.operand_stack.remove(index.to_usize()) {
            Ok(_) => {
                assert(self@ =~= apply(Operation::Drop, old(self)@));
                Ok(())
            },
            Err(_) => Err(Effect::InvalidOperandStackIndex),
        }
    }

    /// `jump`: go on at the operator that the popped index names.
    fn jump_to_operand(&mut self) -> (result: Result<(), Effect>)
        requires
            old(self).effect is None,
        ensures
            final(self).script() == old(self).script(),
            match result {
                Ok(_) => final(self)@ == apply(Operation::Jump, old(self)@),
                Err(effect) => final(self)@.trigger(effect) == apply(Operation::Jump, old(self)@),
            },
    {
        reveal(apply);
        let target = match self.pop_one() {
            Ok(operand) => operand,
            Err(effect) => {
                return Err(effect);
            },
        };
        self.jump(target.to_u32());
        Ok(())
    }

    /// `jump_if`: pop an index and a condition, and go on at the operator
    /// that the index names unless the condition is zero.
    fn jump_if(&mut self) -> (result: Result<(), Effect>)
        requires
            old(self).effect is None,
        ensures
            final(self).script() == old(self).script(),
            match result {
                Ok(_) => final(self)@ == apply(Operation::JumpIf, old(self)@),
                Err(effect) => final(self)@.trigger(effect) == apply(
                    Operation::JumpIf,
                    old(self)@,
                ),
            },
    {
        reveal(apply);
        let (condition, target) = match self.pop_two() {
            Ok(operands) => operands,
            Err(effect) => {
                return Err(effect);
            },
        };
        if condition.to_u32() != 0 {
            self.jump(target.to_u32());
        }
        Ok(())
    }

    /// `call`: keep the cursor as a return address, and go on at the
    /// operator that the popped index names.
    fn call(&mut self) -> (result: Result<(), Effect>)
        requires
            old(self).effect is None,
        ensures
            final(self).script() == old(self).script(),
            match result {
                Ok(_) => final(self)@ == apply(Operation::Call, old(self)@),
                Err(effect) => final(self)@.trigger(effect) == apply(Operation::Call, old(self)@),
            },
    {
        reveal(apply);
        self.push_return_address();
        let target = match self.pop_one() {
            Ok(operand) => operand,
            Err(effect) => {
                return Err(effect);
            },
        };
        self.jump(target.to_u32());
        Ok(())
    }

    /// `call_either`: keep the cursor as a return address; pop two indices
    /// and a condition, and go on at the operator that the first index names
    /// unless the condition is zero, else at the one that the second names.
    fn call_either(&mut self) -> (result: Result<(), Effect>)
        requires
            old(self).effect is None,
        ensures
            final(self).script() == old(self).script(),
            match result {
                Ok(_) => final(self)@ == apply(Operation::CallEither, old(self)@),
                Err(effect) => final(self)@.trigger(effect) == apply(
                    Operation::CallEither,
                    old(self)@,
                ),
            },
    {
        reveal(apply);
        self.push_return_address();
        let ghost called = self@;
        let (then_target, else_target) = match self.pop_two() {
            Ok(operands) => operands,
            Err(effect) => {
                return Err(effect);
            },
        };
        let condition = match self.pop_one() {
            Ok(operand) => operand,
            Err(effect) => {
                assert(self@.trigger(effect) =~= called.underflow());
                return Err(effect);
            },
        };
        assert(self@ =~= called.pop(3));
        if condition.to_u32() != 0 {
            self.jump(then_target.to_u32());
        } else {
            self.jump(else_target.to_u32());
        }
        Ok(())
    }

    /// `return`: go on at the return address of the latest call that has not
    /// returned.
    fn return_from_call(&mut self) -> (result: Result<(), Effect>)
        requires
            old(self).effect is None,
        ensures
            final(self).script() == old(self).script(),
            match result {
                Ok(_) => final(self)@ == apply(Operation::Return, old(self)@),
                Err(effect) => final(self)@.trigger(effect) == apply(
                    Operation::Return,
                    old(self)@,
                ),
            },
    {
        reveal(apply);
        match self.call_stack.pop() {
            Some(address) => {
                self.next_operator = address;
                assert(self@ =~= apply(Operation::Return, old(self)@));
                Ok(())
            },
            None => Err(Effect::Return),
        }
    }

    /// `assert`: pop a condition, which must not be zero.
    fn assert_operand(&mut self) -> (result: Result<(), Effect>)
        requires
            old(self).effect is None,
        ensures
            final(self).script() == old(self).script(),
            match result {
                Ok(_) => final(self)@ == apply(Operation::Assert, old(self)@),
                Err(effect) => final(self)@.trigger(effect) == apply(
                    Operation::Assert,
                    old(self)@,
                ),
            },
    {
        reveal(apply);
        let condition = match self.pop_one() {
            Ok(operand) => operand,
            Err(effect) => {
                return Err(effect);
            },
        };
        if condition.to_u32() == 0 {
            return Err(Effect::AssertionFailed);
        }
        Ok(())
    }

    /// `read`: pop an address, and push the word that the memory holds
    /// there.
    fn read(&mut self) -> (result: Result<(), Effect>)
        requires
            old(self).effect is None,
        ensures
            final(self).script() == old(self).script(),
            match result {
                Ok(_) => final(self)@ == apply(Operation::Read, old(self)@),
                Err(effect) => final(self)@.trigger(effect) == apply(Operation::Read, old(self)@),
            },
    {
        reveal(apply);
        let address = match self.pop_one() {
            Ok(operand) => operand,
            Err(effect) => {
                return Err(effect);
            },
        };
        match self.memory.read(address.to_u32()) {
            Ok(value) => {
                self.push(value);
                Ok(())
            },
            Err(_) => Err(Effect::InvalidAddress),
        }
    }

    /// `write`: pop a value and an address, and store the value in the
    /// memory there.
    fn write(&mut self) -> (result: Result<(), Effect>)
        requires
            old(self).effect is None,
        ensures
            final(self).script() == old(self).script(),
            match result {
                Ok(_) => final(self)@ == apply(Operation::Write, old(self)@),
                Err(effect) => final(self)@.trigger(effect) == apply(
                    Operation::Write,
                    old(self)@,
                ),
            },
    {
        reveal(apply);
        let (address, value) = match self.pop_two() {
            Ok(operands) => operands,
            Err(effect) => {
                return Err(effect);
            },
        };
        match self.memory.write(address.to_u32(), value) {
            Ok(_) => {
                assert(self@ =~= apply(Operation::Write, old(self)@));
                Ok(())
            },
            Err(_) => Err(Effect::InvalidAddress),
        }
    }

    /// Pop the value at the top of the operand stack, for an operator that
    /// has popped nothing yet.
    fn pop_one(&mut self) -> (result: Result<Value, Effect>)
        requires
            old(self).effect is None,
        ensures
            final(self).script() == old(self).script(),
            match result {
                Ok(value) => {
                    &&& old(self)@.depth() >= 1
                    &&& value@ == old(self)@.operand(0)
                    &&& final(self)@ == old(self)@.pop(1)
                },
                Err(effect) => {
                    &&& old(self)@.depth() < 1
                    &&& final(self)@.trigger(effect) == old(self)@.underflow()
                },
            },
    {
        match self.pop() {
            Ok(value) => Ok(value),
            Err(effect) => {
                assert(self@.trigger(effect) =~= old(self)@.underflow());
                Err(effect)
            },
        }
    }

    /// Pop the two values at the top of the operand stack: the one that was
    /// pushed first, then the one that was pushed last.
    fn pop_two(&mut self) -> (result: Result<(Value, Value), Effect>)
        requires
            old(self).effect is None,
        ensures
            final(self).script() == old(self).script(),
            match result {
                Ok((a, b)) => {
                    &&& old(self)@.depth() >= 2
                    &&& a@ == old(self)@.operand(1)
                    &&& b@ == old(self)@.operand(0)
                    &&& final(self)@ == old(self)@.pop(2)
                },
                Err(effect) => {
                    &&& old(self)@.depth() < 2
                    &&& final(self)@.trigger(effect) == old(self)@.underflow()
                },
            },
    {
        let b = match self.pop() {
            Ok(value) => value,
            Err(effect) => {
                assert(self@.trigger(effect) =~= old(self)@.underflow());
                return Err(effect);
            },
        };
        let a = match self.pop() {
            Ok(value) => value,
            Err(effect) => {
                assert(self@.trigger(effect) =~= old(self)@.underflow());
                return Err(effect);
            },
        };
        assert(self@ =~= old(self)@.pop(2));
        Ok((a, b))
    }

    /// Pop the top of the operand stack.
    fn pop(&mut self) -> (result: Result<Value, Effect>)
        ensures
            final(self).script() == old(self).script(),
            match result {
                Ok(value) => {
                    &&& old(self)@.depth() > 0
                    &&& value@ == old(self)@.operand(0)
                    &&& final(self)@ == old(self)@.pop(1)
                },
                Err(effect) => {
                    &&& old(self)@.depth() == 0
                    &&& effect == Effect::OperandStackUnderflow
                    &&& final(self)@ == old(self)@
                },
            },
    {
        match self.operand_stack.pop() {
            Ok(value) => {
                assert(self@ =~= old(self)@.pop(1));
                Ok(value)
            },
            Err(_) => Err(Effect::OperandStackUnderflow),
        }
    }

    /// Push a value to the operand stack.
    fn push(&mut self, value: Value)
        ensures
            final(self).script() == old(self).script(),
            final(self)@ == old(self)@.push(value@),
    {
        self.operand_stack.push(value);
    }

    /// Set the cursor to the operator at `target`.
    fn jump(&mut self, target: u32)
        ensures
            final(self).script() == old(self).script(),
            final(self)@ == old(self)@.jump(target),
    {
        self.next_operator = OperatorIndex::new(target);
    }

    /// Push the cursor to the call stack as a return address.
    fn push_return_address(&mut self)
        ensures
            final(self).script() == old(self).script(),
            final(self)@ == (EvalState {
                call_stack: old(self)@.call_stack.push(old(self)@.next_operator),
                ..old(self)@
            }),
    {
        self.call_stack.push(self.next_operator);
        assert(self@ =~= (EvalState {
            call_stack: old(self)@.call_stack.push(old(self)@.next_operator),
            ..old(self)@
        }));
    }
}

} // verus!
