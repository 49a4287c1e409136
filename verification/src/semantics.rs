//! What evaluating a script means: a state, and the state that one step
//! leads to.

use vstd::prelude::*;
use vstd::std_specs::bits::{u32_leading_zeros, u32_trailing_zeros};
use vstd::string::StringSliceAdditionalSpecFns;

use crate::effect::Effect;
use crate::syntax::{resolve, OperatorView, ScriptView};
use crate::value::{signed, unsigned};

verus! {

/// The operations that the language knows by name.
#[derive(Clone, Copy, Debug, PartialEq, Eq, Structural)]
pub enum Operation {
    Multiply,
    Add,
    Subtract,
    Divide,
    Less,
    LessOrEqual,
    Equal,
    Greater,
    GreaterOrEqual,
    And,
    Or,
    Xor,
    CountOnes,
    LeadingZeros,
    TrailingZeros,
    RotateLeft,
    RotateRight,
    ShiftLeft,
    ShiftRight,
    Copy,
    Drop,
    Jump,
    JumpIf,
    Call,
    CallEither,
    Return,
    Assert,
    Yield,
    Read,
    Write,
}

/// The operation that the identifier `name` names, if it names one.
#[verifier::opaque]
pub open spec fn operation_of(name: Seq<u8>) -> Option<Operation> {
    if name == "*".spec_bytes() {
        Some(Operation::Multiply)
    } else if name == "+".spec_bytes() {
        Some(Operation::Add)
    } else if name == "-".spec_bytes() {
        Some(Operation::Subtract)
    } else if name == "/".spec_bytes() {
        Some(Operation::Divide)
    } else if name == "<".spec_bytes() {
        Some(Operation::Less)
    } else if name == "<=".spec_bytes() {
        Some(Operation::LessOrEqual)
    } else if name == "=".spec_bytes() {
        Some(Operation::Equal)
    } else if name == ">".spec_bytes() {
        Some(Operation::Greater)
    } else if name == ">=".spec_bytes() {
        Some(Operation::GreaterOrEqual)
    } else if name == "and".spec_bytes() {
        Some(Operation::And)
    } else if name == "or".spec_bytes() {
        Some(Operation::Or)
    } else if name == "xor".spec_bytes() {
        Some(Operation::Xor)
    } else if name == "count_ones".spec_bytes() {
        Some(Operation::CountOnes)
    } else if name == "leading_zeros".spec_bytes() {
        Some(Operation::LeadingZeros)
    } else if name == "trailing_zeros".spec_bytes() {
        Some(Operation::TrailingZeros)
    } else if name == "rotate_left".spec_bytes() {
        Some(Operation::RotateLeft)
    } else if name == "rotate_right".spec_bytes() {
        Some(Operation::RotateRight)
    } else if name == "shift_left".spec_bytes() {
        Some(Operation::ShiftLeft)
    } else if name == "shift_right".spec_bytes() {
        Some(Operation::ShiftRight)
    } else if name == "copy".spec_bytes() {
        Some(Operation::Copy)
    } else if name == "drop".spec_bytes() {
        Some(Operation::Drop)
    } else if name == "jump".spec_bytes() {
        Some(Operation::Jump)
    } else if name == "jump_if".spec_bytes() {
        Some(Operation::JumpIf)
    } else if name == "call".spec_bytes() {
        Some(Operation::Call)
    } else if name == "call_either".spec_bytes() {
        Some(Operation::CallEither)
    } else if name == "return".spec_bytes() {
        Some(Operation::Return)
    } else if name == "assert".spec_bytes() {
        Some(Operation::Assert)
    } else if name == "yield".spec_bytes() {
        Some(Operation::Yield)
    } else if name == "read".spec_bytes() {
        Some(Operation::Read)
    } else if name == "write".spec_bytes() {
        Some(Operation::Write)
    } else {
        None
    }
}

/// The word that holds `number` modulo 2^32.
pub open spec fn wrap(number: int) -> u32 {
    (number % 0x1_0000_0000) as u32
}

/// The word for a truth value: `1` for true, `0` for false.
pub open spec fn truth(condition: bool) -> u32 {
    if condition {
        1
    } else {
        0
    }
}

/// The absolute value of a number.
pub open spec fn magnitude(number: int) -> int {
    if number < 0 {
        -number
    } else {
        number
    }
}

/// The quotient of `a` by `b`, rounded toward zero.
pub open spec fn quotient(a: int, b: int) -> int
    recommends
        b != 0,
{
    if (a < 0) == (b < 0) {
        magnitude(a) / magnitude(b)
    } else {
        -(magnitude(a) / magnitude(b))
    }
}

/// What is left of `a` when `b` times the quotient is taken from it. It has
/// the sign of `a`.
pub open spec fn remainder(a: int, b: int) -> int
    recommends
        b != 0,
{
    if a < 0 {
        -(magnitude(a) % magnitude(b))
    } else {
        magnitude(a) % magnitude(b)
    }
}

/// But for the lowest signed integer divided by `-1`, the quotient and the
/// remainder of two signed 32-bit integers are signed 32-bit integers.
pub proof fn lemma_division_in_range(a: int, b: int)
    requires
        i32::MIN <= a <= i32::MAX,
        i32::MIN <= b <= i32::MAX,
        b != 0,
        !(a == i32::MIN && b == -1),
    ensures
        i32::MIN <= quotient(a, b) <= i32::MAX,
        i32::MIN <= remainder(a, b) <= i32::MAX,
{
    let m = magnitude(a);
    let n = magnitude(b);
    assert(0 <= m / n <= m && 0 <= m % n < n && (n >= 2 ==> 2 * (m / n) <= m))
        by (nonlinear_arith)
        requires
            m >= 0,
            n >= 1,
    ;
    assert(n == 1 ==> m / n == m) by (nonlinear_arith);
}

/// The number of bits of `word` that are `1`.
pub open spec fn count_ones(word: u32) -> nat
    decreases word,
{
    if word == 0 {
        0
    } else {
        (word % 2) as nat + count_ones(word / 2)
    }
}

/// `word` with its bits moved `places` (modulo 32) to the left; the bits
/// that leave at the top come back in at the bottom.
pub open spec fn rotate_left(word: u32, places: u32) -> u32 {
    (word << (places % 32)) | (word >> (((32 - places % 32) % 32) as u32))
}

/// `word` with its bits moved `places` (modulo 32) to the right; the bits
/// that leave at the bottom come back in at the top.
pub open spec fn rotate_right(word: u32, places: u32) -> u32 {
    (word >> (places % 32)) | (word << (((32 - places % 32) % 32) as u32))
}

/// `word` with its bits moved `places` (modulo 32) to the left; the bits
/// that leave at the top are lost, and zeros come in at the bottom.
pub open spec fn shift_left(word: u32, places: u32) -> u32 {
    word << (places % 32)
}

/// `word`, read as a signed integer, with its bits moved `places` (modulo
/// 32) to the right; the bits that leave at the bottom are lost, and copies
/// of the sign bit come in at the top.
pub open spec fn shift_right(word: u32, places: u32) -> u32 {
    ((word as i32) >> (places % 32)) as u32
}

/// Whether `operation` takes two operands and gives one word, whatever the
/// operands are.
pub open spec fn is_binary(operation: Operation) -> bool {
    match operation {
        Operation::Multiply
        | Operation::Add
        | Operation::Subtract
        | Operation::Less
        | Operation::LessOrEqual
        | Operation::Equal
        | Operation::Greater
        | Operation::GreaterOrEqual
        | Operation::And
        | Operation::Or
        | Operation::Xor
        | Operation::RotateLeft
        | Operation::RotateRight
        | Operation::ShiftLeft
        | Operation::ShiftRight => true,
        _ => false,
    }
}

/// The word that a binary operation gives for the operands `a` and `b`, where
/// `a` was pushed before `b`. Arithmetic wraps modulo 2^32; comparisons read
/// their operands as signed integers.
pub open spec fn binary(operation: Operation, a: u32, b: u32) -> u32
    recommends
        is_binary(operation),
{
    match operation {
        Operation::Multiply => wrap(a * b),
        Operation::Add => wrap(a + b),
        Operation::Subtract => wrap(a - b),
        Operation::Less => truth(signed(a) < signed(b)),
        Operation::LessOrEqual => truth(signed(a) <= signed(b)),
        Operation::Equal => truth(a == b),
        Operation::Greater => truth(signed(a) > signed(b)),
        Operation::GreaterOrEqual => truth(signed(a) >= signed(b)),
        Operation::And => a & b,
        Operation::Or => a | b,
        Operation::Xor => a ^ b,
        Operation::RotateLeft => rotate_left(a, b),
        Operation::RotateRight => rotate_right(a, b),
        Operation::ShiftLeft => shift_left(a, b),
        _ => shift_right(a, b),
    }
}

/// Whether `operation` takes one operand and gives one word.
pub open spec fn is_unary(operation: Operation) -> bool {
    match operation {
        Operation::CountOnes | Operation::LeadingZeros | Operation::TrailingZeros => true,
        _ => false,
    }
}

/// The word that a unary operation gives for the operand `a`.
pub open spec fn unary(operation: Operation, a: u32) -> u32
    recommends
        is_unary(operation),
{
    match operation {
        Operation::CountOnes => count_ones(a) as u32,
        Operation::LeadingZeros => u32_leading_zeros(a),
        _ => u32_trailing_zeros(a),
    }
}

/// The state of an evaluation, as plain values.
#[verifier::ext_equal]
pub struct EvalState {
    /// The index of the operator that is evaluated next.
    pub next_operator: u32,
    /// The return addresses of the calls that have not returned, oldest first.
    pub call_stack: Seq<u32>,
    /// The effect that is active, if any. While one is, nothing is evaluated.
    pub effect: Option<Effect>,
    /// The operand stack, bottom first.
    pub operand_stack: Seq<u32>,
    /// The memory, by address.
    pub memory: Seq<u32>,
}

impl EvalState {
    /// How many words are on the operand stack.
    pub open spec fn depth(self) -> int {
        self.operand_stack.len() as int
    }

    /// The operand that is `below` places below the top of the stack.
    pub open spec fn operand(self, below: int) -> u32
        recommends
            0 <= below < self.depth(),
    {
        self.operand_stack[self.depth() - 1 - below]
    }

    /// This state with `effect` triggered.
    pub open spec fn trigger(self, effect: Effect) -> EvalState {
        EvalState { effect: Some(effect), ..self }
    }

    /// This state with the top `count` operands taken off the stack.
    pub open spec fn pop(self, count: int) -> EvalState
        recommends
            0 <= count <= self.depth(),
    {
        EvalState { operand_stack: self.operand_stack.take(self.depth() - count), ..self }
    }

    /// This state with `word` pushed to the stack.
    pub open spec fn push(self, word: u32) -> EvalState {
        EvalState { operand_stack: self.operand_stack.push(word), ..self }
    }

    /// This state with evaluation set to go on at `target`.
    pub open spec fn jump(self, target: u32) -> EvalState {
        EvalState { next_operator: target, ..self }
    }

    /// This state after an operator found fewer operands than it takes: it
    /// has popped those that were there, and triggered the effect.
    pub open spec fn underflow(self) -> EvalState {
        self.pop(self.depth()).trigger(Effect::OperandStackUnderflow)
    }
}

/// The state after `operation` was applied to `state`, in which the cursor
/// stands behind the operator already.
#[verifier::opaque]
pub open spec fn apply(operation: Operation, state: EvalState) -> EvalState {
    if is_binary(operation) {
        if state.depth() < 2 {
            state.underflow()
        } else {
            state.pop(2).push(binary(operation, state.operand(1), state.operand(0)))
        }
    } else if is_unary(operation) {
        if state.depth() < 1 {
            state.underflow()
        } else {
            state.pop(1).push(unary(operation, state.operand(0)))
        }
    } else {
        match operation {
            Operation::Divide => {
                let a = signed(state.operand(1));
                let b = signed(state.operand(0));
                if state.depth() < 2 {
                    state.underflow()
                } else if b == 0 {
                    state.pop(2).trigger(Effect::DivisionByZero)
                } else if a == i32::MIN && b == -1 {
                    state.pop(2).trigger(Effect::IntegerOverflow)
                } else {
                    state.pop(2).push(unsigned(quotient(a, b))).push(unsigned(remainder(a, b)))
                }
            },
            Operation::Copy => {
                let index = state.operand(0);
                if state.depth() < 1 {
                    state.underflow()
                } else if index >= state.depth() - 1 {
                    state.pop(1).trigger(Effect::InvalidOperandStackIndex)
                } else {
                    state.pop(1).push(state.pop(1).operand(index as int))
                }
            },
            Operation::Drop => {
                let index = state.operand(0);
                if state.depth() < 1 {
                    state.underflow()
                } else if index >= state.depth() - 1 {
                    state.pop(1).trigger(Effect::InvalidOperandStackIndex)
                } else {
                    EvalState {
                        operand_stack: state.pop(1).operand_stack.remove(
                            state.depth() - 2 - index,
                        ),
                        ..state
                    }
                }
            },
            Operation::Jump => {
                if state.depth() < 1 {
                    state.underflow()
                } else {
                    state.pop(1).jump(state.operand(0))
                }
            },
            Operation::JumpIf => {
                if state.depth() < 2 {
                    state.underflow()
                } else if state.operand(1) != 0 {
                    state.pop(2).jump(state.operand(0))
                } else {
                    state.pop(2)
                }
            },
            Operation::Call => {
                let called = EvalState {
                    call_stack: state.call_stack.push(state.next_operator),
                    ..state
                };
                if state.depth() < 1 {
                    called.underflow()
                } else {
                    called.pop(1).jump(state.operand(0))
                }
            },
            Operation::CallEither => {
                let called = EvalState {
                    call_stack: state.call_stack.push(state.next_operator),
                    ..state
                };
                if state.depth() < 3 {
                    called.underflow()
                } else if state.operand(2) != 0 {
                    called.pop(3).jump(state.operand(1))
                } else {
                    called.pop(3).jump(state.operand(0))
                }
            },
            Operation::Return => {
                if state.call_stack.len() == 0 {
                    state.trigger(Effect::Return)
                } else {
                    EvalState {
                        next_operator: state.call_stack.last(),
                        call_stack: state.call_stack.drop_last(),
                        ..state
                    }
                }
            },
            Operation::Assert => {
                if state.depth() < 1 {
                    state.underflow()
                } else if state.operand(0) == 0 {
                    state.pop(1).trigger(Effect::AssertionFailed)
                } else {
                    state.pop(1)
                }
            },
            Operation::Yield => state.trigger(Effect::Yield),
            Operation::Read => {
                let address = state.operand(0);
                if state.depth() < 1 {
                    state.underflow()
                } else if address >= state.memory.len() {
                    state.pop(1).trigger(Effect::InvalidAddress)
                } else {
                    state.pop(1).push(state.memory[address as int])
                }
            },
            _ => {
                let address = state.operand(1);
                if state.depth() < 2 {
                    state.underflow()
                } else if address >= state.memory.len() {
                    state.pop(2).trigger(Effect::InvalidAddress)
                } else {
                    EvalState {
                        memory: state.memory.update(address as int, state.operand(0)),
                        ..state.pop(2)
                    }
                }
            },
        }
    }
}

/// The state after the operator at the cursor was evaluated in `state`. Where
/// the cursor stands behind the last operator, that triggers an effect and
/// changes nothing else. Otherwise the cursor moves on by one before the
/// operator takes its turn, so that a jump overrides the move.
pub open spec fn evaluate(script: ScriptView, state: EvalState) -> EvalState {
    if state.next_operator >= script.operators.len() {
        state.trigger(Effect::OutOfOperators)
    } else {
        let moved = state.jump((state.next_operator + 1) as u32);
        match script.operators[state.next_operator as int] {
            OperatorView::Integer { value } => moved.push(value),
            OperatorView::Reference { name } => match resolve(script.labels, name) {
                Some(target) => moved.push(target as u32),
                None => moved.trigger(Effect::InvalidReference),
            },
            OperatorView::Identifier { name } => match operation_of(name) {
                Some(operation) => apply(operation, moved),
                None => moved.trigger(Effect::UnknownIdentifier),
            },
        }
    }
}

/// The state that one step leads to from `state`: the same state while an
/// effect is active, else the state after the next operator was evaluated.
pub open spec fn step(script: ScriptView, state: EvalState) -> EvalState {
    if state.effect is Some {
        state
    } else {
        evaluate(script, state)
    }
}

/// The state that `count` steps lead to from `state`.
pub open spec fn steps(script: ScriptView, state: EvalState, count: nat) -> EvalState
    decreases count,
{
    if count == 0 {
        state
    } else {
        steps(script, step(script, state), (count - 1) as nat)
    }
}

/// Whether the evaluation triggers an effect after finitely many steps from
/// `state`, if none is active already.
pub open spec fn halts(script: ScriptView, state: EvalState) -> bool {
    exists|count: nat| (#[trigger] steps(script, state, count)).effect is Some
}

/// The state in which the evaluation comes to rest from `state`: the one
/// that it is in when an effect has triggered, where one ever does.
pub open spec fn outcome(script: ScriptView, state: EvalState) -> EvalState
    recommends
        halts(script, state),
{
    steps(script, state, choose|count: nat| (#[trigger] steps(script, state, count)).effect is Some)
}

/// Steps in sequence add up.
pub proof fn lemma_steps_add(script: ScriptView, state: EvalState, first: nat, second: nat)
    ensures
        steps(script, steps(script, state, first), second) == steps(script, state, first + second),
    decreases first,
{
    if first > 0 {
        lemma_steps_add(script, step(script, state), (first - 1) as nat, second);
    }
}

/// While an effect is active, steps change nothing.
pub proof fn lemma_steps_at_rest(script: ScriptView, state: EvalState, count: nat)
    requires
        state.effect is Some,
    ensures
        steps(script, state, count) == state,
    decreases count,
{
    if count > 0 {
        lemma_steps_at_rest(script, state, (count - 1) as nat);
    }
}

/// Evaluation is deterministic, and it comes to rest at the first effect:
/// whenever two numbers of steps both lead to a state with an active effect,
/// they lead to the same state.
pub proof fn lemma_rest_is_unique(script: ScriptView, state: EvalState, first: nat, second: nat)
    requires
        steps(script, state, first).effect is Some,
        steps(script, state, second).effect is Some,
    ensures
        steps(script, state, first) == steps(script, state, second),
{
    if first <= second {
        lemma_steps_add(script, state, first, (second - first) as nat);
        lemma_steps_at_rest(script, steps(script, state, first), (second - first) as nat);
    } else {
        lemma_steps_add(script, state, second, (first - second) as nat);
        lemma_steps_at_rest(script, steps(script, state, second), (first - second) as nat);
    }
}

/// Whatever number of steps leads to an active effect leads to the outcome.
pub proof fn lemma_outcome(script: ScriptView, state: EvalState, count: nat)
    requires
        steps(script, state, count).effect is Some,
    ensures
        halts(script, state),
        outcome(script, state) == steps(script, state, count),
        outcome(script, state).effect is Some,
{
    let chosen = choose|n: nat| (#[trigger] steps(script, state, n)).effect is Some;
    lemma_rest_is_unique(script, state, chosen, count);
}

} // verus!
