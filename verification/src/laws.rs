//! What holds of the language as a whole, proved from the definitions in
//! `syntax` and `semantics`.

use vstd::prelude::*;
use vstd::string::StringSliceAdditionalSpecFns;
use vstd::utf8::{
    encode_scalar, has_width_1_encoding, has_width_2_encoding, has_width_3_encoding,
    is_ascii_chars, last_continuation_byte, leading_byte_width_1, leading_byte_width_2,
    leading_byte_width_3, leading_byte_width_4, second_last_continuation_byte,
};

use crate::effect::Effect;
use crate::semantics::{apply, binary, evaluate, operation_of, wrap, EvalState, Operation};
use crate::syntax::{
    assemble, classify, compiled, comment_end, is_whitespace, lemma_ends_advance,
    starts_whitespace, token_end, tokens, tokens_from, Item, OperatorView, ScriptView, Span,
};
use crate::value::signed;

verus! {

/// `+`, `-` and `*` wrap modulo 2^32 and trigger no effect: with two
/// operands on the stack, they replace them by the sum, the difference or the
/// product modulo 2^32, and change nothing else.
pub proof fn lemma_arithmetic_wraps(operation: Operation, state: EvalState)
    requires
        operation == Operation::Add || operation == Operation::Subtract || operation
            == Operation::Multiply,
        state.depth() >= 2,
    ensures
        apply(operation, state) == state.pop(2).push(
            binary(operation, state.operand(1), state.operand(0)),
        ),
        apply(operation, state).effect == state.effect,
        binary(Operation::Add, state.operand(1), state.operand(0)) == wrap(
            state.operand(1) + state.operand(0),
        ),
        binary(Operation::Subtract, state.operand(1), state.operand(0)) == wrap(
            state.operand(1) - state.operand(0),
        ),
        binary(Operation::Multiply, state.operand(1), state.operand(0)) == wrap(
            state.operand(1) * state.operand(0),
        ),
{
    reveal(apply);
}

/// Adding a multiple of 2^32 to a number does not change the word that
/// holds it.
pub proof fn lemma_wrap_period(number: int, times: int)
    ensures
        wrap(number + times * 0x1_0000_0000) == wrap(number),
{
    vstd::arithmetic::div_mod::lemma_mod_multiples_vanish(times, number, 0x1_0000_0000);
}

/// Wrapping arithmetic does not depend on how the operands are read: the
/// signed readings give the same sum, difference and product modulo 2^32 as
/// the unsigned ones.
pub proof fn lemma_arithmetic_ignores_sign(a: u32, b: u32)
    ensures
        wrap(signed(a) + signed(b)) == wrap(a + b),
        wrap(signed(a) - signed(b)) == wrap(a - b),
        wrap(signed(a) * signed(b)) == wrap(a * b),
{
    let x = a as int;
    let y = b as int;
    let i: int = if a < 0x8000_0000 { 0 } else { 1 };
    let j: int = if b < 0x8000_0000 { 0 } else { 1 };
    lemma_wrap_period(x + y, -i - j);
    lemma_wrap_period(x - y, j - i);
    if i == 0 && j == 0 {
    } else if i == 1 && j == 0 {
        assert((x - 0x1_0000_0000) * y == x * y + (-y) * 0x1_0000_0000) by (nonlinear_arith);
        lemma_wrap_period(x * y, -y);
    } else if i == 0 && j == 1 {
        assert(x * (y - 0x1_0000_0000) == x * y + (-x) * 0x1_0000_0000) by (nonlinear_arith);
        lemma_wrap_period(x * y, -x);
    } else {
        assert((x - 0x1_0000_0000) * (y - 0x1_0000_0000) == x * y + (0x1_0000_0000 - x - y)
            * 0x1_0000_0000) by (nonlinear_arith);
        lemma_wrap_period(x * y, 0x1_0000_0000 - x - y);
    }
}

/// `copy` and `drop` with an index that names no value on the stack trigger
/// an effect: where the index they pop is at least the number of values that
/// are left, they leave those values alone.
pub proof fn lemma_invalid_stack_index(operation: Operation, state: EvalState)
    requires
        operation == Operation::Copy || operation == Operation::Drop,
        state.depth() >= 1,
        state.operand(0) >= state.depth() - 1,
    ensures
        apply(operation, state) == state.pop(1).trigger(Effect::InvalidOperandStackIndex),
{
    reveal(apply);
}

/// `copy` and `drop` with an index that names a value on the stack trigger no
/// effect. `copy` pushes the value that is `index` places below the top of
/// what is left after the index was popped; `drop` removes that value.
pub proof fn lemma_valid_stack_index(state: EvalState)
    requires
        state.depth() >= 1,
        state.operand(0) < state.depth() - 1,
    ensures
        apply(Operation::Copy, state) == state.pop(1).push(
            state.operand(state.operand(0) + 1),
        ),
        apply(Operation::Drop, state).effect == state.effect,
        apply(Operation::Drop, state).operand_stack == state.pop(1).operand_stack.remove(
            state.depth() - 2 - state.operand(0),
        ),
{
    reveal(apply);
}

/// `read` and `write` at an address behind the end of the memory trigger an
/// effect, and leave the memory as it is.
pub proof fn lemma_invalid_address(state: EvalState)
    ensures
        state.depth() >= 1 && state.operand(0) >= state.memory.len() ==> apply(
            Operation::Read,
            state,
        ) == state.pop(1).trigger(Effect::InvalidAddress),
        state.depth() >= 2 && state.operand(1) >= state.memory.len() ==> apply(
            Operation::Write,
            state,
        ) == state.pop(2).trigger(Effect::InvalidAddress),
{
    reveal(apply);
}

/// Within the memory, what `write` stores at an address is what `read` gives
/// back from it, and `write` changes no other word: neither in the memory,
/// whose length stays, nor on the stack below its operands.
pub proof fn lemma_write_then_read(state: EvalState, address: u32, value: u32)
    requires
        address < state.memory.len(),
    ensures
        ({
            let written = apply(Operation::Write, state.push(address).push(value));
            &&& written == (EvalState {
                memory: state.memory.update(address as int, value),
                ..state
            })
            &&& written.memory.len() == state.memory.len()
            &&& forall|other: int|
                0 <= other < state.memory.len() && other != address ==> written.memory[other]
                    == state.memory[other]
            &&& apply(Operation::Read, written.push(address)) == written.push(value)
        }),
{
    reveal(apply);
    let pushed = state.push(address).push(value);
    assert(pushed.pop(2) =~= state);
    let written = apply(Operation::Write, pushed);
    assert(written =~= (EvalState { memory: state.memory.update(address as int, value), ..state }));
    assert(written.push(address).pop(1) =~= written);
}

/// `call` keeps the place behind itself as a return address and goes on at
/// its operand; `return` goes on at the latest return address that is kept,
/// and removes it. So a `return` that finds the call stack as a `call` left
/// it resumes at the operator that follows that `call`, with the call stack
/// as it was before the `call`.
pub proof fn lemma_call_then_return(state: EvalState, later: EvalState)
    requires
        state.depth() >= 1,
        later.call_stack == apply(Operation::Call, state).call_stack,
    ensures
        apply(Operation::Call, state) == (EvalState {
            next_operator: state.operand(0),
            call_stack: state.call_stack.push(state.next_operator),
            ..state.pop(1)
        }),
        apply(Operation::Return, later) == (EvalState {
            next_operator: state.next_operator,
            call_stack: state.call_stack,
            ..later
        }),
{
    reveal(apply);
    assert(state.call_stack.push(state.next_operator).drop_last() =~= state.call_stack);
}

/// `call_either` keeps the place behind itself as a return address, as `call`
/// does, and goes on at the first of its two targets unless its condition is
/// zero, else at the second.
pub proof fn lemma_call_either_then_return(state: EvalState, later: EvalState)
    requires
        state.depth() >= 3,
        later.call_stack == apply(Operation::CallEither, state).call_stack,
    ensures
        apply(Operation::CallEither, state) == (EvalState {
            next_operator: if state.operand(2) != 0 {
                state.operand(1)
            } else {
                state.operand(0)
            },
            call_stack: state.call_stack.push(state.next_operator),
            ..state.pop(3)
        }),
        apply(Operation::Return, later) == (EvalState {
            next_operator: state.next_operator,
            call_stack: state.call_stack,
            ..later
        }),
{
    reveal(apply);
    assert(state.call_stack.push(state.next_operator).drop_last() =~= state.call_stack);
}

/// `return` with an empty call stack triggers the effect of that name and
/// changes nothing else.
pub proof fn lemma_return_from_nowhere(state: EvalState)
    requires
        state.call_stack.len() == 0,
    ensures
        apply(Operation::Return, state) == state.trigger(Effect::Return),
{
    reveal(apply);
}

/// An operator that names an operation is evaluated with the cursor behind
/// it: the place that `call` and `call_either` keep as their return address
/// is the index of the operator that follows them.
pub proof fn lemma_cursor_moves_first(script: ScriptView, state: EvalState, operation: Operation)
    requires
        state.next_operator < script.operators.len(),
        script.operators[state.next_operator as int] matches OperatorView::Identifier { name }
            && operation_of(name) == Some(operation),
    ensures
        evaluate(script, state) == apply(
            operation,
            state.jump((state.next_operator + 1) as u32),
        ),
{
}

/// The bytes at which a whitespace character starts are those that encode
/// one: whatever follows it, the encoding of a character starts whitespace if
/// and only if the character is whitespace.
pub proof fn lemma_whitespace_characters(character: char, rest: Seq<u8>)
    ensures
        starts_whitespace(encode_scalar(character as u32) + rest, 0) == is_whitespace(character),
{
    let code = character as u32;
    let bytes = encode_scalar(code) + rest;
    vstd::utf8::char_is_scalar(character);
    if has_width_1_encoding(code) {
        let first = leading_byte_width_1(code);
        assert(bytes[0] == first);
        assert(first == code) by (bit_vector)
            requires
                code <= 0x7f,
                first == leading_byte_width_1(code),
        ;
    } else if has_width_2_encoding(code) {
        let first = leading_byte_width_2(code);
        let second = last_continuation_byte(code);
        assert(bytes[0] == first && bytes[1] == second);
        assert({
            &&& 0xc0 <= first <= 0xdf
            &&& (first == 0xc2 && second == 0x85) <==> code == 0x85
            &&& (first == 0xc2 && second == 0xa0) <==> code == 0xa0
        }) by (bit_vector)
            requires
                0x80 <= code <= 0x7ff,
                first == leading_byte_width_2(code),
                second == last_continuation_byte(code),
        ;
    } else if has_width_3_encoding(code) {
        let first = leading_byte_width_3(code);
        let second = second_last_continuation_byte(code);
        let third = last_continuation_byte(code);
        assert(bytes[0] == first && bytes[1] == second && bytes[2] == third);
        assert({
            &&& 0xe0 <= first <= 0xef
            &&& (first == 0xe1 && second == 0x9a && third == 0x80) <==> code == 0x1680
            &&& (first == 0xe2 && second == 0x80 && 0x80 <= third <= 0x8a) <==> 0x2000 <= code
                <= 0x200a
            &&& (first == 0xe2 && second == 0x80 && third == 0xa8) <==> code == 0x2028
            &&& (first == 0xe2 && second == 0x80 && third == 0xa9) <==> code == 0x2029
            &&& (first == 0xe2 && second == 0x80 && third == 0xaf) <==> code == 0x202f
            &&& (first == 0xe2 && second == 0x81 && third == 0x9f) <==> code == 0x205f
            &&& (first == 0xe3 && second == 0x80 && third == 0x80) <==> code == 0x3000
        }) by (bit_vector)
            requires
                0x800 <= code <= 0xffff,
                first == leading_byte_width_3(code),
                second == second_last_continuation_byte(code),
                third == last_continuation_byte(code),
        ;
    } else {
        let first = leading_byte_width_4(code);
        assert(bytes[0] == first);
        assert(first >= 0xf0) by (bit_vector)
            requires
                first == leading_byte_width_4(code),
        ;
    }
}

/// Every token lies within the text, behind the place from which the tokens
/// were taken, and is not empty.
pub proof fn lemma_tokens_in_bounds(bytes: Seq<u8>, at: int, k: int)
    requires
        0 <= at,
        0 <= k < tokens_from(bytes, at).len(),
    ensures
        at <= tokens_from(bytes, at)[k].start < tokens_from(bytes, at)[k].end <= bytes.len(),
        tokens_from(bytes, at)[k].end == token_end(bytes, tokens_from(bytes, at)[k].start),
    decreases bytes.len() - at,
{
    if at >= bytes.len() {
    } else if bytes[at] == 0x23 {
        lemma_ends_advance(bytes, at + 1);
        lemma_tokens_in_bounds(bytes, comment_end(bytes, at), k);
    } else if starts_whitespace(bytes, at) || vstd::utf8::is_continuation_byte(
        bytes[at],
    ) {
        lemma_tokens_in_bounds(bytes, at + 1, k);
    } else {
        lemma_ends_advance(bytes, at + 1);
        if k > 0 {
            lemma_tokens_in_bounds(bytes, token_end(bytes, at), k - 1);
        }
    }
}

/// What holds of a script that was made of tokens: it has one entry in the
/// source map for each operator; the entry is one of the tokens, and that
/// token stands for that operator. Each label names an operator of the script
/// or the place behind the last one.
pub proof fn lemma_assembled(bytes: Seq<u8>, tokens: Seq<Span>)
    ensures
        assemble(bytes, tokens).source_map.len() == assemble(bytes, tokens).operators.len(),
        assemble(bytes, tokens).operators.len() + assemble(bytes, tokens).labels.len()
            == tokens.len(),
        forall|index: int|
            0 <= index < assemble(bytes, tokens).operators.len() ==> {
                let span = #[trigger] assemble(bytes, tokens).source_map[index];
                &&& tokens.contains(span)
                &&& classify(bytes.subrange(span.start, span.end)) == Item::Operator {
                    operator: assemble(bytes, tokens).operators[index],
                }
            },
        forall|index: int|
            0 <= index < assemble(bytes, tokens).labels.len() ==> 0 <= (#[trigger] assemble(
                bytes,
                tokens,
            ).labels[index]).operator <= assemble(bytes, tokens).operators.len(),
    decreases tokens.len(),
{
    if tokens.len() > 0 {
        let shorter = tokens.drop_last();
        lemma_assembled(bytes, shorter);
        let before = assemble(bytes, shorter);
        let after = assemble(bytes, tokens);
        assert forall|index: int| 0 <= index < after.operators.len() implies {
            let span = #[trigger] after.source_map[index];
            &&& tokens.contains(span)
            &&& classify(bytes.subrange(span.start, span.end)) == Item::Operator {
                operator: after.operators[index],
            }
        } by {
            let span = after.source_map[index];
            if index < before.operators.len() {
                assert(span == before.source_map[index]);
                let k = choose|k: int| 0 <= k < shorter.len() && shorter[k] == span;
                assert(tokens[k] == span);
            } else {
                assert(tokens[tokens.len() - 1] == span);
            }
        }
    }
}

/// Compiling keeps track of the source: for each operator of a compiled
/// script, the source map names the bytes of one token of the text, which
/// lies within the text, and that token stands for that operator.
pub proof fn lemma_source_map_round_trip(bytes: Seq<u8>, index: int)
    requires
        0 <= index < compiled(bytes).operators.len(),
    ensures
        compiled(bytes).source_map.len() == compiled(bytes).operators.len(),
        tokens(bytes).contains(compiled(bytes).source_map[index]),
        0 <= compiled(bytes).source_map[index].start < compiled(bytes).source_map[index].end
            <= bytes.len(),
        classify(
            bytes.subrange(
                compiled(bytes).source_map[index].start,
                compiled(bytes).source_map[index].end,
            ),
        ) == (Item::Operator { operator: compiled(bytes).operators[index] }),
{
    lemma_assembled(bytes, tokens(bytes));
    let span = compiled(bytes).source_map[index];
    let k = choose|k: int| 0 <= k < tokens(bytes).len() && tokens(bytes)[k] == span;
    lemma_tokens_in_bounds(bytes, 0, k);
}

/// A script has no more operators than its source text has bytes.
pub proof fn lemma_operator_count(bytes: Seq<u8>)
    ensures
        compiled(bytes).operators.len() <= bytes.len(),
{
    lemma_assembled(bytes, tokens(bytes));
    lemma_token_count(bytes, 0);
}

/// There are no more tokens from a place on than bytes.
pub proof fn lemma_token_count(bytes: Seq<u8>, at: int)
    requires
        0 <= at,
    ensures
        tokens_from(bytes, at).len() <= if at <= bytes.len() {
            bytes.len() - at
        } else {
            0
        },
    decreases bytes.len() - at,
{
    if at >= bytes.len() {
    } else if bytes[at] == 0x23 {
        lemma_ends_advance(bytes, at + 1);
        lemma_token_count(bytes, comment_end(bytes, at));
    } else if starts_whitespace(bytes, at) || vstd::utf8::is_continuation_byte(
        bytes[at],
    ) {
        lemma_token_count(bytes, at + 1);
    } else {
        lemma_ends_advance(bytes, at + 1);
        lemma_token_count(bytes, token_end(bytes, at));
    }
}

/// Each operation is known by its name, and by no other: the name of an
/// operation, as it is written in a script, is an identifier for that
/// operation.
pub proof fn lemma_operation_names()
    ensures
        operation_of("*".spec_bytes()) == Some(Operation::Multiply),
        operation_of("+".spec_bytes()) == Some(Operation::Add),
        operation_of("-".spec_bytes()) == Some(Operation::Subtract),
        operation_of("/".spec_bytes()) == Some(Operation::Divide),
        operation_of("<".spec_bytes()) == Some(Operation::Less),
        operation_of("<=".spec_bytes()) == Some(Operation::LessOrEqual),
        operation_of("=".spec_bytes()) == Some(Operation::Equal),
        operation_of(">".spec_bytes()) == Some(Operation::Greater),
        operation_of(">=".spec_bytes()) == Some(Operation::GreaterOrEqual),
        operation_of("and".spec_bytes()) == Some(Operation::And),
        operation_of("or".spec_bytes()) == Some(Operation::Or),
        operation_of("xor".spec_bytes()) == Some(Operation::Xor),
        operation_of("count_ones".spec_bytes()) == Some(Operation::CountOnes),
        operation_of("leading_zeros".spec_bytes()) == Some(Operation::LeadingZeros),
        operation_of("trailing_zeros".spec_bytes()) == Some(Operation::TrailingZeros),
        operation_of("rotate_left".spec_bytes()) == Some(Operation::RotateLeft),
        operation_of("rotate_right".spec_bytes()) == Some(Operation::RotateRight),
        operation_of("shift_left".spec_bytes()) == Some(Operation::ShiftLeft),
        operation_of("shift_right".spec_bytes()) == Some(Operation::ShiftRight),
        operation_of("copy".spec_bytes()) == Some(Operation::Copy),
        operation_of("drop".spec_bytes()) == Some(Operation::Drop),
        operation_of("jump".spec_bytes()) == Some(Operation::Jump),
        operation_of("jump_if".spec_bytes()) == Some(Operation::JumpIf),
        operation_of("call".spec_bytes()) == Some(Operation::Call),
        operation_of("call_either".spec_bytes()) == Some(Operation::CallEither),
        operation_of("return".spec_bytes()) == Some(Operation::Return),
        operation_of("assert".spec_bytes()) == Some(Operation::Assert),
        operation_of("yield".spec_bytes()) == Some(Operation::Yield),
        operation_of("read".spec_bytes()) == Some(Operation::Read),
        operation_of("write".spec_bytes()) == Some(Operation::Write),
{
    broadcast use vstd::utf8::is_ascii_chars_encode_utf8;

    reveal(operation_of);
    reveal_strlit("*");
    reveal_strlit("+");
    reveal_strlit("-");
    reveal_strlit("/");
    reveal_strlit("<");
    reveal_strlit("<=");
    reveal_strlit("=");
    reveal_strlit(">");
    reveal_strlit(">=");
    reveal_strlit("and");
    reveal_strlit("or");
    reveal_strlit("xor");
    reveal_strlit("count_ones");
    reveal_strlit("leading_zeros");
    reveal_strlit("trailing_zeros");
    reveal_strlit("rotate_left");
    reveal_strlit("rotate_right");
    reveal_strlit("shift_left");
    reveal_strlit("shift_right");
    reveal_strlit("copy");
    reveal_strlit("drop");
    reveal_strlit("jump");
    reveal_strlit("jump_if");
    reveal_strlit("call");
    reveal_strlit("call_either");
    reveal_strlit("return");
    reveal_strlit("assert");
    reveal_strlit("yield");
    reveal_strlit("read");
    reveal_strlit("write");
    assert(is_ascii_chars("*"@));
    assert(is_ascii_chars("+"@));
    assert(is_ascii_chars("-"@));
    assert(is_ascii_chars("/"@));
    assert(is_ascii_chars("<"@));
    assert(is_ascii_chars("<="@));
    assert(is_ascii_chars("="@));
    assert(is_ascii_chars(">"@));
    assert(is_ascii_chars(">="@));
    assert(is_ascii_chars("and"@));
    assert(is_ascii_chars("or"@));
    assert(is_ascii_chars("xor"@));
    assert(is_ascii_chars("count_ones"@));
    assert(is_ascii_chars("leading_zeros"@));
    assert(is_ascii_chars("trailing_zeros"@));
    assert(is_ascii_chars("rotate_left"@));
    assert(is_ascii_chars("rotate_right"@));
    assert(is_ascii_chars("shift_left"@));
    assert(is_ascii_chars("shift_right"@));
    assert(is_ascii_chars("copy"@));
    assert(is_ascii_chars("drop"@));
    assert(is_ascii_chars("jump"@));
    assert(is_ascii_chars("jump_if"@));
    assert(is_ascii_chars("call"@));
    assert(is_ascii_chars("call_either"@));
    assert(is_ascii_chars("return"@));
    assert(is_ascii_chars("assert"@));
    assert(is_ascii_chars("yield"@));
    assert(is_ascii_chars("read"@));
    assert(is_ascii_chars("write"@));
    assert("*".spec_bytes()[0] == 0x2a);
    assert("+".spec_bytes()[0] == 0x2b);
    assert("-".spec_bytes()[0] == 0x2d);
    assert("/".spec_bytes()[0] == 0x2f);
    assert("<".spec_bytes()[0] == 0x3c);
    assert("<=".spec_bytes()[0] == 0x3c);
    assert("<=".spec_bytes()[1] == 0x3d);
    assert("=".spec_bytes()[0] == 0x3d);
    assert(">".spec_bytes()[0] == 0x3e);
    assert(">=".spec_bytes()[0] == 0x3e);
    assert(">=".spec_bytes()[1] == 0x3d);
    assert("and".spec_bytes()[0] == 0x61);
    assert("and".spec_bytes()[1] == 0x6e);
    assert("or".spec_bytes()[0] == 0x6f);
    assert("or".spec_bytes()[1] == 0x72);
    assert("xor".spec_bytes()[0] == 0x78);
    assert("xor".spec_bytes()[1] == 0x6f);
    assert("count_ones".spec_bytes()[0] == 0x63);
    assert("count_ones".spec_bytes()[1] == 0x6f);
    assert("leading_zeros".spec_bytes()[0] == 0x6c);
    assert("leading_zeros".spec_bytes()[1] == 0x65);
    assert("trailing_zeros".spec_bytes()[0] == 0x74);
    assert("trailing_zeros".spec_bytes()[1] == 0x72);
    assert("rotate_left".spec_bytes()[0] == 0x72);
    assert("rotate_left".spec_bytes()[1] == 0x6f);
    assert("rotate_right".spec_bytes()[0] == 0x72);
    assert("rotate_right".spec_bytes()[1] == 0x6f);
    assert("shift_left".spec_bytes()[0] == 0x73);
    assert("shift_left".spec_bytes()[1] == 0x68);
    assert("shift_right".spec_bytes()[0] == 0x73);
    assert("shift_right".spec_bytes()[1] == 0x68);
    assert("copy".spec_bytes()[0] == 0x63);
    assert("copy".spec_bytes()[1] == 0x6f);
    assert("drop".spec_bytes()[0] == 0x64);
    assert("drop".spec_bytes()[1] == 0x72);
    assert("jump".spec_bytes()[0] == 0x6a);
    assert("jump".spec_bytes()[1] == 0x75);
    assert("jump_if".spec_bytes()[0] == 0x6a);
    assert("jump_if".spec_bytes()[1] == 0x75);
    assert("call".spec_bytes()[0] == 0x63);
    assert("call".spec_bytes()[1] == 0x61);
    assert("call_either".spec_bytes()[0] == 0x63);
    assert("call_either".spec_bytes()[1] == 0x61);
    assert("return".spec_bytes()[0] == 0x72);
    assert("return".spec_bytes()[1] == 0x65);
    assert("assert".spec_bytes()[0] == 0x61);
    assert("assert".spec_bytes()[1] == 0x73);
    assert("yield".spec_bytes()[0] == 0x79);
    assert("yield".spec_bytes()[1] == 0x69);
    assert("read".spec_bytes()[0] == 0x72);
    assert("read".spec_bytes()[1] == 0x65);
    assert("write".spec_bytes()[0] == 0x77);
    assert("write".spec_bytes()[1] == 0x72);
}

} // verus!
