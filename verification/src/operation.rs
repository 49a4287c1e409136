use vstd::prelude::*;
use vstd::string::StringSliceAdditionalSpecFns;

use crate::script::bytes_equal;
use crate::semantics::{
    binary, count_ones, is_binary, is_unary, operation_of, unary, Operation,
};
use crate::value::{lemma_signed_cast, lemma_unsigned_cast, Value};

verus! {

broadcast use crate::value::Value::lemma_from_bits;

/// The operation that the identifier `name` names, if it names one.
pub fn identify(name: &str) -> (result: Option<Operation>)
    ensures
        result == operation_of(name.spec_bytes()),
{
    reveal(operation_of);
    let bytes = name.as_bytes();
    if bytes_equal(bytes, "*".as_bytes()) {
        Some(Operation::Multiply)
    } else if bytes_equal(bytes, "+".as_bytes()) {
        Some(Operation::Add)
    } else if bytes_equal(bytes, "-".as_bytes()) {
        Some(Operation::Subtract)
    } else if bytes_equal(bytes, "/".as_bytes()) {
        Some(Operation::Divide)
    } else if bytes_equal(bytes, "<".as_bytes()) {
        Some(Operation::Less)
    } else if bytes_equal(bytes, "<=".as_bytes()) {
        Some(Operation::LessOrEqual)
    } else if bytes_equal(bytes, "=".as_bytes()) {
        Some(Operation::Equal)
    } else if bytes_equal(bytes, ">".as_bytes()) {
        Some(Operation::Greater)
    } else if bytes_equal(bytes, ">=".as_bytes()) {
        Some(Operation::GreaterOrEqual)
    } else if bytes_equal(bytes, "and".as_bytes()) {
        Some(Operation::And)
    } else if bytes_equal(bytes, "or".as_bytes()) {
        Some(Operation::Or)
    } else if bytes_equal(bytes, "xor".as_bytes()) {
        Some(Operation::Xor)
    } else if bytes_equal(bytes, "count_ones".as_bytes()) {
        Some(Operation::CountOnes)
    } else if bytes_equal(bytes, "leading_zeros".as_bytes()) {
        Some(Operation::LeadingZeros)
    } else if bytes_equal(bytes, "trailing_zeros".as_bytes()) {
        Some(Operation::TrailingZeros)
    } else if bytes_equal(bytes, "rotate_left".as_bytes()) {
        Some(Operation::RotateLeft)
    } else if bytes_equal(bytes, "rotate_right".as_bytes()) {
        Some(Operation::RotateRight)
    } else if bytes_equal(bytes, "shift_left".as_bytes()) {
        Some(Operation::ShiftLeft)
    } else if bytes_equal(bytes, "shift_right".as_bytes()) {
        Some(Operation::ShiftRight)
    } else if bytes_equal(bytes, "copy".as_bytes()) {
        Some(Operation::Copy)
    } else if bytes_equal(bytes, "drop".as_bytes()) {
        Some(Operation::Drop)
    } else if bytes_equal(bytes, "jump".as_bytes()) {
        Some(Operation::Jump)
    } else if bytes_equal(bytes, "jump_if".as_bytes()) {
        Some(Operation::JumpIf)
    } else if bytes_equal(bytes, "call".as_bytes()) {
        Some(Operation::Call)
    } else if bytes_equal(bytes, "call_either".as_bytes()) {
        Some(Operation::CallEither)
    } else if bytes_equal(bytes, "return".as_bytes()) {
        Some(Operation::Return)
    } else if bytes_equal(bytes, "assert".as_bytes()) {
        Some(Operation::Assert)
    } else if bytes_equal(bytes, "yield".as_bytes()) {
        Some(Operation::Yield)
    } else if bytes_equal(bytes, "read".as_bytes()) {
        Some(Operation::Read)
    } else if bytes_equal(bytes, "write".as_bytes()) {
        Some(Operation::Write)
    } else {
        None
    }
}

/// The value for a truth value: `1` for true, `0` for false.
fn truth_value(condition: bool) -> (value: Value)
    ensures
        value@ == crate::semantics::truth(condition),
{
    if condition {
        Value::from(1u32)
    } else {
        Value::from(0u32)
    }
}

/// The number of bits of `word` that are `1`.
pub fn ones(word: u32) -> (count: u32)
    ensures
        count == count_ones(word),
{
    let mut count: u32 = 0;
    let mut rest = word;
    while rest != 0
        invariant
            count + count_ones(rest) == count_ones(word),
            count + rest <= word,
        decreases rest,
    {
        count = count + rest % 2;
        rest = rest / 2;
    }
    count
}

/// The value that a unary operation gives for the operand `a`.
pub fn compute_unary(operation: Operation, a: Value) -> (value: Value)
    requires
        is_unary(operation),
    ensures
        value@ == unary(operation, a@),
{
    match operation {
        Operation::CountOnes => Value::from(ones(a.to_u32())),
        Operation::LeadingZeros => Value::from(a.to_u32().leading_zeros()),
        _ => Value::from(a.to_u32().trailing_zeros()),
    }
}

/// The value that a binary operation gives for the operands `a` and `b`.
pub fn compute_binary(operation: Operation, a: Value, b: Value) -> (value: Value)
    requires
        is_binary(operation),
    ensures
        value@ == binary(operation, a@, b@),
{
    let x = a.to_u32();
    let y = b.to_u32();
    match operation {
        Operation::Multiply => Value::from(x.wrapping_mul(y)),
        Operation::Add => Value::from(x.wrapping_add(y)),
        Operation::Subtract => Value::from(x.wrapping_sub(y)),
        Operation::Less => truth_value(a.to_i32() < b.to_i32()),
        Operation::LessOrEqual => truth_value(a.to_i32() <= b.to_i32()),
        Operation::Equal => truth_value(x == y),
        Operation::Greater => truth_value(a.to_i32() > b.to_i32()),
        Operation::GreaterOrEqual => truth_value(a.to_i32() >= b.to_i32()),
        Operation::And => Value::from(x & y),
        Operation::Or => Value::from(x | y),
        Operation::Xor => Value::from(x ^ y),
        Operation::RotateLeft => {
            let places = y % 32;
            Value::from(x.wrapping_shl(places) | x.wrapping_shr(32 - places))
        },
        Operation::RotateRight => {
            let places = y % 32;
            Value::from(x.wrapping_shr(places) | x.wrapping_shl(32 - places))
        },
        Operation::ShiftLeft => Value::from(x.wrapping_shl(y)),
        _ => {
            let shifted = a.to_i32().wrapping_shr(y);
            proof {
                lemma_signed_cast(x);
                lemma_unsigned_cast(shifted);
            }
            Value::from(shifted)
        },
    }
}

} // verus!
