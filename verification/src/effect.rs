use vstd::prelude::*;

verus! {

/// An event triggered by a script, to signal a specific condition to the host.
#[derive(Clone, Copy, Debug, PartialEq, Eq, Structural)]
pub enum Effect {
    /// `assert` consumed a zero.
    AssertionFailed,
    /// `/` was evaluated with a zero divisor.
    DivisionByZero,
    /// `/` was evaluated on the lowest signed integer and `-1`.
    IntegerOverflow,
    /// `read` or `write` addressed a word outside the memory.
    InvalidAddress,
    /// `copy` or `drop` named an index that is not on the operand stack.
    InvalidOperandStackIndex,
    /// A reference was evaluated that no label matches.
    InvalidReference,
    /// An operator needed more inputs than the operand stack holds.
    OperandStackUnderflow,
    /// Evaluation has moved past the last operator; the regular end.
    OutOfOperators,
    /// `return` was evaluated while the call stack was empty; a regular end.
    Return,
    /// An identifier was evaluated that the language does not know.
    UnknownIdentifier,
    /// `yield` was evaluated; the script hands control to the host.
    Yield,
}

} // verus!
