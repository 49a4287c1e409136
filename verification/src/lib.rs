//! Interpreter core of StackAssembly, a minimalist, stack-based,
//! assembly-like programming language.
//!
//! A script is compiled once, by [`Script::compile`], into operators, labels
//! and a source map. An [`Eval`] then evaluates it operator by operator, on
//! an operand stack, a call stack and a linear memory, until the script
//! triggers an [`Effect`]; what to do about the effect is up to the host.
//!
//! `syntax` says what a source text compiles to, and `semantics` what
//! evaluating the result means; the contracts of the executable code are
//! stated over those two.

pub mod effect;
pub mod eval;
pub mod integer;
pub mod laws;
pub mod memory;
pub mod operand_stack;
pub mod operation;
pub mod script;
pub mod semantics;
pub mod source_map;
pub mod syntax;
pub mod text;
pub mod value;
pub mod words;

pub use effect::Effect;
pub use eval::Eval;
pub use memory::{InvalidAddress, Memory};
pub use operand_stack::{
    InvalidStackIndex, OperandStack, OperandStackUnderflow, Stack, StackUnderflow,
};
pub use script::{InvalidOperatorIndex, InvalidReference, Label, Operator, OperatorIndex, Script};
pub use value::Value;
