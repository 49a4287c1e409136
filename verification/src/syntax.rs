//! The grammar of scripts, over the bytes of their source text (UTF-8).
//!
//! A script is a sequence of tokens, divided by whitespace. A `#` where a
//! token could start opens a comment, which runs to the end of the line. A
//! token is a label (`name:`), a reference (`@name`), an integer, or else an
//! identifier.

use vstd::prelude::*;
use vstd::utf8::is_continuation_byte;

use crate::integer::{signed_literal, unsigned_literal};
use crate::value::unsigned;

verus! {

/// Whether one of Unicode's whitespace characters starts at `bytes[at]`: one
/// of U+0009 to U+000D, U+0020, U+0085, U+00A0, U+1680, U+2000 to U+200A,
/// U+2028, U+2029, U+202F, U+205F and U+3000, in its UTF-8 encoding.
pub open spec fn starts_whitespace(bytes: Seq<u8>, at: int) -> bool {
    &&& 0 <= at < bytes.len()
    &&& {
        ||| 0x09 <= bytes[at] <= 0x0d
        ||| bytes[at] == 0x20
        ||| at + 1 < bytes.len() && bytes[at] == 0xc2 && (bytes[at + 1] == 0x85 || bytes[at + 1]
            == 0xa0)
        ||| at + 2 < bytes.len() && bytes[at] == 0xe1 && bytes[at + 1] == 0x9a && bytes[at + 2]
            == 0x80
        ||| at + 2 < bytes.len() && bytes[at] == 0xe2 && bytes[at + 1] == 0x80 && (0x80
            <= bytes[at + 2] <= 0x8a || bytes[at + 2] == 0xa8 || bytes[at + 2] == 0xa9 || bytes[at
            + 2] == 0xaf)
        ||| at + 2 < bytes.len() && bytes[at] == 0xe2 && bytes[at + 1] == 0x81 && bytes[at + 2]
            == 0x9f
        ||| at + 2 < bytes.len() && bytes[at] == 0xe3 && bytes[at + 1] == 0x80 && bytes[at + 2]
            == 0x80
    }
}

/// Whether `character` is one of Unicode's whitespace characters.
pub open spec fn is_whitespace(character: char) -> bool {
    let code = character as u32;
    ||| 0x09 <= code <= 0x0d
    ||| code == 0x20
    ||| code == 0x85
    ||| code == 0xa0
    ||| code == 0x1680
    ||| 0x2000 <= code <= 0x200a
    ||| code == 0x2028
    ||| code == 0x2029
    ||| code == 0x202f
    ||| code == 0x205f
    ||| code == 0x3000
}

/// Where the comment that holds `bytes[at]` ends: behind the next line feed,
/// or at the end of the text.
pub open spec fn comment_end(bytes: Seq<u8>, at: int) -> int
    decreases bytes.len() - at,
{
    if at < 0 || at >= bytes.len() {
        bytes.len() as int
    } else if bytes[at] == 0x0a {
        at + 1
    } else {
        comment_end(bytes, at + 1)
    }
}

/// Where the token that holds `bytes[at]` ends: at the next whitespace
/// character, or at the end of the text.
pub open spec fn token_end(bytes: Seq<u8>, at: int) -> int
    decreases bytes.len() - at,
{
    if at < 0 || at >= bytes.len() {
        bytes.len() as int
    } else if starts_whitespace(bytes, at) {
        at
    } else {
        token_end(bytes, at + 1)
    }
}

/// A range of bytes of the source text, from `start` up to but not including
/// `end`.
pub struct Span {
    pub start: int,
    pub end: int,
}

/// A comment or a token ends behind the place where it was entered, and within
/// the text.
pub proof fn lemma_ends_advance(bytes: Seq<u8>, at: int)
    requires
        0 <= at <= bytes.len(),
    ensures
        at <= comment_end(bytes, at) <= bytes.len(),
        at <= token_end(bytes, at) <= bytes.len(),
    decreases bytes.len() - at,
{
    if at < bytes.len() {
        lemma_ends_advance(bytes, at + 1);
    }
}

/// The tokens of `bytes` from `at` on, in the order of the text, where `at` is
/// a place at which a token could start. A `#` there opens a comment;
/// whitespace is passed over, and so is a byte that continues a character,
/// which is what is left of a whitespace character behind its first byte; any
/// other character starts a token.
pub open spec fn tokens_from(bytes: Seq<u8>, at: int) -> Seq<Span>
    decreases bytes.len() - at,
{
    if at < 0 || at >= bytes.len() {
        Seq::empty()
    } else if bytes[at] == 0x23 {
        proof {
            lemma_ends_advance(bytes, at + 1);
        }
        tokens_from(bytes, comment_end(bytes, at))
    } else if starts_whitespace(bytes, at) || is_continuation_byte(bytes[at]) {
        tokens_from(bytes, at + 1)
    } else {
        proof {
            lemma_ends_advance(bytes, at + 1);
        }
        seq![Span { start: at, end: token_end(bytes, at) }] + tokens_from(
            bytes,
            token_end(bytes, at),
        )
    }
}

/// All tokens of a source text.
pub open spec fn tokens(bytes: Seq<u8>) -> Seq<Span> {
    tokens_from(bytes, 0)
}

/// What an operator holds, as plain values. Names are the bytes of their
/// text.
pub enum OperatorView {
    Identifier { name: Seq<u8> },
    Integer { value: u32 },
    Reference { name: Seq<u8> },
}

/// What a label holds, as plain values: its name, and the number of operators
/// that stand before it, which is the index of the operator that follows it.
pub struct LabelView {
    pub name: Seq<u8>,
    pub operator: int,
}

/// What a token stands for.
pub enum Item {
    Label { name: Seq<u8> },
    Operator { operator: OperatorView },
}

/// Whether `token` begins with `0x`.
pub open spec fn has_hex_prefix(token: Seq<u8>) -> bool {
    token.len() >= 2 && token[0] == 0x30 && token[1] == 0x78
}

/// The word that `token` denotes as an integer, if it is one. Hexadecimal
/// after `0x`, else decimal; in either base a number in the range of the
/// signed 32-bit integers, or else one in the range of the unsigned ones.
pub open spec fn integer_literal(token: Seq<u8>) -> Option<u32> {
    if has_hex_prefix(token) && signed_literal(token.skip(2), 16) is Some {
        Some(unsigned(signed_literal(token.skip(2), 16)->0))
    } else if has_hex_prefix(token) && unsigned_literal(token.skip(2), 16) is Some {
        Some(unsigned_literal(token.skip(2), 16)->0 as u32)
    } else if signed_literal(token, 10) is Some {
        Some(unsigned(signed_literal(token, 10)->0))
    } else if unsigned_literal(token, 10) is Some {
        Some(unsigned_literal(token, 10)->0 as u32)
    } else {
        None
    }
}

/// What `token` stands for. In this order: a label, where it ends with `:`
/// behind a name that is not empty; a reference, where it starts with `@`; an
/// integer, where it denotes one; else an identifier.
pub open spec fn classify(token: Seq<u8>) -> Item {
    if token.len() >= 2 && token.last() == 0x3a {
        Item::Label { name: token.drop_last() }
    } else if token.len() >= 1 && token[0] == 0x40 {
        Item::Operator { operator: OperatorView::Reference { name: token.skip(1) } }
    } else if integer_literal(token) is Some {
        Item::Operator { operator: OperatorView::Integer { value: integer_literal(token)->0 } }
    } else {
        Item::Operator { operator: OperatorView::Identifier { name: token } }
    }
}

/// What a compiled script holds, as plain values: its operators by index, its
/// labels in the order of the text, and for each operator the bytes of the
/// text that it was compiled from.
#[verifier::ext_equal]
pub struct ScriptView {
    pub operators: Seq<OperatorView>,
    pub labels: Seq<LabelView>,
    pub source_map: Seq<Span>,
}

/// A script that holds nothing.
pub open spec fn empty_script() -> ScriptView {
    ScriptView { operators: Seq::empty(), labels: Seq::empty(), source_map: Seq::empty() }
}

/// `script` with one more item, which was found at `span` of the source
/// text. An operator takes the next index, and `span` is recorded for it. A
/// label adds no operator and names the one that comes next.
pub open spec fn add_item(script: ScriptView, item: Item, span: Span) -> ScriptView {
    match item {
        Item::Label { name } => ScriptView {
            labels: script.labels.push(LabelView { name, operator: script.operators.len() as int }),
            ..script
        },
        Item::Operator { operator } => ScriptView {
            operators: script.operators.push(operator),
            source_map: script.source_map.push(span),
            ..script
        },
    }
}

/// The script that a sequence of tokens of `bytes` makes, one item for each
/// token.
pub open spec fn assemble(bytes: Seq<u8>, tokens: Seq<Span>) -> ScriptView
    decreases tokens.len(),
{
    if tokens.len() == 0 {
        empty_script()
    } else {
        let span = tokens.last();
        add_item(
            assemble(bytes, tokens.drop_last()),
            classify(bytes.subrange(span.start, span.end)),
            span,
        )
    }
}

/// The operator that `name` refers to among the labels from `from` on: that
/// of the first label with this name.
pub open spec fn resolve_from(labels: Seq<LabelView>, name: Seq<u8>, from: int) -> Option<int>
    decreases labels.len() - from,
{
    if from < 0 || from >= labels.len() {
        None
    } else if labels[from].name == name {
        Some(labels[from].operator)
    } else {
        resolve_from(labels, name, from + 1)
    }
}

/// The operator that `name` refers to: that of the first label with this
/// name, in the order of the source text.
pub open spec fn resolve(labels: Seq<LabelView>, name: Seq<u8>) -> Option<int> {
    resolve_from(labels, name, 0)
}

/// The script that a source text compiles to.
pub open spec fn compiled(bytes: Seq<u8>) -> ScriptView {
    assemble(bytes, tokens(bytes))
}

} // verus!
