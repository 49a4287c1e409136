use std::ops::Range;
use vstd::prelude::*;
use vstd::string::StringSliceAdditionalSpecFns;
use vstd::utf8::{encode_utf8, is_char_boundary, is_continuation_byte, valid_utf8};

use crate::effect::Effect;
use crate::integer::{parse_signed, parse_unsigned};
use crate::source_map::SourceMap;
use crate::syntax::{
    add_item, assemble, classify, comment_end, compiled, empty_script, integer_literal,
    lemma_ends_advance, resolve, resolve_from, starts_whitespace, token_end, tokens, tokens_from,
    Item, LabelView, OperatorView, ScriptView, Span,
};
use crate::value::Value;

verus! {

broadcast use {
    crate::value::Value::lemma_from_bits,
    vstd::utf8::encode_utf8_valid_utf8,
    vstd::utf8::is_char_boundary_iff_not_is_continuation_byte,
    vstd::utf8::is_char_boundary_start_end_of_seq,
};

/// Refers to an operator of a script, by its position among all of them.
#[derive(Clone, Copy, Debug, PartialEq, Eq, Structural, PartialOrd, Ord)]
pub struct OperatorIndex {
    pub(crate) value: u32,
}

impl View for OperatorIndex {
    type V = u32;

    /// The position, counted from `0`.
    closed spec fn view(&self) -> u32 {
        self.value
    }
}

impl OperatorIndex {
    /// The index of the operator at `position`.
    pub fn new(position: u32) -> (index: OperatorIndex)
        ensures
            index@ == position,
    {
        OperatorIndex { value: position }
    }

    /// The position of the operator, counted from `0`.
    pub fn position(&self) -> (position: u32)
        ensures
            position == self@,
    {
        self.value
    }
}

impl Default for OperatorIndex {
    fn default() -> (index: OperatorIndex)
        ensures
            index@ == 0,
    {
        OperatorIndex { value: 0 }
    }
}

/// A unit of evaluation.
#[derive(Debug)]
#[allow(inconsistent_fields)]
pub enum Operator {
    /// The name of an operation of the language.
    Identifier { value: String },
    /// A word to push.
    Integer { value: Value },
    /// The name of a label, which stands for the index of an operator.
    Reference { name: String },
}

impl View for Operator {
    type V = OperatorView;

    open spec fn view(&self) -> OperatorView {
        match self {
            Operator::Identifier { value } => OperatorView::Identifier {
                name: encode_utf8(value@),
            },
            Operator::Integer { value } => OperatorView::Integer { value: value@ },
            Operator::Reference { name } => OperatorView::Reference { name: encode_utf8(name@) },
        }
    }
}

impl Operator {
    /// The operator that pushes the word `value`.
    pub fn integer_u32(value: u32) -> (operator: Operator)
        ensures
            operator@ == (OperatorView::Integer { value }),
    {
        Operator::Integer { value: Value::from(value) }
    }
}

/// A name for the operator that follows it in the source text.
#[derive(Debug)]
pub struct Label {
    pub name: String,
    pub operator: OperatorIndex,
}

impl View for Label {
    type V = LabelView;

    open spec fn view(&self) -> LabelView {
        LabelView { name: encode_utf8(self.name@), operator: self.operator@ as int }
    }
}

/// An index named no operator of the script.
#[derive(Debug)]
pub struct InvalidOperatorIndex;

/// A name is the name of no label of the script.
#[derive(Debug)]
pub struct InvalidReference;

impl From<InvalidOperatorIndex> for Effect {
    fn from(invalid: InvalidOperatorIndex) -> (effect: Effect) {
        Effect::OutOfOperators
    }
}

impl vstd::std_specs::convert::FromSpecImpl<InvalidOperatorIndex> for Effect {
    open spec fn obeys_from_spec() -> bool {
        true
    }

    open spec fn from_spec(invalid: InvalidOperatorIndex) -> Effect {
        Effect::OutOfOperators
    }
}

impl From<InvalidReference> for Effect {
    fn from(invalid: InvalidReference) -> (effect: Effect) {
        Effect::InvalidReference
    }
}

impl vstd::std_specs::convert::FromSpecImpl<InvalidReference> for Effect {
    open spec fn obeys_from_spec() -> bool {
        true
    }

    open spec fn from_spec(invalid: InvalidReference) -> Effect {
        Effect::InvalidReference
    }
}

/// What each operator of a sequence holds.
pub open spec fn operators_view(operators: Seq<Operator>) -> Seq<OperatorView> {
    Seq::new(operators.len(), |i: int| operators[i]@)
}

/// What each label of a sequence holds.
pub open spec fn labels_view(labels: Seq<Label>) -> Seq<LabelView> {
    Seq::new(labels.len(), |i: int| labels[i]@)
}

/// The part of `text` from byte `start` up to byte `end`.
fn slice_text(text: &str, start: usize, end: usize) -> (part: &str)
    requires
        start <= end <= text.spec_bytes().len(),
        start < text.spec_bytes().len() ==> !is_continuation_byte(text.spec_bytes()[start as int]),
        end < text.spec_bytes().len() ==> !is_continuation_byte(text.spec_bytes()[end as int]),
    ensures
        part.spec_bytes() == text.spec_bytes().subrange(start as int, end as int),
{
    let (head, _) = text.split_at(end);
    proof {
        let bytes = head.spec_bytes();
        assert(bytes.len() == end);
        assert(bytes.subrange(start as int, bytes.len() as int) =~= text.spec_bytes().subrange(
            start as int,
            end as int,
        ));
        if start < end {
            assert(bytes[start as int] == text.spec_bytes()[start as int]);
            assert(!is_continuation_byte(bytes[start as int]));
        }
        assert(is_char_boundary(bytes, start as int));
    }
    let (_, part) = head.split_at(start);
    part
}

/// The word that `token` denotes as an integer, if it is one.
fn parse_integer(token: &[u8]) -> (result: Option<Value>)
    ensures
        match result {
            Some(value) => integer_literal(token@) == Some(value@),
            None => integer_literal(token@) is None,
        },
{
    if token.len() >= 2 && token[0] == 0x30 && token[1] == 0x78 {
        let digits = vstd::slice::slice_subrange(token, 2, token.len());
        assert(digits@ =~= token@.skip(2));
        match parse_signed(digits, 16) {
            Some(number) => {
                return Some(Value::from(number));
            },
            None => {},
        }
        match parse_unsigned(digits, 16) {
            Some(number) => {
                return Some(Value::from(number));
            },
            None => {},
        }
    }
    match parse_signed(token, 10) {
        Some(number) => {
            return Some(Value::from(number));
        },
        None => {},
    }
    match parse_unsigned(token, 10) {
        Some(number) => Some(Value::from(number)),
        None => None,
    }
}

/// What a script under construction holds: its operators and labels so far,
/// and for each operator the range that `ranges` has for its index.
pub open spec fn built(
    operators: Seq<Operator>,
    labels: Seq<Label>,
    ranges: Map<u32, Range<usize>>,
) -> ScriptView {
    ScriptView {
        operators: operators_view(operators),
        labels: labels_view(labels),
        source_map: Seq::new(
            operators.len(),
            |i: int|
                Span { start: ranges[i as u32].start as int, end: ranges[i as u32].end as int },
        ),
    }
}

/// Whether `ranges` has a range for each operator, and for nothing else.
pub open spec fn covers(ranges: Map<u32, Range<usize>>, operators: Seq<Operator>) -> bool {
    &&& operators.len() <= u32::MAX
    &&& forall|index: u32| ranges.contains_key(index) <==> index < operators.len()
}

/// Compile the token at `range` of `script`, and add what it stands for to
/// the script under construction. An operator is not added where no index is
/// left for it; the result tells whether the item was added.
fn parse_token(
    script: &str,
    range: Range<usize>,
    operators: &mut Vec<Operator>,
    labels: &mut Vec<Label>,
    source_map: &mut SourceMap,
) -> (added: bool)
    requires
        range.start < range.end <= script.spec_bytes().len(),
        !is_continuation_byte(script.spec_bytes()[range.start as int]),
        range.end < script.spec_bytes().len() ==> !is_continuation_byte(
            script.spec_bytes()[range.end as int],
        ),
        covers(old(source_map)@, old(operators)@),
    ensures
        covers(final(source_map)@, final(operators)@),
        added ==> built(final(operators)@, final(labels)@, final(source_map)@) == add_item(
            built(old(operators)@, old(labels)@, old(source_map)@),
            classify(script.spec_bytes().subrange(range.start as int, range.end as int)),
            Span { start: range.start as int, end: range.end as int },
        ),
        !added ==> old(operators)@.len() == u32::MAX && classify(
            script.spec_bytes().subrange(range.start as int, range.end as int),
        ) is Operator,
{
    let token = slice_text(script, range.start, range.end);
    let bytes = token.as_bytes();
    let length = bytes.len();
    if length >= 2 && bytes[length - 1] == 0x3a {
        let name = slice_text(token, 0, length - 1);
        let index = OperatorIndex::new(operators.len() as u32);
        let label = Label { name: name.to_owned(), operator: index };
        proof {
            assert(name.spec_bytes() =~= bytes@.drop_last());
            assert(classify(bytes@) == Item::Label { name: label@.name });
        }
        labels.push(label);
        proof {
            assert(labels_view(labels@) =~= labels_view(old(labels)@).push(label@));
        }
        return true;
    }
    let operator = if bytes[0] == 0x40 {
        proof {
            reveal_with_fuel(is_char_boundary, 2);
            reveal_with_fuel(valid_utf8, 2);
            assert(is_char_boundary(bytes@, 1));
        }
        let name = slice_text(token, 1, length);
        assert(name.spec_bytes() =~= bytes@.skip(1));
        Operator::Reference { name: name.to_owned() }
    } else {
        match parse_integer(bytes) {
            Some(value) => Operator::Integer { value },
            None => Operator::Identifier { value: token.to_owned() },
        }
    };
    proof {
        assert(classify(bytes@) == Item::Operator { operator: operator@ });
    }
    if operators.len() >= u32::MAX as usize {
        return false;
    }
    source_map.insert(operators.len() as u32, range);
    operators.push(operator);
    proof {
        let before = built(old(operators)@, old(labels)@, old(source_map)@);
        let after = built(operators@, labels@, source_map@);
        assert(after.operators =~= before.operators.push(operator@));
        assert(after.source_map =~= before.source_map.push(
            Span { start: range.start as int, end: range.end as int },
        ));
    }
    true
}

/// Whether a whitespace character starts at `bytes[at]`.
fn whitespace_at(bytes: &[u8], at: usize) -> (result: bool)
    requires
        at < bytes@.len(),
    ensures
        result == starts_whitespace(bytes@, at as int),
{
    let first = bytes[at];
    if (0x09 <= first && first <= 0x0d) || first == 0x20 {
        return true;
    }
    if first == 0xc2 {
        return at < bytes.len() - 1 && (bytes[at + 1] == 0x85 || bytes[at + 1] == 0xa0);
    }
    if first != 0xe1 && first != 0xe2 && first != 0xe3 {
        return false;
    }
    if at >= bytes.len() - 1 || at + 1 >= bytes.len() - 1 {
        return false;
    }
    let second = bytes[at + 1];
    let third = bytes[at + 2];
    if first == 0xe1 {
        second == 0x9a && third == 0x80
    } else if first == 0xe2 {
        (second == 0x80 && ((0x80 <= third && third <= 0x8a) || third == 0xa8 || third == 0xa9
            || third == 0xaf)) || (second == 0x81 && third == 0x9f)
    } else {
        second == 0x80 && third == 0x80
    }
}

/// Where the scan of a source text stands.
enum State {
    /// Between tokens: the next character may start one.
    Initial,
    /// In a comment, up to the end of the line.
    Comment,
    /// In the token that began at byte `start`.
    Token { start: usize },
}

/// The tokens that are yet to be added when the scan stands at byte `at` in
/// `state`.
spec fn pending(bytes: Seq<u8>, state: State, at: int) -> Seq<Span> {
    match state {
        State::Initial => tokens_from(bytes, at),
        State::Comment => tokens_from(bytes, comment_end(bytes, at)),
        State::Token { start } => tokens_from(bytes, start as int),
    }
}

/// What holds of the token that the scan is in, when it stands at byte `at`:
/// the token began before `at` with a character that can begin one, and no
/// whitespace has come since.
spec fn in_token(bytes: Seq<u8>, state: State, at: int) -> bool {
    state matches State::Token { start } ==> {
        &&& start < at
        &&& bytes[start as int] != 0x23
        &&& !starts_whitespace(bytes, start as int)
        &&& !is_continuation_byte(bytes[start as int])
        &&& token_end(bytes, start as int) == token_end(bytes, at)
    }
}

/// A script made of the first tokens of a text has no more operators than the
/// one made of all of them.
proof fn lemma_assemble_grows(bytes: Seq<u8>, tokens: Seq<Span>, n: int)
    requires
        0 <= n <= tokens.len(),
    ensures
        assemble(bytes, tokens.take(n)).operators.len() <= assemble(bytes, tokens).operators.len(),
    decreases tokens.len() - n,
{
    if n == tokens.len() {
        assert(tokens.take(n) =~= tokens);
    } else {
        lemma_assemble_grows(bytes, tokens, n + 1);
        assert(tokens.take(n + 1).drop_last() =~= tokens.take(n));
    }
}

/// A compiled script: operators to evaluate, the labels that name some of
/// them, and where in the source text each operator was found.
#[derive(Debug)]
pub struct Script {
    operators: Vec<Operator>,
    labels: Vec<Label>,
    source_map: SourceMap,
}

impl View for Script {
    type V = ScriptView;

    closed spec fn view(&self) -> ScriptView {
        built(self.operators@, self.labels@, self.source_map@)
    }
}

impl Script {
    #[verifier::type_invariant]
    spec fn valid(self) -> bool {
        covers(self.source_map@, self.operators@)
    }

    /// Compile the source text of a script.
    ///
    /// An operator index has 32 bits. A text with more operators than such an
    /// index can tell apart is not a script; `try_compile` takes any text.
    pub fn compile(script: &str) -> (result: Script)
        requires
            compiled(script.spec_bytes()).operators.len() <= u32::MAX,
        ensures
            result@ == compiled(script.spec_bytes()),
    {
        match Script::try_compile(script) {
            Some(result) => result,
            None => vstd::pervasive::unreached(),
        }
    }

    /// Compile the source text of a script, unless it has more operators
    /// than an operator index can tell apart.
    pub fn try_compile(script: &str) -> (result: Option<Script>)
        ensures
            match result {
                Some(result) => result@ == compiled(script.spec_bytes()),
                None => compiled(script.spec_bytes()).operators.len() > u32::MAX,
            },
    {
        let bytes = script.as_bytes();
        let mut operators: Vec<Operator> = Vec::new();
        let mut labels: Vec<Label> = Vec::new();
        let mut source_map = SourceMap::new();
        let mut state = State::Initial;
        let ghost mut emitted: Seq<Span> = Seq::empty();
        let mut i: usize = 0;
        assert(built(operators@, labels@, source_map@) =~= empty_script()) by {
            assert(built(operators@, labels@, source_map@).operators =~= Seq::empty());
            assert(built(operators@, labels@, source_map@).labels =~= Seq::empty());
            assert(built(operators@, labels@, source_map@).source_map =~= Seq::empty());
        }
        while i < bytes.len()
            invariant
                i <= bytes@.len(),
                bytes@ == script.spec_bytes(),
                covers(source_map@, operators@),
                built(operators@, labels@, source_map@) == assemble(bytes@, emitted),
                tokens(bytes@) == emitted + pending(bytes@, state, i as int),
                in_token(bytes@, state, i as int),
            decreases bytes@.len() - i,
        {
            let byte = bytes[i];
            match state {
                State::Initial => {
                    if byte == 0x23 {
                        state = State::Comment;
                    } else if whitespace_at(bytes, i) || (0x80 <= byte && byte <= 0xbf) {
                    } else {
                        state = State::Token { start: i };
                    }
                },
                State::Comment => {
                    if byte == 0x0a {
                        state = State::Initial;
                    }
                },
                State::Token { start } => {
                    if whitespace_at(bytes, i) {
                        let ghost span = Span { start: start as int, end: i as int };
                        proof {
                            lemma_ends_advance(bytes@, i as int);
                            let all = tokens(bytes@);
                            assert(all.take(emitted.len() as int + 1) =~= emitted.push(span));
                            lemma_assemble_grows(bytes@, all, emitted.len() as int + 1);
                            assert(emitted.push(span).drop_last() =~= emitted);
                        }
                        let added = parse_token(
                            script,
                            Range { start, end: i },
                            &mut operators,
                            &mut labels,
                            &mut source_map,
                        );
                        if !added {
                            return None;
                        }
                        proof {
                            assert(token_end(bytes@, i as int) == i);
                            assert(tokens_from(bytes@, start as int) == seq![span] + tokens_from(
                                bytes@,
                                i as int,
                            ));
                            assert(tokens_from(bytes@, i as int) == tokens_from(
                                bytes@,
                                i as int + 1,
                            ));
                            assert(tokens(bytes@) =~= emitted.push(span) + tokens_from(
                                bytes@,
                                i as int + 1,
                            ));
                            emitted = emitted.push(span);
                        }
                        state = State::Initial;
                    }
                },
            }
            i += 1;
        }
        match state {
            State::Token { start } => {
                let ghost span = Span { start: start as int, end: i as int };
                proof {
                    let all = tokens(bytes@);
                    assert(all.take(emitted.len() as int + 1) =~= emitted.push(span));
                    lemma_assemble_grows(bytes@, all, emitted.len() as int + 1);
                    assert(emitted.push(span).drop_last() =~= emitted);
                }
                let added = parse_token(
                    script,
                    Range { start, end: i },
                    &mut operators,
                    &mut labels,
                    &mut source_map,
                );
                if !added {
                    return None;
                }
                proof {
                    assert(token_end(bytes@, i as int) == i);
                    assert(tokens_from(bytes@, i as int) =~= Seq::<Span>::empty());
                    assert(tokens_from(bytes@, start as int) == seq![span] + tokens_from(
                        bytes@,
                        i as int,
                    ));
                    assert(tokens(bytes@) =~= emitted.push(span));
                    emitted = emitted.push(span);
                }
            },
            _ => {
                assert(tokens(bytes@) =~= emitted);
            },
        }
        Some(Script { operators, labels, source_map })
    }

    /// The operator at `index`.
    pub fn get_operator(&self, index: OperatorIndex) -> (result: Result<
        &Operator,
        InvalidOperatorIndex,
    >)
        ensures
            self@.operators.len() <= u32::MAX,
            match result {
                Ok(operator) => index@ < self@.operators.len() && operator@
                    == self@.operators[index@ as int],
                Err(_) => index@ >= self@.operators.len(),
            },
    {
        proof {
            use_type_invariant(self);
        }
        let position = index.value as usize;
        if position < self.operators.len() {
            Ok(&self.operators[position])
        } else {
            Err(InvalidOperatorIndex)
        }
    }

    /// The index that the reference `name` stands for: the operator that
    /// follows the first label of that name.
    pub fn resolve_reference(&self, name: &str) -> (result: Result<
        OperatorIndex,
        InvalidReference,
    >)
        ensures
            match result {
                Ok(index) => resolve(self@.labels, name.spec_bytes()) == Some(index@ as int),
                Err(_) => resolve(self@.labels, name.spec_bytes()) is None,
            },
    {
        let wanted = name.as_bytes();
        let mut i: usize = 0;
        while i < self.labels.len()
            invariant
                i <= self.labels@.len(),
                wanted@ == name.spec_bytes(),
                resolve(self@.labels, wanted@) == resolve_from(self@.labels, wanted@, i as int),
            decreases self.labels@.len() - i,
        {
            let label = &self.labels[i];
            if bytes_equal(label.name.as_str().as_bytes(), wanted) {
                return Ok(label.operator);
            }
            i += 1;
        }
        Err(InvalidReference)
    }

    /// The range of bytes of the source text that the operator at `operator`
    /// was compiled from.
    pub fn map_operator_to_source(&self, operator: &OperatorIndex) -> (result: Result<
        Range<usize>,
        InvalidOperatorIndex,
    >)
        ensures
            match result {
                Ok(range) => operator@ < self@.operators.len() && self@.source_map[operator@ as int]
                    == (Span { start: range.start as int, end: range.end as int }),
                Err(_) => operator@ >= self@.operators.len(),
            },
    {
        proof {
            use_type_invariant(self);
        }
        match self.source_map.get(operator.value) {
            Some(range) => Ok(range),
            None => Err(InvalidOperatorIndex),
        }
    }

    /// All operators of the script, each with its index, in the order of the
    /// indices.
    pub fn operators(&self) -> (result: Vec<(OperatorIndex, &Operator)>)
        ensures
            result@.len() == self@.operators.len(),
            forall|i: int|
                0 <= i < result@.len() ==> (#[trigger] result@[i]).0@ == i && result@[i].1@
                    == self@.operators[i],
    {
        proof {
            use_type_invariant(self);
        }
        let mut result: Vec<(OperatorIndex, &Operator)> = Vec::new();
        let mut i: usize = 0;
        while i < self.operators.len()
            invariant
                i <= self.operators@.len() <= u32::MAX,
                result@.len() == i,
                forall|j: int|
                    0 <= j < i ==> (#[trigger] result@[j]).0@ == j && *result@[j].1
                        == self.operators@[j],
            decreases self.operators@.len() - i,
        {
            result.push((OperatorIndex::new(i as u32), &self.operators[i]));
            i += 1;
        }
        result
    }
}

/// Whether two byte strings are the same.
pub(crate) fn bytes_equal(a: &[u8], b: &[u8]) -> (result: bool)
    ensures
        result == (a@ == b@),
{
    if a.len() != b.len() {
        return false;
    }
    let mut i: usize = 0;
    while i < a.len()
        invariant
            i <= a@.len(),
            a@.len() == b@.len(),
            a@.take(i as int) == b@.take(i as int),
        decreases a@.len() - i,
    {
        if a[i] != b[i] {
            return false;
        }
        i += 1;
        assert(a@.take(i as int) =~= a@.take(i - 1).push(a@[i - 1]));
        assert(b@.take(i as int) =~= b@.take(i - 1).push(b@[i - 1]));
    }
    assert(a@.take(i as int) =~= a@ && b@.take(i as int) =~= b@);
    true
}

} // verus!
