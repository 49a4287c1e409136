use vstd::prelude::*;

use crate::operand_stack::bits_of;
use crate::value::{signed, Value};

verus! {

/// The signed reading of each word of a sequence, in the same order.
pub open spec fn signed_of(words: Seq<u32>) -> Seq<int> {
    Seq::new(words.len(), |i: int| signed(words[i]))
}

/// The numbers of a sequence of `i32`, as mathematical integers.
pub open spec fn ints_of(numbers: Seq<i32>) -> Seq<int> {
    Seq::new(numbers.len(), |i: int| numbers[i] as int)
}

/// The bits of each value, as a vector of unsigned integers.
pub fn unsigned_words(values: &Vec<Value>) -> (words: Vec<u32>)
    ensures
        words@ == bits_of(values@),
{
    let mut words: Vec<u32> = Vec::new();
    let mut i: usize = 0;
    while i < values.len()
        invariant
            i <= values.len(),
            words@ == bits_of(values@.take(i as int)),
        decreases values.len() - i,
    {
        words.push(values[i].to_u32());
        i += 1;
        assert(words@ =~= bits_of(values@.take(i as int)));
    }
    assert(values@.take(i as int) =~= values@);
    words
}

/// `bytemuck::cast_slice`, from `u32` to `i32`. Both types have the same
/// size and alignment, so the cast cannot fail: the result has as many
/// elements as `words`, and each holds the bits of the word at its place, read
/// as a signed (two's complement) integer.
#[verifier::external_body]
pub(crate) fn cast_signed(words: &[u32]) -> (numbers: &[i32])
    ensures
        numbers@.len() == words@.len(),
        forall|i: int| 0 <= i < words@.len() ==> numbers@[i] as int == signed(#[trigger] words@[i]),
{
    bytemuck::cast_slice(words)
}

/// The signed reading of each value, as a vector.
pub fn signed_words(values: &Vec<Value>) -> (numbers: Vec<i32>)
    ensures
        ints_of(numbers@) == signed_of(bits_of(values@)),
{
    let words = unsigned_words(values);
    let numbers = vstd::slice::slice_to_vec(cast_signed(words.as_slice()));
    assert(ints_of(numbers@) =~= signed_of(words@));
    numbers
}

} // verus!
