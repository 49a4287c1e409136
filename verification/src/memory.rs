use vstd::prelude::*;
use vstd::string::StringExecFns;

use crate::effect::Effect;
use crate::operand_stack::bits_of;
use crate::value::Value;
use crate::text::{join, joined};
use crate::words::unsigned_words;

verus! {

broadcast use crate::value::Value::lemma_from_bits;

/// A linear memory, addressed word by word from `0`.
///
/// Scripts reach it through the `read` and `write` operators. Neither of them
/// changes its length.
#[derive(Debug)]
pub struct Memory {
    /// The words in the memory, by address.
    pub values: Vec<Value>,
}

/// An address named no word of the memory.
#[derive(Debug)]
pub struct InvalidAddress;

impl View for Memory {
    type V = Seq<u32>;

    /// The bits of the words in the memory, by address.
    open spec fn view(&self) -> Seq<u32> {
        bits_of(self.values@)
    }
}

impl Memory {
    /// A memory of `size` words, all zero.
    pub fn new(size: usize) -> (memory: Memory)
        ensures
            memory@ == Seq::new(size as nat, |i: int| 0u32),
    {
        let mut values: Vec<Value> = Vec::new();
        let mut i: usize = 0;
        while i < size
            invariant
                i <= size,
                values@.len() == i,
                forall|j: int| 0 <= j < i ==> (#[trigger] values@[j])@ == 0u32,
            decreases size - i,
        {
            values.push(Value::from(0u32));
            i += 1;
        }
        assert(bits_of(values@) =~= Seq::new(size as nat, |j: int| 0u32));
        Memory { values }
    }

    /// The word at `address`.
    pub fn read(&self, address: u32) -> (result: Result<Value, InvalidAddress>)
        ensures
            match result {
                Ok(value) => address < self@.len() && value == self.values@[address as int],
                Err(_) => address >= self@.len(),
            },
    {
        let index = address as usize;
        if index < self.values.len() {
            Ok(self.values[index])
        } else {
            Err(InvalidAddress)
        }
    }

    /// Store `value` at `address`; all other words stay as they are.
    pub fn write(&mut self, address: u32, value: Value) -> (result: Result<(), InvalidAddress>)
        ensures
            result is Ok <==> address < old(self)@.len(),
            final(self).values@ == (if address < old(self)@.len() {
                old(self).values@.update(address as int, value)
            } else {
                old(self).values@
            }),
            final(self)@ == (if address < old(self)@.len() {
                old(self)@.update(address as int, value@)
            } else {
                old(self)@
            }),
    {
        let index = address as usize;
        if index < self.values.len() {
            self.values.set(index, value);
            assert(self@ =~= old(self)@.update(address as int, value@));
            Ok(())
        } else {
            Err(InvalidAddress)
        }
    }

    /// The memory as text: its words in decimal notation, by address, with
    /// a comma and a space between each two of them, in square brackets.
    pub fn to_text(&self) -> (text: String)
        ensures
            text@ == seq!['['] + joined(self@, seq![',', ' ']) + seq![']'],
    {
        proof {
            reveal_strlit("[");
            reveal_strlit(", ");
            reveal_strlit("]");
            assert(", "@ =~= seq![',', ' ']);
            assert("["@ =~= seq!['[']);
            assert("]"@ =~= seq![']']);
        }
        let mut text = String::from_str("[");
        let words = unsigned_words(&self.values);
        let inner = join(&words, ", ");
        text.append(inner.as_str());
        text.append("]");
        text
    }

    /// The words in the memory, by address, read as unsigned integers.
    pub fn to_u32_slice(&self) -> (words: Vec<u32>)
        ensures
            words@ == self@,
    {
        unsigned_words(&self.values)
    }
}

impl From<InvalidAddress> for Effect {
    fn from(invalid: InvalidAddress) -> (effect: Effect) {
        Effect::InvalidAddress
    }
}

impl vstd::std_specs::convert::FromSpecImpl<InvalidAddress> for Effect {
    open spec fn obeys_from_spec() -> bool {
        true
    }

    open spec fn from_spec(invalid: InvalidAddress) -> Effect {
        Effect::InvalidAddress
    }
}

} // verus!
