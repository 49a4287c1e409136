use vstd::prelude::*;

verus! {

/// The signed (two's complement) reading of a 32-bit word.
pub open spec fn signed(bits: u32) -> int {
    if bits < 0x8000_0000 {
        bits as int
    } else {
        bits as int - 0x1_0000_0000
    }
}

/// The 32-bit word whose signed (two's complement) reading is `number`.
pub open spec fn unsigned(number: int) -> u32
    recommends
        i32::MIN <= number <= i32::MAX,
{
    if number >= 0 {
        number as u32
    } else {
        (number + 0x1_0000_0000) as u32
    }
}

/// Casting a word to `i32` gives its signed reading.
pub proof fn lemma_signed_cast(bits: u32)
    ensures
        (bits as i32) as int == signed(bits),
        unsigned((bits as i32) as int) == bits,
{
    assert(bits < 0x8000_0000 ==> (bits as i32) as int == bits as int) by (bit_vector);
    assert(bits >= 0x8000_0000 ==> (bits as i32) as int == bits as int - 0x1_0000_0000)
        by (bit_vector);
}

/// Casting a signed integer to `u32` gives the word that reads as it.
pub proof fn lemma_unsigned_cast(number: i32)
    ensures
        number as u32 == unsigned(number as int),
        signed(unsigned(number as int)) == number,
{
    assert(number >= 0 ==> (number as u32) as int == number as int) by (bit_vector);
    assert(number < 0 ==> (number as u32) as int == number as int + 0x1_0000_0000)
        by (bit_vector);
}

/// A unit of data: one 32-bit word, with no sign of its own.
///
/// All values on the operand stack and in memory are such words. Operators
/// read them as unsigned or as signed (two's complement) integers, as they
/// need.
#[derive(Clone, Copy, Debug, PartialEq, Eq, Structural)]
pub struct Value {
    inner: u32,
}

impl View for Value {
    type V = u32;

    /// The word, read as an unsigned integer.
    closed spec fn view(&self) -> u32 {
        self.inner
    }
}

impl DeepView for Value {
    type V = u32;

    open spec fn deep_view(&self) -> u32 {
        self@
    }
}

impl Value {
    /// Read the word as a signed (two's complement) integer.
    pub fn to_i32(self) -> (number: i32)
        ensures
            number as int == signed(self@),
            unsigned(number as int) == self@,
    {
        let bits = self.inner;
        let number = bits as i32;
        proof {
            lemma_signed_cast(bits);
        }
        number
    }

    /// Read the word as an unsigned integer.
    pub fn to_u32(self) -> (bits: u32)
        ensures
            bits == self@,
    {
        self.inner
    }

    /// Read the word as an index into a collection.
    pub fn to_usize(self) -> (index: usize)
        ensures
            index == self@,
    {
        self.inner as usize
    }
}

/// Two values with the same bits are the same value.
pub proof fn lemma_value_ext(a: Value, b: Value)
    ensures
        a@ == b@ <==> a == b,
{
}

impl From<i32> for Value {
    fn from(number: i32) -> (value: Value) {
        let inner = number as u32;
        proof {
            lemma_unsigned_cast(number);
        }
        Value { inner }
    }
}

impl vstd::std_specs::convert::FromSpecImpl<i32> for Value {
    open spec fn obeys_from_spec() -> bool {
        true
    }

    open spec fn from_spec(number: i32) -> Value {
        Value::from_bits(unsigned(number as int))
    }
}

impl Value {
    /// The value whose bits are `bits`.
    pub closed spec fn from_bits(bits: u32) -> Value {
        Value { inner: bits }
    }

    /// `from_bits` and the view are inverse to each other.
    pub broadcast proof fn lemma_from_bits(bits: u32)
        ensures
            (#[trigger] Value::from_bits(bits))@ == bits,
    {
    }
}

impl From<u32> for Value {
    fn from(bits: u32) -> (value: Value) {
        Value { inner: bits }
    }
}

impl vstd::std_specs::convert::FromSpecImpl<u32> for Value {
    open spec fn obeys_from_spec() -> bool {
        true
    }

    open spec fn from_spec(bits: u32) -> Value {
        Value::from_bits(bits)
    }
}

} // verus!
