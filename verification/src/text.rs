//! Words as text, for hosts that show them.

use vstd::prelude::*;
use vstd::string::StringExecFns;

verus! {

/// The character for a digit from `0` to `9`.
pub open spec fn digit_character(digit: nat) -> char
    recommends
        digit < 10,
{
    (0x30 + digit) as char
}

/// `number` in decimal notation: its digits, the most significant first,
/// without leading zeros; `0` for zero.
pub open spec fn decimal(number: nat) -> Seq<char>
    decreases number,
{
    if number < 10 {
        seq![digit_character(number)]
    } else {
        decimal(number / 10).push(digit_character(number % 10))
    }
}

/// The words of a sequence in decimal notation, with `separator` between
/// each two of them.
pub open spec fn joined(words: Seq<u32>, separator: Seq<char>) -> Seq<char>
    decreases words.len(),
{
    if words.len() == 0 {
        Seq::empty()
    } else if words.len() == 1 {
        decimal(words[0] as nat)
    } else {
        joined(words.drop_last(), separator) + separator + decimal(words.last() as nat)
    }
}

/// The standard library's conversion of a `u32` to a string, which gives the
/// number in decimal notation, with no sign and no leading zeros.
#[verifier::external_body]
fn decimal_text(word: u32) -> (text: String)
    ensures
        text@ == decimal(word as nat),
{
    word.to_string()
}

/// The words in decimal notation, with `separator` between each two of them.
pub fn join(words: &Vec<u32>, separator: &str) -> (text: String)
    ensures
        text@ == joined(words@, separator@),
{
    let mut text = String::new();
    let mut i: usize = 0;
    while i < words.len()
        invariant
            i <= words@.len(),
            text@ == joined(words@.take(i as int), separator@),
        decreases words@.len() - i,
    {
        if i > 0 {
            text.append(separator);
        }
        let number = decimal_text(words[i]);
        text.append(number.as_str());
        i += 1;
        proof {
            let longer = words@.take(i as int);
            assert(longer.drop_last() =~= words@.take(i - 1));
            assert(longer.last() == words@[i - 1]);
            if i == 1 {
                assert(text@ =~= decimal(words@[0] as nat));
            }
        }
    }
    assert(words@.take(i as int) =~= words@);
    text
}

} // verus!
