//! Integer literals: an optional sign, then one or more digits.

use vstd::prelude::*;

verus! {

/// What `byte` counts as a digit: `0` to `9` for the digits, then `10` to `35`
/// for the letters of either case, and `36` for any other byte.
pub open spec fn digit_of(byte: u8) -> int {
    if 0x30 <= byte <= 0x39 {
        byte - 0x30
    } else if 0x61 <= byte <= 0x7a {
        byte - 0x61 + 10
    } else if 0x41 <= byte <= 0x5a {
        byte - 0x41 + 10
    } else {
        36
    }
}

/// Whether `text` is one or more digits of base `radix`, and nothing else.
pub open spec fn is_digits(text: Seq<u8>, radix: int) -> bool {
    text.len() > 0 && forall|i: int| 0 <= i < text.len() ==> digit_of(#[trigger] text[i]) < radix
}

/// The number that the digits of `text` denote in base `radix`, the first
/// digit being the most significant.
pub open spec fn number_of(text: Seq<u8>, radix: int) -> int
    decreases text.len(),
{
    if text.len() == 0 {
        0
    } else {
        number_of(text.drop_last(), radix) * radix + digit_of(text.last())
    }
}

/// Whether `text` begins with a plus sign.
pub open spec fn has_plus(text: Seq<u8>) -> bool {
    text.len() > 0 && text[0] == 0x2b
}

/// Whether `text` begins with a minus sign.
pub open spec fn has_minus(text: Seq<u8>) -> bool {
    text.len() > 0 && text[0] == 0x2d
}

/// The signed 32-bit integer that `text` denotes in base `radix`: an optional
/// `+` or `-`, then digits whose number, with that sign, lies in the range of
/// `i32`. `None` for any other text.
pub open spec fn signed_literal(text: Seq<u8>, radix: int) -> Option<int> {
    let digits = if has_plus(text) || has_minus(text) {
        text.skip(1)
    } else {
        text
    };
    let number = if has_minus(text) {
        -number_of(digits, radix)
    } else {
        number_of(digits, radix)
    };
    if is_digits(digits, radix) && i32::MIN <= number <= i32::MAX {
        Some(number)
    } else {
        None
    }
}

/// The unsigned 32-bit integer that `text` denotes in base `radix`: an
/// optional `+`, then digits whose number lies in the range of `u32`. `None`
/// for any other text.
pub open spec fn unsigned_literal(text: Seq<u8>, radix: int) -> Option<int> {
    let digits = if has_plus(text) {
        text.skip(1)
    } else {
        text
    };
    if is_digits(digits, radix) && number_of(digits, radix) <= u32::MAX {
        Some(number_of(digits, radix))
    } else {
        None
    }
}

/// A number does not shrink when digits are appended to it.
pub proof fn lemma_number_of_prefix(text: Seq<u8>, radix: int, n: int)
    requires
        0 <= n <= text.len(),
        radix >= 1,
    ensures
        0 <= number_of(text.take(n), radix) <= number_of(text, radix),
    decreases text.len() - n,
{
    lemma_number_of_nonnegative(text.take(n), radix);
    if n == text.len() {
        assert(text.take(n) =~= text);
    } else {
        lemma_number_of_prefix(text, radix, n + 1);
        let longer = text.take(n + 1);
        assert(longer.drop_last() =~= text.take(n));
        assert(number_of(longer, radix) == number_of(text.take(n), radix) * radix + digit_of(
            longer.last(),
        ));
        assert(number_of(text.take(n), radix) * radix >= number_of(text.take(n), radix))
            by (nonlinear_arith)
            requires
                number_of(text.take(n), radix) >= 0,
                radix >= 1,
        ;
    }
}

/// No text denotes a negative number.
pub proof fn lemma_number_of_nonnegative(text: Seq<u8>, radix: int)
    requires
        radix >= 1,
    ensures
        number_of(text, radix) >= 0,
    decreases text.len(),
{
    if text.len() > 0 {
        lemma_number_of_nonnegative(text.drop_last(), radix);
        assert(number_of(text.drop_last(), radix) * radix >= 0) by (nonlinear_arith)
            requires
                number_of(text.drop_last(), radix) >= 0,
                radix >= 1,
        ;
    }
}

/// The value of `byte` as a digit, or `36` where it is none.
fn digit(byte: u8) -> (value: u64)
    ensures
        value == digit_of(byte),
{
    if 0x30 <= byte && byte <= 0x39 {
        (byte - 0x30) as u64
    } else if 0x61 <= byte && byte <= 0x7a {
        (byte - 0x61) as u64 + 10
    } else if 0x41 <= byte && byte <= 0x5a {
        (byte - 0x41) as u64 + 10
    } else {
        36
    }
}

/// The number that `text[from..]` denotes in base `radix`, where that is
/// one or more digits and their number is at most `limit`.
fn parse_digits(text: &[u8], from: usize, radix: u64, limit: u64) -> (result: Option<u64>)
    requires
        from <= text@.len(),
        1 <= radix <= 36,
        limit <= 0x1_0000_0000,
    ensures
        result == (if is_digits(text@.skip(from as int), radix as int) && number_of(
            text@.skip(from as int),
            radix as int,
        ) <= limit {
            Some(number_of(text@.skip(from as int), radix as int) as u64)
        } else {
            None
        }),
{
    let ghost digits = text@.skip(from as int);
    if from == text.len() {
        return None;
    }
    let mut number: u64 = 0;
    let mut i: usize = from;
    while i < text.len()
        invariant
            from <= i <= text@.len(),
            digits == text@.skip(from as int),
            1 <= radix <= 36,
            limit <= 0x1_0000_0000,
            number == number_of(digits.take(i - from), radix as int),
            number <= limit,
            forall|j: int| 0 <= j < i - from ==> digit_of(#[trigger] digits[j]) < radix,
        decreases text@.len() - i,
    {
        let value = digit(text[i]);
        if value >= radix {
            assert(digit_of(digits[i - from]) >= radix);
            return None;
        }
        let ghost shorter = digits.take(i - from);
        let ghost longer = digits.take(i - from + 1);
        proof {
            assert(longer.drop_last() =~= shorter);
            assert(longer.last() == text@[i as int]);
            assert(number * radix <= 0x1_0000_0000 * 36) by (nonlinear_arith)
                requires
                    number <= 0x1_0000_0000,
                    radix <= 36,
            ;
        }
        number = number * radix + value;
        i += 1;
        if number > limit {
            proof {
                if is_digits(digits, radix as int) {
                    lemma_number_of_prefix(digits, radix as int, i - from);
                }
            }
            return None;
        }
    }
    assert(digits.take(i - from) =~= digits);
    Some(number)
}

/// Parse `text` as a signed 32-bit integer in base `radix`.
pub fn parse_signed(text: &[u8], radix: u32) -> (result: Option<i32>)
    requires
        2 <= radix <= 36,
    ensures
        match result {
            Some(number) => signed_literal(text@, radix as int) == Some(number as int),
            None => signed_literal(text@, radix as int) is None,
        },
{
    let negative = text.len() > 0 && text[0] == 0x2d;
    let signed = text.len() > 0 && (text[0] == 0x2b || text[0] == 0x2d);
    let from: usize = if signed {
        1
    } else {
        0
    };
    assert(text@.skip(0) =~= text@);
    proof {
        lemma_number_of_nonnegative(text@.skip(from as int), radix as int);
    }
    if negative {
        match parse_digits(text, from, radix as u64, 0x8000_0000) {
            Some(number) => {
                let wide: i64 = -(number as i64);
                Some(wide as i32)
            },
            None => None,
        }
    } else {
        match parse_digits(text, from, radix as u64, 0x7fff_ffff) {
            Some(number) => Some(number as i32),
            None => None,
        }
    }
}

/// Parse `text` as an unsigned 32-bit integer in base `radix`.
pub fn parse_unsigned(text: &[u8], radix: u32) -> (result: Option<u32>)
    requires
        2 <= radix <= 36,
    ensures
        match result {
            Some(number) => unsigned_literal(text@, radix as int) == Some(number as int),
            None => unsigned_literal(text@, radix as int) is None,
        },
{
    let from: usize = if text.len() > 0 && text[0] == 0x2b {
        1
    } else {
        0
    };
    assert(text@.skip(0) =~= text@);
    proof {
        lemma_number_of_nonnegative(text@.skip(from as int), radix as int);
    }
    match parse_digits(text, from, radix as u64, 0xffff_ffff) {
        Some(number) => Some(number as u32),
        None => None,
    }
}

} // verus!
