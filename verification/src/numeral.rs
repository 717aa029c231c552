//! Integers in decimal notation.
use crate::text::chars;
use vstd::prelude::*;

verus! {

/// The character of a decimal digit.
pub open spec fn digit(value: int) -> char {
    (48 + value) as u8 as char
}

/// A natural number in decimal notation, without leading zeros.
pub open spec fn decimal(value: nat) -> Seq<char>
    decreases value,
{
    if value < 10 {
        seq![digit(value as int)]
    } else {
        decimal(value / 10).push(digit((value % 10) as int))
    }
}

/// An integer in decimal notation.
pub open spec fn signed(value: int) -> Seq<char> {
    if value < 0 {
        seq!['-'] + decimal((-value) as nat)
    } else {
        decimal(value as nat)
    }
}

/// `count` zeros.
pub open spec fn zeros(count: int) -> Seq<char> {
    Seq::new(if count < 0 { 0 } else { count as nat }, |i: int| '0')
}

/// A natural number in decimal notation with zeros before it up to `width` characters.
pub open spec fn padded(value: nat, width: int) -> Seq<char> {
    zeros(width - decimal(value).len()) + decimal(value)
}

/// A natural number in decimal notation.
pub fn numeral(value: u128) -> (result: String)
    ensures
        result@ == decimal(value as nat),
    decreases value,
{
    let last: u8 = (value % 10) as u8;
    let character: char = (48u8 + last) as char;
    let mut result = if value < 10 {
        String::new()
    } else {
        numeral(value / 10)
    };
    result.push(character);
    assert(value < 10 ==> result@ =~= seq![digit(value as int)]);
    result
}

/// An integer in decimal notation.
pub fn signed_numeral(value: i128) -> (result: String)
    ensures
        result@ == signed(value as int),
{
    if value < 0 {
        let mut result = String::new();
        result.push('-');
        assert(result@ =~= seq!['-']);
        let size: u128 = (-(value + 1)) as u128 + 1;
        result.append(numeral(size).as_str());
        result
    } else {
        numeral(value as u128)
    }
}

/// The decimal notation of a size.
pub fn count(value: usize) -> (result: String)
    ensures
        result@ == decimal(value as nat),
{
    numeral(value as u128)
}

/// A natural number in decimal notation with zeros before it up to `width` characters.
pub fn padded_numeral(value: u128, width: usize) -> (result: String)
    ensures
        result@ == padded(value as nat, width as int),
{
    let digits = numeral(value);
    let length: usize = chars(digits.as_str()).len();
    let mut result = String::new();
    let mut written: usize = length;
    while written < width
        invariant
            length <= written,
            written <= width || written == length,
            result@ == zeros(written - length),
        decreases width - written,
    {
        result.push('0');
        written += 1;
        assert(result@ =~= zeros(written - length));
    }
    result.append(digits.as_str());
    assert(result@ =~= padded(value as nat, width as int));
    result
}

/// Whether a character is an ASCII digit.
pub open spec fn is_digit(character: char) -> bool {
    48 <= character as u32 <= 57
}

/// The value of a row of ASCII digits.
pub open spec fn digits_value(digits: Seq<char>) -> nat
    decreases digits.len(),
{
    if digits.len() == 0 {
        0
    } else {
        digits_value(digits.drop_last()) * 10 + (digits.last() as u32 - 48) as nat
    }
}

/// Whether `digits` is a non-empty row of ASCII digits.
pub open spec fn all_digits(digits: Seq<char>) -> bool {
    digits.len() > 0 && forall|i: int| 0 <= i < digits.len() ==> is_digit(#[trigger] digits[i])
}

/// The integer that `text` writes: digits with an optional sign before them, within the range of
/// `i64` or of `u64`. A number with a minus sign has to lie within `i64`.
pub open spec fn integer_of(text: Seq<char>) -> Option<int> {
    let negative = text.len() > 0 && text[0] == '-';
    let digits = if text.len() > 0 && (text[0] == '-' || text[0] == '+') {
        text.skip(1)
    } else {
        text
    };
    let size = digits_value(digits) as int;
    if !all_digits(digits) {
        None
    } else if negative {
        if size <= 0x8000_0000_0000_0000 {
            Some(-size)
        } else {
            None
        }
    } else if size <= u64::MAX {
        Some(size)
    } else {
        None
    }
}

proof fn lemma_digits_grow(digits: Seq<char>, index: int)
    requires
        0 <= index <= digits.len(),
        forall|i: int| 0 <= i < digits.len() ==> is_digit(#[trigger] digits[i]),
    ensures
        digits_value(digits.take(index)) <= digits_value(digits),
    decreases digits.len() - index,
{
    if index < digits.len() {
        lemma_digits_grow(digits, index + 1);
        let longer = digits.take(index + 1);
        assert(longer.drop_last() =~= digits.take(index));
        assert(is_digit(digits[index]));
        assert(longer.last() == digits[index]);
    } else {
        assert(digits.take(index) =~= digits);
    }
}

/// The integer that `text` writes, if it writes one within the range of `i64` or of `u64`.
pub fn parse_integer(text: &str) -> (value: Option<i128>)
    ensures
        match value {
            Some(value) => integer_of(text@) == Some(value as int) && i64::MIN <= value <= u64::MAX,
            None => integer_of(text@) is None,
        },
{
    let characters = chars(text);
    let negative = characters.len() > 0 && characters[0] == '-';
    let signed = characters.len() > 0 && (characters[0] == '-' || characters[0] == '+');
    let start: usize = if signed {
        1
    } else {
        0
    };
    if start >= characters.len() {
        return None;
    }
    let ghost digits = text@.skip(start as int);
    assert(start == 0 ==> digits =~= text@);
    let mut size: u128 = 0;
    let mut index: usize = start;
    while index < characters.len()
        invariant
            start <= index <= characters@.len(),
            characters@ == text@,
            digits == text@.skip(start as int),
            start == 0 ==> digits == text@,
            signed == (text@.len() > 0 && (text@[0] == '-' || text@[0] == '+')),
            negative == (text@.len() > 0 && text@[0] == '-'),
            start == (if signed { 1int } else { 0int }),
            forall|i: int| 0 <= i < index - start ==> is_digit(#[trigger] digits[i]),
            size == digits_value(digits.take(index - start)),
            size <= u64::MAX,
        decreases characters@.len() - index,
    {
        let code: u32 = characters[index] as u32;
        assert(digits[index - start] == text@[index as int]);
        if code < 48 || code > 57 {
            assert(!is_digit(digits[index - start]));
            return None;
        }
        size = size * 10 + (code - 48) as u128;
        index += 1;
        proof {
            let taken = digits.take(index - start);
            assert(taken.drop_last() =~= digits.take(index - start - 1));
            assert(taken.last() == text@[index - 1]);
            if size > u64::MAX {
                if all_digits(digits) {
                    lemma_digits_grow(digits, index - start);
                }
            }
        }
        if size > 0xffff_ffff_ffff_ffff {
            return None;
        }
    }
    assert(digits.take(index - start) =~= digits);
    if negative {
        if size <= 0x8000_0000_0000_0000 {
            Some(-(size as i128))
        } else {
            None
        }
    } else {
        Some(size as i128)
    }
}

} // verus!
