//! Hexadecimal arguments.

use vstd::prelude::*;
use vstd::string::StringExecFns;

use crate::text::{digit, padded};

verus! {

/// Why a text is not a hexadecimal number.
#[derive(Debug, Clone, Copy, PartialEq, Eq, Structural)]
pub enum HexError {
    /// There are no digits.
    Empty,
    /// A character is not a digit.
    InvalidDigit,
    /// The number is too large.
    Overflow,
}

impl HexError {
    /// The text of the error.
    pub open spec fn spec_text(self) -> Seq<char> {
        match self {
            HexError::Empty => "cannot parse integer from empty string"@,
            HexError::InvalidDigit => "invalid digit found in string"@,
            HexError::Overflow => "number too large to fit in target type"@,
        }
    }

    /// The text of the error.
    pub fn text(&self) -> (text: &'static str)
        ensures
            text@ == self.spec_text(),
    {
        match self {
            HexError::Empty => "cannot parse integer from empty string",
            HexError::InvalidDigit => "invalid digit found in string",
            HexError::Overflow => "number too large to fit in target type",
        }
    }
}

/// The value of a hexadecimal digit.
pub open spec fn digit_value(digit: char) -> Option<nat> {
    if '0' <= digit <= '9' {
        Some((digit as nat - '0' as nat) as nat)
    } else if 'a' <= digit <= 'f' {
        Some((digit as nat - 'a' as nat + 10) as nat)
    } else if 'A' <= digit <= 'F' {
        Some((digit as nat - 'A' as nat + 10) as nat)
    } else {
        None
    }
}

/// The text without leading zeros that are each followed by `mark`.
pub open spec fn without_prefix(text: Seq<char>, mark: char) -> Seq<char>
    decreases text.len(),
{
    if text.len() >= 2 && text[0] == '0' && text[1] == mark {
        without_prefix(text.skip(2), mark)
    } else {
        text
    }
}

/// The number that is `value` followed by the digits, or the first problem.
pub open spec fn digits_value(digits: Seq<char>, value: nat, max: nat) -> Result<nat, HexError>
    decreases digits.len(),
{
    if digits.len() == 0 {
        Ok(value)
    } else {
        match digit_value(digits[0]) {
            Some(digit) => if value * 16 + digit > max {
                Err(HexError::Overflow)
            } else {
                digits_value(digits.drop_first(), value * 16 + digit, max)
            },
            None => Err(HexError::InvalidDigit),
        }
    }
}

/// The number up to `max` that a text stands for: digits after an optional prefix and an
/// optional plus sign.
pub open spec fn hex_value(text: Seq<char>, max: nat) -> Result<nat, HexError> {
    let digits = without_prefix(without_prefix(text, 'x'), 'X');
    if digits.len() == 0 {
        Err(HexError::Empty)
    } else if digits[0] == '+' {
        if digits.len() == 1 {
            Err(HexError::InvalidDigit)
        } else {
            digits_value(digits.skip(1), 0, max)
        }
    } else {
        digits_value(digits, 0, max)
    }
}

fn digit_of(c: char) -> (value: Option<u64>)
    ensures
        match value {
            Some(value) => value < 16 && digit_value(c) == Some(value as nat),
            None => digit_value(c) is None,
        },
{
    let code: u32 = c as u32;
    if 48 <= code && code <= 57 {
        Some((code - 48) as u64)
    } else if 97 <= code && code <= 102 {
        Some((code - 87) as u64)
    } else if 65 <= code && code <= 70 {
        Some((code - 55) as u64)
    } else {
        None
    }
}

fn skip_prefix(text: &str, start: usize, len: usize, mark: char) -> (pos: usize)
    requires
        start <= len == text@.len(),
    ensures
        start <= pos <= len,
        text@.skip(pos as int) == without_prefix(text@.skip(start as int), mark),
{
    let mut pos: usize = start;
    while len - pos >= 2
        invariant
            start <= pos <= len == text@.len(),
            without_prefix(text@.skip(start as int), mark) == without_prefix(
                text@.skip(pos as int),
                mark,
            ),
        decreases len - pos,
    {
        let ghost rest = text@.skip(pos as int);
        if text.get_char(pos) != '0' || text.get_char(pos + 1) != mark {
            return pos;
        }
        assert(rest.skip(2) =~= text@.skip(pos + 2));
        pos = pos + 2;
    }
    pos
}

/// Parses a hexadecimal number up to `max`.
pub fn parse_hex(text: &str, max: u64) -> (result: Result<u64, HexError>)
    requires
        max <= u32::MAX,
    ensures
        match result {
            Ok(value) => hex_value(text@, max as nat) == Ok::<nat, HexError>(value as nat)
                && value <= max,
            Err(err) => hex_value(text@, max as nat) == Err::<nat, HexError>(err),
        },
{
    let len: usize = text.unicode_len();
    assert(text@.skip(0) =~= text@);
    let pos: usize = skip_prefix(text, 0, len, 'x');
    let mut pos: usize = skip_prefix(text, pos, len, 'X');
    if pos == len {
        return Err(HexError::Empty);
    }
    if text.get_char(pos) == '+' {
        if len - pos == 1 {
            return Err(HexError::InvalidDigit);
        }
        assert(text@.skip(pos as int).skip(1) =~= text@.skip(pos + 1));
        pos = pos + 1;
    }
    let mut value: u64 = 0;
    while pos < len
        invariant
            pos <= len == text@.len(),
            value <= max <= u32::MAX,
            hex_value(text@, max as nat) == digits_value(
                text@.skip(pos as int),
                value as nat,
                max as nat,
            ),
        decreases len - pos,
    {
        let ghost rest = text@.skip(pos as int);
        assert(rest[0] == text@[pos as int]);
        match digit_of(text.get_char(pos)) {
            Some(digit) => {
                if value * 16 + digit > max {
                    return Err(HexError::Overflow);
                }
                value = value * 16 + digit;
            },
            None => {
                return Err(HexError::InvalidDigit);
            },
        }
        assert(rest.drop_first() =~= text@.skip(pos + 1));
        pos = pos + 1;
    }
    Ok(value)
}

fn message(prefix: &str, err: &HexError) -> (message: String)
    ensures
        message@ == prefix@ + err.spec_text(),
{
    let mut message = String::new();
    message.append(prefix);
    message.append(err.text());
    assert(message@ =~= prefix@ + err.spec_text());
    message
}

/// Parses a hexadecimal number of 16 bits.
pub fn parse_hex_u16(s: &str) -> (result: Result<u16, String>)
    ensures
        match result {
            Ok(value) => hex_value(s@, 0xffff) == Ok::<nat, HexError>(value as nat),
            Err(message) => hex_value(s@, 0xffff) matches Err(err) && message@
                == "invalid hex u16: "@ + err.spec_text(),
        },
{
    match parse_hex(s, 0xffff) {
        Ok(value) => Ok(value as u16),
        Err(err) => Err(message("invalid hex u16: ", &err)),
    }
}

/// Parses a hexadecimal number of 8 bits.
pub fn parse_hex_u8(s: &str) -> (result: Result<u8, String>)
    ensures
        match result {
            Ok(value) => hex_value(s@, 0xff) == Ok::<nat, HexError>(value as nat),
            Err(message) => hex_value(s@, 0xff) matches Err(err) && message@
                == "invalid hex u8: "@ + err.spec_text(),
        },
{
    match parse_hex(s, 0xff) {
        Ok(value) => Ok(value as u8),
        Err(err) => Err(message("invalid hex u8: ", &err)),
    }
}

proof fn lemma_digits_push(digits: Seq<char>, last: char, value: nat, max: nat)
    ensures
        digits_value(digits.push(last), value, max) == (match digits_value(digits, value, max) {
            Ok(start) => digits_value(seq![last], start, max),
            Err(err) => Err(err),
        }),
    decreases digits.len(),
{
    let all = digits.push(last);
    if digits.len() == 0 {
        assert(all =~= seq![last]);
    } else {
        assert(all[0] == digits[0]);
        assert(all.drop_first() =~= digits.drop_first().push(last));
        if let Some(digit) = digit_value(digits[0]) {
            if value * 16 + digit <= max {
                lemma_digits_push(digits.drop_first(), last, value * 16 + digit, max);
            }
        }
    }
}

proof fn lemma_padded(value: nat, width: nat, max: nat)
    requires
        value <= max,
        value < power16(width),
    ensures
        padded(value, 16, width).len() == width,
        digits_value(padded(value, 16, width), 0, max) == Ok::<nat, HexError>(value),
        forall|i: int|
            0 <= i < width ==> digit_value(#[trigger] padded(value, 16, width)[i]) is Some,
    decreases width,
{
    if width > 0 {
        let last = digit(value % 16);
        let start = padded(value / 16, 16, (width - 1) as nat);
        lemma_padded(value / 16, (width - 1) as nat, max);
        lemma_digits_push(start, last, 0, max);
        assert(digit_value(last) == Some(value % 16));
        reveal_with_fuel(digits_value, 2);
        assert(seq![last].drop_first() =~= Seq::<char>::empty());
    }
}

/// The number of values that `width` digits can show.
pub open spec fn power16(width: nat) -> nat
    decreases width,
{
    if width == 0 {
        1
    } else {
        16 * power16((width - 1) as nat)
    }
}

/// A number as it is listed, with leading zeros, is accepted as an argument and stands for
/// itself.
pub proof fn law_listed_number_accepted(value: nat, width: nat, max: nat)
    requires
        width > 0,
        value <= max,
        value < power16(width),
    ensures
        hex_value(padded(value, 16, width), max) == Ok::<nat, HexError>(value),
{
    let text = padded(value, 16, width);
    lemma_padded(value, width, max);
    assert(digit_value(text[0]) is Some);
    if width > 1 {
        assert(digit_value(text[1]) is Some);
    }
}

/// The digits are those of base 16 in either case, and nothing else is a digit.
pub proof fn law_hex_digits(c: char, value: nat)
    requires
        value < 16,
    ensures
        digit_value(c) is Some <==> '0' <= c <= '9' || 'a' <= c <= 'f' || 'A' <= c <= 'F',
        digit_value(c) is Some ==> digit_value(c)->0 < 16,
        digit_value(digit(value)) == Some(value),
        value >= 10 ==> digit_value((value + 55) as char) == Some(value),
{
}

/// A further digit multiplies the number by 16 and adds the digit, if that is not too
/// large. Of several problems the first one is reported.
pub proof fn law_further_digit(digits: Seq<char>, last: char, max: nat)
    ensures
        digits_value(Seq::empty(), 0, max) == Ok::<nat, HexError>(0),
        digits_value(digits.push(last), 0, max) == (match digits_value(digits, 0, max) {
            Ok(start) => match digit_value(last) {
                Some(digit) => if 16 * start + digit <= max {
                    Ok(16 * start + digit)
                } else {
                    Err(HexError::Overflow)
                },
                None => Err(HexError::InvalidDigit),
            },
            Err(err) => Err(err),
        }),
{
    lemma_digits_push(digits, last, 0, max);
    reveal_with_fuel(digits_value, 2);
    assert(seq![last].drop_first() =~= Seq::<char>::empty());
}

/// Whether a text starts with a zero and a mark.
pub open spec fn starts_with_mark(text: Seq<char>, mark: char) -> bool {
    text.len() >= 2 && text[0] == '0' && text[1] == mark
}

/// A prefix does not change the number, and neither does a plus sign in front of digits.
/// Without them the digits alone count. There must be a digit.
pub proof fn law_prefixes(text: Seq<char>, max: nat)
    ensures
        hex_value(seq!['0', 'x'] + text, max) == hex_value(text, max),
        !starts_with_mark(text, 'x') ==> hex_value(seq!['0', 'X'] + text, max) == hex_value(
            text,
            max,
        ),
        starts_with_mark(text, 'x') ==> hex_value(seq!['0', 'X'] + text, max) == Err::<
            nat,
            HexError,
        >(HexError::InvalidDigit),
        text.len() > 0 && text[0] != '+' && !starts_with_mark(text, 'x') && !starts_with_mark(
            text,
            'X',
        ) ==> hex_value(text, max) == digits_value(text, 0, max),
        text.len() > 0 ==> hex_value(seq!['+'] + text, max) == digits_value(text, 0, max),
        hex_value(seq!['+'], max) == Err::<nat, HexError>(HexError::InvalidDigit),
        hex_value(Seq::empty(), max) == Err::<nat, HexError>(HexError::Empty),
{
    let low = seq!['0', 'x'] + text;
    assert(low.skip(2) =~= text);
    assert(without_prefix(low, 'x') == without_prefix(text, 'x'));
    let high = seq!['0', 'X'] + text;
    assert(high.skip(2) =~= text);
    assert(without_prefix(high, 'x') == high);
    assert(without_prefix(high, 'X') == without_prefix(text, 'X'));
    if starts_with_mark(text, 'x') {
        assert(digit_value('0') == Some(0nat));
        assert(digit_value('x') is None);
        assert(text.drop_first()[0] == 'x');
        reveal_with_fuel(digits_value, 3);
    }
    let plus = seq!['+'] + text;
    assert(plus[0] == '+');
    assert(without_prefix(plus, 'x') == plus);
    assert(without_prefix(plus, 'X') == plus);
    assert(plus.skip(1) =~= text);
}

/// The texts that say why an argument is not a number.
pub proof fn law_hex_error_texts()
    ensures
        HexError::Empty.spec_text() == "cannot parse integer from empty string"@,
        HexError::InvalidDigit.spec_text() == "invalid digit found in string"@,
        HexError::Overflow.spec_text() == "number too large to fit in target type"@,
{
}

} // verus!
