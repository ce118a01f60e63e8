//! Numbers as text.

use vstd::arithmetic::power::{lemma_pow_positive, pow};
use vstd::prelude::*;
use vstd::string::StringExecFns;

verus! {

/// The lower-case hexadecimal digit for `value`.
pub open spec fn digit(value: nat) -> char {
    if value < 10 {
        (48 + value) as char
    } else {
        (87 + value) as char
    }
}

/// `value` in base `base`, without leading zeros.
pub open spec fn number(value: nat, base: nat) -> Seq<char>
    decreases value,
{
    if base < 2 || value < base {
        seq![digit(value)]
    } else {
        proof {
            assert(value / base < value) by (nonlinear_arith)
                requires
                    2 <= base <= value,
            ;
        }
        number(value / base, base).push(digit(value % base))
    }
}

/// The last `width` digits of `value` in base `base`.
pub open spec fn padded(value: nat, base: nat, width: nat) -> Seq<char>
    decreases width,
{
    if width == 0 {
        Seq::empty()
    } else {
        padded(value / base, base, (width - 1) as nat).push(digit(value % base))
    }
}

fn digit_text(value: u64) -> (text: &'static str)
    requires
        value < 16,
    ensures
        text@ == seq![digit(value as nat)],
{
    proof {
        reveal_strlit("0");
        reveal_strlit("1");
        reveal_strlit("2");
        reveal_strlit("3");
        reveal_strlit("4");
        reveal_strlit("5");
        reveal_strlit("6");
        reveal_strlit("7");
        reveal_strlit("8");
        reveal_strlit("9");
        reveal_strlit("a");
        reveal_strlit("b");
        reveal_strlit("c");
        reveal_strlit("d");
        reveal_strlit("e");
        reveal_strlit("f");
    }
    let text = match value {
        0 => "0",
        1 => "1",
        2 => "2",
        3 => "3",
        4 => "4",
        5 => "5",
        6 => "6",
        7 => "7",
        8 => "8",
        9 => "9",
        10 => "a",
        11 => "b",
        12 => "c",
        13 => "d",
        14 => "e",
        _ => "f",
    };
    assert(text@ =~= seq![digit(value as nat)]);
    text
}

/// Appends `value` in decimal.
pub fn append_number(text: &mut String, value: u64)
    ensures
        final(text)@ == old(text)@ + number(value as nat, 10),
    decreases value,
{
    let ghost before = text@;
    if value >= 10 {
        append_number(text, value / 10);
        text.append(digit_text(value % 10));
        assert(text@ =~= before + number(value as nat, 10));
    } else {
        text.append(digit_text(value));
    }
}

/// Appends the last `width` digits of `value` in base `base`.
pub fn append_padded(text: &mut String, value: u64, base: u64, width: u8)
    requires
        2 <= base <= 16,
    ensures
        final(text)@ == old(text)@ + padded(value as nat, base as nat, width as nat),
    decreases width,
{
    let ghost before = text@;
    if width > 0 {
        append_padded(text, value / base, base, width - 1);
        text.append(digit_text(value % base));
    }
    assert(text@ =~= before + padded(value as nat, base as nat, width as nat));
}

/// The value of a digit.
pub open spec fn digit_weight(c: char) -> int {
    if '0' <= c <= '9' {
        c as int - '0' as int
    } else {
        c as int - 'a' as int + 10
    }
}

/// Whether a character is a digit of base `base`.
pub open spec fn is_digit(c: char, base: nat) -> bool {
    ('0' <= c <= '9' || 'a' <= c <= 'f') && digit_weight(c) < base
}

/// The number that digits stand for, the first one counting most.
pub open spec fn read_back(text: Seq<char>, base: nat) -> int
    decreases text.len(),
{
    if text.len() == 0 {
        0
    } else {
        read_back(text.drop_last(), base) * base + digit_weight(text.last())
    }
}

/// Each digit stands for its value.
pub proof fn law_digits_distinct(value: nat)
    requires
        value < 16,
    ensures
        digit_weight(digit(value)) == value,
        forall|base: nat| value < base ==> #[trigger] is_digit(digit(value), base),
{
}

/// A number that is written out reads back as the number, consists of digits and has no
/// leading zero.
pub proof fn law_number_reads_back(value: nat, base: nat)
    requires
        2 <= base <= 16,
    ensures
        read_back(number(value, base), base) == value,
        number(value, base).len() > 0,
        forall|i: int|
            0 <= i < number(value, base).len() ==> is_digit(
                #[trigger] number(value, base)[i],
                base,
            ),
        value > 0 ==> number(value, base)[0] != '0',
    decreases value,
{
    let text = number(value, base);
    if value < base {
        law_digits_distinct(value);
        assert(text =~= seq![digit(value)]);
        assert(text.drop_last() =~= Seq::<char>::empty());
        reveal_with_fuel(read_back, 2);
        assert(0 * base == 0) by (nonlinear_arith);
    } else {
        assert(value / base < value) by (nonlinear_arith)
            requires
                2 <= base <= value,
        ;
        assert(value / base > 0) by (nonlinear_arith)
            requires
                2 <= base <= value,
        ;
        assert(value % base < base) by (nonlinear_arith)
            requires
                2 <= base,
        ;
        let start = number(value / base, base);
        law_number_reads_back(value / base, base);
        law_digits_distinct(value % base);
        assert(text =~= start.push(digit(value % base)));
        assert(text.drop_last() =~= start);
        vstd::arithmetic::div_mod::lemma_fundamental_div_mod(value as int, base as int);
        assert((value / base) * base == base * (value / base)) by (nonlinear_arith);
        assert forall|i: int| 0 <= i < text.len() implies is_digit(#[trigger] text[i], base) by {
            if i < start.len() {
                assert(text[i] == start[i]);
            }
        }
    }
}

/// A number that is written with a fixed width has that many digits and reads back as the
/// number, if it fits.
pub proof fn law_padded_reads_back(value: nat, base: nat, width: nat)
    requires
        2 <= base <= 16,
    ensures
        padded(value, base, width).len() == width,
        read_back(padded(value, base, width), base) == value as int % pow(base as int, width),
        forall|i: int|
            0 <= i < width ==> is_digit(#[trigger] padded(value, base, width)[i], base),
    decreases width,
{
    let text = padded(value, base, width);
    if width == 0 {
        reveal(pow);
        assert(pow(base as int, 0) == 1);
    } else {
        let less = (width - 1) as nat;
        let start = padded(value / base, base, less);
        law_padded_reads_back(value / base, base, less);
        assert(value % base < base) by (nonlinear_arith)
            requires
                2 <= base,
        ;
        law_digits_distinct(value % base);
        assert(text.drop_last() =~= start);
        lemma_pow_positive(base as int, less);
        let rest = pow(base as int, less);
        assert(pow(base as int, width) == base * rest) by {
            reveal(pow);
        }
        vstd::arithmetic::div_mod::lemma_mod_breakdown(value as int, base as int, rest);
        let high = (value as int / base as int) % rest;
        assert(base * high == high * base) by (nonlinear_arith);
        assert forall|i: int| 0 <= i < width implies is_digit(#[trigger] text[i], base) by {
            if i < start.len() {
                assert(text[i] == start[i]);
            }
        }
    }
}

} // verus!
