//! Numbers as text.

use vstd::prelude::*;
use vstd::string::*;

verus! {

/// The digit with the value `digit`.
pub open spec fn digit_char(digit: int) -> char {
    if digit == 0 {
        '0'
    } else if digit == 1 {
        '1'
    } else if digit == 2 {
        '2'
    } else if digit == 3 {
        '3'
    } else if digit == 4 {
        '4'
    } else if digit == 5 {
        '5'
    } else if digit == 6 {
        '6'
    } else if digit == 7 {
        '7'
    } else if digit == 8 {
        '8'
    } else if digit == 9 {
        '9'
    } else if digit == 10 {
        'a'
    } else if digit == 11 {
        'b'
    } else if digit == 12 {
        'c'
    } else if digit == 13 {
        'd'
    } else if digit == 14 {
        'e'
    } else {
        'f'
    }
}

/// `number` in base `base`, without leading zeros.
pub open spec fn digits(number: int, base: int) -> Seq<char>
    decreases number,
{
    if number < base || base < 2 {
        seq![digit_char(number)]
    } else {
        proof {
            vstd::arithmetic::div_mod::lemma_div_decreases(number, base);
            vstd::arithmetic::div_mod::lemma_div_pos_is_pos(number, base);
        }
        digits(number / base, base).push(digit_char(number % base))
    }
}

/// The last `width` hexadecimal digits of `number`.
pub open spec fn hex_digits(number: int, width: nat) -> Seq<char>
    decreases width,
{
    if width == 0 {
        Seq::empty()
    } else {
        hex_digits(number / 16, (width - 1) as nat).push(digit_char(number % 16))
    }
}

/// `number` in base ten.
pub open spec fn decimal(number: int) -> Seq<char> {
    digits(number, 10)
}

/// `number` in base sixteen, with a prefix that says so.
pub open spec fn hexadecimal(number: int) -> Seq<char> {
    "0x"@ + digits(number, 16)
}

/// `number` in base sixteen with `width` digits, with a prefix that says so.
pub open spec fn padded_hexadecimal(number: int, width: nat) -> Seq<char> {
    "0x"@ + hex_digits(number, width)
}

/// Four bytes as a list.
pub open spec fn byte_list(bytes: Seq<u8>) -> Seq<char> {
    "["@ + decimal(bytes[0] as int) + ", "@ + decimal(bytes[1] as int) + ", "@ + decimal(
        bytes[2] as int,
    ) + ", "@ + decimal(bytes[3] as int) + "]"@
}

/// A truth value in words.
pub open spec fn truth(value: bool) -> Seq<char> {
    if value {
        "true"@
    } else {
        "false"@
    }
}

/// Appends one digit.
fn append_digit(text: &mut String, digit: u64)
    requires
        digit < 16,
    ensures
        final(text)@ == old(text)@.push(digit_char(digit as int)),
{
    let ghost before = text@;
    let s: &str = match digit {
        0 => "0",
        1 => "1",
        2 => "2",
        3 => "3",
        4 => "4",
        5 => "5",
        6 => "6",
        7 => "7",
        8 => "8",
        9 => "9",
        10 => "a",
        11 => "b",
        12 => "c",
        13 => "d",
        14 => "e",
        _ => "f",
    };
    proof {
        reveal_strlit("0");
        reveal_strlit("1");
        reveal_strlit("2");
        reveal_strlit("3");
        reveal_strlit("4");
        reveal_strlit("5");
        reveal_strlit("6");
        reveal_strlit("7");
        reveal_strlit("8");
        reveal_strlit("9");
        reveal_strlit("a");
        reveal_strlit("b");
        reveal_strlit("c");
        reveal_strlit("d");
        reveal_strlit("e");
        reveal_strlit("f");
        assert(s@ =~= seq![digit_char(digit as int)]);
    }
    text.append(s);
    assert(text@ =~= before.push(digit_char(digit as int)));
}

/// Appends a number in base ten or sixteen.
fn append_digits(text: &mut String, number: u64, base: u64)
    requires
        base == 10 || base == 16,
    ensures
        final(text)@ == old(text)@ + digits(number as int, base as int),
    decreases number,
{
    let ghost before = text@;
    if number >= base {
        append_digits(text, number / base, base);
    }
    append_digit(text, number % base);
    assert(text@ =~= before + digits(number as int, base as int));
}

/// Appends the last digits of a number in base sixteen.
fn append_hex_digits(text: &mut String, number: u64, width: usize)
    ensures
        final(text)@ == old(text)@ + hex_digits(number as int, width as nat),
    decreases width,
{
    let ghost before = text@;
    if width > 0 {
        append_hex_digits(text, number / 16, width - 1);
        append_digit(text, number % 16);
    }
    assert(text@ =~= before + hex_digits(number as int, width as nat));
}

/// Appends a number in base ten.
pub fn append_decimal(text: &mut String, number: u64)
    ensures
        final(text)@ == old(text)@ + decimal(number as int),
{
    append_digits(text, number, 10);
}

/// Appends a number in base sixteen, with a prefix that says so.
pub fn append_hexadecimal(text: &mut String, number: u64)
    ensures
        final(text)@ == old(text)@ + hexadecimal(number as int),
{
    let ghost before = text@;
    text.append("0x");
    append_digits(text, number, 16);
    assert(text@ =~= before + hexadecimal(number as int));
}

/// Appends a number in base sixteen with so many digits, with a prefix that
/// says so.
pub fn append_padded_hexadecimal(text: &mut String, number: u64, width: usize)
    ensures
        final(text)@ == old(text)@ + padded_hexadecimal(number as int, width as nat),
{
    let ghost before = text@;
    text.append("0x");
    append_hex_digits(text, number, width);
    assert(text@ =~= before + padded_hexadecimal(number as int, width as nat));
}

/// Appends four bytes as a list.
pub fn append_byte_list(text: &mut String, bytes: &[u8; 4])
    ensures
        final(text)@ == old(text)@ + byte_list(bytes@),
{
    let ghost before = text@;
    text.append("[");
    append_decimal(text, bytes[0] as u64);
    text.append(", ");
    append_decimal(text, bytes[1] as u64);
    text.append(", ");
    append_decimal(text, bytes[2] as u64);
    text.append(", ");
    append_decimal(text, bytes[3] as u64);
    text.append("]");
    assert(text@ =~= before + byte_list(bytes@));
}

/// Appends a truth value in words.
pub fn append_truth(text: &mut String, value: bool)
    ensures
        final(text)@ == old(text)@ + truth(value),
{
    if value {
        text.append("true");
    } else {
        text.append("false");
    }
}

/// The digits are the characters from `'0'` on for the values up to nine, and
/// from `'a'` on for those above.
pub proof fn law_digit_characters(digit: int)
    requires
        0 <= digit < 16,
    ensures
        digit < 10 ==> digit_char(digit) as int == 48 + digit,
        digit >= 10 ==> digit_char(digit) as int == 97 + digit - 10,
{
}

/// A number below the base is one digit. Any other is the digits of the number
/// without its last digit, and its last digit.
pub proof fn law_digits_of_a_number(number: int, digit: int)
    requires
        0 <= number,
    ensures
        0 <= digit < 10 ==> decimal(digit) == seq![digit_char(digit)],
        0 <= digit < 10 && number > 0 ==> decimal(10 * number + digit) == decimal(number).push(
            digit_char(digit),
        ),
        0 <= digit < 16 ==> hexadecimal(digit) == "0x"@ + seq![digit_char(digit)],
        0 <= digit < 16 && number > 0 ==> hexadecimal(16 * number + digit) == hexadecimal(
            number,
        ).push(digit_char(digit)),
{
    if 0 <= digit < 10 && number > 0 {
        assert((10 * number + digit) / 10 == number && (10 * number + digit) % 10 == digit);
    }
    if 0 <= digit < 16 && number > 0 {
        assert((16 * number + digit) / 16 == number && (16 * number + digit) % 16 == digit);
        assert("0x"@ + digits(number, 16).push(digit_char(digit)) =~= ("0x"@ + digits(
            number,
            16,
        )).push(digit_char(digit)));
    }
}

/// A padded number has as many digits as it was asked for, and its last digits
/// are those of the number.
pub proof fn law_padded_digits(number: int, digit: int, width: nat)
    requires
        0 <= number,
        0 <= digit < 16,
    ensures
        padded_hexadecimal(number, 0) == "0x"@,
        padded_hexadecimal(number, width).len() == "0x"@.len() + width,
        padded_hexadecimal(16 * number + digit, width + 1) == padded_hexadecimal(
            number,
            width,
        ).push(digit_char(digit)),
{
    lemma_hex_width(number, width);
    assert((16 * number + digit) / 16 == number && (16 * number + digit) % 16 == digit);
    assert("0x"@ + hex_digits(number, width).push(digit_char(digit)) =~= ("0x"@ + hex_digits(
        number,
        width,
    )).push(digit_char(digit)));
    assert("0x"@ + hex_digits(number, 0) =~= "0x"@);
}

/// How many digits there are.
proof fn lemma_hex_width(number: int, width: nat)
    ensures
        hex_digits(number, width).len() == width,
    decreases width,
{
    if width > 0 {
        lemma_hex_width(number / 16, (width - 1) as nat);
    }
}

} // verus!
