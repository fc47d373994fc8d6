//! Numbers as text.

use crate::text::chars_of;
use vstd::prelude::*;

verus! {

broadcast use vstd::string::group_string_axioms;

/// The character for a decimal digit.
pub open spec fn digit_char(digit: nat) -> char {
    ((digit + 48) as u8) as char
}

/// A number in decimal.
pub open spec fn decimal(n: nat) -> Seq<char>
    decreases n,
{
    if n < 10 {
        seq![digit_char(n)]
    } else {
        decimal(n / 10).push(digit_char(n % 10))
    }
}

/// An integer in decimal, with a minus sign where it is negative.
pub open spec fn signed_decimal(n: int) -> Seq<char> {
    if n < 0 {
        seq!['-'] + decimal((-n) as nat)
    } else {
        decimal(n as nat)
    }
}

/// The characters in reverse order, as a string.
fn reversed_text(chars: &Vec<char>) -> (text: String)
    ensures
        text@ == chars@.reverse(),
{
    let n: usize = chars.len();
    let mut text = String::new();
    let mut i: usize = n;
    while i > 0
        invariant
            i <= n,
            n == chars@.len(),
            text@ == chars@.reverse().take(n - i),
        decreases i,
    {
        i = i - 1;
        text.push(chars[i]);
        assert(chars@.reverse().take(n - i) =~= chars@.reverse().take(n - i - 1).push(
            chars@[i as int],
        ));
    }
    assert(chars@.reverse().take(n as int) =~= chars@.reverse());
    text
}

/// `n` in decimal.
pub fn decimal_text(n: u64) -> (text: String)
    ensures
        text@ == decimal(n as nat),
{
    let mut digits: Vec<char> = Vec::new();
    let mut left: u64 = n;
    while left >= 10
        invariant
            decimal(n as nat) == decimal(left as nat) + digits@.reverse(),
        decreases left,
    {
        let digit: u8 = (left % 10) as u8;
        let c: char = (digit + 48) as char;
        let ghost before = digits@;
        digits.push(c);
        proof {
            assert(digits@.reverse() =~= seq![c] + before.reverse());
            assert(decimal(left as nat) == decimal((left / 10) as nat).push(c));
            assert(decimal((left / 10) as nat).push(c) + before.reverse() =~= decimal(
                (left / 10) as nat,
            ) + digits@.reverse());
        }
        left = left / 10;
    }
    let last: u8 = left as u8;
    let c: char = (last + 48) as char;
    let ghost before = digits@;
    digits.push(c);
    assert(digits@.reverse() =~= seq![c] + before.reverse());
    reversed_text(&digits)
}

/// Whether a character is a decimal digit.
pub open spec fn is_digit(c: char) -> bool {
    '0' <= c <= '9'
}

/// Whether a text holds decimal digits only.
pub open spec fn all_digits(text: Seq<char>) -> bool {
    forall|i: int| 0 <= i < text.len() ==> is_digit(#[trigger] text[i])
}

/// The number that decimal digits stand for.
pub open spec fn digits_value(digits: Seq<char>) -> nat
    decreases digits.len(),
{
    if digits.len() == 0 {
        0
    } else {
        digits_value(digits.drop_last()) * 10 + (digits.last() as nat - 48) as nat
    }
}

/// The number that a text stands for, when it is an unsigned decimal of at most `max`.
///
/// One `+` may stand in front. Anything but digits, no digit at all, or a larger number is no
/// number.
pub open spec fn parsed(text: Seq<char>, max: nat) -> Option<nat> {
    let digits = if text.len() > 0 && text[0] == '+' {
        text.drop_first()
    } else {
        text
    };
    if digits.len() > 0 && all_digits(digits) && digits_value(digits) <= max {
        Some(digits_value(digits))
    } else {
        None
    }
}

/// More digits never stand for a smaller number.
proof fn lemma_value_grows(digits: Seq<char>, n: int)
    requires
        0 <= n <= digits.len(),
    ensures
        digits_value(digits.take(n)) <= digits_value(digits),
    decreases digits.len() - n,
{
    if n < digits.len() {
        lemma_value_grows(digits, n + 1);
        assert(digits.take(n + 1).drop_last() =~= digits.take(n));
    } else {
        assert(digits.take(n) =~= digits);
    }
}

/// The number that `text` stands for, when it is an unsigned decimal of at most `max`.
pub fn parse_unsigned(text: &str, max: u64) -> (number: Option<u64>)
    ensures
        match number {
            Some(n) => parsed(text@, max as nat) == Some(n as nat),
            None => parsed(text@, max as nat) is None,
        },
{
    let chars = chars_of(text);
    let n: usize = chars.len();
    let start: usize = if n > 0 && chars[0] == '+' {
        1
    } else {
        0
    };
    let ghost digits = text@.skip(start as int);
    proof {
        if start == 0 {
            assert(digits =~= text@);
        } else {
            assert(digits =~= text@.drop_first());
        }
    }
    if start == n {
        return None;
    }
    let mut value: u64 = 0;
    let mut i: usize = start;
    assert(digits.take(0) =~= seq![]);
    while i < n
        invariant
            start <= i <= n,
            n == chars@.len(),
            chars@ == text@,
            digits == text@.skip(start as int),
            value == digits_value(digits.take(i - start)),
            value <= max,
            forall|j: int| 0 <= j < i - start ==> is_digit(#[trigger] digits[j]),
            text@.len() > 0,
            digits == (if text@[0] == '+' {
                text@.drop_first()
            } else {
                text@
            }),
        decreases n - i,
    {
        let c = chars[i];
        assert(digits[i - start] == c);
        if !('0' <= c && c <= '9') {
            assert(!is_digit(digits[i - start]));
            return None;
        }
        let digit: u64 = ((c as u8) - 48) as u64;
        proof {
            assert(digits.take(i - start + 1).drop_last() =~= digits.take(i - start));
            lemma_value_grows(digits, i - start + 1);
        }
        let next: u128 = (value as u128) * 10 + (digit as u128);
        if next > max as u128 {
            return None;
        }
        value = next as u64;
        i = i + 1;
    }
    assert(digits.take(n - start) =~= digits);
    Some(value)
}

/// The character for a hexadecimal digit.
pub open spec fn hex_char(digit: nat) -> char {
    if digit < 10 {
        ((digit + 48) as u8) as char
    } else {
        ((digit + 87) as u8) as char
    }
}

/// The last `width` hexadecimal digits of a number.
pub open spec fn hex_digits(n: nat, width: nat) -> Seq<char>
    decreases width,
{
    if width == 0 {
        seq![]
    } else {
        hex_digits(n / 16, (width - 1) as nat).push(hex_char(n % 16))
    }
}

/// `n` in hexadecimal with sixteen digits.
pub fn hex_text(n: u64) -> (text: String)
    ensures
        text@ == hex_digits(n as nat, 16),
{
    let mut digits: Vec<char> = Vec::new();
    let mut left: u64 = n;
    let mut width: u64 = 16;
    while width > 0
        invariant
            width <= 16,
            hex_digits(n as nat, 16) == hex_digits(left as nat, width as nat) + digits@.reverse(),
        decreases width,
    {
        let digit: u8 = (left % 16) as u8;
        let c: char = if digit < 10 {
            (digit + 48) as char
        } else {
            (digit + 87) as char
        };
        let ghost before = digits@;
        digits.push(c);
        proof {
            assert(digits@.reverse() =~= seq![c] + before.reverse());
            assert(hex_digits(left as nat, width as nat) == hex_digits(
                (left / 16) as nat,
                (width - 1) as nat,
            ).push(c));
            assert(hex_digits((left / 16) as nat, (width - 1) as nat).push(c) + before.reverse()
                =~= hex_digits((left / 16) as nat, (width - 1) as nat) + digits@.reverse());
        }
        left = left / 16;
        width = width - 1;
    }
    reversed_text(&digits)
}

} // verus!
