//! Decimal numerals: writing a number out, and reading one from what was
//! typed into a field.

use vstd::prelude::*;
use vstd::string::StrSliceExecFns;
use vstd::string::StringExecFns;

verus! {

/// The character for the digit `d`.
pub open spec fn digit(d: nat) -> char
    recommends
        d < 10,
{
    seq!['0', '1', '2', '3', '4', '5', '6', '7', '8', '9'][d as int]
}

/// `n` written in decimal, without leading zeros.
pub open spec fn decimal(n: nat) -> Seq<char>
    decreases n,
{
    if n < 10 {
        seq![digit(n)]
    } else {
        decimal(n / 10).push(digit(n % 10))
    }
}

/// `decimal` never gives an empty text.
pub proof fn lemma_decimal_nonempty(n: nat)
    ensures
        decimal(n).len() > 0,
{
}

/// Whether `c` is one of the ten digits.
pub open spec fn is_digit(c: char) -> bool {
    '0' <= c <= '9'
}

/// The number that the digit `c` stands for.
pub open spec fn digit_value(c: char) -> nat
    recommends
        is_digit(c),
{
    (c as nat - '0' as nat) as nat
}

/// The number that a row of digits stands for; leading zeros count for
/// nothing.
pub open spec fn digits_value(s: Seq<char>) -> nat
    decreases s.len(),
{
    if s.len() == 0 {
        0
    } else {
        digits_value(s.drop_last()) * 10 + digit_value(s.last())
    }
}

/// The digits of a numeral: `s` without its plus sign, if it starts with
/// one.
pub open spec fn unsigned_part(s: Seq<char>) -> Seq<char> {
    if s.len() > 0 && s[0] == '+' {
        s.drop_first()
    } else {
        s
    }
}

/// The number that `s` is a numeral of, if it is one: an optional plus sign
/// and then at least one digit, and nothing else.
pub open spec fn numeral(s: Seq<char>) -> Option<nat> {
    let digits = unsigned_part(s);
    if digits.len() > 0 && (forall|i: int| 0 <= i < digits.len() ==> is_digit(#[trigger] digits[i])) {
        Some(digits_value(digits))
    } else {
        None
    }
}

/// The number that `s` is a numeral of, if it is one and the number is at
/// most `max`.
pub open spec fn numeral_up_to(s: Seq<char>, max: nat) -> Option<nat> {
    match numeral(s) {
        Some(n) => if n <= max {
            Some(n)
        } else {
            None
        },
        None => None,
    }
}

/// What a field that holds `s` counts as: the number it is a numeral of, and
/// zero where it is none or the number is above `max`.
pub open spec fn field_value(s: Seq<char>, max: nat) -> nat {
    match numeral_up_to(s, max) {
        Some(n) => n,
        None => 0,
    }
}

/// A row of digits stands for at least what any of its beginnings stands
/// for.
proof fn lemma_digits_value_grows(s: Seq<char>, k: int)
    requires
        0 <= k <= s.len(),
    ensures
        digits_value(s.take(k)) <= digits_value(s),
    decreases s.len() - k,
{
    if k < s.len() {
        lemma_digits_value_grows(s, k + 1);
        assert(s.take(k + 1).drop_last() == s.take(k));
    } else {
        assert(s.take(k) == s);
    }
}

/// The digit `d` as a text of one character.
fn digit_str(d: u32) -> (s: &'static str)
    requires
        d < 10,
    ensures
        s@ == seq![digit(d as nat)],
{
    proof {
        reveal_strlit("0");
        reveal_strlit("1");
        reveal_strlit("2");
        reveal_strlit("3");
        reveal_strlit("4");
        reveal_strlit("5");
        reveal_strlit("6");
        reveal_strlit("7");
        reveal_strlit("8");
        reveal_strlit("9");
    }
    let s = if d == 0 {
        "0"
    } else if d == 1 {
        "1"
    } else if d == 2 {
        "2"
    } else if d == 3 {
        "3"
    } else if d == 4 {
        "4"
    } else if d == 5 {
        "5"
    } else if d == 6 {
        "6"
    } else if d == 7 {
        "7"
    } else if d == 8 {
        "8"
    } else {
        "9"
    };
    s
}

/// Appends `n`, written in decimal, to `out`.
pub fn push_decimal(out: &mut String, n: u32)
    ensures
        final(out)@ == old(out)@ + decimal(n as nat),
    decreases n,
{
    if n >= 10 {
        push_decimal(out, n / 10);
    }
    out.append(digit_str(n % 10));
}

/// `n` written in decimal.
pub fn decimal_string(n: u32) -> (s: String)
    ensures
        s@ == decimal(n as nat),
{
    let mut s = String::new();
    push_decimal(&mut s, n);
    s
}

/// A text with a character outside ASCII is no numeral.
proof fn lemma_numeral_is_ascii(s: Seq<char>)
    requires
        numeral(s) is Some,
    ensures
        vstd::utf8::is_ascii_chars(s),
{
    let digits = unsigned_part(s);
    assert forall|i: int| 0 <= i < s.len() implies '\0' <= #[trigger] s[i] <= '\u{7f}' by {
        if digits.len() < s.len() && i > 0 {
            assert(is_digit(digits[i - 1]));
        }
    }
}

/// Reads the number that `text` is a numeral of, if it is one and the number
/// is at most `max`.
fn read_number(text: &str, max: u32) -> (number: Option<u32>)
    requires
        max <= 0xffff,
    ensures
        match number {
            Some(n) => numeral_up_to(text@, max as nat) == Some(n as nat),
            None => numeral_up_to(text@, max as nat) is None,
        },
{
    if !text.is_ascii() {
        proof {
            if numeral(text@) is Some {
                lemma_numeral_is_ascii(text@);
            }
        }
        return None;
    }
    proof {
        vstd::utf8::is_ascii_chars_encode_utf8(text@);
    }
    let bytes = text.as_bytes();
    let n = bytes.len();
    let start: usize = if n > 0 && bytes[0] == '+' as u8 {
        1
    } else {
        0
    };
    let ghost digits = unsigned_part(text@);
    if start == n {
        return None;
    }
    let mut value: u32 = 0;
    let mut i: usize = start;
    while i < n
        invariant
            n == text@.len(),
            n == bytes@.len(),
            forall|k: int| 0 <= k < n ==> text@[k] as u8 == #[trigger] bytes@[k],
            forall|k: int| 0 <= k < n ==> '\0' <= #[trigger] text@[k] <= '\u{7f}',
            start <= i <= n,
            start < n,
            max <= 0xffff,
            digits == text@.skip(start as int),
            digits == unsigned_part(text@),
            forall|k: int| 0 <= k < i - start ==> is_digit(#[trigger] digits[k]),
            value == digits_value(digits.take(i - start)),
            value <= max,
        decreases n - i,
    {
        let byte = bytes[i];
        assert(digits[i - start] == text@[i as int]);
        if byte < '0' as u8 || byte > '9' as u8 {
            return None;
        }
        value = value * 10 + (byte - '0' as u8) as u32;
        proof {
            assert(digits.take(i + 1 - start).drop_last() == digits.take(i - start));
        }
        if value > max {
            proof {
                lemma_digits_value_grows(digits, i + 1 - start);
            }
            return None;
        }
        i += 1;
    }
    assert(digits.take(n - start) == digits);
    Some(value)
}

/// Reads a number that fits in eight bits from `text`: an optional plus
/// sign, then digits and nothing else. Any other text, and any greater
/// number, gives `None`.
pub fn read_u8(text: &str) -> (number: Option<u8>)
    ensures
        match number {
            Some(n) => numeral_up_to(text@, 0xff) == Some(n as nat),
            None => numeral_up_to(text@, 0xff) is None,
        },
{
    match read_number(text, 0xff) {
        Some(n) => Some(n as u8),
        None => None,
    }
}

/// Reads a number that fits in sixteen bits from `text`: an optional plus
/// sign, then digits and nothing else. Any other text, and any greater
/// number, gives `None`.
pub fn read_u16(text: &str) -> (number: Option<u16>)
    ensures
        match number {
            Some(n) => numeral_up_to(text@, 0xffff) == Some(n as nat),
            None => numeral_up_to(text@, 0xffff) is None,
        },
{
    match read_number(text, 0xffff) {
        Some(n) => Some(n as u16),
        None => None,
    }
}

/// A number written in decimal is a numeral of that number: what
/// `decimal` writes, `numeral` reads back.
pub proof fn lemma_numeral_of_decimal(n: nat)
    ensures
        numeral(decimal(n)) == Some(n),
        forall|i: int| 0 <= i < decimal(n).len() ==> is_digit(#[trigger] decimal(n)[i]),
        digits_value(decimal(n)) == n,
    decreases n,
{
    let text = decimal(n);
    if n < 10 {
        assert(digits_value(text) == digits_value(text.drop_last()) * 10 + digit_value(
            text.last(),
        ));
    } else {
        lemma_numeral_of_decimal(n / 10);
        assert(text.drop_last() == decimal(n / 10));
    }
}

} // verus!
