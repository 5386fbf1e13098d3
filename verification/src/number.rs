//! Decimal numbers as text: reading a signed 32-bit value and writing a
//! line number.

use crate::text::chars_of;
use vstd::prelude::*;
use vstd::string::StringExecFns;

verus! {

/// Whether `c` is one of the ten ASCII digits.
pub open spec fn is_digit(c: char) -> bool {
    '0' <= c <= '9'
}

/// The number that the ASCII digit `c` stands for.
pub open spec fn digit_value(c: char) -> nat
    recommends
        is_digit(c),
{
    (c as int - '0' as int) as nat
}

/// Whether `text` holds ASCII digits only.
pub open spec fn all_digits(text: Seq<char>) -> bool {
    forall|i: int| 0 <= i < text.len() ==> is_digit(#[trigger] text[i])
}

/// The number written by the digits of `text`, most significant first.
pub open spec fn decimal_value(text: Seq<char>) -> nat
    decreases text.len(),
{
    if text.len() == 0 {
        0
    } else {
        decimal_value(text.drop_last()) * 10 + digit_value(text.last())
    }
}

/// Whether `text` starts with a plus or a minus sign.
pub open spec fn has_sign(text: Seq<char>) -> bool {
    text.len() > 0 && (text[0] == '-' || text[0] == '+')
}

/// The digits of `text`: all of it but a leading sign.
pub open spec fn unsigned_part(text: Seq<char>) -> Seq<char> {
    if has_sign(text) {
        text.drop_first()
    } else {
        text
    }
}

/// The signed number written in `text`, whether or not it fits in 32 bits.
pub open spec fn signed_value(text: Seq<char>) -> int {
    if text.len() > 0 && text[0] == '-' {
        -(decimal_value(unsigned_part(text)) as int)
    } else {
        decimal_value(unsigned_part(text)) as int
    }
}

/// The value of `text` read as a signed 32-bit decimal number: an optional
/// sign, then at least one ASCII digit and nothing else, the number within
/// the range of `i32`. `None` for every other text.
pub open spec fn parsed_i32(text: Seq<char>) -> Option<int> {
    if unsigned_part(text).len() > 0 && all_digits(unsigned_part(text)) && i32::MIN
        <= signed_value(text) <= i32::MAX {
        Some(signed_value(text))
    } else {
        None
    }
}

/// The number by which a recorded value is ordered: the value itself where
/// it reads as a signed 32-bit number, zero otherwise.
pub open spec fn sort_key_of(raw: Seq<char>) -> int {
    match parsed_i32(raw) {
        Some(value) => value,
        None => 0,
    }
}

/// A longer run of digits never stands for a smaller number.
proof fn lemma_decimal_value_push(text: Seq<char>, c: char)
    requires
        is_digit(c),
    ensures
        decimal_value(text.push(c)) == decimal_value(text) * 10 + digit_value(c),
        decimal_value(text.push(c)) >= decimal_value(text),
{
    assert(text.push(c).drop_last() =~= text);
}

/// Reads `raw` as a signed 32-bit decimal number.
pub fn parse_i32(raw: &str) -> (parsed: Option<i32>)
    ensures
        parsed_i32(raw@) == match parsed {
            Some(value) => Some(value as int),
            None => None,
        },
{
    let chars = chars_of(raw);
    let n = chars.len();
    if n == 0 {
        return None;
    }
    let negative = chars[0] == '-';
    let start: usize = if chars[0] == '-' || chars[0] == '+' {
        1
    } else {
        0
    };
    if start == n {
        return None;
    }
    let ghost digits = unsigned_part(raw@);
    let limit: u64 = 2147483648;
    let mut magnitude: u64 = 0;
    let mut too_big = false;
    let mut i: usize = start;
    while i < n
        invariant
            start <= i <= n,
            n == chars.len(),
            limit == 2147483648,
            digits == unsigned_part(raw@),
            digits == chars@.subrange(start as int, n as int),
            all_digits(chars@.subrange(start as int, i as int)),
            !too_big ==> magnitude == decimal_value(chars@.subrange(start as int, i as int))
                && magnitude <= limit,
            too_big ==> decimal_value(chars@.subrange(start as int, i as int)) > limit,
        decreases n - i,
    {
        let c = chars[i];
        if !('0' <= c && c <= '9') {
            assert(digits[i - start] == c);
            return None;
        }
        let digit: u64 = (c as u32 - '0' as u32) as u64;
        proof {
            let seen = chars@.subrange(start as int, i as int);
            assert(chars@.subrange(start as int, i + 1) =~= seen.push(c));
            lemma_decimal_value_push(seen, c);
        }
        if !too_big {
            let next = magnitude * 10 + digit;
            if next > limit {
                too_big = true;
            } else {
                magnitude = next;
            }
        }
        i += 1;
    }
    if too_big {
        None
    } else if negative {
        Some((0 - magnitude as i64) as i32)
    } else if magnitude == limit {
        None
    } else {
        Some(magnitude as i32)
    }
}

/// The number by which a recorded value is ordered.
pub fn sort_key(raw: &str) -> (key: i32)
    ensures
        key == sort_key_of(raw@),
{
    match parse_i32(raw) {
        Some(value) => value,
        None => 0,
    }
}

/// The ASCII digit that stands for `d`.
pub open spec fn digit_char(d: nat) -> char
    recommends
        d < 10,
{
    (d + '0' as nat) as char
}

/// The decimal digits of `n`, most significant first, without leading zeros.
pub open spec fn decimal_text(n: nat) -> Seq<char>
    decreases n,
{
    if n < 10 {
        seq![digit_char(n)]
    } else {
        decimal_text(n / 10).push(digit_char(n % 10))
    }
}

/// The one-character text of a single digit.
fn digit_str(d: usize) -> (text: &'static str)
    requires
        d < 10,
    ensures
        text@ == seq![digit_char(d as nat)],
{
    proof {
        reveal_strlit("0");
        reveal_strlit("1");
        reveal_strlit("2");
        reveal_strlit("3");
        reveal_strlit("4");
        reveal_strlit("5");
        reveal_strlit("6");
        reveal_strlit("7");
        reveal_strlit("8");
        reveal_strlit("9");
    }
    let text = match d {
        0 => "0",
        1 => "1",
        2 => "2",
        3 => "3",
        4 => "4",
        5 => "5",
        6 => "6",
        7 => "7",
        8 => "8",
        _ => "9",
    };
    text
}

/// Writes `n` in decimal.
pub fn decimal(n: usize) -> (text: String)
    ensures
        text@ == decimal_text(n as nat),
    decreases n,
{
    if n < 10 {
        String::from_str(digit_str(n))
    } else {
        let mut text = decimal(n / 10);
        text.append(digit_str(n % 10));
        text
    }
}

} // verus!
