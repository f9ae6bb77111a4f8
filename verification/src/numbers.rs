//! Whole numbers as decimal text, written and read.

use vstd::prelude::*;
use vstd::string::*;
use crate::text::to_chars;

verus! {

/// The character of the decimal digit `d`.
pub open spec fn digit_char(d: int) -> char {
    if d == 0 {
        '0'
    } else if d == 1 {
        '1'
    } else if d == 2 {
        '2'
    } else if d == 3 {
        '3'
    } else if d == 4 {
        '4'
    } else if d == 5 {
        '5'
    } else if d == 6 {
        '6'
    } else if d == 7 {
        '7'
    } else if d == 8 {
        '8'
    } else {
        '9'
    }
}

/// The decimal digit that `c` stands for.
pub open spec fn digit_of(c: char) -> Option<int> {
    if c == '0' {
        Some(0int)
    } else if c == '1' {
        Some(1int)
    } else if c == '2' {
        Some(2int)
    } else if c == '3' {
        Some(3int)
    } else if c == '4' {
        Some(4int)
    } else if c == '5' {
        Some(5int)
    } else if c == '6' {
        Some(6int)
    } else if c == '7' {
        Some(7int)
    } else if c == '8' {
        Some(8int)
    } else if c == '9' {
        Some(9int)
    } else {
        None
    }
}

/// `n` in decimal digits, without leading zeros.
pub open spec fn decimal_text(n: nat) -> Seq<char>
    decreases n,
{
    if n < 10 {
        seq![digit_char(n as int)]
    } else {
        decimal_text(n / 10).push(digit_char((n % 10) as int))
    }
}

/// A whole number in decimal digits, with a `-` before a negative one.
pub open spec fn signed_text(n: int) -> Seq<char> {
    if n < 0 {
        seq!['-'] + decimal_text((-n) as nat)
    } else {
        decimal_text(n as nat)
    }
}

fn digit_str(d: u64) -> (s: &'static str)
    requires
        d < 10,
    ensures
        s@ == seq![digit_char(d as int)],
{
    let s = if d == 0 {
        "0"
    } else if d == 1 {
        "1"
    } else if d == 2 {
        "2"
    } else if d == 3 {
        "3"
    } else if d == 4 {
        "4"
    } else if d == 5 {
        "5"
    } else if d == 6 {
        "6"
    } else if d == 7 {
        "7"
    } else if d == 8 {
        "8"
    } else {
        "9"
    };
    proof {
        reveal_strlit("0");
        reveal_strlit("1");
        reveal_strlit("2");
        reveal_strlit("3");
        reveal_strlit("4");
        reveal_strlit("5");
        reveal_strlit("6");
        reveal_strlit("7");
        reveal_strlit("8");
        reveal_strlit("9");
        assert(s@ =~= seq![digit_char(d as int)]);
    }
    s
}

/// `n` in decimal digits.
pub fn decimal(n: u64) -> (text: String)
    ensures
        text@ == decimal_text(n as nat),
    decreases n,
{
    if n < 10 {
        String::from_str(digit_str(n))
    } else {
        let mut text = decimal(n / 10);
        text.append(digit_str(n % 10));
        text
    }
}

/// `n` in decimal digits, with a `-` before a negative number.
pub fn signed_decimal(n: i64) -> (text: String)
    ensures
        text@ == signed_text(n as int),
{
    if n < 0 {
        let mut text = String::from_str("-");
        proof {
            reveal_strlit("-");
            assert("-"@ =~= seq!['-']);
        }
        let magnitude: u64 = if n == i64::MIN {
            9223372036854775808u64
        } else {
            (-n) as u64
        };
        text.append(decimal(magnitude).as_str());
        text
    } else {
        decimal(n as u64)
    }
}

/// Why a text is no number of the wanted kind.
#[derive(Clone, Copy, Debug, PartialEq, Eq)]
pub enum IntFailure {
    /// The text is empty.
    Empty,
    /// The text holds something that is no digit, or no digit at all.
    InvalidDigit,
    /// The number is above the range.
    PosOverflow,
    /// The number is below the range.
    NegOverflow,
}

/// What the digits `body` from place `i` on add to the number `acc` read so
/// far, reading from left to right and stopping at the first fault: a
/// character that is no digit, or a number that has left the range from `lo`
/// to `hi`.
pub open spec fn scan(body: Seq<char>, i: int, acc: int, negative: bool, lo: int, hi: int) -> Result<
    int,
    IntFailure,
>
    decreases body.len() - i,
{
    if i < 0 || i >= body.len() {
        Ok(acc)
    } else {
        match digit_of(body[i]) {
            None => Err(IntFailure::InvalidDigit),
            Some(d) => {
                let next = if negative {
                    acc * 10 - d
                } else {
                    acc * 10 + d
                };
                if next > hi {
                    Err(IntFailure::PosOverflow)
                } else if next < lo {
                    Err(IntFailure::NegOverflow)
                } else {
                    scan(body, i + 1, next, negative, lo, hi)
                }
            },
        }
    }
}

/// The number that `text` stands for, within `lo` to `hi`: an optional sign,
/// `-` only where negative numbers are in range, then one digit or more and
/// nothing else.
pub open spec fn parsed(text: Seq<char>, lo: int, hi: int) -> Result<int, IntFailure> {
    if text.len() == 0 {
        Err(IntFailure::Empty)
    } else {
        let negative = lo < 0 && text[0] == '-';
        let signed = text[0] == '+' || negative;
        if signed && text.len() == 1 {
            Err(IntFailure::InvalidDigit)
        } else {
            scan(
                text,
                if signed {
                    1
                } else {
                    0
                },
                0,
                negative,
                lo,
                hi,
            )
        }
    }
}

fn digit_value(c: char) -> (d: Option<i128>)
    ensures
        match d {
            Some(v) => digit_of(c) == Some(v as int) && 0 <= v < 10,
            None => digit_of(c) is None,
        },
{
    if c == '0' {
        Some(0)
    } else if c == '1' {
        Some(1)
    } else if c == '2' {
        Some(2)
    } else if c == '3' {
        Some(3)
    } else if c == '4' {
        Some(4)
    } else if c == '5' {
        Some(5)
    } else if c == '6' {
        Some(6)
    } else if c == '7' {
        Some(7)
    } else if c == '8' {
        Some(8)
    } else if c == '9' {
        Some(9)
    } else {
        None
    }
}

/// The widest range of numbers that can be asked for.
pub open spec fn in_reach(lo: int, hi: int) -> bool {
    -0x1_0000_0000_0000_0000 <= lo <= 0 <= hi <= 0x1_0000_0000_0000_0000
}

/// Reads `text` as a whole number between `lo` and `hi`.
pub fn parse_int(text: &str, lo: i128, hi: i128) -> (number: Result<i128, IntFailure>)
    requires
        in_reach(lo as int, hi as int),
    ensures
        number matches Ok(n) ==> lo <= n <= hi,
        match number {
            Ok(n) => parsed(text@, lo as int, hi as int) == Ok::<int, IntFailure>(n as int),
            Err(e) => parsed(text@, lo as int, hi as int) == Err::<int, IntFailure>(e),
        },
{
    let chars = to_chars(text);
    if chars.len() == 0 {
        return Err(IntFailure::Empty);
    }
    let negative = lo < 0 && chars[0] == '-';
    let signed = chars[0] == '+' || negative;
    if signed && chars.len() == 1 {
        return Err(IntFailure::InvalidDigit);
    }
    let mut i: usize = if signed {
        1
    } else {
        0
    };
    let mut acc: i128 = 0;
    while i < chars.len()
        invariant
            i <= chars.len(),
            chars@ == text@,
            in_reach(lo as int, hi as int),
            lo <= acc <= hi,
            parsed(text@, lo as int, hi as int) == scan(
                chars@,
                i as int,
                acc as int,
                negative,
                lo as int,
                hi as int,
            ),
        decreases chars.len() - i,
    {
        let d = match digit_value(chars[i]) {
            Some(d) => d,
            None => {
                return Err(IntFailure::InvalidDigit);
            },
        };
        let step: i128 = if negative {
            acc * 10 - d
        } else {
            acc * 10 + d
        };
        if step > hi {
            return Err(IntFailure::PosOverflow);
        }
        if step < lo {
            return Err(IntFailure::NegOverflow);
        }
        acc = step;
        i += 1;
    }
    Ok(acc)
}

/// Why `failure` is no number, in words.
pub open spec fn failure_text(failure: IntFailure) -> Seq<char> {
    match failure {
        IntFailure::Empty => "cannot parse integer from empty string"@,
        IntFailure::InvalidDigit => "invalid digit found in string"@,
        IntFailure::PosOverflow => "number too large to fit in target type"@,
        IntFailure::NegOverflow => "number too small to fit in target type"@,
    }
}

impl IntFailure {
    /// Why this is no number, in words.
    pub fn describe(&self) -> (text: &'static str)
        ensures
            text@ == failure_text(*self),
    {
        match self {
            IntFailure::Empty => "cannot parse integer from empty string",
            IntFailure::InvalidDigit => "invalid digit found in string",
            IntFailure::PosOverflow => "number too large to fit in target type",
            IntFailure::NegOverflow => "number too small to fit in target type",
        }
    }
}

/// Reads `text` as a number of type `usize`.
pub fn parse_usize(text: &str) -> (number: Result<usize, IntFailure>)
    ensures
        match number {
            Ok(n) => parsed(text@, 0, usize::MAX as int) == Ok::<int, IntFailure>(n as int),
            Err(e) => parsed(text@, 0, usize::MAX as int) == Err::<int, IntFailure>(e),
        },
{
    match parse_int(text, 0, usize::MAX as i128) {
        Ok(n) => Ok(n as usize),
        Err(e) => Err(e),
    }
}

/// Reads `text` as a number of type `i32`.
pub fn parse_i32(text: &str) -> (number: Result<i32, IntFailure>)
    ensures
        match number {
            Ok(n) => parsed(text@, i32::MIN as int, i32::MAX as int) == Ok::<int, IntFailure>(
                n as int,
            ),
            Err(e) => parsed(text@, i32::MIN as int, i32::MAX as int) == Err::<int, IntFailure>(e),
        },
{
    match parse_int(text, i32::MIN as i128, i32::MAX as i128) {
        Ok(n) => Ok(n as i32),
        Err(e) => Err(e),
    }
}

} // verus!
