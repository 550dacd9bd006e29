//! Readings as decimal text: the form in which an HTTP endpoint reports
//! one and in which a hook is given one.

use vstd::prelude::*;
use vstd::string::*;
use crate::error::ParseError;
use crate::text::chars_of;

verus! {

/// The largest reading.
pub const MAX_READING: u16 = 65535;

pub open spec fn is_digit(c: char) -> bool {
    '0' <= c && c <= '9'
}

pub open spec fn all_digits(s: Seq<char>) -> bool {
    forall|i: int| 0 <= i < s.len() ==> is_digit(#[trigger] s[i])
}

/// The digit that stands for `d`, for `d` below ten.
pub open spec fn digit_char(d: nat) -> char {
    (d + 48) as char
}

/// The number that a digit stands for.
pub open spec fn digit_value(c: char) -> nat {
    (c as nat - 48) as nat
}

/// The number that a sequence of digits spells in base ten, the empty
/// sequence spelling zero.
pub open spec fn digits_value(s: Seq<char>) -> nat
    decreases s.len(),
{
    if s.len() == 0 {
        0
    } else {
        digits_value(s.drop_last()) * 10 + digit_value(s.last())
    }
}

/// The text without the one plus sign that may lead it.
pub open spec fn unsigned_part(s: Seq<char>) -> Seq<char> {
    if s.len() > 0 && s[0] == '+' {
        s.skip(1)
    } else {
        s
    }
}

/// Whether a text is a reading: at least one digit and digits only, after
/// an optional plus sign, spelling a number that fits in 16 bits. Leading
/// zeros are accepted; a minus sign, white space and the empty text are not.
pub open spec fn is_reading_text(s: Seq<char>) -> bool {
    let digits = unsigned_part(s);
    &&& digits.len() > 0
    &&& all_digits(digits)
    &&& digits_value(digits) <= MAX_READING
}

/// The reading that a text spells, or the error that tells it does not.
pub open spec fn parsed_reading(s: Seq<char>) -> Result<u16, ParseError> {
    if is_reading_text(s) {
        Ok(digits_value(unsigned_part(s)) as u16)
    } else {
        Err(ParseError::Numeric)
    }
}

/// The decimal digits of a number, without leading zeros; one zero for zero.
pub open spec fn decimal_digits(n: nat) -> Seq<char>
    decreases n,
{
    if n < 10 {
        seq![digit_char(n)]
    } else {
        decimal_digits(n / 10).push(digit_char(n % 10))
    }
}

/// A longer run of digits spells no smaller a number than its beginning.
pub proof fn lemma_prefix_value(s: Seq<char>, k: int)
    requires
        0 <= k <= s.len(),
    ensures
        digits_value(s.take(k)) <= digits_value(s),
    decreases s.len() - k,
{
    if k == s.len() {
        assert(s.take(k) =~= s);
    } else {
        lemma_prefix_value(s, k + 1);
        assert(s.take(k + 1).drop_last() =~= s.take(k));
    }
}

/// Reads a reading from its decimal text.
pub fn parse_reading(text: &str) -> (r: Result<u16, ParseError>)
    ensures
        r == parsed_reading(text@),
        r is Ok <==> is_reading_text(text@),
{
    let chars = chars_of(text);
    let len = chars.len();
    let start: usize = if len > 0 && chars[0] == '+' {
        1
    } else {
        0
    };
    let ghost digits = unsigned_part(text@);
    assert(digits =~= chars@.skip(start as int));
    if start == len {
        return Err(ParseError::Numeric);
    }
    let mut value: u32 = 0;
    let mut i: usize = start;
    while i < len
        invariant
            start <= i <= len,
            len == chars@.len(),
            digits == chars@.skip(start as int),
            digits == unsigned_part(text@),
            all_digits(digits.take(i - start)),
            value == digits_value(digits.take(i - start)),
            value <= MAX_READING,
        decreases len - i,
    {
        let c = chars[i];
        let ghost seen = digits.take(i - start);
        let ghost more = digits.take(i + 1 - start);
        assert(more.drop_last() =~= seen);
        assert(more.last() == c);
        if c < '0' || c > '9' {
            assert(!is_digit(digits[i - start]));
            return Err(ParseError::Numeric);
        }
        value = value * 10 + (c as u32 - 48);
        if value > MAX_READING as u32 {
            proof {
                lemma_prefix_value(digits, i + 1 - start);
            }
            return Err(ParseError::Numeric);
        }
        i = i + 1;
    }
    assert(digits.take(len - start) =~= digits);
    Ok(value as u16)
}

/// The text of one digit.
fn digit_text(d: u16) -> (text: &'static str)
    requires
        d < 10,
    ensures
        text@ == seq![digit_char(d as nat)],
{
    proof {
        reveal_strlit("0");
        reveal_strlit("1");
        reveal_strlit("2");
        reveal_strlit("3");
        reveal_strlit("4");
        reveal_strlit("5");
        reveal_strlit("6");
        reveal_strlit("7");
        reveal_strlit("8");
        reveal_strlit("9");
    }
    let text = match d {
        0 => "0",
        1 => "1",
        2 => "2",
        3 => "3",
        4 => "4",
        5 => "5",
        6 => "6",
        7 => "7",
        8 => "8",
        _ => "9",
    };
    assert(text@ =~= seq![digit_char(d as nat)]);
    text
}

/// Writes a reading in decimal, as a hook receives it.
pub fn decimal_string(value: u16) -> (text: String)
    ensures
        text@ == decimal_digits(value as nat),
    decreases value,
{
    if value < 10 {
        String::from_str(digit_text(value))
    } else {
        let mut text = decimal_string(value / 10);
        text.append(digit_text(value % 10));
        text
    }
}

/// The decimal digits of a number are digits, at least one of them, and
/// spell that number.
pub proof fn lemma_decimal_digits(n: nat)
    ensures
        decimal_digits(n).len() > 0,
        all_digits(decimal_digits(n)),
        digits_value(decimal_digits(n)) == n,
    decreases n,
{
    let s = decimal_digits(n);
    if n < 10 {
        assert(s.drop_last() =~= Seq::<char>::empty());
        assert(digits_value(s.drop_last()) == 0);
        assert(digit_value(s.last()) == n);
    } else {
        lemma_decimal_digits(n / 10);
        assert(s.drop_last() =~= decimal_digits(n / 10));
        assert(digit_value(s.last()) == n % 10);
    }
}

/// What is written for a reading is read back as that reading.
pub proof fn lemma_decimal_round_trip(value: u16)
    ensures
        parsed_reading(decimal_digits(value as nat)) == Ok::<u16, ParseError>(value),
{
    lemma_decimal_digits(value as nat);
    let s = decimal_digits(value as nat);
    assert(is_digit(s[0]));
    assert(unsigned_part(s) == s);
}

} // verus!
