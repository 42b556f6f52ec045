//! Unsigned decimal numbers as text: reading them and writing them.

use vstd::prelude::*;
use vstd::string::{StrSliceExecFns, StringExecFns};

verus! {

/// Why a text is not a number within the asked range.
#[derive(Clone, Copy, Debug, PartialEq, Eq, Structural)]
pub enum ParseError {
    /// The text holds no character at all.
    Empty,
    /// The text holds something other than digits after an optional `+`,
    /// or nothing but the `+`.
    InvalidDigit,
    /// The text is a number, but one above the largest value asked for.
    Overflow,
}

/// Whether `c` is one of the ten ASCII digits.
pub open spec fn is_digit(c: char) -> bool {
    '0' <= c && c <= '9'
}

/// The value of a digit; zero for any other character.
pub open spec fn digit_value(c: char) -> nat {
    if is_digit(c) {
        (c as int - '0' as int) as nat
    } else {
        0
    }
}

/// Whether `s` consists of digits only.
pub open spec fn all_digits(s: Seq<char>) -> bool {
    forall|i: int| 0 <= i < s.len() ==> is_digit(#[trigger] s[i])
}

/// The number that the digits of `s` denote in base ten, the most
/// significant digit first. The empty text denotes zero.
pub open spec fn decimal_value(s: Seq<char>) -> nat
    decreases s.len(),
{
    if s.len() == 0 {
        0
    } else {
        decimal_value(s.drop_last()) * 10 + digit_value(s.last())
    }
}

/// `s` without a leading `+`.
pub open spec fn unsigned_part(s: Seq<char>) -> Seq<char> {
    if s.len() > 0 && s.first() == '+' {
        s.drop_first()
    } else {
        s
    }
}

/// What `s` means as an unsigned number no larger than `max`: one or more
/// digits, which a single `+` may precede. Nothing else is a number, not
/// even with whitespace around it.
pub open spec fn parse_unsigned(s: Seq<char>, max: nat) -> Result<nat, ParseError> {
    let digits = unsigned_part(s);
    if s.len() == 0 {
        Err(ParseError::Empty)
    } else if digits.len() == 0 || !all_digits(digits) {
        Err(ParseError::InvalidDigit)
    } else if decimal_value(digits) > max {
        Err(ParseError::Overflow)
    } else {
        Ok(decimal_value(digits))
    }
}

/// The character that writes the digit `d`.
pub open spec fn digit_char(d: nat) -> char
    recommends
        d < 10,
{
    ('0' as nat + d) as char
}

/// `n` written in base ten, with no sign and no leading zero; `0` is the
/// one digit `0`.
pub open spec fn decimal(n: nat) -> Seq<char>
    decreases n,
{
    if n < 10 {
        seq![digit_char(n)]
    } else {
        decimal(n / 10).push(digit_char(n % 10))
    }
}

/// Writing a number and reading it back gives the number: `decimal(n)`
/// consists of digits, starts with no sign, and denotes `n`.
pub proof fn lemma_decimal_round_trip(n: nat, max: nat)
    requires
        n <= max,
    ensures
        decimal(n).len() > 0,
        all_digits(decimal(n)),
        decimal_value(decimal(n)) == n,
        parse_unsigned(decimal(n), max) == Ok::<nat, ParseError>(n),
    decreases n,
{
    let text = decimal(n);
    assert(digit_value(digit_char(n % 10)) == n % 10);
    assert(text.last() == digit_char(n % 10));
    if n >= 10 {
        lemma_decimal_round_trip(n / 10, max);
        assert(text.drop_last() == decimal(n / 10));
        assert forall|i: int| 0 <= i < text.len() implies is_digit(#[trigger] text[i]) by {
            if i < text.len() - 1 {
                assert(text[i] == decimal(n / 10)[i]);
            }
        }
        assert(text.first() == decimal(n / 10).first());
    } else {
        assert(text.drop_last() == Seq::<char>::empty());
        assert(decimal_value(text.drop_last()) == 0);
    }
    assert(decimal_value(text) == decimal_value(text.drop_last()) * 10 + digit_value(text.last()));
    assert(is_digit(text.first()));
    assert(unsigned_part(text) == text);
}

/// Reads `text` as an unsigned number no larger than `max`.
pub fn parse_bounded(text: &[char], max: u32) -> (r: Result<u32, ParseError>)
    ensures
        match parse_unsigned(text@, max as nat) {
            Ok(v) => r == Ok::<u32, ParseError>(v as u32),
            Err(e) => r == Err::<u32, ParseError>(e),
        },
{
    if text.len() == 0 {
        return Err(ParseError::Empty);
    }
    let start: usize = if text[0] == '+' {
        1
    } else {
        0
    };
    if start == text.len() {
        return Err(ParseError::InvalidDigit);
    }
    let ghost digits = unsigned_part(text@);
    assert(digits == text@.skip(start as int));
    let mut acc: u64 = 0;
    let mut over: bool = false;
    let mut i: usize = start;
    while i < text.len()
        invariant
            start <= i <= text.len(),
            digits == text@.skip(start as int),
            digits == unsigned_part(text@),
            all_digits(digits.take(i - start)),
            !over ==> acc == decimal_value(digits.take(i - start)) && acc <= max,
            over ==> decimal_value(digits.take(i - start)) > max,
        decreases text.len() - i,
    {
        let c: char = text[i];
        assert(c == digits[i - start]);
        if !('0' <= c && c <= '9') {
            return Err(ParseError::InvalidDigit);
        }
        let d: u64 = (c as u32 - 48) as u64;
        proof {
            let longer = digits.take(i - start + 1);
            assert(longer.drop_last() == digits.take(i - start));
            assert(longer.last() == c);
            assert(d == digit_value(c));
        }
        if !over {
            acc = acc * 10 + d;
            if acc > max as u64 {
                over = true;
            }
        }
        i = i + 1;
    }
    assert(digits.take(i - start) == digits);
    if over {
        Err(ParseError::Overflow)
    } else {
        Ok(acc as u32)
    }
}

/// Writes `n` in base ten at the end of `out`.
pub fn append_decimal(out: &mut String, n: u64)
    ensures
        final(out)@ == old(out)@ + decimal(n as nat),
    decreases n,
{
    if n >= 10 {
        append_decimal(out, n / 10);
    }
    let d: usize = (n % 10) as usize;
    let digits: &str = "0123456789";
    proof {
        reveal_strlit("0123456789");
    }
    let digit: &str = digits.substring_ascii(d, d + 1);
    assert(digit@ == seq![digit_char(d as nat)]);
    out.append(digit);
}

} // verus!
