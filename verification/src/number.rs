//! Decimal numbers: writing and reading.

use crate::text::chars_of;
use vstd::prelude::*;

verus! {

/// The character of a decimal digit.
pub open spec fn digit(d: nat) -> char {
    (48 + d) as char
}

/// The decimal text of a number, without leading zeros.
pub open spec fn decimal(n: nat) -> Seq<char>
    decreases n,
{
    if n < 10 {
        seq![digit(n)]
    } else {
        decimal(n / 10).push(digit(n % 10))
    }
}

/// The decimal text of a signed number, with a minus sign before a negative one.
pub open spec fn signed_decimal(n: int) -> Seq<char> {
    if n < 0 {
        seq!['-'] + decimal((-n) as nat)
    } else {
        decimal(n as nat)
    }
}

/// Why a text is not a number.
#[derive(Debug, Clone, Copy, PartialEq, Eq, Structural)]
pub enum NumberError {
    /// The text is empty.
    Empty,
    /// A character is not a digit.
    InvalidDigit,
    /// The number is above the largest one accepted.
    TooLarge,
}

impl NumberError {
    /// The message of the error.
    pub open spec fn text(self) -> Seq<char> {
        match self {
            NumberError::Empty => "cannot parse integer from empty string"@,
            NumberError::InvalidDigit => "invalid digit found in string"@,
            NumberError::TooLarge => "number too large to fit in target type"@,
        }
    }

    /// The message of the error.
    pub fn to_text(&self) -> (r: String)
        ensures
            r@ == self.text(),
    {
        match self {
            NumberError::Empty => "cannot parse integer from empty string".to_string(),
            NumberError::InvalidDigit => "invalid digit found in string".to_string(),
            NumberError::TooLarge => "number too large to fit in target type".to_string(),
        }
    }
}

/// Whether `c` is a decimal digit.
pub open spec fn is_digit(c: char) -> bool {
    '0' <= c <= '9'
}

/// The value of a text made of digits, read from the left; the first offence decides the error.
pub open spec fn digits_value(s: Seq<char>, max: nat) -> Result<nat, NumberError>
    decreases s.len(),
{
    if s.len() == 0 {
        Ok(0)
    } else {
        match digits_value(s.drop_last(), max) {
            Err(e) => Err(e),
            Ok(v) => {
                let c = s.last();
                if !is_digit(c) {
                    Err(NumberError::InvalidDigit)
                } else if v * 10 + (c as nat - 48) > max {
                    Err(NumberError::TooLarge)
                } else {
                    Ok((v * 10 + (c as nat - 48)) as nat)
                }
            },
        }
    }
}

/// Reads an unsigned number of at most `max`: an optional plus sign and at least one digit.
pub open spec fn number_value(s: Seq<char>, max: nat) -> Result<nat, NumberError> {
    if s.len() == 0 {
        Err(NumberError::Empty)
    } else if s[0] == '+' {
        if s.len() == 1 {
            Err(NumberError::InvalidDigit)
        } else {
            digits_value(s.drop_first(), max)
        }
    } else {
        digits_value(s, max)
    }
}

/// Appends the decimal text of `n`.
pub fn push_decimal(s: &mut String, n: u64)
    ensures
        final(s)@ == old(s)@ + decimal(n as nat),
    decreases n,
{
    if n >= 10 {
        push_decimal(s, n / 10);
    }
    let d: u8 = (n % 10) as u8;
    s.push((48 + d) as char);
    assert(s@ == old(s)@ + decimal(n as nat));
}

/// The decimal text of `n`.
pub fn decimal_text(n: u64) -> (r: String)
    ensures
        r@ == decimal(n as nat),
{
    let mut r = String::new();
    push_decimal(&mut r, n);
    assert(r@ == decimal(n as nat));
    r
}

/// The decimal text of `n`.
pub fn signed_decimal_text(n: i64) -> (r: String)
    ensures
        r@ == signed_decimal(n as int),
{
    let mut r = String::new();
    if n < 0 {
        r.push('-');
        let rest: u64 = (-(n + 1)) as u64;
        push_decimal(&mut r, rest + 1);
        assert(r@ == signed_decimal(n as int));
    } else {
        push_decimal(&mut r, n as u64);
        assert(r@ == signed_decimal(n as int));
    }
    r
}

/// Reads an unsigned number of at most `max`.
pub fn parse_number(s: &str, max: u64) -> (r: Result<u64, NumberError>)
    ensures
        match r {
            Ok(n) => number_value(s@, max as nat) == Ok::<nat, NumberError>(n as nat),
            Err(e) => number_value(s@, max as nat) == Err::<nat, NumberError>(e),
        },
{
    let v = chars_of(s);
    if v.len() == 0 {
        return Err(NumberError::Empty);
    }
    let mut start: usize = 0;
    if v[0] == '+' {
        if v.len() == 1 {
            return Err(NumberError::InvalidDigit);
        }
        start = 1;
    }
    let ghost digits = v@.skip(start as int);
    assert(digits == if start == 1 { s@.drop_first() } else { s@ });
    let mut value: u64 = 0;
    let mut i: usize = start;
    while i < v.len()
        invariant
            v@ == s@,
            start <= i <= v@.len(),
            start <= 1,
            digits == v@.skip(start as int),
            number_value(s@, max as nat) == digits_value(digits, max as nat),
            value <= max,
            digits_value(digits.take(i - start), max as nat) == Ok::<nat, NumberError>(value as nat),
        decreases v@.len() - i,
    {
        let c = v[i];
        let ghost head = digits.take(i + 1 - start);
        assert(head.drop_last() == digits.take(i - start));
        assert(head.last() == c);
        if !(c >= '0' && c <= '9') {
            proof {
                digits_error_stays(digits, i + 1 - start, max as nat);
            }
            return Err(NumberError::InvalidDigit);
        }
        let d: u64 = (c as u32 - 48) as u64;
        if value > (u64::MAX - d) / 10 || value * 10 + d > max {
            proof {
                digits_error_stays(digits, i + 1 - start, max as nat);
            }
            return Err(NumberError::TooLarge);
        }
        value = value * 10 + d;
        i += 1;
    }
    assert(digits.take(i - start) == digits);
    Ok(value)
}

/// An error found in the first `k` characters is the error of the whole text.
proof fn digits_error_stays(s: Seq<char>, k: int, max: nat)
    requires
        0 <= k <= s.len(),
        digits_value(s.take(k), max) is Err,
    ensures
        digits_value(s, max) == digits_value(s.take(k), max),
    decreases s.len() - k,
{
    if k == s.len() {
        assert(s.take(k) == s);
    } else {
        assert(s.take(k + 1).drop_last() == s.take(k));
        digits_error_stays(s, k + 1, max);
    }
}

/// Reading the decimal text of a number gives the number back.
pub proof fn decimal_reads_back(n: nat, max: nat)
    requires
        n <= max,
    ensures
        number_value(decimal(n), max) == Ok::<nat, NumberError>(n),
    decreases n,
{
    decimal_digits_read_back(n, max);
    assert(decimal(n).len() > 0);
    decimal_starts_with_digit(n);
}

proof fn decimal_starts_with_digit(n: nat)
    ensures
        decimal(n).len() > 0,
        is_digit(decimal(n)[0]),
    decreases n,
{
    if n >= 10 {
        decimal_starts_with_digit(n / 10);
    }
}

proof fn decimal_digits_read_back(n: nat, max: nat)
    requires
        n <= max,
    ensures
        digits_value(decimal(n), max) == Ok::<nat, NumberError>(n),
    decreases n,
{
    if n < 10 {
        assert(decimal(n).drop_last() == Seq::<char>::empty());
        assert(digits_value(decimal(n).drop_last(), max) == Ok::<nat, NumberError>(0));
    } else {
        decimal_digits_read_back(n / 10, max);
        assert(decimal(n).drop_last() == decimal(n / 10));
    }
}

} // verus!
