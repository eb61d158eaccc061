//! Decimal integer grammar used by the numeric coercions: an optional sign
//! followed by one or more ASCII digits, with an explicit range check.

use vstd::prelude::*;
use vstd::arithmetic::div_mod::lemma_fundamental_div_mod;

verus! {

/// Why a token failed to parse as a number.
#[derive(Debug, Clone, Copy, PartialEq, Eq, Structural)]
pub enum NumParseError {
    /// The token was empty.
    Empty,
    /// A character outside the decimal grammar was found.
    InvalidDigit,
    /// The digits denote a value outside the target type's range.
    OutOfRange,
}

/// True when `c` is an ASCII decimal digit.
pub open spec fn is_digit(c: char) -> bool {
    '0' <= c && c <= '9'
}

/// Numeric value of one decimal digit.
pub open spec fn digit_val(c: char) -> nat
    recommends
        is_digit(c),
{
    (c as int - '0' as int) as nat
}

/// True when every character of `s` is a decimal digit.
pub open spec fn all_digits(s: Seq<char>) -> bool {
    forall|i: int| 0 <= i < s.len() ==> is_digit(#[trigger] s[i])
}

/// Value denoted by a sequence of decimal digits, most significant first.
pub open spec fn digits_val(s: Seq<char>) -> nat
    decreases s.len(),
{
    if s.len() == 0 {
        0
    } else {
        digits_val(s.drop_last()) * 10 + digit_val(s.last())
    }
}

/// Extending a digit string on the right never decreases its value.
proof fn lemma_digits_val_prefix_le(s: Seq<char>, i: int)
    requires
        0 <= i <= s.len(),
    ensures
        digits_val(s.take(i)) <= digits_val(s),
    decreases s.len() - i,
{
    if i == s.len() {
        assert(s.take(i) =~= s);
    } else {
        let t = s.take(i + 1);
        assert(t.drop_last() =~= s.take(i));
        assert(digits_val(t) == digits_val(s.take(i)) * 10 + digit_val(s[i]));
        assert(digits_val(s.take(i)) <= digits_val(s.take(i)) * 10) by (nonlinear_arith);
        lemma_digits_val_prefix_le(s, i + 1);
    }
}

/// The digits of an unsigned token: everything after an optional leading `+`.
pub open spec fn unsigned_digits(s: Seq<char>) -> Seq<char> {
    if s.len() > 0 && s[0] == '+' {
        s.skip(1)
    } else {
        s
    }
}

/// Result of parsing a digit run against an inclusive upper bound.
pub open spec fn spec_parse_digits(d: Seq<char>, limit: nat) -> Result<u128, NumParseError> {
    if d.len() == 0 {
        Err(NumParseError::Empty)
    } else if !all_digits(d) {
        Err(NumParseError::InvalidDigit)
    } else if digits_val(d) > limit {
        Err(NumParseError::OutOfRange)
    } else {
        Ok(digits_val(d) as u128)
    }
}

/// Parses the run of decimal digits `s[from..]`, requiring the value to be
/// at most `limit`.
pub fn parse_digits(s: &str, from: usize, limit: u128) -> (r: Result<u128, NumParseError>)
    requires
        from <= s@.len(),
    ensures
        r == spec_parse_digits(s@.skip(from as int), limit as nat),
{
    let ghost d = s@.skip(from as int);
    let n = s.unicode_len();
    if from == n {
        return Err(NumParseError::Empty);
    }
    let mut i = from;
    while i < n
        invariant
            from <= i <= n,
            n == s@.len(),
            d == s@.skip(from as int),
            forall|j: int| 0 <= j < i - from ==> is_digit(#[trigger] d[j]),
        decreases n - i,
    {
        let c = s.get_char(i);
        if !(c >= '0' && c <= '9') {
            assert(!is_digit(d[i - from as int]));
            return Err(NumParseError::InvalidDigit);
        }
        i = i + 1;
    }
    assert(all_digits(d));
    let ghost q = (limit / 10) as int;
    let ghost rem = (limit % 10) as int;
    proof {
        lemma_fundamental_div_mod(limit as int, 10);
    }
    let mut acc: u128 = 0;
    i = from;
    while i < n
        invariant
            from <= i <= n,
            n == s@.len(),
            d == s@.skip(from as int),
            all_digits(d),
            q == limit / 10,
            rem == limit % 10,
            limit == 10 * q + rem,
            0 <= rem < 10,
            acc == digits_val(d.take(i - from)),
            acc <= limit,
        decreases n - i,
    {
        let c = s.get_char(i);
        assert(is_digit(d[i - from as int]));
        let dv: u128 = (c as u32 - '0' as u32) as u128;
        assert(dv == digit_val(d[i - from as int]));
        assert(dv <= 9);
        proof {
            let t = d.take(i - from as int + 1);
            assert(t.drop_last() =~= d.take(i - from as int));
            assert(t.last() == d[i - from as int]);
            assert(digits_val(t) == acc * 10 + dv);
        }
        if acc > limit / 10 || (acc == limit / 10 && dv > limit % 10) {
            proof {
                if acc > q {
                    assert((q + 1) * 10 <= acc * 10) by (nonlinear_arith)
                        requires
                            q + 1 <= acc,
                    ;
                }
                assert(acc * 10 + dv > limit);
                lemma_digits_val_prefix_le(d, i - from as int + 1);
            }
            return Err(NumParseError::OutOfRange);
        }
        proof {
            if acc < q {
                assert(acc * 10 <= (q - 1) * 10) by (nonlinear_arith)
                    requires
                        acc <= q - 1,
                ;
            } else {
                assert(acc * 10 == q * 10) by (nonlinear_arith)
                    requires
                        acc == q,
                ;
            }
            assert(acc * 10 + dv <= limit);
        }
        acc = acc * 10 + dv;
        i = i + 1;
    }
    assert(d.take(n - from as int) =~= d);
    Ok(acc)
}

/// Result of parsing an unsigned decimal token: an optional `+`, then
/// digits, with the value at most `max`.
pub open spec fn spec_parse_unsigned(s: Seq<char>, max: nat) -> Result<u128, NumParseError> {
    if s.len() == 0 {
        Err(NumParseError::Empty)
    } else {
        match spec_parse_digits(unsigned_digits(s), max) {
            Err(NumParseError::Empty) => Err(NumParseError::InvalidDigit),
            other => other,
        }
    }
}

/// Parses an unsigned decimal token whose value must be at most `max`.
pub fn parse_unsigned(s: &str, max: u128) -> (r: Result<u128, NumParseError>)
    ensures
        r == spec_parse_unsigned(s@, max as nat),
{
    let n = s.unicode_len();
    if n == 0 {
        return Err(NumParseError::Empty);
    }
    let from: usize = if s.get_char(0) == '+' {
        1
    } else {
        0
    };
    assert(s@.skip(from as int) == unsigned_digits(s@));
    match parse_digits(s, from, max) {
        Err(NumParseError::Empty) => Err(NumParseError::InvalidDigit),
        other => other,
    }
}

/// Result of parsing a signed decimal token: an optional `+` or `-`, then
/// digits, with the value within `[min, max]`.
pub open spec fn spec_parse_signed(s: Seq<char>, min: int, max: int) -> Result<
    i128,
    NumParseError,
> {
    if s.len() == 0 {
        Err(NumParseError::Empty)
    } else {
        let neg = s[0] == '-';
        let d = if neg {
            s.skip(1)
        } else {
            unsigned_digits(s)
        };
        if d.len() == 0 || !all_digits(d) {
            Err(NumParseError::InvalidDigit)
        } else {
            let v = if neg {
                -(digits_val(d) as int)
            } else {
                digits_val(d) as int
            };
            if v < min || v > max {
                Err(NumParseError::OutOfRange)
            } else {
                Ok(v as i128)
            }
        }
    }
}

/// Parses a signed decimal token whose value must lie within `[min, max]`.
pub fn parse_signed(s: &str, min: i128, max: i128) -> (r: Result<i128, NumParseError>)
    requires
        i128::MIN < min <= 0 <= max,
    ensures
        r == spec_parse_signed(s@, min as int, max as int),
{
    let n = s.unicode_len();
    if n == 0 {
        return Err(NumParseError::Empty);
    }
    if s.get_char(0) == '-' {
        let mag_limit: u128 = (-min) as u128;
        match parse_digits(s, 1, mag_limit) {
            Err(NumParseError::Empty) => Err(NumParseError::InvalidDigit),
            Err(e) => Err(e),
            Ok(m) => Ok(-(m as i128)),
        }
    } else {
        let from: usize = if s.get_char(0) == '+' {
            1
        } else {
            0
        };
        assert(s@.skip(from as int) == unsigned_digits(s@));
        match parse_digits(s, from, max as u128) {
            Err(NumParseError::Empty) => Err(NumParseError::InvalidDigit),
            Err(e) => Err(e),
            Ok(m) => Ok(m as i128),
        }
    }
}

} // verus!
