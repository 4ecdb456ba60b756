//! Reading signed 32-bit integers written in decimal, as `i32::from_str`
//! reads them: an optional `+` or `-`, then ASCII digits, checked against
//! the range of the type while the digits are read from left to right.

use vstd::prelude::*;
use vstd::string::*;

verus! {

/// Why a text is not a decimal `i32`.
#[derive(Debug, Clone, Copy, PartialEq, Eq, Structural)]
pub enum IntErrorKind {
    /// The text is empty.
    Empty,
    /// A character that is not a digit, or a sign with no digits after it.
    InvalidDigit,
    /// The value is above `i32::MAX`.
    PosOverflow,
    /// The value is below `i32::MIN`.
    NegOverflow,
}

/// Where reading a run of digits stopped early.
#[derive(Debug, Clone, Copy, PartialEq, Eq, Structural)]
pub enum DigitStop {
    NotADigit,
    TooLarge,
}

pub open spec fn is_digit(c: char) -> bool {
    '0' <= c && c <= '9'
}

pub open spec fn digit_value(c: char) -> int {
    (c as int) - ('0' as int)
}

/// Reads the digits of `d` from left to right, keeping the value at most
/// `bound`; the first character that is not a digit, or the first digit
/// that takes the value past `bound`, stops the reading.
pub open spec fn scan_digits(d: Seq<char>, bound: nat) -> Result<nat, DigitStop>
    decreases d.len(),
{
    if d.len() == 0 {
        Ok(0)
    } else {
        match scan_digits(d.drop_last(), bound) {
            Err(e) => Err(e),
            Ok(v) => if !is_digit(d.last()) {
                Err(DigitStop::NotADigit)
            } else if v * 10 + digit_value(d.last()) > bound {
                Err(DigitStop::TooLarge)
            } else {
                Ok((v * 10 + digit_value(d.last())) as nat)
            },
        }
    }
}

/// The outcome of reading `s` as a decimal `i32`.
pub open spec fn spec_parse_i32(s: Seq<char>) -> Result<i32, IntErrorKind> {
    if s.len() == 0 {
        Err(IntErrorKind::Empty)
    } else {
        let negative = s[0] == '-';
        let digits = if s[0] == '+' || s[0] == '-' {
            s.drop_first()
        } else {
            s
        };
        if digits.len() == 0 {
            Err(IntErrorKind::InvalidDigit)
        } else {
            match scan_digits(digits, if negative { 2147483648nat } else { 2147483647nat }) {
                Ok(v) => Ok((if negative { -v } else { v as int }) as i32),
                Err(DigitStop::NotADigit) => Err(IntErrorKind::InvalidDigit),
                Err(DigitStop::TooLarge) => Err(
                    if negative {
                        IntErrorKind::NegOverflow
                    } else {
                        IntErrorKind::PosOverflow
                    },
                ),
            }
        }
    }
}

/// Once reading stops on a prefix, it stops the same way on the whole run.
proof fn lemma_scan_stop_persists(d: Seq<char>, k: int, bound: nat)
    requires
        0 <= k <= d.len(),
        scan_digits(d.take(k), bound) is Err,
    ensures
        scan_digits(d, bound) == scan_digits(d.take(k), bound),
    decreases d.len(),
{
    if k < d.len() {
        assert(d.drop_last().take(k) =~= d.take(k));
        lemma_scan_stop_persists(d.drop_last(), k, bound);
    } else {
        assert(d.take(k) =~= d);
    }
}

/// Reads `t` as a decimal `i32`.
pub fn parse_i32_text(t: &str) -> (r: Result<i32, IntErrorKind>)
    ensures
        r == spec_parse_i32(t@),
{
    let n = t.unicode_len();
    if n == 0 {
        return Err(IntErrorKind::Empty);
    }
    let first = t.get_char(0);
    let negative = first == '-';
    let start: usize = if first == '+' || first == '-' {
        1
    } else {
        0
    };
    let ghost digits = if first == '+' || first == '-' {
        t@.drop_first()
    } else {
        t@
    };
    assert(digits =~= t@.skip(start as int));
    if start == n {
        return Err(IntErrorKind::InvalidDigit);
    }
    let bound: u64 = if negative {
        2147483648
    } else {
        2147483647
    };
    let mut value: u64 = 0;
    let mut i: usize = start;
    assert(digits.take(0) =~= Seq::<char>::empty());
    while i < n
        invariant
            n == t@.len(),
            start <= i <= n,
            start < n,
            t@.len() > 0,
            negative == (t@[0] == '-'),
            start == (if t@[0] == '+' || t@[0] == '-' { 1usize } else { 0usize }),
            digits == (if t@[0] == '+' || t@[0] == '-' { t@.drop_first() } else { t@ }),
            digits == t@.skip(start as int),
            bound == (if negative { 2147483648u64 } else { 2147483647u64 }),
            bound <= 2147483648,
            value <= bound,
            scan_digits(digits.take(i - start), bound as nat) == Ok::<nat, DigitStop>(value as nat),
        decreases n - i,
    {
        let c = t.get_char(i);
        let ghost k: int = i - start;
        assert(digits.take(k + 1).drop_last() =~= digits.take(k));
        assert(digits.take(k + 1).last() == c);
        if !('0' <= c && c <= '9') {
            proof {
                lemma_scan_stop_persists(digits, k + 1, bound as nat);
            }
            return Err(IntErrorKind::InvalidDigit);
        }
        let d = ((c as u32) - ('0' as u32)) as u64;
        let next = value * 10 + d;
        if next > bound {
            proof {
                lemma_scan_stop_persists(digits, k + 1, bound as nat);
            }
            return Err(
                if negative {
                    IntErrorKind::NegOverflow
                } else {
                    IntErrorKind::PosOverflow
                },
            );
        }
        value = next;
        i = i + 1;
    }
    assert(digits.take(n - start) =~= digits);
    if negative {
        Ok((0i64 - (value as i64)) as i32)
    } else {
        Ok(value as i32)
    }
}


proof fn lemma_scan_outcome(d: Seq<char>, bound: nat)
    ensures
        scan_digits(d, bound) is Ok ==> forall|i: int| 0 <= i < d.len() ==> is_digit(#[trigger] d[i]),
        scan_digits(d, bound) == Err::<nat, DigitStop>(DigitStop::NotADigit) ==> exists|i: int|
            0 <= i < d.len() && !is_digit(#[trigger] d[i]),
        scan_digits(d, bound) matches Ok(v) ==> v <= bound,
    decreases d.len(),
{
    if d.len() > 0 {
        let init = d.drop_last();
        lemma_scan_outcome(init, bound);
        if scan_digits(d, bound) is Ok {
            assert forall|i: int| 0 <= i < d.len() implies is_digit(#[trigger] d[i]) by {
                if i < d.len() - 1 {
                    assert(d[i] == init[i]);
                }
            }
        }
        if scan_digits(d, bound) == Err::<nat, DigitStop>(DigitStop::NotADigit) {
            if scan_digits(init, bound) is Err {
                let i = choose|i: int| 0 <= i < init.len() && !is_digit(#[trigger] init[i]);
                assert(d[i] == init[i]);
            } else {
                assert(!is_digit(d[d.len() - 1]));
            }
        }
    }
}

/// How the outcome of reading a text as an `i32` follows from its
/// characters: only the empty text is `Empty`; a value read is made of a
/// sign and digits, and is negative only after a `-`; an invalid digit
/// means a character that is not a digit (or a lone sign); a value too
/// small needs a `-`, one too large has none.
pub proof fn lemma_parse_i32_outcomes(s: Seq<char>)
    ensures
        (spec_parse_i32(s) == Err::<i32, IntErrorKind>(IntErrorKind::Empty)) == (s.len() == 0),
        spec_parse_i32(s) matches Ok(v) ==> (v < 0 ==> s[0] == '-') && (forall|i: int|
            1 <= i < s.len() ==> is_digit(#[trigger] s[i])) && (is_digit(s[0]) || s[0] == '+' || s[0]
            == '-'),
        spec_parse_i32(s) == Err::<i32, IntErrorKind>(IntErrorKind::InvalidDigit) ==> s.len() == 1 || exists|i: int|
            0 <= i < s.len() && !is_digit(#[trigger] s[i]) && !(i == 0 && (s[0] == '+' || s[0] == '-')),
        spec_parse_i32(s) == Err::<i32, IntErrorKind>(IntErrorKind::NegOverflow) ==> s[0] == '-',
        spec_parse_i32(s) == Err::<i32, IntErrorKind>(IntErrorKind::PosOverflow) ==> s[0] != '-',
{
    if s.len() > 0 {
        let signed = s[0] == '+' || s[0] == '-';
        let digits = if signed { s.drop_first() } else { s };
        let bound = if s[0] == '-' { 2147483648nat } else { 2147483647nat };
        lemma_scan_outcome(digits, bound);
        if spec_parse_i32(s) is Ok {
            assert forall|i: int| 1 <= i < s.len() implies is_digit(#[trigger] s[i]) by {
                if signed {
                    assert(s[i] == digits[i - 1]);
                } else {
                    assert(s[i] == digits[i]);
                }
            }
            if !signed {
                assert(is_digit(digits[0]));
            }
        }
        if spec_parse_i32(s) == Err::<i32, IntErrorKind>(IntErrorKind::InvalidDigit) && digits.len() > 0 {
            let i = choose|i: int| 0 <= i < digits.len() && !is_digit(#[trigger] digits[i]);
            if signed {
                assert(s[i + 1] == digits[i]);
            } else {
                assert(s[i] == digits[i]);
            }
        }
    }
}

/// The description that `ParseIntError` displays for each kind.
pub open spec fn int_error_text(kind: IntErrorKind) -> Seq<char> {
    match kind {
        IntErrorKind::Empty => "cannot parse integer from empty string"@,
        IntErrorKind::InvalidDigit => "invalid digit found in string"@,
        IntErrorKind::PosOverflow => "number too large to fit in target type"@,
        IntErrorKind::NegOverflow => "number too small to fit in target type"@,
    }
}

/// The description of an integer reading error.
pub fn int_error_message(kind: IntErrorKind) -> (m: &'static str)
    ensures
        m@ == int_error_text(kind),
{
    match kind {
        IntErrorKind::Empty => "cannot parse integer from empty string",
        IntErrorKind::InvalidDigit => "invalid digit found in string",
        IntErrorKind::PosOverflow => "number too large to fit in target type",
        IntErrorKind::NegOverflow => "number too small to fit in target type",
    }
}

/// The character of a decimal digit.
pub open spec fn digit_char(d: nat) -> char {
    ((d + ('0' as int)) as u32) as char
}

/// The decimal digits of `m`, without leading zeros.
pub open spec fn decimal_digits(m: nat) -> Seq<char>
    decreases m,
{
    if m < 10 {
        seq![digit_char(m)]
    } else {
        decimal_digits(m / 10).push(digit_char(m % 10))
    }
}

/// How an `i32` is written in decimal: a `-` for negative values, then the
/// digits of its magnitude.
pub open spec fn decimal_text(n: i32) -> Seq<char> {
    if n < 0 {
        seq!['-'] + decimal_digits((-n) as nat)
    } else {
        decimal_digits(n as nat)
    }
}

proof fn lemma_digit_char(d: nat)
    requires
        d < 10,
    ensures
        is_digit(digit_char(d)),
        digit_value(digit_char(d)) == d,
{
}

proof fn lemma_decimal_digits(m: nat, bound: nat)
    requires
        m <= bound,
    ensures
        decimal_digits(m).len() >= 1,
        is_digit(decimal_digits(m)[0]),
        scan_digits(decimal_digits(m), bound) == Ok::<nat, DigitStop>(m),
    decreases m,
{
    if m < 10 {
        lemma_digit_char(m);
        let s = decimal_digits(m);
        assert(s.drop_last() =~= Seq::<char>::empty());
        assert(scan_digits(s.drop_last(), bound) == Ok::<nat, DigitStop>(0));
    } else {
        lemma_decimal_digits(m / 10, bound);
        lemma_digit_char(m % 10);
        let s = decimal_digits(m);
        assert(s.drop_last() =~= decimal_digits(m / 10));
        assert((m / 10) * 10 + m % 10 == m);
        assert(s.last() == digit_char(m % 10));
        assert(scan_digits(s.drop_last(), bound) == Ok::<nat, DigitStop>(m / 10));
    }
}

/// Reading back the decimal text of any `i32` gives that number.
pub proof fn lemma_parse_decimal_text(n: i32)
    ensures
        spec_parse_i32(decimal_text(n)) == Ok::<i32, IntErrorKind>(n),
{
    if n < 0 {
        let m = (-n) as nat;
        lemma_decimal_digits(m, 2147483648nat);
        let s = decimal_text(n);
        assert(s.drop_first() =~= decimal_digits(m));
    } else {
        let m = n as nat;
        lemma_decimal_digits(m, 2147483647nat);
        lemma_digit_char(0);
        assert('0' != '+' && '0' != '-');
    }
}

} // verus!
