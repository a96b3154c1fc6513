//! The parsed form of a signed count given on the command line.

use vstd::prelude::*;
use vstd::std_specs::iter::IteratorSpec;

verus! {

/// Where output starts, as the user asked for it.
///
/// `PlusZero` stands for the text `+0`: the whole file, if it holds anything.
/// `TakeNum(n)` counts from the start for a positive `n` (one-based) and back
/// from the end for a negative `n`; `TakeNum(0)` selects nothing.
#[derive(Debug, Clone, Copy, PartialEq, Eq, Structural)]
pub enum TakeValue {
    PlusZero,
    TakeNum(i64),
}

/// Why a text is not a count.
#[derive(Debug, Clone, Copy, PartialEq, Eq, Structural)]
pub enum ParseError {
    /// A character other than one leading sign is not a decimal digit, no
    /// digit is there at all, or the number does not fit.
    InvalidDigit,
}

impl ParseError {
    /// The message shown to the user.
    pub fn message(&self) -> (text: &'static str)
        ensures
            text@ == "invalid digit found in string"@,
    {
        "invalid digit found in string"
    }
}

/// The largest magnitude that may follow `+`, or stand with no sign.
pub const MAX_MAGNITUDE: u64 = 0x7fff_ffff_ffff_ffff;

/// The largest magnitude that may follow `-`.
pub const MAX_NEGATIVE_MAGNITUDE: u64 = 0x8000_0000_0000_0000;

/// One of the ten decimal digits of ASCII.
pub open spec fn is_digit(c: char) -> bool {
    '0' <= c <= '9'
}

/// A plus or a minus.
pub open spec fn is_sign(c: char) -> bool {
    c == '+' || c == '-'
}

/// The number that a digit stands for.
pub open spec fn digit_value(c: char) -> nat {
    if is_digit(c) {
        (c as int - '0' as int) as nat
    } else {
        0
    }
}

/// Every character of `text` is a digit.
pub open spec fn all_digits(text: Seq<char>) -> bool {
    forall|i: int| 0 <= i < text.len() ==> is_digit(#[trigger] text[i])
}

/// The number that a run of decimal digits writes, leading zeros allowed.
pub open spec fn decimal_value(digits: Seq<char>) -> nat
    decreases digits.len(),
{
    if digits.len() == 0 {
        0
    } else {
        decimal_value(digits.drop_last()) * 10 + digit_value(digits.last())
    }
}

/// The text starts with a sign.
pub open spec fn has_sign(text: Seq<char>) -> bool {
    text.len() > 0 && is_sign(text[0])
}

/// The text without its leading sign, if it has one.
pub open spec fn digits_of(text: Seq<char>) -> Seq<char> {
    if has_sign(text) {
        text.skip(1)
    } else {
        text
    }
}

/// The grammar of a count: an optional sign, then one digit or more.
pub open spec fn well_formed(text: Seq<char>) -> bool {
    digits_of(text).len() > 0 && all_digits(digits_of(text))
}

/// The largest magnitude that the sign of `text` admits.
pub open spec fn magnitude_limit(text: Seq<char>) -> nat {
    if text.len() > 0 && text[0] == '-' {
        MAX_NEGATIVE_MAGNITUDE as nat
    } else {
        MAX_MAGNITUDE as nat
    }
}

/// What a text means as a count. Only `+` counts from the start: digits with
/// no sign count from the end, as those after `-` do.
pub open spec fn parse_spec(text: Seq<char>) -> Result<TakeValue, ParseError> {
    let size = decimal_value(digits_of(text));
    if !well_formed(text) || size > magnitude_limit(text) {
        Err(ParseError::InvalidDigit)
    } else if text[0] == '+' {
        if size == 0 {
            Ok(TakeValue::PlusZero)
        } else {
            Ok(TakeValue::TakeNum(size as i64))
        }
    } else {
        Ok(TakeValue::TakeNum((-(size as int)) as i64))
    }
}

/// Appending a digit multiplies by ten and adds the digit.
pub proof fn lemma_decimal_value_push(digits: Seq<char>, c: char)
    ensures
        decimal_value(digits.push(c)) == decimal_value(digits) * 10 + digit_value(c),
{
    assert(digits.push(c).drop_last() =~= digits);
}

/// No prefix of a run of digits writes a larger number than the whole run.
pub proof fn lemma_decimal_value_prefix(digits: Seq<char>, k: int)
    requires
        0 <= k <= digits.len(),
    ensures
        decimal_value(digits.take(k)) <= decimal_value(digits),
    decreases digits.len(),
{
    if k == digits.len() {
        assert(digits.take(k) =~= digits);
    } else {
        lemma_decimal_value_prefix(digits.drop_last(), k);
        assert(digits.drop_last().take(k) =~= digits.take(k));
    }
}

impl TakeValue {
    /// Reads a count from its text.
    pub fn from_str(s: &str) -> (res: Result<TakeValue, ParseError>)
        ensures
            res == parse_spec(s@),
    {
        broadcast use vstd::string::group_string_axioms;

        let mut chars = s.chars();
        let ghost text = s@;
        let first: char = match chars.next() {
            None => {
                return Err(ParseError::InvalidDigit);
            },
            Some(c) => c,
        };
        let signed: bool = first == '+' || first == '-';
        let limit: u64 = if first == '-' {
            MAX_NEGATIVE_MAGNITUDE
        } else {
            MAX_MAGNITUDE
        };
        let ghost digits = digits_of(text);
        let mut size: u64 = 0;
        let ghost mut seen: int = 0;
        let mut any_digit: bool = false;
        let mut pending: Option<char> = if signed {
            chars.next()
        } else {
            Some(first)
        };
        while pending.is_some()
            invariant
                text == s@,
                digits == digits_of(text),
                limit == magnitude_limit(text),
                chars.obeys_prophetic_iter_laws(),
                chars.decrease() is Some,
                0 <= seen <= digits.len(),
                any_digit <==> seen > 0,
                pending is Some ==> seen < digits.len() && pending->0 == digits[seen]
                    && chars.remaining() == digits.skip(seen + 1),
                pending is None ==> seen == digits.len(),
                all_digits(digits.take(seen)),
                size == decimal_value(digits.take(seen)),
                size <= limit,
            decreases digits.len() - seen,
        {
            let c: char = pending.unwrap();
            if c < '0' || c > '9' {
                return Err(ParseError::InvalidDigit);
            }
            let d: u64 = (c as u32 - '0' as u32) as u64;
            proof {
                assert(digits.take(seen + 1) =~= digits.take(seen).push(c));
                lemma_decimal_value_push(digits.take(seen), c);
                lemma_decimal_value_prefix(digits, seen + 1);
            }
            if size > (limit - d) / 10 {
                return Err(ParseError::InvalidDigit);
            }
            size = size * 10 + d;
            pending = chars.next();
            any_digit = true;
            proof {
                seen = seen + 1;
            }
        }
        proof {
            assert(digits.take(seen) =~= digits);
        }
        if !any_digit {
            Err(ParseError::InvalidDigit)
        } else if first == '+' {
            if size == 0 {
                Ok(TakeValue::PlusZero)
            } else {
                Ok(TakeValue::TakeNum(size as i64))
            }
        } else if size == MAX_NEGATIVE_MAGNITUDE {
            Ok(TakeValue::TakeNum(i64::MIN))
        } else {
            Ok(TakeValue::TakeNum(-(size as i64)))
        }
    }
}

/// The digit that stands for a number below ten.
pub open spec fn digit_char(d: nat) -> char {
    (d + '0' as nat) as char
}

/// The decimal digits of `n`, with no leading zero but for `0` itself.
pub open spec fn decimal_text(n: nat) -> Seq<char>
    decreases n,
{
    if n < 10 {
        seq![digit_char(n)]
    } else {
        decimal_text(n / 10).push(digit_char(n % 10))
    }
}

/// `n` written with its sign in front, `+` for zero and above.
pub open spec fn signed_text(n: int) -> Seq<char> {
    if n >= 0 {
        seq!['+'] + decimal_text(n as nat)
    } else {
        seq!['-'] + decimal_text((-n) as nat)
    }
}

/// The digits of a number are digits, and write that number.
pub proof fn lemma_decimal_text(n: nat)
    ensures
        decimal_text(n).len() > 0,
        all_digits(decimal_text(n)),
        decimal_value(decimal_text(n)) == n,
    decreases n,
{
    if n < 10 {
        let text = decimal_text(n);
        assert(text.drop_last() =~= Seq::<char>::empty());
        assert(decimal_value(text.drop_last()) == 0);
    } else {
        lemma_decimal_text(n / 10);
        lemma_decimal_value_push(decimal_text(n / 10), digit_char(n % 10));
    }
}

/// Written with its sign and read back, every number but zero is itself:
/// a positive one counts from the start, a negative one from the end.
pub proof fn lemma_signed_text_round_trip(n: i64)
    requires
        n != 0,
    ensures
        parse_spec(signed_text(n as int)) == Ok::<TakeValue, ParseError>(TakeValue::TakeNum(n)),
{
    let size: nat = if n >= 0 { n as nat } else { (-n) as nat };
    lemma_decimal_text(size);
    let text = signed_text(n as int);
    assert(digits_of(text) =~= decimal_text(size));
}

/// Zero written with a sign: `-0` counts nothing, `+0` asks for the whole file.
pub proof fn lemma_signed_zero()
    ensures
        parse_spec(seq!['-'] + decimal_text(0)) == Ok::<TakeValue, ParseError>(
            TakeValue::TakeNum(0),
        ),
        parse_spec(signed_text(0)) == Ok::<TakeValue, ParseError>(TakeValue::PlusZero),
{
    lemma_decimal_text(0);
    assert(digits_of(seq!['-'] + decimal_text(0)) =~= decimal_text(0));
    assert(digits_of(signed_text(0)) =~= decimal_text(0));
}

/// Digits with no sign count from the end: they read as the negated number.
pub proof fn lemma_bare_text_counts_from_end(n: nat)
    requires
        n <= MAX_MAGNITUDE,
    ensures
        parse_spec(decimal_text(n)) == Ok::<TakeValue, ParseError>(
            TakeValue::TakeNum((-(n as int)) as i64),
        ),
{
    lemma_decimal_text(n);
    lemma_decimal_text_first(n);
}

/// A number's digits start with a digit, not with a sign.
pub proof fn lemma_decimal_text_first(n: nat)
    ensures
        decimal_text(n).len() > 0,
        is_digit(decimal_text(n)[0]),
    decreases n,
{
    if n >= 10 {
        lemma_decimal_text_first(n / 10);
    }
}

/// A number that does not fit is refused, with either sign or none: with `+`
/// or with no sign above the largest value, with `-` below the smallest.
pub proof fn lemma_out_of_range_is_refused(n: nat)
    requires
        n > MAX_MAGNITUDE,
    ensures
        parse_spec(decimal_text(n)) is Err,
        parse_spec(signed_text(n as int)) is Err,
        n > MAX_NEGATIVE_MAGNITUDE ==> parse_spec(signed_text(-(n as int))) is Err,
{
    lemma_decimal_text(n);
    lemma_decimal_text_first(n);
    assert(digits_of(signed_text(n as int)) =~= decimal_text(n));
    assert(digits_of(signed_text(-(n as int))) =~= decimal_text(n));
}

} // verus!
