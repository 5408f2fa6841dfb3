//! Numbers as text: digits in bases 2 to 36, written and read.

use vstd::prelude::*;
use vstd::string::StringExecFns;

verus! {

/// Appends one character to a string.
///
/// Wraps `String::push`, of which the standard library says that it appends
/// the given character to the end of the string.
#[verifier::external_body]
pub(crate) fn push_char(s: &mut String, c: char)
    ensures
        final(s)@ == old(s)@.push(c),
{
    s.push(c)
}

/// Takes the last character off a string.
///
/// Wraps `String::pop`, of which the standard library says that it
/// removes the last character and returns it, or returns `None` if the
/// string is empty.
#[verifier::external_body]
pub(crate) fn pop_char(s: &mut String) -> (c: Option<char>)
    ensures
        old(s)@.len() == 0 ==> c is None && final(s)@ == old(s)@,
        old(s)@.len() > 0 ==> c == Some(old(s)@.last()) && final(s)@ == old(s)@.drop_last(),
{
    s.pop()
}

/// Whether `code` is a Unicode scalar value.
pub open spec fn is_scalar(code: int) -> bool {
    0 <= code <= 0xd7ff || 0xe000 <= code <= 0x10ffff
}

/// The character with a given code, if there is one.
///
/// Wraps `char::from_u32`, which the standard library documents as giving
/// `None` exactly where the number is not a valid `char`: a surrogate, or
/// a number above `0x10ffff`.
#[verifier::external_body]
pub(crate) fn char_from_u32(code: u32) -> (c: Option<char>)
    ensures
        is_scalar(code as int) ==> c == Some(code as char),
        !is_scalar(code as int) ==> c is None,
{
    char::from_u32(code)
}

/// The digit for `d`: `0` to `9`, then `a` to `z`.
pub open spec fn digit_char(d: int) -> char {
    if d < 10 {
        (d + 48) as char
    } else {
        (d + 87) as char
    }
}

/// The digits of `val` in `base`, most significant first; none for zero.
pub open spec fn digits(val: nat, base: nat) -> Seq<char>
    decreases val,
    via digits_decreases
{
    if val == 0 || base < 2 {
        Seq::empty()
    } else {
        digits(val / base, base).push(digit_char((val % base) as int))
    }
}

#[via_fn]
proof fn digits_decreases(val: nat, base: nat) {
    if val != 0 && base >= 2 {
        vstd::arithmetic::div_mod::lemma_div_decreases(val as int, base as int);
    }
}

/// The digits of `val` in `base`, with the single digit `0` for zero.
pub open spec fn numeral(val: nat, base: nat) -> Seq<char> {
    if val == 0 {
        seq!['0']
    } else {
        digits(val, base)
    }
}

/// The executable form of `digit_char`.
pub fn digit(d: u8) -> (c: char)
    requires
        d < 36,
    ensures
        c == digit_char(d as int),
{
    if d < 10 {
        (d + 48) as char
    } else {
        (d + 87) as char
    }
}

/// Appends the digits of `val` in `base` to `out`.
pub fn push_digits(out: &mut String, val: u64, base: u64)
    requires
        2 <= base <= 36,
    ensures
        final(out)@ == old(out)@ + digits(val as nat, base as nat),
    decreases val,
{
    if val == 0 {
        assert(out@ + Seq::<char>::empty() =~= out@);
        return ;
    }
    let ghost before = out@;
    proof {
        vstd::arithmetic::div_mod::lemma_div_decreases(val as int, base as int);
    }
    push_digits(out, val / base, base);
    push_char(out, digit((val % base) as u8));
    assert(out@ =~= before + digits(val as nat, base as nat));
}

/// Appends `val` in `base` to `out`, zero as the digit `0`.
pub fn push_numeral(out: &mut String, val: u64, base: u64)
    requires
        2 <= base <= 36,
    ensures
        final(out)@ == old(out)@ + numeral(val as nat, base as nat),
{
    if val == 0 {
        push_char(out, '0');
        assert(out@ =~= old(out)@ + seq!['0']);
    } else {
        push_digits(out, val, base);
    }
}

/// The marker that announces a base: nothing for ten, `0b`, `0o` and `0x`
/// for two, eight and sixteen, and `0[N]` with `N` in decimal otherwise.
pub open spec fn base_prefix(base: nat) -> Seq<char> {
    if base == 10 {
        Seq::empty()
    } else if base == 2 {
        seq!['0', 'b']
    } else if base == 8 {
        seq!['0', 'o']
    } else if base == 16 {
        seq!['0', 'x']
    } else {
        seq!['0', '['] + digits(base, 10) + seq![']']
    }
}

/// Whether a 64-bit pattern, read as two's complement, is below zero.
pub open spec fn is_negative(val: u64) -> bool {
    val >= 0x8000_0000_0000_0000
}

/// The distance of `val` from zero where `negative` says that it stands for
/// a number below zero, else `val` itself.
pub open spec fn magnitude(val: u64, negative: bool) -> nat {
    if negative {
        (0x1_0000_0000_0000_0000 - val) as nat
    } else {
        val as nat
    }
}

/// How an integer is shown: `0` for zero in every base; otherwise a minus
/// sign where the value is signed and negative, the base's marker, and the
/// digits of the magnitude.
pub open spec fn formatted_int(val: u64, signed: bool, base: nat) -> Seq<char> {
    if val == 0 {
        seq!['0']
    } else {
        let negative = signed && is_negative(val);
        (if negative { seq!['-'] } else { Seq::<char>::empty() }) + base_prefix(base) + digits(
            magnitude(val, negative),
            base,
        )
    }
}

/// Writes `val` as `formatted_int` describes.
pub fn format_number(val: u64, signed: bool, base: u64) -> (text: String)
    requires
        2 <= base <= 36,
    ensures
        text@ == formatted_int(val, signed, base as nat),
{
    let mut text = String::new();
    if val == 0 {
        push_char(&mut text, '0');
        assert(text@ =~= seq!['0']);
        return text;
    }
    let negative = signed && val >= 0x8000_0000_0000_0000;
    let mag: u64 = if negative { u64::MAX - val + 1 } else { val };
    if negative {
        push_char(&mut text, '-');
    }
    let ghost sign = text@;
    assert(sign =~= (if negative { seq!['-'] } else { Seq::<char>::empty() }));
    if base == 2 {
        push_char(&mut text, '0');
        push_char(&mut text, 'b');
    } else if base == 8 {
        push_char(&mut text, '0');
        push_char(&mut text, 'o');
    } else if base == 16 {
        push_char(&mut text, '0');
        push_char(&mut text, 'x');
    } else if base != 10 {
        push_char(&mut text, '0');
        push_char(&mut text, '[');
        push_digits(&mut text, base, 10);
        push_char(&mut text, ']');
    }
    assert(text@ =~= sign + base_prefix(base as nat));
    push_digits(&mut text, mag, base);
    assert(text@ =~= formatted_int(val, signed, base as nat));
    text
}

/// Why a number could not be read.
#[derive(Clone, Copy, Debug, PartialEq, Eq, Structural)]
pub enum ParseError {
    /// There was no text at all.
    Empty,
    /// A character is no digit of the base, or a sign stands alone.
    InvalidDigit,
    /// The number is above the largest that is accepted.
    TooLarge,
}

impl ParseError {
    /// The error in words.
    pub open spec fn text(self) -> Seq<char> {
        match self {
            ParseError::Empty => "cannot parse integer from empty string"@,
            ParseError::InvalidDigit => "invalid digit found in string"@,
            ParseError::TooLarge => "number too large to fit in target type"@,
        }
    }

    /// The error in words.
    pub fn message(&self) -> (text: String)
        ensures
            text@ == self.text(),
    {
        match self {
            ParseError::Empty => String::from_str("cannot parse integer from empty string"),
            ParseError::InvalidDigit => String::from_str("invalid digit found in string"),
            ParseError::TooLarge => String::from_str("number too large to fit in target type"),
        }
    }
}

/// The value of a digit character: `0` to `9`, and the letters of either
/// case from ten on.
pub open spec fn digit_value(c: char) -> Option<nat> {
    if '0' <= c <= '9' {
        Some((c as nat - 48) as nat)
    } else if 'a' <= c <= 'z' {
        Some((c as nat - 87) as nat)
    } else if 'A' <= c <= 'Z' {
        Some((c as nat - 55) as nat)
    } else {
        None
    }
}

/// Reads `s` as digits of `base`, left to right, and stops at the first
/// character that is no digit of the base or that takes the value above
/// `max`. No digits at all give zero.
pub open spec fn digits_value(s: Seq<char>, base: nat, max: nat) -> Result<nat, ParseError>
    decreases s.len(),
{
    if s.len() == 0 {
        Ok(0)
    } else {
        match digits_value(s.drop_last(), base, max) {
            Err(e) => Err(e),
            Ok(v) => match digit_value(s.last()) {
                Some(d) if d < base => if v * base + d > max {
                    Err(ParseError::TooLarge)
                } else {
                    Ok(v * base + d)
                },
                _ => Err(ParseError::InvalidDigit),
            },
        }
    }
}

/// What `s` says as a number in `base`, no larger than `max`: an optional
/// `+`, then at least one digit.
pub open spec fn number_value(s: Seq<char>, base: nat, max: nat) -> Result<nat, ParseError> {
    if s.len() == 0 {
        Err(ParseError::Empty)
    } else if s == seq!['+'] {
        Err(ParseError::InvalidDigit)
    } else if s[0] == '+' {
        digits_value(s.skip(1), base, max)
    } else {
        digits_value(s, base, max)
    }
}

/// The executable form of `digit_value`.
pub fn digit_of(c: char) -> (d: Option<u64>)
    ensures
        match d {
            Some(d) => digit_value(c) == Some(d as nat) && d < 36,
            None => digit_value(c) is None,
        },
{
    let code: u32 = c as u32;
    if 48 <= code && code <= 57 {
        Some((code - 48) as u64)
    } else if 97 <= code && code <= 122 {
        Some((code - 87) as u64)
    } else if 65 <= code && code <= 90 {
        Some((code - 55) as u64)
    } else {
        None
    }
}

/// The characters of a string slice.
pub fn chars_of(s: &str) -> (v: Vec<char>)
    ensures
        v@ == s@,
{
    let n = s.unicode_len();
    let mut v: Vec<char> = Vec::new();
    let mut i: usize = 0;
    while i < n
        invariant
            i <= n,
            n == s@.len(),
            v@ == s@.take(i as int),
        decreases n - i,
    {
        v.push(s.get_char(i));
        i += 1;
        assert(v@ =~= s@.take(i as int));
    }
    assert(s@.take(n as int) =~= s@);
    v
}

/// Reads the characters from `from` on as a number in `base`.
pub fn parse_number(s: &Vec<char>, from: usize, base: u64, max: u64) -> (r: Result<u64, ParseError>)
    requires
        2 <= base <= 36,
        from <= s@.len(),
    ensures
        match r {
            Ok(v) => number_value(s@.skip(from as int), base as nat, max as nat) == Ok::<nat, ParseError>(v as nat),
            Err(e) => number_value(s@.skip(from as int), base as nat, max as nat) == Err::<nat, ParseError>(e),
        },
{
    let ghost text = s@.skip(from as int);
    let n = s.len();
    if from == n {
        return Err(ParseError::Empty);
    }
    let mut i: usize = from;
    if s[from] == '+' {
        if n - from == 1 {
            assert(text =~= seq!['+']);
            return Err(ParseError::InvalidDigit);
        }
        i = from + 1;
    }
    let ghost body = s@.skip(i as int);
    assert(text[0] == s@[from as int]);
    assert(i > from ==> body =~= text.skip(1));
    assert(i == from ==> body =~= text);
    assert(text != seq!['+']) by {
        if text == seq!['+'] {
            assert(text.len() == 1);
        }
    }
    let ghost start = i;
    let mut acc: u64 = 0;
    assert(number_value(text, base as nat, max as nat) == digits_value(body, base as nat, max as nat));
    while i < n
        invariant
            start <= i <= n,
            n == s@.len(),
            2 <= base <= 36,
            body == s@.skip(start as int),
            number_value(s@.skip(from as int), base as nat, max as nat) == digits_value(
                body,
                base as nat,
                max as nat,
            ),
            acc <= max,
            digits_value(body.take(i - start), base as nat, max as nat) == Ok::<nat, ParseError>(acc as nat),
        decreases n - i,
    {
        let ghost prefix = body.take(i - start + 1);
        assert(prefix.drop_last() =~= body.take(i - start));
        assert(prefix.last() == s@[i as int]);
        match digit_of(s[i]) {
            Some(d) if d < base => {
                assert(acc as u128 * base as u128 + d as u128 <= 0xffff_ffff_ffff_ffff * 36 + 36
                    && acc as u128 * base as u128 <= 0xffff_ffff_ffff_ffff * 36) by (nonlinear_arith)
                    requires
                        acc <= 0xffff_ffff_ffff_ffff,
                        base <= 36,
                        d < 36,
                ;
                let next: u128 = acc as u128 * base as u128 + d as u128;
                if next > max as u128 {
                    proof {
                        lemma_digits_value_stops(body, (i - start + 1) as nat, base as nat, max as nat);
                    }
                    return Err(ParseError::TooLarge);
                }
                acc = next as u64;
            },
            _ => {
                proof {
                    lemma_digits_value_stops(body, (i - start + 1) as nat, base as nat, max as nat);
                }
                return Err(ParseError::InvalidDigit);
            },
        }
        i += 1;
    }
    assert(body.take(n - start) =~= body);
    Ok(acc)
}

/// Once reading has failed on a prefix, it fails in the same way on every
/// longer text.
pub proof fn lemma_digits_value_stops(s: Seq<char>, n: nat, base: nat, max: nat)
    requires
        n <= s.len(),
        digits_value(s.take(n as int), base, max) is Err,
    ensures
        digits_value(s, base, max) == digits_value(s.take(n as int), base, max),
    decreases s.len(),
{
    if n < s.len() {
        assert(s.drop_last().take(n as int) =~= s.take(n as int));
        lemma_digits_value_stops(s.drop_last(), n, base, max);
    } else {
        assert(s.take(n as int) =~= s);
    }
}

} // verus!
