//! Text out of bytes: the byte-wise reading of UTF-8 and ASCII strings that
//! structure programs ask for.
//!
//! A lead byte announces how many continuation bytes follow and gives the
//! high bits of the character's number; each continuation byte gives six
//! more. The number must need as many bytes as spell it, and it must be a
//! Unicode scalar value; anything else is malformed.

use vstd::prelude::*;
use crate::text::{is_scalar, char_from_u32, push_char};

verus! {

/// Why text could not be read.
#[derive(Clone, Copy, Debug, PartialEq, Eq, Structural)]
pub enum TextError {
    /// The bytes end before the text does.
    OutOfBounds,
    /// A byte of an ASCII string is `0x80` or above.
    NotAscii,
    /// A byte cannot stand where it stands, or the bytes spell no character.
    Malformed,
}

/// Whether `b` is a continuation byte, `10xxxxxx`.
pub open spec fn is_continuation(b: u8) -> bool {
    0x80 <= b < 0xc0
}

/// What a lead byte announces: the high bits of the number, and how many
/// continuation bytes follow.
pub open spec fn lead(b: u8) -> Option<(nat, nat)> {
    if b < 0x80 {
        Some((b as nat, 0))
    } else if b < 0xc0 {
        None
    } else if b < 0xe0 {
        Some(((b - 0xc0) as nat, 1))
    } else if b < 0xf0 {
        Some(((b - 0xe0) as nat, 2))
    } else if b < 0xf8 {
        Some(((b - 0xf0) as nat, 3))
    } else {
        None
    }
}

/// Reads `count` continuation bytes from `at` on into `acc`, and gives the
/// number and the position behind the last byte.
pub open spec fn continued(bytes: Seq<u8>, at: int, count: nat, acc: nat) -> Result<(nat, int), TextError>
    decreases count,
{
    if count == 0 {
        Ok((acc, at))
    } else if at < 0 || at >= bytes.len() {
        Err(TextError::OutOfBounds)
    } else if !is_continuation(bytes[at]) {
        Err(TextError::Malformed)
    } else {
        continued(bytes, at + 1, (count - 1) as nat, acc * 64 + (bytes[at] - 0x80) as nat)
    }
}

/// The least number that is spelled with `count` continuation bytes: a
/// smaller one has a shorter spelling, and the longer one is not valid.
pub open spec fn least_with(count: nat) -> nat {
    if count == 0 {
        0
    } else if count == 1 {
        0x80
    } else if count == 2 {
        0x800
    } else {
        0x1_0000
    }
}

/// The number of the character that starts at `at`, and the position behind
/// it. A number that is spelled with more bytes than it needs is
/// malformed. With `utf8` unset only single bytes below `0x80` are
/// accepted.
pub open spec fn code_at(bytes: Seq<u8>, at: int, utf8: bool) -> Result<(nat, int), TextError> {
    if at < 0 || at >= bytes.len() {
        Err(TextError::OutOfBounds)
    } else if !utf8 && bytes[at] >= 0x80 {
        Err(TextError::NotAscii)
    } else {
        match lead(bytes[at]) {
            None => Err(TextError::Malformed),
            Some((bits, count)) => match continued(bytes, at + 1, count, bits) {
                Err(e) => Err(e),
                Ok((code, next)) => if code < least_with(count) {
                    Err(TextError::Malformed)
                } else {
                    Ok((code, next))
                },
            },
        }
    }
}

/// One fewer character to go, where the characters are counted.
pub open spec fn one_fewer(remaining: Option<nat>) -> Option<nat> {
    match remaining {
        Some(n) => Some((n - 1) as nat),
        None => None,
    }
}

/// The text that starts at `at`, and the position behind it. With
/// `remaining` given, the text has that many characters; without, it ends
/// before the first character whose number is zero, and the position is
/// behind that character.
pub open spec fn text_at(bytes: Seq<u8>, at: int, remaining: Option<nat>, utf8: bool) -> Result<
    (Seq<char>, int),
    TextError,
>
    decreases bytes.len() - at,
    via text_at_decreases
{
    if remaining == Some(0nat) {
        Ok((Seq::empty(), at))
    } else {
        match code_at(bytes, at, utf8) {
            Err(e) => Err(e),
            Ok((code, next)) => if remaining is None && code == 0 {
                Ok((Seq::empty(), next))
            } else if !is_scalar(code as int) {
                Err(TextError::Malformed)
            } else {
                match text_at(bytes, next, one_fewer(remaining), utf8) {
                    Err(e) => Err(e),
                    Ok((rest, end)) => Ok((seq![code as char] + rest, end)),
                }
            },
        }
    }
}

#[via_fn]
proof fn text_at_decreases(bytes: Seq<u8>, at: int, remaining: Option<nat>, utf8: bool) {
    lemma_code_at_advances(bytes, at, utf8);
}

/// A character's bytes lie within the text's bytes, and there is at least
/// one of them.
pub proof fn lemma_code_at_advances(bytes: Seq<u8>, at: int, utf8: bool)
    ensures
        code_at(bytes, at, utf8) matches Ok((code, next)) ==> at < next <= bytes.len() && next <= at + 4
            && code < 0x20_0000,
{
    reveal_with_fuel(continued, 4);
}

/// A text ends where it starts or further on, and within the bytes where
/// it has read any.
pub proof fn lemma_text_at_bounds(bytes: Seq<u8>, at: int, remaining: Option<nat>, utf8: bool)
    ensures
        text_at(bytes, at, remaining, utf8) matches Ok((text, end)) ==> at <= end && (end == at || end
            <= bytes.len()),
    decreases bytes.len() - at,
{
    if remaining != Some(0nat) {
        lemma_code_at_advances(bytes, at, utf8);
        if let Ok((code, next)) = code_at(bytes, at, utf8) {
            if !(remaining is None && code == 0) && is_scalar(code as int) {
                lemma_text_at_bounds(bytes, next, one_fewer(remaining), utf8);
            }
        }
    }
}

fn continuation(bytes: &Vec<u8>, at: usize, acc: u32) -> (r: Result<u32, TextError>)
    requires
        acc < 0x8000,
    ensures
        match r {
            Ok(v) => at < bytes@.len() && is_continuation(bytes@[at as int]) && v == acc * 64 + (
            bytes@[at as int] - 0x80),
            Err(e) => if at >= bytes@.len() {
                e == TextError::OutOfBounds
            } else {
                e == TextError::Malformed && !is_continuation(bytes@[at as int])
            },
        },
{
    if at >= bytes.len() {
        return Err(TextError::OutOfBounds);
    }
    let b = bytes[at];
    if b < 0x80 || b >= 0xc0 {
        return Err(TextError::Malformed);
    }
    Ok(acc * 64 + (b - 0x80) as u32)
}

/// Reads the character that starts at `at`.
pub fn read_code(bytes: &Vec<u8>, at: usize, utf8: bool) -> (r: Result<(u32, usize), TextError>)
    ensures
        match r {
            Ok((code, next)) => code_at(bytes@, at as int, utf8) == Ok::<(nat, int), TextError>(
                (code as nat, next as int),
            ),
            Err(e) => code_at(bytes@, at as int, utf8) == Err::<(nat, int), TextError>(e),
        },
{
    proof {
        reveal_with_fuel(continued, 4);
    }
    if at >= bytes.len() {
        return Err(TextError::OutOfBounds);
    }
    let b = bytes[at];
    if !utf8 && b >= 0x80 {
        return Err(TextError::NotAscii);
    }
    if b < 0x80 {
        Ok((b as u32, at + 1))
    } else if b < 0xc0 {
        Err(TextError::Malformed)
    } else if b < 0xe0 {
        let c1 = continuation(bytes, at + 1, (b - 0xc0) as u32)?;
        if c1 < 0x80 {
            return Err(TextError::Malformed);
        }
        Ok((c1, at + 2))
    } else if b < 0xf0 {
        let c1 = continuation(bytes, at + 1, (b - 0xe0) as u32)?;
        let c2 = continuation(bytes, at + 2, c1)?;
        if c2 < 0x800 {
            return Err(TextError::Malformed);
        }
        Ok((c2, at + 3))
    } else if b < 0xf8 {
        let c1 = continuation(bytes, at + 1, (b - 0xf0) as u32)?;
        let c2 = continuation(bytes, at + 2, c1)?;
        let c3 = continuation(bytes, at + 3, c2)?;
        if c3 < 0x1_0000 {
            return Err(TextError::Malformed);
        }
        Ok((c3, at + 4))
    } else {
        Err(TextError::Malformed)
    }
}

/// `text_at` with `front` put before the text.
pub open spec fn after(front: Seq<char>, rest: Result<(Seq<char>, int), TextError>) -> Result<
    (Seq<char>, int),
    TextError,
> {
    match rest {
        Ok((text, end)) => Ok((front + text, end)),
        Err(e) => Err(e),
    }
}

/// The characters counted by `len`, as a mathematical number.
pub open spec fn counted(len: Option<u64>) -> Option<nat> {
    match len {
        Some(n) => Some(n as nat),
        None => None,
    }
}

/// Reads the text that starts at `start`: `len` characters, or up to the
/// first character whose number is zero. Gives the text and the number of
/// bytes read.
pub fn read_text(bytes: &Vec<u8>, start: u64, len: Option<u64>, utf8: bool) -> (r: Result<
    (String, usize),
    TextError,
>)
    ensures
        match r {
            Ok((text, used)) => text_at(bytes@, start as int, counted(len), utf8) == Ok::<
                (Seq<char>, int),
                TextError,
            >((text@, start + used)),
            Err(e) => text_at(bytes@, start as int, counted(len), utf8) == Err::<(Seq<char>, int), TextError>(
                e,
            ),
        },
{
    let n = bytes.len();
    let mut out = String::new();
    if let Some(0) = len {
        return Ok((out, 0));
    }
    if start >= n as u64 {
        return Err(TextError::OutOfBounds);
    }
    let first: usize = start as usize;
    let mut at: usize = first;
    let mut rem: Option<u64> = len;
    assert(Seq::<char>::empty() + Seq::<char>::empty() =~= Seq::<char>::empty());
    loop
        invariant
            n == bytes@.len(),
            first == start,
            first <= at <= n,
            text_at(bytes@, start as int, counted(len), utf8) == after(
                out@,
                text_at(bytes@, at as int, counted(rem), utf8),
            ),
        decreases n - at,
    {
        if let Some(0) = rem {
            assert(out@ + Seq::<char>::empty() =~= out@);
            return Ok((out, at - first));
        }
        proof {
            lemma_code_at_advances(bytes@, at as int, utf8);
        }
        let (code, next) = match read_code(bytes, at, utf8) {
            Ok(pair) => pair,
            Err(e) => {
                return Err(e);
            },
        };
        if rem.is_none() && code == 0 {
            assert(out@ + Seq::<char>::empty() =~= out@);
            return Ok((out, next - first));
        }
        let ch = match char_from_u32(code) {
            Some(ch) => ch,
            None => {
                return Err(TextError::Malformed);
            },
        };
        let ghost before = out@;
        let ghost prev = rem;
        let ghost rest = text_at(bytes@, next as int, one_fewer(counted(rem)), utf8);
        push_char(&mut out, ch);
        rem =
        match rem {
            Some(r) => Some(r - 1),
            None => None,
        };
        at = next;
        proof {
            assert(counted(rem) == one_fewer(counted(prev)));
            if let Ok((text, end)) = rest {
                assert(before + (seq![code as char] + text) =~= out@ + text);
            }
        }
    }
}

} // verus!
