//! What a structure program means: a stack machine that reads the file
//! around the cursor and writes annotation lines.
//!
//! The machine has an operand stack of 64-bit numbers, a stack of strings,
//! a scratch memory from numbers to numbers, a byte order for integer
//! loads, and a program counter. `step` says what one instruction does;
//! `run` repeats it until the program stops, fails, or has used up the
//! steps it was given.

use vstd::prelude::*;
use crate::bytes::{be_value, le_value};
use crate::decode::{text_at, TextError};
use crate::display::{header_color, Color};
use crate::file::FileError;
use crate::text::formatted_int;

verus! {

/// One row of annotation output, as a mathematical value.
pub enum LineView {
    /// An empty row.
    Blank,
    /// A row of plain text.
    Text(Seq<char>),
    /// A section title in the role of its level.
    Header(Color, Seq<char>),
}

/// Why a program was abandoned, as a mathematical value.
pub enum ErrorView {
    /// The byte is no instruction.
    UnknownOpcode(u8),
    /// The second byte is no variant of the instruction that the first names.
    UnknownSubOpcode(u8, u8),
    /// An instruction needed more operands than a stack held.
    StackRanOut,
    /// The program ends inside an instruction.
    CodeRanOut,
    /// An integer was to be shown in a base that is not among 2 to 36.
    BadBase(u8),
    /// Scratch memory was read at an index that was never written.
    ScratchUnset(u64),
    /// A string constant of the program is not well-formed.
    InvalidConstant,
    /// A string in the file is not well-formed UTF-8.
    InvalidUtf8,
    /// A string in the file that was to be ASCII holds a byte outside it.
    InvalidAscii,
    /// The file could not be read where the program pointed.
    File(FileError),
    /// The program gave up; the operand stack is attached, top first.
    Panic(Seq<u64>),
    /// The program ran for more steps than it was given.
    StepLimit,
}

/// The state of the machine between two instructions.
#[verifier::ext_equal]
pub struct Machine {
    /// Where the next instruction starts.
    pub pc: int,
    /// Whether integers in the file are read most significant byte first.
    pub big_endian: bool,
    /// The operand stack; its top is the last element.
    pub stack: Seq<u64>,
    /// The string stack; its top is the last element.
    pub strings: Seq<Seq<char>>,
    /// The scratch memory: what was stored under each index.
    pub scratch: Map<u64, u64>,
    /// The screen row that the next line of output goes to.
    pub row: nat,
    /// Whether the last line of output was a value, not a header.
    pub after_value: bool,
    /// The lines written so far.
    pub lines: Seq<LineView>,
}

/// What one instruction leads to.
pub enum Step {
    /// The machine goes on in this state.
    Next(Machine),
    /// The program is over; these are its lines.
    Halt(Seq<LineView>),
    /// The program is abandoned; these lines were written before.
    Fail(Seq<LineView>, ErrorView),
}

/// What a run of a program gives: the lines it wrote, and the error that
/// ended it, if one did.
pub struct Report {
    pub lines: Seq<LineView>,
    pub error: Option<ErrorView>,
}

/// The machine before the first instruction, about to write to `row`.
pub open spec fn initial(row: nat) -> Machine {
    Machine {
        pc: 0,
        big_endian: false,
        stack: Seq::empty(),
        strings: Seq::empty(),
        scratch: Map::empty(),
        row,
        after_value: false,
        lines: Seq::empty(),
    }
}

/// The byte of the program at `at`, if the program is that long.
pub open spec fn byte_at(code: Seq<u8>, at: int) -> Option<u8> {
    if 0 <= at < code.len() {
        Some(code[at])
    } else {
        None
    }
}

/// The 64-bit constant whose eight bytes start at `at`, least significant
/// first, if the program is that long.
pub open spec fn constant_at(code: Seq<u8>, at: int) -> Option<u64> {
    if 0 <= at && at + 8 <= code.len() {
        Some(le_value(code.subrange(at, at + 8)) as u64)
    } else {
        None
    }
}

/// `n` reduced to 64 bits.
pub open spec fn wrapped(n: int) -> u64 {
    (n % 0x1_0000_0000_0000_0000) as u64
}

/// `raw`, a number of `width` bytes, read as two's complement and widened
/// to 64 bits.
pub open spec fn sign_extended(raw: nat, width: nat) -> u64 {
    if width == 1 && raw >= 0x80 {
        (raw + 0xffff_ffff_ffff_ff00) as u64
    } else if width == 2 && raw >= 0x8000 {
        (raw + 0xffff_ffff_ffff_0000) as u64
    } else if width == 4 && raw >= 0x8000_0000 {
        (raw + 0xffff_ffff_0000_0000) as u64
    } else {
        raw as u64
    }
}

/// The width in bytes of the integer that a variant of the load
/// instruction reads, and whether it is signed.
pub open spec fn int_kind(sub: u8) -> Option<(nat, bool)> {
    if sub == 0 || sub == 1 {
        Some((8, false))
    } else if sub == 2 {
        Some((4, false))
    } else if sub == 3 {
        Some((4, true))
    } else if sub == 4 {
        Some((2, false))
    } else if sub == 5 {
        Some((2, true))
    } else if sub == 6 {
        Some((1, false))
    } else if sub == 7 {
        Some((1, true))
    } else {
        None
    }
}

/// The integer of `width` bytes that the file holds at `offset`, in the
/// given byte order, sign-extended where `signed`; none where the file
/// ends before it.
pub open spec fn file_int(file: Seq<u8>, offset: u64, width: nat, signed: bool, big_endian: bool) -> Option<
    u64,
> {
    if offset + width > file.len() {
        None
    } else {
        let bytes = file.subrange(offset as int, offset + width);
        let raw = if big_endian {
            be_value(bytes)
        } else {
            le_value(bytes)
        };
        if signed {
            Some(sign_extended(raw, width))
        } else {
            Some(raw as u64)
        }
    }
}

/// How a failure to read a string constant is reported.
pub open spec fn constant_error(e: TextError) -> ErrorView {
    match e {
        TextError::OutOfBounds => ErrorView::CodeRanOut,
        _ => ErrorView::InvalidConstant,
    }
}

/// How a failure to read a string from the file is reported.
pub open spec fn file_text_error(e: TextError) -> ErrorView {
    match e {
        TextError::OutOfBounds => ErrorView::File(FileError::ShortRead),
        TextError::NotAscii => ErrorView::InvalidAscii,
        TextError::Malformed => ErrorView::InvalidUtf8,
    }
}

/// A line that shows a name and a value.
pub open spec fn pair_line(name: Seq<char>, value: Seq<char>) -> LineView {
    LineView::Text(name + seq![':', ' '] + value)
}

/// The machine gives up with `e`, keeping the lines written so far.
pub open spec fn failed(m: Machine, e: ErrorView) -> Step {
    Step::Fail(m.lines, e)
}

/// Sets the byte order of integer loads: variant 0 is least significant
/// byte first, variant 1 most significant first.
pub open spec fn op_endianness(code: Seq<u8>, m: Machine) -> Step {
    match byte_at(code, m.pc + 1) {
        None => failed(m, ErrorView::CodeRanOut),
        Some(mode) => if mode == 0 {
            Step::Next(Machine { pc: m.pc + 2, big_endian: false, ..m })
        } else if mode == 1 {
            Step::Next(Machine { pc: m.pc + 2, big_endian: true, ..m })
        } else {
            failed(m, ErrorView::UnknownSubOpcode(0x01, mode))
        },
    }
}

/// Pushes the 64-bit constant that follows the instruction.
pub open spec fn op_push_constant(code: Seq<u8>, m: Machine) -> Step {
    match constant_at(code, m.pc + 1) {
        None => failed(m, ErrorView::CodeRanOut),
        Some(c) => Step::Next(Machine { pc: m.pc + 9, stack: m.stack.push(c), ..m }),
    }
}

/// Pushes the string constant that follows the instruction: a 64-bit
/// count of characters, then the characters in UTF-8.
pub open spec fn op_push_string(code: Seq<u8>, m: Machine) -> Step {
    match constant_at(code, m.pc + 1) {
        None => failed(m, ErrorView::CodeRanOut),
        Some(len) => match text_at(code, m.pc + 9, Some(len as nat), true) {
            Err(e) => failed(m, constant_error(e)),
            Ok((text, end)) => Step::Next(
                Machine { pc: end, strings: m.strings.push(text), ..m },
            ),
        },
    }
}

/// Pushes the cursor's offset.
pub open spec fn op_push_cursor(loc: u64, m: Machine) -> Step {
    Step::Next(Machine { pc: m.pc + 1, stack: m.stack.push(loc), ..m })
}

/// Replaces the offset on top of the stack by the integer that the file
/// holds there.
pub open spec fn op_load_int(code: Seq<u8>, file: Seq<u8>, m: Machine) -> Step {
    match byte_at(code, m.pc + 1) {
        None => failed(m, ErrorView::CodeRanOut),
        Some(sub) => if m.stack.len() < 1 {
            failed(m, ErrorView::StackRanOut)
        } else {
            match int_kind(sub) {
                None => failed(m, ErrorView::UnknownSubOpcode(0x18, sub)),
                Some((width, signed)) => match file_int(file, m.stack.last(), width, signed, m.big_endian) {
                    None => failed(m, ErrorView::File(FileError::ShortRead)),
                    Some(val) => Step::Next(
                        Machine { pc: m.pc + 2, stack: m.stack.drop_last().push(val), ..m },
                    ),
                },
            }
        },
    }
}

/// Pushes a string read from the file. Variants 0 and 1 read UTF-8, 2 and
/// 3 ASCII; 0 and 2 read up to a zero character and take the offset from
/// the stack, 1 and 3 take a count of characters and below it the offset.
pub open spec fn op_load_string(code: Seq<u8>, file: Seq<u8>, m: Machine) -> Step {
    match byte_at(code, m.pc + 1) {
        None => failed(m, ErrorView::CodeRanOut),
        Some(sub) => if sub > 3 {
            failed(m, ErrorView::UnknownSubOpcode(0x1a, sub))
        } else {
            let sized = sub == 1 || sub == 3;
            let used: int = if sized { 2 } else { 1 };
            if m.stack.len() < used {
                failed(m, ErrorView::StackRanOut)
            } else {
                let offset = m.stack[m.stack.len() - used];
                let len = if sized { Some(m.stack.last() as nat) } else { None };
                match text_at(file, offset as int, len, sub < 2) {
                    Err(e) => failed(m, file_text_error(e)),
                    Ok((text, end)) => Step::Next(
                        Machine {
                            pc: m.pc + 2,
                            stack: m.stack.take(m.stack.len() - used),
                            strings: m.strings.push(text),
                            ..m
                        },
                    ),
                }
            }
        },
    }
}

/// Replaces the index on top of the stack by what scratch memory holds
/// under it.
pub open spec fn op_scratch_load(m: Machine) -> Step {
    if m.stack.len() < 1 {
        failed(m, ErrorView::StackRanOut)
    } else if !m.scratch.dom().contains(m.stack.last()) {
        failed(m, ErrorView::ScratchUnset(m.stack.last()))
    } else {
        Step::Next(
            Machine { pc: m.pc + 1, stack: m.stack.drop_last().push(m.scratch[m.stack.last()]), ..m },
        )
    }
}

/// Stores the value below the top of the stack under the index on top.
pub open spec fn op_scratch_store(m: Machine) -> Step {
    if m.stack.len() < 2 {
        failed(m, ErrorView::StackRanOut)
    } else {
        Step::Next(
            Machine {
                pc: m.pc + 1,
                stack: m.stack.take(m.stack.len() - 2),
                scratch: m.scratch.insert(m.stack.last(), m.stack[m.stack.len() - 2]),
                ..m
            },
        )
    }
}

/// Writes a line with a name and an integer. The name is on the string
/// stack; the value is on the operand stack, and below it a marker that is
/// dropped. Variant 0 shows the value unsigned, variant 1 signed; a second
/// byte gives the base. With no row left the program ends.
pub open spec fn op_output_int(code: Seq<u8>, height: nat, m: Machine) -> Step {
    if byte_at(code, m.pc + 1) is None || byte_at(code, m.pc + 2) is None {
        failed(m, ErrorView::CodeRanOut)
    } else {
        let sub = code[m.pc + 1];
        let base = code[m.pc + 2];
        if m.strings.len() < 1 || m.stack.len() < 2 {
            failed(m, ErrorView::StackRanOut)
        } else if m.row >= height {
            Step::Halt(m.lines)
        } else if sub > 1 {
            Step::Fail(m.lines.push(LineView::Blank), ErrorView::UnknownSubOpcode(0x28, sub))
        } else if base < 2 || base > 36 {
            Step::Fail(m.lines.push(LineView::Blank), ErrorView::BadBase(base))
        } else {
            Step::Next(
                Machine {
                    pc: m.pc + 3,
                    stack: m.stack.take(m.stack.len() - 2),
                    strings: m.strings.drop_last(),
                    row: m.row + 1,
                    after_value: true,
                    lines: m.lines.push(
                        pair_line(m.strings.last(), formatted_int(m.stack.last(), sub == 1, base as nat)),
                    ),
                    ..m
                },
            )
        }
    }
}

/// Writes a line with a name and a string. The name is on top of the
/// string stack, the value below it; a marker is dropped from the operand
/// stack. With no row left the program ends.
pub open spec fn op_output_string(code: Seq<u8>, height: nat, m: Machine) -> Step {
    match byte_at(code, m.pc + 1) {
        None => failed(m, ErrorView::CodeRanOut),
        Some(sub) => if m.strings.len() < 2 || m.stack.len() < 1 {
            failed(m, ErrorView::StackRanOut)
        } else if m.row >= height {
            Step::Halt(m.lines)
        } else if sub != 0 {
            Step::Fail(m.lines.push(LineView::Blank), ErrorView::UnknownSubOpcode(0x2a, sub))
        } else {
            Step::Next(
                Machine {
                    pc: m.pc + 2,
                    stack: m.stack.drop_last(),
                    strings: m.strings.take(m.strings.len() - 2),
                    row: m.row + 1,
                    after_value: true,
                    lines: m.lines.push(pair_line(m.strings.last(), m.strings[m.strings.len() - 2])),
                    ..m
                },
            )
        },
    }
}

/// Writes a section header: after a value line an empty row first, then
/// the title and an empty row below it. The title is on the string stack;
/// the byte that follows gives the level. With too few rows left the
/// program ends. The number 1 is pushed.
pub open spec fn op_output_header(code: Seq<u8>, height: nat, m: Machine) -> Step {
    match byte_at(code, m.pc + 1) {
        None => failed(m, ErrorView::CodeRanOut),
        Some(level) => if m.strings.len() < 1 {
            failed(m, ErrorView::StackRanOut)
        } else if m.after_value && m.row >= height {
            Step::Halt(m.lines)
        } else {
            let row = if m.after_value { m.row + 1 } else { m.row };
            let lines = if m.after_value { m.lines.push(LineView::Blank) } else { m.lines };
            if row + 2 > height {
                Step::Halt(lines)
            } else {
                Step::Next(
                    Machine {
                        pc: m.pc + 2,
                        stack: m.stack.push(1),
                        strings: m.strings.drop_last(),
                        row: row + 2,
                        after_value: false,
                        lines: lines.push(LineView::Header(header_color(level), m.strings.last())).push(
                            LineView::Blank,
                        ),
                        ..m
                    },
                )
            }
        },
    }
}

/// The instructions that work on the operand stack alone: swap, duplicate,
/// drop, negate, add and bitwise and. Arithmetic wraps at 64 bits.
pub open spec fn op_stack(opcode: u8, m: Machine) -> Step {
    let n = m.stack.len() as int;
    let used: int = if opcode == 0x80 || opcode == 0x84 || opcode == 0x85 { 2 } else { 1 };
    if n < used {
        failed(m, ErrorView::StackRanOut)
    } else {
        let x = m.stack[n - 1];
        let rest = m.stack.take(n - used);
        let stack = if opcode == 0x80 {
            rest.push(x).push(m.stack[n - 2])
        } else if opcode == 0x81 {
            rest.push(x).push(x)
        } else if opcode == 0x82 {
            rest
        } else if opcode == 0x83 {
            rest.push(wrapped(-(x as int)))
        } else if opcode == 0x84 {
            rest.push(wrapped(x + m.stack[n - 2]))
        } else {
            rest.push(x & m.stack[n - 2])
        };
        Step::Next(Machine { pc: m.pc + 1, stack, ..m })
    }
}

/// Whether a conditional jump is taken on `x`: on zero, on anything but
/// zero, or on a cleared sign bit.
pub open spec fn jump_taken(opcode: u8, x: u64) -> bool {
    if opcode == 0xe1 {
        x == 0
    } else if opcode == 0xe2 {
        x != 0
    } else {
        x < 0x8000_0000_0000_0000
    }
}

/// The jumps. The target is the constant that follows the instruction,
/// added to the position of the instruction itself, wrapping at 64 bits.
/// A conditional jump takes its condition from the stack.
pub open spec fn op_jump(code: Seq<u8>, opcode: u8, m: Machine) -> Step {
    match constant_at(code, m.pc + 1) {
        None => failed(m, ErrorView::CodeRanOut),
        Some(c) => if opcode == 0xe0 {
            Step::Next(Machine { pc: wrapped(m.pc + c) as int, ..m })
        } else if m.stack.len() < 1 {
            failed(m, ErrorView::StackRanOut)
        } else if jump_taken(opcode, m.stack.last()) {
            Step::Next(Machine { pc: wrapped(m.pc + c) as int, stack: m.stack.drop_last(), ..m })
        } else {
            Step::Next(Machine { pc: m.pc + 9, stack: m.stack.drop_last(), ..m })
        },
    }
}

/// What the instruction at the program counter does. A program counter at
/// or behind the end of the program ends it, as the stop instruction does.
pub open spec fn step(code: Seq<u8>, file: Seq<u8>, loc: u64, height: nat, m: Machine) -> Step {
    if m.pc < 0 || m.pc >= code.len() {
        Step::Halt(m.lines)
    } else {
        let opcode = code[m.pc];
        if opcode == 0x00 {
            Step::Halt(m.lines)
        } else if opcode == 0x01 {
            op_endianness(code, m)
        } else if opcode == 0x10 {
            op_push_constant(code, m)
        } else if opcode == 0x12 {
            op_push_string(code, m)
        } else if opcode == 0x14 {
            op_push_cursor(loc, m)
        } else if opcode == 0x18 {
            op_load_int(code, file, m)
        } else if opcode == 0x1a {
            op_load_string(code, file, m)
        } else if opcode == 0x1c {
            op_scratch_load(m)
        } else if opcode == 0x28 {
            op_output_int(code, height, m)
        } else if opcode == 0x2a {
            op_output_string(code, height, m)
        } else if opcode == 0x2b {
            op_output_header(code, height, m)
        } else if opcode == 0x2c {
            op_scratch_store(m)
        } else if 0x80 <= opcode <= 0x85 {
            op_stack(opcode, m)
        } else if 0xe0 <= opcode <= 0xe3 {
            op_jump(code, opcode, m)
        } else if opcode == 0xff {
            failed(m, ErrorView::Panic(m.stack.reverse()))
        } else {
            failed(m, ErrorView::UnknownOpcode(opcode))
        }
    }
}

/// What the program gives when it is run from `m` for at most `fuel`
/// instructions.
pub open spec fn run(code: Seq<u8>, file: Seq<u8>, loc: u64, height: nat, m: Machine, fuel: nat) -> Report
    decreases fuel,
{
    if fuel == 0 {
        Report { lines: m.lines, error: Some(ErrorView::StepLimit) }
    } else {
        match step(code, file, loc, height, m) {
            Step::Next(next) => run(code, file, loc, height, next, (fuel - 1) as nat),
            Step::Halt(lines) => Report { lines, error: None },
            Step::Fail(lines, e) => Report { lines, error: Some(e) },
        }
    }
}

} // verus!
