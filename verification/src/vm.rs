//! The stack machine as it runs: one function for each family of
//! instructions, each proved to do what the machine's description says.

use std::collections::HashMap;
use vstd::prelude::*;
use vstd::string::StringExecFns;
use crate::bytes::{lemma_le_value_bound, lemma_pow256_8, read_be, read_le};
use crate::decode::{lemma_text_at_bounds, read_text, TextError};
use crate::display::color_of_level;
use crate::file::{File, FileError};
use crate::machine::{
    byte_at, constant_at, file_int, initial, op_endianness, op_jump, op_load_int, op_load_string,
    op_output_header, op_output_int, op_output_string, op_push_constant, op_push_cursor,
    op_push_string, op_scratch_load, op_scratch_store, op_stack, pair_line, run, step, Machine,
    Step,
};
use crate::structs::{lines_view, strings_view, Line, Rendering, StructError};
use crate::text::{format_number, push_char};

verus! {

broadcast use vstd::std_specs::hash::group_hash_axioms;

/// The machine's state in memory.
pub(crate) struct Vm {
    pub pc: u64,
    pub big_endian: bool,
    pub stack: Vec<u64>,
    pub strings: Vec<String>,
    pub scratch: HashMap<u64, u64>,
    pub row: usize,
    pub after_value: bool,
    pub lines: Vec<Line>,
}

impl View for Vm {
    type V = Machine;

    closed spec fn view(&self) -> Machine {
        Machine {
            pc: self.pc as int,
            big_endian: self.big_endian,
            stack: self.stack@,
            strings: strings_view(self.strings@),
            scratch: self.scratch@,
            row: self.row as nat,
            after_value: self.after_value,
            lines: lines_view(self.lines@),
        }
    }
}

/// How one instruction ended.
pub(crate) enum Flow {
    Next,
    Halt,
    Fail(StructError),
}

/// Whether what happened in memory is what the description asks for.
pub(crate) open spec fn agrees(flow: Flow, after: Machine, step: Step) -> bool {
    match step {
        Step::Next(m) => flow is Next && after =~= m,
        Step::Halt(lines) => flow is Halt && after.lines =~= lines,
        Step::Fail(lines, e) => (flow matches Flow::Fail(err) && err@ == e) && after.lines =~= lines,
    }
}

fn fetch(code: &Vec<u8>, pc: u64, ahead: u64) -> (b: Option<u8>)
    requires
        pc < code@.len(),
        ahead <= 8,
    ensures
        b == byte_at(code@, pc + ahead),
{
    let n: u64 = code.len() as u64;
    if n - pc > ahead {
        Some(code[(pc + ahead) as usize])
    } else {
        None
    }
}

fn fetch_u64(code: &Vec<u8>, pc: u64) -> (c: Option<u64>)
    requires
        pc < code@.len(),
    ensures
        c == constant_at(code@, pc + 1),
{
    let n: u64 = code.len() as u64;
    if n - pc >= 9 {
        proof {
            lemma_le_value_bound(code@.subrange(pc + 1, pc + 9));
            lemma_pow256_8();
        }
        Some(read_le(code, (pc + 1) as usize, 8))
    } else {
        None
    }
}

fn pop_string(strings: &mut Vec<String>) -> (s: String)
    requires
        old(strings)@.len() > 0,
    ensures
        s@ == strings_view(old(strings)@).last(),
        final(strings)@.len() == old(strings)@.len() - 1,
        strings_view(final(strings)@) == strings_view(old(strings)@).drop_last(),
{
    let s = strings.pop().unwrap();
    assert(strings_view(strings@) =~= strings_view(old(strings)@).drop_last());
    s
}

fn push_string(strings: &mut Vec<String>, s: String)
    ensures
        strings_view(final(strings)@) == strings_view(old(strings)@).push(s@),
{
    strings.push(s);
    assert(strings_view(strings@) =~= strings_view(old(strings)@).push(s@));
}

fn push_line(lines: &mut Vec<Line>, line: Line)
    ensures
        lines_view(final(lines)@) == lines_view(old(lines)@).push(line@),
{
    lines.push(line);
    assert(lines_view(lines@) =~= lines_view(old(lines)@).push(line@));
}

fn pop(stack: &mut Vec<u64>) -> (x: u64)
    requires
        old(stack)@.len() > 0,
    ensures
        x == old(stack)@.last(),
        final(stack)@ == old(stack)@.drop_last(),
{
    stack.pop().unwrap()
}

fn pair_text(name: String, value: &str) -> (line: Line)
    ensures
        line@ == pair_line(name@, value@),
{
    let mut text = name;
    push_char(&mut text, ':');
    push_char(&mut text, ' ');
    text.append(value);
    assert(text@ =~= name@ + seq![':', ' '] + value@);
    Line::Text(text)
}

fn exec_endianness(vm: &mut Vm, code: &Vec<u8>) -> (flow: Flow)
    requires
        old(vm).pc < code@.len() <= usize::MAX,
    ensures
        agrees(flow, final(vm)@, op_endianness(code@, old(vm)@)),
{
    match fetch(code, vm.pc, 1) {
        None => Flow::Fail(StructError::CodeRanOut),
        Some(mode) => {
            if mode == 0 {
                vm.big_endian = false;
                vm.pc = vm.pc + 2;
                Flow::Next
            } else if mode == 1 {
                vm.big_endian = true;
                vm.pc = vm.pc + 2;
                Flow::Next
            } else {
                Flow::Fail(StructError::UnknownSubOpcode(0x01, mode))
            }
        },
    }
}

fn exec_push_constant(vm: &mut Vm, code: &Vec<u8>) -> (flow: Flow)
    requires
        old(vm).pc < code@.len() <= usize::MAX,
    ensures
        agrees(flow, final(vm)@, op_push_constant(code@, old(vm)@)),
{
    match fetch_u64(code, vm.pc) {
        None => Flow::Fail(StructError::CodeRanOut),
        Some(c) => {
            vm.stack.push(c);
            vm.pc = vm.pc + 9;
            Flow::Next
        },
    }
}

fn exec_push_string(vm: &mut Vm, code: &Vec<u8>) -> (flow: Flow)
    requires
        old(vm).pc < code@.len() <= usize::MAX,
    ensures
        agrees(flow, final(vm)@, op_push_string(code@, old(vm)@)),
{
    match fetch_u64(code, vm.pc) {
        None => Flow::Fail(StructError::CodeRanOut),
        Some(len) => match read_text(code, vm.pc + 9, Some(len), true) {
            Err(TextError::OutOfBounds) => Flow::Fail(StructError::CodeRanOut),
            Err(_) => Flow::Fail(StructError::InvalidConstant),
            Ok((text, used)) => {
                proof {
                    lemma_text_at_bounds(code@, vm.pc + 9, Some(len as nat), true);
                }
                push_string(&mut vm.strings, text);
                vm.pc = vm.pc + 9 + used as u64;
                Flow::Next
            },
        },
    }
}

fn exec_push_cursor(vm: &mut Vm, code: &Vec<u8>, loc: u64) -> (flow: Flow)
    requires
        old(vm).pc < code@.len() <= usize::MAX,
    ensures
        agrees(flow, final(vm)@, op_push_cursor(loc, old(vm)@)),
{
    vm.stack.push(loc);
    vm.pc = vm.pc + 1;
    Flow::Next
}

fn read_int(file: &File, offset: u64, width: usize, signed: bool, big_endian: bool) -> (r: Option<u64>)
    requires
        width == 1 || width == 2 || width == 4 || width == 8,
    ensures
        r == file_int(file@, offset, width as nat, signed, big_endian),
{
    let bytes = file.bytes();
    let n: u64 = bytes.len() as u64;
    if offset > n || n - offset < width as u64 {
        return None;
    }
    let at: usize = offset as usize;
    proof {
        lemma_pow256_8();
        let part = bytes@.subrange(at as int, at + width);
        lemma_le_value_bound(part);
        crate::bytes::lemma_be_value_bound(part);
    }
    let raw: u64 = if big_endian {
        read_be(bytes, at, width)
    } else {
        read_le(bytes, at, width)
    };
    if !signed {
        Some(raw)
    } else if width == 1 && raw >= 0x80 {
        Some(raw + 0xffff_ffff_ffff_ff00)
    } else if width == 2 && raw >= 0x8000 {
        Some(raw + 0xffff_ffff_ffff_0000)
    } else if width == 4 && raw >= 0x8000_0000 {
        Some(raw + 0xffff_ffff_0000_0000)
    } else {
        Some(raw)
    }
}

fn exec_load_int(vm: &mut Vm, code: &Vec<u8>, file: &File) -> (flow: Flow)
    requires
        old(vm).pc < code@.len() <= usize::MAX,
    ensures
        agrees(flow, final(vm)@, op_load_int(code@, file@, old(vm)@)),
{
    let sub = match fetch(code, vm.pc, 1) {
        None => {
            return Flow::Fail(StructError::CodeRanOut);
        },
        Some(sub) => sub,
    };
    if vm.stack.len() < 1 {
        return Flow::Fail(StructError::StackRanOut);
    }
    let offset = pop(&mut vm.stack);
    let (width, signed): (usize, bool) = if sub == 0 || sub == 1 {
        (8, false)
    } else if sub == 2 {
        (4, false)
    } else if sub == 3 {
        (4, true)
    } else if sub == 4 {
        (2, false)
    } else if sub == 5 {
        (2, true)
    } else if sub == 6 {
        (1, false)
    } else if sub == 7 {
        (1, true)
    } else {
        return Flow::Fail(StructError::UnknownSubOpcode(0x18, sub));
    };
    match read_int(file, offset, width, signed, vm.big_endian) {
        None => Flow::Fail(StructError::File(FileError::ShortRead)),
        Some(val) => {
            vm.stack.push(val);
            vm.pc = vm.pc + 2;
            Flow::Next
        },
    }
}

fn exec_load_string(vm: &mut Vm, code: &Vec<u8>, file: &File) -> (flow: Flow)
    requires
        old(vm).pc < code@.len() <= usize::MAX,
    ensures
        agrees(flow, final(vm)@, op_load_string(code@, file@, old(vm)@)),
{
    let sub = match fetch(code, vm.pc, 1) {
        None => {
            return Flow::Fail(StructError::CodeRanOut);
        },
        Some(sub) => sub,
    };
    if sub > 3 {
        return Flow::Fail(StructError::UnknownSubOpcode(0x1a, sub));
    }
    let sized = sub == 1 || sub == 3;
    if vm.stack.len() < (if sized { 2 } else { 1 }) {
        return Flow::Fail(StructError::StackRanOut);
    }
    let len: Option<u64> = if sized {
        Some(pop(&mut vm.stack))
    } else {
        None
    };
    let offset = pop(&mut vm.stack);
    assert(vm.stack@ =~= old(vm).stack@.take(old(vm).stack@.len() - (if sized { 2int } else { 1int })));
    match read_text(file.bytes(), offset, len, sub < 2) {
        Err(TextError::OutOfBounds) => Flow::Fail(StructError::File(FileError::ShortRead)),
        Err(TextError::NotAscii) => Flow::Fail(StructError::InvalidAscii),
        Err(TextError::Malformed) => Flow::Fail(StructError::InvalidUtf8),
        Ok((text, used)) => {
            push_string(&mut vm.strings, text);
            vm.pc = vm.pc + 2;
            Flow::Next
        },
    }
}

fn exec_scratch_load(vm: &mut Vm, code: &Vec<u8>) -> (flow: Flow)
    requires
        old(vm).pc < code@.len() <= usize::MAX,
    ensures
        agrees(flow, final(vm)@, op_scratch_load(old(vm)@)),
{
    if vm.stack.len() < 1 {
        return Flow::Fail(StructError::StackRanOut);
    }
    let index = pop(&mut vm.stack);
    let found: Option<u64> = match vm.scratch.get(&index) {
        Some(v) => Some(*v),
        None => None,
    };
    match found {
        None => Flow::Fail(StructError::ScratchUnset(index)),
        Some(v) => {
            vm.stack.push(v);
            vm.pc = vm.pc + 1;
            Flow::Next
        },
    }
}

fn exec_scratch_store(vm: &mut Vm, code: &Vec<u8>) -> (flow: Flow)
    requires
        old(vm).pc < code@.len() <= usize::MAX,
    ensures
        agrees(flow, final(vm)@, op_scratch_store(old(vm)@)),
{
    if vm.stack.len() < 2 {
        return Flow::Fail(StructError::StackRanOut);
    }
    let index = pop(&mut vm.stack);
    let value = pop(&mut vm.stack);
    vm.scratch.insert(index, value);
    vm.pc = vm.pc + 1;
    assert(vm.stack@ =~= old(vm).stack@.take(old(vm).stack@.len() - 2));
    Flow::Next
}

fn exec_output_int(vm: &mut Vm, code: &Vec<u8>, height: usize) -> (flow: Flow)
    requires
        old(vm).pc < code@.len() <= usize::MAX,
    ensures
        agrees(flow, final(vm)@, op_output_int(code@, height as nat, old(vm)@)),
{
    let sub = match fetch(code, vm.pc, 1) {
        None => {
            return Flow::Fail(StructError::CodeRanOut);
        },
        Some(sub) => sub,
    };
    let base = match fetch(code, vm.pc, 2) {
        None => {
            return Flow::Fail(StructError::CodeRanOut);
        },
        Some(base) => base,
    };
    if vm.strings.len() < 1 || vm.stack.len() < 2 {
        return Flow::Fail(StructError::StackRanOut);
    }
    if vm.row >= height {
        return Flow::Halt;
    }
    if sub > 1 {
        push_line(&mut vm.lines, Line::Blank);
        return Flow::Fail(StructError::UnknownSubOpcode(0x28, sub));
    }
    if base < 2 || base > 36 {
        push_line(&mut vm.lines, Line::Blank);
        return Flow::Fail(StructError::BadBase(base));
    }
    let name = pop_string(&mut vm.strings);
    let value = pop(&mut vm.stack);
    let _marker = pop(&mut vm.stack);
    let shown = format_number(value, sub == 1, base as u64);
    push_line(&mut vm.lines, pair_text(name, shown.as_str()));
    vm.row = vm.row + 1;
    vm.after_value = true;
    vm.pc = vm.pc + 3;
    assert(vm.stack@ =~= old(vm).stack@.take(old(vm).stack@.len() - 2));
    Flow::Next
}

fn exec_output_string(vm: &mut Vm, code: &Vec<u8>, height: usize) -> (flow: Flow)
    requires
        old(vm).pc < code@.len() <= usize::MAX,
    ensures
        agrees(flow, final(vm)@, op_output_string(code@, height as nat, old(vm)@)),
{
    let sub = match fetch(code, vm.pc, 1) {
        None => {
            return Flow::Fail(StructError::CodeRanOut);
        },
        Some(sub) => sub,
    };
    if vm.strings.len() < 2 || vm.stack.len() < 1 {
        return Flow::Fail(StructError::StackRanOut);
    }
    if vm.row >= height {
        return Flow::Halt;
    }
    if sub != 0 {
        push_line(&mut vm.lines, Line::Blank);
        return Flow::Fail(StructError::UnknownSubOpcode(0x2a, sub));
    }
    let name = pop_string(&mut vm.strings);
    let value = pop_string(&mut vm.strings);
    let _marker = pop(&mut vm.stack);
    push_line(&mut vm.lines, pair_text(name, value.as_str()));
    vm.row = vm.row + 1;
    vm.after_value = true;
    vm.pc = vm.pc + 2;
    assert(strings_view(vm.strings@) =~= strings_view(old(vm).strings@).take(
        old(vm).strings@.len() - 2,
    ));
    Flow::Next
}

fn exec_output_header(vm: &mut Vm, code: &Vec<u8>, height: usize) -> (flow: Flow)
    requires
        old(vm).pc < code@.len() <= usize::MAX,
    ensures
        agrees(flow, final(vm)@, op_output_header(code@, height as nat, old(vm)@)),
{
    let level = match fetch(code, vm.pc, 1) {
        None => {
            return Flow::Fail(StructError::CodeRanOut);
        },
        Some(level) => level,
    };
    if vm.strings.len() < 1 {
        return Flow::Fail(StructError::StackRanOut);
    }
    if vm.after_value {
        if vm.row >= height {
            return Flow::Halt;
        }
        push_line(&mut vm.lines, Line::Blank);
        vm.row = vm.row + 1;
    }
    if vm.row > height || height - vm.row < 2 {
        return Flow::Halt;
    }
    let title = pop_string(&mut vm.strings);
    push_line(&mut vm.lines, Line::Header(color_of_level(level), title));
    push_line(&mut vm.lines, Line::Blank);
    vm.row = vm.row + 2;
    vm.after_value = false;
    vm.stack.push(1);
    vm.pc = vm.pc + 2;
    Flow::Next
}

fn exec_stack(vm: &mut Vm, code: &Vec<u8>, opcode: u8) -> (flow: Flow)
    requires
        old(vm).pc < code@.len() <= usize::MAX,
        0x80 <= opcode <= 0x85,
    ensures
        agrees(flow, final(vm)@, op_stack(opcode, old(vm)@)),
{
    let two = opcode == 0x80 || opcode == 0x84 || opcode == 0x85;
    if vm.stack.len() < (if two { 2 } else { 1 }) {
        return Flow::Fail(StructError::StackRanOut);
    }
    let x = pop(&mut vm.stack);
    if opcode == 0x80 {
        let y = pop(&mut vm.stack);
        vm.stack.push(x);
        vm.stack.push(y);
    } else if opcode == 0x81 {
        vm.stack.push(x);
        vm.stack.push(x);
    } else if opcode == 0x82 {
    } else if opcode == 0x83 {
        vm.stack.push(0u64.wrapping_sub(x));
    } else if opcode == 0x84 {
        let y = pop(&mut vm.stack);
        vm.stack.push(x.wrapping_add(y));
    } else {
        let y = pop(&mut vm.stack);
        vm.stack.push(x & y);
    }
    vm.pc = vm.pc + 1;
    Flow::Next
}

fn exec_jump(vm: &mut Vm, code: &Vec<u8>, opcode: u8) -> (flow: Flow)
    requires
        old(vm).pc < code@.len() <= usize::MAX,
        0xe0 <= opcode <= 0xe3,
    ensures
        agrees(flow, final(vm)@, op_jump(code@, opcode, old(vm)@)),
{
    let c = match fetch_u64(code, vm.pc) {
        None => {
            return Flow::Fail(StructError::CodeRanOut);
        },
        Some(c) => c,
    };
    let target = vm.pc.wrapping_add(c);
    if opcode == 0xe0 {
        vm.pc = target;
        return Flow::Next;
    }
    if vm.stack.len() < 1 {
        return Flow::Fail(StructError::StackRanOut);
    }
    let x = pop(&mut vm.stack);
    let taken = if opcode == 0xe1 {
        x == 0
    } else if opcode == 0xe2 {
        x != 0
    } else {
        x < 0x8000_0000_0000_0000
    };
    if taken {
        vm.pc = target;
    } else {
        vm.pc = vm.pc + 9;
    }
    Flow::Next
}

fn exec_panic(vm: &mut Vm) -> (flow: Flow)
    ensures
        (flow matches Flow::Fail(e) && e@ == crate::machine::ErrorView::Panic(old(vm)@.stack.reverse())),
        final(vm)@.lines == old(vm)@.lines,
{
    let mut dump: Vec<u64> = Vec::new();
    let ghost whole = vm.stack@;
    while vm.stack.len() > 0
        invariant
            vm.stack@.len() <= whole.len(),
            vm.stack@ == whole.take(vm.stack@.len() as int),
            dump@ == whole.skip(vm.stack@.len() as int).reverse(),
            vm.lines == old(vm).lines,
        decreases vm.stack@.len(),
    {
        let x = pop(&mut vm.stack);
        dump.push(x);
        assert(vm.stack@ =~= whole.take(vm.stack@.len() as int));
        assert(dump@ =~= whole.skip(vm.stack@.len() as int).reverse());
    }
    assert(whole.skip(0) =~= whole);
    Flow::Fail(StructError::Panic(dump))
}

/// Carries out the instruction at the program counter.
pub(crate) fn exec_step(vm: &mut Vm, code: &Vec<u8>, file: &File, loc: u64, height: usize) -> (flow: Flow)
    ensures
        agrees(flow, final(vm)@, step(code@, file@, loc, height as nat, old(vm)@)),
{
    if vm.pc >= code.len() as u64 {
        return Flow::Halt;
    }
    let opcode = code[vm.pc as usize];
    if opcode == 0x00 {
        Flow::Halt
    } else if opcode == 0x01 {
        exec_endianness(vm, code)
    } else if opcode == 0x10 {
        exec_push_constant(vm, code)
    } else if opcode == 0x12 {
        exec_push_string(vm, code)
    } else if opcode == 0x14 {
        exec_push_cursor(vm, code, loc)
    } else if opcode == 0x18 {
        exec_load_int(vm, code, file)
    } else if opcode == 0x1a {
        exec_load_string(vm, code, file)
    } else if opcode == 0x1c {
        exec_scratch_load(vm, code)
    } else if opcode == 0x28 {
        exec_output_int(vm, code, height)
    } else if opcode == 0x2a {
        exec_output_string(vm, code, height)
    } else if opcode == 0x2b {
        exec_output_header(vm, code, height)
    } else if opcode == 0x2c {
        exec_scratch_store(vm, code)
    } else if 0x80 <= opcode && opcode <= 0x85 {
        exec_stack(vm, code, opcode)
    } else if 0xe0 <= opcode && opcode <= 0xe3 {
        exec_jump(vm, code, opcode)
    } else if opcode == 0xff {
        exec_panic(vm)
    } else {
        Flow::Fail(StructError::UnknownOpcode(opcode))
    }
}

/// Runs a program from its first instruction for at most `max_steps`
/// instructions.
pub(crate) fn exec_run(code: &Vec<u8>, file: &File, loc: u64, height: usize, start_y: usize, max_steps: u64) -> (r:
    Rendering)
    ensures
        r@ == run(code@, file@, loc, height as nat, initial(start_y as nat), max_steps as nat),
{
    let mut vm = Vm {
        pc: 0,
        big_endian: false,
        stack: Vec::new(),
        strings: Vec::new(),
        scratch: HashMap::new(),
        row: start_y,
        after_value: false,
        lines: Vec::new(),
    };
    assert(vm@ =~= initial(start_y as nat));
    let mut fuel: u64 = max_steps;
    loop
        invariant
            run(code@, file@, loc, height as nat, initial(start_y as nat), max_steps as nat) == run(
                code@,
                file@,
                loc,
                height as nat,
                vm@,
                fuel as nat,
            ),
        decreases fuel,
    {
        if fuel == 0 {
            return Rendering { lines: vm.lines, error: Some(StructError::StepLimit) };
        }
        match exec_step(&mut vm, code, file, loc, height) {
            Flow::Next => {
                fuel = fuel - 1;
            },
            Flow::Halt => {
                return Rendering { lines: vm.lines, error: None };
            },
            Flow::Fail(e) => {
                return Rendering { lines: vm.lines, error: Some(e) };
            },
        }
    }
}

} // verus!
