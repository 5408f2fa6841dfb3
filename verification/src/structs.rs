//! Structure programs: named bytecode that annotates the file around the
//! cursor, and the interpreter that runs it.

use vstd::prelude::*;
use vstd::string::StringExecFns;
use crate::bytes::{lemma_le_value_bound, lemma_pow256_8, read_le};
use crate::decode::{counted, read_text, text_at, TextError};
use crate::display::Color;
use crate::file::{File, FileError};
use crate::machine::{
    constant_at, constant_error, file_text_error, initial, run, ErrorView, LineView, Report,
};
use crate::text::{format_number, formatted_int, numeral, push_char, push_numeral};
use crate::vm::exec_run;

verus! {

/// One row of annotation output.
#[derive(Debug, PartialEq, Eq)]
pub enum Line {
    /// An empty row.
    Blank,
    /// A row of plain text.
    Text(String),
    /// A section title in the role of its level.
    Header(Color, String),
}

impl View for Line {
    type V = LineView;

    open spec fn view(&self) -> LineView {
        match self {
            Line::Blank => LineView::Blank,
            Line::Text(text) => LineView::Text(text@),
            Line::Header(color, title) => LineView::Header(*color, title@),
        }
    }
}

/// Why a program was abandoned.
#[derive(Debug, PartialEq, Eq)]
pub enum StructError {
    /// The byte is no instruction.
    UnknownOpcode(u8),
    /// The second byte is no variant of the instruction that the first names.
    UnknownSubOpcode(u8, u8),
    /// An instruction needed more operands than a stack held.
    StackRanOut,
    /// The program ends inside an instruction.
    CodeRanOut,
    /// An integer was to be shown in a base that is not among 2 to 36.
    BadBase(u8),
    /// Scratch memory was read at an index that was never written.
    ScratchUnset(u64),
    /// A string constant of the program is not well-formed.
    InvalidConstant,
    /// A string in the file is not well-formed UTF-8.
    InvalidUtf8,
    /// A string in the file that was to be ASCII holds a byte outside it.
    InvalidAscii,
    /// The file could not be read where the program pointed.
    File(FileError),
    /// The program gave up; the operand stack is attached, top first.
    Panic(Vec<u64>),
    /// The program ran for more steps than it was given.
    StepLimit,
}

impl View for StructError {
    type V = ErrorView;

    open spec fn view(&self) -> ErrorView {
        match self {
            StructError::UnknownOpcode(op) => ErrorView::UnknownOpcode(*op),
            StructError::UnknownSubOpcode(op, sub) => ErrorView::UnknownSubOpcode(*op, *sub),
            StructError::StackRanOut => ErrorView::StackRanOut,
            StructError::CodeRanOut => ErrorView::CodeRanOut,
            StructError::BadBase(base) => ErrorView::BadBase(*base),
            StructError::ScratchUnset(index) => ErrorView::ScratchUnset(*index),
            StructError::InvalidConstant => ErrorView::InvalidConstant,
            StructError::InvalidUtf8 => ErrorView::InvalidUtf8,
            StructError::InvalidAscii => ErrorView::InvalidAscii,
            StructError::File(e) => ErrorView::File(*e),
            StructError::Panic(stack) => ErrorView::Panic(stack@),
            StructError::StepLimit => ErrorView::StepLimit,
        }
    }
}

/// The operand stack as a diagnostic shows it: each number in hexadecimal
/// behind a space.
pub open spec fn dump_text(stack: Seq<u64>) -> Seq<char>
    decreases stack.len(),
{
    if stack.len() == 0 {
        Seq::empty()
    } else {
        dump_text(stack.drop_last()) + seq![' ', '0', 'x'] + numeral(stack.last() as nat, 16)
    }
}

/// An error in words.
pub open spec fn error_text(e: ErrorView) -> Seq<char> {
    match e {
        ErrorView::UnknownOpcode(op) => "Unknown opcode "@ + numeral(op as nat, 16),
        ErrorView::UnknownSubOpcode(op, sub) => "Unknown opcode "@ + numeral(op as nat, 16) + seq![' ']
            + numeral(sub as nat, 16),
        ErrorView::StackRanOut => "Stack ran out"@,
        ErrorView::CodeRanOut => "Program ran out"@,
        ErrorView::BadBase(base) => "Base must be from 2 to 36, but is "@ + numeral(base as nat, 10),
        ErrorView::ScratchUnset(index) => "Nothing stored at 0x"@ + numeral(index as nat, 16),
        ErrorView::InvalidConstant => "Invalid utf-8 string constant"@,
        ErrorView::InvalidUtf8 => "Invalid utf-8 string"@,
        ErrorView::InvalidAscii => "Invalid ASCII string"@,
        ErrorView::File(e) => e.text(),
        ErrorView::Panic(stack) => "Stack:"@ + dump_text(stack),
        ErrorView::StepLimit => "Step limit reached"@,
    }
}

impl StructError {
    /// The error in words, as a status line shows it.
    pub fn message(&self) -> (text: String)
        ensures
            text@ == error_text(self@),
    {
        match self {
            StructError::UnknownOpcode(op) => {
                let mut text = String::from_str("Unknown opcode ");
                push_numeral(&mut text, *op as u64, 16);
                text
            },
            StructError::UnknownSubOpcode(op, sub) => {
                let mut text = String::from_str("Unknown opcode ");
                push_numeral(&mut text, *op as u64, 16);
                push_char(&mut text, ' ');
                push_numeral(&mut text, *sub as u64, 16);
                text
            },
            StructError::StackRanOut => String::from_str("Stack ran out"),
            StructError::CodeRanOut => String::from_str("Program ran out"),
            StructError::BadBase(base) => {
                let mut text = String::from_str("Base must be from 2 to 36, but is ");
                push_numeral(&mut text, *base as u64, 10);
                text
            },
            StructError::ScratchUnset(index) => {
                let mut text = String::from_str("Nothing stored at 0x");
                push_numeral(&mut text, *index, 16);
                text
            },
            StructError::InvalidConstant => String::from_str("Invalid utf-8 string constant"),
            StructError::InvalidUtf8 => String::from_str("Invalid utf-8 string"),
            StructError::InvalidAscii => String::from_str("Invalid ASCII string"),
            StructError::File(e) => e.message(),
            StructError::Panic(stack) => {
                let mut text = String::from_str("Stack:");
                let mut i: usize = 0;
                assert(stack@.take(0) =~= Seq::<u64>::empty());
                while i < stack.len()
                    invariant
                        i <= stack@.len(),
                        text@ == "Stack:"@ + dump_text(stack@.take(i as int)),
                    decreases stack@.len() - i,
                {
                    let ghost before = text@;
                    push_char(&mut text, ' ');
                    push_char(&mut text, '0');
                    push_char(&mut text, 'x');
                    push_numeral(&mut text, stack[i], 16);
                    i += 1;
                    proof {
                        let now = stack@.take(i as int);
                        assert(now.drop_last() =~= stack@.take(i - 1));
                        assert(now.last() == stack@[i - 1]);
                        assert(text@ =~= "Stack:"@ + dump_text(now));
                    }
                }
                assert(stack@.take(stack@.len() as int) =~= stack@);
                text
            },
            StructError::StepLimit => String::from_str("Step limit reached"),
        }
    }
}

/// The lines of a sequence, each by its view.
pub open spec fn lines_view(lines: Seq<Line>) -> Seq<LineView> {
    lines.map_values(|line: Line| line@)
}

/// The strings of a sequence, each by its view.
pub open spec fn strings_view(strings: Seq<String>) -> Seq<Seq<char>> {
    strings.map_values(|s: String| s@)
}

/// What a run of a program gave: the lines that it wrote, top row first,
/// and the error that ended it, if one did.
#[derive(Debug, PartialEq, Eq)]
pub struct Rendering {
    pub lines: Vec<Line>,
    pub error: Option<StructError>,
}

impl View for Rendering {
    type V = Report;

    open spec fn view(&self) -> Report {
        Report {
            lines: lines_view(self.lines@),
            error: match self.error {
                Some(e) => Some(e@),
                None => None,
            },
        }
    }
}

/// The bytecode of a structure program.
pub struct StructCode {
    buffer: Vec<u8>,
}

impl View for StructCode {
    type V = Seq<u8>;

    closed spec fn view(&self) -> Seq<u8> {
        self.buffer@
    }
}

impl StructCode {
    /// Wraps the bytes of a program.
    pub fn new(buffer: Vec<u8>) -> (code: StructCode)
        ensures
            code@ == buffer@,
    {
        StructCode { buffer }
    }

    /// The bytes of the program.
    pub fn bytes(&self) -> (buffer: &Vec<u8>)
        ensures
            buffer@ == self@,
    {
        &self.buffer
    }
}

/// A structure program under its name.
pub struct Struct {
    name: String,
    code: StructCode,
}

/// A structure program as a mathematical value.
pub struct StructView {
    pub name: Seq<char>,
    pub code: Seq<u8>,
}

impl View for Struct {
    type V = StructView;

    closed spec fn view(&self) -> StructView {
        StructView { name: self.name@, code: self.code@ }
    }
}

/// The structure programs that the editor knows, in the order in which
/// they were given.
pub struct Structs {
    list: Vec<Struct>,
}

impl View for Structs {
    type V = Seq<StructView>;

    closed spec fn view(&self) -> Seq<StructView> {
        self.list@.map_values(|s: Struct| s@)
    }
}

impl Structs {
    /// Takes over a list of programs.
    pub fn load(list: Vec<Struct>) -> (structs: Structs)
        ensures
            structs@ == list@.map_values(|s: Struct| s@),
    {
        Structs { list }
    }

    /// How many programs there are.
    pub fn len(&self) -> (n: usize)
        ensures
            n == self@.len(),
    {
        self.list.len()
    }

    /// The program at index `i`.
    pub fn get(&self, i: usize) -> (s: &Struct)
        requires
            i < self@.len(),
        ensures
            s@ == self@[i as int],
    {
        &self.list[i]
    }

    /// The program at index `i`, to be changed in place.
    pub fn get_mut(&mut self, i: usize) -> (s: &mut Struct)
        requires
            i < old(self)@.len(),
        ensures
            s@ == old(self)@[i as int],
            final(self)@ == old(self)@.update(i as int, final(s)@),
    {
        let ghost before = self.list@;
        let s = &mut self.list[i];
        proof {
            assert(before.update(i as int, *final(s)).map_values(|x: Struct| x@) =~= before.map_values(
                |x: Struct| x@,
            ).update(i as int, final(s)@));
        }
        s
    }

    /// The index of the first program with the given name.
    pub fn find(&self, name: &str) -> (found: Option<usize>)
        ensures
            match found {
                Some(i) => i < self@.len() && self@[i as int].name == name@ && forall|j: int|
                    0 <= j < i ==> self@[j].name != name@,
                None => forall|j: int| 0 <= j < self@.len() ==> self@[j].name != name@,
            },
    {
        let wanted = String::from_str(name);
        let mut i: usize = 0;
        while i < self.list.len()
            invariant
                i <= self.list@.len(),
                wanted@ == name@,
                forall|j: int| 0 <= j < i ==> self@[j].name != name@,
            decreases self.list@.len() - i,
        {
            if self.list[i].name == wanted {
                return Some(i);
            }
            i += 1;
        }
        None
    }
}

impl Struct {
    /// A program under a name.
    pub fn new(name: String, code: StructCode) -> (s: Struct)
        ensures
            s@ == (StructView { name: name@, code: code@ }),
    {
        Struct { name, code }
    }

    /// The program's name.
    pub fn get_name(&self) -> (name: &str)
        ensures
            name@ == self@.name,
    {
        self.name.as_str()
    }

    /// The program's bytecode.
    pub fn code(&self) -> (code: &StructCode)
        ensures
            code@ == self@.code,
    {
        &self.code
    }

    /// Runs the program on the file with the cursor at `loc`. Output starts
    /// at row `start_y` and ends before row `height`. The program is given
    /// as many steps as a 64-bit counter holds.
    pub fn update(&self, file: &File, loc: u64, height: usize, start_y: usize) -> (r: Rendering)
        ensures
            r@ == run(self@.code, file@, loc, height as nat, initial(start_y as nat), u64::MAX as nat),
    {
        exec_run(&self.code.buffer, file, loc, height, start_y, u64::MAX)
    }

    /// Runs the program as `update` does, for at most `max_steps`
    /// instructions.
    pub fn run(&self, file: &File, loc: u64, height: usize, start_y: usize, max_steps: u64) -> (r:
        Rendering)
        ensures
            r@ == run(self@.code, file@, loc, height as nat, initial(start_y as nat), max_steps as nat),
    {
        exec_run(&self.code.buffer, file, loc, height, start_y, max_steps)
    }

    /// Turns a failed condition into the given error.
    pub fn check(&self, res: bool, err: StructError) -> (r: Result<(), StructError>)
        ensures
            res ==> r is Ok,
            !res ==> r == Err::<(), StructError>(err),
    {
        if res {
            Ok(())
        } else {
            Err(err)
        }
    }

    /// Takes the top off a stack.
    pub fn stack_pop<T>(&self, stack: &mut Vec<T>) -> (r: Result<T, StructError>)
        ensures
            old(stack)@.len() > 0 ==> r == Ok::<T, StructError>(old(stack)@.last()) && final(stack)@ == old(
                stack,
            )@.drop_last(),
            old(stack)@.len() == 0 ==> (r matches Err(StructError::StackRanOut)) && final(stack)@ == old(stack)@,
    {
        match stack.pop() {
            Some(x) => Ok(x),
            None => Err(StructError::StackRanOut),
        }
    }

    /// Shows an integer: `0` for zero; otherwise a minus sign where the
    /// value is signed and negative, the marker of the base, and the
    /// digits of the magnitude.
    pub fn format_int(&self, val: u64, signed: bool, base: usize) -> (text: String)
        requires
            2 <= base <= 36,
        ensures
            text@ == formatted_int(val, signed, base as nat),
    {
        format_number(val, signed, base as u64)
    }

    /// The 64-bit constant whose eight bytes start at `pc`, least
    /// significant first.
    pub fn load_constant_u64(&self, pc: usize) -> (val: u64)
        requires
            pc + 8 <= self@.code.len(),
        ensures
            constant_at(self@.code, pc as int) == Some(val),
    {
        proof {
            lemma_le_value_bound(self@.code.subrange(pc as int, pc + 8));
            lemma_pow256_8();
        }
        read_le(&self.code.buffer, pc, 8)
    }

    /// The string constant that starts at `pc`: `len` characters in UTF-8,
    /// or up to a zero character. Gives the string and the number of bytes
    /// that it takes up in the program.
    pub fn load_constant_utf8_string(&self, pc: usize, len: Option<u64>) -> (r: Result<
        (String, usize),
        StructError,
    >)
        ensures
            match r {
                Ok((text, used)) => text_at(self@.code, pc as int, counted(len), true) == Ok::<
                    (Seq<char>, int),
                    TextError,
                >((text@, pc + used)),
                Err(e) => (text_at(self@.code, pc as int, counted(len), true) matches Err(cause)
                    && e@ == constant_error(cause)),
            },
    {
        match read_text(&self.code.buffer, pc as u64, len, true) {
            Ok(found) => Ok(found),
            Err(TextError::OutOfBounds) => Err(StructError::CodeRanOut),
            Err(_) => Err(StructError::InvalidConstant),
        }
    }

    /// The string that the file holds at `offset`: `len` characters, or up
    /// to a zero character; in UTF-8, or in ASCII where `utf8` is unset.
    /// Gives the string and the number of bytes that it takes up.
    pub fn load_file_utf8_string(&self, file: &File, offset: u64, len: Option<u64>, utf8: bool) -> (r:
        Result<(String, usize), StructError>)
        ensures
            match r {
                Ok((text, used)) => text_at(file@, offset as int, counted(len), utf8) == Ok::<
                    (Seq<char>, int),
                    TextError,
                >((text@, offset + used)),
                Err(e) => (text_at(file@, offset as int, counted(len), utf8) matches Err(cause) && e@
                    == file_text_error(cause)),
            },
    {
        match read_text(file.bytes(), offset, len, utf8) {
            Ok(found) => Ok(found),
            Err(TextError::OutOfBounds) => Err(StructError::File(FileError::ShortRead)),
            Err(TextError::NotAscii) => Err(StructError::InvalidAscii),
            Err(TextError::Malformed) => Err(StructError::InvalidUtf8),
        }
    }
}

} // verus!
