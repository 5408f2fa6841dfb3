//! The editing session in memory: the file, the edit log, the window and
//! the cursor, and the handling of input. Each function changes the
//! session as the session's description says and tells the caller what to
//! draw and what to store.

use std::collections::VecDeque;
use vstd::prelude::*;
use vstd::string::StringExecFns;
use crate::command::{parse_command, Command, CommandError};
use crate::display::Color;
use crate::file::{File, FileError};
use crate::mouse::{patterns_compile, Mouse, MouseEvent, MouseFault};
use crate::session::{
    annotated, at, command_run, command_typed, digit_typed, draw, escaped, fault_text,
    input_handled, jumped_back, key_of, key_typed, keyed, lof, more, moved, moved_redraw, noted,
    pointed, redo_asked, reloaded, replayed, resized, started, store_failed, store_failure_text, store_steps,
    StoreStep, settled_event, starts_with, struct_asked,
    cursor_cell, loc_text, mode_color, mode_name, row_cells, row_drawn, rows_drawn, rows_shown, rule, shown, status_pieces,
    undo_asked, valid, went, window_end, FaultView, Key, Mode, Motion, Outcome, Persist, Redraw, Session,
};
use crate::row::{align_left, pieces_view, push_spaces, row, Piece, PieceView};
use crate::structs::{Line, Structs};
use crate::text::{chars_of, digit_of, pop_char, push_char, push_numeral};
use crate::undo_file::UndoFile;
use crate::viewport::{byte_to_x, Viewport, MAX_LEN};

verus! {

/// Why an event could not be followed.
#[derive(Debug, PartialEq, Eq)]
pub enum Fault {
    /// Undo was asked for while the editor only lets look.
    ReadOnlyUndo,
    /// Redo was asked for while the editor only lets look.
    ReadOnlyRedo,
    /// No change is left to undo.
    NothingToUndo,
    /// No change is left to redo.
    NothingToRedo,
    /// There is no place to jump back to.
    JumpStackEmpty,
    /// No structure has this name.
    UnknownStruct(String),
    /// The command line asks for nothing that can be done.
    Command(CommandError),
    /// A pointer report has a field that is no number.
    Mouse(String, MouseFault),
    /// The byte could not be written.
    Write(FileError),
}

impl View for Fault {
    type V = FaultView;

    open spec fn view(&self) -> FaultView {
        match self {
            Fault::ReadOnlyUndo => FaultView::ReadOnlyUndo,
            Fault::ReadOnlyRedo => FaultView::ReadOnlyRedo,
            Fault::NothingToUndo => FaultView::NothingToUndo,
            Fault::NothingToRedo => FaultView::NothingToRedo,
            Fault::JumpStackEmpty => FaultView::JumpStackEmpty,
            Fault::UnknownStruct(name) => FaultView::UnknownStruct(name@),
            Fault::Command(e) => FaultView::Command(e@),
            Fault::Mouse(seq, fault) => FaultView::Mouse(seq@, *fault),
            Fault::Write(e) => FaultView::Write(*e),
        }
    }
}

impl Fault {
    /// The fault in words.
    pub fn message(&self) -> (text: String)
        ensures
            text@ == fault_text(self@),
    {
        match self {
            Fault::ReadOnlyUndo => String::from_str("Cannot undo in read-only mode"),
            Fault::ReadOnlyRedo => String::from_str("Cannot redo in read-only mode"),
            Fault::NothingToUndo => String::from_str("Nothing to undo"),
            Fault::NothingToRedo => String::from_str("Nothing to redo"),
            Fault::JumpStackEmpty => String::from_str("Jump stack empty"),
            Fault::UnknownStruct(name) => {
                let mut text = String::from_str("Unknown struct \u{201c}");
                text.append(name.as_str());
                text.append("\u{201d}");
                text
            },
            Fault::Command(e) => e.message(),
            Fault::Mouse(seq, fault) => {
                let mut text = String::from_str("Mouse input: ");
                text.append(seq.as_str());
                text.append(": field ");
                push_numeral(&mut text, fault.field as u64, 10);
                text.append(": ");
                let why = fault.cause.message();
                text.append(why.as_str());
                text
            },
            Fault::Write(e) => {
                let mut text = String::from_str("Write error: ");
                let why = e.message();
                text.append(why.as_str());
                text
            },
        }
    }
}

/// Why a session could not be set up.
#[derive(Clone, Copy, Debug, PartialEq, Eq, Structural)]
pub enum SetupError {
    /// The file is longer than `MAX_LEN`.
    FileTooLarge,
    /// A pattern for pointer reports was refused.
    PatternRefused,
}

/// The notice on the status line as a mathematical value.
pub open spec fn status_view(status: Option<(String, Color)>) -> Option<(Seq<char>, Color)> {
    match status {
        Some((text, color)) => Some((text@, color)),
        None => None,
    }
}

/// The command line as a mathematical value.
pub open spec fn line_view(line: Option<String>) -> Option<Seq<char>> {
    match line {
        Some(text) => Some(text@),
        None => None,
    }
}

/// The editing session.
pub struct Buffer {
    file: File,
    undo_file: UndoFile,
    structs: Structs,
    active_struct: Option<usize>,
    view: Viewport,
    height: u32,
    mode: Mode,
    replacing_nibble: u8,
    replacing_old: u8,
    replacing_new: u8,
    quit_request: bool,
    command_line: Option<String>,
    status_info: Option<(String, Color)>,
    jump_stack: Vec<u64>,
    unread: VecDeque<char>,
    mouse: Mouse,
}

impl View for Buffer {
    type V = Session;

    closed spec fn view(&self) -> Session {
        Session {
            file: self.file@,
            log: self.undo_file@,
            structs: self.structs@,
            active_struct: self.active_struct,
            view: self.view,
            height: self.height,
            mode: self.mode,
            replacing_nibble: self.replacing_nibble,
            replacing_old: self.replacing_old,
            replacing_new: self.replacing_new,
            quit_request: self.quit_request,
            command_line: line_view(self.command_line),
            status_info: status_view(self.status_info),
            jump_stack: self.jump_stack@,
            unread: self.unread@,
        }
    }
}

fn starts2(chars: &Vec<char>, a: char, b: char) -> (r: bool)
    ensures
        r == starts_with(chars@, seq![a, b]),
{
    let r = chars.len() >= 2 && chars[0] == a && chars[1] == b;
    proof {
        if r {
            assert(chars@.take(2) =~= seq![a, b]);
        } else if chars@.len() >= 2 {
            assert(chars@.take(2)[0] == chars@[0]);
            assert(chars@.take(2)[1] == chars@[1]);
        }
    }
    r
}

fn starts3(chars: &Vec<char>, a: char, b: char, c: char) -> (r: bool)
    ensures
        r == starts_with(chars@, seq![a, b, c]),
{
    let r = chars.len() >= 3 && chars[0] == a && chars[1] == b && chars[2] == c;
    proof {
        if r {
            assert(chars@.take(3) =~= seq![a, b, c]);
        } else if chars@.len() >= 3 {
            assert(chars@.take(3)[0] == chars@[0]);
            assert(chars@.take(3)[1] == chars@[1]);
            assert(chars@.take(3)[2] == chars@[2]);
        }
    }
    r
}

fn starts5(chars: &Vec<char>, a: char, b: char, c: char, d: char, e: char) -> (r: bool)
    ensures
        r == starts_with(chars@, seq![a, b, c, d, e]),
{
    let r = chars.len() >= 5 && chars[0] == a && chars[1] == b && chars[2] == c && chars[3] == d
        && chars[4] == e;
    proof {
        if r {
            assert(chars@.take(5) =~= seq![a, b, c, d, e]);
        } else if chars@.len() >= 5 {
            assert(chars@.take(5)[0] == chars@[0]);
            assert(chars@.take(5)[1] == chars@[1]);
            assert(chars@.take(5)[2] == chars@[2]);
            assert(chars@.take(5)[3] == chars@[3]);
            assert(chars@.take(5)[4] == chars@[4]);
        }
    }
    r
}

/// Says which key an escape sequence starts with.
pub fn read_key(chars: &Vec<char>) -> (r: Option<(Key, usize)>)
    ensures
        match r {
            Some((key, used)) => key_of(chars@) == Some((key, used as int)) && used <= chars@.len(),
            None => key_of(chars@) is None,
        },
{
    if starts2(chars, '[', 'A') {
        Some((Key::Move(Motion::Up), 2))
    } else if starts2(chars, '[', 'B') {
        Some((Key::Move(Motion::Down), 2))
    } else if starts2(chars, '[', 'C') {
        Some((Key::Move(Motion::Right), 2))
    } else if starts2(chars, '[', 'D') {
        Some((Key::Move(Motion::Left), 2))
    } else if starts2(chars, '[', 'F') {
        Some((Key::Move(Motion::End), 2))
    } else if starts2(chars, '[', 'H') {
        Some((Key::Move(Motion::Home), 2))
    } else if starts3(chars, '[', '5', '~') {
        Some((Key::Move(Motion::PageUp), 3))
    } else if starts3(chars, '[', '6', '~') {
        Some((Key::Move(Motion::PageDown), 3))
    } else if starts5(chars, '[', '1', ';', '5', 'F') {
        Some((Key::GotoEnd, 5))
    } else if starts5(chars, '[', '1', ';', '5', 'H') {
        Some((Key::GotoStart, 5))
    } else if chars.len() == 0 {
        Some((Key::Escape, 0))
    } else {
        None
    }
}

/// The executable form of `more`.
pub fn more_of(a: Redraw, b: Redraw) -> (r: Redraw)
    ensures
        r == more(a, b),
{
    if a == Redraw::Full || b == Redraw::Full {
        Redraw::Full
    } else if a == Redraw::Status || b == Redraw::Status {
        Redraw::Status
    } else if a == Redraw::Cursor || b == Redraw::Cursor {
        Redraw::Cursor
    } else {
        Redraw::Nothing
    }
}

/// The steps that store what an event changed, in their order.
pub fn steps_of(persist: Persist) -> (steps: Vec<StoreStep>)
    ensures
        steps@ == store_steps(persist),
{
    let mut steps: Vec<StoreStep> = Vec::new();
    match persist {
        Persist::Nothing => {},
        Persist::Change { .. } => {
            steps.push(StoreStep::Record);
            steps.push(StoreStep::Byte);
            steps.push(StoreStep::Header);
        },
        Persist::Replay { .. } => {
            steps.push(StoreStep::Byte);
            steps.push(StoreStep::Header);
        },
    }
    assert(steps@ =~= store_steps(persist));
    steps
}

/// What is said when a step of storing fails.
pub fn failure_text(step: StoreStep, cause: &str) -> (text: String)
    ensures
        text@ == store_failure_text(step, cause@),
{
    match step {
        StoreStep::Record => {
            let mut text = String::from_str("Undo log error: ");
            text.append(cause);
            text.append(" (redo may be garbage)");
            text
        },
        StoreStep::Byte => {
            let mut text = String::from_str("Write error: ");
            text.append(cause);
            text
        },
        StoreStep::Header => {
            let mut text = String::from_str("Undo log error: ");
            text.append(cause);
            text.append(" \u{2013} the log is inconsistent now, proceed with care!");
            text
        },
    }
}

fn only(redraw: Redraw) -> (outcome: Outcome)
    ensures
        outcome == draw(redraw),
{
    Outcome { redraw, persist: Persist::Nothing }
}

fn redraw_of(before: Viewport, after: Viewport, motion: Motion) -> (r: Redraw)
    ensures
        r == moved_redraw(before, after, motion),
{
    match motion {
        Motion::PageUp | Motion::PageDown | Motion::ScrollUp => Redraw::Full,
        Motion::ScrollDown => if after == before {
            Redraw::Nothing
        } else {
            Redraw::Full
        },
        _ => if after.base_offset != before.base_offset {
            Redraw::Full
        } else {
            Redraw::Status
        },
    }
}

impl Buffer {
    /// Whether the session is valid. Every function asks for it and keeps
    /// it.
    pub closed spec fn wf(&self) -> bool {
        valid(self@) && self.undo_file.wf() && self.mouse.wf()
    }

    /// What `wf` says of the session's description.
    pub proof fn lemma_wf(&self)
        requires
            self.wf(),
        ensures
            valid(self@),
    {
    }

    /// A session on a file, with the cursor on the first byte and the
    /// editor in the mode that only lets look. A file that is longer than
    /// `MAX_LEN` is refused; after that, the session is refused only where
    /// a pattern for pointer reports is not compiled.
    pub fn new(file: File, undo_file: UndoFile, structs: Structs, height: u32) -> (r: Result<
        Buffer,
        SetupError,
    >)
        requires
            undo_file.wf(),
        ensures
            r is Ok <==> file@.len() <= MAX_LEN && patterns_compile(),
            r == Err::<Buffer, SetupError>(SetupError::FileTooLarge) <==> file@.len() > MAX_LEN,
            r == Err::<Buffer, SetupError>(SetupError::PatternRefused) <==> file@.len() <= MAX_LEN
                && !patterns_compile(),
            r matches Ok(buffer) ==> buffer.wf() && buffer@ == started(file@, undo_file@, structs@, height),
    {
        if file.len() > MAX_LEN {
            return Err(SetupError::FileTooLarge);
        }
        let mouse = match Mouse::new() {
            Some(mouse) => mouse,
            None => {
                return Err(SetupError::PatternRefused);
            },
        };
        Ok(
            Buffer {
                file,
                undo_file,
                structs,
                active_struct: None,
                view: Viewport::new(),
                height,
                mode: Mode::Read,
                replacing_nibble: 0,
                replacing_old: 0,
                replacing_new: 0,
                quit_request: false,
                command_line: None,
                status_info: None,
                jump_stack: Vec::new(),
                unread: VecDeque::new(),
                mouse,
            },
        )
    }

    /// Takes file and log afresh, as after a failure to store them. A
    /// file that is longer than `MAX_LEN` is refused, and the session stays
    /// as it is.
    pub fn reload(&mut self, file: File, undo_file: UndoFile) -> (r: Result<(), SetupError>)
        requires
            old(self).wf(),
            undo_file.wf(),
        ensures
            final(self).wf(),
            match r {
                Ok(()) => file@.len() <= MAX_LEN && final(self)@ == reloaded(old(self)@, file@, undo_file@),
                Err(e) => e == SetupError::FileTooLarge && file@.len() > MAX_LEN && final(self)@ == old(self)@,
            },
    {
        let lof = file.len();
        if lof > MAX_LEN {
            return Err(SetupError::FileTooLarge);
        }
        self.file = file;
        self.undo_file = undo_file;
        let top = Viewport { base_offset: 0, loc: 0 };
        self.view = top.place(self.view.loc, lof).cursor_to_bounds(lof, self.height, true);
        self.replacing_nibble = 0;
        Ok(())
    }

    /// Takes note that a step of storing has failed: file and log are
    /// taken afresh from what is stored, and the failure goes to the
    /// status line. A file that is longer than `MAX_LEN` is refused, and
    /// only the status line changes.
    pub fn store_failed(&mut self, step: StoreStep, cause: &str, file: File, undo_file: UndoFile) -> (r:
        Result<(), SetupError>)
        requires
            old(self).wf(),
            undo_file.wf(),
        ensures
            final(self).wf(),
            match r {
                Ok(()) => file@.len() <= MAX_LEN && final(self)@ == store_failed(
                    old(self)@,
                    step,
                    cause@,
                    file@,
                    undo_file@,
                ),
                Err(e) => e == SetupError::FileTooLarge && file@.len() > MAX_LEN && final(self)@ == (Session {
                    status_info: Some((store_failure_text(step, cause@), Color::ErrorInfo)),
                    ..old(self)@
                }),
            },
    {
        self.status_info = Some((failure_text(step, cause), Color::ErrorInfo));
        self.reload(file, undo_file)
    }

    /// The structures that can be shown.
    pub fn structs(&self) -> (structs: &Structs)
        ensures
            structs@ == self@.structs,
    {
        &self.structs
    }

    /// The structure that is shown.
    pub fn active_struct(&self) -> (index: Option<usize>)
        ensures
            index == self@.active_struct,
    {
        self.active_struct
    }

    /// Whether the user asked to leave.
    pub fn should_quit(&self) -> (quit: bool)
        ensures
            quit == self@.quit_request,
    {
        self.quit_request
    }

    /// The file.
    pub fn file(&self) -> (file: &File)
        ensures
            file@ == self@.file,
    {
        &self.file
    }

    /// The edit log.
    pub fn undo_file(&self) -> (log: &UndoFile)
        ensures
            log@ == self@.log,
    {
        &self.undo_file
    }

    /// The window and the cursor.
    pub fn viewport(&self) -> (vp: Viewport)
        ensures
            vp == self@.view,
    {
        self.view
    }

    /// The height of the display that the session works with.
    pub fn height(&self) -> (height: u32)
        ensures
            height == self@.height,
    {
        self.height
    }

    /// What the user may do.
    pub fn mode(&self) -> (mode: Mode)
        ensures
            mode == self@.mode,
    {
        self.mode
    }

    /// The command line, while one is being typed.
    pub fn command_line(&self) -> (line: &Option<String>)
        ensures
            line_view(*line) == self@.command_line,
    {
        &self.command_line
    }

    /// The notice for the status line.
    pub fn status_info(&self) -> (status: &Option<(String, Color)>)
        ensures
            status_view(*status) == self@.status_info,
    {
        &self.status_info
    }

    /// Puts a notice on the status line.
    pub fn set_status(&mut self, text: String, color: Color)
        requires
            old(self).wf(),
        ensures
            final(self).wf(),
            final(self)@ == (Session { status_info: Some((text@, color)), ..old(self)@ }),
    {
        self.status_info = Some((text, color));
    }

    /// How many digits of the byte under the cursor have been typed.
    pub fn replacing_nibble(&self) -> (nibble: u8)
        ensures
            nibble == self@.replacing_nibble,
    {
        self.replacing_nibble
    }

    /// The byte to show at `offset`: the file's, or, under the cursor
    /// while a byte is being typed, that byte as far as it is typed.
    pub fn byte_shown(&self, offset: u64) -> (byte: Option<u8>)
        requires
            self.wf(),
        ensures
            byte == shown(self@, offset as int),
    {
        if offset >= self.file.len() {
            None
        } else if self.replacing_nibble == 1 && offset == self.view.loc {
            Some(self.replacing_new)
        } else {
            match self.file.read_u8(offset) {
                Ok(byte) => Some(byte),
                Err(_) => None,
            }
        }
    }

    /// Where the visible bytes end.
    pub fn end_offset(&self) -> (end: u64)
        requires
            self.wf(),
        ensures
            end == window_end(self@),
    {
        self.view.end_offset(self.file.len(), self.height)
    }

    /// What the row that starts at `base` says.
    pub fn redraw_line(&self, base: u64) -> (pieces: Vec<Piece>)
        requires
            self.wf(),
        ensures
            pieces_view(pieces@) == row_drawn(self@, base),
    {
        let end = self.end_offset();
        if base < self.view.base_offset || base >= end || base % 16 != 0 {
            let pieces: Vec<Piece> = Vec::new();
            assert(pieces_view(pieces@) =~= Seq::<PieceView>::empty());
            return pieces;
        }
        let mut cells: Vec<Option<u8>> = Vec::new();
        let mut i: u64 = 0;
        while i < 16
            invariant
                i <= 16,
                self.wf(),
                base < end == window_end(self@),
                cells@.len() == i,
                forall|j: int| 0 <= j < i ==> cells@[j] == row_cells(self@, base)[j],
            decreases 16 - i,
        {
            let cell = if base + i < end {
                self.byte_shown(base + i)
            } else {
                None
            };
            cells.push(cell);
            i += 1;
        }
        assert(cells@ =~= row_cells(self@, base));
        let loc = self.view.loc;
        let active = loc - loc % 16 == base;
        let cursor: Option<usize> = if active && self.command_line.is_none() {
            Some((loc - base) as usize)
        } else {
            None
        };
        row(base, &cells, active, cursor)
    }

    /// What the rows of the window say, from the top.
    pub fn update(&self) -> (rows: Vec<Vec<Piece>>)
        requires
            self.wf(),
        ensures
            rows@.len() == rows_drawn(self@).len(),
            forall|r: int| 0 <= r < rows@.len() ==> pieces_view(#[trigger] rows@[r]@) == rows_drawn(self@)[r],
    {
        let end = self.end_offset();
        let mut rows: Vec<Vec<Piece>> = Vec::new();
        let mut current: u64 = self.view.base_offset;
        while current < end
            invariant
                self.wf(),
                end == window_end(self@),
                end <= MAX_LEN,
                current % 16 == 0,
                self.view.base_offset <= current,
                current == self.view.base_offset + 16 * rows@.len(),
                rows@.len() <= rows_shown(self@),
                current < end || rows@.len() == rows_shown(self@),
                forall|r: int|
                    0 <= r < rows@.len() ==> pieces_view(#[trigger] rows@[r]@) == row_drawn(
                        self@,
                        (self.view.base_offset + 16 * r) as u64,
                    ),
            decreases end + 16 - current,
        {
            rows.push(self.redraw_line(current));
            current = current + 16;
        }
        rows
    }

    /// What the status line says, below the rule that parts it from the
    /// rows of bytes.
    pub fn update_status(&self) -> (pieces: Vec<Piece>)
        requires
            self.wf(),
        ensures
            pieces_view(pieces@) == status_pieces(self@),
    {
        let mut pieces: Vec<Piece> = Vec::new();
        let mut line = String::new();
        let mut i: usize = 0;
        while i < 89
            invariant
                i <= 89,
                line@ == Seq::new(i as nat, |j: int| '\u{2500}'),
            decreases 89 - i,
        {
            push_char(&mut line, '\u{2500}');
            i += 1;
            assert(line@ =~= Seq::new(i as nat, |j: int| '\u{2500}'));
        }
        push_char(&mut line, '\n');
        pieces.push(Piece::Text(line));
        let ghost head = pieces_view(pieces@);
        assert(head =~= seq![PieceView::Text(rule())]);
        match &self.status_info {
            Some((text, color)) => {
                pieces.push(Piece::On(*color));
                pieces.push(Piece::Text(align_left(text.as_str(), 89)));
                pieces.push(Piece::Off(*color));
                assert(pieces_view(pieces@) =~= status_pieces(self@));
            },
            None => match &self.command_line {
                Some(cmd_line) => {
                    let mut text = String::new();
                    push_char(&mut text, ':');
                    let padded = align_left(cmd_line.as_str(), 88);
                    text.append(padded.as_str());
                    assert(text@ =~= seq![':'] + crate::row::left_aligned(cmd_line@, 88));
                    pieces.push(Piece::Text(text));
                    assert(pieces_view(pieces@) =~= status_pieces(self@));
                },
                None => {
                    proof {
                        reveal_strlit("READ-ONLY");
                        reveal_strlit("MODIFY");
                        reveal_strlit("REPLACE");
                    }
                    let (name, width, color): (&str, usize, Color) = match self.mode {
                        Mode::Read => ("READ-ONLY", 7, Color::StatusModeRead),
                        Mode::Modify => ("MODIFY", 10, Color::StatusModeModify),
                        Mode::Replace => ("REPLACE", 9, Color::StatusModeReplace),
                    };
                    let mut pad = String::new();
                    push_spaces(&mut pad, width);
                    assert(pad@ =~= crate::row::spaces(16 - mode_name(self.mode).len()));
                    pieces.push(Piece::Text(pad));
                    pieces.push(Piece::On(color));
                    pieces.push(Piece::Text(String::from_str(name)));
                    pieces.push(Piece::Off(color));
                    let mut gap = String::new();
                    push_spaces(&mut gap, 55);
                    assert(gap@ =~= crate::row::spaces(55));
                    pieces.push(Piece::Text(gap));
                    let mut shown = String::new();
                    push_char(&mut shown, '0');
                    push_char(&mut shown, 'x');
                    push_numeral(&mut shown, self.view.loc, 16);
                    assert(shown@ =~= loc_text(self.view.loc));
                    let len = shown.as_str().unicode_len();
                    let mut pad = String::new();
                    push_spaces(&mut pad, if len < 18 { 18 - len } else { 0 });
                    assert(pad@ =~= crate::row::spaces(18 - loc_text(self.view.loc).len()));
                    pieces.push(Piece::Text(pad));
                    pieces.push(Piece::On(Color::StatusLoc));
                    pieces.push(Piece::Text(shown));
                    pieces.push(Piece::Off(Color::StatusLoc));
                    assert(pieces_view(pieces@) =~= status_pieces(self@));
                },
            },
        }
        pieces
    }

    /// The column and the row of the terminal's cursor.
    pub fn update_cursor(&self) -> (cell: Option<(u64, u64)>)
        requires
            self.wf(),
        ensures
            match cell {
                Some((x, y)) => cursor_cell(self@) == Some((x as int, y as int)),
                None => cursor_cell(self@) is None,
            },
    {
        let loc = self.view.loc;
        if loc < self.view.base_offset {
            return None;
        }
        match &self.command_line {
            Some(cmd_line) => {
                let len = cmd_line.as_str().unicode_len();
                let x: u64 = if (len as u64) < u64::MAX {
                    len as u64 + 1
                } else {
                    u64::MAX
                };
                Some((x, if self.height > 0 { (self.height - 1) as u64 } else { 0 }))
            },
            None => {
                let x = byte_to_x((loc % 16) as u8) as u64 + self.replacing_nibble as u64 + 19;
                Some((x, (loc - self.view.base_offset) / 16))
            },
        }
    }

    /// Takes the next character of the input that was put back.
    pub fn readchar(&mut self) -> (c: Option<char>)
        requires
            old(self).wf(),
        ensures
            final(self).wf(),
            old(self)@.unread.len() == 0 ==> c is None && final(self)@ == old(self)@,
            old(self)@.unread.len() > 0 ==> c == Some(old(self)@.unread[0]) && final(self)@ == (Session {
                unread: old(self)@.unread.skip(1),
                ..old(self)@
            }),
    {
        let c = self.unread.pop_front();
        assert(old(self).unread@.len() > 0 ==> self.unread@ =~= old(self).unread@.skip(1));
        c
    }

    /// Puts a character back behind those that were put back before.
    pub fn unreadchar(&mut self, chr: char)
        requires
            old(self).wf(),
        ensures
            final(self).wf(),
            final(self)@ == (Session { unread: old(self)@.unread.push(chr), ..old(self)@ }),
    {
        self.unread.push_back(chr);
    }

    /// Takes over a new height of the display and brings the cursor into
    /// view. Everything is to be drawn again.
    pub fn term_update(&mut self, height: u32) -> (outcome: Outcome)
        requires
            old(self).wf(),
        ensures
            final(self).wf(),
            final(self)@ == resized(old(self)@, height),
            outcome == draw(Redraw::Full),
    {
        self.height = height;
        self.view = self.view.cursor_to_bounds(self.file.len(), height, false);
        only(Redraw::Full)
    }

    /// Runs the structure that is shown at the cursor and gives its
    /// lines.
    pub fn update_struct(&mut self) -> (lines: Vec<Line>)
        requires
            old(self).wf(),
        ensures
            final(self).wf(),
            final(self)@ == annotated(old(self)@).0,
            crate::structs::lines_view(lines@) == annotated(old(self)@).1,
    {
        let index = match self.active_struct {
            Some(index) => index,
            None => {
                let lines: Vec<Line> = Vec::new();
                assert(crate::structs::lines_view(lines@) =~= Seq::<crate::machine::LineView>::empty());
                return lines;
            },
        };
        let rendering = self.structs.get(index).update(&self.file, self.view.loc, self.height as usize, 0);
        match rendering.error {
            Some(e) => {
                let mut text = String::from_str("struct: ");
                let why = e.message();
                text.append(why.as_str());
                self.status_info = Some((text, Color::ErrorInfo));
            },
            None => {},
        }
        rendering.lines
    }

    /// Moves the cursor or the window.
    pub fn motion(&mut self, motion: Motion) -> (outcome: Outcome)
        requires
            old(self).wf(),
        ensures
            final(self).wf(),
            final(self)@ == moved(old(self)@, motion),
            outcome == draw(moved_redraw(old(self)@.view, final(self)@.view, motion)),
    {
        let lof = self.file.len();
        let before = self.view;
        let after = match motion {
            Motion::Up => before.cursor_up(lof, self.height),
            Motion::Down => before.cursor_down(lof, self.height),
            Motion::Right => before.cursor_right(lof, self.height),
            Motion::Left => before.cursor_left(lof, self.height),
            Motion::PageUp => before.page_up(lof, self.height),
            Motion::PageDown => before.page_down(lof, self.height),
            Motion::ScrollUp => before.scroll_up(lof, self.height),
            Motion::ScrollDown => before.scroll_down(lof, self.height),
            Motion::End => before.key_end(lof),
            Motion::Home => before.key_home(lof),
        };
        self.view = after;
        self.replacing_nibble = 0;
        only(redraw_of(before, after, motion))
    }

    /// Jumps to `position` and remembers the place that is left.
    pub fn do_goto(&mut self, position: u64) -> (outcome: Outcome)
        requires
            old(self).wf(),
        ensures
            final(self).wf(),
            final(self)@ == went(old(self)@, position),
            outcome == draw(Redraw::Full),
    {
        self.jump_stack.push(self.view.loc);
        self.view = self.view.goto(position, self.file.len(), self.height);
        self.replacing_nibble = 0;
        only(Redraw::Full)
    }

    /// Jumps back to the place that was remembered last.
    pub fn cmd_jump_back(&mut self) -> (r: Result<Outcome, Fault>)
        requires
            old(self).wf(),
        ensures
            final(self).wf(),
            match r {
                Ok(outcome) => jumped_back(old(self)@) == Ok::<Session, FaultView>(final(self)@) && outcome
                    == draw(Redraw::Full),
                Err(e) => jumped_back(old(self)@) == Err::<Session, FaultView>(e@) && final(self)@ == old(
                    self,
                )@,
            },
    {
        match self.jump_stack.pop() {
            None => Err(Fault::JumpStackEmpty),
            Some(position) => {
                self.view = self.view.goto(position, self.file.len(), self.height);
                self.replacing_nibble = 0;
                assert(self.jump_stack@ =~= old(self).jump_stack@.drop_last());
                Ok(only(Redraw::Full))
            },
        }
    }

    /// Remembers the cursor's place.
    pub fn cmd_jump_stack_push(&mut self)
        requires
            old(self).wf(),
        ensures
            final(self).wf(),
            final(self)@ == (Session {
                jump_stack: old(self)@.jump_stack.push(old(self)@.view.loc),
                ..old(self)@
            }),
    {
        self.jump_stack.push(self.view.loc);
    }

    /// Sets what the user may do.
    pub fn set_mode(&mut self, mode: Mode) -> (outcome: Outcome)
        requires
            old(self).wf(),
        ensures
            final(self).wf(),
            final(self)@ == (Session { mode, ..old(self)@ }),
            outcome == draw(Redraw::Status),
    {
        self.mode = mode;
        only(Redraw::Status)
    }

    /// Lets the user undo and redo.
    pub fn cmd_modify_mode(&mut self) -> (outcome: Outcome)
        requires
            old(self).wf(),
        ensures
            final(self).wf(),
            final(self)@ == (Session { mode: Mode::Modify, ..old(self)@ }),
            outcome == draw(Redraw::Status),
    {
        self.set_mode(Mode::Modify)
    }

    /// Lets the user type over bytes.
    pub fn cmd_replace_mode(&mut self) -> (outcome: Outcome)
        requires
            old(self).wf(),
        ensures
            final(self).wf(),
            final(self)@ == (Session { mode: Mode::Replace, ..old(self)@ }),
            outcome == draw(Redraw::Status),
    {
        self.set_mode(Mode::Replace)
    }

    /// Lets the user look only.
    pub fn cmd_read_mode(&mut self) -> (outcome: Outcome)
        requires
            old(self).wf(),
        ensures
            final(self).wf(),
            final(self)@ == (Session { mode: Mode::Read, ..old(self)@ }),
            outcome == draw(Redraw::Status),
    {
        self.set_mode(Mode::Read)
    }

    /// Asks to leave.
    pub fn cmd_quit(&mut self)
        requires
            old(self).wf(),
        ensures
            final(self).wf(),
            final(self)@ == (Session { quit_request: true, ..old(self)@ }),
    {
        self.quit_request = true;
    }

    fn replay(&mut self, address: u64, value: u8) -> (r: Result<Outcome, Fault>)
        requires
            old(self).wf(),
        ensures
            final(self).wf(),
            match r {
                Ok(outcome) => replayed(old(self)@, old(self)@.log, address, value) == (
                    final(self)@,
                    Ok::<Outcome, FaultView>(outcome),
                ),
                Err(e) => replayed(old(self)@, old(self)@.log, address, value) == (
                    final(self)@,
                    Err::<Outcome, FaultView>(e@),
                ),
            },
    {
        if address >= MAX_LEN || address >= usize::MAX as u64 {
            return Err(Fault::Write(FileError::OutOfRange));
        }
        match self.file.write_u8(address, value) {
            Ok(()) => {},
            Err(e) => {
                return Err(Fault::Write(e));
            },
        }
        self.undo_file.settle();
        self.jump_stack.push(self.view.loc);
        self.view = self.view.goto(address, self.file.len(), self.height);
        self.replacing_nibble = 0;
        Ok(Outcome { redraw: Redraw::Full, persist: Persist::Replay { address, value } })
    }

    /// Takes back the last change: the log steps back, the old byte is
    /// written, the log is settled, and the cursor jumps to the byte.
    pub fn cmd_undo(&mut self) -> (r: Result<Outcome, Fault>)
        requires
            old(self).wf(),
        ensures
            final(self).wf(),
            match r {
                Ok(outcome) => undo_asked(old(self)@) == (final(self)@, Ok::<Outcome, FaultView>(outcome)),
                Err(e) => undo_asked(old(self)@) == (final(self)@, Err::<Outcome, FaultView>(e@)),
            },
    {
        if let Mode::Read = self.mode {
            return Err(Fault::ReadOnlyUndo);
        }
        match self.undo_file.undo() {
            None => Err(Fault::NothingToUndo),
            Some((address, value)) => self.replay(address, value),
        }
    }

    /// Makes the change that was taken back last again: the log steps
    /// on, the new byte is written, the log is settled, and the cursor
    /// jumps to the byte.
    pub fn cmd_redo(&mut self) -> (r: Result<Outcome, Fault>)
        requires
            old(self).wf(),
        ensures
            final(self).wf(),
            match r {
                Ok(outcome) => redo_asked(old(self)@) == (final(self)@, Ok::<Outcome, FaultView>(outcome)),
                Err(e) => redo_asked(old(self)@) == (final(self)@, Err::<Outcome, FaultView>(e@)),
            },
    {
        if let Mode::Read = self.mode {
            return Err(Fault::ReadOnlyRedo);
        }
        match self.undo_file.redo() {
            None => Err(Fault::NothingToRedo),
            Some((address, value)) => self.replay(address, value),
        }
    }

    /// Shows the structure of the given name.
    pub fn cmd_struct(&mut self, name: String) -> (r: Result<Outcome, Fault>)
        requires
            old(self).wf(),
        ensures
            final(self).wf(),
            match r {
                Ok(outcome) => struct_asked(old(self)@, name@) == (
                    final(self)@,
                    Ok::<Outcome, FaultView>(outcome),
                ),
                Err(e) => struct_asked(old(self)@, name@) == (final(self)@, Err::<Outcome, FaultView>(e@)),
            },
    {
        let found = self.structs.find(name.as_str());
        proof {
            let structs = self.structs@;
            match found {
                Some(i) => {
                    assert(0 <= i < structs.len() && structs[i as int].name == name@);
                    let chosen = choose|k: int|
                        0 <= k < structs.len() && structs[k].name == name@ && forall|j: int|
                            0 <= j < k ==> structs[j].name != name@;
                    assert(0 <= (i as int) < structs.len() && structs[i as int].name == name@
                        && forall|j: int| 0 <= j < (i as int) ==> structs[j].name != name@);
                    assert(chosen == i);
                },
                None => {},
            }
        }
        match found {
            None => Err(Fault::UnknownStruct(name)),
            Some(i) => {
                self.active_struct = Some(i);
                Ok(only(Redraw::Full))
            },
        }
    }

    /// Enters a change of the byte under the cursor in the log, writes
    /// the byte, and settles the log.
    pub fn perform_replacement(&mut self, old_byte: u8, new_byte: u8) -> (persist: Persist)
        requires
            old(self).wf(),
            old(self)@.view.loc < old(self)@.file.len(),
        ensures
            final(self).wf(),
            final(self)@ == (Session {
                file: old(self)@.file.update(old(self)@.view.loc as int, new_byte),
                log: crate::undo_file::settled(
                    crate::undo_file::entered(old(self)@.log, old(self)@.view.loc, old_byte, new_byte),
                ),
                ..old(self)@
            }),
            persist == (Persist::Change { address: old(self)@.view.loc, value: new_byte }),
    {
        let loc = self.view.loc;
        let lof = self.file.len();
        self.undo_file.enter(loc, old_byte, new_byte);
        let written = self.file.write_u8(loc, new_byte);
        self.undo_file.settle();
        Persist::Change { address: loc, value: new_byte }
    }

    /// Types a hexadecimal digit over the byte under the cursor.
    pub fn type_digit(&mut self, digit: u8) -> (outcome: Outcome)
        requires
            old(self).wf(),
            digit < 16,
        ensures
            final(self).wf(),
            (final(self)@, outcome) == digit_typed(old(self)@, digit),
    {
        let lof = self.file.len();
        if self.view.loc >= lof {
            return only(Redraw::Nothing);
        }
        if self.replacing_nibble == 0 {
            let old_byte = match self.file.read_u8(self.view.loc) {
                Ok(byte) => byte,
                Err(_) => 0,
            };
            self.replacing_old = old_byte;
            self.replacing_new = digit * 16 + old_byte % 16;
            self.replacing_nibble = 1;
            only(Redraw::Cursor)
        } else {
            let new_byte: u8 = self.replacing_new / 16 * 16 + digit;
            let persist = self.perform_replacement(self.replacing_old, new_byte);
            let before = self.view;
            let after = before.cursor_right(lof, self.height);
            self.view = after;
            self.replacing_nibble = 0;
            Outcome { redraw: redraw_of(before, after, Motion::Right), persist }
        }
    }

    /// Does what a command line asks for.
    pub fn execute_cmdline(&mut self, cmdline: String) -> (r: Result<Outcome, Fault>)
        requires
            old(self).wf(),
        ensures
            final(self).wf(),
            match r {
                Ok(outcome) => command_run(old(self)@, cmdline@) == (
                    final(self)@,
                    Ok::<Outcome, FaultView>(outcome),
                ),
                Err(e) => command_run(old(self)@, cmdline@) == (final(self)@, Err::<Outcome, FaultView>(e@)),
            },
    {
        match parse_command(cmdline.as_str()) {
            Err(e) => Err(Fault::Command(e)),
            Ok(Command::Nothing) => Ok(only(Redraw::Nothing)),
            Ok(Command::Goto(position)) => Ok(self.do_goto(position)),
            Ok(Command::Quit) => {
                self.cmd_quit();
                Ok(only(Redraw::Nothing))
            },
            Ok(Command::Undo) => self.cmd_undo(),
            Ok(Command::Redo) => self.cmd_redo(),
            Ok(Command::Struct(name)) => self.cmd_struct(name),
        }
    }

    fn note(&mut self, e: &Fault)
        requires
            old(self).wf(),
        ensures
            final(self).wf(),
            final(self)@ == noted(old(self)@, e@),
    {
        let mut text = String::from_str("Error: ");
        let why = e.message();
        text.append(why.as_str());
        self.status_info = Some((text, Color::ErrorInfo));
    }

    fn settle_event(&mut self, r: Result<Outcome, Fault>, least: Redraw) -> (outcome: Outcome)
        requires
            old(self).wf(),
        ensures
            final(self).wf(),
            (final(self)@, outcome) == settled_event(
                (
                    old(self)@,
                    match r {
                        Ok(o) => Ok::<Outcome, FaultView>(o),
                        Err(e) => Err::<Outcome, FaultView>(e@),
                    },
                ),
                least,
            ),
    {
        match r {
            Ok(outcome) => Outcome { redraw: more_of(outcome.redraw, least), persist: outcome.persist },
            Err(e) => {
                self.note(&e);
                only(Redraw::Status)
            },
        }
    }

    /// Follows a pointer report.
    pub fn handle_mouse(&mut self, event: MouseEvent) -> (outcome: Outcome)
        requires
            old(self).wf(),
        ensures
            final(self).wf(),
            (final(self)@, outcome) == pointed(old(self)@, event),
    {
        match event {
            MouseEvent::Ignored => only(Redraw::Nothing),
            MouseEvent::ScrollUp => {
                self.motion(Motion::ScrollUp);
                only(Redraw::Full)
            },
            MouseEvent::ScrollDown => self.motion(Motion::ScrollDown),
            MouseEvent::Press { x, y } => {
                self.view = self.view.click(x, y, self.file.len(), self.height);
                self.replacing_nibble = 0;
                only(Redraw::Status)
            },
        }
    }

    fn press_key(&mut self, key: Key) -> (outcome: Outcome)
        requires
            old(self).wf(),
        ensures
            final(self).wf(),
            (final(self)@, outcome) == keyed(old(self)@, key),
    {
        match key {
            Key::Move(motion) => self.motion(motion),
            Key::GotoEnd => self.do_goto(u64::MAX),
            Key::GotoStart => self.do_goto(0),
            Key::Escape => self.cmd_read_mode(),
        }
    }

    /// Follows an escape sequence: a pointer report, or a key and then
    /// whatever follows it, which is put back to be read again.
    pub fn handle_escape_sequence(&mut self, seq: &str) -> (r: Result<Outcome, Fault>)
        requires
            old(self).wf(),
        ensures
            final(self).wf(),
            match r {
                Ok(outcome) => escaped(old(self)@, seq@) == (final(self)@, Ok::<Outcome, FaultView>(outcome)),
                Err(e) => escaped(old(self)@, seq@) == (final(self)@, Err::<Outcome, FaultView>(e@)),
            },
    {
        match self.mouse.decode(seq) {
            Some(Err(fault)) => {
                return Err(Fault::Mouse(String::from_str(seq), fault));
            },
            Some(Ok(event)) => {
                return Ok(self.handle_mouse(event));
            },
            None => {},
        }
        let chars = chars_of(seq);
        match read_key(&chars) {
            None => Ok(only(Redraw::Nothing)),
            Some((key, used)) => {
                let outcome = self.press_key(key);
                let ghost pressed = self@;
                let mut i: usize = used;
                while i < chars.len()
                    invariant
                        used <= i <= chars@.len(),
                        self.wf(),
                        self@ == (Session {
                            unread: pressed.unread + chars@.subrange(used as int, i as int),
                            ..pressed
                        }),
                    decreases chars@.len() - i,
                {
                    self.unread.push_back(chars[i]);
                    i += 1;
                    assert(self.unread@ =~= pressed.unread + chars@.subrange(used as int, i as int));
                }
                assert(chars@.subrange(used as int, chars@.len() as int) =~= chars@.skip(used as int));
                Ok(outcome)
            },
        }
    }

    fn press(&mut self, input: char, seq: &str) -> (r: Result<Outcome, Fault>)
        requires
            old(self).wf(),
        ensures
            final(self).wf(),
            match r {
                Ok(outcome) => key_typed(old(self)@, input, seq@) == (
                    final(self)@,
                    Ok::<Outcome, FaultView>(outcome),
                ),
                Err(e) => key_typed(old(self)@, input, seq@) == (final(self)@, Err::<Outcome, FaultView>(e@)),
            },
    {
        if input == '\x12' {
            self.cmd_redo()
        } else if input == '\x14' {
            self.cmd_jump_back()
        } else if input == ':' {
            self.command_line = Some(String::new());
            Ok(only(Redraw::Status))
        } else if input == 'M' {
            Ok(self.cmd_modify_mode())
        } else if input == 'q' {
            self.cmd_quit();
            Ok(only(Redraw::Nothing))
        } else if input == 'R' {
            Ok(self.cmd_replace_mode())
        } else if input == 't' {
            self.cmd_jump_stack_push();
            Ok(only(Redraw::Nothing))
        } else if input == 'u' {
            self.cmd_undo()
        } else if input == '\x1b' {
            self.handle_escape_sequence(seq)
        } else {
            Ok(only(Redraw::Nothing))
        }
    }

    fn type_command(&mut self, line: String, input: char) -> (outcome: Outcome)
        requires
            old(self).wf(),
            old(self)@.command_line is None,
        ensures
            final(self).wf(),
            (final(self)@, outcome) == command_typed(
                Session { command_line: Some(line@), ..old(self)@ },
                line@,
                input,
            ),
    {
        let mut line = line;
        if input == '\n' {
            self.command_line = None;
            let r = self.execute_cmdline(line);
            self.settle_event(r, Redraw::Status)
        } else if input == '\x7f' {
            match pop_char(&mut line) {
                None => {
                    self.command_line = None;
                },
                Some(_) => {
                    self.command_line = Some(line);
                },
            }
            only(Redraw::Status)
        } else if (input as u32) < 0x20 {
            push_char(&mut line, '^');
            let shown = match crate::text::char_from_u32(input as u32 + 64) {
                Some(c) => c,
                None => '?',
            };
            push_char(&mut line, shown);
            self.command_line = Some(line);
            only(Redraw::Status)
        } else {
            push_char(&mut line, input);
            self.command_line = Some(line);
            only(Redraw::Status)
        }
    }

    /// Follows one piece of input: a character, with the sequence that
    /// followed it where it is an escape, or the end of input.
    pub fn handle_input(&mut self, input: Option<char>, seq: &str) -> (outcome: Outcome)
        requires
            old(self).wf(),
        ensures
            final(self).wf(),
            (final(self)@, outcome) == input_handled(old(self)@, input, seq@),
    {
        let c = match input {
            Some(c) => c,
            None => {
                self.quit_request = true;
                return only(Redraw::Nothing);
            },
        };
        self.status_info = None;
        match self.command_line.take() {
            Some(line) => self.type_command(line, c),
            None => {
                let hex = match digit_of(c) {
                    Some(d) if d < 16 => Some(d as u8),
                    _ => None,
                };
                match (self.mode, hex) {
                    (Mode::Replace, Some(d)) => self.type_digit(d),
                    _ => {
                        let r = self.press(c, seq);
                        self.settle_event(r, Redraw::Nothing)
                    },
                }
            },
        }
    }
}

} // verus!
