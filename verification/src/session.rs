//! The editing session as a mathematical value, and what each
//! event makes of it.
//!
//! A session holds the file, the edit log, the window and the cursor, the
//! mode, a byte that is being typed, the command line, a notice for the
//! status line, the stack of places to jump back to, and input that was
//! read and put back. Each function here takes a session and an event and
//! gives the session that follows, together with what the caller has to
//! draw and to store.

use vstd::prelude::*;
use crate::command::{command_error_text, command_of, words, CommandErrorView, CommandView};
use crate::display::Color;
use crate::file::{written, FileError};
use crate::mouse::{reading, MouseEvent, MouseFault};
use crate::row::{left_aligned, row_pieces, spaces, PieceView};
use crate::machine::{initial, run, LineView};
use crate::structs::{error_text, StructView};
use crate::text::{digit_value, numeral};
use crate::undo_file::{
    entered, lemma_enter, lemma_redo_after_undo, lemma_settle, lemma_undo, redo_write, redone, settled,
    undo_write, undone, well_formed, Log,
};
use crate::viewport::{
    after_bounds, after_click, after_down, after_end, after_goto, after_home, after_left,
    after_page_down, after_page_up, after_right, after_scroll_down, after_scroll_up, after_up,
    column_of, end_of, line_of, placed, Viewport, MAX_LEN,
};

verus! {

/// What the editor lets the user do.
#[derive(Clone, Copy, Debug, PartialEq, Eq, Structural)]
pub enum Mode {
    /// Look only.
    Read,
    /// Undo and redo.
    Modify,
    /// Undo, redo, and type over bytes.
    Replace,
}

/// How much of the screen has to be drawn again; each level takes in the
/// ones before it.
#[derive(Clone, Copy, Debug, PartialEq, Eq, Structural)]
pub enum Redraw {
    /// Nothing.
    Nothing,
    /// The annotations, the cursor's row and the row it came from.
    Cursor,
    /// The status line as well.
    Status,
    /// Everything.
    Full,
}

/// What has to be stored, and in which order.
#[derive(Clone, Copy, Debug, PartialEq, Eq, Structural)]
pub enum Persist {
    /// Nothing.
    Nothing,
    /// A new change: first the log's last record and its new length, then
    /// the byte at `address`, then the log's header.
    Change { address: u64, value: u8 },
    /// A change that was undone or redone: first the byte at `address`,
    /// then the log's header.
    Replay { address: u64, value: u8 },
}

/// One step of storing a change.
#[derive(Clone, Copy, Debug, PartialEq, Eq, Structural)]
pub enum StoreStep {
    /// The log's last record is written, and the log cut off behind it.
    Record,
    /// The byte is written to the file.
    Byte,
    /// The log's position is written to its header, and the log flushed.
    Header,
}

/// The steps that store what an event changed, in their order. A new
/// change goes to the log before it goes to the file, so that a byte that
/// could not be written can still be redone; the header follows the file,
/// so that the log as stored is never ahead of the file.
pub open spec fn store_steps(persist: Persist) -> Seq<StoreStep> {
    match persist {
        Persist::Nothing => Seq::empty(),
        Persist::Change { .. } => seq![StoreStep::Record, StoreStep::Byte, StoreStep::Header],
        Persist::Replay { .. } => seq![StoreStep::Byte, StoreStep::Header],
    }
}

/// What is said when a step of storing fails. A failure to write the
/// header is the one that leaves log and file at odds, and is told apart.
pub open spec fn store_failure_text(step: StoreStep, cause: Seq<char>) -> Seq<char> {
    match step {
        StoreStep::Record => "Undo log error: "@ + cause + " (redo may be garbage)"@,
        StoreStep::Byte => "Write error: "@ + cause,
        StoreStep::Header => "Undo log error: "@ + cause
            + " \u{2013} the log is inconsistent now, proceed with care!"@,
    }
}

/// What an event asks of the caller.
#[derive(Clone, Copy, Debug, PartialEq, Eq, Structural)]
pub struct Outcome {
    pub redraw: Redraw,
    pub persist: Persist,
}

/// A movement of the cursor or of the window.
#[derive(Clone, Copy, Debug, PartialEq, Eq, Structural)]
pub enum Motion {
    Up,
    Down,
    Right,
    Left,
    PageUp,
    PageDown,
    ScrollUp,
    ScrollDown,
    End,
    Home,
}

/// Why an event could not be followed.
pub enum FaultView {
    /// Undo was asked for while the editor only lets look.
    ReadOnlyUndo,
    /// Redo was asked for while the editor only lets look.
    ReadOnlyRedo,
    /// No change is left to undo.
    NothingToUndo,
    /// No change is left to redo.
    NothingToRedo,
    /// There is no place to jump back to.
    JumpStackEmpty,
    /// No structure has this name.
    UnknownStruct(Seq<char>),
    /// The command line asks for nothing that can be done.
    Command(CommandErrorView),
    /// A pointer report has a field that is no number.
    Mouse(Seq<char>, MouseFault),
    /// The byte could not be written.
    Write(FileError),
}

/// The editing session.
#[verifier::ext_equal]
pub struct Session {
    /// The bytes of the file.
    pub file: Seq<u8>,
    /// The edit log.
    pub log: Log,
    /// The structures that can be shown.
    pub structs: Seq<StructView>,
    /// The structure that is shown.
    pub active_struct: Option<usize>,
    /// The window and the cursor.
    pub view: Viewport,
    /// The height of the display in rows.
    pub height: u32,
    /// What the user may do.
    pub mode: Mode,
    /// How many digits of the byte under the cursor have been typed: 0 or
    /// 1.
    pub replacing_nibble: u8,
    /// The byte under the cursor before its first digit was typed.
    pub replacing_old: u8,
    /// The byte under the cursor with the first digit typed.
    pub replacing_new: u8,
    /// Whether the user asked to leave.
    pub quit_request: bool,
    /// The command line, while one is being typed.
    pub command_line: Option<Seq<char>>,
    /// A notice for the status line, shown until the next input.
    pub status_info: Option<(Seq<char>, Color)>,
    /// The places to jump back to, the latest last.
    pub jump_stack: Seq<u64>,
    /// Input that was read and put back, the next character first.
    pub unread: Seq<char>,
}

/// The length of the session's file.
pub open spec fn lof(s: Session) -> u64 {
    s.file.len() as u64
}

/// Whether the session is one that the events keep: the file is no longer
/// than `MAX_LEN`, window and cursor fit it, the log is well-formed, the
/// structure that is shown is one of those that there are, and a byte
/// that is being typed is under the cursor.
pub open spec fn valid(s: Session) -> bool {
    &&& s.file.len() <= MAX_LEN
    &&& s.view.wf(lof(s))
    &&& well_formed(s.log)
    &&& (s.active_struct matches Some(i) ==> i < s.structs.len())
    &&& s.replacing_nibble <= 1
    &&& (s.replacing_nibble == 1 ==> s.view.loc < s.file.len())
}

/// The session at its start: the cursor on the first byte, the window at
/// the top, the editor in the mode that only lets look, and nothing typed,
/// noted, remembered or put back.
pub open spec fn started(file: Seq<u8>, log: Log, structs: Seq<StructView>, height: u32) -> Session {
    Session {
        file,
        log,
        structs,
        active_struct: None,
        view: Viewport { base_offset: 0, loc: 0 },
        height,
        mode: Mode::Read,
        replacing_nibble: 0,
        replacing_old: 0,
        replacing_new: 0,
        quit_request: false,
        command_line: None,
        status_info: None,
        jump_stack: Seq::empty(),
        unread: Seq::empty(),
    }
}

/// The greater of two levels of drawing.
pub open spec fn more(a: Redraw, b: Redraw) -> Redraw {
    if a == Redraw::Full || b == Redraw::Full {
        Redraw::Full
    } else if a == Redraw::Status || b == Redraw::Status {
        Redraw::Status
    } else if a == Redraw::Cursor || b == Redraw::Cursor {
        Redraw::Cursor
    } else {
        Redraw::Nothing
    }
}

/// An outcome that asks for drawing only.
pub open spec fn draw(redraw: Redraw) -> Outcome {
    Outcome { redraw, persist: Persist::Nothing }
}

/// Where a movement takes window and cursor.
pub open spec fn moved_view(vp: Viewport, motion: Motion, lof: u64, height: u32) -> Viewport {
    match motion {
        Motion::Up => after_up(vp),
        Motion::Down => after_down(vp, lof, height),
        Motion::Right => after_right(vp, lof, height),
        Motion::Left => after_left(vp),
        Motion::PageUp => after_page_up(vp, height),
        Motion::PageDown => after_page_down(vp, lof, height),
        Motion::ScrollUp => after_scroll_up(vp, lof, height),
        Motion::ScrollDown => after_scroll_down(vp, lof, height),
        Motion::End => after_end(vp, lof),
        Motion::Home => after_home(vp),
    }
}

/// What a movement asks to be drawn: everything where the window moved
/// or a page was turned; after a turn of the wheel that moved nothing,
/// nothing; else the status line.
pub open spec fn moved_redraw(before: Viewport, after: Viewport, motion: Motion) -> Redraw {
    match motion {
        Motion::PageUp | Motion::PageDown | Motion::ScrollUp => Redraw::Full,
        Motion::ScrollDown => if after == before {
            Redraw::Nothing
        } else {
            Redraw::Full
        },
        _ => if after.base_offset != before.base_offset {
            Redraw::Full
        } else {
            Redraw::Status
        },
    }
}

/// The session with window and cursor at `vp`. A byte that was being
/// typed is given up.
pub open spec fn at(s: Session, vp: Viewport) -> Session {
    Session { view: vp, replacing_nibble: 0, ..s }
}

/// The session after a movement.
pub open spec fn moved(s: Session, motion: Motion) -> Session {
    at(s, moved_view(s.view, motion, lof(s), s.height))
}

/// The session after a jump to `position`: the place that is left is
/// remembered.
pub open spec fn went(s: Session, position: u64) -> Session {
    Session {
        jump_stack: s.jump_stack.push(s.view.loc),
        ..at(s, after_goto(s.view, position, lof(s), s.height))
    }
}

/// The session after a jump back to the place that was remembered last.
pub open spec fn jumped_back(s: Session) -> Result<Session, FaultView> {
    if s.jump_stack.len() == 0 {
        Err(FaultView::JumpStackEmpty)
    } else {
        Ok(
            Session {
                jump_stack: s.jump_stack.drop_last(),
                ..at(s, after_goto(s.view, s.jump_stack.last(), lof(s), s.height))
            },
        )
    }
}

/// The session after the display has changed its height: the cursor is
/// brought into view with the least movement.
pub open spec fn resized(s: Session, height: u32) -> Session {
    Session { height, view: after_bounds(s.view, lof(s), height, false), ..s }
}

/// The session after file and log are taken afresh from what is stored:
/// the cursor stays on its byte, or goes to the last byte where the file
/// now ends before it, and is brought into view; a byte that was being
/// typed is given up.
pub open spec fn reloaded(s: Session, file: Seq<u8>, log: Log) -> Session {
    let fresh = Session { file, log, ..s };
    at(
        fresh,
        after_bounds(
            placed(Viewport { base_offset: 0, loc: s.view.loc }, s.view.loc as int, lof(fresh)),
            lof(fresh),
            s.height,
            true,
        ),
    )
}

/// The session after a step of storing has failed: file and log are
/// taken afresh from what is stored, and the failure is on the status
/// line.
pub open spec fn store_failed(s: Session, step: StoreStep, cause: Seq<char>, file: Seq<u8>, log: Log) -> Session {
    Session {
        status_info: Some((store_failure_text(step, cause), Color::ErrorInfo)),
        ..reloaded(s, file, log)
    }
}

/// The session after a write from the log is replayed: the byte is
/// written, the log is settled, and the cursor jumps to the byte. A byte
/// that no file of `MAX_LEN` bytes holds, or that this machine cannot
/// address, is not written, and the log is left unsettled.
pub open spec fn replayed(s: Session, log: Log, address: u64, value: u8) -> (Session, Result<Outcome, FaultView>) {
    if address >= MAX_LEN || address >= usize::MAX {
        (Session { log, ..s }, Err(FaultView::Write(FileError::OutOfRange)))
    } else {
        (
            went(Session { file: written(s.file, address as int, value), log: settled(log), ..s }, address),
            Ok(Outcome { redraw: Redraw::Full, persist: Persist::Replay { address, value } }),
        )
    }
}

/// The session after an undo is asked for.
pub open spec fn undo_asked(s: Session) -> (Session, Result<Outcome, FaultView>) {
    if s.mode == Mode::Read {
        (s, Err(FaultView::ReadOnlyUndo))
    } else {
        match undo_write(s.log) {
            None => (s, Err(FaultView::NothingToUndo)),
            Some((address, value)) => replayed(s, undone(s.log), address, value),
        }
    }
}

/// The session after a redo is asked for.
pub open spec fn redo_asked(s: Session) -> (Session, Result<Outcome, FaultView>) {
    if s.mode == Mode::Read {
        (s, Err(FaultView::ReadOnlyRedo))
    } else {
        match redo_write(s.log) {
            None => (s, Err(FaultView::NothingToRedo)),
            Some((address, value)) => replayed(s, redone(s.log), address, value),
        }
    }
}

/// The index of the first structure with the given name.
pub open spec fn struct_index(structs: Seq<StructView>, name: Seq<char>) -> Option<usize> {
    if exists|i: int| 0 <= i < structs.len() && structs[i].name == name {
        Some(
            (choose|i: int|
                0 <= i < structs.len() && structs[i].name == name && forall|j: int|
                    0 <= j < i ==> structs[j].name != name) as usize,
        )
    } else {
        None
    }
}

/// The session after the structure of a name is asked for.
pub open spec fn struct_asked(s: Session, name: Seq<char>) -> (Session, Result<Outcome, FaultView>) {
    match struct_index(s.structs, name) {
        None => (s, Err(FaultView::UnknownStruct(name))),
        Some(i) => (Session { active_struct: Some(i), ..s }, Ok(draw(Redraw::Full))),
    }
}

/// The session after a hexadecimal digit is typed over the byte under the
/// cursor. The first digit replaces the high half of the byte and is kept
/// aside; the second replaces the low half, and the byte is entered in
/// the log, written and settled, and the cursor moves on. Where the
/// cursor is on no byte, nothing happens.
pub open spec fn digit_typed(s: Session, digit: u8) -> (Session, Outcome) {
    if s.view.loc >= s.file.len() {
        (s, draw(Redraw::Nothing))
    } else if s.replacing_nibble == 0 {
        let old = s.file[s.view.loc as int];
        (
            Session {
                replacing_nibble: 1,
                replacing_old: old,
                replacing_new: (digit * 16 + old % 16) as u8,
                ..s
            },
            draw(Redraw::Cursor),
        )
    } else {
        let new = (s.replacing_new / 16 * 16 + digit) as u8;
        let vp = after_right(s.view, lof(s), s.height);
        (
            Session {
                file: s.file.update(s.view.loc as int, new),
                log: settled(entered(s.log, s.view.loc, s.replacing_old, new)),
                view: vp,
                replacing_nibble: 0,
                ..s
            },
            Outcome {
                redraw: moved_redraw(s.view, vp, Motion::Right),
                persist: Persist::Change { address: s.view.loc, value: new },
            },
        )
    }
}

/// The session after the structure that is shown has been run at the
/// cursor, and the lines that it wrote. A program that fails leaves a
/// notice on the status line.
pub open spec fn annotated(s: Session) -> (Session, Seq<LineView>) {
    match s.active_struct {
        None => (s, Seq::empty()),
        Some(i) => {
            let report = run(
                s.structs[i as int].code,
                s.file,
                s.view.loc,
                s.height as nat,
                initial(0),
                u64::MAX as nat,
            );
            (
                match report.error {
                    Some(e) => Session {
                        status_info: Some(("struct: "@ + error_text(e), Color::ErrorInfo)),
                        ..s
                    },
                    None => s,
                },
                report.lines,
            )
        },
    }
}

/// A fault in words.
pub open spec fn fault_text(e: FaultView) -> Seq<char> {
    match e {
        FaultView::ReadOnlyUndo => "Cannot undo in read-only mode"@,
        FaultView::ReadOnlyRedo => "Cannot redo in read-only mode"@,
        FaultView::NothingToUndo => "Nothing to undo"@,
        FaultView::NothingToRedo => "Nothing to redo"@,
        FaultView::JumpStackEmpty => "Jump stack empty"@,
        FaultView::UnknownStruct(name) => "Unknown struct \u{201c}"@ + name + "\u{201d}"@,
        FaultView::Command(e) => command_error_text(e),
        FaultView::Mouse(seq, fault) => "Mouse input: "@ + seq + ": field "@ + numeral(fault.field as nat, 10)
            + ": "@ + fault.cause.text(),
        FaultView::Write(e) => "Write error: "@ + e.text(),
    }
}

/// The session with a fault put on the status line.
pub open spec fn noted(s: Session, e: FaultView) -> Session {
    Session { status_info: Some(("Error: "@ + fault_text(e), Color::ErrorInfo)), ..s }
}

/// The session and the outcome after an event that may have failed: a
/// fault goes to the status line, which is then drawn at the least.
pub open spec fn settled_event(r: (Session, Result<Outcome, FaultView>), least: Redraw) -> (Session, Outcome) {
    match r.1 {
        Ok(outcome) => (r.0, Outcome { redraw: more(outcome.redraw, least), ..outcome }),
        Err(e) => (noted(r.0, e), draw(Redraw::Status)),
    }
}

/// The session after a command line is entered.
pub open spec fn command_run(s: Session, line: Seq<char>) -> (Session, Result<Outcome, FaultView>) {
    match command_of(words(line)) {
        Err(e) => (s, Err(FaultView::Command(e))),
        Ok(CommandView::Nothing) => (s, Ok(draw(Redraw::Nothing))),
        Ok(CommandView::Goto(position)) => (went(s, position), Ok(draw(Redraw::Full))),
        Ok(CommandView::Quit) => (Session { quit_request: true, ..s }, Ok(draw(Redraw::Nothing))),
        Ok(CommandView::Undo) => undo_asked(s),
        Ok(CommandView::Redo) => redo_asked(s),
        Ok(CommandView::Struct(name)) => struct_asked(s, name),
    }
}

/// The session after a character is typed on the command line `line`.
/// Return runs the line; backspace takes the last character off, and
/// closes a line that has none; a control character is written as `^` and
/// a letter.
pub open spec fn command_typed(s: Session, line: Seq<char>, input: char) -> (Session, Outcome) {
    if input == '\n' {
        settled_event(command_run(Session { command_line: None, ..s }, line), Redraw::Status)
    } else if input == '\x7f' {
        (
            Session {
                command_line: if line.len() == 0 {
                    None
                } else {
                    Some(line.drop_last())
                },
                ..s
            },
            draw(Redraw::Status),
        )
    } else if (input as u32) < 0x20 {
        (
            Session { command_line: Some(line.push('^').push(((input as u32) + 64) as char)), ..s },
            draw(Redraw::Status),
        )
    } else {
        (Session { command_line: Some(line.push(input)), ..s }, draw(Redraw::Status))
    }
}

/// The session after a pointer report.
pub open spec fn pointed(s: Session, event: MouseEvent) -> (Session, Outcome) {
    match event {
        MouseEvent::Ignored => (s, draw(Redraw::Nothing)),
        MouseEvent::ScrollUp => (moved(s, Motion::ScrollUp), draw(Redraw::Full)),
        MouseEvent::ScrollDown => (
            moved(s, Motion::ScrollDown),
            draw(moved_redraw(s.view, moved(s, Motion::ScrollDown).view, Motion::ScrollDown)),
        ),
        MouseEvent::Press { x, y } => (
            at(s, after_click(s.view, x, y, lof(s), s.height)),
            draw(Redraw::Status),
        ),
    }
}

/// A key that an escape sequence starts with.
#[derive(Clone, Copy, Debug, PartialEq, Eq, Structural)]
pub enum Key {
    Move(Motion),
    /// To the last byte of the file.
    GotoEnd,
    /// To the first byte of the file.
    GotoStart,
    /// The escape key alone.
    Escape,
}

/// Whether `seq` starts with `prefix`.
pub open spec fn starts_with(seq: Seq<char>, prefix: Seq<char>) -> bool {
    seq.len() >= prefix.len() && seq.take(prefix.len() as int) == prefix
}

/// The key that an escape sequence starts with, and how many characters
/// it takes; none where the sequence starts with none that is known.
pub open spec fn key_of(seq: Seq<char>) -> Option<(Key, int)> {
    if starts_with(seq, seq!['[', 'A']) {
        Some((Key::Move(Motion::Up), 2))
    } else if starts_with(seq, seq!['[', 'B']) {
        Some((Key::Move(Motion::Down), 2))
    } else if starts_with(seq, seq!['[', 'C']) {
        Some((Key::Move(Motion::Right), 2))
    } else if starts_with(seq, seq!['[', 'D']) {
        Some((Key::Move(Motion::Left), 2))
    } else if starts_with(seq, seq!['[', 'F']) {
        Some((Key::Move(Motion::End), 2))
    } else if starts_with(seq, seq!['[', 'H']) {
        Some((Key::Move(Motion::Home), 2))
    } else if starts_with(seq, seq!['[', '5', '~']) {
        Some((Key::Move(Motion::PageUp), 3))
    } else if starts_with(seq, seq!['[', '6', '~']) {
        Some((Key::Move(Motion::PageDown), 3))
    } else if starts_with(seq, seq!['[', '1', ';', '5', 'F']) {
        Some((Key::GotoEnd, 5))
    } else if starts_with(seq, seq!['[', '1', ';', '5', 'H']) {
        Some((Key::GotoStart, 5))
    } else if seq.len() == 0 {
        Some((Key::Escape, 0))
    } else {
        None
    }
}

/// The session after a key.
pub open spec fn keyed(s: Session, key: Key) -> (Session, Outcome) {
    match key {
        Key::Move(motion) => (moved(s, motion), draw(moved_redraw(s.view, moved(s, motion).view, motion))),
        Key::GotoEnd => (went(s, u64::MAX), draw(Redraw::Full)),
        Key::GotoStart => (went(s, 0), draw(Redraw::Full)),
        Key::Escape => (Session { mode: Mode::Read, ..s }, draw(Redraw::Status)),
    }
}

/// The session after an escape sequence: a pointer report, or a key and
/// then whatever follows it, which is put back to be read again. A
/// sequence that starts with no known key is dropped.
pub open spec fn escaped(s: Session, seq: Seq<char>) -> (Session, Result<Outcome, FaultView>) {
    match reading(seq) {
        Some(Err(fault)) => (s, Err(FaultView::Mouse(seq, fault))),
        Some(Ok(event)) => (pointed(s, event).0, Ok(pointed(s, event).1)),
        None => match key_of(seq) {
            None => (s, Ok(draw(Redraw::Nothing))),
            Some((key, used)) => (
                Session { unread: keyed(s, key).0.unread + seq.skip(used), ..keyed(s, key).0 },
                Ok(keyed(s, key).1),
            ),
        },
    }
}

/// The session after a key outside the command line: `:` opens the
/// command line, `q` leaves, `u` and control-R undo and redo, `M` and `R`
/// set the mode, `t` remembers the place and control-T jumps back to it,
/// escape starts a sequence.
pub open spec fn key_typed(s: Session, input: char, seq: Seq<char>) -> (Session, Result<Outcome, FaultView>) {
    if input == '\x12' {
        redo_asked(s)
    } else if input == '\x14' {
        match jumped_back(s) {
            Ok(next) => (next, Ok(draw(Redraw::Full))),
            Err(e) => (s, Err(e)),
        }
    } else if input == ':' {
        (Session { command_line: Some(Seq::empty()), ..s }, Ok(draw(Redraw::Status)))
    } else if input == 'M' {
        (Session { mode: Mode::Modify, ..s }, Ok(draw(Redraw::Status)))
    } else if input == 'q' {
        (Session { quit_request: true, ..s }, Ok(draw(Redraw::Nothing)))
    } else if input == 'R' {
        (Session { mode: Mode::Replace, ..s }, Ok(draw(Redraw::Status)))
    } else if input == 't' {
        (Session { jump_stack: s.jump_stack.push(s.view.loc), ..s }, Ok(draw(Redraw::Nothing)))
    } else if input == 'u' {
        undo_asked(s)
    } else if input == '\x1b' {
        escaped(s, seq)
    } else {
        (s, Ok(draw(Redraw::Nothing)))
    }
}

/// Whether a character is a hexadecimal digit.
pub open spec fn is_hex(input: char) -> bool {
    digit_value(input) matches Some(d) && d < 16
}

/// The session after one piece of input: a character, with the sequence
/// that followed it where it is an escape, or the end of input. The end
/// of input asks to leave. Any input takes the notice off the status
/// line. While a command line is open the character goes to it; in
/// replace mode a hexadecimal digit is typed over the byte under the
/// cursor; anything else is a key.
pub open spec fn input_handled(s: Session, input: Option<char>, seq: Seq<char>) -> (Session, Outcome) {
    match input {
        None => (Session { quit_request: true, ..s }, draw(Redraw::Nothing)),
        Some(c) => {
            let cleared = Session { status_info: None, ..s };
            match s.command_line {
                Some(line) => command_typed(cleared, line, c),
                None => if s.mode == Mode::Replace && is_hex(c) {
                    digit_typed(cleared, digit_value(c)->0 as u8)
                } else {
                    settled_event(key_typed(cleared, c, seq), Redraw::Nothing)
                },
            }
        },
    }
}

/// The byte to show at `offset`: the file's, or, under the cursor while a
/// byte is being typed, that byte as far as it is typed.
pub open spec fn shown(s: Session, offset: int) -> Option<u8> {
    if offset < 0 || offset >= s.file.len() {
        None
    } else if s.replacing_nibble == 1 && offset == s.view.loc {
        Some(s.replacing_new)
    } else {
        Some(s.file[offset])
    }
}

/// Where the visible bytes end.
pub open spec fn window_end(s: Session) -> int {
    end_of(s.view.base_offset as int, s.file.len() as int, s.height)
}

/// The sixteen bytes of the row that starts at `base`, as far as they are
/// visible.
pub open spec fn row_cells(s: Session, base: u64) -> Seq<Option<u8>> {
    Seq::new(
        16,
        |i: int|
            if base + i < window_end(s) {
                shown(s, base + i)
            } else {
                None
            },
    )
}

/// What the row that starts at `base` says; nothing where the window has
/// no such row. The row of the cursor is the active line, and the byte
/// under the cursor the active character unless a command line is open.
pub open spec fn row_drawn(s: Session, base: u64) -> Seq<PieceView> {
    if base < s.view.base_offset || base >= window_end(s) || base % 16 != 0 {
        Seq::empty()
    } else {
        let active = line_of(s.view.loc as int) == base;
        row_pieces(
            base,
            row_cells(s, base),
            active,
            if active && s.command_line is None {
                Some(s.view.loc - base)
            } else {
                None
            },
        )
    }
}

/// How many rows of the window show bytes of the file.
pub open spec fn rows_shown(s: Session) -> int {
    if window_end(s) <= s.view.base_offset {
        0
    } else {
        (window_end(s) - s.view.base_offset + 15) / 16
    }
}

/// What the rows of the window say, from the top.
pub open spec fn rows_drawn(s: Session) -> Seq<Seq<PieceView>> {
    Seq::new(rows_shown(s) as nat, |r: int| row_drawn(s, (s.view.base_offset + 16 * r) as u64))
}

/// The name of a mode on the status line.
pub open spec fn mode_name(mode: Mode) -> Seq<char> {
    match mode {
        Mode::Read => "READ-ONLY"@,
        Mode::Modify => "MODIFY"@,
        Mode::Replace => "REPLACE"@,
    }
}

/// The role of a mode on the status line.
pub open spec fn mode_color(mode: Mode) -> Color {
    match mode {
        Mode::Read => Color::StatusModeRead,
        Mode::Modify => Color::StatusModeModify,
        Mode::Replace => Color::StatusModeReplace,
    }
}

/// The line that parts the rows of bytes from the status line.
pub open spec fn rule() -> Seq<char> {
    Seq::new(89, |i: int| '\u{2500}').push('\n')
}

/// The cursor's offset as the status line shows it.
pub open spec fn loc_text(loc: u64) -> Seq<char> {
    seq!['0', 'x'] + numeral(loc as nat, 16)
}

/// What the status line says, below the rule: the notice, if there is
/// one; else the command line, if one is open; else the mode to the right
/// of sixteen columns and the cursor's offset to the right of the last
/// eighteen of eighty-nine.
pub open spec fn status_pieces(s: Session) -> Seq<PieceView> {
    seq![PieceView::Text(rule())] + (match s.status_info {
        Some((text, color)) => seq![
            PieceView::On(color),
            PieceView::Text(left_aligned(text, 89)),
            PieceView::Off(color),
        ],
        None => match s.command_line {
            Some(line) => seq![PieceView::Text(seq![':'] + left_aligned(line, 88))],
            None => seq![
                PieceView::Text(spaces(16 - mode_name(s.mode).len())),
                PieceView::On(mode_color(s.mode)),
                PieceView::Text(mode_name(s.mode)),
                PieceView::Off(mode_color(s.mode)),
                PieceView::Text(spaces(55)),
                PieceView::Text(spaces(18 - loc_text(s.view.loc).len())),
                PieceView::On(Color::StatusLoc),
                PieceView::Text(loc_text(s.view.loc)),
                PieceView::Off(Color::StatusLoc),
            ],
        },
    })
}

/// The column and the row of the terminal's cursor, both counted from 0:
/// behind the command line while one is open (as far as 64 bits count),
/// else on the digit that is typed next of the byte under the cursor.
/// There is none while the cursor is above the window.
pub open spec fn cursor_cell(s: Session) -> Option<(int, int)> {
    if s.view.loc < s.view.base_offset {
        None
    } else {
        match s.command_line {
            Some(line) => Some(
                (
                    if line.len() < u64::MAX {
                        line.len() as int + 1
                    } else {
                        u64::MAX as int
                    },
                    if s.height > 0 {
                        s.height - 1
                    } else {
                        0
                    },
                ),
            ),
            None => Some(
                (
                    column_of(s.view.loc as int % 16) + s.replacing_nibble + 19,
                    (s.view.loc - s.view.base_offset) / 16,
                ),
            ),
        }
    }
}

/// A byte that was typed over is taken back by an undo and brought back
/// by a redo: after two digits are typed in replace mode and an undo is
/// asked for, the file is what it was before, with the cursor on the
/// byte; a redo then makes the file what it was after the typing.
pub proof fn lemma_typed_byte_is_undone(s: Session, first: u8, second: u8)
    requires
        valid(s),
        s.file.len() <= usize::MAX,
        s.mode == Mode::Replace,
        s.replacing_nibble == 0,
        s.view.loc < s.file.len(),
        first < 16,
        second < 16,
    ensures
        ({
            let typed = digit_typed(digit_typed(s, first).0, second).0;
            let back = undo_asked(typed);
            let again = redo_asked(back.0);
            &&& typed.file == s.file.update(s.view.loc as int, (first * 16 + second) as u8)
            &&& back.1 == Ok::<Outcome, FaultView>(
                Outcome {
                    redraw: Redraw::Full,
                    persist: Persist::Replay { address: s.view.loc, value: s.file[s.view.loc as int] },
                },
            )
            &&& back.0.file == s.file
            &&& back.0.view.loc == s.view.loc
            &&& again.1 == Ok::<Outcome, FaultView>(
                Outcome {
                    redraw: Redraw::Full,
                    persist: Persist::Replay { address: s.view.loc, value: (first * 16 + second) as u8 },
                },
            )
            &&& again.0.file == typed.file
        }),
{
    let loc = s.view.loc;
    let old = s.file[loc as int];
    let half = digit_typed(s, first).0;
    let new = (half.replacing_new / 16 * 16 + second) as u8;
    assert(new == first * 16 + second);
    let typed = digit_typed(half, second).0;
    let entry = entered(s.log, loc, old, new);
    lemma_enter(s.log, loc, old, new);
    lemma_settle(entry);
    assert(typed.log == settled(entry));
    lemma_undo(typed.log);
    lemma_redo_after_undo(typed.log);
    let back = undo_asked(typed);
    assert(undo_write(typed.log) == Some((loc, old)));
    assert(written(typed.file, loc as int, old) =~= s.file);
    lemma_settle(undone(typed.log));
    let stepped = settled(undone(typed.log));
    assert(back.0.log == stepped);
    crate::undo_file::lemma_redo(undone(typed.log));
    crate::undo_file::lemma_redo(stepped);
    assert(redo_write(stepped) == Some((loc, new)));
    assert(written(s.file, loc as int, new) =~= typed.file);
}

} // verus!
