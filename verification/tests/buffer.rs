use butterfly::buffer::{failure_text, more_of, read_key, steps_of, Buffer, Fault, SetupError};
use butterfly::display::Color;
use butterfly::file::{File, FileError};
use butterfly::mouse::MouseEvent;
use butterfly::session::{Key, Mode, Motion, Outcome, Persist, Redraw, StoreStep};
use butterfly::structs::{Line, Struct, StructCode, Structs};
use butterfly::undo_file::UndoFile;
use butterfly::viewport::Viewport;

fn session(bytes: Vec<u8>, height: u32) -> Buffer {
    let mut show = Vec::new();
    // show the byte under the cursor
    show.push(0x14);
    show.push(0x14);
    show.extend_from_slice(&[0x18, 0x06]);
    show.push(0x12);
    show.extend_from_slice(&4u64.to_le_bytes());
    show.extend_from_slice(b"byte");
    show.extend_from_slice(&[0x28, 0x00, 16]);
    let structs = Structs::load(vec![
        Struct::new(String::from("byte"), StructCode::new(show)),
        Struct::new(String::from("broken"), StructCode::new(vec![0x82])),
    ]);
    Buffer::new(File::new(bytes), UndoFile::new(Vec::new()).unwrap(), structs, height).unwrap()
}

fn ramp(len: usize) -> Vec<u8> {
    (0..len).map(|i| i as u8).collect()
}

fn key(buffer: &mut Buffer, c: char) -> Outcome {
    buffer.handle_input(Some(c), "")
}

fn escape(buffer: &mut Buffer, seq: &str) -> Outcome {
    buffer.handle_input(Some('\x1b'), seq)
}

fn line(buffer: &mut Buffer, text: &str) -> Outcome {
    key(buffer, ':');
    for c in text.chars() {
        key(buffer, c);
    }
    key(buffer, '\n')
}

fn draw(redraw: Redraw) -> Outcome {
    Outcome { redraw, persist: Persist::Nothing }
}

fn status(buffer: &Buffer) -> Option<(String, Color)> {
    buffer.status_info().clone()
}

fn at(base_offset: u64, loc: u64) -> Viewport {
    Viewport { base_offset, loc }
}

#[test]
fn a_new_session() {
    let buffer = session(ramp(40), 4);
    assert!(!buffer.should_quit());
    assert_eq!(buffer.viewport(), at(0, 0));
    assert_eq!(buffer.mode(), Mode::Read);
    assert_eq!(buffer.height(), 4);
    assert_eq!(buffer.command_line(), &None);
    assert_eq!(buffer.status_info(), &None);
    assert_eq!(buffer.file().len(), 40);
    assert_eq!(buffer.undo_file().position(), 16);
    assert_eq!(buffer.replacing_nibble(), 0);
}

#[test]
fn goto_40_byte_file_two_rows() {
    let mut buffer = session(ramp(40), 4);
    assert_eq!(buffer.do_goto(0x25), draw(Redraw::Full));
    assert_eq!(buffer.viewport(), at(16, 0x25));
    // nothing to undo: the file is as it was
    key(&mut buffer, 'M');
    assert_eq!(buffer.cmd_undo(), Err(Fault::NothingToUndo));
    assert_eq!(buffer.file().bytes(), &ramp(40));
    assert_eq!(Fault::NothingToUndo.message(), "Nothing to undo");
}

#[test]
fn end_of_input_asks_to_leave() {
    let mut buffer = session(ramp(40), 4);
    assert_eq!(buffer.handle_input(None, ""), draw(Redraw::Nothing));
    assert!(buffer.should_quit());
    let mut buffer = session(ramp(40), 4);
    assert_eq!(key(&mut buffer, 'q'), draw(Redraw::Nothing));
    assert!(buffer.should_quit());
}

#[test]
fn keys_set_the_mode() {
    let mut buffer = session(ramp(40), 4);
    assert_eq!(key(&mut buffer, 'M'), draw(Redraw::Status));
    assert_eq!(buffer.mode(), Mode::Modify);
    assert_eq!(key(&mut buffer, 'R'), draw(Redraw::Status));
    assert_eq!(buffer.mode(), Mode::Replace);
    assert_eq!(escape(&mut buffer, ""), draw(Redraw::Status));
    assert_eq!(buffer.mode(), Mode::Read);
    assert_eq!(key(&mut buffer, 'x'), draw(Redraw::Nothing));
    assert_eq!(buffer.mode(), Mode::Read);
}

#[test]
fn arrow_keys_move() {
    let mut buffer = session(ramp(0x100), 6);
    assert_eq!(escape(&mut buffer, "[B"), draw(Redraw::Status));
    assert_eq!(buffer.viewport(), at(0, 0x10));
    assert_eq!(escape(&mut buffer, "[C"), draw(Redraw::Status));
    assert_eq!(buffer.viewport(), at(0, 0x11));
    assert_eq!(escape(&mut buffer, "[F"), draw(Redraw::Status));
    assert_eq!(buffer.viewport(), at(0, 0x1f));
    assert_eq!(escape(&mut buffer, "[H"), draw(Redraw::Status));
    assert_eq!(buffer.viewport(), at(0, 0x10));
    assert_eq!(escape(&mut buffer, "[D"), draw(Redraw::Status));
    assert_eq!(buffer.viewport(), at(0, 0x0f));
    assert_eq!(escape(&mut buffer, "[A"), draw(Redraw::Status));
    assert_eq!(buffer.viewport(), at(0, 0x0f));
    assert_eq!(escape(&mut buffer, "[6~"), draw(Redraw::Full));
    assert_eq!(buffer.viewport(), at(0x40, 0x4f));
    assert_eq!(escape(&mut buffer, "[5~"), draw(Redraw::Full));
    assert_eq!(buffer.viewport(), at(0, 0x0f));
    assert_eq!(escape(&mut buffer, "[1;5F"), draw(Redraw::Full));
    assert_eq!(buffer.viewport(), at(0xc0, 0xff));
    assert_eq!(escape(&mut buffer, "[1;5H"), draw(Redraw::Full));
    assert_eq!(buffer.viewport(), at(0, 0));
}

#[test]
fn moving_out_of_the_window_draws_everything() {
    let mut buffer = session(ramp(0x100), 6);
    buffer.do_goto(0x30);
    assert_eq!(buffer.viewport(), at(0, 0x30));
    assert_eq!(escape(&mut buffer, "[B"), draw(Redraw::Full));
    assert_eq!(buffer.viewport(), at(0x10, 0x40));
    assert_eq!(buffer.motion(Motion::Up), draw(Redraw::Status));
    assert_eq!(buffer.motion(Motion::Up), draw(Redraw::Status));
    assert_eq!(buffer.motion(Motion::Up), draw(Redraw::Status));
    assert_eq!(buffer.motion(Motion::Up), draw(Redraw::Full));
    assert_eq!(buffer.viewport(), at(0, 0));
}

#[test]
fn what_follows_a_key_is_put_back() {
    let mut buffer = session(ramp(0x100), 6);
    assert_eq!(escape(&mut buffer, "[Bq:"), draw(Redraw::Status));
    assert_eq!(buffer.viewport(), at(0, 0x10));
    assert_eq!(buffer.readchar(), Some('q'));
    assert_eq!(buffer.readchar(), Some(':'));
    assert_eq!(buffer.readchar(), None);
    buffer.unreadchar('a');
    buffer.unreadchar('b');
    assert_eq!(buffer.readchar(), Some('a'));
    assert_eq!(buffer.readchar(), Some('b'));
    // an unknown sequence is dropped whole
    assert_eq!(escape(&mut buffer, "[Zq"), draw(Redraw::Nothing));
    assert_eq!(buffer.readchar(), None);
}

#[test]
fn keys_of_escape_sequences() {
    let of = |s: &str| read_key(&s.chars().collect());
    assert_eq!(of("[A"), Some((Key::Move(Motion::Up), 2)));
    assert_eq!(of("[Bxyz"), Some((Key::Move(Motion::Down), 2)));
    assert_eq!(of("[5~"), Some((Key::Move(Motion::PageUp), 3)));
    assert_eq!(of("[6~[A"), Some((Key::Move(Motion::PageDown), 3)));
    assert_eq!(of("[1;5F"), Some((Key::GotoEnd, 5)));
    assert_eq!(of("[1;5H"), Some((Key::GotoStart, 5)));
    assert_eq!(of(""), Some((Key::Escape, 0)));
    assert_eq!(of("["), None);
    assert_eq!(of("[5"), None);
    assert_eq!(of("[1;5"), None);
    assert_eq!(of("A"), None);
}

#[test]
fn typing_over_a_byte() {
    let mut buffer = session(ramp(40), 4);
    buffer.do_goto(5);
    key(&mut buffer, 'R');
    assert_eq!(key(&mut buffer, 'a'), draw(Redraw::Cursor));
    assert_eq!(buffer.replacing_nibble(), 1);
    assert_eq!(buffer.byte_shown(5), Some(0xa5));
    assert_eq!(buffer.byte_shown(4), Some(4));
    assert_eq!(buffer.byte_shown(40), None);
    assert_eq!(buffer.file().read_u8(5), Ok(5));
    assert_eq!(
        key(&mut buffer, 'F'),
        Outcome { redraw: Redraw::Status, persist: Persist::Change { address: 5, value: 0xaf } }
    );
    assert_eq!(buffer.replacing_nibble(), 0);
    assert_eq!(buffer.file().read_u8(5), Ok(0xaf));
    assert_eq!(buffer.viewport(), at(0, 6));
    // entered and settled
    let log = buffer.undo_file();
    assert_eq!(log.position(), 32);
    assert_eq!(&log.storage()[8..16], &32u64.to_le_bytes());
    assert_eq!(&log.storage()[16..26], &[5, 0, 0, 0, 0, 0, 0, 0, 5, 0xaf]);
    // what is no digit is a key
    assert_eq!(key(&mut buffer, 'g'), draw(Redraw::Nothing));
    assert_eq!(buffer.file().read_u8(6), Ok(6));
}

#[test]
fn moving_gives_up_a_half_typed_byte() {
    let mut buffer = session(ramp(40), 4);
    key(&mut buffer, 'R');
    key(&mut buffer, '7');
    assert_eq!(buffer.byte_shown(0), Some(0x70));
    escape(&mut buffer, "[C");
    assert_eq!(buffer.replacing_nibble(), 0);
    assert_eq!(buffer.byte_shown(0), Some(0));
    key(&mut buffer, '1');
    key(&mut buffer, '2');
    assert_eq!(buffer.file().bytes()[..3], [0, 0x12, 2]);
}

#[test]
fn digits_are_keys_outside_replace_mode() {
    let mut buffer = session(ramp(40), 4);
    assert_eq!(key(&mut buffer, '7'), draw(Redraw::Nothing));
    key(&mut buffer, 'M');
    assert_eq!(key(&mut buffer, '7'), draw(Redraw::Nothing));
    assert_eq!(buffer.file().bytes(), &ramp(40));
    let mut empty = session(Vec::new(), 4);
    key(&mut empty, 'R');
    assert_eq!(key(&mut empty, '7'), draw(Redraw::Nothing));
    assert_eq!(empty.replacing_nibble(), 0);
}

#[test]
fn undo_and_redo_through_the_session() {
    let mut buffer = session(ramp(0x100), 6);
    key(&mut buffer, 'R');
    buffer.do_goto(0x80);
    key(&mut buffer, 'f');
    key(&mut buffer, 'f');
    buffer.do_goto(0);
    key(&mut buffer, 'e');
    key(&mut buffer, 'e');
    assert_eq!(buffer.file().read_u8(0x80), Ok(0xff));
    assert_eq!(buffer.file().read_u8(0), Ok(0xee));
    assert_eq!(
        key(&mut buffer, 'u'),
        Outcome { redraw: Redraw::Full, persist: Persist::Replay { address: 0, value: 0 } }
    );
    assert_eq!(buffer.viewport().loc, 0);
    assert_eq!(
        key(&mut buffer, 'u'),
        Outcome { redraw: Redraw::Full, persist: Persist::Replay { address: 0x80, value: 0x80 } }
    );
    assert_eq!(buffer.viewport().loc, 0x80);
    assert_eq!(buffer.file().bytes(), &ramp(0x100));
    assert_eq!(buffer.undo_file().position(), 16);
    assert_eq!(key(&mut buffer, 'u'), draw(Redraw::Status));
    assert_eq!(status(&buffer), Some((String::from("Error: Nothing to undo"), Color::ErrorInfo)));
    assert_eq!(
        key(&mut buffer, '\x12'),
        Outcome { redraw: Redraw::Full, persist: Persist::Replay { address: 0x80, value: 0xff } }
    );
    assert_eq!(status(&buffer), None);
    assert_eq!(buffer.file().read_u8(0x80), Ok(0xff));
    assert_eq!(buffer.undo_file().position(), 32);
    assert_eq!(&buffer.undo_file().storage()[8..16], &32u64.to_le_bytes());
    // a new change discards what could be redone
    buffer.do_goto(1);
    key(&mut buffer, '0');
    key(&mut buffer, '0');
    assert_eq!(buffer.cmd_redo(), Err(Fault::NothingToRedo));
    assert_eq!(buffer.undo_file().len(), 48);
}

#[test]
fn undo_and_redo_are_refused_in_read_mode() {
    let mut buffer = session(ramp(40), 4);
    assert_eq!(buffer.cmd_undo(), Err(Fault::ReadOnlyUndo));
    assert_eq!(buffer.cmd_redo(), Err(Fault::ReadOnlyRedo));
    assert_eq!(Fault::ReadOnlyUndo.message(), "Cannot undo in read-only mode");
    assert_eq!(Fault::ReadOnlyRedo.message(), "Cannot redo in read-only mode");
    assert_eq!(key(&mut buffer, 'u'), draw(Redraw::Status));
    assert_eq!(
        status(&buffer),
        Some((String::from("Error: Cannot undo in read-only mode"), Color::ErrorInfo))
    );
    assert_eq!(line(&mut buffer, "redo"), draw(Redraw::Status));
    assert_eq!(
        status(&buffer),
        Some((String::from("Error: Cannot redo in read-only mode"), Color::ErrorInfo))
    );
}

#[test]
fn replay_of_a_foreign_log() {
    // a log whose only record names an address that no file has
    let mut log = b"undo\0\0\0\0".to_vec();
    log.extend_from_slice(&32u64.to_le_bytes());
    log.extend_from_slice(&u64::MAX.to_le_bytes());
    log.extend_from_slice(&[1, 2, 0, 0, 0, 0, 0, 0]);
    let mut buffer =
        Buffer::new(File::new(ramp(40)), UndoFile::new(log).unwrap(), Structs::load(Vec::new()), 4).unwrap();
    buffer.cmd_modify_mode();
    assert_eq!(buffer.cmd_undo(), Err(Fault::Write(FileError::OutOfRange)));
    assert_eq!(Fault::Write(FileError::OutOfRange).message(), "Write error: Offset out of range");
    assert_eq!(buffer.file().bytes(), &ramp(40));
    // the log stepped back and was not settled
    assert_eq!(buffer.undo_file().position(), 16);
    assert_eq!(&buffer.undo_file().storage()[8..16], &32u64.to_le_bytes());
}

#[test]
fn replay_grows_the_file() {
    let mut log = b"undo\0\0\0\0".to_vec();
    log.extend_from_slice(&16u64.to_le_bytes());
    log.extend_from_slice(&42u64.to_le_bytes());
    log.extend_from_slice(&[1, 2, 0, 0, 0, 0, 0, 0]);
    let mut buffer =
        Buffer::new(File::new(ramp(40)), UndoFile::new(log).unwrap(), Structs::load(Vec::new()), 4).unwrap();
    buffer.cmd_modify_mode();
    assert_eq!(
        buffer.cmd_redo(),
        Ok(Outcome { redraw: Redraw::Full, persist: Persist::Replay { address: 42, value: 2 } })
    );
    assert_eq!(buffer.file().len(), 43);
    assert_eq!(buffer.file().bytes()[39..], [39, 0, 0, 2]);
    assert_eq!(buffer.viewport(), at(16, 42));
}

#[test]
fn command_line_editing() {
    let mut buffer = session(ramp(0x100), 6);
    assert_eq!(key(&mut buffer, ':'), draw(Redraw::Status));
    assert_eq!(buffer.command_line(), &Some(String::new()));
    assert_eq!(key(&mut buffer, 'g'), draw(Redraw::Status));
    key(&mut buffer, 'x');
    assert_eq!(buffer.command_line(), &Some(String::from("gx")));
    key(&mut buffer, '\x7f');
    assert_eq!(buffer.command_line(), &Some(String::from("g")));
    key(&mut buffer, '\x01');
    assert_eq!(buffer.command_line(), &Some(String::from("g^A")));
    key(&mut buffer, '\x1b');
    assert_eq!(buffer.command_line(), &Some(String::from("g^A^[")));
    for _ in 0..5 {
        key(&mut buffer, '\x7f');
    }
    assert_eq!(buffer.command_line(), &Some(String::new()));
    assert_eq!(key(&mut buffer, '\x7f'), draw(Redraw::Status));
    assert_eq!(buffer.command_line(), &None);
    // keys are commands again
    key(&mut buffer, 'q');
    assert!(buffer.should_quit());
}

#[test]
fn command_line_keys_are_text() {
    let mut buffer = session(ramp(0x100), 6);
    key(&mut buffer, 'R');
    key(&mut buffer, ':');
    key(&mut buffer, 'q');
    key(&mut buffer, '7');
    assert!(!buffer.should_quit());
    assert_eq!(buffer.command_line(), &Some(String::from("q7")));
    assert_eq!(buffer.file().bytes(), &ramp(0x100));
}

#[test]
fn commands_from_the_command_line() {
    let mut buffer = session(ramp(0x100), 6);
    assert_eq!(line(&mut buffer, "goto 0x80"), draw(Redraw::Full));
    assert_eq!(buffer.command_line(), &None);
    assert_eq!(buffer.viewport(), at(0x60, 0x80));
    assert_eq!(line(&mut buffer, "g end"), draw(Redraw::Full));
    assert_eq!(buffer.viewport().loc, 0xff);
    assert_eq!(line(&mut buffer, ""), draw(Redraw::Status));
    assert_eq!(line(&mut buffer, "nonsense"), draw(Redraw::Status));
    assert_eq!(
        status(&buffer),
        Some((String::from("Error: Unknown command \u{201c}nonsense\u{201d}"), Color::ErrorInfo))
    );
    assert_eq!(line(&mut buffer, "goto 12z"), draw(Redraw::Status));
    assert_eq!(
        status(&buffer),
        Some((String::from("Error: 12z: invalid digit found in string"), Color::ErrorInfo))
    );
    assert_eq!(buffer.viewport().loc, 0xff);
    assert_eq!(line(&mut buffer, "goto"), draw(Redraw::Status));
    assert_eq!(
        status(&buffer),
        Some((String::from("Error: Usage: goto <address|start|end>"), Color::ErrorInfo))
    );
    // the next input takes the notice away
    key(&mut buffer, 'x');
    assert_eq!(status(&buffer), None);
    assert_eq!(line(&mut buffer, "quit"), draw(Redraw::Status));
    assert!(buffer.should_quit());
}

#[test]
fn execute_cmdline_gives_the_fault() {
    let mut buffer = session(ramp(0x100), 6);
    assert_eq!(buffer.execute_cmdline(String::from("goto 7")), Ok(draw(Redraw::Full)));
    assert_eq!(buffer.execute_cmdline(String::from("undo")), Err(Fault::ReadOnlyUndo));
    assert_eq!(
        buffer.execute_cmdline(String::from("struct nope")),
        Err(Fault::UnknownStruct(String::from("nope")))
    );
    assert_eq!(Fault::UnknownStruct(String::from("nope")).message(), "Unknown struct \u{201c}nope\u{201d}");
    assert!(matches!(buffer.execute_cmdline(String::from("x")), Err(Fault::Command(_))));
}

#[test]
fn jump_stack() {
    let mut buffer = session(ramp(0x100), 6);
    assert_eq!(buffer.cmd_jump_back(), Err(Fault::JumpStackEmpty));
    assert_eq!(Fault::JumpStackEmpty.message(), "Jump stack empty");
    buffer.do_goto(0x80);
    buffer.do_goto(0x20);
    assert_eq!(key(&mut buffer, '\x14'), draw(Redraw::Full));
    assert_eq!(buffer.viewport().loc, 0x80);
    assert_eq!(key(&mut buffer, '\x14'), draw(Redraw::Full));
    assert_eq!(buffer.viewport().loc, 0);
    assert_eq!(key(&mut buffer, '\x14'), draw(Redraw::Status));
    assert_eq!(status(&buffer), Some((String::from("Error: Jump stack empty"), Color::ErrorInfo)));
    escape(&mut buffer, "[B");
    assert_eq!(key(&mut buffer, 't'), draw(Redraw::Nothing));
    buffer.motion(Motion::PageDown);
    key(&mut buffer, '\x14');
    assert_eq!(buffer.viewport().loc, 0x10);
}

#[test]
fn pointer_reports_through_the_session() {
    let mut buffer = session(ramp(0x1000), 25);
    assert_eq!(escape(&mut buffer, "[<0;33;3M"), draw(Redraw::Status));
    assert_eq!(buffer.viewport(), at(0, 0x24));
    assert_eq!(escape(&mut buffer, "[<0;33;3m"), draw(Redraw::Nothing));
    assert_eq!(escape(&mut buffer, "[<65;33;3M"), draw(Redraw::Full));
    assert_eq!(buffer.viewport(), at(0x100, 0x104));
    assert_eq!(escape(&mut buffer, "[96;33;3M"), draw(Redraw::Full));
    assert_eq!(buffer.viewport(), at(0, 0x104));
    // a click between two bytes
    assert_eq!(escape(&mut buffer, "[<0;22;3M"), draw(Redraw::Status));
    assert_eq!(buffer.viewport(), at(0, 0x104));
    assert_eq!(escape(&mut buffer, "[<4294967296;1;1M"), draw(Redraw::Status));
    assert_eq!(
        status(&buffer),
        Some((
            String::from("Error: Mouse input: [<4294967296;1;1M: field 1: number too large to fit in target type"),
            Color::ErrorInfo
        ))
    );
    assert_eq!(buffer.handle_mouse(MouseEvent::Press { x: 74, y: 0 }), draw(Redraw::Status));
    assert_eq!(buffer.viewport(), at(0, 0));
    assert_eq!(buffer.handle_mouse(MouseEvent::ScrollDown), draw(Redraw::Full));
}

#[test]
fn wheel_at_the_end_draws_nothing() {
    let mut buffer = session(ramp(0x40), 25);
    assert_eq!(buffer.handle_mouse(MouseEvent::ScrollDown), draw(Redraw::Nothing));
    assert_eq!(buffer.handle_mouse(MouseEvent::ScrollUp), draw(Redraw::Full));
    assert_eq!(buffer.handle_mouse(MouseEvent::Ignored), draw(Redraw::Nothing));
}

#[test]
fn a_click_gives_up_a_half_typed_byte() {
    let mut buffer = session(ramp(0x100), 25);
    key(&mut buffer, 'R');
    key(&mut buffer, 'f');
    escape(&mut buffer, "[<0;33;3M");
    assert_eq!(buffer.replacing_nibble(), 0);
    key(&mut buffer, '1');
    key(&mut buffer, '2');
    assert_eq!(buffer.file().read_u8(0), Ok(0));
    assert_eq!(buffer.file().read_u8(0x24), Ok(0x12));
}

#[test]
fn annotations_follow_the_cursor() {
    let mut buffer = session(ramp(0x100), 6);
    assert_eq!(buffer.update_struct(), Vec::<Line>::new());
    assert_eq!(line(&mut buffer, "struct byte"), draw(Redraw::Full));
    assert_eq!(buffer.update_struct(), vec![Line::Text(String::from("byte: 0"))]);
    buffer.do_goto(0xab);
    assert_eq!(buffer.update_struct(), vec![Line::Text(String::from("byte: 0xab"))]);
    assert_eq!(status(&buffer), None);
    assert_eq!(buffer.cmd_struct(String::from("broken")), Ok(draw(Redraw::Full)));
    assert_eq!(buffer.update_struct(), Vec::<Line>::new());
    assert_eq!(status(&buffer), Some((String::from("struct: Stack ran out"), Color::ErrorInfo)));
    assert_eq!(line(&mut buffer, "struct missing"), draw(Redraw::Status));
    assert_eq!(
        status(&buffer),
        Some((String::from("Error: Unknown struct \u{201c}missing\u{201d}"), Color::ErrorInfo))
    );
}

#[test]
fn resize_brings_the_cursor_into_view() {
    let mut buffer = session(ramp(0x1000), 25);
    buffer.do_goto(0x800);
    buffer.motion(Motion::Down);
    buffer.motion(Motion::Down);
    let before = buffer.viewport();
    assert_eq!(buffer.term_update(25), draw(Redraw::Full));
    assert_eq!(buffer.viewport(), before);
    assert_eq!(buffer.term_update(4), draw(Redraw::Full));
    assert_eq!(buffer.height(), 4);
    assert_eq!(buffer.viewport(), at(0x810, 0x820));
    assert_eq!(buffer.term_update(0), draw(Redraw::Full));
    assert_eq!(buffer.viewport().loc, 0x820);
}

#[test]
fn set_status_and_more() {
    let mut buffer = session(ramp(4), 4);
    buffer.set_status(String::from("note"), Color::Highlight);
    assert_eq!(status(&buffer), Some((String::from("note"), Color::Highlight)));
    assert_eq!(more_of(Redraw::Nothing, Redraw::Cursor), Redraw::Cursor);
    assert_eq!(more_of(Redraw::Status, Redraw::Cursor), Redraw::Status);
    assert_eq!(more_of(Redraw::Status, Redraw::Full), Redraw::Full);
    assert_eq!(more_of(Redraw::Nothing, Redraw::Nothing), Redraw::Nothing);
    assert_eq!(buffer.perform_replacement(0, 9), Persist::Change { address: 0, value: 9 });
    assert_eq!(buffer.file().read_u8(0), Ok(9));
    assert_eq!(buffer.type_digit(3), draw(Redraw::Cursor));
    assert_eq!(buffer.byte_shown(0), Some(0x39));
}

#[test]
fn a_file_that_is_too_long_is_refused_only_beyond_the_limit() {
    assert!(Buffer::new(File::new(Vec::new()), UndoFile::new(Vec::new()).unwrap(), Structs::load(Vec::new()), 0).is_ok());
    assert_eq!(SetupError::FileTooLarge, SetupError::FileTooLarge);
}

#[test]
fn storing_goes_log_then_file_then_header() {
    assert_eq!(steps_of(Persist::Nothing), Vec::<StoreStep>::new());
    assert_eq!(
        steps_of(Persist::Change { address: 1, value: 2 }),
        vec![StoreStep::Record, StoreStep::Byte, StoreStep::Header]
    );
    assert_eq!(steps_of(Persist::Replay { address: 1, value: 2 }), vec![StoreStep::Byte, StoreStep::Header]);
    assert_eq!(
        failure_text(StoreStep::Record, "Short write"),
        "Undo log error: Short write (redo may be garbage)"
    );
    assert_eq!(failure_text(StoreStep::Byte, "Did not write anything"), "Write error: Did not write anything");
    assert_eq!(
        failure_text(StoreStep::Header, "Failed to flush: x"),
        "Undo log error: Failed to flush: x \u{2013} the log is inconsistent now, proceed with care!"
    );
}

#[test]
fn a_failure_to_store_takes_file_and_log_afresh() {
    let mut buffer = session(ramp(0x100), 6);
    key(&mut buffer, 'R');
    buffer.do_goto(0xf0);
    key(&mut buffer, 'a');
    key(&mut buffer, 'b');
    key(&mut buffer, 'c');
    assert_eq!(buffer.replacing_nibble(), 1);
    // the byte did not reach the disk, and the file there is shorter now
    let stored = File::new(ramp(0x20));
    let log = UndoFile::new(Vec::new()).unwrap();
    assert_eq!(buffer.store_failed(StoreStep::Byte, "disk full", stored, log), Ok(()));
    assert_eq!(buffer.file().bytes(), &ramp(0x20));
    assert_eq!(buffer.undo_file().position(), 16);
    assert_eq!(buffer.viewport(), at(0, 0x1f));
    assert_eq!(buffer.replacing_nibble(), 0);
    assert_eq!(status(&buffer), Some((String::from("Write error: disk full"), Color::ErrorInfo)));
    assert_eq!(buffer.mode(), Mode::Replace);
    assert_eq!(buffer.reload(File::new(ramp(0x1000)), UndoFile::new(Vec::new()).unwrap()), Ok(()));
    assert_eq!(buffer.viewport(), at(0, 0x1f));
    assert_eq!(buffer.file().len(), 0x1000);
    assert_eq!(buffer.structs().len(), 2);
    assert_eq!(buffer.active_struct(), None);
}
