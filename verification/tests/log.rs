use butterfly::file::File;
use butterfly::undo_file::{LogError, UndoFile};

fn header(position: u64) -> Vec<u8> {
    let mut bytes = b"undo".to_vec();
    bytes.extend_from_slice(&[0, 0, 0, 0]);
    bytes.extend_from_slice(&position.to_le_bytes());
    bytes
}

fn record(address: u64, old: u8, new: u8) -> Vec<u8> {
    let mut bytes = address.to_le_bytes().to_vec();
    bytes.extend_from_slice(&[old, new, 0, 0, 0, 0, 0, 0]);
    bytes
}

fn fresh() -> UndoFile {
    UndoFile::new(Vec::new()).unwrap()
}

fn reopen(log: &UndoFile) -> UndoFile {
    UndoFile::new(log.storage().clone()).unwrap()
}

#[test]
fn new_log_has_a_header_and_no_records() {
    let log = fresh();
    assert_eq!(log.storage(), &header(16));
    assert_eq!(log.position(), 16);
    assert_eq!(log.len(), 16);
}

#[test]
fn undo_on_an_empty_log_is_nothing_to_undo() {
    let mut log = fresh();
    let before = log.storage().clone();
    assert_eq!(log.undo(), None);
    assert_eq!(log.position(), 16);
    assert_eq!(log.storage(), &before);
    assert_eq!(log.redo(), None);
    assert_eq!(log.do_redo(), None);
    assert_eq!(log.storage(), &before);
}

#[test]
fn enter_appends_a_record_and_advances() {
    let mut log = fresh();
    log.enter(0x1122_3344_5566_7788, 0xaa, 0xbb);
    assert_eq!(log.position(), 32);
    assert_eq!(log.len(), 32);
    let mut expected = header(16);
    expected.extend_from_slice(&record(0x1122_3344_5566_7788, 0xaa, 0xbb));
    assert_eq!(log.storage(), &expected);
    log.settle();
    let mut expected = header(32);
    expected.extend_from_slice(&record(0x1122_3344_5566_7788, 0xaa, 0xbb));
    assert_eq!(log.storage(), &expected);
}

#[test]
fn enters_then_undos_restore_the_file_and_the_position() {
    let untouched: Vec<u8> = (0..32).collect();
    for n in 0..6u64 {
        let mut file = File::new(untouched.clone());
        let mut log = fresh();
        for i in 0..n {
            // the same byte is changed more than once
            let address = (i * 7) % 3;
            let old = file.read_u8(address).unwrap();
            let new = old.wrapping_add(100 + i as u8);
            log.enter(address, old, new);
            file.write_u8(address, new).unwrap();
            log.settle();
        }
        assert_eq!(log.position(), 16 + 16 * n);
        for _ in 0..n {
            let (address, old) = log.undo().unwrap();
            file.write_u8(address, old).unwrap();
            log.settle();
        }
        assert_eq!(file.bytes(), &untouched);
        assert_eq!(log.position(), 16);
        assert_eq!(log.undo(), None);
    }
}

#[test]
fn reopen_after_settle_gives_the_position() {
    let mut log = fresh();
    log.enter(5, 1, 2);
    log.settle();
    log.enter(6, 3, 4);
    log.settle();
    let again = reopen(&log);
    assert_eq!(again.position(), log.position());
    assert_eq!(again.position(), 48);
    assert_eq!(again.storage(), log.storage());
}

#[test]
fn reopen_before_settle_is_one_settle_behind() {
    let mut log = fresh();
    log.enter(5, 1, 2);
    log.settle();
    log.enter(6, 3, 4);
    // lost before the settle
    let mut again = reopen(&log);
    assert_eq!(again.position(), 32);
    assert_eq!(again.len(), 48);
    assert_eq!(again.redo(), Some((6, 4)));
    assert_eq!(again.position(), 48);
}

#[test]
fn reopen_after_undo() {
    let mut log = fresh();
    log.enter(5, 1, 2);
    log.settle();
    assert_eq!(log.undo(), Some((5, 1)));
    log.settle();
    let mut again = reopen(&log);
    assert_eq!(again.position(), 16);
    assert_eq!(again.redo(), Some((5, 2)));
}

#[test]
fn redo_after_undo_gives_the_new_byte_at_the_same_address() {
    let mut log = fresh();
    log.enter(0x40, 0x11, 0x22);
    log.settle();
    log.enter(0x41, 0x33, 0x44);
    log.settle();
    let before = log.storage().clone();
    assert_eq!(log.undo(), Some((0x41, 0x33)));
    assert_eq!(log.redo(), Some((0x41, 0x44)));
    assert_eq!(log.position(), 48);
    assert_eq!(log.storage(), &before);
    assert_eq!(log.redo(), None);
    assert_eq!(log.undo(), Some((0x41, 0x33)));
    assert_eq!(log.undo(), Some((0x40, 0x11)));
    assert_eq!(log.undo(), None);
    assert_eq!(log.do_redo(), Some((0x40, 0x22)));
    assert_eq!(log.do_redo(), Some((0x41, 0x44)));
}

#[test]
fn enter_after_undo_discards_the_redos() {
    let mut log = fresh();
    log.enter(1, 10, 11);
    log.enter(2, 20, 21);
    log.enter(3, 30, 31);
    log.settle();
    assert_eq!(log.undo(), Some((3, 30)));
    assert_eq!(log.undo(), Some((2, 20)));
    assert_eq!(log.len(), 64);
    log.enter(9, 90, 91);
    assert_eq!(log.len(), 48);
    assert_eq!(log.position(), 48);
    assert_eq!(log.redo(), None);
    assert_eq!(log.undo(), Some((9, 90)));
    assert_eq!(log.undo(), Some((1, 10)));
    assert_eq!(log.redo(), Some((1, 11)));
    assert_eq!(log.redo(), Some((9, 91)));
    assert_eq!(log.redo(), None);
}

#[test]
fn open_refuses_what_is_no_log() {
    let mut bytes = header(16);
    bytes[0] = b'U';
    assert_eq!(UndoFile::new(bytes).err(), Some(LogError::NotAnUndoFile));
    assert_eq!(UndoFile::new(vec![b'u']).err(), Some(LogError::NotAnUndoFile));
    assert_eq!(UndoFile::new(b"undone".to_vec()).err(), Some(LogError::UnsupportedVersion(b'n')));
    assert_eq!(UndoFile::new(b"undo".to_vec()).err(), Some(LogError::InvalidPosition(0)));
    assert_eq!(LogError::NotAnUndoFile.message(), "Not an undo file");
}

#[test]
fn open_refuses_an_unknown_version() {
    let mut bytes = header(16);
    bytes[4] = 7;
    assert_eq!(UndoFile::new(bytes).err(), Some(LogError::UnsupportedVersion(7)));
    assert_eq!(LogError::UnsupportedVersion(7).message(), "Unsupported version 7");
}

#[test]
fn open_refuses_a_bad_position() {
    for position in [0u64, 8, 15, 17, 24, 32, 48, u64::MAX] {
        assert_eq!(UndoFile::new(header(position)).err(), Some(LogError::InvalidPosition(position)));
    }
    let mut bytes = header(32);
    bytes.extend_from_slice(&record(1, 2, 3));
    assert_eq!(UndoFile::new(bytes.clone()).unwrap().position(), 32);
    bytes[8] = 48;
    assert_eq!(UndoFile::new(bytes).err(), Some(LogError::InvalidPosition(48)));
    assert_eq!(LogError::InvalidPosition(0x30).message(), "Invalid position 0x30");
    assert_eq!(LogError::TooLarge.message(), "Undo file too large");
}

/// A last record that is cut short is not dropped: it is filled up with
/// zero bytes and can be redone as it then reads.
#[test]
fn open_pads_a_record_that_is_cut_short() {
    let mut bytes = header(16);
    bytes.extend_from_slice(&record(0x77, 0x01, 0x02)[..9]);
    let mut log = UndoFile::new(bytes).unwrap();
    assert_eq!(log.len(), 32);
    assert_eq!(log.position(), 16);
    let mut expected = header(16);
    expected.extend_from_slice(&record(0x77, 0x01, 0x00));
    assert_eq!(log.storage(), &expected);
    assert_eq!(log.redo(), Some((0x77, 0x00)));
}

#[test]
fn open_pads_a_header_that_is_cut_short() {
    let bytes = header(16)[..9].to_vec();
    let log = UndoFile::new(bytes).unwrap();
    assert_eq!(log.storage(), &header(16));
    assert_eq!(log.position(), 16);
}
