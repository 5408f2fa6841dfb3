//! The edit log: every change of a byte, kept so that it can be undone and
//! redone, in a form that survives the loss of whatever was not yet
//! settled.
//!
//! The log is a sequence of bytes, all numbers least significant byte
//! first:
//!
//! ```text
//! 0x00  header    4 bytes  "undo"
//!                 1 byte   version, 0
//!                 3 bytes  reserved
//!                 8 bytes  position: where the next record goes
//! 0x10  records   16 bytes each:
//!                 8 bytes  address of the changed byte
//!                 1 byte   the byte before the change
//!                 1 byte   the byte after the change
//!                 6 bytes  reserved
//! ```
//!
//! The position is a multiple of 16, at least 16 and at most the length.
//! Records before the position can be undone, records from it on redone.
//! A change is entered in the log before the byte is written, and the
//! position in the header is brought up to date (settled) only after the
//! write; an undo or a redo reads the log, then the byte is written, then
//! the position is settled. Whatever is lost in between, the log as stored
//! is at most one settle behind.

use vstd::prelude::*;
use vstd::string::StringExecFns;
use crate::bytes::{
    le_bytes, le_value, lemma_le_bytes_len, lemma_le_round_trip, lemma_le_value_bound,
    lemma_pow256_8, push_le_u64, read_le, store_le_u64,
};
use crate::file::written;
use crate::text::{numeral, push_numeral};

verus! {

/// The length of the header, and of each record.
pub const SLOT: u64 = 16;

/// Why a log could not be opened.
#[derive(Clone, Copy, Debug, PartialEq, Eq, Structural)]
pub enum LogError {
    /// The bytes do not start with the log's magic.
    NotAnUndoFile,
    /// The log has a version that is not known.
    UnsupportedVersion(u8),
    /// The stored position is no multiple of 16, below 16, or beyond the
    /// end of the log.
    InvalidPosition(u64),
    /// The log is too long for this machine.
    TooLarge,
}

impl LogError {
    /// The error in words.
    pub open spec fn text(self) -> Seq<char> {
        match self {
            LogError::NotAnUndoFile => "Not an undo file"@,
            LogError::UnsupportedVersion(ver) => "Unsupported version "@ + numeral(ver as nat, 10),
            LogError::InvalidPosition(loc) => "Invalid position 0x"@ + numeral(loc as nat, 16),
            LogError::TooLarge => "Undo file too large"@,
        }
    }

    /// The error in words.
    pub fn message(&self) -> (text: String)
        ensures
            text@ == self.text(),
    {
        match self {
            LogError::NotAnUndoFile => String::from_str("Not an undo file"),
            LogError::UnsupportedVersion(ver) => {
                let mut text = String::from_str("Unsupported version ");
                push_numeral(&mut text, *ver as u64, 10);
                text
            },
            LogError::InvalidPosition(loc) => {
                let mut text = String::from_str("Invalid position 0x");
                push_numeral(&mut text, *loc, 16);
                text
            },
            LogError::TooLarge => String::from_str("Undo file too large"),
        }
    }
}

/// A log as a mathematical value: the bytes as stored, and the
/// position that the editor works with, which the header follows at each
/// settle.
pub struct Log {
    pub storage: Seq<u8>,
    pub position: int,
}

/// The four bytes that start every log: `undo`.
pub open spec fn magic() -> Seq<u8> {
    seq![0x75u8, 0x6eu8, 0x64u8, 0x6fu8]
}

/// The header of a log that is at `position`.
pub open spec fn header(position: int) -> Seq<u8> {
    magic() + seq![0u8, 0u8, 0u8, 0u8] + le_bytes(position as nat, 8)
}

/// The record of one change.
pub open spec fn record(address: u64, old: u8, new: u8) -> Seq<u8> {
    le_bytes(address as nat, 8) + seq![old, new, 0u8, 0u8, 0u8, 0u8, 0u8, 0u8]
}

/// The position that the header holds.
pub open spec fn stored_position(storage: Seq<u8>) -> int {
    le_value(storage.subrange(8, 16)) as int
}

/// The address in the record at `at`.
pub open spec fn address_at(storage: Seq<u8>, at: int) -> u64 {
    le_value(storage.subrange(at, at + 8)) as u64
}

/// Whether the bytes start with the magic and a known version.
pub open spec fn well_headed(storage: Seq<u8>) -> bool {
    storage.len() >= 16 && storage.subrange(0, 4) == magic() && storage[4] == 0
}

/// Whether a position can be a log's: a multiple of 16 from 16 up to the
/// length.
pub open spec fn is_position(position: int, len: int) -> bool {
    position % 16 == 0 && 16 <= position <= len
}

/// Whether the log is one that the operations keep: a valid header, whole
/// records only, and a position among them.
pub open spec fn well_formed(log: Log) -> bool {
    well_headed(log.storage) && log.storage.len() % 16 == 0 && is_position(
        log.position,
        log.storage.len() as int,
    )
}

/// The bytes with zero bytes added up to the next multiple of 16.
pub open spec fn padded(storage: Seq<u8>) -> Seq<u8> {
    storage + Seq::new(((16 - storage.len() % 16) % 16) as nat, |i: int| 0u8)
}

/// What opening stored bytes gives. Nothing stored makes a new log. A
/// last record that is cut short is filled up with zero bytes and kept.
pub open spec fn opened(storage: Seq<u8>) -> Result<Log, LogError> {
    if storage.len() == 0 {
        Ok(Log { storage: header(16), position: 16 })
    } else {
        let image = padded(storage);
        if image.subrange(0, 4) != magic() {
            Err(LogError::NotAnUndoFile)
        } else if image[4] != 0 {
            Err(LogError::UnsupportedVersion(image[4]))
        } else if !is_position(stored_position(image), image.len() as int) {
            Err(LogError::InvalidPosition(stored_position(image) as u64))
        } else {
            Ok(Log { storage: image, position: stored_position(image) })
        }
    }
}

/// The log after a change is entered: the record stands at the position,
/// nothing stands behind it, and the position is behind the record.
pub open spec fn entered(log: Log, address: u64, old: u8, new: u8) -> Log {
    Log { storage: log.storage.take(log.position) + record(address, old, new), position: log.position + 16 }
}

/// The log after the position is settled: the header holds it.
pub open spec fn settled(log: Log) -> Log {
    Log {
        storage: log.storage.take(8) + le_bytes(log.position as nat, 8) + log.storage.skip(16),
        position: log.position,
    }
}

/// Whether there is a change to undo.
pub open spec fn can_undo(log: Log) -> bool {
    log.position > 16
}

/// Whether there is a change to redo.
pub open spec fn can_redo(log: Log) -> bool {
    log.position < log.storage.len()
}

/// The log after an undo: the position is before the last record.
pub open spec fn undone(log: Log) -> Log {
    if can_undo(log) {
        Log { position: log.position - 16, ..log }
    } else {
        log
    }
}

/// What an undo asks to be written: the address of the last change and
/// the byte from before it.
pub open spec fn undo_write(log: Log) -> Option<(u64, u8)> {
    if can_undo(log) {
        Some((address_at(log.storage, log.position - 16), log.storage[log.position - 8]))
    } else {
        None
    }
}

/// The log after a redo: the position is behind the next record.
pub open spec fn redone(log: Log) -> Log {
    if can_redo(log) {
        Log { position: log.position + 16, ..log }
    } else {
        log
    }
}

/// What a redo asks to be written: the address of the next change and the
/// byte from after it.
pub open spec fn redo_write(log: Log) -> Option<(u64, u8)> {
    if can_redo(log) {
        Some((address_at(log.storage, log.position), log.storage[log.position + 9]))
    } else {
        None
    }
}

/// The edit log, held as the bytes that are stored and the position.
pub struct UndoFile {
    storage: Vec<u8>,
    loc: u64,
}

impl View for UndoFile {
    type V = Log;

    closed spec fn view(&self) -> Log {
        Log { storage: self.storage@, position: self.loc as int }
    }
}

impl UndoFile {
    /// Whether the log is well-formed. Every operation asks for it and
    /// keeps it.
    pub open spec fn wf(&self) -> bool {
        well_formed(self@)
    }

    /// Opens a log from the bytes that are stored.
    pub fn new(storage: Vec<u8>) -> (r: Result<UndoFile, LogError>)
        ensures
            match r {
                Ok(log) => opened(storage@) == Ok::<Log, LogError>(log@) && log.wf(),
                Err(LogError::TooLarge) => storage@.len() + 15 > usize::MAX,
                Err(e) => storage@.len() + 15 <= usize::MAX && opened(storage@) == Err::<Log, LogError>(e),
            },
    {
        let mut storage = storage;
        let ghost given = storage@;
        let len = storage.len();
        if len == 0 {
            storage.push(0x75);
            storage.push(0x6e);
            storage.push(0x64);
            storage.push(0x6f);
            storage.push(0);
            storage.push(0);
            storage.push(0);
            storage.push(0);
            push_le_u64(&mut storage, 16);
            proof {
                lemma_le_bytes_len(16, 8);
                assert(storage@ =~= header(16));
                assert(storage@.subrange(0, 4) =~= magic());
            }
            return Ok(UndoFile { storage, loc: 16 });
        }
        if len > usize::MAX - 15 {
            return Err(LogError::TooLarge);
        }
        let rest: usize = len % 16;
        if rest != 0 {
            storage.resize(len + (16 - rest), 0u8);
        }
        assert(storage@ =~= padded(given));
        assert(storage@.len() % 16 == 0 && storage@.len() >= 16);
        if storage[0] != 0x75 || storage[1] != 0x6e || storage[2] != 0x64 || storage[3] != 0x6f {
            assert(storage@.subrange(0, 4) != magic()) by {
                if storage@.subrange(0, 4) == magic() {
                    assert(storage@.subrange(0, 4)[0] == 0x75);
                    assert(storage@.subrange(0, 4)[1] == 0x6e);
                    assert(storage@.subrange(0, 4)[2] == 0x64);
                    assert(storage@.subrange(0, 4)[3] == 0x6f);
                }
            }
            return Err(LogError::NotAnUndoFile);
        }
        assert(storage@.subrange(0, 4) =~= magic());
        let ver = storage[4];
        if ver != 0 {
            return Err(LogError::UnsupportedVersion(ver));
        }
        proof {
            lemma_le_value_bound(storage@.subrange(8, 16));
            lemma_pow256_8();
        }
        let loc: u64 = read_le(&storage, 8, 8);
        if loc % 16 != 0 || loc < 16 || loc > storage.len() as u64 {
            return Err(LogError::InvalidPosition(loc));
        }
        Ok(UndoFile { storage, loc })
    }

    /// The bytes to store.
    pub fn storage(&self) -> (bytes: &Vec<u8>)
        ensures
            bytes@ == self@.storage,
    {
        &self.storage
    }

    /// The position: where the next record goes.
    pub fn position(&self) -> (loc: u64)
        ensures
            loc == self@.position,
    {
        self.loc
    }

    /// The length of the log in bytes.
    pub fn len(&self) -> (lof: u64)
        ensures
            lof == self@.storage.len(),
    {
        self.storage.len() as u64
    }

    /// Brings the header up to date with the position.
    pub fn settle(&mut self)
        requires
            old(self).wf(),
        ensures
            final(self)@ == settled(old(self)@),
            final(self).wf(),
    {
        store_le_u64(&mut self.storage, 8, self.loc);
        proof {
            let before = old(self)@.storage;
            lemma_le_bytes_len(self.loc as nat, 8);
            assert(self.storage@ =~= before.take(8) + le_bytes(self.loc as nat, 8) + before.skip(16));
            assert(self.storage@.subrange(0, 4) =~= before.subrange(0, 4));
        }
    }

    /// Enters a change: the byte at `address` goes from `old_byte` to `new_byte`.
    /// Changes that were undone and not redone are forgotten.
    pub fn enter(&mut self, address: u64, old_byte: u8, new_byte: u8)
        requires
            old(self).wf(),
        ensures
            final(self)@ == entered(old(self)@, address, old_byte, new_byte),
            final(self).wf(),
    {
        let ghost before = self.storage@;
        self.storage.truncate(self.loc as usize);
        push_le_u64(&mut self.storage, address);
        self.storage.push(old_byte);
        self.storage.push(new_byte);
        let mut i: usize = 0;
        while i < 6
            invariant
                i <= 6,
                self.storage@ == before.take(self.loc as int) + le_bytes(address as nat, 8) + seq![old_byte, new_byte]
                    + Seq::new(i as nat, |j: int| 0u8),
                self.loc == old(self).loc,
            decreases 6 - i,
        {
            self.storage.push(0);
            i += 1;
            assert(self.storage@ =~= before.take(self.loc as int) + le_bytes(address as nat, 8) + seq![old_byte, new_byte] + Seq::new(i as nat, |j: int| 0u8));
        }
        proof {
            lemma_le_bytes_len(address as nat, 8);
            assert(self.storage@ =~= before.take(self.loc as int) + record(address, old_byte, new_byte));
            assert(self.storage@.subrange(0, 4) =~= before.subrange(0, 4));
        }
        let n = self.storage.len();
        self.loc = self.loc + 16;
    }

    /// Steps back over the last change and gives its address and the byte
    /// from before it, for the caller to write and then to settle. Gives
    /// nothing, and changes nothing, where no change is left to undo.
    pub fn undo(&mut self) -> (r: Option<(u64, u8)>)
        requires
            old(self).wf(),
        ensures
            r == undo_write(old(self)@),
            final(self)@ == undone(old(self)@),
            final(self).wf(),
    {
        let n = self.storage.len();
        if self.loc == 16 {
            return None;
        }
        self.loc = self.loc - 16;
        let at: usize = self.loc as usize;
        proof {
            lemma_le_value_bound(self.storage@.subrange(at as int, at + 8));
            lemma_pow256_8();
        }
        let address = read_le(&self.storage, at, 8);
        let old = self.storage[at + 8];
        Some((address, old))
    }

    /// Steps over the next change and gives its address and the byte from
    /// after it, for the caller to write and then to settle. Gives nothing,
    /// and changes nothing, where no change is left to redo.
    pub fn redo(&mut self) -> (r: Option<(u64, u8)>)
        requires
            old(self).wf(),
        ensures
            r == redo_write(old(self)@),
            final(self)@ == redone(old(self)@),
            final(self).wf(),
    {
        self.do_redo()
    }

    /// What `redo` does.
    pub fn do_redo(&mut self) -> (r: Option<(u64, u8)>)
        requires
            old(self).wf(),
        ensures
            r == redo_write(old(self)@),
            final(self)@ == redone(old(self)@),
            final(self).wf(),
    {
        if self.loc == self.storage.len() as u64 {
            return None;
        }
        let at: usize = self.loc as usize;
        proof {
            lemma_le_value_bound(self.storage@.subrange(at as int, at + 8));
            lemma_pow256_8();
        }
        let address = read_le(&self.storage, at, 8);
        let new = self.storage[at + 9];
        self.loc = self.loc + 16;
        Some((address, new))
    }
}

/// One change of one byte.
pub struct EditRecord {
    pub address: u64,
    pub old_value: u8,
    pub new_value: u8,
}

/// The record that is stored at `at`.
pub open spec fn record_at(storage: Seq<u8>, at: int) -> EditRecord {
    EditRecord { address: address_at(storage, at), old_value: storage[at + 8], new_value: storage[at + 9] }
}

/// The records that are stored from `from` up to `to`.
pub open spec fn records(storage: Seq<u8>, from: int, to: int) -> Seq<EditRecord> {
    Seq::new(((to - from) / 16) as nat, |i: int| record_at(storage, from + 16 * i))
}

/// The changes that can be undone, oldest first.
pub open spec fn done(log: Log) -> Seq<EditRecord> {
    records(log.storage, 16, log.position)
}

/// The changes that can be redone, the next one first.
pub open spec fn redoable(log: Log) -> Seq<EditRecord> {
    records(log.storage, log.position, log.storage.len() as int)
}

/// The log after each of `edits` is entered in turn.
pub open spec fn entered_all(log: Log, edits: Seq<EditRecord>) -> Log
    decreases edits.len(),
{
    if edits.len() == 0 {
        log
    } else {
        entered(
            entered_all(log, edits.drop_last()),
            edits.last().address,
            edits.last().old_value,
            edits.last().new_value,
        )
    }
}

/// The log after `n` undos.
pub open spec fn undone_times(log: Log, n: nat) -> Log
    decreases n,
{
    if n == 0 {
        log
    } else {
        undone_times(undone(log), (n - 1) as nat)
    }
}

/// What `n` undos in a row ask to be written, in their order.
pub open spec fn undo_writes(log: Log, n: nat) -> Seq<(u64, u8)>
    decreases n,
{
    if n == 0 {
        Seq::empty()
    } else {
        match undo_write(log) {
            Some(w) => seq![w] + undo_writes(undone(log), (n - 1) as nat),
            None => undo_writes(undone(log), (n - 1) as nat),
        }
    }
}

/// The file after each of `edits` has put its new byte in place.
pub open spec fn edited(file: Seq<u8>, edits: Seq<EditRecord>) -> Seq<u8>
    decreases edits.len(),
{
    if edits.len() == 0 {
        file
    } else {
        written(edited(file, edits.drop_last()), edits.last().address as int, edits.last().new_value)
    }
}

/// Whether each of `edits` changes a byte that the file has, and names as
/// its old byte the one that the edits before it left there.
pub open spec fn matching(file: Seq<u8>, edits: Seq<EditRecord>) -> bool
    decreases edits.len(),
{
    if edits.len() == 0 {
        true
    } else {
        let before = edited(file, edits.drop_last());
        matching(file, edits.drop_last()) && edits.last().address < before.len()
            && before[edits.last().address as int] == edits.last().old_value
    }
}

/// The file after each of `writes` has been carried out in turn.
pub open spec fn applied(file: Seq<u8>, writes: Seq<(u64, u8)>) -> Seq<u8>
    decreases writes.len(),
{
    if writes.len() == 0 {
        file
    } else {
        applied(written(file, writes[0].0 as int, writes[0].1), writes.drop_first())
    }
}

/// A record that was written is read back as it was.
pub proof fn lemma_record_round_trip(address: u64, old_value: u8, new_value: u8)
    ensures
        record(address, old_value, new_value).len() == 16,
        record_at(record(address, old_value, new_value), 0) == (EditRecord { address, old_value, new_value }),
{
    let r = record(address, old_value, new_value);
    lemma_le_bytes_len(address as nat, 8);
    lemma_pow256_8();
    lemma_le_round_trip(address as nat, 8);
    assert(r.subrange(0, 8) =~= le_bytes(address as nat, 8));
}

/// The position of a well-formed log counts the changes that can be
/// undone.
pub proof fn lemma_position_counts(log: Log)
    requires
        well_formed(log),
    ensures
        log.position == 16 + 16 * done(log).len(),
        log.storage.len() == log.position + 16 * redoable(log).len(),
{
}

/// Entering a change adds it to those that can be undone, and leaves none
/// to redo.
pub proof fn lemma_enter(log: Log, address: u64, old_value: u8, new_value: u8)
    requires
        well_formed(log),
    ensures
        well_formed(entered(log, address, old_value, new_value)),
        done(entered(log, address, old_value, new_value)) == done(log).push(
            EditRecord { address, old_value, new_value },
        ),
        redoable(entered(log, address, old_value, new_value)) == Seq::<EditRecord>::empty(),
{
    let after = entered(log, address, old_value, new_value);
    let r = record(address, old_value, new_value);
    lemma_record_round_trip(address, old_value, new_value);
    assert(after.storage.subrange(0, 4) =~= log.storage.subrange(0, 4));
    assert forall|i: int| 0 <= i < done(log).len() implies done(after)[i] == done(log)[i] by {
        let at = 16 + 16 * i;
        assert(after.storage.subrange(at, at + 8) =~= log.storage.subrange(at, at + 8));
    }
    assert(after.storage.subrange(log.position, log.position + 8) =~= r.subrange(0, 8));
    assert(done(after) =~= done(log).push(EditRecord { address, old_value, new_value }));
    assert(redoable(after) =~= Seq::<EditRecord>::empty());
}

/// An undo takes the last change from those that can be undone, puts it
/// first among those that can be redone, and asks for its old byte to be
/// written.
pub proof fn lemma_undo(log: Log)
    requires
        well_formed(log),
        can_undo(log),
    ensures
        well_formed(undone(log)),
        done(log).len() > 0,
        done(undone(log)) == done(log).drop_last(),
        redoable(undone(log)) == seq![done(log).last()] + redoable(log),
        undo_write(log) == Some((done(log).last().address, done(log).last().old_value)),
{
    let after = undone(log);
    let n = done(log).len() as int;
    assert(log.position == 16 + 16 * n);
    assert(done(after) =~= done(log).drop_last());
    assert(redoable(after) =~= seq![done(log).last()] + redoable(log));
}

/// A redo takes the first change from those that can be redone, puts it
/// last among those that can be undone, and asks for its new byte to be
/// written.
pub proof fn lemma_redo(log: Log)
    requires
        well_formed(log),
        can_redo(log),
    ensures
        well_formed(redone(log)),
        redoable(log).len() > 0,
        done(redone(log)) == done(log).push(redoable(log)[0]),
        redoable(redone(log)) == redoable(log).drop_first(),
        redo_write(log) == Some((redoable(log)[0].address, redoable(log)[0].new_value)),
{
    let after = redone(log);
    assert(done(after) =~= done(log).push(redoable(log)[0]));
    assert(redoable(after) =~= redoable(log).drop_first());
}

/// Settling changes neither what can be undone nor what can be redone.
pub proof fn lemma_settle(log: Log)
    requires
        well_formed(log),
    ensures
        well_formed(settled(log)),
        log.position <= u64::MAX ==> stored_position(settled(log).storage) == log.position,
        done(settled(log)) == done(log),
        redoable(settled(log)) == redoable(log),
{
    let after = settled(log);
    lemma_le_bytes_len(log.position as nat, 8);
    lemma_pow256_8();
    if log.position <= u64::MAX {
        lemma_le_round_trip(log.position as nat, 8);
    }
    assert(after.storage.subrange(8, 16) =~= le_bytes(log.position as nat, 8));
    assert(after.storage.subrange(0, 4) =~= log.storage.subrange(0, 4));
    assert forall|at: int| 16 <= at && at + 16 <= log.storage.len() implies record_at(after.storage, at)
        == record_at(log.storage, at) by {
        assert(after.storage.subrange(at, at + 8) =~= log.storage.subrange(at, at + 8));
    }
    assert(done(after) =~= done(log));
    assert(redoable(after) =~= redoable(log));
}

/// Entering changes one after the other adds them, in their order, to
/// those that can be undone.
pub proof fn lemma_enter_all(log: Log, edits: Seq<EditRecord>)
    requires
        well_formed(log),
    ensures
        well_formed(entered_all(log, edits)),
        done(entered_all(log, edits)) == done(log) + edits,
    decreases edits.len(),
{
    if edits.len() == 0 {
        assert(done(log) + edits =~= done(log));
    } else {
        let e = edits.last();
        lemma_enter_all(log, edits.drop_last());
        lemma_enter(entered_all(log, edits.drop_last()), e.address, e.old_value, e.new_value);
        assert(done(log) + edits =~= (done(log) + edits.drop_last()).push(e));
    }
}

/// Undoing as many changes as `edits` holds, where these are the last
/// that were made, takes them back from the last to the first.
pub proof fn lemma_undo_writes(log: Log, file: Seq<u8>, base: Seq<EditRecord>, edits: Seq<EditRecord>)
    requires
        well_formed(log),
        done(log) == base + edits,
        matching(file, edits),
    ensures
        well_formed(undone_times(log, edits.len())),
        done(undone_times(log, edits.len())) == base,
        applied(edited(file, edits), undo_writes(log, edits.len())) == file,
    decreases edits.len(),
{
    if edits.len() == 0 {
        assert(base + edits =~= base);
    } else {
        let e = edits.last();
        let rest = edits.drop_last();
        lemma_position_counts(log);
        lemma_undo(log);
        assert(done(log).last() == e);
        assert((base + edits).drop_last() =~= base + rest);
        lemma_undo_writes(undone(log), file, base, rest);
        let writes = undo_writes(log, edits.len());
        let first = (e.address, e.old_value);
        assert(writes[0] == first);
        assert(writes.drop_first() =~= undo_writes(undone(log), rest.len()));
        let before = edited(file, rest);
        assert(written(edited(file, edits), e.address as int, e.old_value) =~= before);
    }
}

/// After any number of changes is entered and as many are undone, each
/// undo's write carried out on the file, the file is what it was before
/// the changes, and the log is where it was.
pub proof fn lemma_undo_all_restores(log: Log, file: Seq<u8>, edits: Seq<EditRecord>)
    requires
        well_formed(log),
        matching(file, edits),
    ensures
        undone_times(entered_all(log, edits), edits.len()).position == log.position,
        applied(edited(file, edits), undo_writes(entered_all(log, edits), edits.len())) == file,
{
    lemma_enter_all(log, edits);
    lemma_undo_writes(entered_all(log, edits), file, done(log), edits);
    lemma_position_counts(log);
    lemma_position_counts(undone_times(entered_all(log, edits), edits.len()));
}

/// A log that is opened again after a settle is the log that was settled:
/// the same bytes, and the position that it had.
pub proof fn lemma_reopen_after_settle(log: Log)
    requires
        well_formed(log),
        log.position <= u64::MAX,
    ensures
        opened(settled(log).storage) == Ok::<Log, LogError>(settled(log)),
        settled(log).position == log.position,
{
    lemma_settle(log);
    let image = settled(log).storage;
    assert(padded(image) =~= image);
}

/// After a change is entered and settled, opening what is stored gives
/// the position behind that change.
pub proof fn lemma_reopen_after_enter(log: Log, address: u64, old_value: u8, new_value: u8)
    requires
        well_formed(log),
        log.position + 16 <= u64::MAX,
    ensures
        opened(settled(entered(log, address, old_value, new_value)).storage) matches Ok(reopened)
            && reopened.position == log.position + 16 && reopened == settled(
            entered(log, address, old_value, new_value),
        ),
{
    lemma_enter(log, address, old_value, new_value);
    lemma_reopen_after_settle(entered(log, address, old_value, new_value));
}

/// Where a change is entered and the log is lost before it is settled,
/// opening what is stored gives the position from before the change, and
/// the change is the next to redo.
pub proof fn lemma_reopen_before_settle(log: Log, address: u64, old_value: u8, new_value: u8)
    requires
        well_formed(log),
        stored_position(log.storage) == log.position,
    ensures
        opened(entered(log, address, old_value, new_value).storage) matches Ok(reopened)
            && reopened.position == log.position && redo_write(reopened) == Some((address, new_value)),
{
    let after = entered(log, address, old_value, new_value);
    lemma_enter(log, address, old_value, new_value);
    lemma_record_round_trip(address, old_value, new_value);
    let r = record(address, old_value, new_value);
    assert(padded(after.storage) =~= after.storage);
    assert(after.storage.subrange(8, 16) =~= log.storage.subrange(8, 16));
    assert(after.storage.subrange(log.position, log.position + 8) =~= r.subrange(0, 8));
}

/// A redo right after an undo asks for the same address as the undo did,
/// with the byte from after the change, and puts the log back where it
/// was.
pub proof fn lemma_redo_after_undo(log: Log)
    requires
        well_formed(log),
        can_undo(log),
    ensures
        redone(undone(log)) == log,
        redo_write(undone(log)) == Some((done(log).last().address, done(log).last().new_value)),
        undo_write(log) == Some((done(log).last().address, done(log).last().old_value)),
{
    lemma_undo(log);
    lemma_redo(undone(log));
}

/// A change that was just entered is undone with its old byte and redone
/// with its new byte, both at its address.
pub proof fn lemma_undo_redo_of_entered(log: Log, address: u64, old_value: u8, new_value: u8)
    requires
        well_formed(log),
    ensures
        undo_write(entered(log, address, old_value, new_value)) == Some((address, old_value)),
        redo_write(undone(entered(log, address, old_value, new_value))) == Some((address, new_value)),
{
    lemma_enter(log, address, old_value, new_value);
    lemma_redo_after_undo(entered(log, address, old_value, new_value));
}

/// Entering a change leaves nothing to redo, whatever could be redone
/// before.
pub proof fn lemma_enter_discards_redo(log: Log, address: u64, old_value: u8, new_value: u8)
    requires
        well_formed(log),
    ensures
        !can_redo(entered(log, address, old_value, new_value)),
        redo_write(entered(log, address, old_value, new_value)) is None,
        redoable(entered(log, address, old_value, new_value)).len() == 0,
{
    lemma_enter(log, address, old_value, new_value);
    lemma_record_round_trip(address, old_value, new_value);
}

} // verus!
