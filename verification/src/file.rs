//! The byte source: the edited file as a sequence of bytes addressed by
//! absolute offset.

use vstd::prelude::*;
use vstd::string::StringExecFns;

verus! {

/// Why a byte-source operation was refused.
#[derive(Clone, Copy, Debug, PartialEq, Eq, Structural)]
pub enum FileError {
    /// Fewer bytes were available than were asked for.
    ShortRead,
    /// The offset is beyond what this machine can address.
    OutOfRange,
}

impl FileError {
    /// The error in words.
    pub open spec fn text(self) -> Seq<char> {
        match self {
            FileError::ShortRead => "Short read"@,
            FileError::OutOfRange => "Offset out of range"@,
        }
    }

    /// The error in words.
    pub fn message(&self) -> (text: String)
        ensures
            text@ == self.text(),
    {
        match self {
            FileError::ShortRead => String::from_str("Short read"),
            FileError::OutOfRange => String::from_str("Offset out of range"),
        }
    }
}

/// The edited file, held as its bytes.
pub struct File {
    data: Vec<u8>,
}

impl View for File {
    type V = Seq<u8>;

    closed spec fn view(&self) -> Seq<u8> {
        self.data@
    }
}

/// The bytes of `data` that a read of `count` bytes at `position` can reach.
pub open spec fn available(data: Seq<u8>, position: int, count: int) -> Seq<u8> {
    if 0 <= position < data.len() && 0 <= count {
        data.subrange(position, if position + count <= data.len() { position + count } else { data.len() as int })
    } else {
        Seq::empty()
    }
}

/// `data` with the byte at `position` set to `byte`, grown with zero bytes
/// where `position` lies beyond the end.
pub open spec fn written(data: Seq<u8>, position: int, byte: u8) -> Seq<u8> {
    if 0 <= position < data.len() {
        data.update(position, byte)
    } else {
        data + Seq::new((position - data.len()) as nat, |i: int| 0u8).push(byte)
    }
}

impl File {
    /// Wraps the bytes of a file.
    pub fn new(data: Vec<u8>) -> (file: File)
        ensures
            file@ == data@,
    {
        File { data }
    }

    /// The file's length in bytes.
    pub fn len(&self) -> (n: u64)
        ensures
            n == self@.len(),
            n <= usize::MAX,
    {
        self.data.len() as u64
    }

    /// The file's bytes.
    pub fn bytes(&self) -> (data: &Vec<u8>)
        ensures
            data@ == self@,
    {
        &self.data
    }

    /// Fills `buffer`, keeping its length, with the bytes that start at
    /// `position`. Where the file ends before the buffer is full, the bytes
    /// that exist are copied to the front of the buffer and the read fails.
    /// A read of no bytes succeeds at any position.
    pub fn read(&self, position: u64, buffer: &mut Vec<u8>) -> (r: Result<(), FileError>)
        ensures
            r is Ok <==> old(buffer)@.len() == 0 || position + old(buffer)@.len() <= self@.len(),
            r is Err ==> r == Err::<(), FileError>(FileError::ShortRead),
            final(buffer)@.len() == old(buffer)@.len(),
            final(buffer)@ == available(self@, position as int, old(buffer)@.len() as int)
                + old(buffer)@.skip(available(self@, position as int, old(buffer)@.len() as int).len() as int),
    {
        let want: usize = buffer.len();
        let have: usize = self.data.len();
        let ghost before = buffer@;
        let ghost avail = available(self@, position as int, want as int);
        if position >= have as u64 {
            assert(avail =~= Seq::<u8>::empty());
            assert(before.skip(0) =~= before);
            return if want == 0 { Ok(()) } else { Err(FileError::ShortRead) };
        }
        let start: usize = position as usize;
        let room: usize = have - start;
        let count: usize = if want <= room { want } else { room };
        let mut i: usize = 0;
        while i < count
            invariant
                i <= count,
                count <= want,
                start + count <= have,
                have == self.data@.len(),
                buffer@.len() == want,
                before.len() == want,
                forall|j: int| 0 <= j < i ==> buffer@[j] == self.data@[start + j],
                forall|j: int| i <= j < want ==> buffer@[j] == before[j],
            decreases count - i,
        {
            buffer.set(i, self.data[start + i]);
            i += 1;
        }
        assert(avail.len() == count);
        assert(buffer@ =~= avail + before.skip(count as int));
        if want <= room { Ok(()) } else { Err(FileError::ShortRead) }
    }

    /// The byte at `position`.
    pub fn read_u8(&self, position: u64) -> (r: Result<u8, FileError>)
        ensures
            position < self@.len() ==> r == Ok::<u8, FileError>(self@[position as int]),
            position >= self@.len() ==> r == Err::<u8, FileError>(FileError::ShortRead),
    {
        if position < self.data.len() as u64 {
            Ok(self.data[position as usize])
        } else {
            Err(FileError::ShortRead)
        }
    }

    /// Sets the byte at `position`. A position at or beyond the end grows the
    /// file, the gap filled with zero bytes.
    pub fn write_u8(&mut self, position: u64, byte: u8) -> (r: Result<(), FileError>)
        ensures
            r is Ok <==> position < usize::MAX,
            r is Ok ==> final(self)@ == written(old(self)@, position as int, byte),
            r is Err ==> r == Err::<(), FileError>(FileError::OutOfRange) && final(self)@ == old(self)@,
    {
        if position >= usize::MAX as u64 {
            return Err(FileError::OutOfRange);
        }
        let at: usize = position as usize;
        let ghost before = self.data@;
        if at >= self.data.len() {
            self.data.resize(at + 1, 0u8);
            assert(self.data@.subrange(0, before.len() as int) == before);
        }
        self.data.set(at, byte);
        assert(self.data@ =~= written(before, position as int, byte));
        Ok(())
    }
}

} // verus!
