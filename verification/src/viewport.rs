//! Where the cursor is and what the screen shows: the window of whole rows
//! of sixteen bytes, how the cursor and the window move, and which screen
//! column shows which byte.

use vstd::prelude::*;

verus! {

/// How far a turn of the wheel moves the window, in bytes.
pub const SCROLL_OFFSET: u64 = 0x100;

/// The longest file that the window arithmetic is defined for.
pub const MAX_LEN: u64 = 0x7fff_ffff_ffff_ffff;

/// The window and the cursor.
#[derive(Clone, Copy, Debug, PartialEq, Eq, Structural)]
pub struct Viewport {
    /// The offset of the first byte of the window's first row.
    pub base_offset: u64,
    /// The offset of the byte under the cursor.
    pub loc: u64,
}

/// The rows that show bytes: the height of the display less two, one for
/// the separator and one for the status line.
pub open spec fn rows(height: u32) -> int {
    if height >= 2 {
        height - 2
    } else {
        0
    }
}

/// The bytes that a full window shows.
pub open spec fn page(height: u32) -> int {
    16 * rows(height)
}

/// The start of the row that holds offset `x`.
pub open spec fn line_of(x: int) -> int {
    x - x % 16
}

/// `x` rounded up to the start of a row.
pub open spec fn round_up(x: int) -> int {
    line_of(x + 15)
}

/// The offset of the last byte of a file of length `lof`, 0 where the file
/// is empty.
pub open spec fn last_byte(lof: int) -> int {
    if lof > 0 {
        lof - 1
    } else {
        0
    }
}

/// `position` brought into the file.
pub open spec fn clamped(position: int, lof: int) -> int {
    if position >= lof {
        last_byte(lof)
    } else {
        position
    }
}

/// Where the visible bytes end: at the end of the window or at the end of
/// the file, whichever comes first.
pub open spec fn end_of(base: int, lof: int, height: u32) -> int {
    if lof < base + page(height) {
        lof
    } else {
        base + page(height)
    }
}

/// Whether the window shows the byte at `loc`.
pub open spec fn shows(base: int, loc: int, lof: int, height: u32) -> bool {
    base <= loc < end_of(base, lof, height)
}

/// The window's start that shows the end of the file in the window's last
/// row, or 0 where the file is shorter than the window.
pub open spec fn tail_base(lof: int, height: u32) -> int {
    if round_up(lof) >= page(height) {
        round_up(lof) - page(height)
    } else {
        0
    }
}

/// The window's start that puts the row of `loc` in the middle, but no
/// further down than `tail_base`, so that no row behind the file's end is
/// shown unless the window starts at 0.
pub open spec fn centred_base(loc: int, lof: int, height: u32) -> int {
    let half = line_of(page(height) / 2);
    let base = if line_of(loc) >= half {
        line_of(loc) - half
    } else {
        0
    };
    if base + page(height) > lof {
        tail_base(lof, height)
    } else {
        base
    }
}

/// The window's start that shows the row of `loc` with the least
/// movement: as the first row where the cursor is above the window, as
/// the last row where it is below. A window without rows starts at the
/// cursor's row.
pub open spec fn nearest_base(base: int, loc: int, lof: int, height: u32) -> int {
    if loc < base || page(height) == 0 {
        line_of(loc)
    } else if line_of(loc) + 16 < page(height) {
        0
    } else {
        line_of(loc) + 16 - page(height)
    }
}

/// The window's start after the cursor is brought into view. A cursor in
/// view leaves the window where it is.
pub open spec fn bounded_base(base: int, loc: int, lof: int, height: u32, recenter: bool) -> int {
    if shows(base, loc, lof, height) {
        base
    } else if recenter {
        centred_base(loc, lof, height)
    } else {
        nearest_base(base, loc, lof, height)
    }
}

/// Whether the window ends within the file's last row, or starts at 0.
pub open spec fn within_file(base: int, lof: int, height: u32) -> bool {
    base == 0 || base + page(height) <= round_up(lof)
}

/// The screen column, counted from the start of the hex field, of the
/// first digit of byte `byte` of a row. Each byte takes two digits and a
/// space; one more space stands before the bytes 4 and 12, two more before
/// byte 8.
pub open spec fn column_of(byte: int) -> int {
    if byte >= 12 {
        byte * 3 + 4
    } else if byte >= 8 {
        byte * 3 + 3
    } else if byte >= 4 {
        byte * 3 + 1
    } else {
        byte * 3
    }
}

/// Whether column `x` of the hex field shows a digit of byte `byte`.
pub open spec fn is_digit_of(x: int, byte: int) -> bool {
    0 <= byte < 16 && (x == column_of(byte) || x == column_of(byte) + 1)
}

/// The byte of which column `x` of the hex field shows a digit, if it
/// shows one.
pub open spec fn byte_at_column(x: int) -> Option<u8> {
    if exists|byte: int| is_digit_of(x, byte) {
        Some((choose|byte: int| is_digit_of(x, byte)) as u8)
    } else {
        None
    }
}

/// The executable form of `column_of`.
pub fn byte_to_x(byte: u8) -> (x: u8)
    requires
        byte < 16,
    ensures
        x == column_of(byte as int),
{
    if byte >= 12 {
        byte * 3 + 4
    } else if byte >= 8 {
        byte * 3 + 3
    } else if byte >= 4 {
        byte * 3 + 1
    } else {
        byte * 3
    }
}

/// The byte of which column `x` of the hex field shows a digit. A column
/// between two bytes, or behind the last, shows none.
pub fn x_to_byte(x: u8) -> (byte: Option<u8>)
    ensures
        byte == byte_at_column(x as int),
        byte matches Some(b) ==> is_digit_of(x as int, b as int),
        byte is None ==> forall|b: int| !is_digit_of(x as int, b),
{
    let gap = x == 12 || x == 25 || x == 26 || x == 39 || x >= 52;
    if gap {
        assert forall|b: int| !is_digit_of(x as int, b) by {}
        return None;
    }
    let byte3: u8 = if x >= 40 {
        x - 4
    } else if x >= 27 {
        x - 3
    } else if x >= 13 {
        x - 1
    } else {
        x
    };
    if byte3 % 3 == 2 {
        assert forall|b: int| !is_digit_of(x as int, b) by {}
        None
    } else {
        let b: u8 = byte3 / 3;
        assert(is_digit_of(x as int, b as int));
        assert forall|c: int| is_digit_of(x as int, c) implies c == b by {}
        Some(b)
    }
}

/// Reading a column back from the byte and the digit that it shows gives
/// the column: every column of the hex field that shows a digit is the
/// column of its byte, or the one after it; every other column shows no
/// byte.
pub proof fn lemma_column_round_trip(x: u8)
    ensures
        match byte_at_column(x as int) {
            Some(byte) => byte < 16 && (column_of(byte as int) == x || column_of(byte as int) + 1 == x),
            None => forall|byte: int| 0 <= byte < 16 ==> column_of(byte) != x && column_of(byte) + 1 != x,
        },
{
    if exists|byte: int| is_digit_of(x as int, byte) {
        let byte = choose|byte: int| is_digit_of(x as int, byte);
        assert(is_digit_of(x as int, byte));
    } else {
        assert forall|byte: int| 0 <= byte < 16 implies column_of(byte) != x && column_of(byte) + 1
            != x by {
            assert(!is_digit_of(x as int, byte));
        }
    }
}

/// The column of a byte shows that byte, and so does the column after it.
pub proof fn lemma_byte_round_trip(byte: u8)
    requires
        byte < 16,
    ensures
        byte_at_column(column_of(byte as int)) == Some(byte),
        byte_at_column(column_of(byte as int) + 1) == Some(byte),
{
    let x = column_of(byte as int);
    assert(is_digit_of(x, byte as int));
    assert(is_digit_of(x + 1, byte as int));
    let y = x + 1;
    assert forall|c: int| is_digit_of(x, c) implies c == byte by {}
    assert forall|c: int| is_digit_of(y, c) implies c == byte by {}
}

/// One row up. The window follows by one row where the cursor leaves
/// it at the top.
pub open spec fn after_up(vp: Viewport) -> Viewport {
    if vp.loc < 16 {
        vp
    } else {
        Viewport {
            base_offset: if vp.loc < vp.base_offset + 16 {
                (vp.base_offset - 16) as u64
            } else {
                vp.base_offset
            },
            loc: (vp.loc - 16) as u64,
        }
    }
}

/// One row down, where the file has a byte there. The window follows by
/// one row where the cursor leaves the visible bytes.
pub open spec fn after_down(vp: Viewport, lof: u64, height: u32) -> Viewport {
    if vp.loc + 16 >= lof {
        vp
    } else {
        Viewport {
            base_offset: if vp.loc + 16 >= end_of(vp.base_offset as int, lof as int, height) {
                (vp.base_offset + 16) as u64
            } else {
                vp.base_offset
            },
            loc: (vp.loc + 16) as u64,
        }
    }
}

/// One byte on, where the file has one. From the end of a row the cursor
/// goes to the start of the next, and the window follows by one row where
/// the cursor leaves the visible bytes.
pub open spec fn after_right(vp: Viewport, lof: u64, height: u32) -> Viewport {
    if vp.loc + 1 >= lof {
        vp
    } else {
        Viewport {
            base_offset: if vp.loc % 16 == 15 && vp.loc + 1 >= end_of(vp.base_offset as int, lof as int, height) {
                (vp.base_offset + 16) as u64
            } else {
                vp.base_offset
            },
            loc: (vp.loc + 1) as u64,
        }
    }
}

/// One byte back, where there is one. From the start of a row the cursor
/// goes to the end of the row before, and the window follows by one row
/// where the cursor leaves it at the top.
pub open spec fn after_left(vp: Viewport) -> Viewport {
    if vp.loc == 0 {
        vp
    } else {
        Viewport {
            base_offset: if vp.loc % 16 == 0 && vp.loc <= vp.base_offset {
                (vp.base_offset - 16) as u64
            } else {
                vp.base_offset
            },
            loc: (vp.loc - 1) as u64,
        }
    }
}

/// One window's worth of rows up, cursor and window both, each as far as
/// the start of the file.
pub open spec fn after_page_up(vp: Viewport, height: u32) -> Viewport {
    Viewport {
        base_offset: if vp.base_offset >= page(height) {
            (vp.base_offset - page(height)) as u64
        } else {
            0
        },
        loc: if vp.loc >= page(height) {
            (vp.loc - page(height)) as u64
        } else {
            0
        },
    }
}

/// One window's worth of rows down. The cursor stops at the last byte,
/// the window where its last row shows the end of the file.
pub open spec fn after_page_down(vp: Viewport, lof: u64, height: u32) -> Viewport {
    Viewport {
        base_offset: if vp.base_offset + 2 * page(height) >= lof {
            tail_base(lof as int, height) as u64
        } else {
            (vp.base_offset + page(height)) as u64
        },
        loc: clamped(vp.loc + page(height), lof as int) as u64,
    }
}

/// The window moved up by `SCROLL_OFFSET`, as far as the start of the
/// file. A cursor that is left below the visible bytes goes to the
/// window's last row, in its column. In an empty file, and with a window
/// without rows, the cursor stays.
pub open spec fn after_scroll_up(vp: Viewport, lof: u64, height: u32) -> Viewport {
    let base: int = if vp.base_offset < SCROLL_OFFSET {
        0
    } else {
        vp.base_offset - SCROLL_OFFSET
    };
    Viewport {
        base_offset: base as u64,
        loc: if vp.loc >= end_of(base, lof as int, height) && page(height) > 0 && lof > 0 {
            (end_of(base, lof as int, height) - 16 + vp.loc % 16) as u64
        } else {
            vp.loc
        },
    }
}

/// The window's start after a turn of the wheel downwards: further down
/// by `SCROLL_OFFSET`, but no further than where its last row shows the
/// end of the file; a window that shows the end of the file stays.
pub open spec fn scrolled_down(base: int, lof: int, height: u32) -> int {
    if height <= 2 || base + page(height) >= lof {
        base
    } else if base + page(height) + SCROLL_OFFSET >= lof {
        round_up(lof) - page(height)
    } else {
        base + SCROLL_OFFSET
    }
}

/// The window moved down as `scrolled_down` says. Where it moved, a
/// cursor that is left above it goes to the window's first row, in its
/// column, or to the last byte of the file where the row ends before that
/// column.
pub open spec fn after_scroll_down(vp: Viewport, lof: u64, height: u32) -> Viewport {
    let base = scrolled_down(vp.base_offset as int, lof as int, height);
    Viewport {
        base_offset: base as u64,
        loc: if base != vp.base_offset && vp.loc < base {
            clamped(base + vp.loc % 16, lof as int) as u64
        } else {
            vp.loc
        },
    }
}

/// The cursor on the last byte of its row, or of the file where the row
/// ends before its sixteenth byte.
pub open spec fn after_end(vp: Viewport, lof: u64) -> Viewport {
    Viewport { base_offset: vp.base_offset, loc: clamped(line_of(vp.loc as int) + 15, lof as int) as u64 }
}

/// The cursor on the first byte of its row.
pub open spec fn after_home(vp: Viewport) -> Viewport {
    Viewport { base_offset: vp.base_offset, loc: line_of(vp.loc as int) as u64 }
}

/// The cursor on `position`, or on the last byte where the file ends
/// before it, and the window where it is.
pub open spec fn placed(vp: Viewport, position: int, lof: u64) -> Viewport {
    Viewport { base_offset: vp.base_offset, loc: clamped(position, lof as int) as u64 }
}

/// The cursor on `position`, or on the last byte where the file ends
/// before it, and brought into view, in the middle of the window where
/// the window has to move.
pub open spec fn after_goto(vp: Viewport, position: u64, lof: u64, height: u32) -> Viewport {
    let loc = clamped(position as int, lof as int);
    Viewport {
        base_offset: bounded_base(vp.base_offset as int, loc, lof as int, height, true) as u64,
        loc: loc as u64,
    }
}

/// The cursor on the byte that the screen cell at column `x` and row `y`
/// shows, or on the last byte where the file ends before it. A cell that
/// shows no byte leaves the cursor where it is.
pub open spec fn after_click(vp: Viewport, x: u32, y: u32, lof: u64, height: u32) -> Viewport {
    match cell_at(x, y, height) {
        Some((row, byte)) => placed(vp, vp.base_offset + 16 * row + byte, lof),
        None => vp,
    }
}

/// The window moved so that it shows the cursor; see `bounded_base`.
pub open spec fn after_bounds(vp: Viewport, lof: u64, height: u32, recenter: bool) -> Viewport {
    Viewport {
        base_offset: bounded_base(vp.base_offset as int, vp.loc as int, lof as int, height, recenter) as u64,
        loc: vp.loc,
    }
}

impl Viewport {
    /// Whether the window starts at a row's start no further down than
    /// the row behind the file's end, the cursor is on a byte of the file
    /// (at 0 where the file is empty), and the file is no longer than
    /// `MAX_LEN`.
    pub open spec fn wf(self, lof: u64) -> bool {
        self.base_offset % 16 == 0 && self.base_offset <= round_up(lof as int) && (self.loc < lof
            || self.loc == 0) && lof <= MAX_LEN
    }

    /// The window at the start of the file, the cursor on the first byte.
    pub fn new() -> (vp: Viewport)
        ensures
            vp.base_offset == 0,
            vp.loc == 0,
            forall|lof: u64| lof <= MAX_LEN ==> vp.wf(lof),
    {
        Viewport { base_offset: 0, loc: 0 }
    }

    /// Where the visible bytes end.
    pub fn end_offset(&self, lof: u64, height: u32) -> (end: u64)
        requires
            self.wf(lof),
        ensures
            end == end_of(self.base_offset as int, lof as int, height),
    {
        let disp_end = self.base_offset + page_size(height);
        if lof < disp_end {
            lof
        } else {
            disp_end
        }
    }

    /// Moves the window so that it shows the cursor; see `bounded_base`.
    pub fn cursor_to_bounds(self, lof: u64, height: u32, recenter: bool) -> (vp: Viewport)
        requires
            self.wf(lof),
        ensures
            vp == after_bounds(self, lof, height, recenter),
            vp.wf(lof),
            shows(self.base_offset as int, self.loc as int, lof as int, height) ==> vp == self,
    {
        let disp_size = page_size(height);
        let loc_line = self.loc - self.loc % 16;
        if self.base_offset <= self.loc && self.loc < self.end_offset(lof, height) {
            return self;
        }
        let base: u64 = if recenter {
            let half = disp_size / 2 - (disp_size / 2) % 16;
            let centred: u64 = if loc_line >= half {
                loc_line - half
            } else {
                0
            };
            if centred + disp_size > lof {
                let line_after_end = (lof + 15) - (lof + 15) % 16;
                if line_after_end >= disp_size {
                    line_after_end - disp_size
                } else {
                    0
                }
            } else {
                centred
            }
        } else if self.loc < self.base_offset || disp_size == 0 {
            loc_line
        } else if loc_line + 16 < disp_size {
            0
        } else {
            loc_line + 16 - disp_size
        };
        Viewport { base_offset: base, loc: self.loc }
    }

    /// One row up. The window follows by one row where the cursor leaves
    /// it at the top.
    pub fn cursor_up(self, lof: u64, height: u32) -> (vp: Viewport)
        requires
            self.wf(lof),
        ensures
            vp == after_up(self),
            vp.wf(lof),
    {
        let mut vp = self;
        if vp.loc >= 16 {
            if vp.loc < vp.base_offset + 16 {
                vp.base_offset = vp.base_offset - 16;
            }
            vp.loc = vp.loc - 16;
        }
        vp
    }

    /// One row down, where the file has a byte there. The window follows
    /// by one row where the cursor leaves the visible bytes.
    pub fn cursor_down(self, lof: u64, height: u32) -> (vp: Viewport)
        requires
            self.wf(lof),
        ensures
            vp == after_down(self, lof, height),
            vp.wf(lof),
    {
        let mut vp = self;
        if vp.loc + 16 < lof {
            if vp.loc + 16 >= vp.end_offset(lof, height) {
                vp.base_offset = vp.base_offset + 16;
            }
            vp.loc = vp.loc + 16;
        }
        vp
    }

    /// One byte on, where the file has one. From the end of a row the
    /// cursor goes to the start of the next, and the window follows by one
    /// row where the cursor leaves the visible bytes.
    pub fn cursor_right(self, lof: u64, height: u32) -> (vp: Viewport)
        requires
            self.wf(lof),
        ensures
            vp == after_right(self, lof, height),
            vp.wf(lof),
    {
        let mut vp = self;
        if vp.loc + 1 < lof {
            if vp.loc % 16 == 15 {
                if vp.loc + 1 >= vp.end_offset(lof, height) {
                    vp.base_offset = vp.base_offset + 16;
                }
            }
            vp.loc = vp.loc + 1;
        }
        vp
    }

    /// One byte back, where there is one. From the start of a row the
    /// cursor goes to the end of the row before, and the window follows by
    /// one row where the cursor leaves it at the top.
    pub fn cursor_left(self, lof: u64, height: u32) -> (vp: Viewport)
        requires
            self.wf(lof),
        ensures
            vp == after_left(self),
            vp.wf(lof),
    {
        let mut vp = self;
        if vp.loc > 0 {
            if vp.loc % 16 == 0 && vp.loc <= vp.base_offset {
                vp.base_offset = vp.base_offset - 16;
            }
            vp.loc = vp.loc - 1;
        }
        vp
    }

    /// One window's worth of rows up, cursor and window both, each as far
    /// as the start of the file.
    pub fn page_up(self, lof: u64, height: u32) -> (vp: Viewport)
        requires
            self.wf(lof),
        ensures
            vp == after_page_up(self, height),
            vp.wf(lof),
    {
        let offset = page_size(height);
        Viewport {
            base_offset: if self.base_offset >= offset { self.base_offset - offset } else { 0 },
            loc: if self.loc >= offset { self.loc - offset } else { 0 },
        }
    }

    /// One window's worth of rows down. The cursor stops at the last byte,
    /// the window where its last row shows the end of the file.
    pub fn page_down(self, lof: u64, height: u32) -> (vp: Viewport)
        requires
            self.wf(lof),
        ensures
            vp == after_page_down(self, lof, height),
            vp.wf(lof),
    {
        let offset = page_size(height);
        let mut loc = self.loc + offset;
        if loc >= lof {
            loc = if lof > 0 { lof - 1 } else { 0 };
        }
        let mut base = self.base_offset + offset;
        if base + offset >= lof {
            let line_after_end = (lof + 15) - (lof + 15) % 16;
            base = if line_after_end >= offset { line_after_end - offset } else { 0 };
        }
        Viewport { base_offset: base, loc }
    }

    /// Moves the window up by `SCROLL_OFFSET`, as far as the start of the
    /// file. A cursor that is left below the visible bytes goes to the
    /// window's last row, in its column. In an empty file, and with a
    /// window without rows, the cursor stays.
    pub fn scroll_up(self, lof: u64, height: u32) -> (vp: Viewport)
        requires
            self.wf(lof),
        ensures
            vp == after_scroll_up(self, lof, height),
            vp.wf(lof),
    {
        let base: u64 = if self.base_offset < SCROLL_OFFSET { 0 } else { self.base_offset - SCROLL_OFFSET };
        let moved = Viewport { base_offset: base, loc: self.loc };
        let end = moved.end_offset(lof, height);
        let loc: u64 = if self.loc >= end && page_size(height) > 0 && lof > 0 {
            end - 16 + self.loc % 16
        } else {
            self.loc
        };
        Viewport { base_offset: base, loc }
    }

    /// Moves the window down by `SCROLL_OFFSET`, no further than where its
    /// last row shows the end of the file; a window that shows the end of
    /// the file stays. A cursor that is left above the window goes to the
    /// window's first row, in its column, or to the last byte of the file
    /// where the row ends before that column.
    pub fn scroll_down(self, lof: u64, height: u32) -> (vp: Viewport)
        requires
            self.wf(lof),
        ensures
            vp == after_scroll_down(self, lof, height),
            vp.wf(lof),
    {
        let disp_size = page_size(height);
        let disp_end = self.base_offset + disp_size;
        if height <= 2 || disp_end >= lof {
            return self;
        }
        let base: u64 = if disp_end + SCROLL_OFFSET >= lof {
            (lof + 15) - (lof + 15) % 16 - disp_size
        } else {
            self.base_offset + SCROLL_OFFSET
        };
        let mut loc = self.loc;
        if loc < base {
            loc = base + loc % 16;
            if loc >= lof {
                loc = lof - 1;
            }
        }
        Viewport { base_offset: base, loc }
    }

    /// To the last byte of the cursor's row, or of the file where the row
    /// ends before its sixteenth byte.
    pub fn key_end(self, lof: u64) -> (vp: Viewport)
        requires
            self.wf(lof),
        ensures
            vp == after_end(self, lof),
            vp.wf(lof),
    {
        let mut loc = self.loc - self.loc % 16 + 15;
        if loc >= lof {
            loc = if lof > 0 { lof - 1 } else { 0 };
        }
        Viewport { base_offset: self.base_offset, loc }
    }

    /// To the first byte of the cursor's row.
    pub fn key_home(self, lof: u64) -> (vp: Viewport)
        requires
            self.wf(lof),
        ensures
            vp == after_home(self),
            vp.wf(lof),
    {
        Viewport { base_offset: self.base_offset, loc: self.loc - self.loc % 16 }
    }

    /// Puts the cursor on `position`, or on the last byte where the file
    /// ends before it, and brings it into view, in the middle of the
    /// window where the window has to move.
    pub fn goto(self, position: u64, lof: u64, height: u32) -> (vp: Viewport)
        requires
            self.wf(lof),
        ensures
            vp == after_goto(self, position, lof, height),
            vp.wf(lof),
            within_file(self.base_offset as int, lof as int, height) || !shows(
                self.base_offset as int,
                vp.loc as int,
                lof as int,
                height,
            ) ==> within_file(vp.base_offset as int, lof as int, height),
    {
        let loc: u64 = if position >= lof {
            if lof > 0 { lof - 1 } else { 0 }
        } else {
            position
        };
        let at = Viewport { base_offset: self.base_offset, loc };
        at.cursor_to_bounds(lof, height, true)
    }

    /// Puts the cursor on the byte that the screen cell at column `x` and
    /// row `y` shows, or on the last byte where the file ends before it.
    /// A cell that shows no byte leaves the cursor where it is.
    pub fn click(self, x: u32, y: u32, lof: u64, height: u32) -> (vp: Viewport)
        requires
            self.wf(lof),
        ensures
            vp == after_click(self, x, y, lof, height),
            vp.wf(lof),
    {
        match cell_of(x, y, height) {
            Some((row, byte)) => self.place(self.base_offset + 16 * (row as u64) + byte as u64, lof),
            None => self,
        }
    }

    /// Puts the cursor on the byte at `position`, or on the last byte
    /// where the file ends before it, and leaves the window where it is.
    pub fn place(self, position: u64, lof: u64) -> (vp: Viewport)
        requires
            self.wf(lof),
        ensures
            vp == placed(self, position as int, lof),
            vp.wf(lof),
    {
        let loc: u64 = if position >= lof {
            if lof > 0 { lof - 1 } else { 0 }
        } else {
            position
        };
        Viewport { base_offset: self.base_offset, loc }
    }
}

/// The row of the window and the byte of that row that the screen cell
/// at column `x` and row `y` shows, both counted from 0. The hex field
/// starts at column 19 and the character field at column 74; the last
/// two rows of the display show no bytes.
pub open spec fn cell_at(x: u32, y: u32, height: u32) -> Option<(u32, u8)> {
    if height < 2 || y >= height - 2 || x < 19 || x > 89 {
        None
    } else {
        match byte_at_column(x - 19) {
            Some(byte) => Some((y, byte)),
            None => if x >= 74 {
                Some((y, (x - 74) as u8))
            } else {
                None
            },
        }
    }
}

/// The executable form of `cell_at`.
pub fn cell_of(x: u32, y: u32, height: u32) -> (cell: Option<(u32, u8)>)
    ensures
        cell == cell_at(x, y, height),
        cell matches Some((row, byte)) ==> row < rows(height) && byte < 16,
{
    if height < 2 || y >= height - 2 || x < 19 || x > 89 {
        return None;
    }
    match x_to_byte((x - 19) as u8) {
        Some(byte) => Some((y, byte)),
        None => if x >= 74 {
            Some((y, (x - 74) as u8))
        } else {
            None
        },
    }
}

/// The bytes that a full window shows.
pub fn page_size(height: u32) -> (size: u64)
    ensures
        size == page(height),
        size % 16 == 0,
        size < 0x10_0000_0000,
{
    if height >= 2 {
        16 * (height as u64 - 2)
    } else {
        0
    }
}

/// A jump to the end of the file, or beyond it, puts the cursor on the
/// last byte (on 0 where the file is empty), and the window then ends
/// within the file's last row or starts at 0, provided that it did so
/// before or did not show the last byte.
pub proof fn lemma_goto_end(vp: Viewport, position: u64, lof: u64, height: u32)
    requires
        vp.wf(lof),
        position >= lof,
        within_file(vp.base_offset as int, lof as int, height) || !shows(
            vp.base_offset as int,
            last_byte(lof as int),
            lof as int,
            height,
        ),
    ensures
        clamped(position as int, lof as int) == last_byte(lof as int),
        within_file(
            bounded_base(vp.base_offset as int, last_byte(lof as int), lof as int, height, true),
            lof as int,
            height,
        ),
{
}

/// A move by one row or one byte shifts the window by one row towards
/// the cursor or leaves it where it is, and keeps window and cursor fit
/// for the file.
pub proof fn lemma_line_move_shifts_one_row(vp: Viewport, lof: u64, height: u32)
    requires
        vp.wf(lof),
    ensures
        after_up(vp).wf(lof) && after_left(vp).wf(lof) && after_down(vp, lof, height).wf(lof)
            && after_right(vp, lof, height).wf(lof),
        after_up(vp).base_offset == vp.base_offset || after_up(vp).base_offset == vp.base_offset - 16,
        after_left(vp).base_offset == vp.base_offset || after_left(vp).base_offset == vp.base_offset - 16,
        after_down(vp, lof, height).base_offset == vp.base_offset || after_down(vp, lof, height).base_offset
            == vp.base_offset + 16,
        after_right(vp, lof, height).base_offset == vp.base_offset || after_right(
            vp,
            lof,
            height,
        ).base_offset == vp.base_offset + 16,
{
}

/// Pages, turns of the wheel, and the keys for the ends of a row keep
/// window and cursor fit for the file; the wheel and the pages leave the
/// window within the file's last row, or at 0, where it was so before.
pub proof fn lemma_moves_stay_in_file(vp: Viewport, lof: u64, height: u32)
    requires
        vp.wf(lof),
    ensures
        after_page_up(vp, height).wf(lof) && after_page_down(vp, lof, height).wf(lof)
            && after_scroll_up(vp, lof, height).wf(lof) && after_scroll_down(vp, lof, height).wf(lof)
            && after_end(vp, lof).wf(lof) && after_home(vp).wf(lof),
        within_file(vp.base_offset as int, lof as int, height) ==> within_file(
            after_page_up(vp, height).base_offset as int,
            lof as int,
            height,
        ) && within_file(after_scroll_up(vp, lof, height).base_offset as int, lof as int, height)
            && within_file(after_scroll_down(vp, lof, height).base_offset as int, lof as int, height),
        within_file(after_page_down(vp, lof, height).base_offset as int, lof as int, height),
{
}

} // verus!
