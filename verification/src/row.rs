//! What a row of the screen says: the address, the sixteen bytes in
//! hexadecimal, and the bytes as characters, cut into pieces of text and
//! switches of roles.

use vstd::prelude::*;
use vstd::string::StringExecFns;
use crate::display::Color;
use crate::text::{digit, digit_char, numeral, push_char, push_numeral};
use crate::viewport::column_of;

verus! {

/// One piece of what is drawn: text, or a role that is switched on or off.
#[derive(Debug, PartialEq, Eq)]
pub enum Piece {
    Text(String),
    On(Color),
    Off(Color),
}

/// A piece as a mathematical value.
pub enum PieceView {
    Text(Seq<char>),
    On(Color),
    Off(Color),
}

impl View for Piece {
    type V = PieceView;

    open spec fn view(&self) -> PieceView {
        match self {
            Piece::Text(text) => PieceView::Text(text@),
            Piece::On(color) => PieceView::On(*color),
            Piece::Off(color) => PieceView::Off(*color),
        }
    }
}

/// The pieces of a sequence, each by its view.
pub open spec fn pieces_view(pieces: Seq<Piece>) -> Seq<PieceView> {
    pieces.map_values(|piece: Piece| piece@)
}

/// `n` spaces.
pub open spec fn spaces(n: int) -> Seq<char> {
    Seq::new(if n > 0 { n as nat } else { 0 }, |i: int| ' ')
}

/// `text` behind as many spaces as fill it up to `width`.
pub open spec fn right_aligned(text: Seq<char>, width: int) -> Seq<char> {
    spaces(width - text.len()) + text
}

/// `text` before as many spaces as fill it up to `width`.
pub open spec fn left_aligned(text: Seq<char>, width: int) -> Seq<char> {
    text + spaces(width - text.len())
}

/// The address of a row as it is shown: in hexadecimal, to the right of
/// sixteen columns.
pub open spec fn address_text(base: u64) -> Seq<char> {
    right_aligned(numeral(base as nat, 16), 16)
}

/// The two hexadecimal digits of a byte.
pub open spec fn hex_pair(v: u8) -> Seq<char> {
    seq![digit_char(v as int / 16), digit_char(v as int % 16)]
}

/// What the hex field says of one byte: its two digits, or two spaces
/// where there is no byte, and a space behind them.
pub open spec fn cell_text(cell: Option<u8>) -> Seq<char> {
    match cell {
        Some(v) => hex_pair(v) + seq![' '],
        None => seq![' ', ' ', ' '],
    }
}

/// The spaces that stand before byte `i` of a row beyond the one that
/// follows every byte: one before the bytes 4 and 12, two before byte 8.
pub open spec fn gap(i: int) -> Seq<char> {
    if i == 4 || i == 12 {
        seq![' ']
    } else if i == 8 {
        seq![' ', ' ']
    } else {
        Seq::empty()
    }
}

/// What the hex field says of the first `n` bytes of a row.
pub open spec fn hex_cells(cells: Seq<Option<u8>>, n: int) -> Seq<char>
    decreases n,
{
    if n <= 0 {
        Seq::empty()
    } else {
        hex_cells(cells, n - 1) + gap(n - 1) + cell_text(cells[n - 1])
    }
}

/// What the hex field says of a row of sixteen bytes.
pub open spec fn hex_field(cells: Seq<Option<u8>>) -> Seq<char> {
    hex_cells(cells, 16)
}

/// The character that shows a byte in the character field: a space for
/// zero, a pilcrow for a line feed, an open box for a space, a middle dot
/// for whatever else does not print, and the character itself for the
/// rest of ASCII.
pub open spec fn glyph(byte: u8) -> char {
    if byte == 0x00 {
        ' '
    } else if byte == 0x0a {
        '\u{b6}'
    } else if byte == 0x20 {
        '\u{2423}'
    } else if byte < 0x20 || byte > 0x7e {
        '\u{b7}'
    } else {
        byte as char
    }
}

/// The character that shows what may be a byte.
pub open spec fn cell_glyph(cell: Option<u8>) -> char {
    match cell {
        Some(byte) => glyph(byte),
        None => ' ',
    }
}

/// What the character field says of the first `n` bytes of a row: one
/// piece of text for each, the one under the cursor in the role of the
/// active character.
pub open spec fn char_pieces(cells: Seq<Option<u8>>, cursor: Option<int>, n: int) -> Seq<PieceView>
    decreases n,
{
    if n <= 0 {
        Seq::empty()
    } else if cursor == Some(n - 1) {
        char_pieces(cells, cursor, n - 1) + seq![
            PieceView::On(Color::ActiveChar),
            PieceView::Text(seq![cell_glyph(cells[n - 1])]),
            PieceView::Off(Color::ActiveChar),
        ]
    } else {
        char_pieces(cells, cursor, n - 1) + seq![PieceView::Text(seq![cell_glyph(cells[n - 1])])]
    }
}

/// What a row says: the address in its role, a bar, the hex field, a bar,
/// and the character field; all of it in the role of the active line
/// where the cursor is in the row.
pub open spec fn row_pieces(base: u64, cells: Seq<Option<u8>>, active: bool, cursor: Option<int>) -> Seq<
    PieceView,
> {
    (if active {
        seq![PieceView::On(Color::ActiveLine)]
    } else {
        Seq::empty()
    }) + seq![
        PieceView::On(Color::AddressColumn),
        PieceView::Text(address_text(base)),
        PieceView::Off(Color::AddressColumn),
        PieceView::Text(seq![' ', '\u{2502}', ' ']),
        PieceView::Text(hex_field(cells)),
        PieceView::Text(seq!['\u{2502}', ' ']),
    ] + char_pieces(cells, cursor, 16) + (if active {
        seq![PieceView::Off(Color::ActiveLine)]
    } else {
        Seq::empty()
    })
}

/// The hex field of the first `n` bytes ends where the gap before byte
/// `n` starts.
pub proof fn lemma_hex_cells_len(cells: Seq<Option<u8>>, n: int)
    requires
        0 <= n <= 16,
    ensures
        hex_cells(cells, n).len() + gap(n).len() == (if n < 16 {
            column_of(n)
        } else {
            52
        }),
    decreases n,
{
    if n > 0 {
        lemma_hex_cells_len(cells, n - 1);
    }
}

/// The hex field of more bytes starts with the hex field of fewer.
pub proof fn lemma_hex_cells_prefix(cells: Seq<Option<u8>>, m: int, n: int)
    requires
        0 <= m <= n,
    ensures
        hex_cells(cells, m).len() <= hex_cells(cells, n).len(),
        hex_cells(cells, n).take(hex_cells(cells, m).len() as int) == hex_cells(cells, m),
    decreases n,
{
    if m < n {
        lemma_hex_cells_prefix(cells, m, n - 1);
        let shorter = hex_cells(cells, n - 1);
        let longer = hex_cells(cells, n);
        assert(longer.take(hex_cells(cells, m).len() as int) =~= shorter.take(
            hex_cells(cells, m).len() as int,
        ));
    } else {
        assert(hex_cells(cells, n).take(hex_cells(cells, n).len() as int) =~= hex_cells(cells, n));
    }
}

/// The hex field is 52 columns wide, and shows each byte where the
/// window's arithmetic says its column is: the two digits of byte `i`
/// stand at `column_of(i)` and behind it, and a byte that is not there
/// leaves the two columns blank.
pub proof fn lemma_hex_field_shows(cells: Seq<Option<u8>>, i: int)
    requires
        0 <= i < 16,
    ensures
        hex_field(cells).len() == 52,
        hex_field(cells)[column_of(i)] == cell_text(cells[i])[0],
        hex_field(cells)[column_of(i) + 1] == cell_text(cells[i])[1],
        hex_field(cells)[column_of(i) + 2] == ' ',
{
    lemma_hex_cells_len(cells, 16);
    lemma_hex_cells_len(cells, i);
    lemma_hex_cells_len(cells, i + 1);
    lemma_hex_cells_prefix(cells, i + 1, 16);
    let upto = hex_cells(cells, i + 1);
    let whole = hex_field(cells);
    let at = column_of(i);
    assert(upto == hex_cells(cells, i) + gap(i) + cell_text(cells[i]));
    assert(upto.len() == at + 3);
    assert(whole.take(upto.len() as int)[at] == whole[at]);
    assert(whole.take(upto.len() as int)[at + 1] == whole[at + 1]);
    assert(whole.take(upto.len() as int)[at + 2] == whole[at + 2]);
    assert(upto[at] == cell_text(cells[i])[0]);
    assert(upto[at + 1] == cell_text(cells[i])[1]);
    assert(upto[at + 2] == cell_text(cells[i])[2]);
}

/// Appends `n` spaces.
pub fn push_spaces(out: &mut String, n: usize)
    ensures
        final(out)@ == old(out)@ + spaces(n as int),
{
    let mut i: usize = 0;
    assert(out@ =~= old(out)@ + spaces(0));
    while i < n
        invariant
            i <= n,
            out@ == old(out)@ + spaces(i as int),
        decreases n - i,
    {
        push_char(out, ' ');
        i += 1;
        assert(out@ =~= old(out)@ + spaces(i as int));
    }
}

/// `text` behind as many spaces as fill it up to `width`.
pub fn align_right(text: &str, width: usize) -> (out: String)
    ensures
        out@ == right_aligned(text@, width as int),
{
    let len = text.unicode_len();
    let mut out = String::new();
    push_spaces(&mut out, if len < width { width - len } else { 0 });
    out.append(text);
    assert(out@ =~= right_aligned(text@, width as int));
    out
}

/// `text` before as many spaces as fill it up to `width`.
pub fn align_left(text: &str, width: usize) -> (out: String)
    ensures
        out@ == left_aligned(text@, width as int),
{
    let len = text.unicode_len();
    let mut out = String::from_str(text);
    push_spaces(&mut out, if len < width { width - len } else { 0 });
    out
}

/// The address of a row as it is shown.
pub fn address(base: u64) -> (out: String)
    ensures
        out@ == address_text(base),
{
    let mut digits = String::new();
    push_numeral(&mut digits, base, 16);
    assert(digits@ =~= numeral(base as nat, 16));
    align_right(digits.as_str(), 16)
}

/// The executable form of `glyph`.
pub fn glyph_of(byte: u8) -> (c: char)
    ensures
        c == glyph(byte),
{
    if byte == 0x00 {
        ' '
    } else if byte == 0x0a {
        '\u{b6}'
    } else if byte == 0x20 {
        '\u{2423}'
    } else if byte < 0x20 || byte > 0x7e {
        '\u{b7}'
    } else {
        byte as char
    }
}

fn push_cell(out: &mut String, i: usize, cell: Option<u8>)
    ensures
        final(out)@ == old(out)@ + gap(i as int) + cell_text(cell),
{
    if i == 4 || i == 12 {
        push_char(out, ' ');
    } else if i == 8 {
        push_char(out, ' ');
        push_char(out, ' ');
    }
    assert(out@ =~= old(out)@ + gap(i as int));
    match cell {
        Some(v) => {
            push_char(out, digit(v / 16));
            push_char(out, digit(v % 16));
        },
        None => {
            push_char(out, ' ');
            push_char(out, ' ');
        },
    }
    push_char(out, ' ');
    assert(out@ =~= old(out)@ + gap(i as int) + cell_text(cell));
}

/// What the hex field says of a row.
pub fn hex_row(cells: &Vec<Option<u8>>) -> (out: String)
    requires
        cells@.len() == 16,
    ensures
        out@ == hex_field(cells@),
{
    let mut out = String::new();
    let mut i: usize = 0;
    assert(out@ =~= hex_cells(cells@, 0));
    while i < 16
        invariant
            i <= 16,
            cells@.len() == 16,
            out@ == hex_cells(cells@, i as int),
        decreases 16 - i,
    {
        push_cell(&mut out, i, cells[i]);
        i += 1;
    }
    out
}

/// What a row says.
pub fn row(base: u64, cells: &Vec<Option<u8>>, active: bool, cursor: Option<usize>) -> (pieces: Vec<Piece>)
    requires
        cells@.len() == 16,
    ensures
        pieces_view(pieces@) == row_pieces(
            base,
            cells@,
            active,
            match cursor {
                Some(i) => Some(i as int),
                None => None,
            },
        ),
{
    let ghost at: Option<int> = match cursor {
        Some(i) => Some(i as int),
        None => None,
    };
    let mut pieces: Vec<Piece> = Vec::new();
    if active {
        pieces.push(Piece::On(Color::ActiveLine));
    }
    let ghost lead = pieces_view(pieces@);
    assert(lead =~= (if active {
        seq![PieceView::On(Color::ActiveLine)]
    } else {
        Seq::empty()
    }));
    pieces.push(Piece::On(Color::AddressColumn));
    pieces.push(Piece::Text(address(base)));
    pieces.push(Piece::Off(Color::AddressColumn));
    let mut bar = String::new();
    push_char(&mut bar, ' ');
    push_char(&mut bar, '\u{2502}');
    push_char(&mut bar, ' ');
    assert(bar@ =~= seq![' ', '\u{2502}', ' ']);
    pieces.push(Piece::Text(bar));
    pieces.push(Piece::Text(hex_row(cells)));
    let mut bar = String::new();
    push_char(&mut bar, '\u{2502}');
    push_char(&mut bar, ' ');
    assert(bar@ =~= seq!['\u{2502}', ' ']);
    pieces.push(Piece::Text(bar));
    let ghost head = pieces_view(pieces@);
    assert(head =~= lead + seq![
        PieceView::On(Color::AddressColumn),
        PieceView::Text(address_text(base)),
        PieceView::Off(Color::AddressColumn),
        PieceView::Text(seq![' ', '\u{2502}', ' ']),
        PieceView::Text(hex_field(cells@)),
        PieceView::Text(seq!['\u{2502}', ' ']),
    ]);
    let mut i: usize = 0;
    assert(head =~= head + char_pieces(cells@, at, 0));
    while i < 16
        invariant
            i <= 16,
            cells@.len() == 16,
            at == (match cursor {
                Some(c) => Some(c as int),
                None => None,
            }),
            pieces_view(pieces@) == head + char_pieces(cells@, at, i as int),
        decreases 16 - i,
    {
        let mut text = String::new();
        push_char(
            &mut text,
            match cells[i] {
                Some(byte) => glyph_of(byte),
                None => ' ',
            },
        );
        assert(text@ =~= seq![cell_glyph(cells@[i as int])]);
        let ghost before = pieces_view(pieces@);
        let on = match cursor {
            Some(c) => c == i,
            None => false,
        };
        if on {
            pieces.push(Piece::On(Color::ActiveChar));
            pieces.push(Piece::Text(text));
            pieces.push(Piece::Off(Color::ActiveChar));
            assert(pieces_view(pieces@) =~= before + seq![
                PieceView::On(Color::ActiveChar),
                PieceView::Text(seq![cell_glyph(cells@[i as int])]),
                PieceView::Off(Color::ActiveChar),
            ]);
        } else {
            pieces.push(Piece::Text(text));
            assert(pieces_view(pieces@) =~= before + seq![
                PieceView::Text(seq![cell_glyph(cells@[i as int])]),
            ]);
        }
        i += 1;
        assert(pieces_view(pieces@) =~= head + char_pieces(cells@, at, i as int));
    }
    if active {
        pieces.push(Piece::Off(Color::ActiveLine));
    }
    assert(pieces_view(pieces@) =~= row_pieces(base, cells@, active, at));
    pieces
}

} // verus!
