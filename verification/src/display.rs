//! What the screen is told: the roles that text can be shown in.

use vstd::prelude::*;
use vstd::string::StringExecFns;
use crate::text::{numeral, push_char, push_numeral};

verus! {

/// The role of a piece of text on the screen. A renderer picks colours and
/// weights by it.
#[derive(Clone, Copy, Debug, PartialEq, Eq, Structural)]
pub enum Color {
    ActiveLine,
    ActiveChar,
    ErrorInfo,
    AddressColumn,
    StatusModeRead,
    StatusModeReplace,
    StatusLoc,
    StatusModeModify,
    StructH0,
    StructH1,
    StructH2,
    StructH3P,
    Highlight,
}

/// The role of a section header of a given nesting level: one each for the
/// levels 0, 1 and 2, and one shared by all deeper levels.
pub open spec fn header_color(level: u8) -> Color {
    if level == 0 {
        Color::StructH0
    } else if level == 1 {
        Color::StructH1
    } else if level == 2 {
        Color::StructH2
    } else {
        Color::StructH3P
    }
}

/// The executable form of `header_color`.
pub fn color_of_level(level: u8) -> (color: Color)
    ensures
        color == header_color(level),
{
    if level == 0 {
        Color::StructH0
    } else if level == 1 {
        Color::StructH1
    } else if level == 2 {
        Color::StructH2
    } else {
        Color::StructH3P
    }
}

/// The roles that are switched on.
#[derive(Clone, Copy, Debug, PartialEq, Eq, Structural)]
pub struct ColorMode {
    pub active_line: bool,
    pub active_char: bool,
    pub error_info: bool,
    pub address_column: bool,
    pub status_mode_read: bool,
    pub status_mode_replace: bool,
    pub status_loc: bool,
    pub status_mode_modify: bool,
    pub struct_h0: bool,
    pub struct_h1: bool,
    pub struct_h2: bool,
    pub struct_h3p: bool,
    pub highlight: bool,
}

impl ColorMode {
    /// Whether a role is switched on.
    pub open spec fn has(self, color: Color) -> bool {
        match color {
            Color::ActiveLine => self.active_line,
            Color::ActiveChar => self.active_char,
            Color::ErrorInfo => self.error_info,
            Color::AddressColumn => self.address_column,
            Color::StatusModeRead => self.status_mode_read,
            Color::StatusModeReplace => self.status_mode_replace,
            Color::StatusLoc => self.status_loc,
            Color::StatusModeModify => self.status_mode_modify,
            Color::StructH0 => self.struct_h0,
            Color::StructH1 => self.struct_h1,
            Color::StructH2 => self.struct_h2,
            Color::StructH3P => self.struct_h3p,
            Color::Highlight => self.highlight,
        }
    }

    /// The mode with one role switched on or off.
    pub open spec fn with(self, color: Color, on: bool) -> ColorMode {
        match color {
            Color::ActiveLine => ColorMode { active_line: on, ..self },
            Color::ActiveChar => ColorMode { active_char: on, ..self },
            Color::ErrorInfo => ColorMode { error_info: on, ..self },
            Color::AddressColumn => ColorMode { address_column: on, ..self },
            Color::StatusModeRead => ColorMode { status_mode_read: on, ..self },
            Color::StatusModeReplace => ColorMode { status_mode_replace: on, ..self },
            Color::StatusLoc => ColorMode { status_loc: on, ..self },
            Color::StatusModeModify => ColorMode { status_mode_modify: on, ..self },
            Color::StructH0 => ColorMode { struct_h0: on, ..self },
            Color::StructH1 => ColorMode { struct_h1: on, ..self },
            Color::StructH2 => ColorMode { struct_h2: on, ..self },
            Color::StructH3P => ColorMode { struct_h3p: on, ..self },
            Color::Highlight => ColorMode { highlight: on, ..self },
        }
    }

    /// The mode with no role switched on.
    pub open spec fn blank() -> ColorMode {
        ColorMode {
            active_line: false,
            active_char: false,
            error_info: false,
            address_column: false,
            status_mode_read: false,
            status_mode_replace: false,
            status_loc: false,
            status_mode_modify: false,
            struct_h0: false,
            struct_h1: false,
            struct_h2: false,
            struct_h3p: false,
            highlight: false,
        }
    }

    /// No role switched on.
    pub fn none() -> (mode: ColorMode)
        ensures
            mode == ColorMode::blank(),
    {
        ColorMode {
            active_line: false,
            active_char: false,
            error_info: false,
            address_column: false,
            status_mode_read: false,
            status_mode_replace: false,
            status_loc: false,
            status_mode_modify: false,
            struct_h0: false,
            struct_h1: false,
            struct_h2: false,
            struct_h3p: false,
            highlight: false,
        }
    }

    /// Whether a role is switched on.
    pub fn contains(&self, color: Color) -> (on: bool)
        ensures
            on == self.has(color),
    {
        match color {
            Color::ActiveLine => self.active_line,
            Color::ActiveChar => self.active_char,
            Color::ErrorInfo => self.error_info,
            Color::AddressColumn => self.address_column,
            Color::StatusModeRead => self.status_mode_read,
            Color::StatusModeReplace => self.status_mode_replace,
            Color::StatusLoc => self.status_loc,
            Color::StatusModeModify => self.status_mode_modify,
            Color::StructH0 => self.struct_h0,
            Color::StructH1 => self.struct_h1,
            Color::StructH2 => self.struct_h2,
            Color::StructH3P => self.struct_h3p,
            Color::Highlight => self.highlight,
        }
    }

    fn switch(&mut self, color: Color, on: bool)
        ensures
            *final(self) == old(self).with(color, on),
    {
        let mode = *self;
        *self =
        match color {
            Color::ActiveLine => ColorMode { active_line: on, ..mode },
            Color::ActiveChar => ColorMode { active_char: on, ..mode },
            Color::ErrorInfo => ColorMode { error_info: on, ..mode },
            Color::AddressColumn => ColorMode { address_column: on, ..mode },
            Color::StatusModeRead => ColorMode { status_mode_read: on, ..mode },
            Color::StatusModeReplace => ColorMode { status_mode_replace: on, ..mode },
            Color::StatusLoc => ColorMode { status_loc: on, ..mode },
            Color::StatusModeModify => ColorMode { status_mode_modify: on, ..mode },
            Color::StructH0 => ColorMode { struct_h0: on, ..mode },
            Color::StructH1 => ColorMode { struct_h1: on, ..mode },
            Color::StructH2 => ColorMode { struct_h2: on, ..mode },
            Color::StructH3P => ColorMode { struct_h3p: on, ..mode },
            Color::Highlight => ColorMode { highlight: on, ..mode },
        };
    }

    /// Switches a role on.
    pub fn set(&mut self, color: Color)
        ensures
            *final(self) == old(self).with(color, true),
    {
        self.switch(color, true)
    }

    /// Switches a role off.
    pub fn unset(&mut self, color: Color)
        ensures
            *final(self) == old(self).with(color, false),
    {
        self.switch(color, false)
    }
}

/// Whether the roles that are on ask for bold text.
pub open spec fn is_bold(mode: ColorMode) -> bool {
    mode.error_info || mode.status_mode_read || mode.status_mode_modify || mode.status_mode_replace
        || mode.struct_h0 || mode.highlight
}

/// Whether the roles that are on ask for underlined text.
pub open spec fn is_underlined(mode: ColorMode) -> bool {
    mode.status_mode_replace || mode.highlight
}

/// The colour of the text, as the terminal numbers it; 9 is the
/// terminal's own. Where several roles are on, structure headers go
/// before the status line's offset, that before the status line's mode,
/// that before the address column, and that before errors.
pub open spec fn foreground(mode: ColorMode) -> nat {
    if mode.struct_h0 || mode.struct_h1 {
        4
    } else if mode.status_loc {
        6
    } else if mode.status_mode_replace || mode.status_mode_modify {
        1
    } else if mode.status_mode_read {
        2
    } else if mode.address_column {
        6
    } else if mode.error_info {
        1
    } else {
        9
    }
}

/// The colour behind the text; 9 is the terminal's own.
pub open spec fn background(mode: ColorMode) -> nat {
    if mode.active_line {
        0
    } else {
        9
    }
}

/// The sequence that sets the terminal's rendition for the roles that are
/// on: a reset, then bold (not together with swapped colours),
/// underline, the colours, and swapped colours for the character under
/// the cursor.
pub open spec fn sgr_text(mode: ColorMode) -> Seq<char> {
    seq!['\x1b', '[', '0'] + (if is_bold(mode) && !mode.active_char {
        seq![';', '1']
    } else {
        Seq::empty()
    }) + (if is_underlined(mode) {
        seq![';', '4']
    } else {
        Seq::empty()
    }) + (if foreground(mode) != 9 {
        seq![';'] + numeral(foreground(mode) + 30, 10)
    } else {
        Seq::empty()
    }) + (if background(mode) != 9 {
        seq![';'] + numeral(background(mode) + 40, 10)
    } else {
        Seq::empty()
    }) + (if mode.active_char {
        seq![';', '7']
    } else {
        Seq::empty()
    }) + seq!['m']
}

fn push_flag(text: &mut String, on: bool, code: char)
    ensures
        final(text)@ == old(text)@ + (if on {
            seq![';', code]
        } else {
            Seq::empty()
        }),
{
    if on {
        push_char(text, ';');
        push_char(text, code);
        assert(text@ =~= old(text)@ + seq![';', code]);
    } else {
        assert(text@ =~= old(text)@ + Seq::<char>::empty());
    }
}

fn push_colour(text: &mut String, colour: u64, offset: u64)
    requires
        colour <= 9,
        offset <= 40,
    ensures
        final(text)@ == old(text)@ + (if colour != 9 {
            seq![';'] + numeral((colour + offset) as nat, 10)
        } else {
            Seq::empty()
        }),
{
    if colour != 9 {
        push_char(text, ';');
        push_numeral(text, colour + offset, 10);
        assert(text@ =~= old(text)@ + (seq![';'] + numeral((colour + offset) as nat, 10)));
    } else {
        assert(text@ =~= old(text)@ + Seq::<char>::empty());
    }
}

fn foreground_of(mode: ColorMode) -> (colour: u64)
    ensures
        colour == foreground(mode),
        colour <= 9,
{
    if mode.struct_h0 || mode.struct_h1 {
        4
    } else if mode.status_loc {
        6
    } else if mode.status_mode_replace || mode.status_mode_modify {
        1
    } else if mode.status_mode_read {
        2
    } else if mode.address_column {
        6
    } else if mode.error_info {
        1
    } else {
        9
    }
}

/// Writes `sgr_text`.
pub fn sgr(mode: ColorMode) -> (text: String)
    ensures
        text@ == sgr_text(mode),
{
    let bold = mode.error_info || mode.status_mode_read || mode.status_mode_modify
        || mode.status_mode_replace || mode.struct_h0 || mode.highlight;
    let underline = mode.status_mode_replace || mode.highlight;
    let mut text = String::new();
    push_char(&mut text, '\x1b');
    push_char(&mut text, '[');
    push_char(&mut text, '0');
    assert(text@ =~= seq!['\x1b', '[', '0']);
    push_flag(&mut text, bold && !mode.active_char, '1');
    push_flag(&mut text, underline, '4');
    push_colour(&mut text, foreground_of(mode), 30);
    push_colour(&mut text, if mode.active_line { 0 } else { 9 }, 40);
    push_flag(&mut text, mode.active_char, '7');
    push_char(&mut text, 'm');
    text
}

/// The sequence that puts the terminal's cursor on column `x` of row `y`,
/// both counted from 0.
pub open spec fn cursor_text(x: nat, y: nat) -> Seq<char> {
    seq!['\x1b', '['] + numeral(y + 1, 10) + seq![';'] + numeral(x + 1, 10) + seq!['H']
}

/// What the screen is in: the height that the editor works with, and the
/// roles that are switched on.
///
/// A change of the terminal's height is taken over in two steps. When
/// `h` first sees the new height, it goes on giving the old one and
/// notes that the screen has to be drawn again; `need_redraw` hands that
/// note out and notes in turn that it was seen; the next `h` then takes
/// the new height over.
pub struct Display {
    old_height: u32,
    need_redraw: bool,
    redraw_acknowledged: bool,
    mode: ColorMode,
}

/// The screen's state as a mathematical value.
pub struct DisplayView {
    pub height: u32,
    pub need_redraw: bool,
    pub redraw_acknowledged: bool,
    pub mode: ColorMode,
}

impl View for Display {
    type V = DisplayView;

    closed spec fn view(&self) -> DisplayView {
        DisplayView {
            height: self.old_height,
            need_redraw: self.need_redraw,
            redraw_acknowledged: self.redraw_acknowledged,
            mode: self.mode,
        }
    }
}

/// The screen's state after the terminal's height is looked at.
pub open spec fn height_seen(d: DisplayView, rows: u32) -> DisplayView {
    if rows == d.height {
        d
    } else if d.redraw_acknowledged {
        DisplayView { height: rows, need_redraw: false, redraw_acknowledged: false, ..d }
    } else {
        DisplayView { need_redraw: true, ..d }
    }
}

impl Display {
    /// A screen of the given height with no role switched on.
    pub fn new(height: u32) -> (display: Display)
        ensures
            display@ == (DisplayView {
                height,
                need_redraw: false,
                redraw_acknowledged: false,
                mode: ColorMode::blank(),
            }),
    {
        Display { old_height: height, need_redraw: false, redraw_acknowledged: false, mode: ColorMode::none() }
    }

    /// The height that the editor works with, given the height that the
    /// terminal has now.
    pub fn h(&mut self, rows: u32) -> (height: u32)
        ensures
            final(self)@ == height_seen(old(self)@, rows),
            height == final(self)@.height,
    {
        if rows != self.old_height {
            if self.redraw_acknowledged {
                self.need_redraw = false;
                self.redraw_acknowledged = false;
                self.old_height = rows;
            } else {
                self.need_redraw = true;
            }
        }
        self.old_height
    }

    /// Whether the screen has to be drawn again because the terminal's
    /// height changed.
    pub fn need_redraw(&mut self) -> (needed: bool)
        ensures
            needed == old(self)@.need_redraw,
            final(self)@ == (DisplayView {
                redraw_acknowledged: old(self)@.redraw_acknowledged || needed,
                ..old(self)@
            }),
    {
        if self.need_redraw {
            self.redraw_acknowledged = true;
        }
        self.need_redraw
    }

    /// Switches a role on and gives the sequence that sets the
    /// terminal's rendition.
    pub fn color_on(&mut self, color: Color) -> (text: String)
        ensures
            final(self)@ == (DisplayView { mode: old(self)@.mode.with(color, true), ..old(self)@ }),
            text@ == sgr_text(final(self)@.mode),
    {
        self.color_on_ref(&color)
    }

    /// Switches a role off and gives the sequence that sets the
    /// terminal's rendition.
    pub fn color_off(&mut self, color: Color) -> (text: String)
        ensures
            final(self)@ == (DisplayView { mode: old(self)@.mode.with(color, false), ..old(self)@ }),
            text@ == sgr_text(final(self)@.mode),
    {
        self.color_off_ref(&color)
    }

    /// `color_on` for a role behind a reference.
    pub fn color_on_ref(&mut self, color: &Color) -> (text: String)
        ensures
            final(self)@ == (DisplayView { mode: old(self)@.mode.with(*color, true), ..old(self)@ }),
            text@ == sgr_text(final(self)@.mode),
    {
        self.mode.set(*color);
        sgr(self.mode)
    }

    /// `color_off` for a role behind a reference.
    pub fn color_off_ref(&mut self, color: &Color) -> (text: String)
        ensures
            final(self)@ == (DisplayView { mode: old(self)@.mode.with(*color, false), ..old(self)@ }),
            text@ == sgr_text(final(self)@.mode),
    {
        self.mode.unset(*color);
        sgr(self.mode)
    }

    /// The sequence that puts the terminal's cursor on column `x` of row
    /// `y`, both counted from 0.
    pub fn set_cursor_pos(&self, x: u32, y: u32) -> (text: String)
        ensures
            text@ == cursor_text(x as nat, y as nat),
    {
        let mut text = String::new();
        push_char(&mut text, '\x1b');
        push_char(&mut text, '[');
        let ghost t0 = text@;
        assert(t0 =~= seq!['\x1b', '[']);
        push_numeral(&mut text, y as u64 + 1, 10);
        push_char(&mut text, ';');
        push_numeral(&mut text, x as u64 + 1, 10);
        push_char(&mut text, 'H');
        assert(text@ =~= cursor_text(x as nat, y as nat));
        text
    }
}

} // verus!
