//! Pointer reports: the two forms in which a terminal tells of the mouse,
//! and what each report asks of the editor.
//!
//! The reports are recognised by regular expressions. What an expression
//! matches is the `regex` crate's business and is not proved here; what is
//! made of the matched fields is.

use vstd::prelude::*;
use crate::text::{chars_of, number_value, parse_number, ParseError};

verus! {

/// `regex::Regex`, a compiled regular expression. Nothing of its inside is
/// known here.
#[verifier::external_type_specification]
#[verifier::external_body]
pub struct ExRegex(regex::Regex);

/// `regex::Error`, why a pattern was not compiled. Nothing of its inside
/// is known here.
#[verifier::external_type_specification]
#[verifier::external_body]
pub struct ExRegexError(regex::Error);

/// The pattern of an expression that `regex::Regex::new` compiled: what
/// `regex::Regex::as_str` gives, the string that the expression was made
/// from. Of an expression that was built with other options than those of
/// `regex::Regex::new` nothing is said here, and the library holds none.
pub uninterp spec fn regex_source(re: regex::Regex) -> Seq<char>;

/// Whether `regex::Regex::new` compiles `pattern`: whether the pattern is
/// valid and what it compiles to is within the size limit that
/// `regex::Regex::new` sets.
pub uninterp spec fn regex_compiles(pattern: Seq<char>) -> bool;

/// The capture groups of the leftmost match of `pattern` in `text`, the
/// whole match first, each group that took part by what it matched: what
/// `regex::Regex::captures` gives for the expression that
/// `regex::Regex::new` compiles from `pattern`, with the options that
/// `regex::Regex::new` sets and no others. There is none where nothing
/// matches.
pub uninterp spec fn regex_groups(pattern: Seq<char>, text: Seq<char>) -> Option<Seq<Option<Seq<char>>>>;

/// `regex::Regex::new` compiles a pattern with its own, fixed options. It
/// fails on a pattern that is not valid or that compiles to more than the
/// size limit, which depends on the pattern alone; the expression that it
/// gives remembers the pattern.
pub assume_specification[ regex::Regex::new ](re: &str) -> (r: Result<regex::Regex, regex::Error>)
    ensures
        r is Ok <==> regex_compiles(re@),
        r matches Ok(compiled) ==> regex_source(compiled) == re@,
;

/// An expression that `regex::Regex::new` compiled. Only `compile` makes
/// one, so that no expression with other options gets in.
struct Compiled {
    expression: regex::Regex,
}

impl Compiled {
    /// The pattern that the expression was compiled from.
    closed spec fn source(&self) -> Seq<char> {
        regex_source(self.expression)
    }
}

/// Compiles a pattern.
fn compile(pattern: &str) -> (r: Option<Compiled>)
    ensures
        r is Some <==> regex_compiles(pattern@),
        r matches Some(compiled) ==> compiled.source() == pattern@,
{
    match regex::Regex::new(pattern) {
        Ok(expression) => Some(Compiled { expression }),
        Err(_) => None,
    }
}

/// The groups as mathematical values.
pub open spec fn groups_view(groups: Seq<Option<String>>) -> Seq<Option<Seq<char>>> {
    groups.map_values(
        |g: Option<String>|
            match g {
                Some(s) => Some(s@),
                None => None,
            },
    )
}

/// Matches `text` against an expression that `regex::Regex::new`
/// compiled and hands out the groups.
///
/// Wraps `regex::Regex::captures`, which searches for the first match and
/// gives its capture groups, group 0 being the whole match, or `None`
/// where there is no match. Each group is copied out as a string.
#[verifier::external_body]
fn captures(compiled: &Compiled, text: &str) -> (r: Option<Vec<Option<String>>>)
    ensures
        match r {
            Some(groups) => regex_groups(compiled.source(), text@) == Some(groups_view(groups@)),
            None => regex_groups(compiled.source(), text@) is None,
        },
{
    compiled.expression.captures(text).map(
        |caps| caps.iter().map(|m| m.map(|m| m.as_str().to_string())).collect(),
    )
}

/// The form of a pointer report.
#[derive(Clone, Copy, Debug, PartialEq, Eq, Structural)]
pub enum Encoding {
    /// `[<button;x;yM` for a press and `[<button;x;ym` for a release.
    Sgr,
    /// `[button;x;yM`, the button raised by 32.
    Urxvt,
}

/// What a pointer report asks for.
#[derive(Clone, Copy, Debug, PartialEq, Eq, Structural)]
pub enum MouseEvent {
    /// Nothing: a release, a button other than the first, a position
    /// outside the screen.
    Ignored,
    /// The wheel was turned up.
    ScrollUp,
    /// The wheel was turned down.
    ScrollDown,
    /// The first button was pressed, or the pointer moved with it held
    /// down, at this column and row, both counted from 0.
    Press { x: u32, y: u32 },
}

/// A field of a pointer report that is no number of 32 bits.
#[derive(Clone, Copy, Debug, PartialEq, Eq, Structural)]
pub struct MouseFault {
    /// The field: 1 for the button, 2 for the column, 3 for the row.
    pub field: usize,
    /// Why it could not be read.
    pub cause: ParseError,
}

/// The pattern of a report in the form `Sgr`.
pub open spec fn sgr_pattern() -> Seq<char> {
    "^\\[<([0-9]+);([0-9]+);([0-9]+)([mM])$"@
}

/// The pattern of a report in the form `Urxvt`.
pub open spec fn urxvt_pattern() -> Seq<char> {
    "^\\[([0-9]+);([0-9]+);([0-9]+)M$"@
}

/// How many groups a match of the form's pattern has, the whole match
/// counted.
pub open spec fn group_count(encoding: Encoding) -> int {
    match encoding {
        Encoding::Sgr => 5,
        Encoding::Urxvt => 4,
    }
}

/// Whether the groups are as many as the form's pattern has, and each
/// took part in the match.
pub open spec fn complete(encoding: Encoding, groups: Seq<Option<Seq<char>>>) -> bool {
    groups.len() == group_count(encoding) && forall|i: int| 0 <= i < groups.len() ==> groups[i] is Some
}

/// The number in field `i`.
pub open spec fn field(groups: Seq<Option<Seq<char>>>, i: int) -> Result<nat, ParseError> {
    number_value(groups[i]->0, 10, u32::MAX as nat)
}

/// What a button and a position ask for, the button as the form `Sgr`
/// numbers it: 64 and 65 are the wheel; 32 on top says that the pointer
/// moved, which counts as a press; only button 0 is listened to. Column
/// and row are counted from 1 in the report, and a 0 is outside the
/// screen.
pub open spec fn pressed(button: nat, x: nat, y: nat) -> MouseEvent {
    if button == 64 {
        MouseEvent::ScrollUp
    } else if button == 65 {
        MouseEvent::ScrollDown
    } else if button != 0 && button != 32 {
        MouseEvent::Ignored
    } else if x == 0 || y == 0 {
        MouseEvent::Ignored
    } else {
        MouseEvent::Press { x: (x - 1) as u32, y: (y - 1) as u32 }
    }
}

/// What the matched fields of a report ask for. The fields are read in
/// their order, and the first that is no number of 32 bits is the fault.
/// A release is ignored: in the form `Sgr` it ends in `m`, in the form
/// `Urxvt` it is button 3 once the 32 are taken off.
pub open spec fn event_of(encoding: Encoding, groups: Seq<Option<Seq<char>>>) -> Result<MouseEvent, MouseFault> {
    if !complete(encoding, groups) {
        Ok(MouseEvent::Ignored)
    } else {
        match field(groups, 1) {
            Err(cause) => Err(MouseFault { field: 1, cause }),
            Ok(button) => match field(groups, 2) {
                Err(cause) => Err(MouseFault { field: 2, cause }),
                Ok(x) => match field(groups, 3) {
                    Err(cause) => Err(MouseFault { field: 3, cause }),
                    Ok(y) => Ok(
                        match encoding {
                            Encoding::Sgr => if groups[4]->0 == seq!['m'] {
                                MouseEvent::Ignored
                            } else {
                                pressed(button, x, y)
                            },
                            Encoding::Urxvt => if button < 32 || button == 35 {
                                MouseEvent::Ignored
                            } else {
                                pressed((button - 32) as nat, x, y)
                            },
                        },
                    ),
                },
            },
        }
    }
}

/// What a piece of input asks for as a pointer report, if it is one: the
/// form `Sgr` is tried first, then the form `Urxvt`.
pub open spec fn reading(text: Seq<char>) -> Option<Result<MouseEvent, MouseFault>> {
    match regex_groups(sgr_pattern(), text) {
        Some(groups) => Some(event_of(Encoding::Sgr, groups)),
        None => match regex_groups(urxvt_pattern(), text) {
            Some(groups) => Some(event_of(Encoding::Urxvt, groups)),
            None => None,
        },
    }
}

fn read_field(groups: &Vec<Option<String>>, i: usize) -> (r: Result<u32, ParseError>)
    requires
        i < groups@.len(),
        groups@[i as int] is Some,
    ensures
        match r {
            Ok(v) => field(groups_view(groups@), i as int) == Ok::<nat, ParseError>(v as nat),
            Err(e) => field(groups_view(groups@), i as int) == Err::<nat, ParseError>(e),
        },
{
    match &groups[i] {
        Some(s) => {
            let chars = chars_of(s.as_str());
            assert(chars@.skip(0) =~= chars@);
            match parse_number(&chars, 0, 10, 0xffff_ffff) {
                Ok(v) => Ok(v as u32),
                Err(e) => Err(e),
            }
        },
        None => Err(ParseError::Empty),
    }
}

fn press(button: u32, x: u32, y: u32) -> (event: MouseEvent)
    ensures
        event == pressed(button as nat, x as nat, y as nat),
{
    if button == 64 {
        MouseEvent::ScrollUp
    } else if button == 65 {
        MouseEvent::ScrollDown
    } else if button != 0 && button != 32 {
        MouseEvent::Ignored
    } else if x == 0 || y == 0 {
        MouseEvent::Ignored
    } else {
        MouseEvent::Press { x: x - 1, y: y - 1 }
    }
}

/// Says what the matched fields of a report ask for.
pub fn report_event(encoding: Encoding, groups: &Vec<Option<String>>) -> (r: Result<MouseEvent, MouseFault>)
    ensures
        r == event_of(encoding, groups_view(groups@)),
{
    let expected: usize = match encoding {
        Encoding::Sgr => 5,
        Encoding::Urxvt => 4,
    };
    if groups.len() != expected {
        return Ok(MouseEvent::Ignored);
    }
    let mut i: usize = 0;
    while i < expected
        invariant
            i <= expected == groups@.len(),
            forall|j: int| 0 <= j < i ==> groups@[j] is Some,
        decreases expected - i,
    {
        if groups[i].is_none() {
            assert(groups_view(groups@)[i as int] is None);
            return Ok(MouseEvent::Ignored);
        }
        i += 1;
    }
    assert(complete(encoding, groups_view(groups@))) by {
        assert forall|j: int| 0 <= j < groups@.len() implies groups_view(groups@)[j] is Some by {
            assert(groups@[j] is Some);
        }
    }
    let button = match read_field(groups, 1) {
        Ok(v) => v,
        Err(cause) => {
            return Err(MouseFault { field: 1, cause });
        },
    };
    let x = match read_field(groups, 2) {
        Ok(v) => v,
        Err(cause) => {
            return Err(MouseFault { field: 2, cause });
        },
    };
    let y = match read_field(groups, 3) {
        Ok(v) => v,
        Err(cause) => {
            return Err(MouseFault { field: 3, cause });
        },
    };
    match encoding {
        Encoding::Sgr => {
            let release = match &groups[4] {
                Some(s) => {
                    let chars = chars_of(s.as_str());
                    chars.len() == 1 && chars[0] == 'm'
                },
                None => false,
            };
            proof {
                let g = groups_view(groups@)[4]->0;
                if release {
                    assert(g =~= seq!['m']);
                } else if g == seq!['m'] {
                    assert(g.len() == 1 && g[0] == 'm');
                }
            }
            if release {
                Ok(MouseEvent::Ignored)
            } else {
                Ok(press(button, x, y))
            }
        },
        Encoding::Urxvt => {
            if button < 32 || button == 35 {
                Ok(MouseEvent::Ignored)
            } else {
                Ok(press(button - 32, x, y))
            }
        },
    }
}

/// Whether `regex::Regex::new` compiles the patterns of both forms.
pub open spec fn patterns_compile() -> bool {
    regex_compiles(sgr_pattern()) && regex_compiles(urxvt_pattern())
}

/// The compiled patterns of the two forms of report.
pub struct Mouse {
    sgr: Compiled,
    urxvt: Compiled,
}

impl Mouse {
    /// Whether the patterns are those of the two forms.
    pub closed spec fn wf(&self) -> bool {
        self.sgr.source() == sgr_pattern() && self.urxvt.source() == urxvt_pattern()
    }

    /// Compiles the patterns. Gives nothing where one of them is refused.
    pub fn new() -> (r: Option<Mouse>)
        ensures
            r is Some <==> regex_compiles(sgr_pattern()) && regex_compiles(urxvt_pattern()),
            r matches Some(mouse) ==> mouse.wf(),
    {
        let sgr = compile("^\\[<([0-9]+);([0-9]+);([0-9]+)([mM])$");
        let urxvt = compile("^\\[([0-9]+);([0-9]+);([0-9]+)M$");
        match sgr {
            Some(sgr) => match urxvt {
                Some(urxvt) => Some(Mouse { sgr, urxvt }),
                None => None,
            },
            None => None,
        }
    }

    /// Reads a piece of input as a pointer report. Gives nothing where it
    /// is none.
    pub fn decode(&self, seq: &str) -> (r: Option<Result<MouseEvent, MouseFault>>)
        requires
            self.wf(),
        ensures
            r == reading(seq@),
    {
        match captures(&self.sgr, seq) {
            Some(groups) => Some(report_event(Encoding::Sgr, &groups)),
            None => match captures(&self.urxvt, seq) {
                Some(groups) => Some(report_event(Encoding::Urxvt, &groups)),
                None => None,
            },
        }
    }
}

} // verus!
