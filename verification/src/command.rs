//! The command line: the words of a line, and what they ask for.

use vstd::prelude::*;
use vstd::string::StringExecFns;
use crate::text::{chars_of, number_value, parse_number, push_char, ParseError};

verus! {

/// The words of a line: the pieces between spaces, none of them empty.
pub open spec fn words(line: Seq<char>) -> Seq<Seq<char>>
    decreases line.len(),
{
    if line.len() == 0 {
        Seq::empty()
    } else if line.last() == ' ' {
        words(line.drop_last())
    } else if line.len() >= 2 && line[line.len() - 2] != ' ' {
        let before = words(line.drop_last());
        before.drop_last().push(before.last().push(line.last()))
    } else {
        words(line.drop_last()).push(seq![line.last()])
    }
}

/// The address that a word names: `end` is the largest address and
/// `start` or `begin` the first; `0x` and `0b` announce hexadecimal and
/// binary digits; a leading `0` makes the word octal; anything else is
/// decimal.
pub open spec fn address_value(word: Seq<char>) -> Result<nat, ParseError> {
    if word == seq!['e', 'n', 'd'] {
        Ok(u64::MAX as nat)
    } else if word == seq!['s', 't', 'a', 'r', 't'] || word == seq!['b', 'e', 'g', 'i', 'n'] {
        Ok(0)
    } else if word.len() >= 2 && word[0] == '0' && word[1] == 'x' {
        number_value(word.skip(2), 16, u64::MAX as nat)
    } else if word.len() >= 2 && word[0] == '0' && word[1] == 'b' {
        number_value(word.skip(2), 2, u64::MAX as nat)
    } else if word.len() >= 1 && word[0] == '0' {
        number_value(word, 8, u64::MAX as nat)
    } else {
        number_value(word, 10, u64::MAX as nat)
    }
}

/// What a command line asks for.
#[derive(Debug, PartialEq, Eq)]
pub enum Command {
    /// Nothing: the line has no words.
    Nothing,
    /// Go to an address.
    Goto(u64),
    /// Leave the editor.
    Quit,
    /// Take back the last change.
    Undo,
    /// Make the last change that was taken back again.
    Redo,
    /// Show the structure of this name.
    Struct(String),
}

/// Why a command line asks for nothing that can be done.
#[derive(Debug, PartialEq, Eq)]
pub enum CommandError {
    /// The first word is no command.
    Unknown(String),
    /// A command has the wrong number of words; the command and how it is
    /// used.
    Usage(String, Usage),
    /// The word is no address.
    BadAddress(String, ParseError),
}

/// How a command is used.
#[derive(Clone, Copy, Debug, PartialEq, Eq, Structural)]
pub enum Usage {
    /// `goto <address|start|end>`
    Goto,
    /// `struct <struct name>`
    Struct,
}

/// A command as a mathematical value.
pub enum CommandView {
    Nothing,
    Goto(u64),
    Quit,
    Undo,
    Redo,
    Struct(Seq<char>),
}

/// A command error as a mathematical value.
pub enum CommandErrorView {
    Unknown(Seq<char>),
    Usage(Seq<char>, Usage),
    BadAddress(Seq<char>, ParseError),
}

impl View for Command {
    type V = CommandView;

    open spec fn view(&self) -> CommandView {
        match self {
            Command::Nothing => CommandView::Nothing,
            Command::Goto(address) => CommandView::Goto(*address),
            Command::Quit => CommandView::Quit,
            Command::Undo => CommandView::Undo,
            Command::Redo => CommandView::Redo,
            Command::Struct(name) => CommandView::Struct(name@),
        }
    }
}

impl View for CommandError {
    type V = CommandErrorView;

    open spec fn view(&self) -> CommandErrorView {
        match self {
            CommandError::Unknown(word) => CommandErrorView::Unknown(word@),
            CommandError::Usage(word, usage) => CommandErrorView::Usage(word@, *usage),
            CommandError::BadAddress(word, cause) => CommandErrorView::BadAddress(word@, *cause),
        }
    }
}

/// A command error in words.
pub open spec fn command_error_text(e: CommandErrorView) -> Seq<char> {
    match e {
        CommandErrorView::Unknown(word) => "Unknown command \u{201c}"@ + word + "\u{201d}"@,
        CommandErrorView::Usage(word, Usage::Goto) => "Usage: "@ + word + " <address|start|end>"@,
        CommandErrorView::Usage(word, Usage::Struct) => "Usage: "@ + word + " <struct name>"@,
        CommandErrorView::BadAddress(word, cause) => word + ": "@ + cause.text(),
    }
}

impl CommandError {
    /// The error in words.
    pub fn message(&self) -> (text: String)
        ensures
            text@ == command_error_text(self@),
    {
        match self {
            CommandError::Unknown(word) => {
                let mut text = String::from_str("Unknown command \u{201c}");
                text.append(word.as_str());
                text.append("\u{201d}");
                text
            },
            CommandError::Usage(word, Usage::Goto) => {
                let mut text = String::from_str("Usage: ");
                text.append(word.as_str());
                text.append(" <address|start|end>");
                text
            },
            CommandError::Usage(word, Usage::Struct) => {
                let mut text = String::from_str("Usage: ");
                text.append(word.as_str());
                text.append(" <struct name>");
                text
            },
            CommandError::BadAddress(word, cause) => {
                let mut text = word.clone();
                text.append(": ");
                let why = cause.message();
                text.append(why.as_str());
                text
            },
        }
    }
}

/// What the words of a command line ask for.
pub open spec fn command_of(args: Seq<Seq<char>>) -> Result<CommandView, CommandErrorView> {
    if args.len() == 0 {
        Ok(CommandView::Nothing)
    } else if args[0] == seq!['g'] || args[0] == seq!['g', 'o', 't', 'o'] {
        if args.len() != 2 {
            Err(CommandErrorView::Usage(args[0], Usage::Goto))
        } else {
            match address_value(args[1]) {
                Ok(address) => Ok(CommandView::Goto(address as u64)),
                Err(cause) => Err(CommandErrorView::BadAddress(args[1], cause)),
            }
        }
    } else if args[0] == seq!['q'] || args[0] == seq!['q', 'u', 'i', 't'] {
        Ok(CommandView::Quit)
    } else if args[0] == seq!['u', 'n', 'd', 'o'] {
        Ok(CommandView::Undo)
    } else if args[0] == seq!['r', 'e', 'd', 'o'] {
        Ok(CommandView::Redo)
    } else if args[0] == seq!['s', 't', 'r', 'u', 'c', 't'] {
        if args.len() != 2 {
            Err(CommandErrorView::Usage(args[0], Usage::Struct))
        } else {
            Ok(CommandView::Struct(args[1]))
        }
    } else {
        Err(CommandErrorView::Unknown(args[0]))
    }
}

/// The words as mathematical values.
pub open spec fn words_view(args: Seq<Vec<char>>) -> Seq<Seq<char>> {
    args.map_values(|w: Vec<char>| w@)
}

/// Splits a line into its words.
pub fn split_words(line: &str) -> (args: Vec<Vec<char>>)
    ensures
        words_view(args@) == words(line@),
{
    let chars = chars_of(line);
    let mut args: Vec<Vec<char>> = Vec::new();
    let mut word: Vec<char> = Vec::new();
    let mut i: usize = 0;
    assert(chars@.take(0) =~= Seq::<char>::empty());
    assert(words_view(args@) =~= Seq::<Seq<char>>::empty());
    while i < chars.len()
        invariant
            i <= chars@.len(),
            chars@ == line@,
            word@.len() > 0 <==> i > 0 && chars@[i - 1] != ' ',
            words(chars@.take(i as int)) == (if word@.len() > 0 {
                words_view(args@).push(word@)
            } else {
                words_view(args@)
            }),
        decreases chars@.len() - i,
    {
        let c = chars[i];
        let ghost done = words_view(args@);
        let ghost prefix = chars@.take(i + 1);
        assert(prefix.drop_last() =~= chars@.take(i as int));
        assert(prefix.last() == c);
        if c == ' ' {
            if word.len() > 0 {
                args.push(word);
                word = Vec::new();
                assert(words_view(args@) =~= done.push(args@.last()@));
            }
        } else {
            let ghost before = word@;
            word.push(c);
            proof {
                if before.len() > 0 {
                    assert(done.push(before).drop_last() =~= done);
                } else {
                    assert(word@ =~= seq![c]);
                }
            }
        }
        i += 1;
    }
    assert(chars@.take(chars@.len() as int) =~= chars@);
    if word.len() > 0 {
        let ghost done = words_view(args@);
        args.push(word);
        assert(words_view(args@) =~= done.push(args@.last()@));
    }
    args
}

fn is_word(word: &Vec<char>, text: &str) -> (same: bool)
    ensures
        same == (word@ == text@),
{
    let other = chars_of(text);
    if word.len() != other.len() {
        return false;
    }
    let mut i: usize = 0;
    while i < word.len()
        invariant
            i <= word@.len() == other@.len(),
            other@ == text@,
            forall|j: int| 0 <= j < i ==> word@[j] == other@[j],
        decreases word@.len() - i,
    {
        if word[i] != other[i] {
            return false;
        }
        i += 1;
    }
    assert(word@ =~= other@);
    true
}

fn word_string(word: &Vec<char>) -> (s: String)
    ensures
        s@ == word@,
{
    let mut s = String::new();
    let mut i: usize = 0;
    while i < word.len()
        invariant
            i <= word@.len(),
            s@ == word@.take(i as int),
        decreases word@.len() - i,
    {
        push_char(&mut s, word[i]);
        i += 1;
        assert(s@ =~= word@.take(i as int));
    }
    assert(word@.take(word@.len() as int) =~= word@);
    s
}

/// Reads a word as an address.
pub fn parse_address(word: &Vec<char>) -> (r: Result<u64, ParseError>)
    ensures
        match r {
            Ok(address) => address_value(word@) == Ok::<nat, ParseError>(address as nat),
            Err(e) => address_value(word@) == Err::<nat, ParseError>(e),
        },
{
    proof {
        reveal_strlit("end");
        reveal_strlit("start");
        reveal_strlit("begin");
        assert("end"@ =~= seq!['e', 'n', 'd']);
        assert("start"@ =~= seq!['s', 't', 'a', 'r', 't']);
        assert("begin"@ =~= seq!['b', 'e', 'g', 'i', 'n']);
        assert(word@.skip(0) =~= word@);
    }
    if is_word(word, "end") {
        Ok(u64::MAX)
    } else if is_word(word, "start") || is_word(word, "begin") {
        Ok(0)
    } else if word.len() >= 2 && word[0] == '0' && word[1] == 'x' {
        parse_number(word, 2, 16, u64::MAX)
    } else if word.len() >= 2 && word[0] == '0' && word[1] == 'b' {
        parse_number(word, 2, 2, u64::MAX)
    } else if word.len() >= 1 && word[0] == '0' {
        parse_number(word, 0, 8, u64::MAX)
    } else {
        parse_number(word, 0, 10, u64::MAX)
    }
}

/// Says what a command line asks for.
pub fn parse_command(line: &str) -> (r: Result<Command, CommandError>)
    ensures
        match r {
            Ok(command) => command_of(words(line@)) == Ok::<CommandView, CommandErrorView>(command@),
            Err(e) => command_of(words(line@)) == Err::<CommandView, CommandErrorView>(e@),
        },
{
    let args = split_words(line);
    proof {
        reveal_strlit("g");
        reveal_strlit("goto");
        reveal_strlit("q");
        reveal_strlit("quit");
        reveal_strlit("undo");
        reveal_strlit("redo");
        reveal_strlit("struct");
        assert("g"@ =~= seq!['g']);
        assert("goto"@ =~= seq!['g', 'o', 't', 'o']);
        assert("q"@ =~= seq!['q']);
        assert("quit"@ =~= seq!['q', 'u', 'i', 't']);
        assert("undo"@ =~= seq!['u', 'n', 'd', 'o']);
        assert("redo"@ =~= seq!['r', 'e', 'd', 'o']);
        assert("struct"@ =~= seq!['s', 't', 'r', 'u', 'c', 't']);
    }
    if args.len() == 0 {
        return Ok(Command::Nothing);
    }
    assert(words_view(args@)[0] == args@[0]@);
    let first = &args[0];
    if is_word(first, "g") || is_word(first, "goto") {
        if args.len() != 2 {
            return Err(CommandError::Usage(word_string(first), Usage::Goto));
        }
        assert(words_view(args@)[1] == args@[1]@);
        match parse_address(&args[1]) {
            Ok(address) => Ok(Command::Goto(address)),
            Err(cause) => Err(CommandError::BadAddress(word_string(&args[1]), cause)),
        }
    } else if is_word(first, "q") || is_word(first, "quit") {
        Ok(Command::Quit)
    } else if is_word(first, "undo") {
        Ok(Command::Undo)
    } else if is_word(first, "redo") {
        Ok(Command::Redo)
    } else if is_word(first, "struct") {
        if args.len() != 2 {
            return Err(CommandError::Usage(word_string(first), Usage::Struct));
        }
        assert(words_view(args@)[1] == args@[1]@);
        Ok(Command::Struct(word_string(&args[1])))
    } else {
        Err(CommandError::Unknown(word_string(first)))
    }
}

} // verus!
