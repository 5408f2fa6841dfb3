use butterfly::command::{parse_address, parse_command, split_words, Command, CommandError, Usage};
use butterfly::text::ParseError;

fn chars(s: &str) -> Vec<char> {
    s.chars().collect()
}

fn words(line: &str) -> Vec<String> {
    split_words(line).into_iter().map(|w| w.into_iter().collect()).collect()
}

#[test]
fn words_are_split_at_spaces() {
    assert_eq!(words(""), Vec::<String>::new());
    assert_eq!(words("   "), Vec::<String>::new());
    assert_eq!(words("goto"), vec!["goto"]);
    assert_eq!(words("goto 0x10"), vec!["goto", "0x10"]);
    assert_eq!(words("  goto   0x10  "), vec!["goto", "0x10"]);
    assert_eq!(words("a b  c"), vec!["a", "b", "c"]);
    assert_eq!(words("tab\there"), vec!["tab\there"]);
}

#[test]
fn addresses_in_each_radix() {
    assert_eq!(parse_address(&chars("1234")), Ok(1234));
    assert_eq!(parse_address(&chars("0x1234")), Ok(0x1234));
    assert_eq!(parse_address(&chars("0xABcd")), Ok(0xabcd));
    assert_eq!(parse_address(&chars("0b1011")), Ok(11));
    assert_eq!(parse_address(&chars("0777")), Ok(0o777));
    assert_eq!(parse_address(&chars("0")), Ok(0));
    assert_eq!(parse_address(&chars("+5")), Ok(5));
    assert_eq!(parse_address(&chars("end")), Ok(u64::MAX));
    assert_eq!(parse_address(&chars("start")), Ok(0));
    assert_eq!(parse_address(&chars("begin")), Ok(0));
    assert_eq!(parse_address(&chars("18446744073709551615")), Ok(u64::MAX));
}

#[test]
fn addresses_that_are_none() {
    assert_eq!(parse_address(&chars("")), Err(ParseError::Empty));
    assert_eq!(parse_address(&chars("0x")), Err(ParseError::Empty));
    assert_eq!(parse_address(&chars("0b")), Err(ParseError::Empty));
    assert_eq!(parse_address(&chars("0b2")), Err(ParseError::InvalidDigit));
    assert_eq!(parse_address(&chars("08")), Err(ParseError::InvalidDigit));
    assert_eq!(parse_address(&chars("0xg")), Err(ParseError::InvalidDigit));
    assert_eq!(parse_address(&chars("12a")), Err(ParseError::InvalidDigit));
    assert_eq!(parse_address(&chars("End")), Err(ParseError::InvalidDigit));
    assert_eq!(parse_address(&chars("-1")), Err(ParseError::InvalidDigit));
    assert_eq!(parse_address(&chars("18446744073709551616")), Err(ParseError::TooLarge));
    assert_eq!(parse_address(&chars("0x10000000000000000")), Err(ParseError::TooLarge));
}

#[test]
fn commands() {
    assert_eq!(parse_command(""), Ok(Command::Nothing));
    assert_eq!(parse_command("  "), Ok(Command::Nothing));
    assert_eq!(parse_command("goto 0x20"), Ok(Command::Goto(0x20)));
    assert_eq!(parse_command("g end"), Ok(Command::Goto(u64::MAX)));
    assert_eq!(parse_command(" goto  start "), Ok(Command::Goto(0)));
    assert_eq!(parse_command("q"), Ok(Command::Quit));
    assert_eq!(parse_command("quit"), Ok(Command::Quit));
    assert_eq!(parse_command("quit now"), Ok(Command::Quit));
    assert_eq!(parse_command("undo"), Ok(Command::Undo));
    assert_eq!(parse_command("redo"), Ok(Command::Redo));
    assert_eq!(parse_command("struct elf"), Ok(Command::Struct(String::from("elf"))));
}

#[test]
fn command_errors() {
    let unknown = parse_command("frobnicate 1").unwrap_err();
    assert_eq!(unknown, CommandError::Unknown(String::from("frobnicate")));
    assert_eq!(unknown.message(), "Unknown command \u{201c}frobnicate\u{201d}");
    let arity = parse_command("goto").unwrap_err();
    assert_eq!(arity, CommandError::Usage(String::from("goto"), Usage::Goto));
    assert_eq!(arity.message(), "Usage: goto <address|start|end>");
    assert_eq!(parse_command("g 1 2").unwrap_err().message(), "Usage: g <address|start|end>");
    let arity = parse_command("struct").unwrap_err();
    assert_eq!(arity, CommandError::Usage(String::from("struct"), Usage::Struct));
    assert_eq!(arity.message(), "Usage: struct <struct name>");
    let radix = parse_command("goto 0xzz").unwrap_err();
    assert_eq!(radix, CommandError::BadAddress(String::from("0xzz"), ParseError::InvalidDigit));
    assert_eq!(radix.message(), "0xzz: invalid digit found in string");
    assert_eq!(
        parse_command("goto 99999999999999999999").unwrap_err().message(),
        "99999999999999999999: number too large to fit in target type"
    );
    assert_eq!(parse_command("GOTO 1").unwrap_err(), CommandError::Unknown(String::from("GOTO")));
}
