use mdflc::bytes::{is_char_boundary, ByteBuf, StreamInput, StreamStep};
use mdflc::console::{parse_command, trim, CommandError, ConsoleCommand, Memory};

#[test]
fn parse_words_and_letters() {
    assert_eq!(parse_command("help"), Ok(ConsoleCommand::Help));
    assert_eq!(parse_command("h"), Ok(ConsoleCommand::Help));
    assert_eq!(parse_command("o"), Ok(ConsoleCommand::Open));
    assert_eq!(parse_command("path"), Ok(ConsoleCommand::ShowPath));
    assert_eq!(parse_command("i"), Ok(ConsoleCommand::ShowIndex));
    assert_eq!(parse_command("clear"), Ok(ConsoleCommand::Clear));
    assert_eq!(parse_command("url"), Ok(ConsoleCommand::Url));
    assert_eq!(parse_command("quit"), Ok(ConsoleCommand::Quit));
    assert_eq!(parse_command("hello"), Ok(ConsoleCommand::Unknown));
}

#[test]
fn parse_set_commands() {
    assert_eq!(parse_command("set path /tmp/x"), Ok(ConsoleCommand::SetPath("/tmp/x".to_string())));
    assert_eq!(parse_command("set   index  a.md"), Ok(ConsoleCommand::SetIndex("a.md".to_string())));
    assert_eq!(parse_command("sp /srv"), Ok(ConsoleCommand::SetPath("/srv".to_string())));
    assert_eq!(parse_command("si guide.md"), Ok(ConsoleCommand::SetIndex("guide.md".to_string())));
    assert_eq!(parse_command("set foo"), Err(CommandError::MissingTarget));
    assert_eq!(parse_command("set path"), Err(CommandError::EmptyPath));
    assert_eq!(parse_command("si   "), Err(CommandError::EmptyPath));
}

#[test]
fn trim_white_space() {
    assert_eq!(trim("  a b \t"), "a b");
    assert_eq!(trim("\u{3000}x\u{85}"), "x");
    assert_eq!(trim(" \n "), "");
    assert_eq!(trim("y"), "y");
}

#[test]
fn history_keeps_newest() {
    let mut m = Memory::new(3);
    m.store("a".to_string());
    m.store("b".to_string());
    assert_eq!(m.lines(), vec!["a".to_string(), "b".to_string()]);
    m.store("c".to_string());
    assert_eq!(m.lines(), vec!["b".to_string(), "c".to_string()]);
    let mut one = Memory::new(1);
    one.store("z".to_string());
    assert!(one.lines().is_empty());
}

#[test]
fn char_boundaries() {
    assert!(is_char_boundary(0x41));
    assert!(is_char_boundary(0x7f));
    assert!(!is_char_boundary(0x80));
    assert!(!is_char_boundary(0xbf));
    assert!(is_char_boundary(0xc0));
    assert!(is_char_boundary(0xff));
}

#[test]
fn byte_buf_fills_and_reads() {
    let b = ByteBuf::E.add(0x41).unwrap();
    assert!(!b.is_empty());
    assert_eq!(b.to_char(), Some('A'));
    let b2 = b.add(0x42).unwrap();
    assert_eq!(b2.to_char(), Some('\u{4142}'));
    let full = b2.add(0).unwrap().add(0).unwrap();
    assert!(full.add(1).is_none());
    assert_eq!(full.to_char(), None);
    assert_eq!(ByteBuf::E.to_char(), None);
    assert!(ByteBuf::default().is_empty());
    assert_eq!(ByteBuf::C([0x10, 0xff, 0xff]).to_char(), Some('\u{10ffff}'));
    assert_eq!(ByteBuf::B([0xd8, 0x00]).to_char(), None);
}

#[test]
fn stream_steps() {
    let (b, s) = ByteBuf::E.step(StreamInput::Byte(b'h'));
    assert_eq!(s, StreamStep::Pending);
    let (b, s) = b.step(StreamInput::Byte(b'i'));
    assert_eq!(s, StreamStep::Char('h'));
    let (b, s) = b.step(StreamInput::Byte(0x80));
    assert_eq!(s, StreamStep::Pending);
    let (b, s) = b.step(StreamInput::Failed);
    assert_eq!(s, StreamStep::Char('\u{6980}'));
    assert!(b.is_empty());
    let (_, s) = b.step(StreamInput::Failed);
    assert_eq!(s, StreamStep::Done);
    let (_, s) = ByteBuf::A([1]).step(StreamInput::End);
    assert_eq!(s, StreamStep::Done);
    let (b, s) = ByteBuf::D([0x80, 0x80, 0x80, 0x80]).step(StreamInput::Byte(0x80));
    assert_eq!(s, StreamStep::Invalid);
    assert!(!b.is_empty());
}
