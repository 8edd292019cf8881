use hack_toolchain::text::{decimal_string, file_stem_of};
use hack_toolchain::vm_translator::parser::{
    parse_command, Command, CommandType, ParseErrorKind, Parser,
};

fn parse(line: &str) -> Option<Command> {
    parse_command(line, &"Main.vm".to_string(), 1).expect("the line is a command")
}

fn parse_failure(line: &str) -> (ParseErrorKind, String, String, usize) {
    match parse_command(line, &"Main.vm".to_string(), 12) {
        Ok(_) => panic!("the line is no command"),
        Err(e) => (e.kind, e.token, e.file_name, e.line),
    }
}

fn lines(text: &[&str]) -> Vec<String> {
    text.iter().map(|s| s.to_string()).collect()
}

#[test]
fn arithmetic_mnemonics_are_commands_by_themselves() {
    for op in ["add", "sub", "neg", "eq", "gt", "lt", "and", "or", "not"] {
        let command = parse(op).expect("a command");
        assert_eq!(*command.get_command_type(), CommandType::Arithmetic);
        assert_eq!(command.get_arg1(), op);
        assert!(command.get_arg2().is_none());
        assert_eq!(command.get_file_name(), "Main.vm");
    }
}

#[test]
fn push_has_segment_and_index() {
    let command = parse("push constant 7").expect("a command");
    assert_eq!(*command.get_command_type(), CommandType::Push);
    assert_eq!(command.get_arg1(), "constant");
    assert_eq!(command.get_arg2().map(|s| s.as_str()), Some("7"));
}

#[test]
fn pop_accepts_each_segment() {
    for segment in [
        "argument", "local", "static", "constant", "this", "that", "pointer", "temp",
    ] {
        let command = parse(&format!("pop {} 3", segment)).expect("a command");
        assert_eq!(*command.get_command_type(), CommandType::Pop);
        assert_eq!(command.get_arg1(), segment);
        assert_eq!(command.get_arg2().map(|s| s.as_str()), Some("3"));
    }
}

#[test]
fn branching_commands_take_a_label() {
    let label = parse("label LOOP_START").expect("a command");
    assert_eq!(*label.get_command_type(), CommandType::Label);
    assert_eq!(label.get_arg1(), "LOOP_START");
    assert!(label.get_arg2().is_none());
    let goto = parse("goto END").expect("a command");
    assert_eq!(*goto.get_command_type(), CommandType::Goto);
    assert_eq!(goto.get_arg1(), "END");
    let if_goto = parse("if-goto LOOP_START").expect("a command");
    assert_eq!(*if_goto.get_command_type(), CommandType::If);
    assert_eq!(if_goto.get_arg1(), "LOOP_START");
}

#[test]
fn function_and_call_take_a_name_and_a_count() {
    let function = parse("function Foo.bar 2").expect("a command");
    assert_eq!(*function.get_command_type(), CommandType::Function);
    assert_eq!(function.get_arg1(), "Foo.bar");
    assert_eq!(function.get_arg2().map(|s| s.as_str()), Some("2"));
    let call = parse("call Foo.bar 0").expect("a command");
    assert_eq!(*call.get_command_type(), CommandType::Call);
    assert_eq!(call.get_arg1(), "Foo.bar");
    assert_eq!(call.get_arg2().map(|s| s.as_str()), Some("0"));
}

#[test]
fn return_stands_alone() {
    let command = parse("return").expect("a command");
    assert_eq!(*command.get_command_type(), CommandType::Return);
    assert_eq!(command.get_arg1(), "return");
    assert!(command.get_arg2().is_none());
}

#[test]
fn blank_lines_and_comments_hold_no_command() {
    assert!(parse("").is_none());
    assert!(parse("   \t  ").is_none());
    assert!(parse("// a whole line of comment").is_none());
    assert!(parse("   // indented comment").is_none());
    assert!(parse("\r\n").is_none());
}

#[test]
fn inline_comments_and_surrounding_space_are_dropped() {
    let command = parse("  push local 2   // the third local\n").expect("a command");
    assert_eq!(*command.get_command_type(), CommandType::Push);
    assert_eq!(command.get_arg1(), "local");
    assert_eq!(command.get_arg2().map(|s| s.as_str()), Some("2"));
    let tight = parse("add//no space before the comment").expect("a command");
    assert_eq!(tight.get_arg1(), "add");
}

#[test]
fn any_run_of_spaces_separates_tokens() {
    let command = parse("push\t\tconstant     17").expect("a command");
    assert_eq!(command.get_arg1(), "constant");
    assert_eq!(command.get_arg2().map(|s| s.as_str()), Some("17"));
}

#[test]
fn unknown_first_token_is_unrecognized() {
    let (kind, token, file, line) = parse_failure("jump somewhere");
    assert_eq!(kind, ParseErrorKind::UnrecognizedCommand);
    assert_eq!(token, "jump");
    assert_eq!(file, "Main.vm");
    assert_eq!(line, 12);
}

#[test]
fn unknown_segment_is_malformed() {
    let (kind, token, _, _) = parse_failure("push heap 3");
    assert_eq!(kind, ParseErrorKind::MalformedCommand);
    assert_eq!(token, "heap");
}

#[test]
fn index_must_be_a_non_negative_integer() {
    for bad in ["-1", "x", "1.5", "3x", "+", "4294967296", "99999999999999999999"] {
        let (kind, token, _, _) = parse_failure(&format!("push constant {}", bad));
        assert_eq!(kind, ParseErrorKind::MalformedCommand);
        assert_eq!(token, bad);
    }
    for good in ["0", "007", "+5", "4294967295"] {
        let command = parse(&format!("push constant {}", good)).expect("a command");
        assert_eq!(command.get_arg2().map(|s| s.as_str()), Some(good));
    }
}

#[test]
fn count_of_function_and_call_is_checked() {
    let (kind, token, _, _) = parse_failure("function Foo.bar two");
    assert_eq!(kind, ParseErrorKind::MalformedCommand);
    assert_eq!(token, "two");
    let (kind, token, _, _) = parse_failure("call Foo.bar -3");
    assert_eq!(kind, ParseErrorKind::MalformedCommand);
    assert_eq!(token, "-3");
}

#[test]
fn missing_tokens_blame_the_command_word() {
    for short in ["push", "push constant", "pop local", "label", "goto", "if-goto", "function f", "call"] {
        let (kind, token, _, _) = parse_failure(short);
        assert_eq!(kind, ParseErrorKind::MalformedCommand);
        assert_eq!(token, short.split(' ').next().unwrap());
    }
}

#[test]
fn surplus_tokens_blame_the_first_of_them() {
    let (kind, token, _, _) = parse_failure("push constant 7 8");
    assert_eq!(kind, ParseErrorKind::MalformedCommand);
    assert_eq!(token, "8");
    let (kind, token, _, _) = parse_failure("label A B");
    assert_eq!(kind, ParseErrorKind::MalformedCommand);
    assert_eq!(token, "B");
    let (kind, token, _, _) = parse_failure("return now");
    assert_eq!(kind, ParseErrorKind::MalformedCommand);
    assert_eq!(token, "now");
    let (kind, token, _, _) = parse_failure("call f 1 2");
    assert_eq!(kind, ParseErrorKind::MalformedCommand);
    assert_eq!(token, "2");
}

#[test]
fn labels_are_not_looked_into() {
    let command = parse("goto 12$%.weird").expect("a command");
    assert_eq!(command.get_arg1(), "12$%.weird");
}

#[test]
fn parser_walks_through_the_commands_of_a_file() {
    let mut parser = Parser::new(
        "Main.vm".to_string(),
        lines(&[
            "// header",
            "",
            "push constant 7",
            "   ",
            "add // inline",
            "// trailer",
        ]),
    );
    assert!(parser.has_more_commands());
    assert!(parser.get_current_command().is_none());

    assert!(parser.advance().is_ok());
    let first = parser.get_current_command().expect("a command");
    assert_eq!(*first.get_command_type(), CommandType::Push);
    assert!(parser.has_more_commands());

    assert!(parser.advance().is_ok());
    let second = parser.get_current_command().expect("a command");
    assert_eq!(second.get_arg1(), "add");
    assert!(parser.has_more_commands());

    assert!(parser.advance().is_ok());
    assert!(parser.get_current_command().is_none());
    assert!(!parser.has_more_commands());

    assert!(parser.advance().is_ok());
    assert!(parser.get_current_command().is_none());
    assert!(!parser.has_more_commands());
}

#[test]
fn parser_of_an_empty_file_is_exhausted_by_the_first_read() {
    let mut parser = Parser::new("Empty.vm".to_string(), Vec::new());
    assert!(parser.has_more_commands());
    assert!(parser.advance().is_ok());
    assert!(!parser.has_more_commands());
    assert!(parser.get_current_command().is_none());
}

#[test]
fn parser_reports_file_line_and_token() {
    let mut parser = Parser::new(
        "Bad.vm".to_string(),
        lines(&["push constant 1", "", "// nothing", "pop nowhere 2", "add"]),
    );
    assert!(parser.advance().is_ok());
    let error = parser.advance().expect_err("the fourth line is malformed");
    assert_eq!(error.kind, ParseErrorKind::MalformedCommand);
    assert_eq!(error.file_name, "Bad.vm");
    assert_eq!(error.line, 4);
    assert_eq!(error.token, "nowhere");
    assert!(parser.get_current_command().is_none());
}

#[test]
fn command_text_is_the_command_as_written() {
    assert_eq!(parse("push   constant  7").unwrap().to_text(), "push constant 7");
    assert_eq!(parse("pop static 3").unwrap().to_text(), "pop static 3");
    assert_eq!(parse("add").unwrap().to_text(), "add");
    assert_eq!(parse("return").unwrap().to_text(), "return");
    assert_eq!(parse("label L1").unwrap().to_text(), "label L1");
    assert_eq!(parse("goto L1").unwrap().to_text(), "goto L1");
    assert_eq!(parse("if-goto L1").unwrap().to_text(), "if-goto L1");
    assert_eq!(parse("function Foo.bar 2").unwrap().to_text(), "function Foo.bar 2");
    assert_eq!(parse("call Foo.bar 0").unwrap().to_text(), "call Foo.bar 0");
    let bare = Command::new(CommandType::Push, "local".to_string(), None, "X.vm".to_string());
    assert_eq!(bare.to_text(), "push local");
}

#[test]
fn decimal_numerals() {
    assert_eq!(decimal_string(0), "0");
    assert_eq!(decimal_string(7), "7");
    assert_eq!(decimal_string(10), "10");
    assert_eq!(decimal_string(256), "256");
    assert_eq!(decimal_string(4294967295), "4294967295");
}

#[test]
fn file_stems() {
    assert_eq!(file_stem_of("Main.vm"), "Main");
    assert_eq!(file_stem_of("dir/sub/Main.vm"), "Main");
    assert_eq!(file_stem_of("Main"), "Main");
    assert_eq!(file_stem_of("archive.tar.gz"), "archive.tar");
    assert_eq!(file_stem_of(".hidden"), ".hidden");
    assert_eq!(file_stem_of(""), "");
    assert_eq!(file_stem_of("dir.d/Main"), "Main");
}

#[test]
fn lines_of_any_white_space_are_blank() {
    for blank in [
        "\u{a0}",
        "\u{85}",
        "\u{1680}\u{2000}\u{2001}\u{2002}\u{2003}\u{2004}\u{2005}",
        "\u{2006}\u{2007}\u{2008}\u{2009}\u{200a}",
        "\u{2028}\u{2029}\u{202f}\u{205f}\u{3000}",
        " \t\n\u{b}\u{c}\r",
        "\u{a0}// comment",
    ] {
        assert!(parse(blank).is_none(), "{:?} is blank", blank);
    }
}

#[test]
fn any_white_space_separates_tokens_and_is_trimmed() {
    let command = parse("\u{a0}push\u{2003}constant\u{3000}7\u{85}").expect("a command");
    assert_eq!(*command.get_command_type(), CommandType::Push);
    assert_eq!(command.get_arg1(), "constant");
    assert_eq!(command.get_arg2().map(|s| s.as_str()), Some("7"));
}

#[test]
fn characters_next_to_the_white_space_ranges_are_no_white_space() {
    for odd in ["\u{8}", "\u{e}", "\u{200b}", "\u{1fff}", "\u{feff}", "\u{84}", "\u{86}"] {
        let (kind, token, _, _) = parse_failure(odd);
        assert_eq!(kind, ParseErrorKind::UnrecognizedCommand);
        assert_eq!(token, odd);
    }
}

#[test]
fn a_file_of_white_space_lines_has_no_command() {
    let mut parser = Parser::new(
        "Blank.vm".to_string(),
        lines(&["\u{a0}", "\u{3000}\u{2028}", "\u{85} // nothing"]),
    );
    assert!(parser.advance().is_ok());
    assert!(!parser.has_more_commands());
    assert!(parser.get_current_command().is_none());
    assert!(parser.advance().is_ok());
    assert!(!parser.has_more_commands());
    assert!(parser.get_current_command().is_none());
}

#[test]
fn the_command_read_before_the_end_is_not_kept() {
    let mut parser = Parser::new("Main.vm".to_string(), lines(&["add", "\u{a0}"]));
    assert!(parser.advance().is_ok());
    assert!(parser.get_current_command().is_some());
    assert!(parser.advance().is_ok());
    assert!(parser.get_current_command().is_none());
    assert!(!parser.has_more_commands());
}
