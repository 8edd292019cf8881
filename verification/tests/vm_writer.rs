use hack_toolchain::jack_compiler::tokenizer::{Token, TokenType};
use hack_toolchain::jack_compiler::vm_writer::{VMSegment, VMWriter};
use hack_toolchain::vm_translator::parser::{parse_command, CommandType};

#[test]
fn a_token_keeps_its_kind_and_its_text() {
    let token = Token::new(TokenType::Identifier, "counter".to_string());
    assert_eq!(*token.get_token_type(), TokenType::Identifier);
    assert_eq!(token.get_value(), "counter");
    let symbol = Token::new(TokenType::Symbol, "{".to_string());
    assert_eq!(*symbol.get_token_type(), TokenType::Symbol);
    assert_eq!(symbol.get_value(), "{");
}

#[test]
fn kinds_of_token_have_their_names() {
    assert_eq!(TokenType::Identifier.to_text(), "identifier");
    assert_eq!(TokenType::Keyword.to_text(), "keyword");
    assert_eq!(TokenType::IntConst.to_text(), "integerConstant");
    assert_eq!(TokenType::Symbol.to_text(), "symbol");
    assert_eq!(TokenType::StringConst.to_text(), "stringConstant");
}

#[test]
fn a_new_writer_holds_no_line() {
    assert!(VMWriter::new().lines().is_empty());
}

#[test]
fn push_and_pop_name_the_segment() {
    let cases = [
        (VMSegment::Argument, "argument"),
        (VMSegment::Local, "local"),
        (VMSegment::Pointer, "pointer"),
        (VMSegment::Static, "static"),
        (VMSegment::That, "that"),
        (VMSegment::This, "this"),
        (VMSegment::Constant, "constant"),
        (VMSegment::Temp, "temp"),
    ];
    for (segment, name) in cases {
        let mut writer = VMWriter::new();
        writer.write_push(segment, 3);
        writer.write_pop(segment, 40);
        assert_eq!(
            writer.lines(),
            &vec![format!("push {} 3", name), format!("pop {} 40", name)]
        );
    }
}

#[test]
fn call_and_function_name_the_label_and_the_count() {
    let mut writer = VMWriter::new();
    writer.write_function("Main.main", 2);
    writer.write_call("Math.multiply", 0);
    writer.write_call("Math.multiply", 4294967295);
    assert_eq!(
        writer.lines(),
        &vec![
            "function Main.main 2".to_string(),
            "call Math.multiply 0".to_string(),
            "call Math.multiply 4294967295".to_string(),
        ]
    );
}

#[test]
fn alloc_writes_two_lines() {
    let mut writer = VMWriter::new();
    writer.write_alloc("3".to_string());
    assert_eq!(
        writer.lines(),
        &vec!["push 3".to_string(), "call Memory.alloc".to_string()]
    );
}

#[test]
fn commands_are_written_as_given_and_in_order() {
    let mut writer = VMWriter::new();
    writer.write_command("add");
    writer.write_commands(&vec!["neg".to_string(), "return".to_string()]);
    writer.write_commands(&Vec::new());
    writer.write_command("");
    assert_eq!(
        writer.lines(),
        &vec!["add".to_string(), "neg".to_string(), "return".to_string(), "".to_string()]
    );
}

#[test]
fn what_is_written_is_read_back() {
    let mut writer = VMWriter::new();
    writer.write_push(VMSegment::Local, 7);
    writer.write_pop(VMSegment::That, 0);
    writer.write_call("Foo.bar", 2);
    writer.write_function("Foo.bar", 12);
    let expected = [
        (CommandType::Push, "local", "7"),
        (CommandType::Pop, "that", "0"),
        (CommandType::Call, "Foo.bar", "2"),
        (CommandType::Function, "Foo.bar", "12"),
    ];
    for (line, (kind, arg1, arg2)) in writer.lines().iter().zip(expected) {
        let command = parse_command(line, &"Foo.vm".to_string(), 1)
            .expect("the line is a command")
            .expect("the line is not blank");
        assert_eq!(*command.get_command_type(), kind);
        assert_eq!(command.get_arg1(), arg1);
        assert_eq!(command.get_arg2().map(|s| s.as_str()), Some(arg2));
    }
}
