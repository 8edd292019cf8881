use hack_toolchain::machine::instruction::{render_lines, render_program};
use hack_toolchain::vm_translator::code_writer::{CodeWriter, TranslationErrorKind};
use hack_toolchain::vm_translator::parser::ParseErrorKind;
use hack_toolchain::vm_translator::vm_translator::{
    create_output_file, is_vm_file, vm_translate, SourceFile, TranslateError,
};

fn file(name: &str, lines: &[&str]) -> SourceFile {
    SourceFile {
        name: name.to_string(),
        lines: lines.iter().map(|s| s.to_string()).collect(),
    }
}

fn translate(files: Vec<SourceFile>) -> Result<Vec<String>, TranslateError> {
    let mut writer = CodeWriter::new();
    vm_translate(files, &mut writer)?;
    Ok(render_lines(writer.lines()))
}

#[test]
fn a_program_starts_with_the_stack_pointer() {
    let code = translate(vec![file("Main.vm", &["push constant 7"])]).unwrap();
    assert_eq!(
        code,
        vec!["@256", "D=A", "@SP", "M=D", "@7", "D=A", "@SP", "A=M", "M=D", "@SP", "M=M+1"]
    );
}

#[test]
fn files_without_commands_give_the_start_only() {
    let code = translate(vec![file("Main.vm", &["// nothing", "", "   "]), file("Other.vm", &[])])
        .unwrap();
    assert_eq!(code, vec!["@256", "D=A", "@SP", "M=D"]);
}

#[test]
fn no_file_is_missing_input() {
    let mut writer = CodeWriter::new();
    let result = vm_translate(Vec::new(), &mut writer);
    assert!(matches!(result, Err(TranslateError::MissingInput)));
    assert!(writer.lines().is_empty());
}

#[test]
fn files_share_the_counters() {
    let code = translate(vec![
        file("One.vm", &["eq", "call f 0"]),
        file("Two.vm", &["eq", "call f 0"]),
    ])
    .unwrap();
    assert!(code.contains(&"(TRUE_0)".to_string()));
    assert!(code.contains(&"(TRUE_1)".to_string()));
    assert!(code.contains(&"(One.ret0$0)".to_string()));
    assert!(code.contains(&"(Two.ret1$1)".to_string()));
}

#[test]
fn statics_are_scoped_by_file() {
    let code = translate(vec![
        file("One.vm", &["push constant 1", "pop static 0"]),
        file("Two.vm", &["push constant 2", "pop static 0"]),
    ])
    .unwrap();
    assert!(code.contains(&"@One.0".to_string()));
    assert!(code.contains(&"@Two.0".to_string()));
}

#[test]
fn a_malformed_line_stops_the_run_and_keeps_what_was_written() {
    let mut writer = CodeWriter::new();
    let result = vm_translate(
        vec![
            file("One.vm", &["push constant 1"]),
            file("Two.vm", &["", "push constant 2", "push nowhere 3", "add"]),
            file("Three.vm", &["add"]),
        ],
        &mut writer,
    );
    match result {
        Err(TranslateError::Parse(e)) => {
            assert_eq!(e.kind, ParseErrorKind::MalformedCommand);
            assert_eq!(e.file_name, "Two.vm");
            assert_eq!(e.line, 3);
            assert_eq!(e.token, "nowhere");
        }
        _ => panic!("the run fails on the malformed line"),
    }
    assert_eq!(writer.lines().len(), 4 + 7 + 7);
}

#[test]
fn an_unrecognized_command_stops_the_run() {
    let result = translate(vec![file("Main.vm", &["push constant 1", "halt"])]);
    match result {
        Err(TranslateError::Parse(e)) => {
            assert_eq!(e.kind, ParseErrorKind::UnrecognizedCommand);
            assert_eq!(e.line, 2);
            assert_eq!(e.token, "halt");
        }
        _ => panic!("the run fails on the unknown command"),
    }
}

#[test]
fn pop_constant_stops_the_run() {
    let mut writer = CodeWriter::new();
    let result = vm_translate(
        vec![file("Main.vm", &["push constant 1", "pop constant 0", "add"])],
        &mut writer,
    );
    match result {
        Err(TranslateError::Translation(e)) => {
            assert_eq!(e.kind, TranslationErrorKind::InvalidSegment);
            assert_eq!(e.command, "pop constant 0");
        }
        _ => panic!("the run fails on the pop"),
    }
    assert_eq!(writer.lines().len(), 4 + 7);
}

#[test]
fn translating_twice_gives_the_same_text() {
    let program = || {
        vec![
            file(
                "Main.vm",
                &[
                    "function Main.main 1",
                    "push constant 3",
                    "push constant 4",
                    "call Main.add 2",
                    "pop local 0",
                    "label LOOP",
                    "push local 0",
                    "push constant 7",
                    "eq",
                    "if-goto LOOP",
                    "return",
                ],
            ),
            file(
                "Lib.vm",
                &["function Main.add 0", "push argument 0", "push argument 1", "add", "return"],
            ),
        ]
    };
    let mut first = CodeWriter::new();
    vm_translate(program(), &mut first).unwrap();
    let mut second = CodeWriter::new();
    vm_translate(program(), &mut second).unwrap();
    assert_eq!(render_program(first.lines()), render_program(second.lines()));
    assert_eq!(first.lines(), second.lines());
    assert!(!first.lines().is_empty());
}

#[test]
fn output_file_of_a_bytecode_file() {
    assert_eq!(create_output_file(&"Main.vm".to_string()), Some("Main.asm".to_string()));
    assert_eq!(
        create_output_file(&"dir/sub/Main.vm".to_string()),
        Some("dir/sub/Main.asm".to_string())
    );
    assert_eq!(create_output_file(&".vm".to_string()), Some(".asm".to_string()));
}

#[test]
fn output_file_of_a_directory() {
    assert_eq!(create_output_file(&"prog".to_string()), Some("prog/prog.asm".to_string()));
    assert_eq!(
        create_output_file(&"dir/prog".to_string()),
        Some("dir/prog/prog.asm".to_string())
    );
    assert_eq!(
        create_output_file(&"dir/prog/".to_string()),
        Some("dir/prog/prog.asm".to_string())
    );
    assert_eq!(
        create_output_file(&"/abs/prog//".to_string()),
        Some("/abs/prog/prog.asm".to_string())
    );
}

#[test]
fn a_directory_without_a_name_has_no_output_file() {
    assert_eq!(create_output_file(&"".to_string()), None);
    assert_eq!(create_output_file(&"/".to_string()), None);
    assert_eq!(create_output_file(&"..".to_string()), None);
    assert_eq!(create_output_file(&"dir/..".to_string()), None);
    assert_eq!(create_output_file(&".".to_string()), None);
}

#[test]
fn bytecode_files_end_in_vm() {
    assert!(is_vm_file("Main.vm"));
    assert!(is_vm_file("dir/Main.vm"));
    assert!(is_vm_file(".vm"));
    assert!(!is_vm_file("Main.vm.bak"));
    assert!(!is_vm_file("Main.asm"));
    assert!(!is_vm_file("vm"));
    assert!(!is_vm_file(""));
}
