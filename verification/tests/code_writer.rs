use hack_toolchain::machine::instruction::{render_line, render_lines, render_program, AsmLine, Comp, Dest, Jump};
use hack_toolchain::vm_translator::code_writer::{CodeWriter, TranslationErrorKind};
use hack_toolchain::vm_translator::parser::{parse_command, Command, CommandType};

fn command(line: &str, file: &str) -> Command {
    parse_command(line, &file.to_string(), 1)
        .expect("the line is a command")
        .expect("the line is not blank")
}

fn translate_in(file: &str, program: &[&str]) -> Vec<String> {
    let mut writer = CodeWriter::new();
    for line in program {
        writer
            .translate_command(&command(line, file))
            .expect("the command can be translated");
    }
    render_lines(writer.lines())
}

fn translate(program: &[&str]) -> Vec<String> {
    translate_in("Main.vm", program)
}

fn failure(command: &Command) -> (TranslationErrorKind, String) {
    let mut writer = CodeWriter::new();
    writer.init();
    let before = render_lines(writer.lines());
    let error = writer
        .translate_command(command)
        .expect_err("the command cannot be translated");
    assert_eq!(render_lines(writer.lines()), before);
    (error.kind, error.command)
}

#[test]
fn a_new_writer_has_written_nothing() {
    let writer = CodeWriter::new();
    assert!(writer.lines().is_empty());
}

#[test]
fn init_sets_the_stack_pointer() {
    let mut writer = CodeWriter::new();
    writer.init();
    assert_eq!(render_lines(writer.lines()), vec!["@256", "D=A", "@SP", "M=D"]);
}

#[test]
fn push_constant_writes_seven_lines() {
    assert_eq!(
        translate(&["push constant 7"]),
        vec!["@7", "D=A", "@SP", "A=M", "M=D", "@SP", "M=M+1"]
    );
}

#[test]
fn push_constant_reads_the_index_as_a_number() {
    assert_eq!(translate(&["push constant +007"])[0], "@7");
}

#[test]
fn add_combines_the_two_top_values() {
    assert_eq!(
        translate(&["add"]),
        vec!["@SP", "A=M-1", "D=M", "@SP", "M=M-1", "@SP", "A=M-1", "M=D+M"]
    );
}

#[test]
fn binary_operators_differ_in_the_last_line_only() {
    let add = translate(&["add"]);
    for (op, last) in [("sub", "M=M-D"), ("and", "M=D&M"), ("or", "M=D|M")] {
        let code = translate(&[op]);
        assert_eq!(code.len(), 8);
        assert_eq!(code[..7], add[..7]);
        assert_eq!(code[7], last);
    }
}

#[test]
fn unary_operators_work_in_place() {
    assert_eq!(translate(&["neg"]), vec!["@SP", "A=M-1", "M=-M"]);
    assert_eq!(translate(&["not"]), vec!["@SP", "A=M-1", "M=!M"]);
}

#[test]
fn eq_branches_on_the_difference() {
    assert_eq!(
        translate(&["eq"]),
        vec![
            "@SP", "A=M-1", "D=M", "@SP", "M=M-1", "@SP", "A=M-1", "D=D-M", "@TRUE_0", "D;JEQ",
            "@SP", "A=M-1", "M=0", "@END_0", "0;JMP", "(TRUE_0)", "@SP", "A=M-1", "M=-1",
            "(END_0)",
        ]
    );
}

#[test]
fn gt_and_lt_jump_on_the_sign_of_the_difference() {
    assert_eq!(translate(&["gt"])[9], "D;JLT");
    assert_eq!(translate(&["lt"])[9], "D;JGT");
}

#[test]
fn every_comparison_gets_fresh_labels() {
    let code = translate(&["eq", "gt", "add", "lt", "eq"]);
    let labels: Vec<&String> = code.iter().filter(|l| l.starts_with('(')).collect();
    assert_eq!(
        labels,
        vec![
            "(TRUE_0)", "(END_0)", "(TRUE_1)", "(END_1)", "(TRUE_2)", "(END_2)", "(TRUE_3)",
            "(END_3)"
        ]
    );
    for (i, a) in labels.iter().enumerate() {
        for b in labels.iter().skip(i + 1) {
            assert_ne!(a, b);
        }
    }
}

#[test]
fn comparison_labels_are_not_reset_between_files() {
    let mut writer = CodeWriter::new();
    writer.translate_command(&command("eq", "A.vm")).unwrap();
    writer.translate_command(&command("eq", "B.vm")).unwrap();
    let code = render_lines(writer.lines());
    assert!(code.contains(&"(TRUE_0)".to_string()));
    assert!(code.contains(&"(TRUE_1)".to_string()));
    assert_eq!(code.iter().filter(|l| *l == "(TRUE_0)").count(), 1);
}

#[test]
fn push_from_a_pointed_segment_adds_the_index_to_the_base() {
    for (segment, register) in [("local", "@LCL"), ("argument", "@ARG"), ("this", "@THIS"), ("that", "@THAT")] {
        assert_eq!(
            translate(&[&format!("push {} 3", segment)]),
            vec![register, "D=M", "@3", "A=D+A", "D=M", "@SP", "A=M", "M=D", "@SP", "M=M+1"]
        );
    }
}

#[test]
fn pop_into_a_pointed_segment_keeps_the_address_in_r13() {
    for (segment, register) in [("local", "@LCL"), ("argument", "@ARG"), ("this", "@THIS"), ("that", "@THAT")] {
        assert_eq!(
            translate(&[&format!("pop {} 2", segment)]),
            vec![
                "@2", "D=A", register, "D=D+M", "@R13", "M=D", "@SP", "A=M-1", "D=M", "@SP",
                "M=M-1", "@R13", "A=M", "M=D",
            ]
        );
    }
}

#[test]
fn pointer_and_temp_start_at_fixed_cells() {
    assert_eq!(
        translate(&["push pointer 1"]),
        vec!["@1", "D=A", "@3", "A=D+A", "D=M", "@SP", "A=M", "M=D", "@SP", "M=M+1"]
    );
    assert_eq!(
        translate(&["push temp 6"]),
        vec!["@6", "D=A", "@5", "A=D+A", "D=M", "@SP", "A=M", "M=D", "@SP", "M=M+1"]
    );
    assert_eq!(
        translate(&["pop pointer 0"]),
        vec![
            "@0", "D=A", "@3", "D=D+A", "@R13", "M=D", "@SP", "A=M-1", "D=M", "@SP", "M=M-1",
            "@R13", "A=M", "M=D",
        ]
    );
    assert_eq!(translate(&["pop temp 7"])[2], "@5");
}

#[test]
fn static_variables_are_named_after_the_file() {
    assert_eq!(
        translate_in("Foo.vm", &["push static 3"]),
        vec!["@Foo.3", "D=M", "@SP", "A=M", "M=D", "@SP", "M=M+1"]
    );
    assert_eq!(
        translate_in("Foo.vm", &["pop static 0"]),
        vec!["@SP", "A=M-1", "D=M", "@SP", "M=M-1", "@Foo.0", "M=D"]
    );
}

#[test]
fn static_variables_of_two_files_are_different_symbols() {
    let mut writer = CodeWriter::new();
    writer.translate_command(&command("pop static 0", "One.vm")).unwrap();
    writer.translate_command(&command("pop static 0", "Two.vm")).unwrap();
    let code = render_lines(writer.lines());
    assert_eq!(code[5], "@One.0");
    assert_eq!(code[12], "@Two.0");
    assert_ne!(code[5], code[12]);
}

#[test]
fn label_goto_and_if_goto() {
    assert_eq!(translate(&["label LOOP"]), vec!["(LOOP)"]);
    assert_eq!(translate(&["goto LOOP"]), vec!["@LOOP", "0;JMP"]);
    assert_eq!(
        translate(&["if-goto LOOP"]),
        vec!["@SP", "A=M-1", "D=M", "@SP", "M=M-1", "@LOOP", "D;JNE"]
    );
}

#[test]
fn function_marks_its_entry_and_clears_its_locals_in_a_loop() {
    assert_eq!(
        translate(&["function Foo.bar 2"]),
        vec![
            "(Foo.bar)",
            "@2",
            "D=A",
            "@nVars",
            "M=D",
            "@i",
            "M=0",
            "(func_init.loop_start.0)",
            "@nVars",
            "D=M",
            "@i",
            "D=D-M",
            "@func_init.loop_end.0",
            "D;JEQ",
            "@SP",
            "A=M",
            "M=0",
            "@SP",
            "M=M+1",
            "@i",
            "M=M+1",
            "@func_init.loop_start.0",
            "0;JMP",
            "(func_init.loop_end.0)",
        ]
    );
}

#[test]
fn every_function_gets_fresh_loop_labels() {
    let code = translate(&["function A.a 0", "function B.b 1"]);
    assert!(code.contains(&"(func_init.loop_start.0)".to_string()));
    assert!(code.contains(&"(func_init.loop_end.0)".to_string()));
    assert!(code.contains(&"(func_init.loop_start.1)".to_string()));
    assert!(code.contains(&"(func_init.loop_end.1)".to_string()));
}

#[test]
fn function_without_locals_and_call_without_arguments_translate() {
    let code = translate(&["function Foo.bar 0", "call Foo.bar 0"]);
    assert_eq!(code[1], "@0");
    assert_eq!(code.len(), 24 + 50);
}

#[test]
fn call_saves_the_frame_in_order_and_marks_the_return_address_last() {
    assert_eq!(
        translate_in("Main.vm", &["call Foo.bar 2"]),
        vec![
            "@Main.ret0$0",
            "D=A",
            "@SP",
            "A=M",
            "M=D",
            "@SP",
            "M=M+1",
            "@LCL",
            "D=M",
            "@SP",
            "A=M",
            "M=D",
            "@SP",
            "M=M+1",
            "@ARG",
            "D=M",
            "@SP",
            "A=M",
            "M=D",
            "@SP",
            "M=M+1",
            "@THIS",
            "D=M",
            "@SP",
            "A=M",
            "M=D",
            "@SP",
            "M=M+1",
            "@THAT",
            "D=M",
            "@SP",
            "A=M",
            "M=D",
            "@SP",
            "M=M+1",
            "@5",
            "D=A",
            "@2",
            "D=D+A",
            "@SP",
            "D=M-D",
            "@ARG",
            "M=D",
            "@SP",
            "D=M",
            "@LCL",
            "M=D",
            "@Foo.bar",
            "0;JMP",
            "(Main.ret0$0)",
        ]
    );
}

#[test]
fn every_call_gets_a_fresh_return_label() {
    let code = translate(&["call f 0", "call f 0", "call g 1"]);
    let labels: Vec<&String> = code.iter().filter(|l| l.starts_with('(')).collect();
    assert_eq!(labels, vec!["(Main.ret0$0)", "(Main.ret1$1)", "(Main.ret2$2)"]);
}

#[test]
fn return_restores_the_frame_in_reverse_order() {
    assert_eq!(
        translate(&["return"]),
        vec![
            "@LCL", "D=M", "@FRAME", "M=D", "@FRAME", "D=M", "@5", "D=D-A", "A=D", "D=M", "@RET",
            "M=D", "@SP", "A=M-1", "D=M", "@SP", "M=M-1", "@ARG", "A=M", "M=D", "@ARG", "D=M+1",
            "@SP", "M=D", "@FRAME", "M=M-1", "A=M", "D=M", "@THAT", "M=D", "@FRAME", "M=M-1",
            "A=M", "D=M", "@THIS", "M=D", "@FRAME", "M=M-1", "A=M", "D=M", "@ARG", "M=D",
            "@FRAME", "M=M-1", "A=M", "D=M", "@LCL", "M=D", "@RET", "A=M", "0;JMP",
        ]
    );
}

#[test]
fn pop_constant_is_an_invalid_segment() {
    let (kind, text) = failure(&command("pop constant 5", "Main.vm"));
    assert_eq!(kind, TranslationErrorKind::InvalidSegment);
    assert_eq!(text, "pop constant 5");
}

#[test]
fn unknown_segment_is_an_invalid_segment() {
    let push = Command::new(
        CommandType::Push,
        "heap".to_string(),
        Some("1".to_string()),
        "Main.vm".to_string(),
    );
    assert_eq!(failure(&push), (TranslationErrorKind::InvalidSegment, "push heap 1".to_string()));
    let pop = Command::new(
        CommandType::Pop,
        "heap".to_string(),
        Some("1".to_string()),
        "Main.vm".to_string(),
    );
    assert_eq!(failure(&pop), (TranslationErrorKind::InvalidSegment, "pop heap 1".to_string()));
}

#[test]
fn missing_index_or_count_is_a_missing_argument() {
    for kind in [CommandType::Push, CommandType::Pop, CommandType::Function, CommandType::Call] {
        let bare = Command::new(kind, "local".to_string(), None, "Main.vm".to_string());
        assert_eq!(failure(&bare).0, TranslationErrorKind::MissingArgument);
    }
    let push = Command::new(CommandType::Push, "local".to_string(), None, "Main.vm".to_string());
    assert_eq!(failure(&push).1, "push local");
}

#[test]
fn index_that_is_no_number_is_an_invalid_argument() {
    let push = Command::new(
        CommandType::Push,
        "local".to_string(),
        Some("two".to_string()),
        "Main.vm".to_string(),
    );
    assert_eq!(failure(&push), (TranslationErrorKind::InvalidArgument, "push local two".to_string()));
    let call = Command::new(
        CommandType::Call,
        "f".to_string(),
        Some("-1".to_string()),
        "Main.vm".to_string(),
    );
    assert_eq!(failure(&call).0, TranslationErrorKind::InvalidArgument);
}

#[test]
fn unknown_mnemonic_is_an_invalid_operator() {
    let xor = Command::new(CommandType::Arithmetic, "xor".to_string(), None, "Main.vm".to_string());
    assert_eq!(failure(&xor), (TranslationErrorKind::InvalidOperator, "xor".to_string()));
}

#[test]
fn a_failed_command_does_not_use_up_a_label() {
    let mut writer = CodeWriter::new();
    let bad = Command::new(CommandType::Call, "f".to_string(), None, "Main.vm".to_string());
    assert!(writer.translate_command(&bad).is_err());
    writer.translate_command(&command("call f 0", "Main.vm")).unwrap();
    assert_eq!(render_lines(writer.lines())[0], "@Main.ret0$0");
}

#[test]
fn lines_are_rendered_with_their_separators() {
    let none = Dest { a: false, d: false, m: false };
    let all = Dest { a: true, d: true, m: true };
    let md = Dest { a: false, d: true, m: true };
    assert_eq!(render_line(&AsmLine::Constant(0)), "@0");
    assert_eq!(render_line(&AsmLine::Constant(32767)), "@32767");
    assert_eq!(render_line(&AsmLine::Symbol("LOOP".to_string())), "@LOOP");
    assert_eq!(render_line(&AsmLine::Label("LOOP".to_string())), "(LOOP)");
    assert_eq!(render_line(&AsmLine::Compute(md, Comp::DPlusOne, Jump::Never)), "MD=D+1");
    assert_eq!(render_line(&AsmLine::Compute(none, Comp::D, Jump::LessEqual)), "D;JLE");
    assert_eq!(render_line(&AsmLine::Compute(all, Comp::DOrA, Jump::GreaterEqual)), "AMD=D|A;JGE");
    assert_eq!(render_line(&AsmLine::Compute(none, Comp::MinusOne, Jump::Never)), "-1");
}

#[test]
fn program_text_ends_every_line_with_a_newline() {
    let mut writer = CodeWriter::new();
    writer.init();
    assert_eq!(render_program(writer.lines()), "@256\nD=A\n@SP\nM=D\n");
    assert_eq!(render_program(CodeWriter::new().lines()), "");
}

#[test]
fn comparisons_written_one_by_one_get_fresh_labels() {
    let mut writer = CodeWriter::new();
    writer.compare_arithmetic(Jump::Equal).unwrap();
    writer.compare_arithmetic(Jump::Less).unwrap();
    let code = render_lines(writer.lines());
    assert_eq!(code.len(), 40);
    assert_eq!(code[8], "@TRUE_0");
    assert_eq!(code[9], "D;JEQ");
    assert_eq!(code[13], "@END_0");
    assert_eq!(code[15], "(TRUE_0)");
    assert_eq!(code[19], "(END_0)");
    assert_eq!(code[28], "@TRUE_1");
    assert_eq!(code[29], "D;JLT");
    assert_eq!(code[33], "@END_1");
    assert_eq!(code[35], "(TRUE_1)");
    assert_eq!(code[39], "(END_1)");
}

#[test]
fn the_parts_of_a_command_can_be_written_by_themselves() {
    let mut writer = CodeWriter::new();
    writer.push_constant(5);
    assert_eq!(
        render_lines(writer.lines()),
        vec!["@5", "D=A", "@SP", "A=M", "M=D", "@SP", "M=M+1"]
    );
    let mut writer = CodeWriter::new();
    writer.modify_SP(false);
    writer.push_reg(Comp::A);
    assert_eq!(
        render_lines(writer.lines()),
        vec!["@SP", "M=M-1", "@SP", "A=M", "M=A", "@SP", "M=M+1"]
    );
    let mut writer = CodeWriter::new();
    writer.two_var_arithmetic(Comp::DPlusM);
    assert_eq!(render_lines(writer.lines()), translate(&["add"]));
    let mut writer = CodeWriter::new();
    writer.generic_mem_pop("LCL", 2);
    assert_eq!(render_lines(writer.lines()), translate(&["pop local 2"]));
    let mut writer = CodeWriter::new();
    writer.pop_base_index(1, 3);
    assert_eq!(render_lines(writer.lines()), translate(&["pop pointer 1"]));
    let mut writer = CodeWriter::new();
    writer.translate_return().unwrap();
    assert_eq!(render_lines(writer.lines()), translate(&["return"]));
}

#[test]
fn statics_written_by_themselves_belong_to_the_current_file() {
    let mut writer = CodeWriter::new();
    writer.translate_command(&command("label HERE", "dir/Foo.vm")).unwrap();
    writer.pop_static(4);
    writer.push_static(4);
    let call = command("call g 1", "Other.vm");
    writer.translate_call(&call).unwrap();
    let code = render_lines(writer.lines());
    assert_eq!(code[0], "(HERE)");
    assert_eq!(code[6], "@Foo.4");
    assert_eq!(code[8], "@Foo.4");
    assert_eq!(code[15], "@Foo.ret0$0");
}

#[test]
fn a_failed_command_leaves_the_current_file_as_it_was() {
    let mut writer = CodeWriter::new();
    writer.translate_command(&command("label HERE", "Foo.vm")).unwrap();
    let bad = command("pop constant 1", "Bar.vm");
    assert!(writer.translate_command(&bad).is_err());
    writer.push_static(0);
    assert_eq!(render_lines(writer.lines())[1], "@Foo.0");
}
