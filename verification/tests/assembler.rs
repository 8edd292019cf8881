use hack_toolchain::assembler::assembler::{assemble, first_pass, output_file_name, second_pass};
use hack_toolchain::assembler::parser::{
    is_instruction, is_label, parse_line, AssembleErrorKind, Instruction, LineType,
};
use hack_toolchain::assembler::symbol_table::{
    add_symbol, find_address, init_sym_table, SymbolTable,
};
use hack_toolchain::assembler::translator::{is_translatable, translate_instruction};

fn lines(text: &[&str]) -> Vec<String> {
    text.iter().map(|s| s.to_string()).collect()
}

fn lookup(table: &SymbolTable, symbol: &str) -> Option<String> {
    find_address(symbol.to_string(), table)
}

fn c_instruction(dest: Option<&str>, comp: &str, jump: Option<&str>) -> Instruction {
    Instruction {
        line_type: Some(LineType::CInstruction),
        dest: dest.map(|s| s.to_string()),
        comp: Some(comp.to_string()),
        jump: jump.map(|s| s.to_string()),
        value: None,
    }
}

fn a_instruction(value: u32) -> Instruction {
    Instruction {
        line_type: Some(LineType::AInstruction),
        dest: None,
        comp: None,
        jump: None,
        value: Some(value),
    }
}

#[test]
fn the_table_starts_with_the_predefined_symbols() {
    let table = init_sym_table();
    assert_eq!(table.variable_count, 0);
    assert_eq!(lookup(&table, "SP"), Some("0".to_string()));
    assert_eq!(lookup(&table, "LCL"), Some("1".to_string()));
    assert_eq!(lookup(&table, "ARG"), Some("2".to_string()));
    assert_eq!(lookup(&table, "THIS"), Some("3".to_string()));
    assert_eq!(lookup(&table, "THAT"), Some("4".to_string()));
    for i in 0..16 {
        assert_eq!(lookup(&table, &format!("R{}", i)), Some(i.to_string()));
    }
    assert_eq!(lookup(&table, "R16"), None);
    assert_eq!(lookup(&table, "SCREEN"), Some("16384".to_string()));
    assert_eq!(lookup(&table, "KBD"), Some("24576".to_string()));
    assert_eq!(lookup(&table, "LOOP"), None);
}

#[test]
fn a_later_entry_replaces_an_earlier_one() {
    let mut table = init_sym_table();
    add_symbol("LOOP".to_string(), "4".to_string(), &mut table);
    assert_eq!(lookup(&table, "LOOP"), Some("4".to_string()));
    add_symbol("LOOP".to_string(), "9".to_string(), &mut table);
    assert_eq!(lookup(&table, "LOOP"), Some("9".to_string()));
    add_symbol("SP".to_string(), "77".to_string(), &mut table);
    assert_eq!(lookup(&table, "SP"), Some("77".to_string()));
    assert_eq!(table.variable_count, 0);
}

#[test]
fn labels_begin_with_a_parenthesis() {
    assert!(is_label("(LOOP)"));
    assert!(is_label("("));
    assert!(!is_label("  (LOOP)"));
    assert!(!is_label("@LOOP"));
    assert!(!is_label(""));
}

#[test]
fn instructions_are_what_is_no_label_comment_or_empty_line() {
    assert!(is_instruction("@1"));
    assert!(is_instruction("  D=M // load"));
    assert!(!is_instruction(""));
    assert!(!is_instruction("// comment"));
    assert!(!is_instruction("   // comment"));
    assert!(!is_instruction("(LOOP)"));
    assert!(!is_instruction("   (LOOP)"));
    assert!(is_instruction("   "));
    assert!(is_instruction("/ not a comment"));
}

#[test]
fn numbers_are_a_instructions() {
    let mut table = init_sym_table();
    let ins = parse_line("  @17  // seventeen".to_string(), &mut table).unwrap();
    assert!(matches!(ins.line_type, Some(LineType::AInstruction)));
    assert_eq!(ins.value, Some(17));
    assert_eq!(ins.dest, None);
    assert_eq!(ins.comp, None);
    assert_eq!(ins.jump, None);
    assert_eq!(table.variable_count, 0);
}

#[test]
fn known_symbols_stand_for_their_address() {
    let mut table = init_sym_table();
    assert_eq!(parse_line("@SCREEN".to_string(), &mut table).unwrap().value, Some(16384));
    assert_eq!(parse_line("@R13".to_string(), &mut table).unwrap().value, Some(13));
    assert_eq!(table.variable_count, 0);
}

#[test]
fn new_symbols_are_variables_from_sixteen_on() {
    let mut table = init_sym_table();
    assert_eq!(parse_line("@first".to_string(), &mut table).unwrap().value, Some(16));
    assert_eq!(parse_line("@second".to_string(), &mut table).unwrap().value, Some(17));
    assert_eq!(parse_line("@first".to_string(), &mut table).unwrap().value, Some(16));
    assert_eq!(parse_line("@Foo.0".to_string(), &mut table).unwrap().value, Some(18));
    assert_eq!(table.variable_count, 3);
    assert_eq!(lookup(&table, "second"), Some("17".to_string()));
}

#[test]
fn a_symbol_with_an_address_that_is_no_number_is_an_error() {
    let mut table = init_sym_table();
    add_symbol("odd".to_string(), "here".to_string(), &mut table);
    let error = parse_line(" @odd ".to_string(), &mut table).unwrap_err();
    assert_eq!(error.kind, AssembleErrorKind::InvalidAddress);
    assert_eq!(error.text, "@odd");
}

#[test]
fn variables_beyond_32_bits_are_an_error() {
    let mut table = init_sym_table();
    table.variable_count = u32::MAX - 15;
    let error = parse_line("@late".to_string(), &mut table).unwrap_err();
    assert_eq!(error.kind, AssembleErrorKind::TooManyVariables);
    table.variable_count = u32::MAX - 16;
    assert_eq!(parse_line("@last".to_string(), &mut table).unwrap().value, Some(u32::MAX));
}

#[test]
fn c_instructions_are_parted_at_the_separators() {
    let mut table = init_sym_table();
    let full = parse_line("MD=D+1;JGT".to_string(), &mut table).unwrap();
    assert!(matches!(full.line_type, Some(LineType::CInstruction)));
    assert_eq!(full.dest.as_deref(), Some("MD"));
    assert_eq!(full.comp.as_deref(), Some("D+1"));
    assert_eq!(full.jump.as_deref(), Some("JGT"));
    assert_eq!(full.value, None);
    let assign = parse_line("  D=M   // comment".to_string(), &mut table).unwrap();
    assert_eq!(assign.dest.as_deref(), Some("D"));
    assert_eq!(assign.comp.as_deref(), Some("M"));
    assert_eq!(assign.jump, None);
    let jump = parse_line("0;JMP".to_string(), &mut table).unwrap();
    assert_eq!(jump.dest, None);
    assert_eq!(jump.comp.as_deref(), Some("0"));
    assert_eq!(jump.jump.as_deref(), Some("JMP"));
    let odd = parse_line("A=".to_string(), &mut table).unwrap();
    assert_eq!(odd.dest.as_deref(), Some("A"));
    assert_eq!(odd.comp.as_deref(), Some(""));
}

#[test]
fn an_instruction_without_separator_is_malformed() {
    let mut table = init_sym_table();
    let error = parse_line("  D+1 // nothing to do".to_string(), &mut table).unwrap_err();
    assert_eq!(error.kind, AssembleErrorKind::MalformedInstruction);
    assert_eq!(error.text, "D+1");
    let blank = parse_line("   ".to_string(), &mut table).unwrap_err();
    assert_eq!(blank.kind, AssembleErrorKind::MalformedInstruction);
    assert_eq!(blank.text, "");
}

#[test]
fn what_is_no_instruction_has_no_kind() {
    let mut table = init_sym_table();
    for line in ["", "// comment", "(LOOP)", "   (LOOP)"] {
        let ins = parse_line(line.to_string(), &mut table).unwrap();
        assert!(ins.line_type.is_none());
        assert_eq!(ins.dest, None);
        assert_eq!(ins.comp, None);
        assert_eq!(ins.jump, None);
        assert_eq!(ins.value, None);
        assert!(!is_translatable(&ins));
    }
}

#[test]
fn a_instructions_are_a_zero_and_fifteen_bits() {
    assert_eq!(translate_instruction(a_instruction(0)), "0000000000000000");
    assert_eq!(translate_instruction(a_instruction(1)), "0000000000000001");
    assert_eq!(translate_instruction(a_instruction(2)), "0000000000000010");
    assert_eq!(translate_instruction(a_instruction(256)), "0000000100000000");
    assert_eq!(translate_instruction(a_instruction(24576)), "0110000000000000");
    assert_eq!(translate_instruction(a_instruction(32767)), "0111111111111111");
}

#[test]
fn an_address_beyond_fifteen_bits_gets_more_digits() {
    assert_eq!(translate_instruction(a_instruction(32768)), "01000000000000000");
    assert_eq!(
        translate_instruction(a_instruction(u32::MAX)),
        "011111111111111111111111111111111"
    );
}

#[test]
fn c_instructions_are_three_ones_and_the_bits_of_their_parts() {
    assert_eq!(translate_instruction(c_instruction(Some("D"), "A", None)), "1110100110000000");
    assert_eq!(translate_instruction(c_instruction(Some("M"), "M+1", None)), "1110011110111000");
    assert_eq!(translate_instruction(c_instruction(None, "0", Some("JMP"))), "1110000101010111");
    assert_eq!(translate_instruction(c_instruction(None, "D", Some("JNE"))), "1110000001100101");
    assert_eq!(
        translate_instruction(c_instruction(Some("AMD"), "D|M", Some("JLE"))),
        "1111111010101110"
    );
}

#[test]
fn every_mnemonic_has_its_bits() {
    let dests = [
        (None, "000"),
        (Some("M"), "001"),
        (Some("D"), "010"),
        (Some("MD"), "011"),
        (Some("A"), "100"),
        (Some("AM"), "101"),
        (Some("AD"), "110"),
        (Some("AMD"), "111"),
    ];
    for (dest, code) in dests {
        let jump = if dest.is_none() { Some("JMP") } else { None };
        let word = translate_instruction(c_instruction(dest, "0", jump));
        assert_eq!(&word[3..6], code);
    }
    let comps = [
        ("0", "0101010"),
        ("1", "0111111"),
        ("-1", "0111010"),
        ("D", "0001100"),
        ("A", "0110000"),
        ("!D", "0001101"),
        ("!A", "0110001"),
        ("-D", "0001111"),
        ("-A", "0110011"),
        ("D+1", "0011111"),
        ("A+1", "0110111"),
        ("D-1", "0001110"),
        ("A-1", "0110010"),
        ("D+A", "0000010"),
        ("D-A", "0010011"),
        ("A-D", "0000111"),
        ("D&A", "0000000"),
        ("D|A", "0010101"),
        ("M", "1110000"),
        ("!M", "1110001"),
        ("-M", "1110011"),
        ("M+1", "1110111"),
        ("M-1", "1110010"),
        ("D+M", "1000010"),
        ("D-M", "1010011"),
        ("M-D", "1000111"),
        ("D&M", "1000000"),
        ("D|M", "1010101"),
    ];
    for (comp, code) in comps {
        let word = translate_instruction(c_instruction(Some("D"), comp, None));
        assert_eq!(word.len(), 16);
        assert_eq!(&word[..6], "111010");
        assert_eq!(&word[6..13], code);
        assert_eq!(&word[13..], "000");
    }
    let jumps = [
        (None, "000"),
        (Some("JGT"), "001"),
        (Some("JEQ"), "010"),
        (Some("JGE"), "011"),
        (Some("JLT"), "100"),
        (Some("JNE"), "101"),
        (Some("JLE"), "110"),
        (Some("JMP"), "111"),
    ];
    for (jump, code) in jumps {
        let word = translate_instruction(c_instruction(Some("D"), "0", jump));
        assert_eq!(&word[13..], code);
    }
}

#[test]
fn unknown_mnemonics_cannot_be_translated() {
    assert!(is_translatable(&c_instruction(Some("D"), "M", None)));
    assert!(is_translatable(&a_instruction(5)));
    assert!(!is_translatable(&c_instruction(Some("DM"), "M", None)));
    assert!(!is_translatable(&c_instruction(Some("D"), "M+D", None)));
    assert!(!is_translatable(&c_instruction(Some("D"), "M", Some("JXX"))));
    assert!(!is_translatable(&c_instruction(Some("D "), "M", None)));
    let no_comp = Instruction {
        line_type: Some(LineType::CInstruction),
        dest: None,
        comp: None,
        jump: None,
        value: None,
    };
    assert!(!is_translatable(&no_comp));
    let no_value = Instruction {
        line_type: Some(LineType::AInstruction),
        dest: None,
        comp: None,
        jump: None,
        value: None,
    };
    assert!(!is_translatable(&no_value));
}

#[test]
fn the_first_pass_numbers_the_labels() {
    let mut table = init_sym_table();
    let program = lines(&[
        "// sum",
        "@i",
        "M=1",
        "(LOOP)",
        "@i",
        "D=M",
        "",
        "(END)",
        "@END",
        "0;JMP",
    ]);
    assert!(first_pass(&program, &mut table).is_ok());
    assert_eq!(lookup(&table, "LOOP"), Some("2".to_string()));
    assert_eq!(lookup(&table, "END"), Some("4".to_string()));
    assert_eq!(lookup(&table, "i"), None);
    assert_eq!(table.variable_count, 0);
}

#[test]
fn the_second_pass_translates_the_instructions() {
    let mut table = init_sym_table();
    let program = lines(&["@i", "M=1", "(LOOP)", "@LOOP", "0;JMP"]);
    first_pass(&program, &mut table).unwrap();
    let code = second_pass(&program, &mut table).unwrap();
    assert_eq!(
        code,
        vec![
            "0000000000010000",
            "1110010111111000",
            "0000000000000010",
            "1110000101010111",
        ]
    );
    assert_eq!(lookup(&table, "i"), Some("16".to_string()));
    assert_eq!(table.variable_count, 1);
}

#[test]
fn a_program_is_assembled_in_two_passes() {
    let code = assemble(&lines(&[
        "// adds 2 and 3",
        "@2",
        "D=A",
        "@3",
        "D=D+A",
        "@sum   // a variable",
        "M=D",
        "@END",
        "0;JMP",
        "(END)",
    ]))
    .unwrap();
    assert_eq!(
        code,
        vec![
            "0000000000000010",
            "1110100110000000",
            "0000000000000011",
            "1110100000010000",
            "0000000000010000",
            "1110010001100000",
            "0000000000001000",
            "1110000101010111",
        ]
    );
}

#[test]
fn an_empty_program_has_no_code() {
    assert_eq!(assemble(&Vec::new()).unwrap(), Vec::<String>::new());
    assert_eq!(assemble(&lines(&["// nothing", ""])).unwrap(), Vec::<String>::new());
}

#[test]
fn an_unknown_mnemonic_stops_the_assembly() {
    let error = assemble(&lines(&["@1", "D=M+D // the wrong way round", "@2"])).unwrap_err();
    assert_eq!(error.kind, AssembleErrorKind::UnknownMnemonic);
    assert_eq!(error.text, "D=M+D");
}

#[test]
fn a_malformed_instruction_stops_the_assembly() {
    let error = assemble(&lines(&["@1", "D"])).unwrap_err();
    assert_eq!(error.kind, AssembleErrorKind::MalformedInstruction);
    assert_eq!(error.text, "D");
}

#[test]
fn the_code_file_is_named_after_the_source_file() {
    assert_eq!(output_file_name("Prog.asm"), "Prog.hack");
    assert_eq!(output_file_name("dir/Prog.asm"), "dir/Prog.hack");
    assert_eq!(output_file_name("Prog"), "Prog.hack");
    assert_eq!(output_file_name("a.b.asm"), "a.b.hack");
    assert_eq!(output_file_name(""), ".hack");
}

#[test]
fn any_white_space_before_a_label_or_a_comment_is_trimmed() {
    for line in [
        "\u{a0}(LOOP)",
        "\u{3000}\u{2003}(LOOP)",
        "\u{85}// comment",
        "\u{2028}\u{a0}// @5",
        "\u{1680}(AT@SIGN)",
    ] {
        assert!(!is_instruction(line), "{:?} is no instruction", line);
        let mut table = init_sym_table();
        let ins = parse_line(line.to_string(), &mut table).unwrap();
        assert!(ins.line_type.is_none());
        assert_eq!(ins.dest, None);
        assert_eq!(ins.comp, None);
        assert_eq!(ins.jump, None);
        assert_eq!(ins.value, None);
        assert_eq!(table.variable_count, 0);
        assert_eq!(lookup(&table, "AT@SIGN)"), None);
    }
    assert!(is_instruction("\u{a0}@2 // x"));
    assert!(is_instruction("\u{2009}0;JMP\u{205f}"));
    assert!(!is_label("\u{a0}(LOOP)"));
}

#[test]
fn any_white_space_around_an_instruction_is_trimmed() {
    let mut table = init_sym_table();
    let a = parse_line("\u{a0}@\u{2003}17\u{3000}".to_string(), &mut table).unwrap();
    assert_eq!(a.value, Some(17));
    let c = parse_line("\u{2028}D=M\u{85}// load".to_string(), &mut table).unwrap();
    assert_eq!(c.dest.as_deref(), Some("D"));
    assert_eq!(c.comp.as_deref(), Some("M"));
    let v = parse_line("\u{202f}@sum\u{a0}".to_string(), &mut table).unwrap();
    assert_eq!(v.value, Some(16));
    assert_eq!(lookup(&table, "sum"), Some("16".to_string()));
}

#[test]
fn different_variables_get_different_cells_and_keep_them() {
    let code = assemble(&lines(&[
        "@One.0", "M=1", "@Two.0", "M=1", "@One.1", "M=1", "@Two.0", "M=1", "@One.0", "M=1",
    ]))
    .unwrap();
    assert_eq!(code[0], "0000000000010000");
    assert_eq!(code[2], "0000000000010001");
    assert_eq!(code[4], "0000000000010010");
    assert_eq!(code[6], code[2]);
    assert_eq!(code[8], code[0]);
}
