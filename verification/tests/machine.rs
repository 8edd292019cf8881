use hack_toolchain::assembler::assembler::assemble;
use hack_toolchain::machine::instruction::render_lines;
use hack_toolchain::vm_translator::code_writer::CodeWriter;
use hack_toolchain::vm_translator::vm_translator::{vm_translate, SourceFile};

const SP: usize = 0;
const LCL: usize = 1;
const ARG: usize = 2;
const THIS: usize = 3;
const THAT: usize = 4;

fn file(name: &str, lines: &[&str]) -> SourceFile {
    SourceFile {
        name: name.to_string(),
        lines: lines.iter().map(|s| s.to_string()).collect(),
    }
}

fn bits(text: &str) -> u16 {
    text.chars().fold(0, |n, c| n * 2 + if c == '1' { 1 } else { 0 })
}

fn alu(control: u16, x: i16, y: i16) -> i16 {
    let x = if control & 0b100000 != 0 { 0 } else { x };
    let x = if control & 0b010000 != 0 { !x } else { x };
    let y = if control & 0b001000 != 0 { 0 } else { y };
    let y = if control & 0b000100 != 0 { !y } else { y };
    let out = if control & 0b000010 != 0 {
        x.wrapping_add(y)
    } else {
        x & y
    };
    if control & 0b000001 != 0 {
        !out
    } else {
        out
    }
}

/// Runs binary code, as the assembler of this library writes it, until
/// control leaves the program or the steps are used up.
fn run_code(code: &[String], ram: &mut Vec<i16>, max_steps: usize) {
    let mut a: i16 = 0;
    let mut d: i16 = 0;
    let mut pc: usize = 0;
    let mut steps = 0;
    while pc < code.len() && steps < max_steps {
        let word = &code[pc];
        assert_eq!(word.len(), 16, "an instruction has sixteen bits");
        steps += 1;
        if word.starts_with('0') {
            a = bits(&word[1..]) as i16;
            pc += 1;
            continue;
        }
        assert_eq!(&word[..3], "111");
        let dest = bits(&word[3..6]);
        let from_memory = &word[6..7] == "1";
        let control = bits(&word[7..13]);
        let jump = bits(&word[13..16]);
        let address = (a as u16 & 0x7fff) as usize;
        let y = if from_memory { ram[address] } else { a };
        let out = alu(control, d, y);
        if dest & 0b001 != 0 {
            ram[address] = out;
        }
        if dest & 0b010 != 0 {
            d = out;
        }
        let target = a;
        if dest & 0b100 != 0 {
            a = out;
        }
        let taken = (jump & 0b100 != 0 && out < 0)
            || (jump & 0b010 != 0 && out == 0)
            || (jump & 0b001 != 0 && out > 0);
        if taken {
            pc = (target as u16) as usize;
        } else {
            pc += 1;
        }
    }
    assert!(steps < max_steps, "the program ends");
}

fn assembly_of(files: Vec<SourceFile>) -> Vec<String> {
    let mut writer = CodeWriter::new();
    vm_translate(files, &mut writer).expect("the program can be translated");
    render_lines(writer.lines())
}

fn run_with(files: Vec<SourceFile>, setup: &[(usize, i16)]) -> Vec<i16> {
    let code = assemble(&assembly_of(files)).expect("the assembly can be assembled");
    let mut ram = vec![0i16; 32768];
    for (address, value) in setup {
        ram[*address] = *value;
    }
    run_code(&code, &mut ram, 100_000);
    ram
}

fn run(lines: &[&str]) -> Vec<i16> {
    run_with(vec![file("Main.vm", lines)], &[])
}

#[test]
fn seven_plus_eight_is_fifteen() {
    let ram = run(&["push constant 7", "push constant 8", "add"]);
    assert_eq!(ram[256], 15);
    assert_eq!(ram[SP], 257);
}

#[test]
fn arithmetic_on_the_stack() {
    assert_eq!(run(&["push constant 7", "push constant 8", "sub"])[256], -1);
    assert_eq!(run(&["push constant 20", "push constant 8", "sub"])[256], 12);
    assert_eq!(run(&["push constant 12", "push constant 10", "and"])[256], 8);
    assert_eq!(run(&["push constant 12", "push constant 10", "or"])[256], 14);
    assert_eq!(run(&["push constant 5", "neg"])[256], -5);
    assert_eq!(run(&["push constant 5", "not"])[256], -6);
    assert_eq!(run(&["push constant 5", "push constant 6", "sub"])[SP], 257);
    assert_eq!(run(&["push constant 5", "neg"])[SP], 257);
}

#[test]
fn comparisons_give_all_ones_or_zero() {
    assert_eq!(run(&["push constant 3", "push constant 3", "eq"])[256], -1);
    assert_eq!(run(&["push constant 3", "push constant 4", "eq"])[256], 0);
    assert_eq!(run(&["push constant 4", "push constant 3", "gt"])[256], -1);
    assert_eq!(run(&["push constant 3", "push constant 4", "gt"])[256], 0);
    assert_eq!(run(&["push constant 3", "push constant 3", "gt"])[256], 0);
    assert_eq!(run(&["push constant 3", "push constant 4", "lt"])[256], -1);
    assert_eq!(run(&["push constant 4", "push constant 3", "lt"])[256], 0);
    assert_eq!(run(&["push constant 3", "push constant 3", "lt"])[256], 0);
    assert_eq!(run(&["push constant 3", "push constant 4", "lt"])[SP], 257);
}

#[test]
fn repeated_comparisons_do_not_disturb_each_other() {
    let ram = run(&[
        "push constant 1",
        "push constant 1",
        "eq",
        "push constant 1",
        "push constant 2",
        "eq",
        "push constant 2",
        "push constant 1",
        "gt",
    ]);
    assert_eq!(&ram[256..259], &[-1, 0, -1]);
    assert_eq!(ram[SP], 259);
}

#[test]
fn push_then_pop_changes_nothing_but_the_scratch_cells() {
    let setup: Vec<(usize, i16)> = vec![
        (LCL, 300),
        (ARG, 400),
        (THIS, 3000),
        (THAT, 3010),
        (303, 77),
        (403, 78),
        (3003, 79),
        (3013, 80),
        (8, 81),
        (13, 99),
        (256, 1234),
    ];
    for segment in ["local", "argument", "this", "that", "temp", "static"] {
        let program = [format!("push {} 3", segment), format!("pop {} 3", segment)];
        let lines: Vec<&str> = program.iter().map(|s| s.as_str()).collect();
        let before = run_with(vec![file("Main.vm", &[])], &setup);
        let after = run_with(vec![file("Main.vm", &lines)], &setup);
        assert_eq!(after[SP], 256);
        assert_eq!(after[SP], before[SP]);
        for cell in 0..32768 {
            if cell != 13 && cell != 256 {
                assert_eq!(after[cell], before[cell], "cell {} after {}", cell, segment);
            }
        }
    }
    for index in 0..2 {
        let program = [format!("push pointer {}", index), format!("pop pointer {}", index)];
        let lines: Vec<&str> = program.iter().map(|s| s.as_str()).collect();
        let after = run_with(vec![file("Main.vm", &lines)], &setup);
        assert_eq!(after[SP], 256);
        assert_eq!(after[THIS], 3000);
        assert_eq!(after[THAT], 3010);
    }
}

#[test]
fn segments_address_the_right_cells() {
    let setup = [(LCL, 300), (ARG, 400), (THIS, 3000), (THAT, 3010)];
    let ram = run_with(
        vec![file(
            "Main.vm",
            &[
                "push constant 10",
                "pop local 0",
                "push constant 21",
                "pop argument 2",
                "push constant 36",
                "pop this 6",
                "push constant 45",
                "pop that 5",
                "push constant 510",
                "pop temp 6",
                "push local 0",
                "push that 5",
                "add",
                "push argument 2",
                "sub",
                "push constant 3030",
                "pop pointer 0",
                "push constant 3040",
                "pop pointer 1",
                "push constant 32",
                "pop this 2",
            ],
        )],
        &setup,
    );
    assert_eq!(ram[300], 10);
    assert_eq!(ram[402], 21);
    assert_eq!(ram[3006], 36);
    assert_eq!(ram[3015], 45);
    assert_eq!(ram[11], 510);
    assert_eq!(ram[THIS], 3030);
    assert_eq!(ram[THAT], 3040);
    assert_eq!(ram[3032], 32);
    assert_eq!(ram[256], 10 + 45 - 21);
    assert_eq!(ram[SP], 257);
}

#[test]
fn statics_of_two_files_do_not_share_a_cell() {
    let ram = run_with(
        vec![
            file("One.vm", &["push constant 11", "pop static 0"]),
            file("Two.vm", &["push constant 22", "pop static 0"]),
            file("Three.vm", &["push constant 33", "pop static 1"]),
            file("One.vm", &["push static 0"]),
            file("Two.vm", &["push static 0"]),
        ],
        &[],
    );
    assert_eq!(ram[16], 11);
    assert_eq!(ram[17], 22);
    assert_eq!(ram[18], 33);
    assert_eq!(&ram[256..258], &[11, 22]);
}

#[test]
fn if_goto_branches_on_a_value_that_is_not_zero() {
    let ram = run(&[
        "push constant 0",
        "pop temp 0",
        "push constant 5",
        "pop temp 1",
        "label LOOP",
        "push temp 0",
        "push temp 1",
        "add",
        "pop temp 0",
        "push temp 1",
        "push constant 1",
        "sub",
        "pop temp 1",
        "push temp 1",
        "if-goto LOOP",
    ]);
    assert_eq!(ram[5], 15);
    assert_eq!(ram[6], 0);
    assert_eq!(ram[SP], 256);
}

#[test]
fn if_goto_falls_through_on_zero() {
    let ram = run(&[
        "push constant 0",
        "if-goto SKIP",
        "push constant 111",
        "label SKIP",
        "push constant 222",
    ]);
    assert_eq!(&ram[256..258], &[111, 222]);
}

#[test]
fn goto_jumps_over_code() {
    let ram = run(&["goto SKIP", "push constant 111", "label SKIP", "push constant 222"]);
    assert_eq!(ram[256], 222);
    assert_eq!(ram[SP], 257);
}

#[test]
fn function_with_two_locals_that_returns_at_once() {
    let setup = [(LCL, 300), (ARG, 400), (THIS, 3000), (THAT, 4000)];
    let ram = run_with(
        vec![file(
            "Foo.vm",
            &[
                "push constant 5",
                "call Foo.bar 1",
                "goto END",
                "function Foo.bar 2",
                "return",
                "label END",
            ],
        )],
        &setup,
    );
    assert_eq!(ram[SP], 256 + 1);
    assert_eq!(ram[256], 0);
    assert_eq!(ram[LCL], 300);
    assert_eq!(ram[ARG], 400);
    assert_eq!(ram[THIS], 3000);
    assert_eq!(ram[THAT], 4000);
}

#[test]
fn function_clears_exactly_its_locals() {
    let mut setup: Vec<(usize, i16)> = (256..280).map(|cell| (cell, 7777)).collect();
    setup.push((LCL, 256));
    let ram = run_with(vec![file("Main.vm", &["function Main.f 3"])], &setup);
    assert_eq!(&ram[256..259], &[0, 0, 0]);
    assert_eq!(ram[259], 7777);
    assert_eq!(ram[SP], 259);
    let none = run_with(vec![file("Main.vm", &["function Main.g 0"])], &setup);
    assert_eq!(none[256], 7777);
    assert_eq!(none[SP], 256);
}

#[test]
fn call_without_arguments_points_arg_at_the_saved_words() {
    let ram = run_with(
        vec![file(
            "Main.vm",
            &["push constant 9", "call Main.f 0", "function Main.f 0", "label END"],
        )],
        &[(LCL, 300), (ARG, 400), (THIS, 3000), (THAT, 4000)],
    );
    assert_eq!(ram[SP], 257 + 5);
    assert_eq!(ram[ARG], ram[SP] - 5);
    assert_eq!(ram[ARG], 257);
    assert_eq!(ram[LCL], ram[SP]);
    assert_eq!(&ram[258..262], &[300, 400, 3000, 4000]);
}

#[test]
fn call_points_arg_at_the_first_argument() {
    let ram = run_with(
        vec![file(
            "Main.vm",
            &[
                "push constant 1",
                "push constant 2",
                "push constant 3",
                "call Main.f 2",
                "function Main.f 0",
            ],
        )],
        &[],
    );
    assert_eq!(ram[SP], 259 + 5);
    assert_eq!(ram[ARG], 257);
    assert_eq!(ram[LCL], 264);
}

#[test]
fn return_leaves_the_result_in_place_of_the_arguments() {
    for n_args in 0..4 {
        let mut lines: Vec<String> = vec!["push constant 1000".to_string()];
        for k in 0..n_args {
            lines.push(format!("push constant {}", 10 + k));
        }
        lines.push(format!("call Main.f {}", n_args));
        lines.push("goto END".to_string());
        lines.push("function Main.f 2".to_string());
        lines.push("push constant 40".to_string());
        lines.push("push constant 2".to_string());
        lines.push("add".to_string());
        lines.push("return".to_string());
        lines.push("label END".to_string());
        let text: Vec<&str> = lines.iter().map(|s| s.as_str()).collect();
        let setup = [(LCL, 310), (ARG, 410), (THIS, 3010), (THAT, 4010)];
        let ram = run_with(vec![file("Main.vm", &text)], &setup);
        let at_call = 257 + n_args;
        assert_eq!(ram[SP] as usize, at_call - n_args + 1);
        assert_eq!(ram[ram[SP] as usize - 1], 42);
        assert_eq!(ram[256], 1000);
        assert_eq!(ram[LCL], 310);
        assert_eq!(ram[ARG], 410);
        assert_eq!(ram[THIS], 3010);
        assert_eq!(ram[THAT], 4010);
    }
}

#[test]
fn functions_of_one_file_call_those_of_another() {
    let ram = run_with(
        vec![
            file(
                "Main.vm",
                &[
                    "push constant 6",
                    "call Math.factorial 1",
                    "goto END",
                ],
            ),
            file(
                "Math.vm",
                &[
                    "function Math.factorial 0",
                    "push argument 0",
                    "push constant 2",
                    "lt",
                    "if-goto BASE",
                    "push argument 0",
                    "push argument 0",
                    "push constant 1",
                    "sub",
                    "call Math.factorial 1",
                    "call Math.multiply 2",
                    "return",
                    "label BASE",
                    "push constant 1",
                    "return",
                    "function Math.multiply 2",
                    "label LOOP",
                    "push argument 1",
                    "push constant 0",
                    "eq",
                    "if-goto DONE",
                    "push local 0",
                    "push argument 0",
                    "add",
                    "pop local 0",
                    "push argument 1",
                    "push constant 1",
                    "sub",
                    "pop argument 1",
                    "goto LOOP",
                    "label DONE",
                    "push local 0",
                    "return",
                ],
            ),
            file("End.vm", &["label END"]),
        ],
        &[],
    );
    assert_eq!(ram[256], 720);
    assert_eq!(ram[SP], 257);
}

#[test]
fn a_callee_without_locals_and_without_arguments_returns_its_value() {
    let setup = [(LCL, 310), (ARG, 410), (THIS, 3010), (THAT, 4010)];
    let ram = run_with(
        vec![file(
            "Main.vm",
            &[
                "call Main.answer 0",
                "goto END",
                "function Main.answer 0",
                "push constant 42",
                "return",
                "label END",
            ],
        )],
        &setup,
    );
    assert_eq!(ram[SP], 257);
    assert_eq!(ram[256], 42);
    assert_eq!(ram[LCL], 310);
    assert_eq!(ram[ARG], 410);
    assert_eq!(ram[THIS], 3010);
    assert_eq!(ram[THAT], 4010);
}

#[test]
fn the_start_of_a_program_sets_the_stack_pointer() {
    let ram = run_with(vec![file("Main.vm", &[])], &[(SP, 9999)]);
    assert_eq!(ram[SP], 256);
}
