//! Turns commands into assembly.
//!
//! The writer appends the lines of each command to the program it has built
//! so far. It numbers the labels it invents from three counters that only
//! ever grow, and it names static variables after the file that the command
//! came from.

use crate::machine::instruction::{AsmLine, Comp, Dest, Jump, Line, lines_view};
use crate::text::{
    chars_of, decimal, file_stem, file_stem_of, is_u32_literal, parse_u32, push_decimal, spells,
    u32_literal_value,
};
use crate::vm_translator::parser::{command_text, Command, CommandType, CommandView};
use vstd::prelude::*;
use vstd::string::*;

verus! {

/// `@name`.
pub open spec fn at(name: Seq<char>) -> Line {
    Line::Symbol(name)
}

/// `@n`.
pub open spec fn at_number(n: nat) -> Line {
    Line::Constant(n)
}

/// `(name)`.
pub open spec fn mark(name: Seq<char>) -> Line {
    Line::Label(name)
}

/// `A=comp`.
pub open spec fn set_a(comp: Comp) -> Line {
    Line::Compute(Dest { a: true, d: false, m: false }, comp, Jump::Never)
}

/// `D=comp`.
pub open spec fn set_d(comp: Comp) -> Line {
    Line::Compute(Dest { a: false, d: true, m: false }, comp, Jump::Never)
}

/// `M=comp`.
pub open spec fn set_m(comp: Comp) -> Line {
    Line::Compute(Dest { a: false, d: false, m: true }, comp, Jump::Never)
}

/// `comp;jump`.
pub open spec fn branch(comp: Comp, jump: Jump) -> Line {
    Line::Compute(Dest { a: false, d: false, m: false }, comp, jump)
}

fn line_at(name: &str) -> (l: AsmLine)
    ensures
        l@ == at(name@),
{
    AsmLine::Symbol(String::from_str(name))
}

fn line_at_label(name: &String) -> (l: AsmLine)
    ensures
        l@ == at(name@),
{
    AsmLine::Symbol(name.clone())
}

fn line_at_number(n: u32) -> (l: AsmLine)
    ensures
        l@ == at_number(n as nat),
{
    AsmLine::Constant(n)
}

fn line_mark(name: &String) -> (l: AsmLine)
    ensures
        l@ == mark(name@),
{
    AsmLine::Label(name.clone())
}

fn line_set_a(comp: Comp) -> (l: AsmLine)
    ensures
        l@ == set_a(comp),
{
    AsmLine::Compute(Dest { a: true, d: false, m: false }, comp, Jump::Never)
}

fn line_set_d(comp: Comp) -> (l: AsmLine)
    ensures
        l@ == set_d(comp),
{
    AsmLine::Compute(Dest { a: false, d: true, m: false }, comp, Jump::Never)
}

fn line_set_m(comp: Comp) -> (l: AsmLine)
    ensures
        l@ == set_m(comp),
{
    AsmLine::Compute(Dest { a: false, d: false, m: true }, comp, Jump::Never)
}

fn line_branch(comp: Comp, jump: Jump) -> (l: AsmLine)
    ensures
        l@ == branch(comp, jump),
{
    AsmLine::Compute(Dest { a: false, d: false, m: false }, comp, jump)
}

/// Moves the stack pointer up or down by one.
pub open spec fn modify_sp_code(inc: bool) -> Seq<Line> {
    seq![at("SP"@), set_m(if inc { Comp::MPlusOne } else { Comp::MMinusOne })]
}

/// Stores the value of `reg` on top of the stack and moves the stack pointer up.
pub open spec fn push_reg_code(reg: Comp) -> Seq<Line> {
    seq![at("SP"@), set_a(Comp::M), set_m(reg)] + modify_sp_code(true)
}

/// The label that a comparison jumps to when it holds.
pub open spec fn true_label(n: nat) -> Seq<char> {
    "TRUE_"@ + decimal(n)
}

/// The label at which both paths of a comparison meet.
pub open spec fn end_label(n: nat) -> Seq<char> {
    "END_"@ + decimal(n)
}

/// The label to which the `n`-th call returns.
pub open spec fn return_label(stem: Seq<char>, n: nat) -> Seq<char> {
    stem + ".ret"@ + decimal(n) + "$"@ + decimal(n)
}

/// The label at the head of the loop that clears a function's local variables.
pub open spec fn loop_start_label(n: nat) -> Seq<char> {
    "func_init.loop_start."@ + decimal(n)
}

/// The label behind the loop that clears a function's local variables.
pub open spec fn loop_end_label(n: nat) -> Seq<char> {
    "func_init.loop_end."@ + decimal(n)
}

/// The name of a static variable: the stem of its file, a dot, its index.
pub open spec fn static_symbol(stem: Seq<char>, index: nat) -> Seq<char> {
    stem + "."@ + decimal(index)
}

/// Sets the stack pointer to the base of the stack.
pub open spec fn init_code() -> Seq<Line> {
    seq![at_number(256), set_d(Comp::A), at("SP"@), set_m(Comp::D)]
}

/// Applies `op` to the value on top of the stack, in place.
pub open spec fn unary_code(op: Comp) -> Seq<Line> {
    seq![at("SP"@), set_a(Comp::MMinusOne), set_m(op)]
}

/// Takes the top value off the stack and combines it, by `op`, into the
/// value below.
pub open spec fn two_var_arithmetic_code(op: Comp) -> Seq<Line> {
    seq![at("SP"@), set_a(Comp::MMinusOne), set_d(Comp::M)] + modify_sp_code(false) + seq![
        at("SP"@),
        set_a(Comp::MMinusOne),
        set_m(op),
    ]
}

/// Takes the top value off the stack, subtracts the value below from it, and
/// puts all ones in that value's place where `jump` holds of the difference,
/// zero where it does not. `n` numbers the two labels.
pub open spec fn compare_code(jump: Jump, n: nat) -> Seq<Line> {
    seq![at("SP"@), set_a(Comp::MMinusOne), set_d(Comp::M)] + modify_sp_code(false) + seq![
        at("SP"@),
        set_a(Comp::MMinusOne),
        set_d(Comp::DMinusM),
        at(true_label(n)),
        branch(Comp::D, jump),
        at("SP"@),
        set_a(Comp::MMinusOne),
        set_m(Comp::Zero),
        at(end_label(n)),
        branch(Comp::Zero, Jump::Always),
        mark(true_label(n)),
        at("SP"@),
        set_a(Comp::MMinusOne),
        set_m(Comp::MinusOne),
        mark(end_label(n)),
    ]
}

/// Pushes the number `value`.
pub open spec fn push_constant_code(value: nat) -> Seq<Line> {
    seq![at_number(value), set_d(Comp::A)] + push_reg_code(Comp::D)
}

/// Pushes the word of the static variable `index` of the file with the given stem.
pub open spec fn push_static_code(stem: Seq<char>, index: nat) -> Seq<Line> {
    seq![at(static_symbol(stem, index)), set_d(Comp::M)] + push_reg_code(Comp::D)
}

/// Pushes the word at `index` cells above the address that `base` holds.
pub open spec fn generic_mem_push_code(base: Seq<char>, index: nat) -> Seq<Line> {
    seq![at(base), set_d(Comp::M), at_number(index), set_a(Comp::DPlusA), set_d(Comp::M)]
        + push_reg_code(Comp::D)
}

/// Pushes the word at `index` cells above the fixed address `base`.
pub open spec fn push_base_index_code(index: nat, base: nat) -> Seq<Line> {
    seq![at_number(index), set_d(Comp::A), at_number(base), set_a(Comp::DPlusA), set_d(Comp::M)]
        + push_reg_code(Comp::D)
}

/// Takes the top value off the stack into the data register.
pub open spec fn pop_d_code() -> Seq<Line> {
    seq![at("SP"@), set_a(Comp::MMinusOne), set_d(Comp::M)] + modify_sp_code(false)
}

/// Stores the data register in the cell whose address `R13` holds.
pub open spec fn store_at_r13_code() -> Seq<Line> {
    seq![at("R13"@), set_a(Comp::M), set_m(Comp::D)]
}

/// Pops into the static variable `index` of the file with the given stem.
pub open spec fn pop_static_code(stem: Seq<char>, index: nat) -> Seq<Line> {
    pop_d_code() + seq![at(static_symbol(stem, index)), set_m(Comp::D)]
}

/// Pops into the cell `index` cells above the address that `base` holds. The
/// address is put by in `R13` before the stack is touched.
pub open spec fn generic_mem_pop_code(base: Seq<char>, index: nat) -> Seq<Line> {
    seq![
        at_number(index),
        set_d(Comp::A),
        at(base),
        set_d(Comp::DPlusM),
        at("R13"@),
        set_m(Comp::D),
    ] + pop_d_code() + store_at_r13_code()
}

/// Pops into the cell `index` cells above the fixed address `base`.
pub open spec fn pop_base_index_code(index: nat, base: nat) -> Seq<Line> {
    seq![
        at_number(index),
        set_d(Comp::A),
        at_number(base),
        set_d(Comp::DPlusA),
        at("R13"@),
        set_m(Comp::D),
    ] + pop_d_code() + store_at_r13_code()
}

/// Marks the place that `name` stands for.
pub open spec fn label_code(name: Seq<char>) -> Seq<Line> {
    seq![mark(name)]
}

/// Jumps to `name`.
pub open spec fn goto_code(name: Seq<char>) -> Seq<Line> {
    seq![at(name), branch(Comp::Zero, Jump::Always)]
}

/// Takes the top value off the stack and jumps to `name` unless it is zero.
pub open spec fn if_code(name: Seq<char>) -> Seq<Line> {
    seq![
        at("SP"@),
        set_a(Comp::MMinusOne),
        set_d(Comp::M),
        at("SP"@),
        set_m(Comp::MMinusOne),
        at(name),
        branch(Comp::D, Jump::NotEqual),
    ]
}

/// Marks the entry of function `name` and pushes `n_vars` zeros, in a loop
/// whose two labels are numbered `n`.
pub open spec fn function_code(name: Seq<char>, n_vars: nat, n: nat) -> Seq<Line> {
    seq![
        mark(name),
        at_number(n_vars),
        set_d(Comp::A),
        at("nVars"@),
        set_m(Comp::D),
        at("i"@),
        set_m(Comp::Zero),
        mark(loop_start_label(n)),
        at("nVars"@),
        set_d(Comp::M),
        at("i"@),
        set_d(Comp::DMinusM),
        at(loop_end_label(n)),
        branch(Comp::D, Jump::Equal),
        at("SP"@),
        set_a(Comp::M),
        set_m(Comp::Zero),
        at("SP"@),
        set_m(Comp::MPlusOne),
        at("i"@),
        set_m(Comp::MPlusOne),
        at(loop_start_label(n)),
        branch(Comp::Zero, Jump::Always),
        mark(loop_end_label(n)),
    ]
}

/// Pushes the word that the cell named `register` holds.
pub open spec fn save_register_code(register: Seq<char>) -> Seq<Line> {
    seq![at(register), set_d(Comp::M)] + push_reg_code(Comp::D)
}

/// Sets `ARG` to the stack pointer less five and less `n_args`.
pub open spec fn reposition_arg_code(n_args: nat) -> Seq<Line> {
    seq![
        at_number(5),
        set_d(Comp::A),
        at_number(n_args),
        set_d(Comp::DPlusA),
        at("SP"@),
        set_d(Comp::MMinusD),
        at("ARG"@),
        set_m(Comp::D),
    ]
}

/// Sets `LCL` to the stack pointer.
pub open spec fn reposition_lcl_code() -> Seq<Line> {
    seq![at("SP"@), set_d(Comp::M), at("LCL"@), set_m(Comp::D)]
}

/// Calls `name` with the `n_args` values on top of the stack: pushes the
/// return address and the caller's `LCL`, `ARG`, `THIS` and `THAT`, in that
/// order, sets `ARG` and `LCL` for the callee, jumps, and marks the return
/// address directly behind the jump.
pub open spec fn call_code(name: Seq<char>, n_args: nat, return_to: Seq<char>) -> Seq<Line> {
    seq![at(return_to), set_d(Comp::A)] + push_reg_code(Comp::D) + save_register_code("LCL"@)
        + save_register_code("ARG"@) + save_register_code("THIS"@) + save_register_code("THAT"@)
        + reposition_arg_code(n_args) + reposition_lcl_code() + goto_code(name) + label_code(
        return_to,
    )
}

/// Puts `LCL` by in `FRAME`.
pub open spec fn save_frame_code() -> Seq<Line> {
    seq![at("LCL"@), set_d(Comp::M), at("FRAME"@), set_m(Comp::D)]
}

/// Puts the return address, five cells below the frame, by in `RET`.
pub open spec fn save_return_address_code() -> Seq<Line> {
    seq![
        at("FRAME"@),
        set_d(Comp::M),
        at_number(5),
        set_d(Comp::DMinusA),
        set_a(Comp::D),
        set_d(Comp::M),
        at("RET"@),
        set_m(Comp::D),
    ]
}

/// Takes the top value off the stack and stores it where `ARG` points.
pub open spec fn place_result_code() -> Seq<Line> {
    seq![
        at("SP"@),
        set_a(Comp::MMinusOne),
        set_d(Comp::M),
        at("SP"@),
        set_m(Comp::MMinusOne),
        at("ARG"@),
        set_a(Comp::M),
        set_m(Comp::D),
    ]
}

/// Sets the stack pointer to one above `ARG`.
pub open spec fn restore_sp_code() -> Seq<Line> {
    seq![at("ARG"@), set_d(Comp::MPlusOne), at("SP"@), set_m(Comp::D)]
}

/// Steps `FRAME` down by one and loads the word it then points to into the
/// cell named `register`.
pub open spec fn restore_register_code(register: Seq<char>) -> Seq<Line> {
    seq![
        at("FRAME"@),
        set_m(Comp::MMinusOne),
        set_a(Comp::M),
        set_d(Comp::M),
        at(register),
        set_m(Comp::D),
    ]
}

/// Jumps to the address put by in `RET`.
pub open spec fn jump_back_code() -> Seq<Line> {
    seq![at("RET"@), set_a(Comp::M), branch(Comp::Zero, Jump::Always)]
}

/// Returns to the caller: the result goes where the callee's first argument
/// was, the stack pointer directly above it, and `THAT`, `THIS`, `ARG` and
/// `LCL` get the words saved below the frame.
pub open spec fn return_code() -> Seq<Line> {
    save_frame_code() + save_return_address_code() + place_result_code() + restore_sp_code()
        + restore_register_code("THAT"@) + restore_register_code("THIS"@) + restore_register_code(
        "ARG"@,
    ) + restore_register_code("LCL"@) + jump_back_code()
}

/// The state of a writer: the program so far, the counters, and the stem of
/// the file whose commands are being translated.
pub struct WriterState {
    pub code: Seq<Line>,
    pub comparison_counter: nat,
    pub return_counter: nat,
    pub function_init_counter: nat,
    pub current_file_stem: Seq<char>,
}

impl WriterState {
    /// The state with `lines` appended to the program.
    pub open spec fn emit(self, lines: Seq<Line>) -> WriterState {
        WriterState { code: self.code + lines, ..self }
    }
}

/// Why a command cannot be translated.
#[derive(Clone, Copy, Debug, PartialEq, Eq, Structural)]
pub enum TranslationErrorKind {
    /// The segment is none of the eight, or it is `constant` in a `pop`.
    InvalidSegment,
    /// The command needs an index or a count and has none.
    MissingArgument,
    /// The index or count is no non-negative integer of 32 bits.
    InvalidArgument,
    /// The mnemonic of an arithmetic command is none of the nine.
    InvalidOperator,
    /// The counter that numbers the labels of this kind of command is used up.
    LabelsExhausted,
}

/// A command that could not be translated.
#[derive(Debug)]
pub struct TranslationError {
    pub kind: TranslationErrorKind,
    /// The command as it is written.
    pub command: String,
}

/// The index or count of a command.
pub open spec fn number_argument(c: CommandView) -> Result<nat, TranslationErrorKind> {
    match c.arg2 {
        None => Err(TranslationErrorKind::MissingArgument),
        Some(t) => if is_u32_literal(t) {
            Ok(u32_literal_value(t))
        } else {
            Err(TranslationErrorKind::InvalidArgument)
        },
    }
}

/// The computation of a mnemonic that takes two values: the value below
/// the top is in memory, the top value in the data register.
pub open spec fn binary_operator(op: Seq<char>) -> Option<Comp> {
    if op == "add"@ {
        Some(Comp::DPlusM)
    } else if op == "sub"@ {
        Some(Comp::MMinusD)
    } else if op == "and"@ {
        Some(Comp::DAndM)
    } else if op == "or"@ {
        Some(Comp::DOrM)
    } else {
        None
    }
}

/// The computation of a mnemonic that takes one value.
pub open spec fn unary_operator(op: Seq<char>) -> Option<Comp> {
    if op == "neg"@ {
        Some(Comp::NegM)
    } else if op == "not"@ {
        Some(Comp::NotM)
    } else {
        None
    }
}

/// The condition under which a comparison holds, on the top value less the
/// value below it.
pub open spec fn comparison_jump(op: Seq<char>) -> Option<Jump> {
    if op == "eq"@ {
        Some(Jump::Equal)
    } else if op == "gt"@ {
        Some(Jump::Less)
    } else if op == "lt"@ {
        Some(Jump::Greater)
    } else {
        None
    }
}

/// The register that holds the base address of a segment.
pub open spec fn base_register(segment: Seq<char>) -> Option<Seq<char>> {
    if segment == "argument"@ {
        Some("ARG"@)
    } else if segment == "local"@ {
        Some("LCL"@)
    } else if segment == "this"@ {
        Some("THIS"@)
    } else if segment == "that"@ {
        Some("THAT"@)
    } else {
        None
    }
}

/// The fixed address at which a segment starts.
pub open spec fn fixed_base(segment: Seq<char>) -> Option<nat> {
    if segment == "pointer"@ {
        Some(3)
    } else if segment == "temp"@ {
        Some(5)
    } else {
        None
    }
}

/// The code of `push segment index` in the file with the given stem.
pub open spec fn push_code(segment: Seq<char>, index: nat, stem: Seq<char>) -> Option<Seq<Line>> {
    if base_register(segment) is Some {
        Some(generic_mem_push_code(base_register(segment)->0, index))
    } else if segment == "static"@ {
        Some(push_static_code(stem, index))
    } else if segment == "constant"@ {
        Some(push_constant_code(index))
    } else if fixed_base(segment) is Some {
        Some(push_base_index_code(index, fixed_base(segment)->0))
    } else {
        None
    }
}

/// The code of `pop segment index` in the file with the given stem. There is
/// none for `constant`.
pub open spec fn pop_code(segment: Seq<char>, index: nat, stem: Seq<char>) -> Option<Seq<Line>> {
    if base_register(segment) is Some {
        Some(generic_mem_pop_code(base_register(segment)->0, index))
    } else if segment == "static"@ {
        Some(pop_static_code(stem, index))
    } else if fixed_base(segment) is Some {
        Some(pop_base_index_code(index, fixed_base(segment)->0))
    } else {
        None
    }
}

/// What an arithmetic command adds to the state. A comparison takes its two
/// labels from the comparison counter and moves the counter on by one.
pub open spec fn translate_arithmetic(op: Seq<char>, w: WriterState) -> Result<
    WriterState,
    TranslationErrorKind,
> {
    if binary_operator(op) is Some {
        Ok(w.emit(two_var_arithmetic_code(binary_operator(op)->0)))
    } else if unary_operator(op) is Some {
        Ok(w.emit(unary_code(unary_operator(op)->0)))
    } else if comparison_jump(op) is Some {
        if w.comparison_counter >= u32::MAX {
            Err(TranslationErrorKind::LabelsExhausted)
        } else {
            Ok(
                WriterState {
                    comparison_counter: w.comparison_counter + 1,
                    ..w.emit(compare_code(comparison_jump(op)->0, w.comparison_counter))
                },
            )
        }
    } else {
        Err(TranslationErrorKind::InvalidOperator)
    }
}

/// What a `push` adds to the state. A static variable is one of the current
/// file.
pub open spec fn translate_push(c: CommandView, w: WriterState) -> Result<
    WriterState,
    TranslationErrorKind,
> {
    match number_argument(c) {
        Err(kind) => Err(kind),
        Ok(index) => match push_code(c.arg1, index, w.current_file_stem) {
            Some(code) => Ok(w.emit(code)),
            None => Err(TranslationErrorKind::InvalidSegment),
        },
    }
}

/// What a `pop` adds to the state. A static variable is one of the current
/// file.
pub open spec fn translate_pop(c: CommandView, w: WriterState) -> Result<
    WriterState,
    TranslationErrorKind,
> {
    match number_argument(c) {
        Err(kind) => Err(kind),
        Ok(index) => match pop_code(c.arg1, index, w.current_file_stem) {
            Some(code) => Ok(w.emit(code)),
            None => Err(TranslationErrorKind::InvalidSegment),
        },
    }
}

/// What a `function` adds to the state. The loop that clears the local
/// variables takes its labels from the function counter and moves it on by one.
pub open spec fn translate_function(c: CommandView, w: WriterState) -> Result<
    WriterState,
    TranslationErrorKind,
> {
    match number_argument(c) {
        Err(kind) => Err(kind),
        Ok(n_vars) => if w.function_init_counter >= u32::MAX {
            Err(TranslationErrorKind::LabelsExhausted)
        } else {
            Ok(
                WriterState {
                    function_init_counter: w.function_init_counter + 1,
                    ..w.emit(function_code(c.arg1, n_vars, w.function_init_counter))
                },
            )
        },
    }
}

/// What a `call` adds to the state. The return address takes its label from
/// the current file and the return counter, and moves the counter on by one.
pub open spec fn translate_call(c: CommandView, w: WriterState) -> Result<
    WriterState,
    TranslationErrorKind,
> {
    match number_argument(c) {
        Err(kind) => Err(kind),
        Ok(n_args) => if w.return_counter >= u32::MAX {
            Err(TranslationErrorKind::LabelsExhausted)
        } else {
            Ok(
                WriterState {
                    return_counter: w.return_counter + 1,
                    ..w.emit(
                        call_code(
                            c.arg1,
                            n_args,
                            return_label(w.current_file_stem, w.return_counter),
                        ),
                    )
                },
            )
        },
    }
}

/// The state of a writer that turns to the file with the given stem.
pub open spec fn in_file(w: WriterState, stem: Seq<char>) -> WriterState {
    WriterState { current_file_stem: stem, ..w }
}

/// The state after a command has been translated, or why it cannot be.
///
/// The file that the command came from becomes the current one, the lines
/// of the command are appended to the program, and the counter that numbered
/// its labels moves on by one.
pub open spec fn translate(c: CommandView, w: WriterState) -> Result<
    WriterState,
    TranslationErrorKind,
> {
    let here = in_file(w, file_stem(c.file_name));
    match c.command_type {
        CommandType::Arithmetic => translate_arithmetic(c.arg1, here),
        CommandType::Push => translate_push(c, here),
        CommandType::Pop => translate_pop(c, here),
        CommandType::Call => translate_call(c, here),
        CommandType::Function => translate_function(c, here),
        CommandType::Goto => Ok(here.emit(goto_code(c.arg1))),
        CommandType::If => Ok(here.emit(if_code(c.arg1))),
        CommandType::Label => Ok(here.emit(label_code(c.arg1))),
        CommandType::Return => Ok(here.emit(return_code())),
    }
}

/// Whether a writer that went from `before` to `after` and answered `r` did
/// what `expected` says: reached the expected state, or kept its state and
/// gave the expected error.
pub open spec fn outcome(
    r: Result<(), TranslationErrorKind>,
    before: WriterState,
    after: WriterState,
    expected: Result<WriterState, TranslationErrorKind>,
) -> bool {
    match expected {
        Ok(w) => r is Ok && after == w,
        Err(kind) => r == Err::<(), TranslationErrorKind>(kind) && after == before,
    }
}

/// Builds the assembly program of one or more bytecode files.
pub struct CodeWriter {
    lines: Vec<AsmLine>,
    comparison_counter: u32,
    return_counter: u32,
    function_init_counter: u32,
    current_file_stem: String,
}

impl View for CodeWriter {
    type V = WriterState;

    closed spec fn view(&self) -> WriterState {
        WriterState {
            code: lines_view(self.lines@),
            comparison_counter: self.comparison_counter as nat,
            return_counter: self.return_counter as nat,
            function_init_counter: self.function_init_counter as nat,
            current_file_stem: self.current_file_stem@,
        }
    }
}

impl CodeWriter {
    /// A writer with an empty program, all counters at zero and no file yet.
    pub fn new() -> (w: CodeWriter)
        ensures
            w@.code == Seq::<Line>::empty(),
            w@.comparison_counter == 0,
            w@.return_counter == 0,
            w@.function_init_counter == 0,
            w@.current_file_stem == Seq::<char>::empty(),
    {
        let w = CodeWriter {
            lines: Vec::new(),
            comparison_counter: 0,
            return_counter: 0,
            function_init_counter: 0,
            current_file_stem: String::new(),
        };
        assert(w@.code =~= Seq::<Line>::empty());
        w
    }

    /// The program built so far.
    pub fn lines(&self) -> (r: &Vec<AsmLine>)
        ensures
            lines_view(r@) == self@.code,
    {
        &self.lines
    }

    fn write_string(&mut self, line: AsmLine)
        ensures
            final(self)@ == old(self)@.emit(seq![line@]),
    {
        self.lines.push(line);
        assert(final(self)@.code =~= old(self)@.code + seq![line@]);
    }

    fn write_strings(&mut self, lines: Vec<AsmLine>)
        ensures
            final(self)@ == old(self)@.emit(lines_view(lines@)),
    {
        let mut lines = lines;
        let ghost added = lines_view(lines@);
        self.lines.append(&mut lines);
        assert(final(self)@.code =~= old(self)@.code + added);
    }

    /// Appends the two lines that move the stack pointer up or down by one.
    #[allow(non_snake_case)]
    pub fn modify_SP(&mut self, inc: bool)
        ensures
            final(self)@ == old(self)@.emit(modify_sp_code(inc)),
    {
        let mut strings = vec![line_at("SP")];
        if inc {
            strings.push(line_set_m(Comp::MPlusOne));
        } else {
            strings.push(line_set_m(Comp::MMinusOne));
        }
        assert(lines_view(strings@) =~= modify_sp_code(inc));
        self.write_strings(strings);
    }

    /// Appends the lines that store the value of `reg` on top of the stack and
    /// move the stack pointer up.
    pub fn push_reg(&mut self, reg: Comp)
        ensures
            final(self)@ == old(self)@.emit(push_reg_code(reg)),
    {
        let strings = vec![line_at("SP"), line_set_a(Comp::M), line_set_m(reg)];
        assert(lines_view(strings@) =~= seq![at("SP"@), set_a(Comp::M), set_m(reg)]);
        self.write_strings(strings);
        self.modify_SP(true);
        assert(final(self)@.code =~= old(self)@.code + push_reg_code(reg));
    }

    /// Appends the lines that set the stack pointer to the base of the stack.
    pub fn init(&mut self)
        ensures
            final(self)@ == old(self)@.emit(init_code()),
    {
        let strings = vec![
            line_at_number(256),
            line_set_d(Comp::A),
            line_at("SP"),
            line_set_m(Comp::D),
        ];
        assert(lines_view(strings@) =~= init_code());
        self.write_strings(strings);
    }

    /// Appends the lines of `command` to the program.
    ///
    /// A command that cannot be translated leaves the writer as it was; the
    /// error names the reason and holds the command as it is written.
    pub fn translate_command(&mut self, command: &Command) -> (r: Result<(), TranslationError>)
        ensures
            match translate(command@, old(self)@) {
                Ok(after) => r is Ok && final(self)@ == after,
                Err(kind) => {
                    &&& final(self)@ == old(self)@
                    &&& r matches Err(e) && e.kind == kind && e.command@ == command_text(command@)
                },
            },
    {
        let previous = self.current_file_stem.clone();
        self.current_file_stem = file_stem_of(command.get_file_name().as_str());
        let translated = match command.get_command_type() {
            CommandType::Arithmetic => self.translate_arithmetic(command),
            CommandType::Push => self.translate_push(command),
            CommandType::Pop => self.translate_pop(command),
            CommandType::Call => self.translate_call(command),
            CommandType::Function => self.translate_function(command),
            CommandType::Goto => self.translate_goto(command),
            CommandType::If => self.translate_if(command),
            CommandType::Label => self.translate_label(command),
            CommandType::Return => self.translate_return(),
        };
        match translated {
            Ok(()) => Ok(()),
            Err(kind) => {
                self.current_file_stem = previous;
                Err(TranslationError { kind, command: command.to_text() })
            },
        }
    }

    /// Appends the lines of an arithmetic command: one of the nine mnemonics.
    pub fn translate_arithmetic(&mut self, command: &Command) -> (r: Result<
        (),
        TranslationErrorKind,
    >)
        ensures
            outcome(r, old(self)@, final(self)@, translate_arithmetic(command@.arg1, old(self)@)),
    {
        let op = chars_of(command.get_arg1().as_str());
        proof {
            reveal_strlit("add");
            reveal_strlit("sub");
            reveal_strlit("neg");
            reveal_strlit("eq");
            reveal_strlit("gt");
            reveal_strlit("lt");
            reveal_strlit("and");
            reveal_strlit("or");
            reveal_strlit("not");
            assert("add"@[0] == 'a' && "sub"@[0] == 's' && "and"@[0] == 'a' && "or"@[0] == 'o');
            assert("neg"@[0] == 'n' && "not"@[0] == 'n');
            assert("eq"@[0] == 'e' && "gt"@[0] == 'g' && "lt"@[0] == 'l');
        }
        if spells(&op, "add") {
            self.two_var_arithmetic(Comp::DPlusM);
        } else if spells(&op, "sub") {
            self.two_var_arithmetic(Comp::MMinusD);
        } else if spells(&op, "neg") {
            self.one_var_arithmetic(Comp::NegM);
        } else if spells(&op, "eq") {
            let r = self.compare_arithmetic(Jump::Equal);
            return r;
        } else if spells(&op, "gt") {
            let r = self.compare_arithmetic(Jump::Less);
            return r;
        } else if spells(&op, "lt") {
            let r = self.compare_arithmetic(Jump::Greater);
            return r;
        } else if spells(&op, "and") {
            self.two_var_arithmetic(Comp::DAndM);
        } else if spells(&op, "or") {
            self.two_var_arithmetic(Comp::DOrM);
        } else if spells(&op, "not") {
            self.one_var_arithmetic(Comp::NotM);
        } else {
            return Err(TranslationErrorKind::InvalidOperator);
        }
        Ok(())
    }

    /// Appends the lines of a `call`; the return label is one of the current
    /// file.
    pub fn translate_call(&mut self, command: &Command) -> (r: Result<(), TranslationErrorKind>)
        ensures
            outcome(r, old(self)@, final(self)@, translate_call(command@, old(self)@)),
    {
        let n_args = match number_of(command) {
            Ok(n) => n,
            Err(kind) => {
                return Err(kind);
            },
        };
        if self.return_counter == u32::MAX {
            return Err(TranslationErrorKind::LabelsExhausted);
        }
        let mut ret_addr = self.current_file_stem.clone();
        ret_addr.append(".ret");
        push_decimal(&mut ret_addr, self.return_counter);
        ret_addr.append("$");
        push_decimal(&mut ret_addr, self.return_counter);
        assert(ret_addr@ =~= return_label(
            old(self)@.current_file_stem,
            old(self)@.return_counter,
        ));

        let push_address = vec![line_at_label(&ret_addr), line_set_d(Comp::A)];
        assert(lines_view(push_address@) =~= seq![at(ret_addr@), set_d(Comp::A)]);
        self.write_strings(push_address);
        self.push_reg(Comp::D);

        self.save_register("LCL");
        self.save_register("ARG");
        self.save_register("THIS");
        self.save_register("THAT");

        let reposition_arg = vec![
            line_at_number(5),
            line_set_d(Comp::A),
            line_at_number(n_args),
            line_set_d(Comp::DPlusA),
            line_at("SP"),
            line_set_d(Comp::MMinusD),
            line_at("ARG"),
            line_set_m(Comp::D),
        ];
        assert(lines_view(reposition_arg@) =~= reposition_arg_code(n_args as nat));
        self.write_strings(reposition_arg);

        let reposition_lcl = vec![
            line_at("SP"),
            line_set_d(Comp::M),
            line_at("LCL"),
            line_set_m(Comp::D),
        ];
        assert(lines_view(reposition_lcl@) =~= reposition_lcl_code());
        self.write_strings(reposition_lcl);

        let go = vec![line_at_label(command.get_arg1()), line_branch(Comp::Zero, Jump::Always)];
        assert(lines_view(go@) =~= goto_code(command@.arg1));
        self.write_strings(go);

        self.write_string(line_mark(&ret_addr));
        assert(seq![mark(ret_addr@)] =~= label_code(ret_addr@));
        self.return_counter = self.return_counter + 1;
        assert(final(self)@.code =~= old(self)@.code + call_code(
            command@.arg1,
            n_args as nat,
            ret_addr@,
        ));
        Ok(())
    }

    fn save_register(&mut self, register: &str)
        ensures
            final(self)@ == old(self)@.emit(save_register_code(register@)),
    {
        let load = vec![line_at(register), line_set_d(Comp::M)];
        assert(lines_view(load@) =~= seq![at(register@), set_d(Comp::M)]);
        self.write_strings(load);
        self.push_reg(Comp::D);
        assert(final(self)@.code =~= old(self)@.code + save_register_code(register@));
    }

    /// Appends the lines of a `function`.
    pub fn translate_function(&mut self, command: &Command) -> (r: Result<(), TranslationErrorKind>)
        ensures
            outcome(r, old(self)@, final(self)@, translate_function(command@, old(self)@)),
    {
        let n_vars = match number_of(command) {
            Ok(n) => n,
            Err(kind) => {
                return Err(kind);
            },
        };
        if self.function_init_counter == u32::MAX {
            return Err(TranslationErrorKind::LabelsExhausted);
        }
        let mut loop_start = String::from_str("func_init.loop_start.");
        push_decimal(&mut loop_start, self.function_init_counter);
        let mut loop_end = String::from_str("func_init.loop_end.");
        push_decimal(&mut loop_end, self.function_init_counter);

        let strings = vec![
            line_mark(command.get_arg1()),
            line_at_number(n_vars),
            line_set_d(Comp::A),
            line_at("nVars"),
            line_set_m(Comp::D),
            line_at("i"),
            line_set_m(Comp::Zero),
            line_mark(&loop_start),
            line_at("nVars"),
            line_set_d(Comp::M),
            line_at("i"),
            line_set_d(Comp::DMinusM),
            line_at_label(&loop_end),
            line_branch(Comp::D, Jump::Equal),
            line_at("SP"),
            line_set_a(Comp::M),
            line_set_m(Comp::Zero),
            line_at("SP"),
            line_set_m(Comp::MPlusOne),
            line_at("i"),
            line_set_m(Comp::MPlusOne),
            line_at_label(&loop_start),
            line_branch(Comp::Zero, Jump::Always),
            line_mark(&loop_end),
        ];
        assert(lines_view(strings@) =~= function_code(
            command@.arg1,
            n_vars as nat,
            old(self)@.function_init_counter,
        ));
        self.write_strings(strings);
        self.function_init_counter = self.function_init_counter + 1;
        Ok(())
    }

    /// Appends the lines of a `return`.
    pub fn translate_return(&mut self) -> (r: Result<(), TranslationErrorKind>)
        ensures
            outcome(r, old(self)@, final(self)@, Ok(old(self)@.emit(return_code()))),
    {
        let save_frame = vec![
            line_at("LCL"),
            line_set_d(Comp::M),
            line_at("FRAME"),
            line_set_m(Comp::D),
        ];
        assert(lines_view(save_frame@) =~= save_frame_code());
        self.write_strings(save_frame);

        let save_return_address = vec![
            line_at("FRAME"),
            line_set_d(Comp::M),
            line_at_number(5),
            line_set_d(Comp::DMinusA),
            line_set_a(Comp::D),
            line_set_d(Comp::M),
            line_at("RET"),
            line_set_m(Comp::D),
        ];
        assert(lines_view(save_return_address@) =~= save_return_address_code());
        self.write_strings(save_return_address);

        let place_result = vec![
            line_at("SP"),
            line_set_a(Comp::MMinusOne),
            line_set_d(Comp::M),
            line_at("SP"),
            line_set_m(Comp::MMinusOne),
            line_at("ARG"),
            line_set_a(Comp::M),
            line_set_m(Comp::D),
        ];
        assert(lines_view(place_result@) =~= place_result_code());
        self.write_strings(place_result);

        let restore_sp = vec![
            line_at("ARG"),
            line_set_d(Comp::MPlusOne),
            line_at("SP"),
            line_set_m(Comp::D),
        ];
        assert(lines_view(restore_sp@) =~= restore_sp_code());
        self.write_strings(restore_sp);

        self.restore_register("THAT");
        self.restore_register("THIS");
        self.restore_register("ARG");
        self.restore_register("LCL");

        let jump_back = vec![
            line_at("RET"),
            line_set_a(Comp::M),
            line_branch(Comp::Zero, Jump::Always),
        ];
        assert(lines_view(jump_back@) =~= jump_back_code());
        self.write_strings(jump_back);
        assert(final(self)@.code =~= old(self)@.code + return_code());
        Ok(())
    }

    fn restore_register(&mut self, register: &str)
        ensures
            final(self)@ == old(self)@.emit(restore_register_code(register@)),
    {
        let strings = vec![
            line_at("FRAME"),
            line_set_m(Comp::MMinusOne),
            line_set_a(Comp::M),
            line_set_d(Comp::M),
            line_at(register),
            line_set_m(Comp::D),
        ];
        assert(lines_view(strings@) =~= restore_register_code(register@));
        self.write_strings(strings);
    }

    /// Appends the line of a `label`.
    pub fn translate_label(&mut self, command: &Command) -> (r: Result<(), TranslationErrorKind>)
        ensures
            outcome(r, old(self)@, final(self)@, Ok(old(self)@.emit(label_code(command@.arg1)))),
    {
        self.write_string(line_mark(command.get_arg1()));
        Ok(())
    }

    /// Appends the lines of a `goto`.
    pub fn translate_goto(&mut self, command: &Command) -> (r: Result<(), TranslationErrorKind>)
        ensures
            outcome(r, old(self)@, final(self)@, Ok(old(self)@.emit(goto_code(command@.arg1)))),
    {
        let strings = vec![
            line_at_label(command.get_arg1()),
            line_branch(Comp::Zero, Jump::Always),
        ];
        assert(lines_view(strings@) =~= goto_code(command@.arg1));
        self.write_strings(strings);
        Ok(())
    }

    /// Appends the lines of an `if-goto`.
    pub fn translate_if(&mut self, command: &Command) -> (r: Result<(), TranslationErrorKind>)
        ensures
            outcome(r, old(self)@, final(self)@, Ok(old(self)@.emit(if_code(command@.arg1)))),
    {
        let strings = vec![
            line_at("SP"),
            line_set_a(Comp::MMinusOne),
            line_set_d(Comp::M),
            line_at("SP"),
            line_set_m(Comp::MMinusOne),
            line_at_label(command.get_arg1()),
            line_branch(Comp::D, Jump::NotEqual),
        ];
        assert(lines_view(strings@) =~= if_code(command@.arg1));
        self.write_strings(strings);
        Ok(())
    }

    /// Appends the lines of a `push`; a static variable is one of the current
    /// file.
    pub fn translate_push(&mut self, command: &Command) -> (r: Result<(), TranslationErrorKind>)
        ensures
            outcome(r, old(self)@, final(self)@, translate_push(command@, old(self)@)),
    {
        let index = match number_of(command) {
            Ok(n) => n,
            Err(kind) => {
                return Err(kind);
            },
        };
        let segment = chars_of(command.get_arg1().as_str());
        if spells(&segment, "argument") {
            self.generic_mem_push("ARG", index);
        } else if spells(&segment, "local") {
            self.generic_mem_push("LCL", index);
        } else if spells(&segment, "this") {
            self.generic_mem_push("THIS", index);
        } else if spells(&segment, "that") {
            self.generic_mem_push("THAT", index);
        } else if spells(&segment, "static") {
            self.push_static(index);
        } else if spells(&segment, "constant") {
            self.push_constant(index);
        } else if spells(&segment, "pointer") {
            self.push_base_index(index, 3);
        } else if spells(&segment, "temp") {
            self.push_base_index(index, 5);
        } else {
            return Err(TranslationErrorKind::InvalidSegment);
        }
        Ok(())
    }

    /// Appends the lines of a `pop`; a static variable is one of the current
    /// file. There is no `pop` into `constant`.
    pub fn translate_pop(&mut self, command: &Command) -> (r: Result<(), TranslationErrorKind>)
        ensures
            outcome(r, old(self)@, final(self)@, translate_pop(command@, old(self)@)),
    {
        let index = match number_of(command) {
            Ok(n) => n,
            Err(kind) => {
                return Err(kind);
            },
        };
        let segment = chars_of(command.get_arg1().as_str());
        if spells(&segment, "argument") {
            self.generic_mem_pop("ARG", index);
        } else if spells(&segment, "local") {
            self.generic_mem_pop("LCL", index);
        } else if spells(&segment, "this") {
            self.generic_mem_pop("THIS", index);
        } else if spells(&segment, "that") {
            self.generic_mem_pop("THAT", index);
        } else if spells(&segment, "static") {
            self.pop_static(index);
        } else if spells(&segment, "pointer") {
            self.pop_base_index(index, 3);
        } else if spells(&segment, "temp") {
            self.pop_base_index(index, 5);
        } else {
            return Err(TranslationErrorKind::InvalidSegment);
        }
        Ok(())
    }

    /// Appends the lines of a comparison that holds where `jump` holds of the
    /// top value less the value below it. The two labels are numbered with
    /// the comparison counter, which then moves on by one.
    pub fn compare_arithmetic(&mut self, jump: Jump) -> (r: Result<(), TranslationErrorKind>)
        ensures
            outcome(
                r,
                old(self)@,
                final(self)@,
                if old(self)@.comparison_counter >= u32::MAX {
                    Err(TranslationErrorKind::LabelsExhausted)
                } else {
                    Ok(
                        WriterState {
                            comparison_counter: old(self)@.comparison_counter + 1,
                            ..old(self)@.emit(compare_code(jump, old(self)@.comparison_counter))
                        },
                    )
                },
            ),
    {
        if self.comparison_counter == u32::MAX {
            return Err(TranslationErrorKind::LabelsExhausted);
        }
        let mut if_true = String::from_str("TRUE_");
        push_decimal(&mut if_true, self.comparison_counter);
        let mut at_end = String::from_str("END_");
        push_decimal(&mut at_end, self.comparison_counter);

        let take_top = vec![line_at("SP"), line_set_a(Comp::MMinusOne), line_set_d(Comp::M)];
        assert(lines_view(take_top@) =~= seq![
            at("SP"@),
            set_a(Comp::MMinusOne),
            set_d(Comp::M),
        ]);
        self.write_strings(take_top);
        self.modify_SP(false);
        let decide = vec![
            line_at("SP"),
            line_set_a(Comp::MMinusOne),
            line_set_d(Comp::DMinusM),
            line_at_label(&if_true),
            line_branch(Comp::D, jump),
            line_at("SP"),
            line_set_a(Comp::MMinusOne),
            line_set_m(Comp::Zero),
            line_at_label(&at_end),
            line_branch(Comp::Zero, Jump::Always),
            line_mark(&if_true),
            line_at("SP"),
            line_set_a(Comp::MMinusOne),
            line_set_m(Comp::MinusOne),
            line_mark(&at_end),
        ];
        let ghost n = old(self)@.comparison_counter;
        assert(lines_view(decide@) =~= seq![
            at("SP"@),
            set_a(Comp::MMinusOne),
            set_d(Comp::DMinusM),
            at(true_label(n)),
            branch(Comp::D, jump),
            at("SP"@),
            set_a(Comp::MMinusOne),
            set_m(Comp::Zero),
            at(end_label(n)),
            branch(Comp::Zero, Jump::Always),
            mark(true_label(n)),
            at("SP"@),
            set_a(Comp::MMinusOne),
            set_m(Comp::MinusOne),
            mark(end_label(n)),
        ]);
        self.write_strings(decide);
        self.comparison_counter = self.comparison_counter + 1;
        assert(final(self)@.code =~= old(self)@.code + compare_code(jump, n));
        Ok(())
    }

    /// Appends the lines that apply `op` to the top of the stack.
    pub fn one_var_arithmetic(&mut self, op: Comp)
        ensures
            final(self)@ == old(self)@.emit(unary_code(op)),
    {
        let strings = vec![line_at("SP"), line_set_a(Comp::MMinusOne), line_set_m(op)];
        assert(lines_view(strings@) =~= unary_code(op));
        self.write_strings(strings);
    }

    /// Appends the lines that combine the two top values of the stack by `op`.
    pub fn two_var_arithmetic(&mut self, op: Comp)
        ensures
            final(self)@ == old(self)@.emit(two_var_arithmetic_code(op)),
    {
        let take_top = vec![line_at("SP"), line_set_a(Comp::MMinusOne), line_set_d(Comp::M)];
        assert(lines_view(take_top@) =~= seq![
            at("SP"@),
            set_a(Comp::MMinusOne),
            set_d(Comp::M),
        ]);
        self.write_strings(take_top);
        self.modify_SP(false);
        let combine = vec![line_at("SP"), line_set_a(Comp::MMinusOne), line_set_m(op)];
        assert(lines_view(combine@) =~= seq![at("SP"@), set_a(Comp::MMinusOne), set_m(op)]);
        self.write_strings(combine);
        assert(final(self)@.code =~= old(self)@.code + two_var_arithmetic_code(op));
    }

    /// Appends the lines that push the number `constant`.
    pub fn push_constant(&mut self, constant: u32)
        ensures
            final(self)@ == old(self)@.emit(push_constant_code(constant as nat)),
    {
        let load = vec![line_at_number(constant), line_set_d(Comp::A)];
        assert(lines_view(load@) =~= seq![at_number(constant as nat), set_d(Comp::A)]);
        self.write_strings(load);
        self.push_reg(Comp::D);
        assert(final(self)@.code =~= old(self)@.code + push_constant_code(constant as nat));
    }

    /// Appends the lines that push the static variable `index` of the current
    /// file.
    pub fn push_static(&mut self, index: u32)
        ensures
            final(self)@ == old(self)@.emit(
                push_static_code(old(self)@.current_file_stem, index as nat),
            ),
    {
        let var_label = static_name(&self.current_file_stem, index);
        let load = vec![line_at_label(&var_label), line_set_d(Comp::M)];
        assert(lines_view(load@) =~= seq![at(var_label@), set_d(Comp::M)]);
        self.write_strings(load);
        self.push_reg(Comp::D);
        assert(final(self)@.code =~= old(self)@.code + push_static_code(
            old(self)@.current_file_stem,
            index as nat,
        ));
    }

    /// Appends the lines that push the word `index` cells above the address
    /// in the register `mem_seg`.
    pub fn generic_mem_push(&mut self, mem_seg: &str, index: u32)
        ensures
            final(self)@ == old(self)@.emit(generic_mem_push_code(mem_seg@, index as nat)),
    {
        let load = vec![
            line_at(mem_seg),
            line_set_d(Comp::M),
            line_at_number(index),
            line_set_a(Comp::DPlusA),
            line_set_d(Comp::M),
        ];
        assert(lines_view(load@) =~= seq![
            at(mem_seg@),
            set_d(Comp::M),
            at_number(index as nat),
            set_a(Comp::DPlusA),
            set_d(Comp::M),
        ]);
        self.write_strings(load);
        self.push_reg(Comp::D);
        assert(final(self)@.code =~= old(self)@.code + generic_mem_push_code(
            mem_seg@,
            index as nat,
        ));
    }

    /// Appends the lines that push the word `index` cells above the fixed
    /// address `base`.
    pub fn push_base_index(&mut self, index: u32, base: u32)
        ensures
            final(self)@ == old(self)@.emit(push_base_index_code(index as nat, base as nat)),
    {
        let load = vec![
            line_at_number(index),
            line_set_d(Comp::A),
            line_at_number(base),
            line_set_a(Comp::DPlusA),
            line_set_d(Comp::M),
        ];
        assert(lines_view(load@) =~= seq![
            at_number(index as nat),
            set_d(Comp::A),
            at_number(base as nat),
            set_a(Comp::DPlusA),
            set_d(Comp::M),
        ]);
        self.write_strings(load);
        self.push_reg(Comp::D);
        assert(final(self)@.code =~= old(self)@.code + push_base_index_code(
            index as nat,
            base as nat,
        ));
    }

    fn pop_reg(&mut self)
        ensures
            final(self)@ == old(self)@.emit(pop_d_code()),
    {
        let take_top = vec![line_at("SP"), line_set_a(Comp::MMinusOne), line_set_d(Comp::M)];
        assert(lines_view(take_top@) =~= seq![
            at("SP"@),
            set_a(Comp::MMinusOne),
            set_d(Comp::M),
        ]);
        self.write_strings(take_top);
        self.modify_SP(false);
        assert(final(self)@.code =~= old(self)@.code + pop_d_code());
    }

    fn store_at_r13(&mut self)
        ensures
            final(self)@ == old(self)@.emit(store_at_r13_code()),
    {
        let strings = vec![line_at("R13"), line_set_a(Comp::M), line_set_m(Comp::D)];
        assert(lines_view(strings@) =~= store_at_r13_code());
        self.write_strings(strings);
    }

    /// Appends the lines that pop into the static variable `index` of the
    /// current file.
    pub fn pop_static(&mut self, index: u32)
        ensures
            final(self)@ == old(self)@.emit(
                pop_static_code(old(self)@.current_file_stem, index as nat),
            ),
    {
        let var_label = static_name(&self.current_file_stem, index);
        self.pop_reg();
        let store = vec![line_at_label(&var_label), line_set_m(Comp::D)];
        assert(lines_view(store@) =~= seq![at(var_label@), set_m(Comp::D)]);
        self.write_strings(store);
        assert(final(self)@.code =~= old(self)@.code + pop_static_code(
            old(self)@.current_file_stem,
            index as nat,
        ));
    }

    /// Appends the lines that pop into the cell `index` cells above the
    /// address in the register `mem_seg`.
    pub fn generic_mem_pop(&mut self, mem_seg: &str, index: u32)
        ensures
            final(self)@ == old(self)@.emit(generic_mem_pop_code(mem_seg@, index as nat)),
    {
        let address = vec![
            line_at_number(index),
            line_set_d(Comp::A),
            line_at(mem_seg),
            line_set_d(Comp::DPlusM),
            line_at("R13"),
            line_set_m(Comp::D),
        ];
        assert(lines_view(address@) =~= seq![
            at_number(index as nat),
            set_d(Comp::A),
            at(mem_seg@),
            set_d(Comp::DPlusM),
            at("R13"@),
            set_m(Comp::D),
        ]);
        self.write_strings(address);
        self.pop_reg();
        self.store_at_r13();
        assert(final(self)@.code =~= old(self)@.code + generic_mem_pop_code(
            mem_seg@,
            index as nat,
        ));
    }

    /// Appends the lines that pop into the cell `index` cells above the fixed
    /// address `base`.
    pub fn pop_base_index(&mut self, index: u32, base: u32)
        ensures
            final(self)@ == old(self)@.emit(pop_base_index_code(index as nat, base as nat)),
    {
        let address = vec![
            line_at_number(index),
            line_set_d(Comp::A),
            line_at_number(base),
            line_set_d(Comp::DPlusA),
            line_at("R13"),
            line_set_m(Comp::D),
        ];
        assert(lines_view(address@) =~= seq![
            at_number(index as nat),
            set_d(Comp::A),
            at_number(base as nat),
            set_d(Comp::DPlusA),
            at("R13"@),
            set_m(Comp::D),
        ]);
        self.write_strings(address);
        self.pop_reg();
        self.store_at_r13();
        assert(final(self)@.code =~= old(self)@.code + pop_base_index_code(
            index as nat,
            base as nat,
        ));
    }
}

/// The index or count of a command, as a number.
fn number_of(command: &Command) -> (r: Result<u32, TranslationErrorKind>)
    ensures
        match number_argument(command@) {
            Ok(n) => r matches Ok(v) && v as nat == n,
            Err(kind) => r == Err::<u32, TranslationErrorKind>(kind),
        },
{
    match command.get_arg2() {
        None => Err(TranslationErrorKind::MissingArgument),
        Some(text) => {
            let chars = chars_of(text.as_str());
            assert(chars@.subrange(0, chars@.len() as int) =~= chars@);
            match parse_u32(&chars, 0, chars.len()) {
                Some(n) => Ok(n),
                None => Err(TranslationErrorKind::InvalidArgument),
            }
        },
    }
}

/// The name of a static variable.
fn static_name(stem: &String, index: u32) -> (name: String)
    ensures
        name@ == static_symbol(stem@, index as nat),
{
    let mut name = stem.clone();
    name.append(".");
    push_decimal(&mut name, index);
    name
}

} // verus!
