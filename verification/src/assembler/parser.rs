//! Reads lines of assembly.

use crate::assembler::symbol_table::{add_symbol, find_address, SymbolTable, SymbolTableView};
use crate::text::{
    chars_of, decimal, decimal_string, find_char, find_comment, has_char, is_u32_literal, parse_u32,
    strip_comment, trim_range, trimmed, u32_literal_value,
};
use vstd::prelude::*;
use vstd::string::*;

verus! {

/// The two kinds of instruction.
#[derive(Clone, Copy, Debug, PartialEq, Eq, Structural)]
pub enum LineType {
    CInstruction,
    AInstruction,
}

/// A line of assembly taken apart. A line that is no instruction has no
/// kind and no part.
#[derive(Debug)]
pub struct Instruction {
    pub line_type: Option<LineType>,
    /// Of a C-instruction: the destination, where there is one.
    pub dest: Option<String>,
    /// Of a C-instruction: the computation.
    pub comp: Option<String>,
    /// Of a C-instruction: the jump, where there is one.
    pub jump: Option<String>,
    /// Of an A-instruction: the address.
    pub value: Option<u32>,
}

/// The mathematical value of an [`Instruction`].
pub struct InstructionView {
    pub line_type: Option<LineType>,
    pub dest: Option<Seq<char>>,
    pub comp: Option<Seq<char>>,
    pub jump: Option<Seq<char>>,
    pub value: Option<u32>,
}

/// The value of a string that may be wanting.
pub open spec fn text_of(s: Option<String>) -> Option<Seq<char>> {
    match s {
        Some(t) => Some(t@),
        None => None,
    }
}

impl View for Instruction {
    type V = InstructionView;

    open spec fn view(&self) -> InstructionView {
        InstructionView {
            line_type: self.line_type,
            dest: text_of(self.dest),
            comp: text_of(self.comp),
            jump: text_of(self.jump),
            value: self.value,
        }
    }
}

/// Why a line cannot be assembled.
#[derive(Clone, Copy, Debug, PartialEq, Eq, Structural)]
pub enum AssembleErrorKind {
    /// An instruction without `@` has neither `=` nor `;`.
    MalformedInstruction,
    /// The table gives the symbol an address that is no number.
    InvalidAddress,
    /// A new variable would get an address beyond 32 bits.
    TooManyVariables,
    /// The program has more instructions than 32 bits can count.
    TooManyInstructions,
    /// A part of the instruction is no mnemonic of the machine.
    UnknownMnemonic,
}

/// A line that cannot be assembled.
#[derive(Debug)]
pub struct AssembleError {
    pub kind: AssembleErrorKind,
    /// The instruction, without comment and surrounding spaces.
    pub text: String,
}

/// The instruction of a line that holds none.
pub open spec fn no_instruction() -> InstructionView {
    InstructionView { line_type: None, dest: None, comp: None, jump: None, value: None }
}

/// The A-instruction with the given address.
pub open spec fn a_instruction(value: u32) -> InstructionView {
    InstructionView {
        line_type: Some(LineType::AInstruction),
        dest: None,
        comp: None,
        jump: None,
        value: Some(value),
    }
}

/// Whether a line declares a label: it begins with `(`.
pub open spec fn label_line(line: Seq<char>) -> bool {
    line.len() > 0 && line[0] == '('
}

/// Whether a line holds an instruction: it is not empty, and what it holds
/// after the spaces at its start begins neither a label nor a comment.
pub open spec fn instruction_line(line: Seq<char>) -> bool {
    let t = trimmed(line);
    &&& line.len() > 0
    &&& !(t.len() > 0 && t[0] == '(')
    &&& !(t.len() > 1 && t[0] == '/' && t[1] == '/')
}

/// The instruction of a line: the line without its comment and without the
/// spaces around what is left.
pub open spec fn instruction_text(line: Seq<char>) -> Seq<char> {
    trimmed(strip_comment(line))
}

/// Whether a character parts the fields of a C-instruction.
pub open spec fn is_separator(c: char) -> bool {
    c == '=' || c == ';'
}

/// The first index at or after `from` at which `s` holds `=` or `;`; the
/// length of `s` when there is none.
pub open spec fn field_end(s: Seq<char>, from: int) -> int
    decreases s.len() - from,
{
    if from < 0 || from >= s.len() {
        s.len() as int
    } else if is_separator(s[from]) {
        from
    } else {
        field_end(s, from + 1)
    }
}

/// The first three fields of an instruction, parted at every `=` and `;`. A
/// field that the instruction does not have is empty.
pub open spec fn fields(s: Seq<char>) -> (Seq<char>, Seq<char>, Seq<char>) {
    let e0 = field_end(s, 0);
    let e1 = field_end(s, e0 + 1);
    let e2 = field_end(s, e1 + 1);
    (
        s.subrange(0, e0),
        if e0 < s.len() {
            s.subrange(e0 + 1, e1)
        } else {
            Seq::empty()
        },
        if e1 < s.len() {
            s.subrange(e1 + 1, e2)
        } else {
            Seq::empty()
        },
    )
}

/// A C-instruction taken apart. With `=` and `;` the fields are destination,
/// computation and jump; with `=` alone destination and computation; with
/// `;` alone computation and jump. With neither it is no instruction.
pub open spec fn parse_c(text: Seq<char>) -> Result<InstructionView, AssembleErrorKind> {
    let f = fields(text);
    let assign = has_char(text, '=');
    let jumps = has_char(text, ';');
    if assign && jumps {
        Ok(
            InstructionView {
                line_type: Some(LineType::CInstruction),
                dest: Some(f.0),
                comp: Some(f.1),
                jump: Some(f.2),
                value: None,
            },
        )
    } else if assign {
        Ok(
            InstructionView {
                line_type: Some(LineType::CInstruction),
                dest: Some(f.0),
                comp: Some(f.1),
                jump: None,
                value: None,
            },
        )
    } else if jumps {
        Ok(
            InstructionView {
                line_type: Some(LineType::CInstruction),
                dest: None,
                comp: Some(f.0),
                jump: Some(f.1),
                value: None,
            },
        )
    } else {
        Err(AssembleErrorKind::MalformedInstruction)
    }
}

/// An A-instruction taken apart, and the table after it.
///
/// What follows the first character is a number, or a symbol of the table,
/// or else a new variable: it gets the next free cell from 16 on, and the
/// table learns it.
pub open spec fn parse_a(text: Seq<char>, table: SymbolTableView) -> (
    Result<InstructionView, AssembleErrorKind>,
    SymbolTableView,
) {
    let name = trimmed(text.skip(1));
    if is_u32_literal(name) {
        (Ok(a_instruction(u32_literal_value(name) as u32)), table)
    } else if table.symbols.contains_key(name) {
        if is_u32_literal(table.symbols[name]) {
            (Ok(a_instruction(u32_literal_value(table.symbols[name]) as u32)), table)
        } else {
            (Err(AssembleErrorKind::InvalidAddress), table)
        }
    } else if table.variable_count + 16 > u32::MAX {
        (Err(AssembleErrorKind::TooManyVariables), table)
    } else {
        (
            Ok(a_instruction((table.variable_count + 16) as u32)),
            SymbolTableView {
                symbols: table.symbols.insert(name, decimal(table.variable_count + 16)),
                variable_count: table.variable_count + 1,
            },
        )
    }
}

/// A line taken apart, and the table after it. A line that holds `@` is an
/// A-instruction, any other instruction a C-instruction.
pub open spec fn parse(line: Seq<char>, table: SymbolTableView) -> (
    Result<InstructionView, AssembleErrorKind>,
    SymbolTableView,
) {
    if !instruction_line(line) {
        (Ok(no_instruction()), table)
    } else if has_char(instruction_text(line), '@') {
        parse_a(instruction_text(line), table)
    } else {
        (parse_c(instruction_text(line)), table)
    }
}

fn build_instruction(
    line_type: Option<LineType>,
    dest: Option<String>,
    comp: Option<String>,
    jump: Option<String>,
    value: Option<u32>,
) -> (ins: Instruction)
    ensures
        ins.line_type == line_type,
        ins.dest == dest,
        ins.comp == comp,
        ins.jump == jump,
        ins.value == value,
{
    Instruction { line_type, dest, comp, jump, value }
}

fn get_a_instruction(line: &str, chars: &Vec<char>, sym_table: &mut SymbolTable) -> (r: Result<
    Instruction,
    AssembleErrorKind,
>)
    requires
        chars@ == line@,
        chars@.len() > 0,
    ensures
        final(sym_table)@ == parse_a(line@, old(sym_table)@).1,
        match parse_a(line@, old(sym_table)@).0 {
            Ok(ins) => r matches Ok(i) && i@ == ins,
            Err(kind) => r == Err::<Instruction, AssembleErrorKind>(kind),
        },
{
    let (a, e) = trim_range(chars, 1, chars.len());
    assert(chars@.subrange(1, chars@.len() as int) =~= line@.skip(1));
    let ghost name = trimmed(line@.skip(1));
    let value = match parse_u32(chars, a, e) {
        Some(val) => val,
        None => {
            let symbol = String::from_str(line.substring_char(a, e));
            match find_address(symbol.clone(), sym_table) {
                Some(address) => {
                    let digits = chars_of(address.as_str());
                    assert(digits@.subrange(0, digits@.len() as int) =~= digits@);
                    match parse_u32(&digits, 0, digits.len()) {
                        Some(val) => val,
                        None => {
                            return Err(AssembleErrorKind::InvalidAddress);
                        },
                    }
                },
                None => {
                    if sym_table.variable_count > u32::MAX - 16 {
                        return Err(AssembleErrorKind::TooManyVariables);
                    }
                    let var_address = sym_table.variable_count + 16;
                    add_symbol(symbol, decimal_string(var_address), sym_table);
                    sym_table.variable_count = sym_table.variable_count + 1;
                    var_address
                },
            }
        },
    };
    Ok(build_instruction(Some(LineType::AInstruction), None, None, None, Some(value)))
}

/// Finds where the field that starts at `from` ends.
fn find_separator(s: &Vec<char>, from: usize) -> (at: usize)
    requires
        from <= s@.len(),
    ensures
        from <= at <= s@.len(),
        at == field_end(s@, from as int),
{
    let mut i: usize = from;
    while i < s.len()
        invariant
            from <= i <= s@.len(),
            field_end(s@, from as int) == field_end(s@, i as int),
        decreases s@.len() - i,
    {
        if s[i] == '=' || s[i] == ';' {
            return i;
        }
        i = i + 1;
    }
    s.len()
}

fn get_c_instruction(line: &str, chars: &Vec<char>) -> (r: Result<Instruction, AssembleErrorKind>)
    requires
        chars@ == line@,
    ensures
        match parse_c(line@) {
            Ok(ins) => r matches Ok(i) && i@ == ins,
            Err(kind) => r == Err::<Instruction, AssembleErrorKind>(kind),
        },
{
    let n = chars.len();
    assert(chars@.subrange(0, n as int) =~= chars@);
    let assign = find_char(chars, '=', 0, n) < n;
    let jumps = find_char(chars, ';', 0, n) < n;
    let e0 = find_separator(chars, 0);
    let e1 = if e0 < n {
        find_separator(chars, e0 + 1)
    } else {
        n
    };
    let e2 = if e1 < n {
        find_separator(chars, e1 + 1)
    } else {
        n
    };
    let first = String::from_str(line.substring_char(0, e0));
    let second = if e0 < n {
        String::from_str(line.substring_char(e0 + 1, e1))
    } else {
        String::new()
    };
    let third = if e1 < n {
        String::from_str(line.substring_char(e1 + 1, e2))
    } else {
        String::new()
    };
    if assign && jumps {
        Ok(
            build_instruction(
                Some(LineType::CInstruction),
                Some(first),
                Some(second),
                Some(third),
                None,
            ),
        )
    } else if assign {
        Ok(build_instruction(Some(LineType::CInstruction), Some(first), Some(second), None, None))
    } else if jumps {
        Ok(build_instruction(Some(LineType::CInstruction), None, Some(first), Some(second), None))
    } else {
        Err(AssembleErrorKind::MalformedInstruction)
    }
}

/// Takes a line apart.
///
/// A line that is no instruction gives an instruction without kind. A
/// symbol that the table does not know is a new variable and is entered in
/// the table. A line that cannot be read leaves the table as it was; the
/// error holds the instruction as it is written.
pub fn parse_line(line: String, sym_table: &mut SymbolTable) -> (r: Result<
    Instruction,
    AssembleError,
>)
    ensures
        final(sym_table)@ == parse(line@, old(sym_table)@).1,
        match parse(line@, old(sym_table)@).0 {
            Ok(ins) => r matches Ok(i) && i@ == ins,
            Err(kind) => r matches Err(e) && e.kind == kind && e.text@ == instruction_text(line@),
        },
{
    if !is_instruction(line.as_str()) {
        return Ok(build_instruction(None, None, None, None, None));
    }
    let chars = chars_of(line.as_str());
    let limit = find_comment(&chars);
    let (a, e) = trim_range(&chars, 0, limit);
    assert(chars@.subrange(0, limit as int) =~= strip_comment(line@));
    let text = line.as_str().substring_char(a, e);
    let text_chars = chars_of(text);
    assert(text_chars@.subrange(0, text_chars@.len() as int) =~= text_chars@);
    let parsed = if find_char(&text_chars, '@', 0, text_chars.len()) < text_chars.len() {
        get_a_instruction(text, &text_chars, sym_table)
    } else {
        get_c_instruction(text, &text_chars)
    };
    match parsed {
        Ok(ins) => Ok(ins),
        Err(kind) => Err(AssembleError { kind, text: String::from_str(text) }),
    }
}

/// Whether a line declares a label.
pub fn is_label(line: &str) -> (b: bool)
    ensures
        b == label_line(line@),
{
    let chars = chars_of(line);
    chars.len() > 0 && chars[0] == '('
}

/// Whether a line holds an instruction.
pub fn is_instruction(line: &str) -> (b: bool)
    ensures
        b == instruction_line(line@),
{
    let chars = chars_of(line);
    let (a, e) = trim_range(&chars, 0, chars.len());
    assert(chars@.subrange(0, chars@.len() as int) =~= chars@);
    let ghost t = trimmed(line@);
    assert(t == chars@.subrange(a as int, e as int));
    let label = e > a && chars[a] == '(';
    let comment = e - a > 1 && chars[a] == '/' && chars[a + 1] == '/';
    assert(label == (t.len() > 0 && t[0] == '('));
    assert(comment == (t.len() > 1 && t[0] == '/' && t[1] == '/'));
    !label && !comment && chars.len() > 0
}

} // verus!
