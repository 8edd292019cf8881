//! Assembles whole programs in two passes: the first learns the labels,
//! the second translates the instructions and gives the variables their cells.

use crate::assembler::parser::{
    instruction_line, instruction_text, is_instruction, is_label, label_line, parse, parse_line,
    AssembleError, AssembleErrorKind,
};
use crate::assembler::symbol_table::{
    add_symbol, init_sym_table, predefined_symbols, SymbolTable, SymbolTableView,
};
use crate::assembler::translator::{
    is_translatable, machine_code, translatable, translate_instruction,
};
use crate::text::{
    chars_of, decimal, decimal_string, find_comment, last_index_of, strip_comment, trim_range,
};
use vstd::prelude::*;
use vstd::string::*;

verus! {

/// The name that a label line declares: the line without its first and its
/// last character.
pub open spec fn label_name(line: Seq<char>) -> Seq<char> {
    if line.len() >= 2 {
        line.subrange(1, line.len() - 1)
    } else {
        Seq::empty()
    }
}

/// What went wrong, and on which text.
pub struct AssembleFailure {
    pub kind: AssembleErrorKind,
    pub text: Seq<char>,
}

/// How far a pass came: the table when it ended, the code it produced, and
/// what stopped it, if anything did.
pub struct Assembly {
    pub table: SymbolTableView,
    pub code: Seq<Seq<char>>,
    pub failure: Option<AssembleFailure>,
}

/// The first pass from line `from` on, with `current` instructions counted
/// so far: every label gets the number of the instruction that follows it.
pub open spec fn first_pass_from(
    lines: Seq<Seq<char>>,
    from: int,
    table: SymbolTableView,
    current: nat,
) -> Assembly
    decreases lines.len() - from,
{
    if from < 0 || from >= lines.len() {
        Assembly { table, code: Seq::empty(), failure: None }
    } else if label_line(lines[from]) {
        first_pass_from(
            lines,
            from + 1,
            SymbolTableView {
                symbols: table.symbols.insert(label_name(lines[from]), decimal(current)),
                ..table
            },
            current,
        )
    } else if instruction_line(lines[from]) {
        if current >= u32::MAX {
            Assembly {
                table,
                code: Seq::empty(),
                failure: Some(
                    AssembleFailure {
                        kind: AssembleErrorKind::TooManyInstructions,
                        text: lines[from],
                    },
                ),
            }
        } else {
            first_pass_from(lines, from + 1, table, current + 1)
        }
    } else {
        first_pass_from(lines, from + 1, table, current)
    }
}

/// The second pass from line `from` on, with the code produced so far: every
/// instruction is taken apart and translated; a symbol that is not in the
/// table by then is a new variable.
pub open spec fn second_pass_from(
    lines: Seq<Seq<char>>,
    from: int,
    table: SymbolTableView,
    code: Seq<Seq<char>>,
) -> Assembly
    decreases lines.len() - from,
{
    if from < 0 || from >= lines.len() {
        Assembly { table, code, failure: None }
    } else {
        let parsed = parse(lines[from], table);
        match parsed.0 {
            Err(kind) => Assembly {
                table: parsed.1,
                code,
                failure: Some(AssembleFailure { kind, text: instruction_text(lines[from]) }),
            },
            Ok(ins) => if ins.line_type is None {
                second_pass_from(lines, from + 1, parsed.1, code)
            } else if !translatable(ins) {
                Assembly {
                    table: parsed.1,
                    code,
                    failure: Some(
                        AssembleFailure {
                            kind: AssembleErrorKind::UnknownMnemonic,
                            text: instruction_text(lines[from]),
                        },
                    ),
                }
            } else {
                second_pass_from(lines, from + 1, parsed.1, code.push(machine_code(ins)))
            },
        }
    }
}

/// The assembly of a program: both passes, from the predefined symbols.
pub open spec fn assembly(lines: Seq<Seq<char>>) -> Assembly {
    let first = first_pass_from(
        lines,
        0,
        SymbolTableView { symbols: predefined_symbols(), variable_count: 0 },
        0,
    );
    if first.failure is Some {
        first
    } else {
        second_pass_from(lines, 0, first.table, Seq::empty())
    }
}

/// The values of a list of strings.
pub open spec fn texts(lines: Seq<String>) -> Seq<Seq<char>> {
    lines.map_values(|s: String| s@)
}

/// Whether an error reports a failure.
pub open spec fn reports(e: AssembleError, failure: AssembleFailure) -> bool {
    e.kind == failure.kind && e.text@ == failure.text
}

/// Enters every label of the program in the table.
pub fn first_pass(lines: &Vec<String>, sym_table: &mut SymbolTable) -> (r: Result<
    (),
    AssembleError,
>)
    ensures
        final(sym_table)@ == first_pass_from(texts(lines@), 0, old(sym_table)@, 0).table,
        match first_pass_from(texts(lines@), 0, old(sym_table)@, 0).failure {
            None => r is Ok,
            Some(failure) => r matches Err(e) && reports(e, failure),
        },
{
    let ghost all = texts(lines@);
    let mut current_command: u32 = 0;
    let mut i: usize = 0;
    while i < lines.len()
        invariant
            i <= lines@.len(),
            all == texts(lines@),
            first_pass_from(all, 0, old(sym_table)@, 0) == first_pass_from(
                all,
                i as int,
                sym_table@,
                current_command as nat,
            ),
        decreases lines@.len() - i,
    {
        let line = lines[i].as_str();
        assert(all[i as int] == lines@[i as int]@);
        if is_label(line) {
            let chars = chars_of(line);
            let name = if chars.len() >= 2 {
                String::from_str(line.substring_char(1, chars.len() - 1))
            } else {
                String::new()
            };
            assert(name@ =~= label_name(line@));
            add_symbol(name, decimal_string(current_command), sym_table);
        } else if is_instruction(line) {
            if current_command == u32::MAX {
                return Err(
                    AssembleError {
                        kind: AssembleErrorKind::TooManyInstructions,
                        text: String::from_str(line),
                    },
                );
            }
            current_command = current_command + 1;
        }
        i = i + 1;
    }
    Ok(())
}

/// Translates every instruction of the program.
pub fn second_pass(lines: &Vec<String>, sym_table: &mut SymbolTable) -> (r: Result<
    Vec<String>,
    AssembleError,
>)
    ensures
        final(sym_table)@ == second_pass_from(
            texts(lines@),
            0,
            old(sym_table)@,
            Seq::empty(),
        ).table,
        match second_pass_from(texts(lines@), 0, old(sym_table)@, Seq::empty()).failure {
            None => r matches Ok(code) && texts(code@) == second_pass_from(
                texts(lines@),
                0,
                old(sym_table)@,
                Seq::empty(),
            ).code,
            Some(failure) => r matches Err(e) && reports(e, failure),
        },
{
    let ghost all = texts(lines@);
    let mut code: Vec<String> = Vec::new();
    let mut i: usize = 0;
    assert(texts(code@) =~= Seq::<Seq<char>>::empty());
    while i < lines.len()
        invariant
            i <= lines@.len(),
            all == texts(lines@),
            second_pass_from(all, 0, old(sym_table)@, Seq::empty()) == second_pass_from(
                all,
                i as int,
                sym_table@,
                texts(code@),
            ),
        decreases lines@.len() - i,
    {
        assert(all[i as int] == lines@[i as int]@);
        let ghost before = texts(code@);
        let ins = match parse_line(lines[i].clone(), sym_table) {
            Ok(ins) => ins,
            Err(e) => {
                return Err(e);
            },
        };
        if ins.line_type.is_some() {
            if !is_translatable(&ins) {
                return Err(
                    AssembleError {
                        kind: AssembleErrorKind::UnknownMnemonic,
                        text: instruction_string(lines[i].as_str()),
                    },
                );
            }
            let translated = translate_instruction(ins);
            code.push(translated);
            assert(texts(code@) =~= before.push(translated@));
        }
        i = i + 1;
    }
    Ok(code)
}

/// The instruction of a line, as a string.
fn instruction_string(line: &str) -> (s: String)
    ensures
        s@ == instruction_text(line@),
{
    let chars = chars_of(line);
    let limit = find_comment(&chars);
    let (a, e) = trim_range(&chars, 0, limit);
    assert(chars@.subrange(0, limit as int) =~= strip_comment(line@));
    String::from_str(line.substring_char(a, e))
}

/// Assembles a program: one string of binary digits for each instruction.
///
/// The first line that cannot be assembled ends the assembly with its error.
pub fn assemble(lines: &Vec<String>) -> (r: Result<Vec<String>, AssembleError>)
    ensures
        match assembly(texts(lines@)).failure {
            None => r matches Ok(code) && texts(code@) == assembly(texts(lines@)).code,
            Some(failure) => r matches Err(e) && reports(e, failure),
        },
{
    let mut sym_table = init_sym_table();
    match first_pass(lines, &mut sym_table) {
        Ok(()) => {},
        Err(e) => {
            return Err(e);
        },
    }
    second_pass(lines, &mut sym_table)
}

/// The name of the file for the code of a source file: `.hack` in place of
/// what follows the last `.`, or after the name where it has no `.`.
pub open spec fn code_file(source_file: Seq<char>) -> Seq<char> {
    let dot = last_index_of(source_file, '.', source_file.len() as int);
    if dot >= 0 {
        source_file.take(dot) + ".hack"@
    } else {
        source_file + ".hack"@
    }
}

/// The name of the file for the code of a source file.
pub fn output_file_name(source_file: &str) -> (name: String)
    ensures
        name@ == code_file(source_file@),
{
    let chars = chars_of(source_file);
    let mut i: usize = chars.len();
    while i > 0 && chars[i - 1] != '.'
        invariant
            i <= chars@.len(),
            last_index_of(chars@, '.', chars@.len() as int) == last_index_of(chars@, '.', i as int),
        decreases i,
    {
        i = i - 1;
    }
    let mut name = if i > 0 {
        assert(source_file@.subrange(0, i - 1) =~= source_file@.take(i - 1));
        String::from_str(source_file.substring_char(0, i - 1))
    } else {
        String::from_str(source_file)
    };
    name.append(".hack");
    name
}

} // verus!
