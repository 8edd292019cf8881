//! Translates whole programs: every command of every file, in order, into
//! one assembly program.

use crate::machine::instruction::{lines_view, program_text, AsmLine};
use crate::text::{base_name, chars_of, last_index_of, range_is};
use crate::vm_translator::code_writer::{
    init_code, translate, CodeWriter, TranslationError, TranslationErrorKind, WriterState,
};
use crate::vm_translator::parser::{
    command_text, line_tokens, next_command_line, parse_line, ParseError, ParseErrorKind, Parsed,
    Parser,
};
use vstd::prelude::*;
use vstd::string::*;

verus! {

/// A bytecode file: its base name and its lines.
#[derive(Debug)]
pub struct SourceFile {
    pub name: String,
    pub lines: Vec<String>,
}

/// The mathematical value of a [`SourceFile`].
pub struct SourceView {
    pub name: Seq<char>,
    pub lines: Seq<Seq<char>>,
}

impl View for SourceFile {
    type V = SourceView;

    open spec fn view(&self) -> SourceView {
        SourceView { name: self.name@, lines: self.lines@.map_values(|s: String| s@) }
    }
}

/// Why a program could not be translated.
#[derive(Debug)]
pub enum TranslateError {
    /// There is no file to translate.
    MissingInput,
    /// A line is no command.
    Parse(ParseError),
    /// A command cannot be translated.
    Translation(TranslationError),
}

/// The mathematical value of a [`TranslateError`].
pub enum Failure {
    MissingInput,
    Parse { kind: ParseErrorKind, file: Seq<char>, line: int, token: Seq<char> },
    Translation { kind: TranslationErrorKind, command: Seq<char> },
}

impl View for TranslateError {
    type V = Failure;

    open spec fn view(&self) -> Failure {
        match self {
            TranslateError::MissingInput => Failure::MissingInput,
            TranslateError::Parse(e) => Failure::Parse {
                kind: e.kind,
                file: e.file_name@,
                line: e.line as int,
                token: e.token@,
            },
            TranslateError::Translation(e) => Failure::Translation {
                kind: e.kind,
                command: e.command@,
            },
        }
    }
}

/// How far a translation came: the state of the writer when it ended, and
/// what stopped it, if anything did.
pub struct Translation {
    pub state: WriterState,
    pub failure: Option<Failure>,
}

/// Translates the lines of one file from line `from` on, starting with the
/// writer in state `w`. The first line that is no command, or holds a
/// command that cannot be translated, ends the translation; what was
/// written before it stays.
pub open spec fn translate_lines(
    lines: Seq<Seq<char>>,
    from: int,
    file: Seq<char>,
    w: WriterState,
) -> Translation
    decreases lines.len() - from,
{
    if from < 0 || from >= lines.len() {
        Translation { state: w, failure: None }
    } else {
        match parse_line(lines[from], file) {
            None => translate_lines(lines, from + 1, file, w),
            Some(Parsed::Error(kind, token)) => Translation {
                state: w,
                failure: Some(Failure::Parse { kind, file, line: from + 1, token }),
            },
            Some(Parsed::Command(c)) => match translate(c, w) {
                Ok(after) => translate_lines(lines, from + 1, file, after),
                Err(kind) => Translation {
                    state: w,
                    failure: Some(Failure::Translation { kind, command: command_text(c) }),
                },
            },
        }
    }
}

/// Translates the files from file `from` on, one after the other, with one
/// writer for all of them.
pub open spec fn translate_files(files: Seq<SourceView>, from: int, w: WriterState) -> Translation
    decreases files.len() - from,
{
    if from < 0 || from >= files.len() {
        Translation { state: w, failure: None }
    } else {
        let first = translate_lines(files[from].lines, 0, files[from].name, w);
        if first.failure is Some {
            first
        } else {
            translate_files(files, from + 1, first.state)
        }
    }
}

/// Translates a program with a writer in state `w`: the lines that set the
/// stack pointer first, then every file. Without a file nothing is written.
pub open spec fn translate_program(files: Seq<SourceView>, w: WriterState) -> Translation {
    if files.len() == 0 {
        Translation { state: w, failure: Some(Failure::MissingInput) }
    } else {
        translate_files(files, 0, w.emit(init_code()))
    }
}

/// Lines without a command change nothing: they can be passed over.
proof fn lemma_skip_blank_lines(lines: Seq<Seq<char>>, from: int, file: Seq<char>, w: WriterState)
    requires
        0 <= from,
    ensures
        translate_lines(lines, from, file, w) == translate_lines(
            lines,
            next_command_line(lines, from),
            file,
            w,
        ),
    decreases lines.len() - from,
{
    if from < lines.len() && line_tokens(lines[from]).len() == 0 {
        lemma_skip_blank_lines(lines, from + 1, file, w);
    }
}

/// Translates one file into the given writer.
///
/// The writer gets the lines of every command of the file, in order. The
/// first line that cannot be translated ends the translation with its
/// error; what was written before it stays in the writer.
pub fn translate_file(file: SourceFile, code_writer: &mut CodeWriter) -> (r: Result<
    (),
    TranslateError,
>)
    ensures
        final(code_writer)@ == translate_lines(file@.lines, 0, file@.name, old(code_writer)@).state,
        match translate_lines(file@.lines, 0, file@.name, old(code_writer)@).failure {
            None => r is Ok,
            Some(failure) => r matches Err(e) && e@ == failure,
        },
{
    let ghost lines = file@.lines;
    let ghost name = file@.name;
    let ghost whole = translate_lines(lines, 0, name, old(code_writer)@);
    let mut parser = Parser::new(file.name, file.lines);
    while parser.has_more_commands()
        invariant
            parser.source() == lines,
            parser.file() == name,
            0 <= parser.position() <= lines.len(),
            !parser.more() ==> parser.position() == lines.len(),
            lines == file@.lines,
            name == file@.name,
            whole == translate_lines(lines, 0, name, old(code_writer)@),
            whole == translate_lines(lines, parser.position(), name, code_writer@),
        decreases lines.len() - parser.position() + (if parser.more() { 1int } else { 0int }),
    {
        proof {
            lemma_skip_blank_lines(lines, parser.position(), name, code_writer@);
        }
        let ghost at = next_command_line(lines, parser.position());
        proof {
            lemma_next_command_line(lines, parser.position());
        }
        match parser.advance() {
            Err(e) => {
                return Err(TranslateError::Parse(e));
            },
            Ok(()) => {},
        }
        match parser.get_current_command() {
            Some(command) => {
                match code_writer.translate_command(command) {
                    Ok(()) => {},
                    Err(e) => {
                        return Err(TranslateError::Translation(e));
                    },
                }
            },
            None => {},
        }
    }
    Ok(())
}

/// Where the next command stands: at or after `from`, on a line with a
/// token, or at the end.
proof fn lemma_next_command_line(lines: Seq<Seq<char>>, from: int)
    requires
        0 <= from <= lines.len(),
    ensures
        from <= next_command_line(lines, from) <= lines.len(),
        next_command_line(lines, from) < lines.len() ==> line_tokens(
            lines[next_command_line(lines, from)],
        ).len() > 0,
    decreases lines.len() - from,
{
    if from < lines.len() && line_tokens(lines[from]).len() == 0 {
        lemma_next_command_line(lines, from + 1);
    }
}

/// Translates a program into the given writer.
///
/// The writer first gets the lines that set the stack pointer, then the
/// lines of every command of every file, in order. All files share the
/// writer, so that no label is used twice and functions of one file can
/// call those of another. The first line that cannot be translated ends
/// the translation with its error; what was written before it stays in
/// the writer. Without a file nothing is written.
pub fn vm_translate(files: Vec<SourceFile>, code_writer: &mut CodeWriter) -> (r: Result<
    (),
    TranslateError,
>)
    ensures
        final(code_writer)@ == translate_program(
            files@.map_values(|f: SourceFile| f@),
            old(code_writer)@,
        ).state,
        match translate_program(files@.map_values(|f: SourceFile| f@), old(code_writer)@).failure {
            None => r is Ok,
            Some(failure) => r matches Err(e) && e@ == failure,
        },
{
    let ghost all = files@.map_values(|f: SourceFile| f@);
    if files.len() == 0 {
        return Err(TranslateError::MissingInput);
    }
    code_writer.init();
    let ghost whole = translate_files(all, 0, code_writer@);
    let mut rest = files;
    let ghost mut done: int = 0;
    while rest.len() > 0
        invariant
            0 <= done <= all.len(),
            rest@.len() == all.len() - done,
            forall|k: int| 0 <= k < rest@.len() ==> (#[trigger] rest@[k])@ == all[done + k],
            all.len() > 0,
            all == files@.map_values(|f: SourceFile| f@),
            whole == translate_program(all, old(code_writer)@),
            whole == translate_files(all, done, code_writer@),
        decreases rest@.len(),
    {
        let vm_file = rest.remove(0);
        assert(vm_file@ == all[done]);
        match translate_file(vm_file, code_writer) {
            Ok(()) => {},
            Err(e) => {
                return Err(e);
            },
        }
        proof {
            done = done + 1;
        }
    }
    Ok(())
}

/// The state of a writer that has written nothing yet.
pub open spec fn initial_state() -> WriterState {
    WriterState {
        code: Seq::empty(),
        comparison_counter: 0,
        return_counter: 0,
        function_init_counter: 0,
        current_file_stem: Seq::empty(),
    }
}

/// Translating the same input twice gives the same output, character by
/// character: whatever two programs a new writer built from the same files,
/// their texts are equal.
pub proof fn lemma_translation_repeats(
    files: Seq<SourceView>,
    first: Seq<AsmLine>,
    second: Seq<AsmLine>,
)
    requires
        lines_view(first) == translate_program(files, initial_state()).state.code,
        lines_view(second) == translate_program(files, initial_state()).state.code,
    ensures
        program_text(lines_view(first)) == program_text(lines_view(second)),
        first.len() == second.len(),
        forall|i: int| 0 <= i < first.len() ==> (#[trigger] first[i])@ == second[i]@,
{
    assert(lines_view(first).len() == first.len());
    assert(lines_view(second).len() == second.len());
    assert forall|i: int| 0 <= i < first.len() implies (#[trigger] first[i])@ == second[i]@ by {
        assert(lines_view(first)[i] == first[i]@);
        assert(lines_view(second)[i] == second[i]@);
    }
}

/// Whether `s` ends with `suffix`.
pub open spec fn ends_with(s: Seq<char>, suffix: Seq<char>) -> bool {
    s.len() >= suffix.len() && s.subrange(s.len() - suffix.len(), s.len() as int) == suffix
}

/// Whether a path names a bytecode file: it ends with `.vm`.
pub open spec fn names_vm_file(path: Seq<char>) -> bool {
    ends_with(path, ".vm"@)
}

/// The length of `path` without the `/`s at its end.
pub open spec fn trimmed_len(path: Seq<char>) -> int
    decreases path.len(),
{
    if path.len() > 0 && path.last() == '/' {
        trimmed_len(path.drop_last())
    } else {
        path.len() as int
    }
}

/// The path of the assembly file for an input path.
///
/// For a bytecode file it is the path with `.asm` in place of `.vm`. Any
/// other path is taken for a directory: its file lies in it and is named
/// after it. There is none where the directory has no name of its own.
pub open spec fn output_file(input: Seq<char>) -> Option<Seq<char>> {
    if names_vm_file(input) {
        Some(input.take(input.len() - 3) + ".asm"@)
    } else {
        let dir = input.take(trimmed_len(input));
        let name = base_name(dir);
        if name.len() == 0 || name == "."@ || name == ".."@ {
            None
        } else {
            Some(dir + "/"@ + name + ".asm"@)
        }
    }
}

/// Whether a path names a bytecode file.
pub fn is_vm_file(path: &str) -> (b: bool)
    ensures
        b == names_vm_file(path@),
{
    let chars = chars_of(path);
    proof {
        reveal_strlit(".vm");
    }
    let n = chars.len();
    if n < 3 {
        return false;
    }
    range_is(&chars, n - 3, n, ".vm")
}

/// The path of the assembly file for an input path.
pub fn create_output_file(vm_file: &String) -> (r: Option<String>)
    ensures
        match output_file(vm_file@) {
            Some(path) => r matches Some(s) && s@ == path,
            None => r is None,
        },
{
    let path = vm_file.as_str();
    let chars = chars_of(path);
    let n = chars.len();
    proof {
        reveal_strlit(".vm");
    }
    if n >= 3 && range_is(&chars, n - 3, n, ".vm") {
        let mut out = String::from_str(path.substring_char(0, n - 3));
        out.append(".asm");
        assert(vm_file@.subrange(0, n - 3) =~= vm_file@.take(n - 3));
        return Some(out);
    }
    let mut end: usize = n;
    assert(chars@.take(n as int) =~= chars@);
    while end > 0 && chars[end - 1] == '/'
        invariant
            end <= n,
            n == chars@.len(),
            trimmed_len(chars@) == trimmed_len(chars@.take(end as int)),
        decreases end,
    {
        assert(chars@.take(end as int).drop_last() =~= chars@.take(end - 1));
        end = end - 1;
    }
    let ghost dir = chars@.take(end as int);
    assert(trimmed_len(chars@) == end) by {
        if end > 0 {
            assert(dir.last() == chars@[end - 1]);
        }
    }
    let mut start: usize = end;
    while start > 0 && chars[start - 1] != '/'
        invariant
            start <= end <= n,
            n == chars@.len(),
            dir == chars@.take(end as int),
            last_index_of(dir, '/', end as int) == last_index_of(dir, '/', start as int),
        decreases start,
    {
        start = start - 1;
    }
    assert(last_index_of(dir, '/', end as int) == start - 1);
    let ghost name = base_name(dir);
    assert(name =~= chars@.subrange(start as int, end as int));
    if start == end || range_is(&chars, start, end, ".") || range_is(&chars, start, end, "..") {
        return None;
    }
    let mut out = String::from_str(path.substring_char(0, end));
    out.append("/");
    out.append(path.substring_char(start, end));
    out.append(".asm");
    assert(vm_file@.subrange(0, end as int) =~= dir);
    Some(out)
}

} // verus!
