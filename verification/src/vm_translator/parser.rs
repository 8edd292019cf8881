//! Reads bytecode text: one command on a line, comments and blank lines
//! skipped.

use crate::text::{
    chars_of, find_comment, is_u32_literal, lemma_token_ranges, parse_u32, range_is, split_tokens,
    strip_comment, tokens,
};
use vstd::prelude::*;
use vstd::string::*;

verus! {

/// The kinds of command.
#[derive(Clone, Copy, Debug, PartialEq, Eq, Structural)]
pub enum CommandType {
    Arithmetic,
    Call,
    Function,
    Goto,
    If,
    Label,
    Pop,
    Push,
    Return,
}

/// One command: its kind, up to two arguments as written, and the name of
/// the file it came from.
#[derive(Debug)]
pub struct Command {
    arg1: String,
    arg2: Option<String>,
    command_type: CommandType,
    file_name: String,
}

/// The mathematical value of a [`Command`].
pub struct CommandView {
    pub arg1: Seq<char>,
    pub arg2: Option<Seq<char>>,
    pub command_type: CommandType,
    pub file_name: Seq<char>,
}

/// Why a line is not a command.
#[derive(Clone, Copy, Debug, PartialEq, Eq, Structural)]
pub enum ParseErrorKind {
    /// A known command with the wrong number of tokens, an unknown segment,
    /// or a count or index that is no non-negative integer.
    MalformedCommand,
    /// The first token of the line names no command.
    UnrecognizedCommand,
}

/// A line that could not be read as a command.
#[derive(Debug)]
pub struct ParseError {
    pub kind: ParseErrorKind,
    /// The file that holds the line.
    pub file_name: String,
    /// The number of the line in its file, counted from one.
    pub line: usize,
    /// The token that is at fault.
    pub token: String,
}

/// What the tokens of a line are read as.
pub enum Parsed {
    Command(CommandView),
    Error(ParseErrorKind, Seq<char>),
}

impl View for Command {
    type V = CommandView;

    closed spec fn view(&self) -> CommandView {
        CommandView {
            arg1: self.arg1@,
            arg2: match self.arg2 {
                Some(s) => Some(s@),
                None => None,
            },
            command_type: self.command_type,
            file_name: self.file_name@,
        }
    }
}

/// The nine arithmetic and logic mnemonics.
pub open spec fn is_arithmetic(t: Seq<char>) -> bool {
    t == "add"@ || t == "sub"@ || t == "neg"@ || t == "eq"@ || t == "gt"@ || t == "lt"@ || t
        == "and"@ || t == "or"@ || t == "not"@
}

/// The eight memory segments.
pub open spec fn is_segment(t: Seq<char>) -> bool {
    t == "argument"@ || t == "local"@ || t == "static"@ || t == "constant"@ || t == "this"@ || t
        == "that"@ || t == "pointer"@ || t == "temp"@
}

/// The tokens of a line: what stands before its comment, split at spaces.
pub open spec fn line_tokens(line: Seq<char>) -> Seq<Seq<char>> {
    tokens(strip_comment(line))
}

/// A command word followed by a name and a count or index.
pub open spec fn parse_with_number(
    toks: Seq<Seq<char>>,
    command_type: CommandType,
    checks_segment: bool,
    file: Seq<char>,
) -> Parsed {
    if toks.len() < 3 {
        Parsed::Error(ParseErrorKind::MalformedCommand, toks[0])
    } else if toks.len() > 3 {
        Parsed::Error(ParseErrorKind::MalformedCommand, toks[3])
    } else if checks_segment && !is_segment(toks[1]) {
        Parsed::Error(ParseErrorKind::MalformedCommand, toks[1])
    } else if !is_u32_literal(toks[2]) {
        Parsed::Error(ParseErrorKind::MalformedCommand, toks[2])
    } else {
        Parsed::Command(
            CommandView { arg1: toks[1], arg2: Some(toks[2]), command_type, file_name: file },
        )
    }
}

/// A command word followed by a label.
pub open spec fn parse_with_label(
    toks: Seq<Seq<char>>,
    command_type: CommandType,
    file: Seq<char>,
) -> Parsed {
    if toks.len() < 2 {
        Parsed::Error(ParseErrorKind::MalformedCommand, toks[0])
    } else if toks.len() > 2 {
        Parsed::Error(ParseErrorKind::MalformedCommand, toks[2])
    } else {
        Parsed::Command(
            CommandView { arg1: toks[1], arg2: None, command_type, file_name: file },
        )
    }
}

/// What the tokens of a line that has at least one are read as.
///
/// The first token chooses the kind. An arithmetic mnemonic is a command by
/// itself, whatever follows it. `push` and `pop` take a segment and an index,
/// `function` and `call` a name and a count, `label`, `goto` and `if-goto` a
/// label, `return` nothing. Where a token is wanting the command word is at
/// fault; where there is one too many, the first of them.
pub open spec fn parse_tokens(toks: Seq<Seq<char>>, file: Seq<char>) -> Parsed {
    let word = toks[0];
    if is_arithmetic(word) {
        Parsed::Command(
            CommandView {
                arg1: word,
                arg2: None,
                command_type: CommandType::Arithmetic,
                file_name: file,
            },
        )
    } else if word == "push"@ {
        parse_with_number(toks, CommandType::Push, true, file)
    } else if word == "pop"@ {
        parse_with_number(toks, CommandType::Pop, true, file)
    } else if word == "label"@ {
        parse_with_label(toks, CommandType::Label, file)
    } else if word == "if-goto"@ {
        parse_with_label(toks, CommandType::If, file)
    } else if word == "goto"@ {
        parse_with_label(toks, CommandType::Goto, file)
    } else if word == "function"@ {
        parse_with_number(toks, CommandType::Function, false, file)
    } else if word == "call"@ {
        parse_with_number(toks, CommandType::Call, false, file)
    } else if word == "return"@ {
        if toks.len() > 1 {
            Parsed::Error(ParseErrorKind::MalformedCommand, toks[1])
        } else {
            Parsed::Command(
                CommandView {
                    arg1: word,
                    arg2: None,
                    command_type: CommandType::Return,
                    file_name: file,
                },
            )
        }
    } else {
        Parsed::Error(ParseErrorKind::UnrecognizedCommand, word)
    }
}

/// The word that a kind of command is written with; empty for the
/// arithmetic commands, whose mnemonic is their first argument.
pub open spec fn keyword(command_type: CommandType) -> Seq<char> {
    match command_type {
        CommandType::Arithmetic => ""@,
        CommandType::Call => "call"@,
        CommandType::Function => "function"@,
        CommandType::Goto => "goto"@,
        CommandType::If => "if-goto"@,
        CommandType::Label => "label"@,
        CommandType::Pop => "pop"@,
        CommandType::Push => "push"@,
        CommandType::Return => "return"@,
    }
}

/// A command as it is written: the mnemonic of an arithmetic command,
/// `return`, or else the command word, the first argument and, where there
/// is one, the second, with one space between them.
pub open spec fn command_text(c: CommandView) -> Seq<char> {
    match c.command_type {
        CommandType::Arithmetic => c.arg1,
        CommandType::Return => keyword(c.command_type),
        _ => {
            let head = keyword(c.command_type) + " "@ + c.arg1;
            match c.arg2 {
                Some(t) => head + " "@ + t,
                None => head,
            }
        },
    }
}

fn keyword_str(command_type: CommandType) -> (s: &'static str)
    ensures
        s@ == keyword(command_type),
{
    match command_type {
        CommandType::Arithmetic => "",
        CommandType::Call => "call",
        CommandType::Function => "function",
        CommandType::Goto => "goto",
        CommandType::If => "if-goto",
        CommandType::Label => "label",
        CommandType::Pop => "pop",
        CommandType::Push => "push",
        CommandType::Return => "return",
    }
}

impl Command {
    /// The command as it is written.
    pub fn to_text(&self) -> (s: String)
        ensures
            s@ == command_text(self@),
    {
        match self.command_type {
            CommandType::Arithmetic => self.arg1.clone(),
            CommandType::Return => String::from_str(keyword_str(self.command_type)),
            _ => {
                let mut s = String::from_str(keyword_str(self.command_type));
                s.append(" ");
                s.append(self.arg1.as_str());
                match &self.arg2 {
                    Some(t) => {
                        s.append(" ");
                        s.append(t.as_str());
                    },
                    None => {},
                }
                s
            },
        }
    }

    /// A command with the given parts.
    pub fn new(
        command_type: CommandType,
        arg1: String,
        arg2: Option<String>,
        file_name: String,
    ) -> (c: Command)
        ensures
            c@.command_type == command_type,
            c@.arg1 == arg1@,
            c@.arg2 == match arg2 {
                Some(s) => Some(s@),
                None => None::<Seq<char>>,
            },
            c@.file_name == file_name@,
    {
        Command { arg1, arg2, command_type, file_name }
    }

    /// The first argument: the mnemonic of an arithmetic command, the segment
    /// of a push or pop, the label or the function's name otherwise.
    pub fn get_arg1(&self) -> (r: &String)
        ensures
            r@ == self@.arg1,
    {
        &self.arg1
    }

    /// The second argument, where the command has one: an index or a count.
    pub fn get_arg2(&self) -> (r: Option<&String>)
        ensures
            match r {
                Some(s) => self@.arg2 == Some(s@),
                None => self@.arg2 is None,
            },
    {
        self.arg2.as_ref()
    }

    /// The kind of the command.
    pub fn get_command_type(&self) -> (r: &CommandType)
        ensures
            *r == self@.command_type,
    {
        &self.command_type
    }

    /// The name of the file that the command came from.
    pub fn get_file_name(&self) -> (r: &String)
        ensures
            r@ == self@.file_name,
    {
        &self.file_name
    }
}

/// What a line is read as: nothing where it holds no token, else a command
/// or an error.
pub open spec fn parse_line(line: Seq<char>, file: Seq<char>) -> Option<Parsed> {
    if line_tokens(line).len() == 0 {
        None
    } else {
        Some(parse_tokens(line_tokens(line), file))
    }
}

/// Whether `r` reports `expected` for the line with number `line_number` of `file`.
pub open spec fn reports(
    r: Result<Option<Command>, ParseError>,
    expected: Option<Parsed>,
    file: Seq<char>,
    line_number: int,
) -> bool {
    match expected {
        None => r matches Ok(None),
        Some(Parsed::Command(c)) => r matches Ok(Some(command)) && command@ == c,
        Some(Parsed::Error(kind, token)) => r matches Err(e) && e.kind == kind && e.token@ == token
            && e.file_name@ == file && e.line == line_number,
    }
}

/// A line together with its tokens.
struct Words<'a> {
    line: &'a str,
    chars: Vec<char>,
    ranges: Vec<(usize, usize)>,
}

impl<'a> Words<'a> {
    spec fn toks(&self) -> Seq<Seq<char>> {
        line_tokens(self.line@)
    }

    spec fn wf(&self) -> bool {
        &&& self.chars@ == self.line@
        &&& self.ranges@.len() == self.toks().len()
        &&& forall|i: int|
            0 <= i < self.ranges@.len() ==> {
                let r = #[trigger] self.ranges@[i];
                &&& r.0 <= r.1 <= self.chars@.len()
                &&& self.chars@.subrange(r.0 as int, r.1 as int) == self.toks()[i]
            }
    }

    fn new(line: &'a str) -> (w: Words<'a>)
        ensures
            w.wf(),
            w.line@ == line@,
    {
        let chars = chars_of(line);
        let limit = find_comment(&chars);
        let ranges = split_tokens(&chars, limit);
        proof {
            let t = chars@.take(limit as int);
            assert(t == strip_comment(line@));
            lemma_token_ranges(t, 0);
            assert forall|i: int| 0 <= i < ranges@.len() implies {
                let r = #[trigger] ranges@[i];
                &&& r.0 <= r.1 <= chars@.len()
                &&& chars@.subrange(r.0 as int, r.1 as int) == line_tokens(line@)[i]
            } by {
                let r = ranges@[i];
                assert(chars@.subrange(r.0 as int, r.1 as int) =~= t.subrange(
                    r.0 as int,
                    r.1 as int,
                ));
            }
        }
        Words { line, chars, ranges }
    }

    fn count(&self) -> (n: usize)
        requires
            self.wf(),
        ensures
            n == self.toks().len(),
    {
        self.ranges.len()
    }

    fn is(&self, i: usize, word: &str) -> (b: bool)
        requires
            self.wf(),
            i < self.toks().len(),
        ensures
            b == (self.toks()[i as int] == word@),
    {
        let r = self.ranges[i];
        range_is(&self.chars, r.0, r.1, word)
    }

    fn get(&self, i: usize) -> (s: String)
        requires
            self.wf(),
            i < self.toks().len(),
        ensures
            s@ == self.toks()[i as int],
    {
        let r = self.ranges[i];
        String::from_str(self.line.substring_char(r.0, r.1))
    }

    fn is_number(&self, i: usize) -> (b: bool)
        requires
            self.wf(),
            i < self.toks().len(),
        ensures
            b == is_u32_literal(self.toks()[i as int]),
    {
        let r = self.ranges[i];
        parse_u32(&self.chars, r.0, r.1).is_some()
    }
}

fn word_is_arithmetic(words: &Words) -> (b: bool)
    requires
        words.wf(),
        words.toks().len() > 0,
    ensures
        b == is_arithmetic(words.toks()[0]),
{
    words.is(0, "add") || words.is(0, "sub") || words.is(0, "neg") || words.is(0, "eq")
        || words.is(0, "gt") || words.is(0, "lt") || words.is(0, "and") || words.is(0, "or")
        || words.is(0, "not")
}

fn word_is_segment(words: &Words, i: usize) -> (b: bool)
    requires
        words.wf(),
        i < words.toks().len(),
    ensures
        b == is_segment(words.toks()[i as int]),
{
    words.is(i, "argument") || words.is(i, "local") || words.is(i, "static") || words.is(
        i,
        "constant",
    ) || words.is(i, "this") || words.is(i, "that") || words.is(i, "pointer") || words.is(
        i,
        "temp",
    )
}

/// The error that blames token `i` of the line.
fn error_at(
    words: &Words,
    i: usize,
    kind: ParseErrorKind,
    file_name: &String,
    line_number: usize,
) -> (e: ParseError)
    requires
        words.wf(),
        i < words.toks().len(),
    ensures
        e.kind == kind,
        e.token@ == words.toks()[i as int],
        e.file_name@ == file_name@,
        e.line == line_number,
{
    ParseError { kind, file_name: file_name.clone(), line: line_number, token: words.get(i) }
}

/// Reads a command word with a name and a count or index after it.
fn parse_push_pop(
    words: &Words,
    command_type: CommandType,
    checks_segment: bool,
    file_name: &String,
    line_number: usize,
) -> (r: Result<Option<Command>, ParseError>)
    requires
        words.wf(),
        words.toks().len() > 0,
    ensures
        reports(
            r,
            Some(parse_with_number(words.toks(), command_type, checks_segment, file_name@)),
            file_name@,
            line_number as int,
        ),
{
    let n = words.count();
    if n < 3 {
        Err(error_at(words, 0, ParseErrorKind::MalformedCommand, file_name, line_number))
    } else if n > 3 {
        Err(error_at(words, 3, ParseErrorKind::MalformedCommand, file_name, line_number))
    } else if checks_segment && !word_is_segment(words, 1) {
        Err(error_at(words, 1, ParseErrorKind::MalformedCommand, file_name, line_number))
    } else if !words.is_number(2) {
        Err(error_at(words, 2, ParseErrorKind::MalformedCommand, file_name, line_number))
    } else {
        Ok(
            Some(
                Command {
                    arg1: words.get(1),
                    arg2: Some(words.get(2)),
                    command_type,
                    file_name: file_name.clone(),
                },
            ),
        )
    }
}

/// Reads a command word with a label after it.
fn parse_branch(
    words: &Words,
    command_type: CommandType,
    file_name: &String,
    line_number: usize,
) -> (r: Result<Option<Command>, ParseError>)
    requires
        words.wf(),
        words.toks().len() > 0,
    ensures
        reports(
            r,
            Some(parse_with_label(words.toks(), command_type, file_name@)),
            file_name@,
            line_number as int,
        ),
{
    let n = words.count();
    if n < 2 {
        Err(error_at(words, 0, ParseErrorKind::MalformedCommand, file_name, line_number))
    } else if n > 2 {
        Err(error_at(words, 2, ParseErrorKind::MalformedCommand, file_name, line_number))
    } else {
        Ok(
            Some(
                Command {
                    arg1: words.get(1),
                    arg2: None,
                    command_type,
                    file_name: file_name.clone(),
                },
            ),
        )
    }
}

/// Reads one line of bytecode: `Ok(None)` where the line holds nothing but
/// spaces and a comment, the command where it holds one, and else the error
/// with the token at fault, the file and the line number as given.
pub fn parse_command(line: &str, file_name: &String, line_number: usize) -> (r: Result<
    Option<Command>,
    ParseError,
>)
    ensures
        reports(r, parse_line(line@, file_name@), file_name@, line_number as int),
{
    let words = Words::new(line);
    if words.count() == 0 {
        return Ok(None);
    }
    if word_is_arithmetic(&words) {
        Ok(
            Some(
                Command {
                    arg1: words.get(0),
                    arg2: None,
                    command_type: CommandType::Arithmetic,
                    file_name: file_name.clone(),
                },
            ),
        )
    } else if words.is(0, "push") {
        parse_push_pop(&words, CommandType::Push, true, file_name, line_number)
    } else if words.is(0, "pop") {
        parse_push_pop(&words, CommandType::Pop, true, file_name, line_number)
    } else if words.is(0, "label") {
        parse_branch(&words, CommandType::Label, file_name, line_number)
    } else if words.is(0, "if-goto") {
        parse_branch(&words, CommandType::If, file_name, line_number)
    } else if words.is(0, "goto") {
        parse_branch(&words, CommandType::Goto, file_name, line_number)
    } else if words.is(0, "function") {
        parse_push_pop(&words, CommandType::Function, false, file_name, line_number)
    } else if words.is(0, "call") {
        parse_push_pop(&words, CommandType::Call, false, file_name, line_number)
    } else if words.is(0, "return") {
        if words.count() > 1 {
            Err(error_at(&words, 1, ParseErrorKind::MalformedCommand, file_name, line_number))
        } else {
            Ok(
                Some(
                    Command {
                        arg1: words.get(0),
                        arg2: None,
                        command_type: CommandType::Return,
                        file_name: file_name.clone(),
                    },
                ),
            )
        }
    } else {
        Err(error_at(&words, 0, ParseErrorKind::UnrecognizedCommand, file_name, line_number))
    }
}

/// The index of the first line at or after `from` that holds a token; the
/// number of lines when there is none.
pub open spec fn next_command_line(lines: Seq<Seq<char>>, from: int) -> int
    decreases lines.len() - from,
{
    if from < 0 || from >= lines.len() {
        lines.len() as int
    } else if line_tokens(lines[from]).len() > 0 {
        from
    } else {
        next_command_line(lines, from + 1)
    }
}

/// Walks through the lines of one bytecode file, one command at a time.
pub struct Parser {
    current_command: Option<Command>,
    lines: Vec<String>,
    position: usize,
    has_more_commands: bool,
    file_name: String,
}

impl Parser {
    /// The lines of the file.
    pub closed spec fn source(&self) -> Seq<Seq<char>> {
        self.lines@.map_values(|s: String| s@)
    }

    /// The number of lines read so far.
    pub closed spec fn position(&self) -> int {
        self.position as int
    }

    /// The command read last, if the last read found one.
    pub closed spec fn current(&self) -> Option<CommandView> {
        match self.current_command {
            Some(c) => Some(c@),
            None => None,
        }
    }

    /// Whether the end of the file has not been met yet.
    pub closed spec fn more(&self) -> bool {
        self.has_more_commands
    }

    /// The name of the file.
    pub closed spec fn file(&self) -> Seq<char> {
        self.file_name@
    }

    /// A parser at the start of the given lines; `file_name` is the base name
    /// of the file that they come from.
    pub fn new(file_name: String, lines: Vec<String>) -> (p: Parser)
        ensures
            p.source() == lines@.map_values(|s: String| s@),
            p.file() == file_name@,
            p.position() == 0,
            p.current() is None,
            p.more(),
    {
        Parser { current_command: None, lines, position: 0, has_more_commands: true, file_name }
    }

    /// Reads on to the next command and makes it the current one.
    ///
    /// Lines without a token are passed over. Where no command is left the
    /// parser is exhausted: there is no current command and
    /// `has_more_commands` answers `false` from then on. A line that is no
    /// command is reported with its number and the token at fault; the parser
    /// then stands behind that line, without a current command.
    pub fn advance(&mut self) -> (r: Result<(), ParseError>)
        ensures
            final(self).source() == old(self).source(),
            final(self).file() == old(self).file(),
            ({
                let at = next_command_line(old(self).source(), old(self).position());
                if at >= old(self).source().len() {
                    &&& r is Ok
                    &&& final(self).position() == old(self).source().len()
                    &&& final(self).current() is None
                    &&& !final(self).more()
                } else {
                    &&& final(self).position() == at + 1
                    &&& final(self).more() == old(self).more()
                    &&& match parse_tokens(line_tokens(old(self).source()[at]), old(self).file()) {
                        Parsed::Command(c) => r is Ok && final(self).current() == Some(c),
                        Parsed::Error(kind, token) => {
                            &&& final(self).current() is None
                            &&& r matches Err(e) && e.kind == kind && e.token@ == token
                                && e.file_name@ == old(self).file() && e.line == at + 1
                        },
                    }
                }
            }),
    {
        self.current_command = None;
        if self.position > self.lines.len() {
            self.position = self.lines.len();
        }
        while self.position < self.lines.len()
            invariant
                self.position <= self.lines@.len(),
                self.lines == old(self).lines,
                self.file_name == old(self).file_name,
                self.has_more_commands == old(self).has_more_commands,
                self.current_command is None,
                next_command_line(old(self).source(), old(self).position()) == next_command_line(
                    self.source(),
                    self.position as int,
                ),
            decreases self.lines@.len() - self.position,
        {
            let at = self.position;
            self.position = at + 1;
            let parsed = parse_command(self.lines[at].as_str(), &self.file_name, at + 1);
            assert(self.source()[at as int] == self.lines@[at as int]@);
            match parsed {
                Ok(Some(command)) => {
                    self.current_command = Some(command);
                    return Ok(());
                },
                Ok(None) => {},
                Err(e) => {
                    return Err(e);
                },
            }
        }
        self.has_more_commands = false;
        Ok(())
    }

    /// The command read last, if the last read found one.
    pub fn get_current_command(&self) -> (r: Option<&Command>)
        ensures
            match r {
                Some(c) => self.current() == Some(c@),
                None => self.current() is None,
            },
    {
        self.current_command.as_ref()
    }

    /// Whether the end of the file has not been met yet.
    pub fn has_more_commands(&self) -> (b: bool)
        ensures
            b == self.more(),
    {
        self.has_more_commands
    }
}

} // verus!
