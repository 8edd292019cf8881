//! Writes bytecode commands, one on a line.

use crate::text::{
    decimal, is_space, is_u32_literal, is_word_text, lemma_decimal_is_word,
    lemma_decimal_round_trip, lemma_three_words, push_decimal, u32_literal_value, unsigned_digits,
};
use crate::vm_translator::code_writer::{number_argument, TranslationErrorKind};
use crate::vm_translator::parser::{
    is_arithmetic, is_segment, line_tokens, parse_line, CommandType, CommandView, Parsed,
};
use vstd::prelude::*;
use vstd::string::*;

verus! {

/// The memory segments of the stack machine.
#[derive(Debug, Copy, Clone, PartialEq, Eq, Structural)]
pub enum VMSegment {
    This,
    That,
    Local,
    Argument,
    Static,
    Pointer,
    Constant,
    Temp,
}

/// The name of a segment in bytecode.
pub open spec fn segment_name(segment: VMSegment) -> Seq<char> {
    match segment {
        VMSegment::Argument => "argument"@,
        VMSegment::Local => "local"@,
        VMSegment::Pointer => "pointer"@,
        VMSegment::Static => "static"@,
        VMSegment::That => "that"@,
        VMSegment::This => "this"@,
        VMSegment::Constant => "constant"@,
        VMSegment::Temp => "temp"@,
    }
}

/// A command word, a name and a number, with one space between them.
pub open spec fn command_with_number(word: Seq<char>, name: Seq<char>, number: nat) -> Seq<char> {
    word + " "@ + name + " "@ + decimal(number)
}

fn segment_str(segment: VMSegment) -> (s: &'static str)
    ensures
        s@ == segment_name(segment),
{
    match segment {
        VMSegment::Argument => "argument",
        VMSegment::Local => "local",
        VMSegment::Pointer => "pointer",
        VMSegment::Static => "static",
        VMSegment::That => "that",
        VMSegment::This => "this",
        VMSegment::Constant => "constant",
        VMSegment::Temp => "temp",
    }
}

fn numbered(word: &str, name: &str, number: u32) -> (command: String)
    ensures
        command@ == command_with_number(word@, name@, number as nat),
{
    let mut command = String::from_str(word);
    command.append(" ");
    command.append(name);
    command.append(" ");
    push_decimal(&mut command, number);
    command
}

/// Collects the commands of a bytecode file.
#[derive(Debug)]
pub struct VMWriter {
    lines: Vec<String>,
}

impl View for VMWriter {
    type V = Seq<Seq<char>>;

    closed spec fn view(&self) -> Seq<Seq<char>> {
        self.lines@.map_values(|s: String| s@)
    }
}

impl VMWriter {
    /// A writer that has written nothing.
    pub fn new() -> (w: VMWriter)
        ensures
            w@ == Seq::<Seq<char>>::empty(),
    {
        let w = VMWriter { lines: Vec::new() };
        assert(w@ =~= Seq::<Seq<char>>::empty());
        w
    }

    /// The lines written so far.
    pub fn lines(&self) -> (lines: &Vec<String>)
        ensures
            lines@.map_values(|s: String| s@) == self@,
    {
        &self.lines
    }

    /// Writes `push segment index`.
    pub fn write_push(&mut self, segment: VMSegment, index: u32)
        ensures
            final(self)@ == old(self)@.push(
                command_with_number("push"@, segment_name(segment), index as nat),
            ),
    {
        let command = numbered("push", segment_str(segment), index);
        self.write_command(command.as_str());
    }

    /// Writes `pop segment index`.
    pub fn write_pop(&mut self, segment: VMSegment, index: u32)
        ensures
            final(self)@ == old(self)@.push(
                command_with_number("pop"@, segment_name(segment), index as nat),
            ),
    {
        let command = numbered("pop", segment_str(segment), index);
        self.write_command(command.as_str());
    }

    /// Writes `call label num_args`.
    pub fn write_call(&mut self, label: &str, num_args: u32)
        ensures
            final(self)@ == old(self)@.push(command_with_number("call"@, label@, num_args as nat)),
    {
        let command = numbered("call", label, num_args);
        self.write_command(command.as_str());
    }

    /// Writes `function label num_locals`.
    pub fn write_function(&mut self, label: &str, num_locals: u32)
        ensures
            final(self)@ == old(self)@.push(
                command_with_number("function"@, label@, num_locals as nat),
            ),
    {
        let command = numbered("function", label, num_locals);
        self.write_command(command.as_str());
    }

    /// Writes the two lines that ask for memory: `push size` and
    /// `call Memory.alloc`.
    pub fn write_alloc(&mut self, size: String)
        ensures
            final(self)@ == old(self)@.push("push "@ + size@).push("call Memory.alloc"@),
    {
        let mut push = String::from_str("push ");
        push.append(size.as_str());
        self.write_command(push.as_str());
        self.write_command("call Memory.alloc");
    }

    /// Writes the given commands, each on a line of its own.
    pub fn write_commands(&mut self, commands: &Vec<String>)
        ensures
            final(self)@ == old(self)@ + commands@.map_values(|s: String| s@),
    {
        let mut i: usize = 0;
        let ghost all = commands@.map_values(|s: String| s@);
        assert(all.take(0) =~= Seq::<Seq<char>>::empty());
        assert(self@ =~= old(self)@ + all.take(0));
        while i < commands.len()
            invariant
                i <= commands@.len(),
                all == commands@.map_values(|s: String| s@),
                self@ == old(self)@ + all.take(i as int),
            decreases commands@.len() - i,
        {
            self.write_command(commands[i].as_str());
            assert(all.take(i + 1) =~= all.take(i as int).push(commands@[i as int]@));
            assert(self@ =~= old(self)@ + all.take(i + 1));
            i = i + 1;
        }
        assert(all.take(commands@.len() as int) =~= all);
    }

    /// Writes one command on a line of its own.
    pub fn write_command(&mut self, command: &str)
        ensures
            final(self)@ == old(self)@.push(command@),
    {
        self.lines.push(String::from_str(command));
        assert(final(self)@ =~= old(self)@.push(command@));
    }
}

/// The name of every segment is a word, and one that the parser knows.
pub proof fn lemma_segment_names(segment: VMSegment)
    ensures
        is_word_text(segment_name(segment)),
        is_segment(segment_name(segment)),
{
    reveal_strlit("argument");
    assert("argument"@.len() == 8);
    assert("argument"@[0] == 'a' && "argument"@[1] == 'r' && "argument"@[2] == 'g' && "argument"@[3] == 'u' && "argument"@[4] == 'm' && "argument"@[5] == 'e' && "argument"@[6] == 'n' && "argument"@[7] == 't');
    assert(is_word_text("argument"@)) by {
        assert forall|i: int| 0 <= i < 8 implies !is_space(#[trigger] "argument"@[i]) && "argument"@[i] != '/' by {
            if i == 0 {
            } else if i == 1 {
            } else if i == 2 {
            } else if i == 3 {
            } else if i == 4 {
            } else if i == 5 {
            } else if i == 6 {
            } else if i == 7 {
            } else {
            }
        }
    }
    reveal_strlit("local");
    assert("local"@.len() == 5);
    assert("local"@[0] == 'l' && "local"@[1] == 'o' && "local"@[2] == 'c' && "local"@[3] == 'a' && "local"@[4] == 'l');
    assert(is_word_text("local"@)) by {
        assert forall|i: int| 0 <= i < 5 implies !is_space(#[trigger] "local"@[i]) && "local"@[i] != '/' by {
            if i == 0 {
            } else if i == 1 {
            } else if i == 2 {
            } else if i == 3 {
            } else if i == 4 {
            } else {
            }
        }
    }
    reveal_strlit("pointer");
    assert("pointer"@.len() == 7);
    assert("pointer"@[0] == 'p' && "pointer"@[1] == 'o' && "pointer"@[2] == 'i' && "pointer"@[3] == 'n' && "pointer"@[4] == 't' && "pointer"@[5] == 'e' && "pointer"@[6] == 'r');
    assert(is_word_text("pointer"@)) by {
        assert forall|i: int| 0 <= i < 7 implies !is_space(#[trigger] "pointer"@[i]) && "pointer"@[i] != '/' by {
            if i == 0 {
            } else if i == 1 {
            } else if i == 2 {
            } else if i == 3 {
            } else if i == 4 {
            } else if i == 5 {
            } else if i == 6 {
            } else {
            }
        }
    }
    reveal_strlit("static");
    assert("static"@.len() == 6);
    assert("static"@[0] == 's' && "static"@[1] == 't' && "static"@[2] == 'a' && "static"@[3] == 't' && "static"@[4] == 'i' && "static"@[5] == 'c');
    assert(is_word_text("static"@)) by {
        assert forall|i: int| 0 <= i < 6 implies !is_space(#[trigger] "static"@[i]) && "static"@[i] != '/' by {
            if i == 0 {
            } else if i == 1 {
            } else if i == 2 {
            } else if i == 3 {
            } else if i == 4 {
            } else if i == 5 {
            } else {
            }
        }
    }
    reveal_strlit("that");
    assert("that"@.len() == 4);
    assert("that"@[0] == 't' && "that"@[1] == 'h' && "that"@[2] == 'a' && "that"@[3] == 't');
    assert(is_word_text("that"@)) by {
        assert forall|i: int| 0 <= i < 4 implies !is_space(#[trigger] "that"@[i]) && "that"@[i] != '/' by {
            if i == 0 {
            } else if i == 1 {
            } else if i == 2 {
            } else if i == 3 {
            } else {
            }
        }
    }
    reveal_strlit("this");
    assert("this"@.len() == 4);
    assert("this"@[0] == 't' && "this"@[1] == 'h' && "this"@[2] == 'i' && "this"@[3] == 's');
    assert(is_word_text("this"@)) by {
        assert forall|i: int| 0 <= i < 4 implies !is_space(#[trigger] "this"@[i]) && "this"@[i] != '/' by {
            if i == 0 {
            } else if i == 1 {
            } else if i == 2 {
            } else if i == 3 {
            } else {
            }
        }
    }
    reveal_strlit("constant");
    assert("constant"@.len() == 8);
    assert("constant"@[0] == 'c' && "constant"@[1] == 'o' && "constant"@[2] == 'n' && "constant"@[3] == 's' && "constant"@[4] == 't' && "constant"@[5] == 'a' && "constant"@[6] == 'n' && "constant"@[7] == 't');
    assert(is_word_text("constant"@)) by {
        assert forall|i: int| 0 <= i < 8 implies !is_space(#[trigger] "constant"@[i]) && "constant"@[i] != '/' by {
            if i == 0 {
            } else if i == 1 {
            } else if i == 2 {
            } else if i == 3 {
            } else if i == 4 {
            } else if i == 5 {
            } else if i == 6 {
            } else if i == 7 {
            } else {
            }
        }
    }
    reveal_strlit("temp");
    assert("temp"@.len() == 4);
    assert("temp"@[0] == 't' && "temp"@[1] == 'e' && "temp"@[2] == 'm' && "temp"@[3] == 'p');
    assert(is_word_text("temp"@)) by {
        assert forall|i: int| 0 <= i < 4 implies !is_space(#[trigger] "temp"@[i]) && "temp"@[i] != '/' by {
            if i == 0 {
            } else if i == 1 {
            } else if i == 2 {
            } else if i == 3 {
            } else {
            }
        }
    }
}

/// The four command words that the writer writes with a number are words,
/// and none of them is an arithmetic mnemonic or another command word.
proof fn lemma_command_words()
    ensures
        is_word_text("push"@),
        is_word_text("pop"@),
        is_word_text("call"@),
        is_word_text("function"@),
        !is_arithmetic("push"@),
        !is_arithmetic("pop"@),
        !is_arithmetic("call"@),
        !is_arithmetic("function"@),
        "pop"@ != "push"@,
        "call"@ != "push"@ && "call"@ != "pop"@ && "call"@ != "label"@ && "call"@ != "if-goto"@
            && "call"@ != "goto"@ && "call"@ != "function"@,
        "function"@ != "push"@ && "function"@ != "pop"@ && "function"@ != "label"@ && "function"@
            != "if-goto"@ && "function"@ != "goto"@,
{
    reveal_strlit("push");
    assert("push"@.len() == 4);
    assert("push"@[0] == 'p' && "push"@[1] == 'u' && "push"@[2] == 's' && "push"@[3] == 'h');
    assert(is_word_text("push"@)) by {
        assert forall|i: int| 0 <= i < 4 implies !is_space(#[trigger] "push"@[i]) && "push"@[i] != '/' by {
            if i == 0 {
            } else if i == 1 {
            } else if i == 2 {
            } else if i == 3 {
            } else {
            }
        }
    }
    reveal_strlit("pop");
    assert("pop"@.len() == 3);
    assert("pop"@[0] == 'p' && "pop"@[1] == 'o' && "pop"@[2] == 'p');
    assert(is_word_text("pop"@)) by {
        assert forall|i: int| 0 <= i < 3 implies !is_space(#[trigger] "pop"@[i]) && "pop"@[i] != '/' by {
            if i == 0 {
            } else if i == 1 {
            } else if i == 2 {
            } else {
            }
        }
    }
    reveal_strlit("call");
    assert("call"@.len() == 4);
    assert("call"@[0] == 'c' && "call"@[1] == 'a' && "call"@[2] == 'l' && "call"@[3] == 'l');
    assert(is_word_text("call"@)) by {
        assert forall|i: int| 0 <= i < 4 implies !is_space(#[trigger] "call"@[i]) && "call"@[i] != '/' by {
            if i == 0 {
            } else if i == 1 {
            } else if i == 2 {
            } else if i == 3 {
            } else {
            }
        }
    }
    reveal_strlit("function");
    assert("function"@.len() == 8);
    assert("function"@[0] == 'f' && "function"@[1] == 'u' && "function"@[2] == 'n' && "function"@[3] == 'c' && "function"@[4] == 't' && "function"@[5] == 'i' && "function"@[6] == 'o' && "function"@[7] == 'n');
    assert(is_word_text("function"@)) by {
        assert forall|i: int| 0 <= i < 8 implies !is_space(#[trigger] "function"@[i]) && "function"@[i] != '/' by {
            if i == 0 {
            } else if i == 1 {
            } else if i == 2 {
            } else if i == 3 {
            } else if i == 4 {
            } else if i == 5 {
            } else if i == 6 {
            } else if i == 7 {
            } else {
            }
        }
    }
    reveal_strlit("add");
    reveal_strlit("sub");
    reveal_strlit("neg");
    reveal_strlit("eq");
    reveal_strlit("gt");
    reveal_strlit("lt");
    reveal_strlit("and");
    reveal_strlit("or");
    reveal_strlit("not");
    reveal_strlit("label");
    reveal_strlit("if-goto");
    reveal_strlit("goto");
    assert("add"@.len() == 3 && "add"@[0] == 'a');
    assert("sub"@.len() == 3 && "sub"@[0] == 's');
    assert("neg"@.len() == 3 && "neg"@[0] == 'n');
    assert("and"@.len() == 3 && "and"@[0] == 'a');
    assert("not"@.len() == 3 && "not"@[0] == 'n');
    assert("eq"@.len() == 2 && "gt"@.len() == 2 && "lt"@.len() == 2 && "or"@.len() == 2);
    assert("label"@.len() == 5 && "if-goto"@.len() == 7);
    assert("goto"@.len() == 4 && "goto"@[0] == 'g');
}

/// The command that three words make up.
pub open spec fn written(
    command_type: CommandType,
    name: Seq<char>,
    number: nat,
    file: Seq<char>,
) -> CommandView {
    CommandView { arg1: name, arg2: Some(decimal(number)), command_type, file_name: file }
}

proof fn lemma_words_are_read(
    word: Seq<char>,
    command_type: CommandType,
    name: Seq<char>,
    number: u32,
    file: Seq<char>,
)
    requires
        is_word_text(word),
        is_word_text(name),
    ensures
        line_tokens(command_with_number(word, name, number as nat)) == seq![
            word,
            name,
            decimal(number as nat),
        ],
        is_u32_literal(decimal(number as nat)),
        u32_literal_value(decimal(number as nat)) == number,
        number_argument(written(command_type, name, number as nat, file)) == Ok::<
            nat,
            TranslationErrorKind,
        >(number as nat),
{
    reveal_strlit(" ");
    assert(" "@ =~= seq![' ']);
    let digits = decimal(number as nat);
    lemma_decimal_is_word(number as nat);
    lemma_decimal_round_trip(number as nat);
    lemma_three_words(word, name, digits);
    assert(crate::text::is_digit(digits[0]));
    assert(unsigned_digits(digits) == digits);
}

/// What the writer writes, the parser of the bytecode reads.
///
/// The line of a `push` or `pop` is read as that command with the name of
/// the segment and the index; the line of a `call` or `function` whose
/// label is a word, as that command with the label and the count. The
/// number that the code writer takes from the command is the one written.
pub proof fn lemma_written_is_read(segment: VMSegment, label: Seq<char>, n: u32, file: Seq<char>)
    requires
        is_word_text(label),
    ensures
        parse_line(command_with_number("push"@, segment_name(segment), n as nat), file) == Some(
            Parsed::Command(written(CommandType::Push, segment_name(segment), n as nat, file)),
        ),
        parse_line(command_with_number("pop"@, segment_name(segment), n as nat), file) == Some(
            Parsed::Command(written(CommandType::Pop, segment_name(segment), n as nat, file)),
        ),
        parse_line(command_with_number("call"@, label, n as nat), file) == Some(
            Parsed::Command(written(CommandType::Call, label, n as nat, file)),
        ),
        parse_line(command_with_number("function"@, label, n as nat), file) == Some(
            Parsed::Command(written(CommandType::Function, label, n as nat, file)),
        ),
        number_argument(written(CommandType::Push, segment_name(segment), n as nat, file)) == Ok::<
            nat,
            TranslationErrorKind,
        >(n as nat),
        number_argument(written(CommandType::Call, label, n as nat, file)) == Ok::<
            nat,
            TranslationErrorKind,
        >(n as nat),
{
    lemma_command_words();
    lemma_segment_names(segment);
    lemma_words_are_read("push"@, CommandType::Push, segment_name(segment), n, file);
    lemma_words_are_read("pop"@, CommandType::Pop, segment_name(segment), n, file);
    lemma_words_are_read("call"@, CommandType::Call, label, n, file);
    lemma_words_are_read("function"@, CommandType::Function, label, n, file);
}

} // verus!
