//! Lines of symbolic assembly, as structured values and as text.

use crate::text::{decimal, push_decimal};
use vstd::prelude::*;
use vstd::string::*;

verus! {

/// The registers that receive the value of a computation.
#[derive(Clone, Copy, Debug, PartialEq, Eq, Structural)]
pub struct Dest {
    pub a: bool,
    pub d: bool,
    pub m: bool,
}

/// The computations the machine's arithmetic unit offers.
#[derive(Clone, Copy, Debug, PartialEq, Eq, Structural)]
pub enum Comp {
    Zero,
    One,
    MinusOne,
    D,
    A,
    M,
    NotD,
    NotA,
    NotM,
    NegD,
    NegA,
    NegM,
    DPlusOne,
    APlusOne,
    MPlusOne,
    DMinusOne,
    AMinusOne,
    MMinusOne,
    DPlusA,
    DPlusM,
    DMinusA,
    DMinusM,
    AMinusD,
    MMinusD,
    DAndA,
    DAndM,
    DOrA,
    DOrM,
}

/// The condition, on the computed value, under which control moves to the
/// address held in the address register.
#[derive(Clone, Copy, Debug, PartialEq, Eq, Structural)]
pub enum Jump {
    Never,
    Greater,
    Equal,
    GreaterEqual,
    Less,
    NotEqual,
    LessEqual,
    Always,
}

/// One line of assembly.
#[derive(Clone, Debug, PartialEq, Eq)]
pub enum AsmLine {
    /// `@n`: load the constant `n` into the address register.
    Constant(u32),
    /// `@name`: load the address that `name` stands for.
    Symbol(String),
    /// `dest=comp;jump`.
    Compute(Dest, Comp, Jump),
    /// `(name)`: mark the address of the next instruction.
    Label(String),
}

/// The mathematical value of an [`AsmLine`].
pub enum Line {
    Constant(nat),
    Symbol(Seq<char>),
    Compute(Dest, Comp, Jump),
    Label(Seq<char>),
}

impl View for AsmLine {
    type V = Line;

    open spec fn view(&self) -> Line {
        match self {
            AsmLine::Constant(n) => Line::Constant(*n as nat),
            AsmLine::Symbol(s) => Line::Symbol(s@),
            AsmLine::Compute(d, c, j) => Line::Compute(*d, *c, *j),
            AsmLine::Label(s) => Line::Label(s@),
        }
    }
}

/// The values of a sequence of lines.
pub open spec fn lines_view(lines: Seq<AsmLine>) -> Seq<Line> {
    lines.map_values(|l: AsmLine| l@)
}

/// The mnemonic of a destination; empty when nothing is stored.
pub open spec fn dest_text(d: Dest) -> Seq<char> {
    if d.a && d.d && d.m {
        "AMD"@
    } else if d.a && d.d {
        "AD"@
    } else if d.a && d.m {
        "AM"@
    } else if d.d && d.m {
        "MD"@
    } else if d.a {
        "A"@
    } else if d.d {
        "D"@
    } else if d.m {
        "M"@
    } else {
        ""@
    }
}

/// The mnemonic of a computation.
pub open spec fn comp_text(c: Comp) -> Seq<char> {
    match c {
        Comp::Zero => "0"@,
        Comp::One => "1"@,
        Comp::MinusOne => "-1"@,
        Comp::D => "D"@,
        Comp::A => "A"@,
        Comp::M => "M"@,
        Comp::NotD => "!D"@,
        Comp::NotA => "!A"@,
        Comp::NotM => "!M"@,
        Comp::NegD => "-D"@,
        Comp::NegA => "-A"@,
        Comp::NegM => "-M"@,
        Comp::DPlusOne => "D+1"@,
        Comp::APlusOne => "A+1"@,
        Comp::MPlusOne => "M+1"@,
        Comp::DMinusOne => "D-1"@,
        Comp::AMinusOne => "A-1"@,
        Comp::MMinusOne => "M-1"@,
        Comp::DPlusA => "D+A"@,
        Comp::DPlusM => "D+M"@,
        Comp::DMinusA => "D-A"@,
        Comp::DMinusM => "D-M"@,
        Comp::AMinusD => "A-D"@,
        Comp::MMinusD => "M-D"@,
        Comp::DAndA => "D&A"@,
        Comp::DAndM => "D&M"@,
        Comp::DOrA => "D|A"@,
        Comp::DOrM => "D|M"@,
    }
}

/// The mnemonic of a jump condition; empty when control never moves.
pub open spec fn jump_text(j: Jump) -> Seq<char> {
    match j {
        Jump::Never => ""@,
        Jump::Greater => "JGT"@,
        Jump::Equal => "JEQ"@,
        Jump::GreaterEqual => "JGE"@,
        Jump::Less => "JLT"@,
        Jump::NotEqual => "JNE"@,
        Jump::LessEqual => "JLE"@,
        Jump::Always => "JMP"@,
    }
}

/// Whether a destination stores nothing.
pub open spec fn dest_is_empty(d: Dest) -> bool {
    !d.a && !d.d && !d.m
}

/// The text of a line: `@n`, `@name`, `(name)`, or a computation with its
/// destination before `=` and its jump after `;`, each part and its separator
/// left out when the part is empty.
pub open spec fn render(line: Line) -> Seq<char> {
    match line {
        Line::Constant(n) => "@"@ + decimal(n),
        Line::Symbol(s) => "@"@ + s,
        Line::Label(s) => "("@ + s + ")"@,
        Line::Compute(d, c, j) => {
            let head = if dest_is_empty(d) {
                comp_text(c)
            } else {
                dest_text(d) + "="@ + comp_text(c)
            };
            if j == Jump::Never {
                head
            } else {
                head + ";"@ + jump_text(j)
            }
        },
    }
}

fn dest_str(d: Dest) -> (s: &'static str)
    ensures
        s@ == dest_text(d),
{
    if d.a && d.d && d.m {
        "AMD"
    } else if d.a && d.d {
        "AD"
    } else if d.a && d.m {
        "AM"
    } else if d.d && d.m {
        "MD"
    } else if d.a {
        "A"
    } else if d.d {
        "D"
    } else if d.m {
        "M"
    } else {
        ""
    }
}

fn comp_str(c: Comp) -> (s: &'static str)
    ensures
        s@ == comp_text(c),
{
    match c {
        Comp::Zero => "0",
        Comp::One => "1",
        Comp::MinusOne => "-1",
        Comp::D => "D",
        Comp::A => "A",
        Comp::M => "M",
        Comp::NotD => "!D",
        Comp::NotA => "!A",
        Comp::NotM => "!M",
        Comp::NegD => "-D",
        Comp::NegA => "-A",
        Comp::NegM => "-M",
        Comp::DPlusOne => "D+1",
        Comp::APlusOne => "A+1",
        Comp::MPlusOne => "M+1",
        Comp::DMinusOne => "D-1",
        Comp::AMinusOne => "A-1",
        Comp::MMinusOne => "M-1",
        Comp::DPlusA => "D+A",
        Comp::DPlusM => "D+M",
        Comp::DMinusA => "D-A",
        Comp::DMinusM => "D-M",
        Comp::AMinusD => "A-D",
        Comp::MMinusD => "M-D",
        Comp::DAndA => "D&A",
        Comp::DAndM => "D&M",
        Comp::DOrA => "D|A",
        Comp::DOrM => "D|M",
    }
}

fn jump_str(j: Jump) -> (s: &'static str)
    ensures
        s@ == jump_text(j),
{
    match j {
        Jump::Never => "",
        Jump::Greater => "JGT",
        Jump::Equal => "JEQ",
        Jump::GreaterEqual => "JGE",
        Jump::Less => "JLT",
        Jump::NotEqual => "JNE",
        Jump::LessEqual => "JLE",
        Jump::Always => "JMP",
    }
}

/// Writes a line out as text.
pub fn render_line(line: &AsmLine) -> (s: String)
    ensures
        s@ == render(line@),
{
    match line {
        AsmLine::Constant(n) => {
            let mut s = String::from_str("@");
            push_decimal(&mut s, *n);
            s
        },
        AsmLine::Symbol(name) => {
            let mut s = String::from_str("@");
            s.append(name.as_str());
            s
        },
        AsmLine::Label(name) => {
            let mut s = String::from_str("(");
            s.append(name.as_str());
            s.append(")");
            s
        },
        AsmLine::Compute(d, c, j) => {
            let mut s = String::new();
            if d.a || d.d || d.m {
                s.append(dest_str(*d));
                s.append("=");
            }
            s.append(comp_str(*c));
            match j {
                Jump::Never => {},
                _ => {
                    s.append(";");
                    s.append(jump_str(*j));
                },
            }
            assert(s@ =~= render(line@));
            s
        },
    }
}

/// Writes a sequence of lines out as text, one string for each line.
pub fn render_lines(lines: &Vec<AsmLine>) -> (out: Vec<String>)
    ensures
        out@.len() == lines@.len(),
        forall|i: int| 0 <= i < lines@.len() ==> (#[trigger] out@[i])@ == render(lines@[i]@),
{
    let mut out: Vec<String> = Vec::new();
    let mut i: usize = 0;
    while i < lines.len()
        invariant
            i <= lines@.len(),
            out@.len() == i,
            forall|k: int| 0 <= k < i ==> (#[trigger] out@[k])@ == render(lines@[k]@),
        decreases lines@.len() - i,
    {
        out.push(render_line(&lines[i]));
        i = i + 1;
    }
    out
}

/// The text of a program: every line, in order, each followed by a newline.
pub open spec fn program_text(code: Seq<Line>) -> Seq<char>
    decreases code.len(),
{
    if code.len() == 0 {
        Seq::empty()
    } else {
        program_text(code.drop_last()) + render(code.last()) + "\n"@
    }
}

/// Writes a program out as one text.
pub fn render_program(lines: &Vec<AsmLine>) -> (out: String)
    ensures
        out@ == program_text(lines_view(lines@)),
{
    let mut out = String::new();
    let mut i: usize = 0;
    let ghost code = lines_view(lines@);
    assert(code.take(0) =~= Seq::<Line>::empty());
    while i < lines.len()
        invariant
            i <= lines@.len(),
            code == lines_view(lines@),
            out@ == program_text(code.take(i as int)),
        decreases lines@.len() - i,
    {
        let line = render_line(&lines[i]);
        assert(code.take(i + 1).drop_last() =~= code.take(i as int));
        assert(code.take(i + 1).last() == lines@[i as int]@);
        out.append(line.as_str());
        out.append("\n");
        i = i + 1;
    }
    assert(code.take(lines@.len() as int) =~= code);
    out
}

} // verus!
