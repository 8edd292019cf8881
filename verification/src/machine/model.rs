//! A model of the machine that runs the assembly: two registers, a memory of
//! 16-bit words, and the effect of each line.
//!
//! The model runs a sequence of lines from its first line onward until the
//! sequence ends or a jump is taken.

use crate::machine::instruction::{Comp, Dest, Jump, Line};
use vstd::prelude::*;

verus! {

/// The registers and the memory.
pub struct Machine {
    /// The address register.
    pub a: int,
    /// The data register.
    pub d: int,
    /// The memory, from cell number to the word it holds.
    pub ram: Map<int, int>,
}

/// What symbolic names stand for.
pub type Env = Map<Seq<char>, int>;

/// How a run of lines ended.
pub enum Outcome {
    /// Every line was executed and no jump was taken.
    Next(Machine),
    /// A jump to `target` was taken; `state` is the machine after the jumping line.
    Jump { target: int, state: Machine },
}

/// The 16-bit word that an integer is stored as.
pub open spec fn word(x: int) -> int {
    x % 0x10000
}

/// A word read as a signed number.
pub open spec fn signed(x: int) -> int {
    if x >= 0x8000 {
        x - 0x10000
    } else {
        x
    }
}

/// The memory cell that an address selects: memory has 15 address bits.
pub open spec fn cell(a: int) -> int {
    a % 0x8000
}

/// Whether an integer is a 16-bit word.
pub open spec fn is_word(x: int) -> bool {
    0 <= x < 0x10000
}

/// The bitwise complement of a word.
pub open spec fn word_not(x: int) -> int {
    0xFFFF - x
}

/// The bitwise conjunction of two words.
pub open spec fn word_and(x: int, y: int) -> int {
    ((x as u16) & (y as u16)) as int
}

/// The bitwise disjunction of two words.
pub open spec fn word_or(x: int, y: int) -> int {
    ((x as u16) | (y as u16)) as int
}

impl Machine {
    /// Registers and every memory cell hold 16-bit words.
    pub open spec fn wf(self) -> bool {
        &&& is_word(self.a)
        &&& is_word(self.d)
        &&& forall|k: int| is_word(#[trigger] self.ram[k])
    }

    /// The word in the cell that the address register selects.
    pub open spec fn m(self) -> int {
        self.ram[cell(self.a)]
    }
}

/// The value a computation yields.
pub open spec fn comp_value(c: Comp, s: Machine) -> int {
    match c {
        Comp::Zero => 0,
        Comp::One => 1,
        Comp::MinusOne => 0xFFFF,
        Comp::D => s.d,
        Comp::A => s.a,
        Comp::M => s.m(),
        Comp::NotD => word_not(s.d),
        Comp::NotA => word_not(s.a),
        Comp::NotM => word_not(s.m()),
        Comp::NegD => word(-s.d),
        Comp::NegA => word(-s.a),
        Comp::NegM => word(-s.m()),
        Comp::DPlusOne => word(s.d + 1),
        Comp::APlusOne => word(s.a + 1),
        Comp::MPlusOne => word(s.m() + 1),
        Comp::DMinusOne => word(s.d - 1),
        Comp::AMinusOne => word(s.a - 1),
        Comp::MMinusOne => word(s.m() - 1),
        Comp::DPlusA => word(s.d + s.a),
        Comp::DPlusM => word(s.d + s.m()),
        Comp::DMinusA => word(s.d - s.a),
        Comp::DMinusM => word(s.d - s.m()),
        Comp::AMinusD => word(s.a - s.d),
        Comp::MMinusD => word(s.m() - s.d),
        Comp::DAndA => word_and(s.d, s.a),
        Comp::DAndM => word_and(s.d, s.m()),
        Comp::DOrA => word_or(s.d, s.a),
        Comp::DOrM => word_or(s.d, s.m()),
    }
}

/// Whether a jump condition holds of a computed word, read as a signed number.
pub open spec fn jump_taken(j: Jump, v: int) -> bool {
    match j {
        Jump::Never => false,
        Jump::Greater => signed(v) > 0,
        Jump::Equal => v == 0,
        Jump::GreaterEqual => signed(v) >= 0,
        Jump::Less => signed(v) < 0,
        Jump::NotEqual => v != 0,
        Jump::LessEqual => signed(v) <= 0,
        Jump::Always => true,
    }
}

/// The machine after a computed value has been stored. The memory cell is the
/// one that the address register selected before the line.
pub open spec fn store(d: Dest, v: int, s: Machine) -> Machine {
    Machine {
        a: if d.a {
            v
        } else {
            s.a
        },
        d: if d.d {
            v
        } else {
            s.d
        },
        ram: if d.m {
            s.ram.insert(cell(s.a), v)
        } else {
            s.ram
        },
    }
}

/// The machine after one line. A label does nothing; a constant above the
/// 15 bits that a line can carry is cut to them.
pub open spec fn exec_line(line: Line, env: Env, s: Machine) -> Machine {
    match line {
        Line::Constant(n) => Machine { a: cell(n as int), ..s },
        Line::Symbol(name) => Machine { a: env[name], ..s },
        Line::Label(_) => s,
        Line::Compute(d, c, _) => store(d, comp_value(c, s), s),
    }
}

/// Whether a line, run in state `s`, moves control to the address in the
/// address register.
pub open spec fn line_jumps(line: Line, s: Machine) -> bool {
    match line {
        Line::Compute(_, c, j) => jump_taken(j, comp_value(c, s)),
        _ => false,
    }
}

/// Runs `code` from line `from` until it ends or takes a jump.
pub open spec fn run_from(code: Seq<Line>, from: int, env: Env, s: Machine) -> Outcome
    decreases code.len() - from,
{
    if from < 0 || from >= code.len() {
        Outcome::Next(s)
    } else if line_jumps(code[from], s) {
        Outcome::Jump { target: s.a, state: exec_line(code[from], env, s) }
    } else {
        run_from(code, from + 1, env, exec_line(code[from], env, s))
    }
}

/// Runs `code` from its first line.
pub open spec fn run(code: Seq<Line>, env: Env, s: Machine) -> Outcome {
    run_from(code, 0, env, s)
}

/// Runs `rest` after `outcome`, unless a jump was taken already.
pub open spec fn and_then_run(outcome: Outcome, rest: Seq<Line>, env: Env) -> Outcome {
    match outcome {
        Outcome::Next(s) => run(rest, env, s),
        Outcome::Jump { target, state } => outcome,
    }
}

proof fn lemma_run_from_concat_second(a: Seq<Line>, b: Seq<Line>, j: int, env: Env, s: Machine)
    requires
        0 <= j <= b.len(),
    ensures
        run_from(a + b, a.len() + j, env, s) == run_from(b, j, env, s),
    decreases b.len() - j,
{
    if j < b.len() {
        assert((a + b)[a.len() + j] == b[j]);
        lemma_run_from_concat_second(a, b, j + 1, env, exec_line(b[j], env, s));
    }
}

proof fn lemma_run_from_concat_first(a: Seq<Line>, b: Seq<Line>, i: int, env: Env, s: Machine)
    requires
        0 <= i <= a.len(),
    ensures
        run_from(a + b, i, env, s) == and_then_run(run_from(a, i, env, s), b, env),
    decreases a.len() - i,
{
    if i < a.len() {
        assert((a + b)[i] == a[i]);
        lemma_run_from_concat_first(a, b, i + 1, env, exec_line(a[i], env, s));
    } else {
        lemma_run_from_concat_second(a, b, 0, env, s);
    }
}

/// Running two pieces of code one after the other is running the first and,
/// unless it jumped, the second from where the first ended.
pub proof fn lemma_run_concat(a: Seq<Line>, b: Seq<Line>, env: Env, s: Machine)
    ensures
        run(a + b, env, s) == and_then_run(run(a, env, s), b, env),
{
    lemma_run_from_concat_first(a, b, 0, env, s);
}

/// Whether every name stands for a 16-bit word.
pub open spec fn names_words(env: Env) -> bool {
    forall|name: Seq<char>| is_word(#[trigger] env[name])
}

/// The machine computes with 16-bit words only: where the registers and
/// the memory hold words and the names stand for words, they still do after
/// any line.
pub proof fn lemma_line_keeps_words(line: Line, env: Env, s: Machine)
    requires
        s.wf(),
        names_words(env),
    ensures
        exec_line(line, env, s).wf(),
{
    let after = exec_line(line, env, s);
    match line {
        Line::Compute(d, c, j) => {
            let v = comp_value(c, s);
            assert(is_word(s.m()));
            assert(is_word(v));
            assert forall|k: int| is_word(#[trigger] after.ram[k]) by {
                assert(is_word(s.ram[k]));
            }
        },
        _ => {},
    }
}

} // verus!
