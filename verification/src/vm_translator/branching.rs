//! What the code of the arithmetic commands, the comparisons and the
//! branching commands does to the machine.

use crate::machine::instruction::{Comp, Jump, Line};
use crate::machine::model::{
    is_word, jump_taken, run, run_from, signed, word, word_and, word_not, word_or, Env, Machine,
    Outcome,
};
use crate::machine::program::{
    labels_resolved, lemma_jump_to_label, lemma_piece_runs, lemma_reaches_on, line_of, reaches,
    Point,
};
use crate::vm_translator::code_writer::{
    compare_code, end_label, goto_code, if_code, init_code, label_code, true_label,
    two_var_arithmetic_code, unary_code,
};
use crate::vm_translator::stack::{in_stack, sp, standard_symbols};
use vstd::prelude::*;

verus! {

/// The code at the start of every program sets the stack pointer to 256.
pub proof fn lemma_init(env: Env, s: Machine)
    requires
        standard_symbols(env),
    ensures
        run(init_code(), env, s) == Outcome::Next(
            Machine { a: 0, d: 256, ram: s.ram.insert(0, 256) },
        ),
{
    reveal_with_fuel(run_from, 5);
    assert(init_code().len() == 4);
}

/// What a mnemonic of two values makes of `x`, the value below the top, and
/// `y`, the top value.
pub open spec fn binary_value(op: Comp, x: int, y: int) -> int {
    match op {
        Comp::DPlusM => word(y + x),
        Comp::MMinusD => word(x - y),
        Comp::DAndM => word_and(y, x),
        _ => word_or(y, x),
    }
}

/// `add`, `sub`, `and` and `or` take two values off the stack and put one
/// on it: the sum, the value below the top less the top value, or the
/// bitwise conjunction or disjunction. Nothing else changes.
pub proof fn lemma_two_var_arithmetic(op: Comp, env: Env, s: Machine)
    requires
        standard_symbols(env),
        op == Comp::DPlusM || op == Comp::MMinusD || op == Comp::DAndM || op == Comp::DOrM,
        in_stack(sp(s) - 2),
        in_stack(sp(s) - 1),
    ensures
        run(two_var_arithmetic_code(op), env, s) == Outcome::Next(
            Machine {
                a: sp(s) - 2,
                d: s.ram[sp(s) - 1],
                ram: s.ram.insert(0, sp(s) - 1).insert(
                    sp(s) - 2,
                    binary_value(op, s.ram[sp(s) - 2], s.ram[sp(s) - 1]),
                ),
            },
        ),
{
    reveal_with_fuel(run_from, 9);
    assert(two_var_arithmetic_code(op).len() == 8);
}

/// `neg` and `not` put the negation or the bitwise complement of the top
/// value in its place. Nothing else changes.
pub proof fn lemma_one_var_arithmetic(op: Comp, env: Env, s: Machine)
    requires
        standard_symbols(env),
        op == Comp::NegM || op == Comp::NotM,
        in_stack(sp(s) - 1),
    ensures
        run(unary_code(op), env, s) == Outcome::Next(
            Machine {
                a: sp(s) - 1,
                d: s.d,
                ram: s.ram.insert(
                    sp(s) - 1,
                    if op == Comp::NegM {
                        word(-s.ram[sp(s) - 1])
                    } else {
                        word_not(s.ram[sp(s) - 1])
                    },
                ),
            },
        ),
{
    reveal_with_fuel(run_from, 4);
    assert(unary_code(op).len() == 3);
}

/// `goto` jumps to its label.
pub proof fn lemma_goto_jumps(name: Seq<char>, env: Env, s: Machine)
    ensures
        run(goto_code(name), env, s) == (Outcome::Jump {
            target: env[name],
            state: Machine { a: env[name], ..s },
        }),
{
    reveal_with_fuel(run_from, 3);
    assert(goto_code(name).len() == 2);
}

/// `label` does nothing to the machine.
pub proof fn lemma_label_is_idle(name: Seq<char>, env: Env, s: Machine)
    ensures
        run(label_code(name), env, s) == Outcome::Next(s),
{
    reveal_with_fuel(run_from, 2);
    assert(label_code(name).len() == 1);
}

/// `if-goto` takes the top value off the stack and jumps to its label
/// unless the value is zero.
pub proof fn lemma_if_goto(name: Seq<char>, env: Env, s: Machine)
    requires
        standard_symbols(env),
        in_stack(sp(s) - 1),
    ensures
        run(if_code(name), env, s) == if s.ram[sp(s) - 1] != 0 {
            Outcome::Jump {
                target: env[name],
                state: Machine {
                    a: env[name],
                    d: s.ram[sp(s) - 1],
                    ram: s.ram.insert(0, sp(s) - 1),
                },
            }
        } else {
            Outcome::Next(
                Machine { a: env[name], d: s.ram[sp(s) - 1], ram: s.ram.insert(0, sp(s) - 1) },
            )
        },
{
    reveal_with_fuel(run_from, 8);
    assert(if_code(name).len() == 7);
}

/// The top value less the value below it, as the machine computes it.
pub open spec fn difference(s: Machine) -> int {
    word(s.ram[sp(s) - 1] - s.ram[sp(s) - 2])
}

/// The machine after a comparison: the two values are off the stack and
/// in their place stands all ones where `jump` holds of their difference,
/// zero where it does not.
pub open spec fn compared(s: Machine, jump: Jump, n: nat, env: Env) -> Machine {
    let holds = jump_taken(jump, difference(s));
    Machine {
        a: if holds {
            sp(s) - 2
        } else {
            env[end_label(n)]
        },
        d: difference(s),
        ram: s.ram.insert(0, sp(s) - 1).insert(
            sp(s) - 2,
            if holds {
                0xFFFF
            } else {
                0
            },
        ),
    }
}

/// The machine when a comparison has taken its two values and found its
/// condition to hold, before it stores the result.
spec fn decided(s: Machine, n: nat, env: Env) -> Machine {
    Machine { a: env[true_label(n)], d: difference(s), ram: s.ram.insert(0, sp(s) - 1) }
}

proof fn lemma_compare_decides(jump: Jump, n: nat, env: Env, s: Machine)
    requires
        standard_symbols(env),
        in_stack(sp(s) - 2),
        in_stack(sp(s) - 1),
    ensures
        run_from(compare_code(jump, n), 0, env, s) == if jump_taken(jump, difference(s)) {
            Outcome::Jump { target: env[true_label(n)], state: decided(s, n, env) }
        } else {
            Outcome::Jump { target: env[end_label(n)], state: compared(s, jump, n, env) }
        },
{
    reveal_with_fuel(run_from, 16);
    assert(compare_code(jump, n).len() == 20);
}

proof fn lemma_compare_stores_true(jump: Jump, n: nat, env: Env, s: Machine)
    requires
        standard_symbols(env),
        in_stack(sp(s) - 2),
        in_stack(sp(s) - 1),
        jump_taken(jump, difference(s)),
    ensures
        run_from(compare_code(jump, n), 15, env, decided(s, n, env)) == Outcome::Next(
            compared(s, jump, n, env),
        ),
{
    reveal_with_fuel(run_from, 6);
    assert(compare_code(jump, n).len() == 20);
}

proof fn lemma_compare_ends(jump: Jump, n: nat, env: Env, s: Machine)
    ensures
        run_from(compare_code(jump, n), 19, env, s) == Outcome::Next(s),
{
    reveal_with_fuel(run_from, 2);
    assert(compare_code(jump, n).len() == 20);
}

/// A comparison, wherever it stands in a program, takes two values off the
/// stack and puts its verdict on it.
///
/// Where the program holds the code of a comparison from line `at` on and
/// its labels stand for their addresses, execution from `at` comes to the
/// line behind the code. The stack is then one shorter, and on top of it
/// stands all ones where the condition holds of the top value less the value
/// below it, and zero where it does not. Nothing else changes.
pub proof fn lemma_compare(code: Seq<Line>, at: int, jump: Jump, n: nat, env: Env, s: Machine)
    requires
        standard_symbols(env),
        labels_resolved(code, env),
        0 <= at,
        at + 20 <= code.len(),
        code.subrange(at, at + 20) == compare_code(jump, n),
        in_stack(sp(s) - 2),
        in_stack(sp(s) - 1),
    ensures
        reaches(
            code,
            env,
            Point { state: s, at },
            Point { state: compared(s, jump, n, env), at: at + 20 },
        ),
{
    let piece = compare_code(jump, n);
    assert(piece.len() == 20);
    let start = Point { state: s, at };
    let end = Point { state: compared(s, jump, n, env), at: at + 20 };
    lemma_compare_decides(jump, n, env, s);
    lemma_piece_runs(code, at, piece, 0, env, s);
    if jump_taken(jump, difference(s)) {
        let t = decided(s, n, env);
        assert(code[at + 15] == piece[15]);
        assert(piece[15] == Line::Label(true_label(n)));
        lemma_jump_to_label(code, env, t, at + 15);
        lemma_reaches_on(
            code,
            env,
            start,
            Point { state: t, at: line_of(code, env[true_label(n)]) },
            Point { state: t, at: at + 15 },
        );
        lemma_compare_stores_true(jump, n, env, s);
        lemma_piece_runs(code, at, piece, 15, env, t);
        lemma_reaches_on(code, env, start, Point { state: t, at: at + 15 }, end);
    } else {
        let f = compared(s, jump, n, env);
        assert(code[at + 19] == piece[19]);
        assert(piece[19] == Line::Label(end_label(n)));
        lemma_jump_to_label(code, env, f, at + 19);
        lemma_reaches_on(
            code,
            env,
            start,
            Point { state: f, at: line_of(code, env[end_label(n)]) },
            Point { state: f, at: at + 19 },
        );
        lemma_compare_ends(jump, n, env, f);
        lemma_piece_runs(code, at, piece, 19, env, f);
        lemma_reaches_on(code, env, start, Point { state: f, at: at + 19 }, end);
    }
}

/// What the three comparisons decide: `eq` holds where the two values are
/// equal; `gt` where the value below the top is greater than the top value
/// and `lt` where it is less, both read as signed numbers that are less
/// than 32768 apart.
pub proof fn lemma_comparisons_decide(x: int, y: int)
    requires
        is_word(x),
        is_word(y),
    ensures
        jump_taken(Jump::Equal, word(y - x)) <==> x == y,
        -0x8000 < signed(x) - signed(y) < 0x8000 ==> (jump_taken(Jump::Less, word(y - x)) <==> signed(
            x,
        ) > signed(y)),
        -0x8000 < signed(x) - signed(y) < 0x8000 ==> (jump_taken(Jump::Greater, word(y - x))
            <==> signed(x) < signed(y)),
{
}

} // verus!
