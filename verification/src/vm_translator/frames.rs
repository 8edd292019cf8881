//! What the code of `call` and `return` does to the machine.

use crate::machine::instruction::{Comp, Line};
use crate::machine::model::{cell, lemma_run_concat, run, run_from, word, Env, Machine, Outcome};
use crate::machine::program::{
    end_of, labels_resolved, lemma_jump_to_label, lemma_piece_runs, lemma_reaches_on, line_of,
    reaches, Point,
};
use crate::text::{decimal_value, is_u32_literal};
use crate::vm_translator::branching::lemma_goto_jumps;
use crate::vm_translator::code_writer::{
    at, call_code, function_code, goto_code, jump_back_code, label_code, loop_end_label,
    loop_start_label, number_argument, place_result_code, push_reg_code, reposition_arg_code,
    reposition_lcl_code, restore_register_code, restore_sp_code, return_code, save_frame_code,
    save_register_code, save_return_address_code, set_d, translate, TranslationErrorKind,
    WriterState,
};
use crate::vm_translator::parser::{CommandType, CommandView};
use crate::vm_translator::stack::{in_stack, pushed, sp, standard_symbols};
use vstd::prelude::*;

verus! {

/// The memory after a call: the return address and the caller's four
/// registers stand on the stack in that order, `ARG` points to the first
/// argument, and `LCL` and the stack pointer point above the five saved words.
pub open spec fn called_ram(s: Machine, n_args: nat, return_address: int) -> Map<int, int> {
    s.ram.insert(sp(s), return_address).insert(sp(s) + 1, s.ram[1]).insert(
        sp(s) + 2,
        s.ram[2],
    ).insert(sp(s) + 3, s.ram[3]).insert(sp(s) + 4, s.ram[4]).insert(0, sp(s) + 5).insert(
        2,
        sp(s) - n_args,
    ).insert(1, sp(s) + 5)
}

proof fn lemma_push_address(name: Seq<char>, env: Env, s: Machine)
    requires
        standard_symbols(env),
        in_stack(sp(s)),
    ensures
        run(seq![at(name), set_d(Comp::A)] + push_reg_code(Comp::D), env, s) == Outcome::Next(
            pushed(s, env[name]),
        ),
{
    reveal_with_fuel(run_from, 8);
    assert((seq![at(name), set_d(Comp::A)] + push_reg_code(Comp::D)).len() == 7);
}

proof fn lemma_save_register(register: Seq<char>, at: int, env: Env, s: Machine)
    requires
        standard_symbols(env),
        env[register] == at,
        1 <= at <= 4,
        in_stack(sp(s)),
    ensures
        run(save_register_code(register), env, s) == Outcome::Next(pushed(s, s.ram[at])),
{
    reveal_with_fuel(run_from, 8);
    assert(save_register_code(register).len() == 7);
}

proof fn lemma_reposition_arg(n_args: nat, env: Env, s: Machine)
    requires
        standard_symbols(env),
        n_args < 0x8000,
    ensures
        run(reposition_arg_code(n_args), env, s) == Outcome::Next(
            Machine {
                a: 2,
                d: word(sp(s) - (5 + n_args)),
                ram: s.ram.insert(2, word(sp(s) - (5 + n_args))),
            },
        ),
{
    reveal_with_fuel(run_from, 9);
    assert(reposition_arg_code(n_args).len() == 8);
}

proof fn lemma_reposition_lcl(env: Env, s: Machine)
    requires
        standard_symbols(env),
    ensures
        run(reposition_lcl_code(), env, s) == Outcome::Next(
            Machine { a: 1, d: sp(s), ram: s.ram.insert(1, sp(s)) },
        ),
{
    reveal_with_fuel(run_from, 5);
    assert(reposition_lcl_code().len() == 4);
}

/// A call pushes the return address and the caller's `LCL`, `ARG`, `THIS`
/// and `THAT`, points `ARG` at the first of the `n_args` arguments and `LCL`
/// above the saved words, and jumps to the function.
pub proof fn lemma_call(name: Seq<char>, n_args: nat, return_to: Seq<char>, env: Env, s: Machine)
    requires
        standard_symbols(env),
        in_stack(sp(s)),
        in_stack(sp(s) + 5),
        in_stack(sp(s) - n_args),
    ensures
        run(call_code(name, n_args, return_to), env, s) == (Outcome::Jump {
            target: env[name],
            state: Machine {
                a: env[name],
                d: sp(s) + 5,
                ram: called_ram(s, n_args, env[return_to]),
            },
        }),
{
    let c1 = seq![at(return_to), set_d(Comp::A)] + push_reg_code(Comp::D);
    let c2 = c1 + save_register_code("LCL"@);
    let c3 = c2 + save_register_code("ARG"@);
    let c4 = c3 + save_register_code("THIS"@);
    let c5 = c4 + save_register_code("THAT"@);
    let c6 = c5 + reposition_arg_code(n_args);
    let c7 = c6 + reposition_lcl_code();
    let c8 = c7 + goto_code(name);
    let c9 = c8 + label_code(return_to);
    assert(c9 == call_code(name, n_args, return_to));

    lemma_push_address(return_to, env, s);
    let s1 = pushed(s, env[return_to]);
    lemma_run_concat(c1, save_register_code("LCL"@), env, s);
    lemma_save_register("LCL"@, 1, env, s1);
    let s2 = pushed(s1, s1.ram[1]);
    assert(run(c2, env, s) == Outcome::Next(s2));
    lemma_run_concat(c2, save_register_code("ARG"@), env, s);
    lemma_save_register("ARG"@, 2, env, s2);
    let s3 = pushed(s2, s2.ram[2]);
    assert(run(c3, env, s) == Outcome::Next(s3));
    lemma_run_concat(c3, save_register_code("THIS"@), env, s);
    lemma_save_register("THIS"@, 3, env, s3);
    let s4 = pushed(s3, s3.ram[3]);
    assert(run(c4, env, s) == Outcome::Next(s4));
    lemma_run_concat(c4, save_register_code("THAT"@), env, s);
    lemma_save_register("THAT"@, 4, env, s4);
    let s5 = pushed(s4, s4.ram[4]);
    assert(run(c5, env, s) == Outcome::Next(s5));
    lemma_run_concat(c5, reposition_arg_code(n_args), env, s);
    lemma_reposition_arg(n_args, env, s5);
    let s6 = Machine {
        a: 2,
        d: word(sp(s5) - (5 + n_args)),
        ram: s5.ram.insert(2, word(sp(s5) - (5 + n_args))),
    };
    assert(run(c6, env, s) == Outcome::Next(s6));
    lemma_run_concat(c6, reposition_lcl_code(), env, s);
    lemma_reposition_lcl(env, s6);
    let s7 = Machine { a: 1, d: sp(s6), ram: s6.ram.insert(1, sp(s6)) };
    assert(run(c7, env, s) == Outcome::Next(s7));
    lemma_run_concat(c7, goto_code(name), env, s);
    lemma_goto_jumps(name, env, s7);
    lemma_run_concat(c8, label_code(return_to), env, s);
    assert(s7.ram =~= called_ram(s, n_args, env[return_to]));
}

/// The two variables that the code of `return` keeps the frame and the
/// return address in are different cells below the stack and above the
/// registers.
pub open spec fn return_variables(env: Env) -> bool {
    &&& 16 <= env["FRAME"@] < 256
    &&& 16 <= env["RET"@] < 256
    &&& env["FRAME"@] != env["RET"@]
}

/// Whether the machine holds a frame that a `return` can undo: `ARG` points
/// into the stack, the five saved words lie above it and below `LCL`, and
/// above `LCL` the stack holds at least the value to return.
pub open spec fn has_frame(s: Machine) -> bool {
    &&& in_stack(s.ram[2])
    &&& s.ram[2] + 5 <= s.ram[1]
    &&& s.ram[1] < sp(s)
    &&& in_stack(sp(s) - 1)
}

proof fn lemma_save_frame(env: Env, s: Machine)
    requires
        standard_symbols(env),
    ensures
        run(save_frame_code(), env, s) == Outcome::Next(
            Machine { a: env["FRAME"@], d: s.ram[1], ram: s.ram.insert(cell(env["FRAME"@]), s.ram[1]) },
        ),
{
    reveal_with_fuel(run_from, 5);
    assert(save_frame_code().len() == 4);
}

proof fn lemma_save_return_address(env: Env, s: Machine)
    requires
        standard_symbols(env),
    ensures
        run(save_return_address_code(), env, s) == Outcome::Next(
            Machine {
                a: env["RET"@],
                d: s.ram[cell(word(s.ram[cell(env["FRAME"@])] - 5))],
                ram: s.ram.insert(
                    cell(env["RET"@]),
                    s.ram[cell(word(s.ram[cell(env["FRAME"@])] - 5))],
                ),
            },
        ),
{
    reveal_with_fuel(run_from, 9);
    assert(save_return_address_code().len() == 8);
}

proof fn lemma_place_result(env: Env, s: Machine)
    requires
        standard_symbols(env),
        in_stack(sp(s) - 1),
    ensures
        run(place_result_code(), env, s) == Outcome::Next(
            Machine {
                a: s.ram[2],
                d: s.ram[sp(s) - 1],
                ram: s.ram.insert(0, sp(s) - 1).insert(cell(s.ram[2]), s.ram[sp(s) - 1]),
            },
        ),
{
    reveal_with_fuel(run_from, 9);
    assert(place_result_code().len() == 8);
}

proof fn lemma_restore_sp(env: Env, s: Machine)
    requires
        standard_symbols(env),
    ensures
        run(restore_sp_code(), env, s) == Outcome::Next(
            Machine { a: 0, d: word(s.ram[2] + 1), ram: s.ram.insert(0, word(s.ram[2] + 1)) },
        ),
{
    reveal_with_fuel(run_from, 5);
    assert(restore_sp_code().len() == 4);
}

/// The machine after `FRAME` has stepped down and the word it then points
/// to has been loaded into cell `at`.
spec fn restored(s: Machine, frame: int, at: int) -> Machine {
    let stepped = s.ram.insert(cell(frame), word(s.ram[cell(frame)] - 1));
    let value = stepped[cell(stepped[cell(frame)])];
    Machine { a: at, d: value, ram: stepped.insert(at, value) }
}

proof fn lemma_restore_register(register: Seq<char>, at: int, env: Env, s: Machine)
    requires
        standard_symbols(env),
        env[register] == at,
        1 <= at <= 4,
    ensures
        run(restore_register_code(register), env, s) == Outcome::Next(
            restored(s, env["FRAME"@], at),
        ),
{
    reveal_with_fuel(run_from, 7);
    assert(restore_register_code(register).len() == 6);
}

proof fn lemma_jump_back(env: Env, s: Machine)
    ensures
        run(jump_back_code(), env, s) == (Outcome::Jump {
            target: s.ram[cell(env["RET"@])],
            state: Machine { a: s.ram[cell(env["RET"@])], ..s },
        }),
{
    reveal_with_fuel(run_from, 4);
    assert(jump_back_code().len() == 3);
}

/// The code of `return` up to the point where the stack pointer is set.
spec fn return_takes_code() -> Seq<Line> {
    save_frame_code() + save_return_address_code() + place_result_code() + restore_sp_code()
}

/// The code of `return` from the point where the registers are restored.
spec fn return_restores_code() -> Seq<Line> {
    restore_register_code("THAT"@) + restore_register_code("THIS"@) + restore_register_code(
        "ARG"@,
    ) + restore_register_code("LCL"@) + jump_back_code()
}

/// The machine when a return has put by the frame and the return address,
/// handed the result over and set the stack pointer.
spec fn taken(env: Env, s: Machine) -> Machine {
    Machine {
        a: 0,
        d: s.ram[2] + 1,
        ram: s.ram.insert(env["FRAME"@], s.ram[1]).insert(env["RET"@], s.ram[s.ram[1] - 5]).insert(
            0,
            sp(s) - 1,
        ).insert(s.ram[2], s.ram[sp(s) - 1]).insert(0, s.ram[2] + 1),
    }
}

proof fn lemma_return_takes(env: Env, s: Machine)
    requires
        standard_symbols(env),
        return_variables(env),
        has_frame(s),
    ensures
        run(return_takes_code(), env, s) == Outcome::Next(taken(env, s)),
{
    let frame_at = env["FRAME"@];
    let c1 = save_frame_code();
    let c2 = c1 + save_return_address_code();
    let c3 = c2 + place_result_code();
    let c4 = c3 + restore_sp_code();
    assert(c4 == return_takes_code());
    lemma_save_frame(env, s);
    let s1 = Machine { a: frame_at, d: s.ram[1], ram: s.ram.insert(cell(frame_at), s.ram[1]) };
    lemma_run_concat(c1, save_return_address_code(), env, s);
    lemma_save_return_address(env, s1);
    let address = s1.ram[cell(word(s1.ram[cell(frame_at)] - 5))];
    let s2 = Machine { a: env["RET"@], d: address, ram: s1.ram.insert(cell(env["RET"@]), address) };
    assert(run(c2, env, s) == Outcome::Next(s2));
    assert(address == s.ram[s.ram[1] - 5]);
    lemma_run_concat(c2, place_result_code(), env, s);
    lemma_place_result(env, s2);
    let s3 = Machine {
        a: s2.ram[2],
        d: s2.ram[sp(s2) - 1],
        ram: s2.ram.insert(0, sp(s2) - 1).insert(cell(s2.ram[2]), s2.ram[sp(s2) - 1]),
    };
    assert(run(c3, env, s) == Outcome::Next(s3));
    lemma_run_concat(c3, restore_sp_code(), env, s);
    lemma_restore_sp(env, s3);
    let s4 = Machine { a: 0, d: word(s3.ram[2] + 1), ram: s3.ram.insert(0, word(s3.ram[2] + 1)) };
    assert(run(c4, env, s) == Outcome::Next(s4));
    assert(s4.ram =~= taken(env, s).ram);
}

proof fn lemma_return_restores(env: Env, t: Machine)
    requires
        standard_symbols(env),
        return_variables(env),
        in_stack(t.ram[env["FRAME"@]] - 4),
        in_stack(t.ram[env["FRAME"@]] - 1),
    ensures
        run(return_restores_code(), env, t) is Jump,
        ({
            let target = run(return_restores_code(), env, t)->target;
            let after = run(return_restores_code(), env, t)->state;
            let frame = t.ram[env["FRAME"@]];
            &&& target == t.ram[env["RET"@]]
            &&& after.ram[4] == t.ram[frame - 1]
            &&& after.ram[3] == t.ram[frame - 2]
            &&& after.ram[2] == t.ram[frame - 3]
            &&& after.ram[1] == t.ram[frame - 4]
            &&& forall|k: int|
                !(1 <= k <= 4) && k != env["FRAME"@] ==> #[trigger] after.ram[k] == t.ram[k]
        }),
{
    let frame_at = env["FRAME"@];
    let c5 = restore_register_code("THAT"@);
    let c6 = c5 + restore_register_code("THIS"@);
    let c7 = c6 + restore_register_code("ARG"@);
    let c8 = c7 + restore_register_code("LCL"@);
    let c9 = c8 + jump_back_code();
    assert(c9 == return_restores_code());
    lemma_restore_register("THAT"@, 4, env, t);
    let s5 = restored(t, frame_at, 4);
    lemma_run_concat(c5, restore_register_code("THIS"@), env, t);
    lemma_restore_register("THIS"@, 3, env, s5);
    let s6 = restored(s5, frame_at, 3);
    assert(run(c6, env, t) == Outcome::Next(s6));
    lemma_run_concat(c6, restore_register_code("ARG"@), env, t);
    lemma_restore_register("ARG"@, 2, env, s6);
    let s7 = restored(s6, frame_at, 2);
    assert(run(c7, env, t) == Outcome::Next(s7));
    lemma_run_concat(c7, restore_register_code("LCL"@), env, t);
    lemma_restore_register("LCL"@, 1, env, s7);
    let s8 = restored(s7, frame_at, 1);
    assert(run(c8, env, t) == Outcome::Next(s8));
    lemma_run_concat(c8, jump_back_code(), env, t);
    lemma_jump_back(env, s8);
    assert(s5.ram[frame_at] == t.ram[frame_at] - 1);
    assert(s6.ram[frame_at] == t.ram[frame_at] - 2);
    assert(s7.ram[frame_at] == t.ram[frame_at] - 3);
    assert(s8.ram[frame_at] == t.ram[frame_at] - 4);
}

/// A return hands the top of the stack to the caller and undoes the frame.
///
/// It jumps to the address saved five cells below `LCL`. The word that was
/// on top of the stack then stands where `ARG` pointed, the stack pointer
/// points directly above it, and `THAT`, `THIS`, `ARG` and `LCL` hold the
/// words saved one, two, three and four cells below the old `LCL`. No other
/// cell changes but the two variables of the code itself. This holds also
/// where the callee had no argument, so that `ARG` points at the saved
/// return address, and where it has no local variable.
pub proof fn lemma_return(env: Env, s: Machine)
    requires
        standard_symbols(env),
        return_variables(env),
        has_frame(s),
    ensures
        run(return_code(), env, s) is Jump,
        ({
            let target = run(return_code(), env, s)->target;
            let after = run(return_code(), env, s)->state;
            let frame = s.ram[1];
            let arg = s.ram[2];
            &&& target == s.ram[frame - 5]
            &&& sp(after) == arg + 1
            &&& after.ram[arg] == s.ram[sp(s) - 1]
            &&& after.ram[4] == s.ram[frame - 1]
            &&& after.ram[3] == s.ram[frame - 2]
            &&& after.ram[2] == s.ram[frame - 3]
            &&& after.ram[1] == s.ram[frame - 4]
            &&& forall|k: int|
                k > 4 && k != arg && k != env["FRAME"@] && k != env["RET"@] ==> after.ram[k]
                    == s.ram[k]
        }),
{
    assert(return_code() =~= return_takes_code() + return_restores_code());
    lemma_run_concat(return_takes_code(), return_restores_code(), env, s);
    lemma_return_takes(env, s);
    lemma_return_restores(env, taken(env, s));
}

/// A call followed by the callee's return gives the caller the result in
/// place of the arguments.
///
/// `s` is the machine at the call and `r` the machine when the callee
/// starts to return: `LCL` and `ARG` as the call set them, the five saved
/// words untouched, and a value to return on the stack above them. The
/// return then jumps to the label behind the call. The stack pointer is the
/// one at the call less the number of arguments plus one, the word on top of
/// the stack is the one that was on top when the return began, and `LCL`,
/// `ARG`, `THIS` and `THAT` are what they were at the call.
pub proof fn lemma_call_and_return(
    name: Seq<char>,
    n_args: nat,
    return_to: Seq<char>,
    env: Env,
    s: Machine,
    r: Machine,
)
    requires
        standard_symbols(env),
        return_variables(env),
        in_stack(sp(s)),
        in_stack(sp(s) + 5),
        in_stack(sp(s) - n_args),
        r.ram[1] == sp(s) + 5,
        r.ram[2] == sp(s) - n_args,
        forall|k: int|
            sp(s) <= k < sp(s) + 5 ==> r.ram[k] == called_ram(s, n_args, env[return_to])[k],
        sp(r) > sp(s) + 5,
        in_stack(sp(r) - 1),
    ensures
        run(call_code(name, n_args, return_to), env, s) is Jump,
        run(call_code(name, n_args, return_to), env, s)->target == env[name],
        run(call_code(name, n_args, return_to), env, s)->state.ram[1] == sp(s) + 5,
        run(call_code(name, n_args, return_to), env, s)->state.ram[2] == sp(s) - n_args,
        run(return_code(), env, r) is Jump,
        ({
            let after = run(return_code(), env, r)->state;
            &&& run(return_code(), env, r)->target == env[return_to]
            &&& sp(after) == sp(s) - n_args + 1
            &&& after.ram[sp(after) - 1] == r.ram[sp(r) - 1]
            &&& after.ram[1] == s.ram[1]
            &&& after.ram[2] == s.ram[2]
            &&& after.ram[3] == s.ram[3]
            &&& after.ram[4] == s.ram[4]
        }),
{
    lemma_call(name, n_args, return_to, env, s);
    lemma_return(env, r);
}

/// A call without arguments points `ARG` five cells below the stack
/// pointer it leaves: at the first of the saved words.
pub proof fn lemma_call_without_arguments(
    name: Seq<char>,
    return_to: Seq<char>,
    env: Env,
    s: Machine,
)
    requires
        standard_symbols(env),
        in_stack(sp(s)),
        in_stack(sp(s) + 5),
    ensures
        run(call_code(name, 0, return_to), env, s) is Jump,
        ({
            let after = run(call_code(name, 0, return_to), env, s)->state;
            &&& after.ram[2] == sp(after) - 5
            &&& after.ram[2] == sp(s)
            &&& after.ram[1] == sp(after)
        }),
{
    lemma_call(name, 0, return_to, env, s);
}

/// The two variables that the code of `function` counts with are different
/// cells below the stack and above the registers.
pub open spec fn loop_variables(env: Env) -> bool {
    &&& 16 <= env["nVars"@] < 256
    &&& 16 <= env["i"@] < 256
    &&& env["nVars"@] != env["i"@]
}

/// Whether `t` is the machine `s` with `j` zeros pushed onto its stack, but
/// for the registers and the two variables of the loop.
pub open spec fn cleared(s: Machine, t: Machine, j: int, env: Env) -> bool {
    &&& sp(t) == sp(s) + j
    &&& forall|c: int| sp(s) <= c < sp(s) + j ==> #[trigger] t.ram[c] == 0
    &&& forall|c: int|
        c != 0 && c != env["nVars"@] && c != env["i"@] && !(sp(s) <= c < sp(s) + j)
            ==> #[trigger] t.ram[c] == s.ram[c]
}

/// Whether `t` is at the head of the loop of a function with `k` local
/// variables that was entered in `s` and has cleared `j` of them.
spec fn at_head(s: Machine, t: Machine, k: int, j: int, env: Env) -> bool {
    &&& cleared(s, t, j, env)
    &&& t.ram[env["nVars"@]] == k
    &&& t.ram[env["i"@]] == j
}

proof fn lemma_function_setup(name: Seq<char>, k: nat, n: nat, env: Env, s: Machine)
    requires
        loop_variables(env),
        k < 0x8000,
    ensures
        run(function_code(name, k, n).subrange(0, 7), env, s) == Outcome::Next(
            Machine {
                a: env["i"@],
                d: k as int,
                ram: s.ram.insert(env["nVars"@], k as int).insert(env["i"@], 0),
            },
        ),
{
    reveal_with_fuel(run_from, 8);
    let piece = function_code(name, k, n).subrange(0, 7);
    assert(piece.len() == 7);
}

proof fn lemma_function_pass(name: Seq<char>, k: nat, n: nat, env: Env, s: Machine)
    requires
        standard_symbols(env),
        loop_variables(env),
        256 <= sp(s) <= 2048,
    ensures
        run_from(function_code(name, k, n), 7, env, s) == if word(
            s.ram[env["nVars"@]] - s.ram[env["i"@]],
        ) == 0 {
            Outcome::Jump {
                target: env[loop_end_label(n)],
                state: Machine { a: env[loop_end_label(n)], d: 0, ram: s.ram },
            }
        } else {
            Outcome::Jump {
                target: env[loop_start_label(n)],
                state: Machine {
                    a: env[loop_start_label(n)],
                    d: word(s.ram[env["nVars"@]] - s.ram[env["i"@]]),
                    ram: s.ram.insert(sp(s), 0).insert(0, sp(s) + 1).insert(
                        env["i"@],
                        word(s.ram[env["i"@]] + 1),
                    ),
                },
            }
        },
        run_from(function_code(name, k, n), 23, env, s) == Outcome::Next(s),
{
    reveal_with_fuel(run_from, 17);
    assert(function_code(name, k, n).len() == 24);
}

proof fn lemma_function_loop(
    code: Seq<Line>,
    at: int,
    name: Seq<char>,
    k: nat,
    n: nat,
    env: Env,
    s: Machine,
    t: Machine,
    j: int,
)
    requires
        standard_symbols(env),
        loop_variables(env),
        labels_resolved(code, env),
        0 <= at,
        at + 24 <= code.len(),
        code.subrange(at, at + 24) == function_code(name, k, n),
        in_stack(sp(s)),
        sp(s) + k <= 2048,
        0 <= j <= k,
        at_head(s, t, k as int, j, env),
    ensures
        exists|u: Machine|
            cleared(s, u, k as int, env) && #[trigger] reaches(
                code,
                env,
                Point { state: t, at: at + 7 },
                Point { state: u, at: at + 24 },
            ),
    decreases k - j,
{
    let piece = function_code(name, k, n);
    assert(piece.len() == 24);
    let head = Point { state: t, at: at + 7 };
    lemma_function_pass(name, k, n, env, t);
    lemma_piece_runs(code, at, piece, 7, env, t);
    if j == k {
        let u = Machine { a: env[loop_end_label(n)], d: 0, ram: t.ram };
        assert(code[at + 23] == piece[23]);
        assert(piece[23] == Line::Label(loop_end_label(n)));
        lemma_jump_to_label(code, env, u, at + 23);
        lemma_reaches_on(
            code,
            env,
            head,
            Point { state: u, at: line_of(code, env[loop_end_label(n)]) },
            Point { state: u, at: at + 23 },
        );
        lemma_function_pass(name, k, n, env, u);
        lemma_piece_runs(code, at, piece, 23, env, u);
        lemma_reaches_on(
            code,
            env,
            head,
            Point { state: u, at: at + 23 },
            Point { state: u, at: at + 24 },
        );
        assert(cleared(s, u, k as int, env));
    } else {
        let next = Machine {
            a: env[loop_start_label(n)],
            d: word(t.ram[env["nVars"@]] - t.ram[env["i"@]]),
            ram: t.ram.insert(sp(t), 0).insert(0, sp(t) + 1).insert(
                env["i"@],
                word(t.ram[env["i"@]] + 1),
            ),
        };
        assert(code[at + 7] == piece[7]);
        assert(piece[7] == Line::Label(loop_start_label(n)));
        lemma_jump_to_label(code, env, next, at + 7);
        let again = Point { state: next, at: at + 7 };
        lemma_reaches_on(
            code,
            env,
            head,
            Point { state: next, at: line_of(code, env[loop_start_label(n)]) },
            again,
        );
        assert(at_head(s, next, k as int, j + 1, env));
        lemma_function_loop(code, at, name, k, n, env, s, next, j + 1);
        let u = choose|u: Machine|
            cleared(s, u, k as int, env) && #[trigger] reaches(
                code,
                env,
                again,
                Point { state: u, at: at + 24 },
            );
        lemma_reaches_on(code, env, head, again, Point { state: u, at: at + 24 });
    }
}

/// A function, wherever it stands in a program, first pushes a zero for
/// each of its local variables.
///
/// Where the program holds the code of `function` with `k` local variables
/// from line `at` on and its labels stand for their addresses, execution
/// from `at` comes to the line behind the code. The stack then holds `k`
/// zeros more, and nothing else has changed but the two variables of the
/// loop. With no local variable the stack pointer is what it was.
pub proof fn lemma_function(
    code: Seq<Line>,
    at: int,
    name: Seq<char>,
    k: nat,
    n: nat,
    env: Env,
    s: Machine,
)
    requires
        standard_symbols(env),
        loop_variables(env),
        labels_resolved(code, env),
        0 <= at,
        at + 24 <= code.len(),
        code.subrange(at, at + 24) == function_code(name, k, n),
        in_stack(sp(s)),
        sp(s) + k <= 2048,
    ensures
        exists|u: Machine|
            cleared(s, u, k as int, env) && #[trigger] reaches(
                code,
                env,
                Point { state: s, at },
                Point { state: u, at: at + 24 },
            ),
{
    let piece = function_code(name, k, n);
    assert(piece.len() == 24);
    let setup = piece.subrange(0, 7);
    assert(code.subrange(at, at + 7) =~= setup);
    lemma_function_setup(name, k, n, env, s);
    lemma_piece_runs(code, at, setup, 0, env, s);
    let t = Machine {
        a: env["i"@],
        d: k as int,
        ram: s.ram.insert(env["nVars"@], k as int).insert(env["i"@], 0),
    };
    let start = Point { state: s, at };
    let head = Point { state: t, at: at + 7 };
    assert(reaches(code, env, start, head));
    assert(at_head(s, t, k as int, 0, env));
    lemma_function_loop(code, at, name, k, n, env, s, t, 0);
    let u = choose|u: Machine|
        cleared(s, u, k as int, env) && #[trigger] reaches(
            code,
            env,
            head,
            Point { state: u, at: at + 24 },
        );
    lemma_reaches_on(code, env, start, head, Point { state: u, at: at + 24 });
}

/// A function without local variables and a call without arguments can be
/// translated: `0` is a count, and nothing else can keep a `function` or a
/// `call` from being translated but a counter that is used up.
pub proof fn lemma_zero_is_a_count(c: CommandView, w: WriterState)
    requires
        c.command_type == CommandType::Function || c.command_type == CommandType::Call,
        c.arg2 == Some("0"@),
        w.function_init_counter < u32::MAX,
        w.return_counter < u32::MAX,
    ensures
        number_argument(c) == Ok::<nat, TranslationErrorKind>(0),
        translate(c, w) is Ok,
{
    reveal_strlit("0");
    let zero = "0"@;
    assert(zero.len() == 1 && zero[0] == '0');
    assert(zero.drop_last().len() == 0);
    reveal_with_fuel(decimal_value, 2);
    assert(decimal_value(zero) == 0);
    assert(is_u32_literal(zero));
}

/// A function without local variables pushes nothing.
///
/// `function f 0` can be translated. Its code begins with the entry label
/// of `f`, and wherever it stands in a program, execution from its first
/// line comes to the line behind it with the stack pointer and every other
/// cell but the two variables of the loop as they were.
pub proof fn lemma_function_without_locals(
    code: Seq<Line>,
    at: int,
    name: Seq<char>,
    n: nat,
    env: Env,
    s: Machine,
)
    requires
        standard_symbols(env),
        loop_variables(env),
        labels_resolved(code, env),
        0 <= at,
        at + 24 <= code.len(),
        code.subrange(at, at + 24) == function_code(name, 0, n),
        in_stack(sp(s)),
    ensures
        function_code(name, 0, n)[0] == Line::Label(name),
        exists|u: Machine|
            {
                &&& #[trigger] reaches(
                    code,
                    env,
                    Point { state: s, at },
                    Point { state: u, at: at + 24 },
                )
                &&& sp(u) == sp(s)
                &&& forall|c: int|
                    c != env["nVars"@] && c != env["i"@] ==> #[trigger] u.ram[c] == s.ram[c]
            },
{
    lemma_function(code, at, name, 0, n, env, s);
    let u = choose|u: Machine|
        cleared(s, u, 0, env) && #[trigger] reaches(
            code,
            env,
            Point { state: s, at },
            Point { state: u, at: at + 24 },
        );
    assert forall|c: int| c != env["nVars"@] && c != env["i"@] implies #[trigger] u.ram[c]
        == s.ram[c] by {
        if c != 0 {
            assert(!(sp(s) <= c < sp(s) + 0));
        }
    }
}

/// A function that returns at once hands a zero to its caller.
///
/// Where a program holds the code of `function` with at least one local
/// variable and directly behind it the code of `return`, and execution
/// enters it as a call leaves the machine, with `LCL` at the stack pointer
/// and the five saved words below it, then execution comes to the line of
/// the saved return address. The stack pointer is then one above where
/// `ARG` pointed, the word below it is zero, the last of the local
/// variables, and `LCL`, `ARG`, `THIS` and `THAT` hold the saved words.
pub proof fn lemma_function_then_return(
    code: Seq<Line>,
    at: int,
    name: Seq<char>,
    k: nat,
    n: nat,
    env: Env,
    s: Machine,
)
    requires
        standard_symbols(env),
        loop_variables(env),
        return_variables(env),
        labels_resolved(code, env),
        0 <= at,
        at + 24 + return_code().len() <= code.len(),
        code.subrange(at, at + 24) == function_code(name, k, n),
        code.subrange(at + 24, at + 24 + return_code().len()) == return_code(),
        k >= 1,
        in_stack(sp(s)),
        sp(s) + k <= 2048,
        s.ram[1] == sp(s),
        in_stack(s.ram[2]),
        s.ram[2] + 5 <= sp(s),
    ensures
        exists|v: Machine|
            {
                &&& #[trigger] reaches(
                    code,
                    env,
                    Point { state: s, at },
                    Point { state: v, at: line_of(code, s.ram[sp(s) - 5]) },
                )
                &&& sp(v) == s.ram[2] + 1
                &&& v.ram[s.ram[2]] == 0
                &&& v.ram[1] == s.ram[sp(s) - 4]
                &&& v.ram[2] == s.ram[sp(s) - 3]
                &&& v.ram[3] == s.ram[sp(s) - 2]
                &&& v.ram[4] == s.ram[sp(s) - 1]
            },
{
    lemma_function(code, at, name, k, n, env, s);
    let start = Point { state: s, at };
    let u = choose|u: Machine|
        cleared(s, u, k as int, env) && #[trigger] reaches(
            code,
            env,
            start,
            Point { state: u, at: at + 24 },
        );
    assert(u.ram[1] == s.ram[1] && u.ram[2] == s.ram[2]);
    assert(u.ram[sp(u) - 1] == 0);
    assert forall|c: int| sp(s) - 5 <= c < sp(s) implies #[trigger] u.ram[c] == s.ram[c] by {}
    assert(has_frame(u));
    lemma_return(env, u);
    lemma_piece_runs(code, at + 24, return_code(), 0, env, u);
    let outcome = run(return_code(), env, u);
    let v = outcome->state;
    let end = end_of(code, at + 24, return_code().len() as int, outcome);
    assert(end == Point { state: v, at: line_of(code, s.ram[sp(s) - 5]) });
    lemma_reaches_on(code, env, start, Point { state: u, at: at + 24 }, end);
}

/// A call of a function that returns at once comes back behind the call
/// with a zero in place of the arguments.
///
/// Where a program holds the code of `call f n` and, anywhere, the code of
/// `function f k` with at least one local variable and the code of `return`
/// directly behind it, execution from the call comes to the return label
/// behind the call. The stack pointer is then the one at the call less the
/// number of arguments plus one, the word on top of the stack is the zero
/// that the function returned, and `LCL`, `ARG`, `THIS` and `THAT` are what
/// they were at the call.
pub proof fn lemma_call_runs_and_returns(
    code: Seq<Line>,
    call_at: int,
    function_at: int,
    name: Seq<char>,
    n_args: nat,
    k: nat,
    n: nat,
    return_to: Seq<char>,
    env: Env,
    s: Machine,
)
    requires
        standard_symbols(env),
        loop_variables(env),
        return_variables(env),
        labels_resolved(code, env),
        0 <= call_at,
        call_at + 50 <= code.len(),
        code.subrange(call_at, call_at + 50) == call_code(name, n_args, return_to),
        0 <= function_at,
        function_at + 24 + return_code().len() <= code.len(),
        code.subrange(function_at, function_at + 24) == function_code(name, k, n),
        code.subrange(function_at + 24, function_at + 24 + return_code().len())
            == return_code(),
        k >= 1,
        in_stack(sp(s)),
        in_stack(sp(s) - n_args),
        sp(s) + 5 + k <= 2048,
    ensures
        exists|v: Machine|
            {
                &&& #[trigger] reaches(
                    code,
                    env,
                    Point { state: s, at: call_at },
                    Point { state: v, at: call_at + 49 },
                )
                &&& sp(v) == sp(s) - n_args + 1
                &&& v.ram[sp(v) - 1] == 0
                &&& v.ram[1] == s.ram[1]
                &&& v.ram[2] == s.ram[2]
                &&& v.ram[3] == s.ram[3]
                &&& v.ram[4] == s.ram[4]
            },
{
    let call = call_code(name, n_args, return_to);
    assert(call.len() == 50);
    let start = Point { state: s, at: call_at };
    lemma_call(name, n_args, return_to, env, s);
    lemma_piece_runs(code, call_at, call, 0, env, s);
    let s1 = Machine {
        a: env[name],
        d: sp(s) + 5,
        ram: called_ram(s, n_args, env[return_to]),
    };
    // The jump of the call goes to the entry label of the function.
    assert(code[function_at] == function_code(name, k, n)[0]);
    assert(function_code(name, k, n)[0] == Line::Label(name));
    lemma_jump_to_label(code, env, s1, function_at);
    let entry = Point { state: s1, at: function_at };
    lemma_reaches_on(code, env, start, Point { state: s1, at: line_of(code, env[name]) }, entry);
    // The function clears its local variables and returns.
    lemma_function_then_return(code, function_at, name, k, n, env, s1);
    let v = choose|v: Machine|
        {
            &&& #[trigger] reaches(
                code,
                env,
                entry,
                Point { state: v, at: line_of(code, s1.ram[sp(s1) - 5]) },
            )
            &&& sp(v) == s1.ram[2] + 1
            &&& v.ram[s1.ram[2]] == 0
            &&& v.ram[1] == s1.ram[sp(s1) - 4]
            &&& v.ram[2] == s1.ram[sp(s1) - 3]
            &&& v.ram[3] == s1.ram[sp(s1) - 2]
            &&& v.ram[4] == s1.ram[sp(s1) - 1]
        };
    let landed = Point { state: v, at: line_of(code, env[return_to]) };
    assert(s1.ram[sp(s1) - 5] == env[return_to]);
    lemma_reaches_on(code, env, start, entry, landed);
    // The return address is the label behind the call.
    assert(code[call_at + 49] == call[49]);
    assert(call[49] == Line::Label(return_to));
    lemma_jump_to_label(code, env, v, call_at + 49);
    lemma_reaches_on(code, env, start, landed, Point { state: v, at: call_at + 49 });
}

} // verus!
