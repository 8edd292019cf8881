//! What the code of `push` and `pop` does to the machine.


use crate::machine::model::{cell, lemma_run_concat, run, run_from, word, Env, Machine, Outcome};
use crate::vm_translator::code_writer::{
    base_register, fixed_base, generic_mem_pop_code, generic_mem_push_code, pop_base_index_code,
    pop_code, pop_static_code, push_base_index_code, push_code, push_constant_code,
    push_static_code, static_symbol,
};
use vstd::prelude::*;

verus! {

/// The names that every program can use stand for the cells that the
/// platform fixes for them.
pub open spec fn standard_symbols(env: Env) -> bool {
    &&& env["SP"@] == 0
    &&& env["LCL"@] == 1
    &&& env["ARG"@] == 2
    &&& env["THIS"@] == 3
    &&& env["THAT"@] == 4
    &&& env["R13"@] == 13
}

/// The stack pointer: the word in cell 0.
pub open spec fn sp(s: Machine) -> int {
    s.ram[0]
}

/// Whether an address lies where the platform keeps the stack.
pub open spec fn in_stack(a: int) -> bool {
    256 <= a < 2048
}

/// The machine after `value` has been pushed: the value stands where the
/// stack pointer pointed, and the stack pointer one above.
pub open spec fn pushed(s: Machine, value: int) -> Machine {
    Machine { a: 0, d: value, ram: s.ram.insert(sp(s), value).insert(0, sp(s) + 1) }
}

/// The machine after the top of the stack has been popped into the cell
/// `target`, with the address `address` put by in `R13`.
pub open spec fn popped_by_address(s: Machine, address: int) -> Machine {
    Machine {
        a: address,
        d: s.ram[sp(s) - 1],
        ram: s.ram.insert(13, address).insert(0, sp(s) - 1).insert(
            cell(address),
            s.ram[sp(s) - 1],
        ),
    }
}

/// The address that `index` cells above the word `base` is.
pub open spec fn indexed(base: int, index: int) -> int {
    word(base + index)
}

/// The cell in which a register that holds a segment's base address lives.
pub open spec fn register_cell(register: Seq<char>) -> int {
    if register == "LCL"@ {
        1
    } else if register == "ARG"@ {
        2
    } else if register == "THIS"@ {
        3
    } else {
        4
    }
}

proof fn lemma_register_cell(segment: Seq<char>, env: Env)
    requires
        standard_symbols(env),
        base_register(segment) is Some,
    ensures
        env[base_register(segment)->0] == register_cell(base_register(segment)->0),
        1 <= register_cell(base_register(segment)->0) <= 4,
{
    reveal_strlit("LCL");
    reveal_strlit("ARG");
    reveal_strlit("THIS");
    reveal_strlit("THAT");
    assert("LCL"@[0] == 'L' && "ARG"@[0] == 'A' && "THIS"@[2] == 'I' && "THAT"@[2] == 'A');
}

/// `push` of a segment that a register points to pushes the word that
/// stands `index` cells above the address in the register.
pub proof fn lemma_generic_mem_push(register: Seq<char>, at: int, index: nat, env: Env, s: Machine)
    requires
        standard_symbols(env),
        env[register] == at,
        1 <= at <= 4,
        index < 0x8000,
        in_stack(sp(s)),
    ensures
        run(generic_mem_push_code(register, index), env, s) == Outcome::Next(
            pushed(s, s.ram[cell(indexed(s.ram[at], index as int))]),
        ),
{
    reveal_with_fuel(run_from, 11);
    assert(generic_mem_push_code(register, index).len() == 10);
}

/// `pop` into a segment that a register points to stores the top of the
/// stack `index` cells above the address in the register.
pub proof fn lemma_generic_mem_pop(register: Seq<char>, at: int, index: nat, env: Env, s: Machine)
    requires
        standard_symbols(env),
        env[register] == at,
        1 <= at <= 4,
        index < 0x8000,
        in_stack(sp(s)),
    ensures
        run(generic_mem_pop_code(register, index), env, s) == Outcome::Next(
            popped_by_address(s, indexed(s.ram[at], index as int)),
        ),
{
    reveal_with_fuel(run_from, 15);
    assert(generic_mem_pop_code(register, index).len() == 14);
}

/// `push constant` pushes its index as a word.
pub proof fn lemma_push_constant(value: nat, env: Env, s: Machine)
    requires
        standard_symbols(env),
        value < 0x8000,
        in_stack(sp(s)),
    ensures
        run(push_constant_code(value), env, s) == Outcome::Next(pushed(s, value as int)),
{
    reveal_with_fuel(run_from, 8);
    assert(push_constant_code(value).len() == 7);
}

/// `push static` pushes the word of the variable.
pub proof fn lemma_push_static(stem: Seq<char>, index: nat, env: Env, s: Machine)
    requires
        standard_symbols(env),
        in_stack(sp(s)),
    ensures
        run(push_static_code(stem, index), env, s) == Outcome::Next(
            pushed(s, s.ram[cell(env[static_symbol(stem, index)])]),
        ),
{
    reveal_with_fuel(run_from, 8);
    assert(push_static_code(stem, index).len() == 7);
}

/// The machine after the top of the stack has been popped into a variable
/// at `address`.
pub open spec fn popped_into(s: Machine, address: int) -> Machine {
    Machine {
        a: address,
        d: s.ram[sp(s) - 1],
        ram: s.ram.insert(0, sp(s) - 1).insert(cell(address), s.ram[sp(s) - 1]),
    }
}

/// `pop static` stores the top of the stack in the variable.
pub proof fn lemma_pop_static(stem: Seq<char>, index: nat, env: Env, s: Machine)
    requires
        standard_symbols(env),
        in_stack(sp(s)),
    ensures
        run(pop_static_code(stem, index), env, s) == Outcome::Next(
            popped_into(s, env[static_symbol(stem, index)]),
        ),
{
    reveal_with_fuel(run_from, 8);
    assert(pop_static_code(stem, index).len() == 7);
}

/// `push` of a segment at a fixed place pushes the word that stands
/// `index` cells above its start.
pub proof fn lemma_push_base_index(index: nat, base: nat, env: Env, s: Machine)
    requires
        standard_symbols(env),
        index < 0x8000,
        base < 0x8000,
        in_stack(sp(s)),
    ensures
        run(push_base_index_code(index, base), env, s) == Outcome::Next(
            pushed(s, s.ram[cell(indexed(index as int, base as int))]),
        ),
{
    reveal_with_fuel(run_from, 11);
    assert(push_base_index_code(index, base).len() == 10);
}

/// `pop` into a segment at a fixed place stores the top of the stack
/// `index` cells above its start.
pub proof fn lemma_pop_base_index(index: nat, base: nat, env: Env, s: Machine)
    requires
        standard_symbols(env),
        index < 0x8000,
        base < 0x8000,
        in_stack(sp(s)),
    ensures
        run(pop_base_index_code(index, base), env, s) == Outcome::Next(
            popped_by_address(s, indexed(index as int, base as int)),
        ),
{
    reveal_with_fuel(run_from, 15);
    assert(pop_base_index_code(index, base).len() == 14);
}

/// A `push` followed at once by the `pop` of the same segment and index
/// changes nothing but two cells that hold no state of the program.
///
/// Where the stack pointer lies in the stack with room for one more word,
/// the code of the two commands runs to its end without a jump. After it the
/// stack pointer is what it was, and so is every other cell but `R13`, which
/// the `pop` uses for the address, and the cell just above the stack, through
/// which the word went.
pub proof fn lemma_push_then_pop(
    segment: Seq<char>,
    index: nat,
    stem: Seq<char>,
    env: Env,
    s: Machine,
)
    requires
        standard_symbols(env),
        push_code(segment, index, stem) is Some,
        pop_code(segment, index, stem) is Some,
        index < 0x8000,
        in_stack(sp(s)),
        in_stack(sp(s) + 1),
    ensures
        run(push_code(segment, index, stem)->0 + pop_code(segment, index, stem)->0, env, s)
            is Next,
        ({
            let after = run(
                push_code(segment, index, stem)->0 + pop_code(segment, index, stem)->0,
                env,
                s,
            )->Next_0;
            &&& sp(after) == sp(s)
            &&& forall|k: int| k != 13 && k != sp(s) ==> after.ram[k] == s.ram[k]
        }),
{
    let push = push_code(segment, index, stem)->0;
    let pop = pop_code(segment, index, stem)->0;
    lemma_run_concat(push, pop, env, s);
    if base_register(segment) is Some {
        let register = base_register(segment)->0;
        lemma_register_cell(segment, env);
        let at = register_cell(register);
        lemma_generic_mem_push(register, at, index, env, s);
        let mid = pushed(s, s.ram[cell(indexed(s.ram[at], index as int))]);
        lemma_generic_mem_pop(register, at, index, env, mid);
    } else if segment == "static"@ {
        lemma_push_static(stem, index, env, s);
        let mid = pushed(s, s.ram[cell(env[static_symbol(stem, index)])]);
        lemma_pop_static(stem, index, env, mid);
    } else {
        reveal_strlit("constant");
        reveal_strlit("pointer");
        reveal_strlit("temp");
        assert("constant"@.len() == 8 && "pointer"@.len() == 7 && "temp"@.len() == 4);
        let base = fixed_base(segment)->0;
        lemma_push_base_index(index, base, env, s);
        let mid = pushed(s, s.ram[cell(indexed(index as int, base as int))]);
        lemma_pop_base_index(index, base, env, mid);
    }
}

} // verus!
