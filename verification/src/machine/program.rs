//! How a whole program executes: line after line, with jumps to the
//! addresses that its labels stand for.

use crate::machine::instruction::Line;
use crate::machine::model::{exec_line, line_jumps, run_from, Env, Machine, Outcome};
use vstd::prelude::*;

verus! {

/// Whether a line takes a place in the instruction memory. A label takes none.
pub open spec fn is_instruction(line: Line) -> bool {
    !(line is Label)
}

/// The address of line `i`: the number of instructions before it.
pub open spec fn address_of(code: Seq<Line>, i: int) -> int
    decreases i,
{
    if i <= 0 || i > code.len() {
        0
    } else {
        address_of(code, i - 1) + if is_instruction(code[i - 1]) {
            1int
        } else {
            0int
        }
    }
}

/// Whether every label of the program stands for the address of the line
/// that declares it.
pub open spec fn labels_resolved(code: Seq<Line>, env: Env) -> bool {
    forall|i: int|
        0 <= i < code.len() && (#[trigger] code[i]) is Label ==> env[code[i]->Label_0]
            == address_of(code, i)
}

/// The first line at or after `from` whose address is at least `address`;
/// the length of the program when there is none.
pub open spec fn first_at(code: Seq<Line>, address: int, from: int) -> int
    decreases code.len() - from,
{
    if from < 0 || from >= code.len() {
        code.len() as int
    } else if address_of(code, from) >= address {
        from
    } else {
        first_at(code, address, from + 1)
    }
}

/// The line at which execution goes on after a jump to `address`.
pub open spec fn line_of(code: Seq<Line>, address: int) -> int {
    first_at(code, address, 0)
}

/// The machine and the line it stands at.
pub struct Point {
    pub state: Machine,
    pub at: int,
}

/// One line of execution: the line at `p.at` acts on the machine, and
/// execution goes on at the next line, or at the line of the address in the
/// address register when the line jumps.
pub open spec fn step(code: Seq<Line>, env: Env, p: Point) -> Point {
    Point {
        state: exec_line(code[p.at], env, p.state),
        at: if line_jumps(code[p.at], p.state) {
            line_of(code, p.state.a)
        } else {
            p.at + 1
        },
    }
}

/// `n` lines of execution. Execution stops where it leaves the program.
pub open spec fn steps(code: Seq<Line>, env: Env, p: Point, n: nat) -> Point
    decreases n,
{
    if n == 0 || p.at < 0 || p.at >= code.len() {
        p
    } else {
        steps(code, env, step(code, env, p), (n - 1) as nat)
    }
}

/// Whether execution from `p` comes to `q`.
pub open spec fn reaches(code: Seq<Line>, env: Env, p: Point, q: Point) -> bool {
    exists|n: nat| steps(code, env, p, n) == q
}

/// Execution can be cut in two.
pub proof fn lemma_steps_split(code: Seq<Line>, env: Env, p: Point, m: nat, n: nat)
    ensures
        steps(code, env, p, m + n) == steps(code, env, steps(code, env, p, m), n),
    decreases m,
{
    if m == 0 {
    } else if p.at < 0 || p.at >= code.len() {
        assert(steps(code, env, p, n) == p) by {
            if n > 0 {
            }
        }
    } else {
        lemma_steps_split(code, env, step(code, env, p), (m - 1) as nat, n);
    }
}

/// Every point reaches itself.
pub proof fn lemma_reaches_itself(code: Seq<Line>, env: Env, p: Point)
    ensures
        reaches(code, env, p, p),
{
    assert(steps(code, env, p, 0) == p);
}

/// What is reached from a point that is reached is reached.
pub proof fn lemma_reaches_on(code: Seq<Line>, env: Env, p: Point, q: Point, r: Point)
    requires
        reaches(code, env, p, q),
        reaches(code, env, q, r),
    ensures
        reaches(code, env, p, r),
{
    let m = choose|m: nat| steps(code, env, p, m) == q;
    let n = choose|n: nat| steps(code, env, q, n) == r;
    lemma_steps_split(code, env, p, m, n);
    assert(steps(code, env, p, m + n) == r);
}

/// A point within the program reaches the point after its line.
pub proof fn lemma_reaches_step(code: Seq<Line>, env: Env, p: Point)
    requires
        0 <= p.at < code.len(),
    ensures
        reaches(code, env, p, step(code, env, p)),
{
    reveal_with_fuel(steps, 2);
    assert(steps(code, env, p, 1) == step(code, env, p));
}

/// Addresses grow along the program, by one for each instruction.
pub proof fn lemma_address_grows(code: Seq<Line>, i: int, j: int)
    requires
        0 <= i <= j <= code.len(),
    ensures
        address_of(code, i) <= address_of(code, j),
        (forall|k: int| i <= k < j ==> (#[trigger] code[k]) is Label) ==> address_of(code, i)
            == address_of(code, j),
        address_of(code, i) == address_of(code, j) ==> forall|k: int|
            i <= k < j ==> (#[trigger] code[k]) is Label,
    decreases j - i,
{
    if i < j {
        lemma_address_grows(code, i, j - 1);
    }
}

/// Where the search for an address ends: at the first line from `from` on
/// that has at least that address.
proof fn lemma_first_at(code: Seq<Line>, address: int, from: int)
    requires
        0 <= from <= code.len(),
    ensures
        from <= first_at(code, address, from) <= code.len(),
        first_at(code, address, from) < code.len() ==> address_of(
            code,
            first_at(code, address, from),
        ) >= address,
        forall|k: int|
            from <= k < first_at(code, address, from) ==> #[trigger] address_of(code, k)
                < address,
    decreases code.len() - from,
{
    if from < code.len() && address_of(code, from) < address {
        lemma_first_at(code, address, from + 1);
    }
}

/// Execution passes over labels without a change to the machine.
proof fn lemma_walk_labels(code: Seq<Line>, env: Env, s: Machine, i: int, j: int)
    requires
        0 <= i <= j <= code.len(),
        forall|k: int| i <= k < j ==> (#[trigger] code[k]) is Label,
    ensures
        reaches(code, env, Point { state: s, at: i }, Point { state: s, at: j }),
    decreases j - i,
{
    let p = Point { state: s, at: i };
    if i == j {
        lemma_reaches_itself(code, env, p);
    } else {
        assert(code[i] is Label);
        lemma_reaches_step(code, env, p);
        assert(step(code, env, p) == Point { state: s, at: i + 1 });
        lemma_walk_labels(code, env, s, i + 1, j);
        lemma_reaches_on(code, env, p, step(code, env, p), Point { state: s, at: j });
    }
}

/// A jump to the address of a label goes on at the line of the label.
pub proof fn lemma_jump_to_label(code: Seq<Line>, env: Env, s: Machine, i: int)
    requires
        labels_resolved(code, env),
        0 <= i < code.len(),
        code[i] is Label,
    ensures
        reaches(
            code,
            env,
            Point { state: s, at: line_of(code, env[code[i]->Label_0]) },
            Point { state: s, at: i },
        ),
{
    let address = env[code[i]->Label_0];
    assert(address == address_of(code, i));
    lemma_first_at(code, address, 0);
    let j = line_of(code, address);
    assert(j <= i) by {
        if j > i {
            assert(address_of(code, i) < address);
        }
    }
    lemma_address_grows(code, j, i);
    lemma_walk_labels(code, env, s, j, i);
}

/// Where a run of the lines of `code` from `at` on, as far as the `len`
/// lines go, ends: behind them, or at the line of the address it jumped to.
pub open spec fn end_of(code: Seq<Line>, at: int, len: int, outcome: Outcome) -> Point {
    match outcome {
        Outcome::Next(s) => Point { state: s, at: at + len },
        Outcome::Jump { target, state } => Point { state, at: line_of(code, target) },
    }
}

/// What a piece of code does by itself, it does within a program: where
/// the program holds the lines of `piece` from line `at` on, execution
/// from line `k` of the piece comes to the end of the piece or to the line
/// of the address that the piece jumps to.
pub proof fn lemma_piece_runs(
    code: Seq<Line>,
    at: int,
    piece: Seq<Line>,
    k: int,
    env: Env,
    s: Machine,
)
    requires
        0 <= at,
        at + piece.len() <= code.len(),
        code.subrange(at, at + piece.len()) == piece,
        0 <= k <= piece.len(),
    ensures
        reaches(
            code,
            env,
            Point { state: s, at: at + k },
            end_of(code, at, piece.len() as int, run_from(piece, k, env, s)),
        ),
    decreases piece.len() - k,
{
    let p = Point { state: s, at: at + k };
    if k == piece.len() {
        lemma_reaches_itself(code, env, p);
    } else {
        assert(code[at + k] == piece[k]);
        lemma_reaches_step(code, env, p);
        if line_jumps(piece[k], s) {
        } else {
            let s1 = exec_line(piece[k], env, s);
            lemma_piece_runs(code, at, piece, k + 1, env, s1);
            lemma_reaches_on(
                code,
                env,
                p,
                step(code, env, p),
                end_of(code, at, piece.len() as int, run_from(piece, k + 1, env, s1)),
            );
        }
    }
}

} // verus!
