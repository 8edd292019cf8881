//! Every variable of a program gets a cell of its own: two symbols that are
//! neither labels nor predefined never share an address, and a symbol keeps
//! the address it got first.

use crate::assembler::assembler::second_pass_from;
use crate::assembler::encoding::{is_plain, is_plain_text, lemma_symbol_is_resolved};
use crate::assembler::parser::{instruction_line, instruction_text, parse};
use crate::assembler::symbol_table::SymbolTableView;
use crate::assembler::translator::machine_code;
use crate::machine::instruction::{render, Line};
use crate::text::{
    all_digits, decimal, has_char, is_digit, is_u32_literal, lemma_decimal_round_trip, trimmed,
    u32_literal_value, unsigned_digits,
};
use crate::vm_translator::code_writer::static_symbol;
use crate::vm_translator::labels::lemma_static_symbols_scoped;
use vstd::prelude::*;

verus! {

/// The table when the second pass has read the first `n` lines.
pub open spec fn table_after(lines: Seq<Seq<char>>, n: int, table: SymbolTableView)
    -> SymbolTableView
    decreases n,
{
    if n <= 0 || n > lines.len() {
        table
    } else {
        parse(lines[n - 1], table_after(lines, n - 1, table)).1
    }
}

/// The symbol that a line names: what follows its `@`.
pub open spec fn symbol_of(line: Seq<char>) -> Seq<char> {
    trimmed(instruction_text(line).skip(1))
}

/// Whether a line is an A-instruction with a symbol in place of a number.
pub open spec fn names_symbol(line: Seq<char>) -> bool {
    &&& instruction_line(line)
    &&& has_char(instruction_text(line), '@')
    &&& !is_u32_literal(symbol_of(line))
}

/// The address that the second pass gives line `k` of a program.
pub open spec fn cell_of(lines: Seq<Seq<char>>, table: SymbolTableView, k: int) -> Option<u32> {
    match parse(lines[k], table_after(lines, k, table)).0 {
        Ok(ins) => ins.value,
        Err(_) => None,
    }
}

/// Whether `t` is what a table `t0` can have grown into: it knows everything
/// that `t0` knows, and what it knows more are variables whose addresses
/// are numbers from `t0`'s next free cell up to its own, no two the same.
pub open spec fn grown_from(t0: SymbolTableView, t: SymbolTableView) -> bool {
    &&& t0.variable_count <= t.variable_count
    &&& forall|name: Seq<char>| #[trigger]
        t0.symbols.contains_key(name) ==> t.symbols.contains_key(name) && t.symbols[name]
            == t0.symbols[name]
    &&& forall|name: Seq<char>| #[trigger]
        t.symbols.contains_key(name) && !t0.symbols.contains_key(name) ==> {
            &&& is_u32_literal(t.symbols[name])
            &&& t0.variable_count + 16 <= u32_literal_value(t.symbols[name]) < t.variable_count
                + 16
        }
    &&& forall|a: Seq<char>, b: Seq<char>|
        #![trigger t.symbols.contains_key(a), t.symbols.contains_key(b)]
        t.symbols.contains_key(a) && t.symbols.contains_key(b) && !t0.symbols.contains_key(a)
            && !t0.symbols.contains_key(b) && a != b ==> u32_literal_value(t.symbols[a])
            != u32_literal_value(t.symbols[b])
}

/// The numeral of an address is a number, and denotes the address.
proof fn lemma_address_numeral(n: nat)
    requires
        n <= u32::MAX,
    ensures
        is_u32_literal(decimal(n)),
        u32_literal_value(decimal(n)) == n,
{
    lemma_decimal_round_trip(n);
    assert(is_digit(decimal(n)[0]));
    assert(unsigned_digits(decimal(n)) == decimal(n));
}

/// One line of the second pass lets the table grow, and where the line
/// names a symbol that the first table did not know, the table then holds
/// the address that the line was given.
proof fn lemma_line_grows(t0: SymbolTableView, t: SymbolTableView, line: Seq<char>)
    requires
        grown_from(t0, t),
    ensures
        grown_from(t0, parse(line, t).1),
        grown_from(t, parse(line, t).1),
        names_symbol(line) && !t0.symbols.contains_key(symbol_of(line)) && parse(line, t).0
            is Ok ==> {
            let after = parse(line, t).1;
            &&& after.symbols.contains_key(symbol_of(line))
            &&& is_u32_literal(after.symbols[symbol_of(line)])
            &&& parse(line, t).0->Ok_0.value == Some(
                u32_literal_value(after.symbols[symbol_of(line)]) as u32,
            )
        },
{
    let after = parse(line, t).1;
    if after != t {
        let name = symbol_of(line);
        let address = t.variable_count + 16;
        lemma_address_numeral(address as nat);
        assert(after.symbols == t.symbols.insert(name, decimal(address as nat)));
        assert(!t.symbols.contains_key(name));
        assert forall|a: Seq<char>| #[trigger]
            after.symbols.contains_key(a) && !t0.symbols.contains_key(a) implies {
            &&& is_u32_literal(after.symbols[a])
            &&& t0.variable_count + 16 <= u32_literal_value(after.symbols[a])
                < after.variable_count + 16
        } by {
            if a != name {
                assert(t.symbols.contains_key(a));
            }
        }
        assert forall|a: Seq<char>, b: Seq<char>|
            after.symbols.contains_key(a) && after.symbols.contains_key(b)
                && !t0.symbols.contains_key(a) && !t0.symbols.contains_key(b) && a
                != b implies u32_literal_value(after.symbols[a]) != u32_literal_value(
            after.symbols[b],
        ) by {
            if a != name {
                assert(t.symbols.contains_key(a));
            }
            if b != name {
                assert(t.symbols.contains_key(b));
            }
        }
        assert forall|a: Seq<char>| #[trigger] t0.symbols.contains_key(a) implies after.symbols.contains_key(
            a,
        ) && after.symbols[a] == t0.symbols[a] by {
            assert(t.symbols.contains_key(a));
        }
    }
}

/// The table of the second pass grows: at every line it is what the table
/// at an earlier line has grown into.
pub proof fn lemma_table_grows(lines: Seq<Seq<char>>, table: SymbolTableView, i: int, j: int)
    requires
        0 <= i <= j <= lines.len(),
    ensures
        grown_from(table_after(lines, i, table), table_after(lines, j, table)),
    decreases j - i,
{
    let ti = table_after(lines, i, table);
    if i < j {
        lemma_table_grows(lines, table, i, j - 1);
        lemma_line_grows(ti, table_after(lines, j - 1, table), lines[j - 1]);
    }
}

/// The address that a line was given stands in the table from then on.
proof fn lemma_cell_is_kept(lines: Seq<Seq<char>>, table: SymbolTableView, k: int, n: int)
    requires
        0 <= k < n <= lines.len(),
        names_symbol(lines[k]),
        !table.symbols.contains_key(symbol_of(lines[k])),
        cell_of(lines, table, k) is Some,
    ensures
        table_after(lines, n, table).symbols.contains_key(symbol_of(lines[k])),
        cell_of(lines, table, k) == Some(
            u32_literal_value(table_after(lines, n, table).symbols[symbol_of(lines[k])]) as u32,
        ),
{
    lemma_table_grows(lines, table, 0, k);
    lemma_line_grows(table, table_after(lines, k, table), lines[k]);
    assert(table_after(lines, k + 1, table) == parse(lines[k], table_after(lines, k, table)).1);
    lemma_table_grows(lines, table, k + 1, n);
    assert(table_after(lines, k + 1, table).symbols.contains_key(symbol_of(lines[k])));
}

/// Different symbols get different cells, and one symbol always the same.
///
/// Of two lines of a program that name symbols which the table did not know
/// before the second pass, the assembler gives both the same address where
/// they name the same symbol, and different addresses where they name
/// different ones.
pub proof fn lemma_symbols_have_own_cells(
    lines: Seq<Seq<char>>,
    table: SymbolTableView,
    i: int,
    j: int,
)
    requires
        0 <= i < lines.len(),
        0 <= j < lines.len(),
        names_symbol(lines[i]),
        names_symbol(lines[j]),
        !table.symbols.contains_key(symbol_of(lines[i])),
        !table.symbols.contains_key(symbol_of(lines[j])),
        cell_of(lines, table, i) is Some,
        cell_of(lines, table, j) is Some,
    ensures
        cell_of(lines, table, i) == cell_of(lines, table, j) <==> symbol_of(lines[i])
            == symbol_of(lines[j]),
{
    let n = lines.len() as int;
    let last = table_after(lines, n, table);
    lemma_cell_is_kept(lines, table, i, n);
    lemma_cell_is_kept(lines, table, j, n);
    lemma_table_grows(lines, table, 0, n);
    let a = symbol_of(lines[i]);
    let b = symbol_of(lines[j]);
    assert(last.symbols.contains_key(a) && last.symbols.contains_key(b));
    assert(is_u32_literal(last.symbols[a]) && is_u32_literal(last.symbols[b]));
}

/// The second pass threads the table through the lines: where it does not
/// fail, the table it ends with is the table after the last line.
pub proof fn lemma_second_pass_table(
    lines: Seq<Seq<char>>,
    from: int,
    table: SymbolTableView,
    code: Seq<Seq<char>>,
)
    requires
        0 <= from <= lines.len(),
        second_pass_from(lines, from, table_after(lines, from, table), code).failure is None,
    ensures
        second_pass_from(lines, from, table_after(lines, from, table), code).table == table_after(
            lines,
            lines.len() as int,
            table,
        ),
    decreases lines.len() - from,
{
    if from < lines.len() {
        let t = table_after(lines, from, table);
        let parsed = parse(lines[from], t);
        assert(table_after(lines, from + 1, table) == parsed.1);
        match parsed.0 {
            Ok(ins) => {
                if ins.line_type is None {
                    lemma_second_pass_table(lines, from + 1, table, code);
                } else {
                    lemma_second_pass_table(
                        lines,
                        from + 1,
                        table,
                        code.push(machine_code(ins)),
                    );
                }
            },
            Err(_) => {},
        }
    }
}

/// The name of a static variable of a file with a plain stem is a symbol
/// to the assembler: plain, and no number.
pub proof fn lemma_static_symbol_is_a_symbol(stem: Seq<char>, index: nat)
    requires
        is_plain_text(stem),
    ensures
        is_plain_text(static_symbol(stem, index)),
        static_symbol(stem, index).len() > 0,
        !is_u32_literal(static_symbol(stem, index)),
        names_symbol(render(Line::Symbol(static_symbol(stem, index)))),
        symbol_of(render(Line::Symbol(static_symbol(stem, index)))) == static_symbol(stem, index),
{
    reveal_strlit(".");
    assert("."@ =~= seq!['.']);
    let digits = decimal(index);
    lemma_decimal_round_trip(index);
    let name = static_symbol(stem, index);
    let n = stem.len() as int;
    assert(name.len() == n + 1 + digits.len());
    assert(name[n] == '.');
    assert forall|k: int| 0 <= k < name.len() implies is_plain(#[trigger] name[k]) by {
        if k < n {
            assert(name[k] == stem[k]);
            assert(is_plain(stem[k]));
        } else if k > n {
            assert(name[k] == digits[k - n - 1]);
            assert(is_digit(digits[k - n - 1]));
        }
    }
    let body = unsigned_digits(name);
    if name[0] == '+' {
        assert(n >= 1);
        assert(body[n - 1] == name[n]);
        assert(!is_digit(body[n - 1]));
    } else {
        assert(body == name);
        assert(!is_digit(body[n]));
    }
    assert(!all_digits(body));
    lemma_symbol_is_resolved(name, SymbolTableView { symbols: Map::empty(), variable_count: 0 });
}

/// Static variables of different files live in different cells.
///
/// Where two lines of a program name the static variables of files with
/// the stems `stem1` and `stem2`, and neither name is a label or a
/// predefined symbol, the assembler gives the two lines the same address
/// only where the stems are the same and the indexes are.
pub proof fn lemma_statics_have_own_cells(
    lines: Seq<Seq<char>>,
    table: SymbolTableView,
    i: int,
    stem1: Seq<char>,
    index1: nat,
    j: int,
    stem2: Seq<char>,
    index2: nat,
)
    requires
        0 <= i < lines.len(),
        0 <= j < lines.len(),
        is_plain_text(stem1),
        is_plain_text(stem2),
        lines[i] == render(Line::Symbol(static_symbol(stem1, index1))),
        lines[j] == render(Line::Symbol(static_symbol(stem2, index2))),
        !table.symbols.contains_key(static_symbol(stem1, index1)),
        !table.symbols.contains_key(static_symbol(stem2, index2)),
        cell_of(lines, table, i) is Some,
        cell_of(lines, table, j) is Some,
    ensures
        cell_of(lines, table, i) == cell_of(lines, table, j) <==> stem1 == stem2 && index1
            == index2,
{
    lemma_static_symbol_is_a_symbol(stem1, index1);
    lemma_static_symbol_is_a_symbol(stem2, index2);
    lemma_symbols_have_own_cells(lines, table, i, j);
    if static_symbol(stem1, index1) == static_symbol(stem2, index2) {
        lemma_static_symbols_scoped(stem1, index1, stem2, index2);
    }
}

} // verus!
