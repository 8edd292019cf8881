//! The symbols of a program and the addresses they stand for.

use crate::text::{decimal, decimal_string};
use vstd::prelude::*;
use vstd::string::*;

verus! {

/// The symbols known so far, each with its address as a decimal numeral, and
/// the number of variables that have been given a cell.
///
/// An entry that is added later replaces an earlier one for the same symbol.
#[derive(Debug)]
pub struct SymbolTable {
    pub symbols: Vec<(String, String)>,
    pub variable_count: u32,
}

/// The mathematical value of a [`SymbolTable`].
pub struct SymbolTableView {
    pub symbols: Map<Seq<char>, Seq<char>>,
    pub variable_count: nat,
}

/// The map that a list of entries stands for: a later entry replaces an
/// earlier one for the same symbol.
pub open spec fn entries_map(entries: Seq<(String, String)>) -> Map<Seq<char>, Seq<char>>
    decreases entries.len(),
{
    if entries.len() == 0 {
        Map::empty()
    } else {
        entries_map(entries.drop_last()).insert(entries.last().0@, entries.last().1@)
    }
}

impl View for SymbolTable {
    type V = SymbolTableView;

    open spec fn view(&self) -> SymbolTableView {
        SymbolTableView {
            symbols: entries_map(self.symbols@),
            variable_count: self.variable_count as nat,
        }
    }
}

/// The symbols that every program knows: the five registers of the stack
/// machine, `R0` to `R15`, and the screen and the keyboard.
pub open spec fn predefined_symbols() -> Map<Seq<char>, Seq<char>> {
    registers(16).insert("SP"@, "0"@).insert("LCL"@, "1"@).insert("ARG"@, "2"@).insert(
        "THIS"@,
        "3"@,
    ).insert("THAT"@, "4"@).insert("SCREEN"@, "16384"@).insert("KBD"@, "24576"@)
}

/// The first `n` of the symbols `R0`, `R1` and so on, each at the address of
/// its number.
pub open spec fn registers(n: nat) -> Map<Seq<char>, Seq<char>>
    decreases n,
{
    if n == 0 {
        Map::empty()
    } else {
        registers((n - 1) as nat).insert("R"@ + decimal((n - 1) as nat), decimal((n - 1) as nat))
    }
}

/// Looks a symbol up.
pub fn find_address(symbol: String, sym_table: &SymbolTable) -> (r: Option<String>)
    ensures
        match r {
            Some(address) => sym_table@.symbols.contains_key(symbol@) && address@
                == sym_table@.symbols[symbol@],
            None => !sym_table@.symbols.contains_key(symbol@),
        },
{
    let mut i: usize = sym_table.symbols.len();
    assert(sym_table.symbols@.take(i as int) =~= sym_table.symbols@);
    while i > 0
        invariant
            i <= sym_table.symbols@.len(),
            sym_table@.symbols.contains_key(symbol@) == entries_map(
                sym_table.symbols@.take(i as int),
            ).contains_key(symbol@),
            sym_table@.symbols.contains_key(symbol@) ==> sym_table@.symbols[symbol@]
                == entries_map(sym_table.symbols@.take(i as int))[symbol@],
        decreases i,
    {
        let ghost prefix = sym_table.symbols@.take(i as int);
        assert(prefix.drop_last() =~= sym_table.symbols@.take(i - 1));
        assert(prefix.last() == sym_table.symbols@[i - 1]);
        if sym_table.symbols[i - 1].0 == symbol {
            return Some(sym_table.symbols[i - 1].1.clone());
        }
        i = i - 1;
    }
    None
}

/// Gives a symbol an address, in place of the one it had, if it had one.
pub fn add_symbol(symbol: String, address: String, sym_table: &mut SymbolTable)
    ensures
        final(sym_table)@.symbols == old(sym_table)@.symbols.insert(symbol@, address@),
        final(sym_table)@.variable_count == old(sym_table)@.variable_count,
{
    sym_table.symbols.push((symbol, address));
    assert(final(sym_table).symbols@.drop_last() =~= old(sym_table).symbols@);
}

/// A table with the predefined symbols and no variable.
pub fn init_sym_table() -> (sym_table: SymbolTable)
    ensures
        sym_table@.symbols == predefined_symbols(),
        sym_table@.variable_count == 0,
{
    let mut sym_table = SymbolTable { symbols: Vec::new(), variable_count: 0 };
    let mut i: u32 = 0;
    while i < 16
        invariant
            i <= 16,
            sym_table@.symbols == registers(i as nat),
            sym_table@.variable_count == 0,
        decreases 16 - i,
    {
        let mut reg = String::from_str("R");
        reg.append(decimal_string(i).as_str());
        let addr = decimal_string(i);
        add_symbol(reg, addr, &mut sym_table);
        i = i + 1;
    }
    add_symbol(String::from_str("SP"), String::from_str("0"), &mut sym_table);
    add_symbol(String::from_str("LCL"), String::from_str("1"), &mut sym_table);
    add_symbol(String::from_str("ARG"), String::from_str("2"), &mut sym_table);
    add_symbol(String::from_str("THIS"), String::from_str("3"), &mut sym_table);
    add_symbol(String::from_str("THAT"), String::from_str("4"), &mut sym_table);
    add_symbol(String::from_str("SCREEN"), String::from_str("16384"), &mut sym_table);
    add_symbol(String::from_str("KBD"), String::from_str("24576"), &mut sym_table);
    sym_table
}

} // verus!
