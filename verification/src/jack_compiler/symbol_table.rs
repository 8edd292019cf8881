//! The variables that a class and its current subroutine declare.

use vstd::prelude::*;
use vstd::string::*;

verus! {

/// The kinds of variable. `NoKind` is the kind of a name that is no
/// variable: a class or a subroutine.
#[derive(Clone, Copy, Debug, PartialEq, Eq, Structural)]
pub enum SymbolKind {
    Static,
    Field,
    Arg,
    Var,
    NoKind,
}

/// A declared variable.
#[allow(non_snake_case)]
struct Symbol {
    name: String,
    symType: String,
    index: u32,
    kind: SymbolKind,
}

/// The mathematical value of a declared variable.
pub struct SymbolView {
    pub name: Seq<char>,
    pub sym_type: Seq<char>,
    pub index: nat,
    pub kind: SymbolKind,
}

/// The variables of the class and of the subroutine that is being compiled,
/// each list in the order of declaration.
pub struct SymbolTable {
    class_symbols: Vec<Symbol>,
    subroutine_symbols: Vec<Symbol>,
    num_static: u32,
    num_field: u32,
    num_arg: u32,
    num_var: u32,
}

/// The mathematical value of a [`SymbolTable`].
pub struct SymbolTableView {
    pub class_symbols: Seq<SymbolView>,
    pub subroutine_symbols: Seq<SymbolView>,
}

/// The number of variables of a kind among `symbols`.
pub open spec fn count_kind(symbols: Seq<SymbolView>, kind: SymbolKind) -> nat
    decreases symbols.len(),
{
    if symbols.len() == 0 {
        0
    } else {
        count_kind(symbols.drop_last(), kind) + if symbols.last().kind == kind {
            1nat
        } else {
            0nat
        }
    }
}

/// The first of `symbols` from index `from` on that has the given name.
pub open spec fn find_from(symbols: Seq<SymbolView>, name: Seq<char>, from: int) -> Option<
    SymbolView,
>
    decreases symbols.len() - from,
{
    if from < 0 || from >= symbols.len() {
        None
    } else if symbols[from].name == name {
        Some(symbols[from])
    } else {
        find_from(symbols, name, from + 1)
    }
}

impl SymbolTableView {
    /// The number of variables of a kind. There are none of kind `NoKind`.
    pub open spec fn count(self, kind: SymbolKind) -> nat {
        match kind {
            SymbolKind::Static | SymbolKind::Field => count_kind(self.class_symbols, kind),
            SymbolKind::Arg | SymbolKind::Var => count_kind(self.subroutine_symbols, kind),
            SymbolKind::NoKind => 0,
        }
    }

    /// The variable that a name stands for: the first of the class with that
    /// name, or else the first of the subroutine.
    pub open spec fn lookup(self, name: Seq<char>) -> Option<SymbolView> {
        match find_from(self.class_symbols, name, 0) {
            Some(symbol) => Some(symbol),
            None => find_from(self.subroutine_symbols, name, 0),
        }
    }

    /// The table after a variable has been declared: it stands last in the
    /// list of its scope, numbered with the count of its kind so far.
    /// Declaring a name of kind `NoKind` changes nothing.
    pub open spec fn define(self, name: Seq<char>, sym_type: Seq<char>, kind: SymbolKind) -> Self {
        let symbol = SymbolView { name, sym_type, index: self.count(kind), kind };
        match kind {
            SymbolKind::Static | SymbolKind::Field => SymbolTableView {
                class_symbols: self.class_symbols.push(symbol),
                ..self
            },
            SymbolKind::Arg | SymbolKind::Var => SymbolTableView {
                subroutine_symbols: self.subroutine_symbols.push(symbol),
                ..self
            },
            SymbolKind::NoKind => self,
        }
    }
}

impl Symbol {
    spec fn view(&self) -> SymbolView {
        SymbolView {
            name: self.name@,
            sym_type: self.symType@,
            index: self.index as nat,
            kind: self.kind,
        }
    }
}

spec fn symbol_views(symbols: Seq<Symbol>) -> Seq<SymbolView> {
    symbols.map_values(|s: Symbol| s.view())
}

impl View for SymbolTable {
    type V = SymbolTableView;

    closed spec fn view(&self) -> SymbolTableView {
        SymbolTableView {
            class_symbols: symbol_views(self.class_symbols@),
            subroutine_symbols: symbol_views(self.subroutine_symbols@),
        }
    }
}

/// Finds the first symbol with the given name.
fn find_symbol<'a>(symbols: &'a Vec<Symbol>, name: &String) -> (r: Option<&'a Symbol>)
    ensures
        match r {
            Some(symbol) => find_from(symbol_views(symbols@), name@, 0) == Some(symbol.view()),
            None => find_from(symbol_views(symbols@), name@, 0) is None,
        },
{
    let mut i: usize = 0;
    while i < symbols.len()
        invariant
            i <= symbols@.len(),
            find_from(symbol_views(symbols@), name@, 0) == find_from(
                symbol_views(symbols@),
                name@,
                i as int,
            ),
        decreases symbols@.len() - i,
    {
        assert(symbol_views(symbols@)[i as int] == symbols@[i as int].view());
        if *name == symbols[i].name {
            return Some(&symbols[i]);
        }
        i = i + 1;
    }
    None
}

impl SymbolTable {
    /// The counters agree with the lists: each counts the variables of its kind.
    pub closed spec fn wf(&self) -> bool {
        &&& self.num_static == self@.count(SymbolKind::Static)
        &&& self.num_field == self@.count(SymbolKind::Field)
        &&& self.num_arg == self@.count(SymbolKind::Arg)
        &&& self.num_var == self@.count(SymbolKind::Var)
    }

    /// A table without variables.
    pub fn new() -> (t: SymbolTable)
        ensures
            t.wf(),
            t@.class_symbols == Seq::<SymbolView>::empty(),
            t@.subroutine_symbols == Seq::<SymbolView>::empty(),
    {
        let t = SymbolTable {
            class_symbols: Vec::new(),
            subroutine_symbols: Vec::new(),
            num_static: 0,
            num_arg: 0,
            num_field: 0,
            num_var: 0,
        };
        assert(t@.class_symbols =~= Seq::<SymbolView>::empty());
        assert(t@.subroutine_symbols =~= Seq::<SymbolView>::empty());
        t
    }

    /// Forgets the variables of the subroutine; those of the class stay.
    pub fn start_subroutine(&mut self)
        requires
            old(self).wf(),
        ensures
            final(self).wf(),
            final(self)@.class_symbols == old(self)@.class_symbols,
            final(self)@.subroutine_symbols == Seq::<SymbolView>::empty(),
    {
        self.subroutine_symbols.clear();
        self.num_arg = 0;
        self.num_var = 0;
        assert(self@.subroutine_symbols =~= Seq::<SymbolView>::empty());
    }

    /// Declares a variable. It gets the next number of its kind.
    #[allow(non_snake_case)]
    pub fn define(&mut self, name: &str, symType: &str, kind: SymbolKind)
        requires
            old(self).wf(),
            old(self)@.count(kind) < u32::MAX,
        ensures
            final(self).wf(),
            final(self)@ == old(self)@.define(name@, symType@, kind),
    {
        let ghost before = self@;
        match kind {
            SymbolKind::Arg => {
                self.subroutine_symbols.push(
                    Symbol {
                        name: String::from_str(name),
                        symType: String::from_str(symType),
                        index: self.num_arg,
                        kind,
                    },
                );
                self.num_arg = self.num_arg + 1;
            },
            SymbolKind::Var => {
                self.subroutine_symbols.push(
                    Symbol {
                        name: String::from_str(name),
                        symType: String::from_str(symType),
                        index: self.num_var,
                        kind,
                    },
                );
                self.num_var = self.num_var + 1;
            },
            SymbolKind::Field => {
                self.class_symbols.push(
                    Symbol {
                        name: String::from_str(name),
                        symType: String::from_str(symType),
                        index: self.num_field,
                        kind,
                    },
                );
                self.num_field = self.num_field + 1;
            },
            SymbolKind::Static => {
                self.class_symbols.push(
                    Symbol {
                        name: String::from_str(name),
                        symType: String::from_str(symType),
                        index: self.num_static,
                        kind,
                    },
                );
                self.num_static = self.num_static + 1;
            },
            SymbolKind::NoKind => {
                return ;
            },
        }
        proof {
            let symbol = SymbolView { name: name@, sym_type: symType@, index: before.count(kind), kind };
            let after = self@;
            if kind == SymbolKind::Arg || kind == SymbolKind::Var {
                assert(after.subroutine_symbols =~= before.subroutine_symbols.push(symbol));
                assert(after.subroutine_symbols.drop_last() =~= before.subroutine_symbols);
                assert(after.class_symbols =~= before.class_symbols);
            } else {
                assert(after.class_symbols =~= before.class_symbols.push(symbol));
                assert(after.class_symbols.drop_last() =~= before.class_symbols);
                assert(after.subroutine_symbols =~= before.subroutine_symbols);
            }
        }
    }

    /// The number of variables of a kind.
    pub fn sym_count(&mut self, kind: SymbolKind) -> (n: u32)
        requires
            old(self).wf(),
        ensures
            n == old(self)@.count(kind),
            *final(self) == *old(self),
    {
        match kind {
            SymbolKind::Arg => self.num_arg,
            SymbolKind::Var => self.num_var,
            SymbolKind::Field => self.num_field,
            SymbolKind::Static => self.num_static,
            SymbolKind::NoKind => 0,
        }
    }

    /// The number of variables of the class.
    pub fn num_class_vars(&self) -> (n: usize)
        ensures
            n == self@.class_symbols.len(),
    {
        self.class_symbols.len()
    }

    /// The kind of the variable that a name stands for; `NoKind` where it
    /// stands for no variable.
    pub fn kind_of(&self, name: &String) -> (kind: &SymbolKind)
        ensures
            *kind == match self@.lookup(name@) {
                Some(symbol) => symbol.kind,
                None => SymbolKind::NoKind,
            },
    {
        match find_symbol(&self.class_symbols, name) {
            Some(symbol) => &symbol.kind,
            None => match find_symbol(&self.subroutine_symbols, name) {
                Some(symbol) => &symbol.kind,
                None => &SymbolKind::NoKind,
            },
        }
    }

    /// The type of the variable that a name stands for; `class/subroutine`
    /// where it stands for no variable.
    pub fn type_of(&self, name: &String) -> (sym_type: &str)
        ensures
            sym_type@ == match self@.lookup(name@) {
                Some(symbol) => symbol.sym_type,
                None => "class/subroutine"@,
            },
    {
        match find_symbol(&self.class_symbols, name) {
            Some(symbol) => symbol.symType.as_str(),
            None => match find_symbol(&self.subroutine_symbols, name) {
                Some(symbol) => symbol.symType.as_str(),
                None => "class/subroutine",
            },
        }
    }

    /// The number of the variable that a name stands for.
    pub fn index_of(&mut self, name: &String) -> (index: Option<u32>)
        ensures
            *final(self) == *old(self),
            match old(self)@.lookup(name@) {
                Some(symbol) => index matches Some(i) && i as nat == symbol.index,
                None => index is None,
            },
    {
        match find_symbol(&self.class_symbols, name) {
            Some(symbol) => Some(symbol.index),
            None => match find_symbol(&self.subroutine_symbols, name) {
                Some(symbol) => Some(symbol.index),
                None => None,
            },
        }
    }
}

} // verus!
