use hack_toolchain::jack_compiler::symbol_table::{SymbolKind, SymbolTable};

#[test]
fn a_new_table_knows_nothing() {
    let mut table = SymbolTable::new();
    assert_eq!(table.num_class_vars(), 0);
    for kind in [SymbolKind::Static, SymbolKind::Field, SymbolKind::Arg, SymbolKind::Var, SymbolKind::NoKind] {
        assert_eq!(table.sym_count(kind), 0);
    }
    assert_eq!(*table.kind_of(&"x".to_string()), SymbolKind::NoKind);
    assert_eq!(table.type_of(&"x".to_string()), "class/subroutine");
    assert_eq!(table.index_of(&"x".to_string()), None);
}

#[test]
fn variables_are_numbered_by_kind() {
    let mut table = SymbolTable::new();
    table.define("count", "int", SymbolKind::Static);
    table.define("x", "int", SymbolKind::Field);
    table.define("y", "int", SymbolKind::Field);
    table.define("this", "Point", SymbolKind::Arg);
    table.define("other", "Point", SymbolKind::Arg);
    table.define("dx", "int", SymbolKind::Var);
    table.define("z", "boolean", SymbolKind::Field);

    assert_eq!(table.index_of(&"count".to_string()), Some(0));
    assert_eq!(table.index_of(&"x".to_string()), Some(0));
    assert_eq!(table.index_of(&"y".to_string()), Some(1));
    assert_eq!(table.index_of(&"z".to_string()), Some(2));
    assert_eq!(table.index_of(&"this".to_string()), Some(0));
    assert_eq!(table.index_of(&"other".to_string()), Some(1));
    assert_eq!(table.index_of(&"dx".to_string()), Some(0));

    assert_eq!(*table.kind_of(&"count".to_string()), SymbolKind::Static);
    assert_eq!(*table.kind_of(&"y".to_string()), SymbolKind::Field);
    assert_eq!(*table.kind_of(&"other".to_string()), SymbolKind::Arg);
    assert_eq!(*table.kind_of(&"dx".to_string()), SymbolKind::Var);

    assert_eq!(table.type_of(&"count".to_string()), "int");
    assert_eq!(table.type_of(&"other".to_string()), "Point");
    assert_eq!(table.type_of(&"z".to_string()), "boolean");

    assert_eq!(table.sym_count(SymbolKind::Static), 1);
    assert_eq!(table.sym_count(SymbolKind::Field), 3);
    assert_eq!(table.sym_count(SymbolKind::Arg), 2);
    assert_eq!(table.sym_count(SymbolKind::Var), 1);
    assert_eq!(table.sym_count(SymbolKind::NoKind), 0);
    assert_eq!(table.num_class_vars(), 4);
}

#[test]
fn a_new_subroutine_forgets_arguments_and_locals_only() {
    let mut table = SymbolTable::new();
    table.define("x", "int", SymbolKind::Field);
    table.define("a", "int", SymbolKind::Arg);
    table.define("v", "int", SymbolKind::Var);
    table.start_subroutine();
    assert_eq!(table.sym_count(SymbolKind::Arg), 0);
    assert_eq!(table.sym_count(SymbolKind::Var), 0);
    assert_eq!(table.sym_count(SymbolKind::Field), 1);
    assert_eq!(table.num_class_vars(), 1);
    assert_eq!(table.index_of(&"a".to_string()), None);
    assert_eq!(*table.kind_of(&"v".to_string()), SymbolKind::NoKind);
    assert_eq!(table.index_of(&"x".to_string()), Some(0));
    table.define("b", "char", SymbolKind::Arg);
    assert_eq!(table.index_of(&"b".to_string()), Some(0));
}

#[test]
fn declaring_a_name_of_no_kind_changes_nothing() {
    let mut table = SymbolTable::new();
    table.define("Main", "class", SymbolKind::NoKind);
    assert_eq!(table.num_class_vars(), 0);
    assert_eq!(table.index_of(&"Main".to_string()), None);
    assert_eq!(table.type_of(&"Main".to_string()), "class/subroutine");
}

#[test]
fn a_class_variable_is_found_before_one_of_the_subroutine() {
    let mut table = SymbolTable::new();
    table.define("x", "int", SymbolKind::Var);
    table.define("pad", "int", SymbolKind::Field);
    table.define("x", "boolean", SymbolKind::Field);
    assert_eq!(*table.kind_of(&"x".to_string()), SymbolKind::Field);
    assert_eq!(table.type_of(&"x".to_string()), "boolean");
    assert_eq!(table.index_of(&"x".to_string()), Some(1));
}

#[test]
fn the_first_of_two_declarations_in_one_scope_is_found() {
    let mut table = SymbolTable::new();
    table.define("x", "int", SymbolKind::Var);
    table.define("x", "char", SymbolKind::Arg);
    assert_eq!(*table.kind_of(&"x".to_string()), SymbolKind::Var);
    assert_eq!(table.type_of(&"x".to_string()), "int");
    assert_eq!(table.sym_count(SymbolKind::Arg), 1);
}
