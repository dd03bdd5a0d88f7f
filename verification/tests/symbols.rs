use farnese::symbol::{same_text, Symbol, SymbolTable};
use std::hash::{Hash, Hasher};

#[test]
fn test_symbol_new() {
    let sym = Symbol::new("Any");
    assert_eq!(sym.name(), "Any");
}

#[test]
fn test_symbol_table() {
    let mut sym_table = SymbolTable::new();
    let _ = sym_table.intern("DataType");
}

#[test]
fn interning_depends_on_the_name_alone() {
    let mut first = SymbolTable::new();
    let mut second = SymbolTable::new();
    let _ = second.intern("Other");
    let a = first.intern("Number");
    let b = second.intern("Number");
    let c = first.intern("Number");
    assert_eq!(a, b);
    assert_eq!(a, c);
    assert_eq!(a.hash(), b.hash());
    assert_eq!(a.hash(), Symbol::new("Number").hash());
    assert_eq!(a.name(), "Number");
}

#[test]
fn symbols_with_other_names_differ() {
    assert_ne!(Symbol::new("Int32"), Symbol::new("Int64"));
    assert_eq!(Symbol::from_string("Int32".to_string()), Symbol::new("Int32"));
}

#[test]
fn hash_is_the_hash_of_the_name() {
    let sym = Symbol::new("Real");
    assert_eq!(sym.hash(), Symbol::hash_name("Real"));
    assert_eq!(sym.clone().hash(), sym.hash());
    assert_eq!(Symbol::new("").hash(), Symbol::hash_name(""));
}

#[test]
fn hash_follows_the_standard_hasher() {
    let mut hasher = std::collections::hash_map::DefaultHasher::new();
    "Signed".hash(&mut hasher);
    assert_eq!(Symbol::new("Signed").hash(), hasher.finish() as i64);
}

#[test]
fn table_traces_a_hash_back_to_its_name() {
    let mut table = SymbolTable::new();
    let a = table.intern("alpha");
    let b = table.intern("beta");
    assert_eq!(table.get_name(a.hash()), Some("alpha".to_string()));
    assert_eq!(table.get_name(b.hash()), Some("beta".to_string()));
    assert_eq!(table.get_name(Symbol::hash_name("gamma")), None);
}

#[test]
fn empty_table_knows_no_name() {
    let table = SymbolTable::new();
    assert_eq!(table.get_name(0), None);
}

#[test]
fn same_text_compares_characters() {
    assert!(same_text("printf", "printf"));
    assert!(!same_text("printf", "print"));
    assert!(same_text("", ""));
}
