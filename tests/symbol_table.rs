use rpa_source::document::FileId;
use rpa_source::span::Span;
use rpa_source::symbol::{Symbol, SymbolKind};
use rpa_source::symbol_table::{Scope, ScopeHandle, SymbolHandle, SymbolTable, SymbolTableHandle};

fn symbol(id: &str) -> Symbol {
    Symbol::new(
        id.to_string(),
        id.to_string(),
        SymbolKind::Function,
        Span::new(0, 10),
        FileId::new("integration.py"),
    )
}

#[test]
fn test_symbol_table_integration() {
    let mut symbol_table = SymbolTable::new();
    let file_id = FileId::new("integration.py");
    let symbol = Symbol::new(
        "func".to_string(),
        "func".to_string(),
        SymbolKind::Function,
        Span::new(0, 10),
        file_id,
    );
    symbol_table.add_symbol(symbol);
    assert_eq!(symbol_table.symbols.len(), 1);
}

#[test]
fn find_symbol_searches_innermost_first() {
    let mut table = SymbolTable::default();
    table.add_symbol(symbol("outer_f"));
    table.add_symbol(symbol("inner_f"));
    let mut global = Scope::new("global", Span::new(0, 100));
    global.add_symbol("f", "outer_f");
    global.add_symbol("g", "outer_f");
    let mut inner = Scope::new("inner", Span::new(10, 20)).with_parent("global");
    inner.add_symbol("f", "inner_f");
    assert_eq!(inner.parent_id.as_deref(), Some("global"));
    table.add_scope(global);
    table.add_scope(inner);

    assert!(table.find_symbol("f").is_none());
    table.push_scope("global");
    assert_eq!(table.find_symbol("f").unwrap().id, "outer_f");
    table.push_scope("inner");
    assert_eq!(table.current_scope().unwrap().id, "inner");
    assert_eq!(table.find_symbol("f").unwrap().id, "inner_f");
    assert_eq!(table.find_symbol("g").unwrap().id, "outer_f");
    assert!(table.find_symbol("h").is_none());
    assert_eq!(table.pop_scope(), Some("inner".to_string()));
    assert_eq!(table.find_symbol("f").unwrap().id, "outer_f");
    assert_eq!(table.pop_scope(), Some("global".to_string()));
    assert_eq!(table.pop_scope(), None);
    assert!(table.current_scope().is_none());
}

#[test]
fn re_adding_a_symbol_replaces_it() {
    let mut table = SymbolTable::new();
    table.add_symbol(symbol("a"));
    table.add_symbol(symbol("a"));
    table.add_symbol(symbol("b"));
    assert_eq!(table.symbols.len(), 2);
    assert!(table.symbols.contains_key("b"));
    assert!(!table.symbols.is_empty());
}

#[test]
fn handles_read_tables_and_scopes() {
    use_handles();
}

fn use_handles() {
    use_table(&{
        let mut table = SymbolTable::new();
        table.add_symbol(symbol("s1"));
        let mut scope = Scope::new("m", Span::new(0, 5)).with_parent("root");
        scope.add_symbol("x", "s1");
        table.add_scope(scope);
        table.push_scope("m");
        table
    });
}

fn use_table(table: &SymbolTable) {
    assert_eq!(SymbolTableHandle::symbol_count(table), 1);
    assert_eq!(SymbolTableHandle::scope_count(table), 1);
    assert_eq!(SymbolTableHandle::scope_chain(table), vec!["m"]);
    let scope = SymbolTableHandle::find_scope(table, "m").unwrap();
    assert_eq!(ScopeHandle::id(scope), "m");
    assert_eq!(ScopeHandle::parent_id(scope), Some("root"));
    assert_eq!(ScopeHandle::symbol_count(scope), 1);
    assert!(ScopeHandle::contains_symbol(scope, "x"));
    let symbol = SymbolTableHandle::find_symbol(table, "x").unwrap();
    assert_eq!(SymbolHandle::id(symbol), "s1");
    assert_eq!(SymbolHandle::scope_id(symbol), None);
    assert!(!SymbolHandle::is_exported(symbol));
}
