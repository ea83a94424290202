//! Scopes and a table of symbols, searched from the innermost scope outwards.
use vstd::prelude::*;

use crate::ast::Ast;
use crate::span::Span;
use crate::symbol::{Reference, Symbol, SymbolKind};
use crate::text_map::TextMap;

verus! {

/// What analyses read of a symbol.
pub trait SymbolHandle {
    fn id(&self) -> &str;

    fn name(&self) -> &str;

    fn kind(&self) -> &SymbolKind;

    fn span(&self) -> &Span;

    fn scope_id(&self) -> Option<&str>;

    fn is_exported(&self) -> bool;

    fn is_mutable(&self) -> bool;
}

/// What analyses read of a scope.
pub trait ScopeHandle {
    fn id(&self) -> &str;

    fn parent_id(&self) -> Option<&str>;

    fn span(&self) -> &Span;

    fn symbol_count(&self) -> usize;

    fn contains_symbol(&self, name: &str) -> bool;
}

/// What analyses read of a symbol table.
pub trait SymbolTableHandle {
    type Symbol: SymbolHandle;

    type Scope: ScopeHandle;

    fn symbol_count(&self) -> usize;

    fn scope_count(&self) -> usize;

    fn find_symbol(&self, name: &str) -> Option<&Self::Symbol>;

    fn find_scope(&self, id: &str) -> Option<&Self::Scope>;

    fn current_scope(&self) -> Option<&Self::Scope>;

    fn scope_chain(&self) -> Vec<&str>;
}

/// A semantic analysis of syntax trees of type `A`.
pub trait SemanticAnalyzer<A: Ast> {
    type Context;

    type Error;

    fn analyze(&self, ast: &A) -> Result<Self::Context, Self::Error>;

    fn get_symbols(&self, context: &Self::Context) -> Vec<Symbol>;

    fn get_references(&self, context: &Self::Context, symbol: &Symbol) -> Vec<Reference>;

    fn get_symbol_table(&self, context: &Self::Context) -> &SymbolTable;

    fn get_scope_chain(&self, context: &Self::Context) -> Vec<&Scope>;
}

/// A scope: its identifier, its parent's, the symbols it declares (by name, to symbol
/// identifiers) and its span.
#[derive(Debug)]
pub struct Scope {
    pub id: String,
    pub parent_id: Option<String>,
    pub symbols: TextMap<String>,
    pub span: Span,
}

impl Scope {
    /// A scope without parent and without symbols.
    pub fn new(id: &str, span: Span) -> (r: Scope)
        ensures
            r.id@ == id@,
            r.parent_id is None,
            r.symbols.spec_len() == 0,
            forall|k: Seq<char>| #[trigger] r.symbols.spec_get(k) is None,
            r.span == span,
    {
        Scope { id: id.to_owned(), parent_id: None, symbols: TextMap::new(), span }
    }

    pub fn with_parent(self, parent_id: &str) -> (r: Scope)
        ensures
            r.parent_id matches Some(p) && p@ == parent_id@,
            r.id == self.id,
            r.symbols == self.symbols,
            r.span == self.span,
    {
        let mut scope = self;
        scope.parent_id = Some(parent_id.to_owned());
        scope
    }

    /// Declares `name` in the scope as the symbol `symbol_id`.
    pub fn add_symbol(&mut self, name: &str, symbol_id: &str)
        ensures
            final(self).symbols.spec_get(name@) matches Some(v) && v@ == symbol_id@,
            forall|k: Seq<char>|
                k != name@ ==> #[trigger] final(self).symbols.spec_get(k) == old(
                    self,
                ).symbols.spec_get(k),
            final(self).id == old(self).id,
            final(self).parent_id == old(self).parent_id,
            final(self).span == old(self).span,
    {
        self.symbols.insert(name.to_owned(), symbol_id.to_owned());
    }
}

/// The symbol that `name` denotes when the scopes `chain[..n]` are searched from the last:
/// the first of them that declares `name` decides.
pub open spec fn find_in_chain(
    chain: Seq<String>,
    scopes: TextMap<Scope>,
    symbols: TextMap<Symbol>,
    name: Seq<char>,
    n: int,
) -> Option<Symbol>
    decreases n,
{
    if n <= 0 {
        None
    } else {
        match scopes.spec_get(chain[n - 1]@) {
            Some(scope) => match scope.symbols.spec_get(name) {
                Some(symbol_id) => symbols.spec_get(symbol_id@),
                None => find_in_chain(chain, scopes, symbols, name, n - 1),
            },
            None => find_in_chain(chain, scopes, symbols, name, n - 1),
        }
    }
}

/// The symbols and scopes of a program, and the chain of open scopes, innermost last.
#[derive(Debug)]
pub struct SymbolTable {
    pub symbols: TextMap<Symbol>,
    pub scopes: TextMap<Scope>,
    pub scope_chain: Vec<String>,
}

impl SymbolTable {
    pub fn new() -> (r: SymbolTable)
        ensures
            r.symbols.spec_len() == 0,
            r.scopes.spec_len() == 0,
            r.scope_chain@.len() == 0,
    {
        SymbolTable { symbols: TextMap::new(), scopes: TextMap::new(), scope_chain: Vec::new() }
    }

    /// Records `symbol` under its identifier.
    pub fn add_symbol(&mut self, symbol: Symbol)
        ensures
            final(self).symbols.spec_get(symbol.id@) == Some(symbol),
            forall|k: Seq<char>|
                k != symbol.id@ ==> #[trigger] final(self).symbols.spec_get(k) == old(
                    self,
                ).symbols.spec_get(k),
            final(self).scopes == old(self).scopes,
            final(self).scope_chain == old(self).scope_chain,
    {
        let id = symbol.id.clone();
        self.symbols.insert(id, symbol);
    }

    /// Records `scope` under its identifier.
    pub fn add_scope(&mut self, scope: Scope)
        ensures
            final(self).scopes.spec_get(scope.id@) == Some(scope),
            forall|k: Seq<char>|
                k != scope.id@ ==> #[trigger] final(self).scopes.spec_get(k) == old(
                    self,
                ).scopes.spec_get(k),
            final(self).symbols == old(self).symbols,
            final(self).scope_chain == old(self).scope_chain,
    {
        let id = scope.id.clone();
        self.scopes.insert(id, scope);
    }

    /// Opens the scope `scope_id`, innermost.
    pub fn push_scope(&mut self, scope_id: &str)
        ensures
            final(self).scope_chain@.len() == old(self).scope_chain@.len() + 1,
            final(self).scope_chain@.last()@ == scope_id@,
            final(self).scope_chain@.drop_last() == old(self).scope_chain@,
            final(self).symbols == old(self).symbols,
            final(self).scopes == old(self).scopes,
    {
        self.scope_chain.push(scope_id.to_owned());
        assert(self.scope_chain@.drop_last() =~= old(self).scope_chain@);
    }

    /// Closes the innermost scope and returns its identifier; `None` when no scope is open.
    pub fn pop_scope(&mut self) -> (r: Option<String>)
        ensures
            old(self).scope_chain@.len() == 0 ==> r is None && final(self).scope_chain@.len() == 0,
            old(self).scope_chain@.len() > 0 ==> r == Some(old(self).scope_chain@.last())
                && final(self).scope_chain@ == old(self).scope_chain@.drop_last(),
            final(self).symbols == old(self).symbols,
            final(self).scopes == old(self).scopes,
    {
        self.scope_chain.pop()
    }

    /// The innermost open scope, if it is recorded.
    pub fn current_scope(&self) -> (r: Option<&Scope>)
        ensures
            self.scope_chain@.len() == 0 ==> r is None,
            self.scope_chain@.len() > 0 ==> (match r {
                Some(scope) => self.scopes.spec_get(self.scope_chain@.last()@) == Some(*scope),
                None => self.scopes.spec_get(self.scope_chain@.last()@) is None,
            }),
    {
        let n = self.scope_chain.len();
        if n == 0 {
            None
        } else {
            self.scopes.get(self.scope_chain[n - 1].as_str())
        }
    }

    /// The symbol that `name` denotes, searching the open scopes from the innermost: the
    /// first scope that declares `name` decides, even when its symbol is not recorded.
    pub fn find_symbol(&self, name: &str) -> (r: Option<&Symbol>)
        ensures
            match r {
                Some(symbol) => find_in_chain(
                    self.scope_chain@,
                    self.scopes,
                    self.symbols,
                    name@,
                    self.scope_chain@.len() as int,
                ) == Some(*symbol),
                None => find_in_chain(
                    self.scope_chain@,
                    self.scopes,
                    self.symbols,
                    name@,
                    self.scope_chain@.len() as int,
                ) is None,
            },
    {
        let mut n = self.scope_chain.len();
        while n > 0
            invariant
                n <= self.scope_chain@.len(),
                find_in_chain(
                    self.scope_chain@,
                    self.scopes,
                    self.symbols,
                    name@,
                    self.scope_chain@.len() as int,
                ) == find_in_chain(self.scope_chain@, self.scopes, self.symbols, name@, n as int),
            decreases n,
        {
            if let Some(scope) = self.scopes.get(self.scope_chain[n - 1].as_str()) {
                if let Some(symbol_id) = scope.symbols.get(name) {
                    return self.symbols.get(symbol_id.as_str());
                }
            }
            n -= 1;
        }
        None
    }
}

/// Symbols are neither exported nor mutable as far as this table knows.
impl SymbolHandle for Symbol {
    fn id(&self) -> &str {
        self.id.as_str()
    }

    fn name(&self) -> &str {
        self.name.as_str()
    }

    fn kind(&self) -> &SymbolKind {
        &self.kind
    }

    fn span(&self) -> &Span {
        &self.span
    }

    fn scope_id(&self) -> Option<&str> {
        match &self.scope_id {
            Some(id) => Some(id.as_str()),
            None => None,
        }
    }

    fn is_exported(&self) -> bool {
        false
    }

    fn is_mutable(&self) -> bool {
        false
    }
}

impl ScopeHandle for Scope {
    fn id(&self) -> &str {
        self.id.as_str()
    }

    fn parent_id(&self) -> Option<&str> {
        match &self.parent_id {
            Some(id) => Some(id.as_str()),
            None => None,
        }
    }

    fn span(&self) -> &Span {
        &self.span
    }

    fn symbol_count(&self) -> usize {
        self.symbols.len()
    }

    fn contains_symbol(&self, name: &str) -> bool {
        self.symbols.contains_key(name)
    }
}

impl SymbolTableHandle for SymbolTable {
    type Symbol = Symbol;

    type Scope = Scope;

    fn symbol_count(&self) -> usize {
        self.symbols.len()
    }

    fn scope_count(&self) -> usize {
        self.scopes.len()
    }

    fn find_symbol(&self, name: &str) -> Option<&Symbol> {
        SymbolTable::find_symbol(self, name)
    }

    fn find_scope(&self, id: &str) -> Option<&Scope> {
        self.scopes.get(id)
    }

    fn current_scope(&self) -> Option<&Scope> {
        SymbolTable::current_scope(self)
    }

    fn scope_chain(&self) -> Vec<&str> {
        let mut chain: Vec<&str> = Vec::new();
        let mut i: usize = 0;
        while i < self.scope_chain.len()
            invariant
                i <= self.scope_chain@.len(),
            decreases self.scope_chain@.len() - i,
        {
            chain.push(self.scope_chain[i].as_str());
            i += 1;
        }
        chain
    }
}

impl Default for SymbolTable {
    fn default() -> (r: SymbolTable)
        ensures
            r.symbols.spec_len() == 0,
            r.scopes.spec_len() == 0,
            r.scope_chain@.len() == 0,
    {
        SymbolTable::new()
    }
}

} // verus!
