//! The symbol tables of the checker: for each module, its scopes of
//! symbols, its type symbols and its containers, and how names are defined in
//! them and found again. Modules are named by their paths. Expressions are
//! resolved against the tables in `expr`.
pub mod entries;
pub mod expr;
pub mod number;
pub mod walk;

use vstd::prelude::*;

use crate::ast::Visibility;
use crate::symbols::TypeSymbolKind;
use crate::text::str_equals;
use crate::types::Type;
use entries::{
    define, find_entry, first_index, insert_entry, lemma_define, lemma_define_all, lemma_define_map,
    lemma_first_index, lemma_first_index_map, lemma_first_index_valid, lemma_lookup_replace,
    lemma_lookup_update, lookup,
};

verus! {

/// Errors met while checking modules, with the names they are about.
#[derive(Debug, Clone, Copy, PartialEq, Eq)]
pub enum CheckError<'a> {
    /// No source for the module `module` in the registry.
    ModuleNotInRegistry { line: usize, col: usize, module: &'a str },
    /// No table for the module `module`.
    ModuleNotFound { line: usize, col: usize, module: &'a str },
    /// The table of `module` has no scope at the current index.
    NoScopes { line: usize, col: usize, module: &'a str },
    /// Checking `to` again while checking `from`.
    CircularImport { line: usize, col: usize, from: &'a str, to: &'a str },
    /// No global symbol `id` in `module`.
    GlobalSymbolNotFound { line: usize, col: usize, id: &'a str, module: &'a str },
    /// The symbol `id` of another module is private.
    PrivateSymbol { line: usize, col: usize, id: &'a str },
    /// No symbol `id` in the current scope or the ones around it.
    LocalSymbolNotFound { line: usize, col: usize, id: &'a str },
    /// No type symbol `id` in `module`.
    TypeSymbolNotFound { line: usize, col: usize, id: &'a str, module: &'a str },
    /// No container `id` in `module`.
    ContainerNotFound { line: usize, col: usize, id: &'a str, module: &'a str },
    /// The container `id` of another module is private.
    PrivateContainer { line: usize, col: usize, id: &'a str },
    /// A number too large for its type.
    OutOfBounds { line: usize, col: usize, signed: bool },
    /// No symbol, type symbol or container named `id`.
    UndefinedIdentifier { line: usize, col: usize, id: &'a str },
    /// A static access whose target is a symbol but not a module.
    NotAModule { line: usize, col: usize },
    /// No member `member` in the type symbol of kind `kind`.
    NoMember { line: usize, col: usize, member: &'a str, kind: TypeSymbolKind<'a> },
    /// A static access to a member that is not static.
    NotStatic { line: usize, col: usize, member: &'a str, kind: TypeSymbolKind<'a> },
    /// A member access to a static member.
    IsStatic { line: usize, col: usize, member: &'a str, kind: TypeSymbolKind<'a> },
    /// A static access to something that has no static entries.
    NoStaticAccess { line: usize, col: usize },
    /// A member access to something that has no members.
    NoMemberAccess { line: usize, col: usize },
}

/// A named value, function, module or member, with the module that defines
/// it.
#[derive(Debug)]
pub struct ScopeSymbol<'a> {
    pub id: &'a str,
    pub module: &'a str,
    pub scope_index: Option<usize>,
    pub visibility: Visibility,
    pub ty: Type<'a>,
    pub is_static_member: bool,
}

/// A type that members can be looked up in.
#[derive(Debug)]
pub struct TypeSymbol<'a> {
    pub module: &'a str,
    pub visibility: Visibility,
    pub kind: TypeSymbolKind<'a>,
    pub members: Vec<(&'a str, ScopeSymbol<'a>)>,
}

/// A named group of type symbols.
#[derive(Debug)]
pub struct Container<'a> {
    pub id: &'a str,
    pub module: &'a str,
    pub visibility: Visibility,
    pub type_symbols: Vec<&'a str>,
}

/// A scope: its symbols, and the scope it is nested in.
#[derive(Debug)]
pub struct Scope<'a> {
    pub parent: Option<usize>,
    pub scope_symbols: Vec<(&'a str, ScopeSymbol<'a>)>,
}

/// The tables of one module.
#[derive(Debug)]
pub struct ModuleTable<'a> {
    pub scopes: Vec<Scope<'a>>,
    pub type_symbols: Vec<(&'a str, TypeSymbol<'a>)>,
    pub containers: Vec<(&'a str, Container<'a>)>,
}

/// The model of a scope.
pub struct ScopeModel<'a> {
    pub parent: Option<usize>,
    pub symbols: Seq<(&'a str, ScopeSymbol<'a>)>,
}

/// The model of the tables of a module.
pub struct TableModel<'a> {
    pub scopes: Seq<ScopeModel<'a>>,
    pub type_symbols: Seq<(&'a str, TypeSymbol<'a>)>,
    pub containers: Seq<(&'a str, Container<'a>)>,
}

impl<'a> View for Scope<'a> {
    type V = ScopeModel<'a>;

    open spec fn view(&self) -> ScopeModel<'a> {
        ScopeModel { parent: self.parent, symbols: self.scope_symbols@ }
    }
}

impl<'a> View for ModuleTable<'a> {
    type V = TableModel<'a>;

    open spec fn view(&self) -> TableModel<'a> {
        TableModel {
            scopes: self.scopes@.map_values(|s: Scope<'a>| s@),
            type_symbols: self.type_symbols@,
            containers: self.containers@,
        }
    }
}

/// The model of a checker: the module being checked, the modules whose
/// checking has started, the chain of modules being checked (each one
/// imported by the one before it), the table of each module, and the index of
/// the current scope.
pub struct CheckerState<'a> {
    pub current: &'a str,
    pub checked: Seq<&'a str>,
    pub chain: Seq<&'a str>,
    pub tables: Seq<(&'a str, TableModel<'a>)>,
    pub scope: nat,
}

/// The tables of a module are sound when it has a scope and each scope is
/// nested in one before it.
pub open spec fn table_wf<'a>(t: TableModel<'a>) -> bool {
    &&& t.scopes.len() > 0
    &&& forall|i: int| 0 <= i < t.scopes.len() ==> match (#[trigger] t.scopes[i]).parent {
        Some(p) => p < i,
        None => true,
    }
}

/// Every table is sound, and the current scope is the global one, the only
/// scope that the checker enters.
pub open spec fn state_wf<'a>(st: CheckerState<'a>) -> bool {
    &&& forall|i: int| 0 <= i < st.tables.len() ==> table_wf(#[trigger] st.tables[i].1)
    &&& st.scope == 0
}

/// The model of an entry of the module tables.
pub open spec fn entry_view<'a>(e: (&'a str, ModuleTable<'a>)) -> (&'a str, TableModel<'a>) {
    (e.0, e.1@)
}

/// The models of the module tables.
pub open spec fn tables_view<'a>(v: Seq<(&'a str, ModuleTable<'a>)>) -> Seq<(&'a str, TableModel<'a>)> {
    v.map_values(|e: (&'a str, ModuleTable<'a>)| entry_view(e))
}

/// The tables of a module when it starts being checked: one global scope and
/// nothing in it.
pub open spec fn fresh_table<'a>() -> TableModel<'a> {
    TableModel {
        scopes: seq![ScopeModel { parent: None, symbols: Seq::empty() }],
        type_symbols: Seq::empty(),
        containers: Seq::empty(),
    }
}

/// Whether `module` is one of `modules`.
pub open spec fn names_in<'a>(modules: Seq<&'a str>, module: &'a str) -> bool {
    exists|k: int| 0 <= k < modules.len() && (#[trigger] modules[k])@ == module@
}

/// Starting to check `module`: a module still being checked (on the chain)
/// closes a cycle of imports and is refused; a module checked before needs
/// nothing more (`None`); any other becomes the current module, with fresh
/// tables and the global scope, at the end of the chain.
pub open spec fn begin_in<'a>(st: CheckerState<'a>, module: &'a str, line: usize, col: usize) -> Result<
    Option<CheckerState<'a>>,
    CheckError<'a>,
> {
    if names_in(st.chain, module) {
        Err(CheckError::CircularImport { line, col, from: st.current, to: module })
    } else if names_in(st.checked, module) {
        Ok(None)
    } else {
        Ok(
            Some(
                CheckerState {
                    current: module,
                    checked: st.checked.push(module),
                    chain: st.chain.push(module),
                    tables: define(st.tables, module, fresh_table()),
                    scope: 0,
                },
            ),
        )
    }
}

/// Finishing the current module: it leaves the chain, and `previous` is
/// current again.
pub open spec fn end_in<'a>(st: CheckerState<'a>, previous: &'a str) -> CheckerState<'a> {
    CheckerState {
        current: previous,
        chain: if st.chain.len() > 0 {
            st.chain.drop_last()
        } else {
            st.chain
        },
        ..st
    }
}

/// The symbol `id` found from scope `idx` outwards.
pub open spec fn scope_lookup<'a>(scopes: Seq<ScopeModel<'a>>, idx: int, id: Seq<char>) -> Option<ScopeSymbol<'a>>
    decreases idx,
{
    if 0 <= idx < scopes.len() {
        match lookup(scopes[idx].symbols, id) {
            Some(s) => Some(s),
            None => match scopes[idx].parent {
                Some(p) => if p < idx {
                    scope_lookup(scopes, p as int, id)
                } else {
                    None
                },
                None => None,
            },
        }
    } else {
        None
    }
}

/// Defining the symbol `id` in the current scope of the current module.
pub open spec fn define_scope_in<'a>(
    st: CheckerState<'a>,
    id: &'a str,
    symbol: ScopeSymbol<'a>,
    line: usize,
    col: usize,
) -> Result<CheckerState<'a>, CheckError<'a>> {
    match first_index(st.tables, st.current@) {
        None => Err(CheckError::ModuleNotFound { line, col, module: st.current }),
        Some(k) => {
            let t = st.tables[k].1;
            if st.scope >= t.scopes.len() {
                Err(CheckError::NoScopes { line, col, module: st.current })
            } else {
                let s = t.scopes[st.scope as int];
                let s2 = ScopeModel { parent: s.parent, symbols: define(s.symbols, id, symbol) };
                let t2 = TableModel { scopes: t.scopes.update(st.scope as int, s2), ..t };
                Ok(CheckerState { tables: st.tables.update(k, (st.tables[k].0, t2)), ..st })
            }
        },
    }
}

/// Defining the type symbol `id` in the current module.
pub open spec fn define_type_in<'a>(
    st: CheckerState<'a>,
    id: &'a str,
    symbol: TypeSymbol<'a>,
    line: usize,
    col: usize,
) -> Result<CheckerState<'a>, CheckError<'a>> {
    match first_index(st.tables, st.current@) {
        None => Err(CheckError::ModuleNotFound { line, col, module: st.current }),
        Some(k) => {
            let t = st.tables[k].1;
            let t2 = TableModel { type_symbols: define(t.type_symbols, id, symbol), ..t };
            Ok(CheckerState { tables: st.tables.update(k, (st.tables[k].0, t2)), ..st })
        },
    }
}

/// Defining the container `id` in the current module.
pub open spec fn define_container_in<'a>(
    st: CheckerState<'a>,
    id: &'a str,
    container: Container<'a>,
    line: usize,
    col: usize,
) -> Result<CheckerState<'a>, CheckError<'a>> {
    match first_index(st.tables, st.current@) {
        None => Err(CheckError::ModuleNotFound { line, col, module: st.current }),
        Some(k) => {
            let t = st.tables[k].1;
            let t2 = TableModel { containers: define(t.containers, id, container), ..t };
            Ok(CheckerState { tables: st.tables.update(k, (st.tables[k].0, t2)), ..st })
        },
    }
}

/// The symbol `id` seen from the current module in `path`: for another
/// module, a public global symbol of it; for the current one, the symbol
/// found from the current scope outwards.
pub open spec fn resolve_scope_in<'a>(
    st: CheckerState<'a>,
    id: &'a str,
    path: &'a str,
    line: usize,
    col: usize,
) -> Result<ScopeSymbol<'a>, CheckError<'a>> {
    match lookup(st.tables, path@) {
        None => Err(CheckError::ModuleNotFound { line, col, module: path }),
        Some(t) => if path@ != st.current@ {
            match lookup(t.scopes[0].symbols, id@) {
                None => Err(CheckError::GlobalSymbolNotFound { line, col, id, module: path }),
                Some(s) => if s.visibility is Priv {
                    Err(CheckError::PrivateSymbol { line, col, id })
                } else {
                    Ok(s)
                },
            }
        } else {
            match scope_lookup(t.scopes, st.scope as int, id@) {
                Some(s) => Ok(s),
                None => Err(CheckError::LocalSymbolNotFound { line, col, id }),
            }
        },
    }
}

/// The type symbol `id` of the module `path`; a private one only from that
/// module itself.
pub open spec fn resolve_type_in<'a>(
    st: CheckerState<'a>,
    id: &'a str,
    path: &'a str,
    line: usize,
    col: usize,
) -> Result<TypeSymbol<'a>, CheckError<'a>> {
    match lookup(st.tables, path@) {
        None => Err(CheckError::ModuleNotFound { line, col, module: path }),
        Some(t) => match lookup(t.type_symbols, id@) {
            None => Err(CheckError::TypeSymbolNotFound { line, col, id, module: path }),
            Some(s) => if s.visibility is Priv && path@ != st.current@ {
                Err(CheckError::PrivateSymbol { line, col, id })
            } else {
                Ok(s)
            },
        },
    }
}

/// The container `id` of the module `path`; a private one only from that
/// module itself.
pub open spec fn resolve_container_in<'a>(
    st: CheckerState<'a>,
    id: &'a str,
    path: &'a str,
    line: usize,
    col: usize,
) -> Result<Container<'a>, CheckError<'a>> {
    match lookup(st.tables, path@) {
        None => Err(CheckError::ModuleNotFound { line, col, module: path }),
        Some(t) => match lookup(t.containers, id@) {
            None => Err(CheckError::ContainerNotFound { line, col, id, module: path }),
            Some(c) => if c.visibility is Priv && path@ != st.current@ {
                Err(CheckError::PrivateContainer { line, col, id })
            } else {
                Ok(c)
            },
        },
    }
}

/// A symbol defined in the current module is found there under its name.
pub proof fn lemma_define_then_resolve_scope<'a>(
    st: CheckerState<'a>,
    id: &'a str,
    symbol: ScopeSymbol<'a>,
    line: usize,
    col: usize,
    at_line: usize,
    at_col: usize,
)
    requires
        state_wf(st),
        define_scope_in(st, id, symbol, line, col) is Ok,
    ensures
        resolve_scope_in(define_scope_in(st, id, symbol, line, col)->Ok_0, id, st.current, at_line, at_col)
            == Ok::<ScopeSymbol<'a>, CheckError<'a>>(symbol),
{
    let k = first_index(st.tables, st.current@)->0;
    lemma_first_index_valid(st.tables, st.current@);
    let t = st.tables[k].1;
    let s = t.scopes[0];
    let t2 = TableModel {
        scopes: t.scopes.update(0, ScopeModel { parent: s.parent, symbols: define(s.symbols, id, symbol) }),
        ..t
    };
    lemma_lookup_replace(st.tables, st.current@, k, t2);
    lemma_define(s.symbols, id, symbol, id@);
}

/// Defining a symbol leaves every other name as it was found before.
pub proof fn lemma_define_scope_keeps_others<'a>(
    st: CheckerState<'a>,
    id: &'a str,
    symbol: ScopeSymbol<'a>,
    line: usize,
    col: usize,
    other: &'a str,
    path: &'a str,
    at_line: usize,
    at_col: usize,
)
    requires
        state_wf(st),
        define_scope_in(st, id, symbol, line, col) is Ok,
        other@ != id@,
    ensures
        resolve_scope_in(define_scope_in(st, id, symbol, line, col)->Ok_0, other, path, at_line, at_col)
            == resolve_scope_in(st, other, path, at_line, at_col),
{
    let k = first_index(st.tables, st.current@)->0;
    lemma_first_index_valid(st.tables, st.current@);
    let t = st.tables[k].1;
    let s = t.scopes[0];
    let s2 = ScopeModel { parent: s.parent, symbols: define(s.symbols, id, symbol) };
    let t2 = TableModel { scopes: t.scopes.update(0, s2), ..t };
    let st2 = define_scope_in(st, id, symbol, line, col)->Ok_0;
    lemma_lookup_replace(st.tables, st.current@, k, t2);
    lemma_define(s.symbols, id, symbol, other@);
    assert(table_wf(t));
    if path@ != st.current@ {
        lemma_lookup_update(st.tables, k, (st.tables[k].0, t2), path@);
    } else {
        assert(t.scopes[0].parent is None);
        assert(t2.scopes[0] == s2);
    }
}

/// A type symbol defined in the current module is found there under its
/// name.
pub proof fn lemma_define_then_resolve_type<'a>(
    st: CheckerState<'a>,
    id: &'a str,
    symbol: TypeSymbol<'a>,
    line: usize,
    col: usize,
    at_line: usize,
    at_col: usize,
)
    requires
        define_type_in(st, id, symbol, line, col) is Ok,
    ensures
        resolve_type_in(define_type_in(st, id, symbol, line, col)->Ok_0, id, st.current, at_line, at_col)
            == Ok::<TypeSymbol<'a>, CheckError<'a>>(symbol),
{
    let k = first_index(st.tables, st.current@)->0;
    lemma_first_index_valid(st.tables, st.current@);
    let t = st.tables[k].1;
    let t2 = TableModel { type_symbols: define(t.type_symbols, id, symbol), ..t };
    lemma_lookup_replace(st.tables, st.current@, k, t2);
    lemma_define(t.type_symbols, id, symbol, id@);
}

/// A container defined in the current module is found there under its name.
pub proof fn lemma_define_then_resolve_container<'a>(
    st: CheckerState<'a>,
    id: &'a str,
    container: Container<'a>,
    line: usize,
    col: usize,
    at_line: usize,
    at_col: usize,
)
    requires
        define_container_in(st, id, container, line, col) is Ok,
    ensures
        resolve_container_in(define_container_in(st, id, container, line, col)->Ok_0, id, st.current, at_line, at_col)
            == Ok::<Container<'a>, CheckError<'a>>(container),
{
    let k = first_index(st.tables, st.current@)->0;
    lemma_first_index_valid(st.tables, st.current@);
    let t = st.tables[k].1;
    let t2 = TableModel { containers: define(t.containers, id, container), ..t };
    lemma_lookup_replace(st.tables, st.current@, k, t2);
    lemma_define(t.containers, id, container, id@);
}

/// Defining a type symbol leaves every other type name as it was found
/// before.
pub proof fn lemma_define_type_keeps_others<'a>(
    st: CheckerState<'a>,
    id: &'a str,
    symbol: TypeSymbol<'a>,
    line: usize,
    col: usize,
    other: &'a str,
    path: &'a str,
    at_line: usize,
    at_col: usize,
)
    requires
        define_type_in(st, id, symbol, line, col) is Ok,
        other@ != id@,
    ensures
        resolve_type_in(define_type_in(st, id, symbol, line, col)->Ok_0, other, path, at_line, at_col)
            == resolve_type_in(st, other, path, at_line, at_col),
{
    let k = first_index(st.tables, st.current@)->0;
    lemma_first_index_valid(st.tables, st.current@);
    let t = st.tables[k].1;
    let t2 = TableModel { type_symbols: define(t.type_symbols, id, symbol), ..t };
    lemma_lookup_replace(st.tables, st.current@, k, t2);
    lemma_define(t.type_symbols, id, symbol, other@);
    if path@ != st.current@ {
        lemma_lookup_update(st.tables, k, (st.tables[k].0, t2), path@);
    }
}

/// Defining a container leaves every other container name as it was found
/// before.
pub proof fn lemma_define_container_keeps_others<'a>(
    st: CheckerState<'a>,
    id: &'a str,
    container: Container<'a>,
    line: usize,
    col: usize,
    other: &'a str,
    path: &'a str,
    at_line: usize,
    at_col: usize,
)
    requires
        define_container_in(st, id, container, line, col) is Ok,
        other@ != id@,
    ensures
        resolve_container_in(define_container_in(st, id, container, line, col)->Ok_0, other, path, at_line, at_col)
            == resolve_container_in(st, other, path, at_line, at_col),
{
    let k = first_index(st.tables, st.current@)->0;
    lemma_first_index_valid(st.tables, st.current@);
    let t = st.tables[k].1;
    let t2 = TableModel { containers: define(t.containers, id, container), ..t };
    lemma_lookup_replace(st.tables, st.current@, k, t2);
    lemma_define(t.containers, id, container, other@);
    if path@ != st.current@ {
        lemma_lookup_update(st.tables, k, (st.tables[k].0, t2), path@);
    }
}

/// Starting a module gives it fresh tables and leaves the tables of every
/// other module as they were.
pub proof fn lemma_begin_keeps_other_tables<'a>(
    st: CheckerState<'a>,
    module: &'a str,
    line: usize,
    col: usize,
    path: Seq<char>,
)
    requires
        begin_in(st, module, line, col) matches Ok(Some(_)),
    ensures
        lookup(begin_in(st, module, line, col)->Ok_0->Some_0.tables, module@) == Some(fresh_table::<'a>()),
        path != module@ ==> lookup(begin_in(st, module, line, col)->Ok_0->Some_0.tables, path) == lookup(
            st.tables,
            path,
        ),
{
    lemma_define(st.tables, module, fresh_table(), path);
}

/// Starting a module again while it is still being checked is refused as a
/// circular import.
pub proof fn lemma_cycle_refused<'a>(
    st: CheckerState<'a>,
    module: &'a str,
    line: usize,
    col: usize,
    again_line: usize,
    again_col: usize,
)
    requires
        begin_in(st, module, line, col) matches Ok(Some(_)),
    ensures
        begin_in(begin_in(st, module, line, col)->Ok_0->Some_0, module, again_line, again_col) == Err::<
            Option<CheckerState<'a>>,
            CheckError<'a>,
        >(CheckError::CircularImport { line: again_line, col: again_col, from: module, to: module }),
{
    let st2 = begin_in(st, module, line, col)->Ok_0->Some_0;
    assert(st2.chain[st.chain.len() as int] == module);
}

/// A module is checked at most once: once it is finished, starting it again
/// (imported by another module) needs nothing more and changes nothing.
pub proof fn lemma_module_checked_once<'a>(
    st: CheckerState<'a>,
    module: &'a str,
    line: usize,
    col: usize,
    previous: &'a str,
    again_line: usize,
    again_col: usize,
)
    requires
        begin_in(st, module, line, col) matches Ok(Some(_)),
    ensures
        begin_in(end_in(begin_in(st, module, line, col)->Ok_0->Some_0, previous), module, again_line, again_col)
            == Ok::<Option<CheckerState<'a>>, CheckError<'a>>(None),
{
    let st2 = begin_in(st, module, line, col)->Ok_0->Some_0;
    let st3 = end_in(st2, previous);
    assert(st2.chain.drop_last() =~= st.chain);
    assert(st3.checked[st.checked.len() as int] == module);
}

/// Symbols, type symbols and containers of another module are found only
/// when they are public.
pub proof fn lemma_other_modules_see_public<'a>(
    st: CheckerState<'a>,
    id: &'a str,
    path: &'a str,
    line: usize,
    col: usize,
)
    requires
        path@ != st.current@,
    ensures
        resolve_scope_in(st, id, path, line, col) matches Ok(s) ==> s.visibility is Pub,
        resolve_type_in(st, id, path, line, col) matches Ok(s) ==> s.visibility is Pub,
        resolve_container_in(st, id, path, line, col) matches Ok(c) ==> c.visibility is Pub,
{
}

/// Scope lookup finds a name in the innermost scope that defines it: a
/// scope's own symbol shadows those of the scopes around it, and a scope
/// without it defers to its parent.
pub proof fn lemma_scope_shadowing<'a>(scopes: Seq<ScopeModel<'a>>, idx: int, id: Seq<char>)
    requires
        0 <= idx < scopes.len(),
    ensures
        lookup(scopes[idx].symbols, id) matches Some(s) ==> scope_lookup(scopes, idx, id) == Some(s),
        lookup(scopes[idx].symbols, id) is None ==> scope_lookup(scopes, idx, id) == match scopes[idx].parent {
            Some(p) => if p < idx {
                scope_lookup(scopes, p as int, id)
            } else {
                None
            },
            None => None,
        },
{
}

/// In another module, a symbol is found exactly when its global scope holds
/// it and it is public.
pub proof fn lemma_other_module_lookup<'a>(
    st: CheckerState<'a>,
    id: &'a str,
    path: &'a str,
    line: usize,
    col: usize,
    s: ScopeSymbol<'a>,
)
    requires
        path@ != st.current@,
    ensures
        resolve_scope_in(st, id, path, line, col) == Ok::<ScopeSymbol<'a>, CheckError<'a>>(s) <==> (lookup(
            st.tables,
            path@,
        ) matches Some(t) && lookup(t.scopes[0].symbols, id@) == Some(s) && s.visibility is Pub),
{
}

/// The state of the checker's symbol tables.
pub struct Checker<'a> {
    current_module: &'a str,
    checked_modules: Vec<&'a str>,
    module_chain: Vec<&'a str>,
    module_tables: Vec<(&'a str, ModuleTable<'a>)>,
    scope_index: usize,
}

impl<'a> Checker<'a> {
    /// The model of this checker.
    pub closed spec fn state(&self) -> CheckerState<'a> {
        CheckerState {
            current: self.current_module,
            checked: self.checked_modules@,
            chain: self.module_chain@,
            tables: tables_view(self.module_tables@),
            scope: self.scope_index as nat,
        }
    }

    /// The tables are sound.
    pub open spec fn wf(&self) -> bool {
        state_wf(self.state())
    }

    /// A checker that starts at `main_module`, with no tables yet.
    pub fn new(main_module: &'a str) -> (r: Self)
        ensures
            r.state() == (CheckerState::<'a> {
                current: main_module,
                checked: Seq::empty(),
                chain: Seq::empty(),
                tables: Seq::empty(),
                scope: 0,
            }),
            r.wf(),
    {
        let r = Self {
            current_module: main_module,
            checked_modules: Vec::new(),
            module_chain: Vec::new(),
            module_tables: Vec::new(),
            scope_index: 0,
        };
        proof {
            assert(r.state().tables =~= Seq::<(&'a str, TableModel<'a>)>::empty());
        }
        r
    }

    /// The tables of each module, in the order the modules were started.
    pub fn module_tables(&self) -> (r: &Vec<(&'a str, ModuleTable<'a>)>)
        ensures
            tables_view(r@) == self.state().tables,
    {
        &self.module_tables
    }

    /// The current module.
    pub fn current_module(&self) -> (r: &'a str)
        ensures
            r == self.state().current,
    {
        self.current_module
    }

    /// Whether `module` is one of `modules`.
    fn names(modules: &Vec<&'a str>, module: &'a str) -> (r: bool)
        ensures
            r == names_in(modules@, module),
    {
        let mut k: usize = 0;
        while k < modules.len()
            invariant
                k <= modules.len(),
                forall|j: int| 0 <= j < k ==> (#[trigger] modules@[j])@ != module@,
            decreases modules.len() - k,
        {
            if str_equals(modules[k], module) {
                return true;
            }
            k += 1;
        }
        false
    }

    /// Starts checking `module`. A module still being checked closes a cycle
    /// of imports and is refused; a module checked before needs nothing more
    /// (`Ok(None)`, nothing changes); any other becomes the current module,
    /// with fresh tables, and the module that was current is given back.
    pub fn begin_module(&mut self, module: &'a str, line: usize, col: usize) -> (r: Result<
        Option<&'a str>,
        CheckError<'a>,
    >)
        requires
            old(self).wf(),
        ensures
            final(self).wf(),
            match r {
                Ok(Some(previous)) => previous == old(self).state().current && begin_in(
                    old(self).state(),
                    module,
                    line,
                    col,
                ) == Ok::<Option<CheckerState<'a>>, CheckError<'a>>(Some(final(self).state())),
                Ok(None) => begin_in(old(self).state(), module, line, col) == Ok::<
                    Option<CheckerState<'a>>,
                    CheckError<'a>,
                >(None) && final(self).state() == old(self).state(),
                Err(e) => begin_in(old(self).state(), module, line, col) == Err::<
                    Option<CheckerState<'a>>,
                    CheckError<'a>,
                >(e) && final(self).state() == old(self).state(),
            },
    {
        if Self::names(&self.module_chain, module) {
            return Err(CheckError::CircularImport { line, col, from: self.current_module, to: module });
        }
        if Self::names(&self.checked_modules, module) {
            return Ok(None);
        }

        let old_module = self.current_module;
        self.current_module = module;
        self.checked_modules.push(module);
        self.module_chain.push(module);

        let mut scopes = Vec::new();
        scopes.push(Scope { parent: None, scope_symbols: Vec::new() });
        let table = ModuleTable { scopes, type_symbols: Vec::new(), containers: Vec::new() };
        proof {
            assert(table@.scopes =~= fresh_table::<'a>().scopes);
            assert(table@ == fresh_table::<'a>());
            lemma_define_map(self.module_tables@, |e: (&'a str, ModuleTable<'a>)| entry_view(e), module, table);
            lemma_define_all(
                tables_view(self.module_tables@),
                module,
                fresh_table(),
                |t: TableModel<'a>| table_wf(t),
            );
        }
        insert_entry(&mut self.module_tables, module, table);
        self.scope_index = 0;

        Ok(Some(old_module))
    }

    /// Finishes the current module: it leaves the chain of modules being
    /// checked, and `previous` is the current module again.
    pub fn end_module(&mut self, previous: &'a str)
        requires
            old(self).wf(),
        ensures
            final(self).wf(),
            final(self).state() == end_in(old(self).state(), previous),
    {
        let ghost before = self.module_chain@;
        self.current_module = previous;
        if self.module_chain.len() > 0 {
            self.module_chain.pop();
            assert(self.module_chain@ =~= before.drop_last());
        }
        assert(self.state().tables == old(self).state().tables);
    }

    /// Defines the symbol `id` in the current scope of the current module;
    /// a symbol already of that name there is replaced.
    pub fn define_scope_symbol(&mut self, id: &'a str, symbol: ScopeSymbol<'a>, line: usize, col: usize) -> (r: Result<
        (),
        CheckError<'a>,
    >)
        requires
            old(self).wf(),
        ensures
            final(self).wf(),
            match r {
                Ok(()) => define_scope_in(old(self).state(), id, symbol, line, col) == Ok::<
                    CheckerState<'a>,
                    CheckError<'a>,
                >(final(self).state()),
                Err(e) => define_scope_in(old(self).state(), id, symbol, line, col) == Err::<
                    CheckerState<'a>,
                    CheckError<'a>,
                >(e) && final(self).state() == old(self).state(),
            },
    {
        let scope_index = self.scope_index;
        let ghost old_tables = self.module_tables@;
        proof {
            lemma_first_index_map(old_tables, |e: (&'a str, ModuleTable<'a>)| entry_view(e), self.current_module@);
        }

        let k = match find_entry(&self.module_tables, self.current_module) {
            Some(k) => k,
            None => {
                proof {
                    lemma_first_index(old_tables, self.current_module@, old_tables.len() as int);
                }
                return Err(CheckError::ModuleNotFound { line, col, module: self.current_module });
            },
        };
        proof {
            lemma_first_index(old_tables, self.current_module@, k as int);
        }

        if scope_index >= self.module_tables[k].1.scopes.len() {
            return Err(CheckError::NoScopes { line, col, module: self.current_module });
        }

        let (name, mut table) = self.module_tables.remove(k);
        let ghost old_table = table;
        let mut scope = table.scopes.remove(scope_index);
        let ghost old_scope = scope;
        insert_entry(&mut scope.scope_symbols, id, symbol);
        table.scopes.insert(scope_index, scope);
        self.module_tables.insert(k, (name, table));

        proof {
            let t = entry_view(old_tables[k as int]).1;
            let s2 = ScopeModel { parent: old_scope.parent, symbols: define(old_scope.scope_symbols@, id, symbol) };
            assert(old_table.scopes@[scope_index as int] == old_scope);
            assert(table.scopes@ =~= old_table.scopes@.update(scope_index as int, scope));
            assert(table@.scopes =~= t.scopes.update(scope_index as int, s2));
            assert(self.module_tables@ =~= old_tables.update(k as int, (name, table)));
            assert(tables_view(self.module_tables@) =~= tables_view(old_tables).update(
                k as int,
                (name, TableModel { scopes: t.scopes.update(scope_index as int, s2), ..t }),
            ));
            assert forall|i: int| 0 <= i < self.state().tables.len() implies table_wf(#[trigger] self.state().tables[i].1) by {
                if i == k {
                    assert forall|j: int| 0 <= j < table@.scopes.len() implies match (#[trigger] table@.scopes[j]).parent {
                        Some(p) => p < j,
                        None => true,
                    } by {
                        assert(table@.scopes[j].parent == t.scopes[j].parent);
                    }
                }
            }
        }
        Ok(())
    }

    /// Defines the type symbol `id` in the current module; a type symbol
    /// already of that name is replaced.
    pub fn define_type_symbol(&mut self, id: &'a str, symbol: TypeSymbol<'a>, line: usize, col: usize) -> (r: Result<
        (),
        CheckError<'a>,
    >)
        requires
            old(self).wf(),
        ensures
            final(self).wf(),
            match r {
                Ok(()) => define_type_in(old(self).state(), id, symbol, line, col) == Ok::<
                    CheckerState<'a>,
                    CheckError<'a>,
                >(final(self).state()),
                Err(e) => define_type_in(old(self).state(), id, symbol, line, col) == Err::<
                    CheckerState<'a>,
                    CheckError<'a>,
                >(e) && final(self).state() == old(self).state(),
            },
    {
        let ghost old_tables = self.module_tables@;
        proof {
            lemma_first_index_map(old_tables, |e: (&'a str, ModuleTable<'a>)| entry_view(e), self.current_module@);
        }

        let k = match find_entry(&self.module_tables, self.current_module) {
            Some(k) => k,
            None => {
                proof {
                    lemma_first_index(old_tables, self.current_module@, old_tables.len() as int);
                }
                return Err(CheckError::ModuleNotFound { line, col, module: self.current_module });
            },
        };
        proof {
            lemma_first_index(old_tables, self.current_module@, k as int);
        }

        let (name, mut table) = self.module_tables.remove(k);
        let ghost old_table = table;
        insert_entry(&mut table.type_symbols, id, symbol);
        self.module_tables.insert(k, (name, table));

        proof {
            let t = entry_view(old_tables[k as int]).1;
            assert(table@.scopes =~= t.scopes);
            assert(self.module_tables@ =~= old_tables.update(k as int, (name, table)));
            assert(tables_view(self.module_tables@) =~= tables_view(old_tables).update(
                k as int,
                (name, TableModel { type_symbols: define(t.type_symbols, id, symbol), ..t }),
            ));
        }
        Ok(())
    }

    /// Defines the container `id` in the current module; a container already
    /// of that name is replaced.
    pub fn define_container(&mut self, id: &'a str, container: Container<'a>, line: usize, col: usize) -> (r: Result<
        (),
        CheckError<'a>,
    >)
        requires
            old(self).wf(),
        ensures
            final(self).wf(),
            match r {
                Ok(()) => define_container_in(old(self).state(), id, container, line, col) == Ok::<
                    CheckerState<'a>,
                    CheckError<'a>,
                >(final(self).state()),
                Err(e) => define_container_in(old(self).state(), id, container, line, col) == Err::<
                    CheckerState<'a>,
                    CheckError<'a>,
                >(e) && final(self).state() == old(self).state(),
            },
    {
        let ghost old_tables = self.module_tables@;
        proof {
            lemma_first_index_map(old_tables, |e: (&'a str, ModuleTable<'a>)| entry_view(e), self.current_module@);
        }

        let k = match find_entry(&self.module_tables, self.current_module) {
            Some(k) => k,
            None => {
                proof {
                    lemma_first_index(old_tables, self.current_module@, old_tables.len() as int);
                }
                return Err(CheckError::ModuleNotFound { line, col, module: self.current_module });
            },
        };
        proof {
            lemma_first_index(old_tables, self.current_module@, k as int);
        }

        let (name, mut table) = self.module_tables.remove(k);
        let ghost old_table = table;
        insert_entry(&mut table.containers, id, container);
        self.module_tables.insert(k, (name, table));

        proof {
            let t = entry_view(old_tables[k as int]).1;
            assert(table@.scopes =~= t.scopes);
            assert(self.module_tables@ =~= old_tables.update(k as int, (name, table)));
            assert(tables_view(self.module_tables@) =~= tables_view(old_tables).update(
                k as int,
                (name, TableModel { containers: define(t.containers, id, container), ..t }),
            ));
        }
        Ok(())
    }

    /// The tables of the module `path`.
    pub fn resolve_module_table(&self, path: &'a str, line: usize, col: usize) -> (r: Result<&ModuleTable<'a>, CheckError<'a>>)
        ensures
            match r {
                Ok(t) => lookup(self.state().tables, path@) == Some(t@),
                Err(e) => lookup(self.state().tables, path@) is None && e == CheckError::ModuleNotFound {
                    line,
                    col,
                    module: path,
                },
            },
    {
        proof {
            lemma_first_index_map(self.module_tables@, |e: (&'a str, ModuleTable<'a>)| entry_view(e), path@);
            lemma_first_index_valid(self.module_tables@, path@);
        }
        match find_entry(&self.module_tables, path) {
            Some(k) => {
                proof {
                    lemma_first_index(self.module_tables@, path@, k as int);
                }
                Ok(&self.module_tables[k].1)
            },
            None => {
                proof {
                    lemma_first_index(self.module_tables@, path@, self.module_tables.len() as int);
                }
                Err(CheckError::ModuleNotFound { line, col, module: path })
            },
        }
    }

    /// The symbol `id` seen from the current module in the module `path`:
    /// for another module, a public symbol of its global scope; for the
    /// current one, the symbol found from the current scope outwards.
    pub fn resolve_scope_symbol(&self, id: &'a str, path: &'a str, line: usize, col: usize) -> (r: Result<
        &ScopeSymbol<'a>,
        CheckError<'a>,
    >)
        requires
            self.wf(),
        ensures
            match r {
                Ok(s) => resolve_scope_in(self.state(), id, path, line, col) == Ok::<ScopeSymbol<'a>, CheckError<'a>>(*s),
                Err(e) => resolve_scope_in(self.state(), id, path, line, col) == Err::<ScopeSymbol<'a>, CheckError<'a>>(e),
            },
    {
        let module = self.resolve_module_table(path, line, col)?;
        let ghost t = module@;
        proof {
            lemma_first_index_valid(self.state().tables, path@);
            assert(table_wf(t));
        }

        if !str_equals(path, self.current_module) {
            let scope = &module.scopes[0];
            assert(scope@ == t.scopes[0]);
            let symbol = match find_entry(&scope.scope_symbols, id) {
                Some(k) => {
                    proof {
                        lemma_first_index(scope.scope_symbols@, id@, k as int);
                    }
                    &scope.scope_symbols[k].1
                },
                None => {
                    proof {
                        lemma_first_index(scope.scope_symbols@, id@, scope.scope_symbols.len() as int);
                    }
                    return Err(CheckError::GlobalSymbolNotFound { line, col, id, module: path });
                },
            };

            if matches!(symbol.visibility, Visibility::Priv) {
                return Err(CheckError::PrivateSymbol { line, col, id });
            }

            return Ok(symbol);
        }

        let mut lookup_index = Some(self.scope_index);
        let ghost start = self.scope_index as int;
        loop
            invariant
                t == module@,
                table_wf(t),
                lookup(self.state().tables, path@) == Some(t),
                path@ == self.state().current@,
                start == self.state().scope,
                0 <= start < t.scopes.len(),
                match lookup_index {
                    Some(i) => i < t.scopes.len() && scope_lookup(t.scopes, start, id@) == scope_lookup(
                        t.scopes,
                        i as int,
                        id@,
                    ),
                    None => scope_lookup(t.scopes, start, id@) is None,
                },
            ensures
                scope_lookup(t.scopes, start, id@) is None,
            decreases
                match lookup_index {
                    Some(i) => i + 1,
                    None => 0,
                },
        {
            let idx = match lookup_index {
                Some(idx) => idx,
                None => break,
            };
            let scope = &module.scopes[idx];
            assert(scope@ == t.scopes[idx as int]);

            match find_entry(&scope.scope_symbols, id) {
                Some(k) => {
                    proof {
                        lemma_first_index(scope.scope_symbols@, id@, k as int);
                    }
                    return Ok(&scope.scope_symbols[k].1);
                },
                None => {
                    proof {
                        lemma_first_index(scope.scope_symbols@, id@, scope.scope_symbols.len() as int);
                    }
                },
            }

            lookup_index = scope.parent;
        }

        Err(CheckError::LocalSymbolNotFound { line, col, id })
    }

    /// The type symbol `id` of the module `path`; a private one only from
    /// that module itself.
    pub fn resolve_type_symbol(&self, id: &'a str, path: &'a str, line: usize, col: usize) -> (r: Result<
        &TypeSymbol<'a>,
        CheckError<'a>,
    >)
        ensures
            match r {
                Ok(s) => resolve_type_in(self.state(), id, path, line, col) == Ok::<TypeSymbol<'a>, CheckError<'a>>(*s),
                Err(e) => resolve_type_in(self.state(), id, path, line, col) == Err::<TypeSymbol<'a>, CheckError<'a>>(e),
            },
    {
        let module = self.resolve_module_table(path, line, col)?;
        let symbol = match find_entry(&module.type_symbols, id) {
            Some(k) => {
                proof {
                    lemma_first_index(module.type_symbols@, id@, k as int);
                }
                &module.type_symbols[k].1
            },
            None => {
                proof {
                    lemma_first_index(module.type_symbols@, id@, module.type_symbols.len() as int);
                }
                return Err(CheckError::TypeSymbolNotFound { line, col, id, module: path });
            },
        };

        if matches!(symbol.visibility, Visibility::Priv) && !str_equals(path, self.current_module) {
            return Err(CheckError::PrivateSymbol { line, col, id });
        }

        Ok(symbol)
    }

    /// The container `id` of the module `path`; a private one only from that
    /// module itself.
    pub fn resolve_container(&self, id: &'a str, path: &'a str, line: usize, col: usize) -> (r: Result<
        &Container<'a>,
        CheckError<'a>,
    >)
        ensures
            match r {
                Ok(c) => resolve_container_in(self.state(), id, path, line, col) == Ok::<Container<'a>, CheckError<'a>>(*c),
                Err(e) => resolve_container_in(self.state(), id, path, line, col) == Err::<Container<'a>, CheckError<'a>>(e),
            },
    {
        let module = self.resolve_module_table(path, line, col)?;
        let container = match find_entry(&module.containers, id) {
            Some(k) => {
                proof {
                    lemma_first_index(module.containers@, id@, k as int);
                }
                &module.containers[k].1
            },
            None => {
                proof {
                    lemma_first_index(module.containers@, id@, module.containers.len() as int);
                }
                return Err(CheckError::ContainerNotFound { line, col, id, module: path });
            },
        };

        if matches!(container.visibility, Visibility::Priv) && !str_equals(path, self.current_module) {
            return Err(CheckError::PrivateContainer { line, col, id });
        }

        Ok(container)
    }
}

} // verus!
