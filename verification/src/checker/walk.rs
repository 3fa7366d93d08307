//! Checking a module and, through its imports, the modules it needs, each
//! once: a walk over the registry of parsed modules.
use vstd::prelude::*;

use super::entries::{find_entry, lemma_first_index, lookup};
use super::expr::Literal;
use super::{
    begin_in, define_scope_in, end_in, fresh_table, names_in, CheckError, Checker, CheckerState, ScopeSymbol,
};
use crate::ast::{Statement, StatementKind, Visibility};
use crate::types::Type;

verus! {

/// Where an import statement leads: the registry key of the imported module,
/// and the name of its file without the extension.
pub struct ResolvedImport<'a> {
    pub module: &'a str,
    pub stem: &'a str,
}

/// The parsed statements of a module, with, for each import statement, the
/// module it leads to.
pub struct ModuleSource<'a> {
    pub statements: Vec<Statement<'a>>,
    pub imports: Vec<Option<ResolvedImport<'a>>>,
}

/// Each statement has its entry in `imports`, and each import statement a
/// resolved module.
pub open spec fn source_wf<'a>(src: ModuleSource<'a>) -> bool {
    &&& src.imports@.len() == src.statements@.len()
    &&& forall|i: int| 0 <= i < src.statements@.len() && (#[trigger] src.statements@[i]).kind is Import
        ==> src.imports@[i] is Some
}

/// Every source of the registry is well formed.
pub open spec fn registry_wf<'a>(reg: Seq<(&'a str, ModuleSource<'a>)>) -> bool {
    forall|i: int| 0 <= i < reg.len() ==> source_wf(#[trigger] reg[i].1)
}

/// The number of registry entries whose module is not on `chain`.
pub open spec fn unstarted<'a>(reg: Seq<(&'a str, ModuleSource<'a>)>, chain: Seq<&'a str>) -> nat
    decreases reg.len(),
{
    if reg.len() == 0 {
        0
    } else {
        (if names_in(chain, reg[0].0) {
            0nat
        } else {
            1nat
        }) + unstarted(reg.drop_first(), chain)
    }
}

pub proof fn lemma_names_push<'a>(chain: Seq<&'a str>, m: &'a str, x: &'a str)
    ensures
        names_in(chain.push(m), x) == (names_in(chain, x) || x@ == m@),
{
    let c = chain.push(m);
    if names_in(chain, x) {
        let k = choose|k: int| 0 <= k < chain.len() && (#[trigger] chain[k])@ == x@;
        assert(c[k] == chain[k]);
    }
    if x@ == m@ {
        assert(c[chain.len() as int] == m);
    }
    if names_in(c, x) {
        let k = choose|k: int| 0 <= k < c.len() && (#[trigger] c[k])@ == x@;
        if k < chain.len() {
            assert(c[k] == chain[k]);
        }
    }
}

pub proof fn lemma_unstarted_mono<'a>(reg: Seq<(&'a str, ModuleSource<'a>)>, chain: Seq<&'a str>, m: &'a str)
    ensures
        unstarted(reg, chain.push(m)) <= unstarted(reg, chain),
    decreases reg.len(),
{
    if reg.len() > 0 {
        lemma_names_push(chain, m, reg[0].0);
        lemma_unstarted_mono(reg.drop_first(), chain, m);
    }
}

/// Putting on the chain a module of the registry that is not on it yet
/// leaves fewer modules off the chain.
pub proof fn lemma_unstarted_push<'a>(reg: Seq<(&'a str, ModuleSource<'a>)>, chain: Seq<&'a str>, m: &'a str)
    requires
        lookup(reg, m@) is Some,
        !names_in(chain, m),
    ensures
        unstarted(reg, chain.push(m)) < unstarted(reg, chain),
    decreases reg.len(),
{
    lemma_names_push(chain, m, reg[0].0);
    if reg[0].0@ == m@ {
        assert(!names_in(chain, reg[0].0));
        lemma_unstarted_mono(reg.drop_first(), chain, m);
    } else {
        lemma_unstarted_push(reg.drop_first(), chain, m);
    }
}

/// The symbol under which an imported module is known in the importing one.
pub open spec fn module_symbol<'a>(id: &'a str, importer: &'a str, module: &'a str) -> ScopeSymbol<'a> {
    ScopeSymbol {
        id,
        module: importer,
        scope_index: Some(0),
        visibility: Visibility::Priv,
        ty: Type::Module(module),
        is_static_member: true,
    }
}

/// Checking `module`, with the modules of `chain` still being checked: a
/// module missing from the registry, or one on the chain (a cycle of
/// imports), is refused; one checked before needs nothing; any other is
/// started with fresh tables, its statements go through the first pass,
/// and the module that was current is current again.
pub open spec fn walk<'a>(
    reg: Seq<(&'a str, ModuleSource<'a>)>,
    chain: Seq<&'a str>,
    st: CheckerState<'a>,
    module: &'a str,
    line: usize,
    col: usize,
) -> Result<CheckerState<'a>, CheckError<'a>>
    decreases unstarted(reg, chain), 0int, 0int,
{
    match lookup(reg, module@) {
        None => Err(CheckError::ModuleNotInRegistry { line, col, module }),
        Some(src) => if names_in(chain, module) {
            Err(CheckError::CircularImport { line, col, from: st.current, to: module })
        } else if names_in(st.checked, module) {
            Ok(st)
        } else {
            proof {
                lemma_unstarted_push(reg, chain, module);
            }
            let started = CheckerState {
                current: module,
                checked: st.checked.push(module),
                chain: st.chain.push(module),
                tables: super::entries::define(st.tables, module, fresh_table()),
                scope: 0,
            };
            match first_pass(reg, chain.push(module), started, src, 0) {
                Ok(done) => Ok(end_in(done, st.current)),
                Err(e) => Err(e),
            }
        },
    }
}

/// The first pass over the statements of `src` from the `i`-th on.
pub open spec fn first_pass<'a>(
    reg: Seq<(&'a str, ModuleSource<'a>)>,
    chain: Seq<&'a str>,
    st: CheckerState<'a>,
    src: ModuleSource<'a>,
    i: int,
) -> Result<CheckerState<'a>, CheckError<'a>>
    decreases unstarted(reg, chain), 1int, src.statements@.len() - i,
{
    if i < 0 || i >= src.statements@.len() || i >= src.imports@.len() {
        Ok(st)
    } else {
        match stmt_first(reg, chain, st, src.statements@[i], src.imports@[i]) {
            Ok(next) => first_pass(reg, chain, next, src, i + 1),
            Err(e) => Err(e),
        }
    }
}

/// The first pass over one statement: an import checks the module it leads
/// to, then names it in the importing module by its alias, or else by the
/// name of its file. Other statements need nothing in this pass.
pub open spec fn stmt_first<'a>(
    reg: Seq<(&'a str, ModuleSource<'a>)>,
    chain: Seq<&'a str>,
    st: CheckerState<'a>,
    stmt: Statement<'a>,
    import: Option<ResolvedImport<'a>>,
) -> Result<CheckerState<'a>, CheckError<'a>>
    decreases unstarted(reg, chain), 1int, 0int,
{
    match stmt.kind {
        StatementKind::Import { alias, .. } => match import {
            Some(ri) => match walk(reg, chain, st, ri.module, stmt.line, stmt.col) {
                Err(e) => Err(e),
                Ok(after) => {
                    let id = match alias {
                        Some(a) => a,
                        None => ri.stem,
                    };
                    define_scope_in(after, id, module_symbol(id, after.current, ri.module), stmt.line, stmt.col)
                },
            },
            None => Ok(st),
        },
        _ => Ok(st),
    }
}

/// A module of the registry that was checked before and is not being
/// checked is not checked again: importing it changes nothing.
pub proof fn lemma_walk_checked_module<'a>(
    reg: Seq<(&'a str, ModuleSource<'a>)>,
    chain: Seq<&'a str>,
    st: CheckerState<'a>,
    module: &'a str,
    line: usize,
    col: usize,
)
    requires
        lookup(reg, module@) is Some,
        !names_in(chain, module),
        names_in(st.checked, module),
    ensures
        walk(reg, chain, st, module, line, col) == Ok::<CheckerState<'a>, CheckError<'a>>(st),
{
}

/// Importing a module of the registry that is still being checked closes a
/// cycle and is refused.
pub proof fn lemma_walk_cycle<'a>(
    reg: Seq<(&'a str, ModuleSource<'a>)>,
    chain: Seq<&'a str>,
    st: CheckerState<'a>,
    module: &'a str,
    line: usize,
    col: usize,
)
    requires
        lookup(reg, module@) is Some,
        names_in(chain, module),
    ensures
        walk(reg, chain, st, module, line, col) == Err::<CheckerState<'a>, CheckError<'a>>(
            CheckError::CircularImport { line, col, from: st.current, to: module },
        ),
{
}

/// A module missing from the registry is refused, whatever else holds.
pub proof fn lemma_walk_missing<'a>(
    reg: Seq<(&'a str, ModuleSource<'a>)>,
    chain: Seq<&'a str>,
    st: CheckerState<'a>,
    module: &'a str,
    line: usize,
    col: usize,
)
    requires
        lookup(reg, module@) is None,
    ensures
        walk(reg, chain, st, module, line, col) == Err::<CheckerState<'a>, CheckError<'a>>(
            CheckError::ModuleNotInRegistry { line, col, module },
        ),
{
}

impl<'a> Checker<'a> {
    /// Checks `module` and, through its imports, the modules it needs, each
    /// once (see `walk`).
    pub fn check_module(
        &mut self,
        registry: &Vec<(&'a str, ModuleSource<'a>)>,
        module: &'a str,
        line: usize,
        col: usize,
    ) -> (r: Result<(), CheckError<'a>>)
        requires
            old(self).wf(),
            registry_wf(registry@),
        ensures
            final(self).wf(),
            match r {
                Ok(()) => walk(registry@, old(self).state().chain, old(self).state(), module, line, col) == Ok::<
                    CheckerState<'a>,
                    CheckError<'a>,
                >(final(self).state()) && final(self).state().chain == old(self).state().chain,
                Err(e) => walk(registry@, old(self).state().chain, old(self).state(), module, line, col) == Err::<
                    CheckerState<'a>,
                    CheckError<'a>,
                >(e),
            },
            r is Err && (lookup(registry@, module@) is None || names_in(old(self).state().chain, module))
                ==> final(self).state() == old(self).state(),
        decreases unstarted(registry@, old(self).state().chain), 0int, 0int,
    {
        let ghost reg = registry@;
        let ghost st0 = self.state();
        let ghost chain = st0.chain;
        let src = match find_entry(registry, module) {
            Some(k) => {
                proof {
                    lemma_first_index(reg, module@, k as int);
                }
                &registry[k].1
            },
            None => {
                proof {
                    lemma_first_index(reg, module@, reg.len() as int);
                }
                return Err(CheckError::ModuleNotInRegistry { line, col, module });
            },
        };
        let previous = match self.begin_module(module, line, col)? {
            Some(p) => p,
            None => return Ok(()),
        };
        proof {
            lemma_unstarted_push(reg, chain, module);
        }
        let ghost inner = chain.push(module);
        let ghost started = self.state();
        let mut i: usize = 0;
        while i < src.statements.len()
            invariant
                self.wf(),
                registry@ == reg,
                registry_wf(reg),
                source_wf(*src),
                lookup(reg, module@) == Some(*src),
                0 <= i <= src.statements@.len(),
                self.state().chain == inner,
                inner == chain.push(module),
                chain == old(self).state().chain,
                st0 == old(self).state(),
                chain == st0.chain,
                begin_in(st0, module, line, col) == Ok::<Option<CheckerState<'a>>, CheckError<'a>>(Some(started)),
                unstarted(reg, inner) < unstarted(reg, chain),
                first_pass(reg, inner, started, *src, 0) == first_pass(reg, inner, self.state(), *src, i as int),
            decreases src.statements@.len() - i,
        {
            let ghost before = self.state();
            match self.check_stmt_first(registry, &src.statements[i], &src.imports[i]) {
                Ok(()) => {},
                Err(e) => {
                    proof {
                        assert(first_pass(reg, inner, before, *src, i as int) == Err::<
                            CheckerState<'a>,
                            CheckError<'a>,
                        >(e));
                        assert(walk(reg, chain, st0, module, line, col) == Err::<CheckerState<'a>, CheckError<'a>>(e));
                    }
                    return Err(e);
                },
            }
            i += 1;
        }
        self.end_module(previous);
        proof {
            assert(chain.push(module).drop_last() =~= chain);
        }
        Ok(())
    }

    /// Checks the current module, the start of the walk, at line and column
    /// zero, and gives back the literals the checking produced, of which
    /// there are none yet. What the walk refuses is not reported; where it
    /// succeeds, the checker holds its result.
    pub fn check(&mut self, registry: &Vec<(&'a str, ModuleSource<'a>)>) -> (r: Result<
        Vec<Literal<'a>>,
        CheckError<'a>,
    >)
        requires
            old(self).wf(),
            registry_wf(registry@),
        ensures
            final(self).wf(),
            walk(registry@, old(self).state().chain, old(self).state(), old(self).state().current, 0, 0) matches Ok(
                s,
            ) ==> final(self).state() == s,
            r matches Ok(literals) && literals@.len() == 0,
    {
        let module = self.current_module();
        let _ = self.check_module(registry, module, 0, 0);
        Ok(Vec::new())
    }

    /// The first pass over the statement `stmt`, which leads to `import`
    /// when it is an import (see `stmt_first`).
    fn check_stmt_first(
        &mut self,
        registry: &Vec<(&'a str, ModuleSource<'a>)>,
        stmt: &Statement<'a>,
        import: &Option<ResolvedImport<'a>>,
    ) -> (r: Result<(), CheckError<'a>>)
        requires
            old(self).wf(),
            registry_wf(registry@),
            stmt.kind is Import ==> import is Some,
        ensures
            final(self).wf(),
            match r {
                Ok(()) => stmt_first(registry@, old(self).state().chain, old(self).state(), *stmt, *import) == Ok::<
                    CheckerState<'a>,
                    CheckError<'a>,
                >(final(self).state()) && final(self).state().chain == old(self).state().chain,
                Err(e) => stmt_first(registry@, old(self).state().chain, old(self).state(), *stmt, *import) == Err::<
                    CheckerState<'a>,
                    CheckError<'a>,
                >(e),
            },
        decreases unstarted(registry@, old(self).state().chain), 1int, 0int,
    {
        match &stmt.kind {
            StatementKind::Import { alias, .. } => {
                let ri = match import {
                    Some(ri) => ri,
                    None => return Ok(()),
                };
                self.check_module(registry, ri.module, stmt.line, stmt.col)?;
                let id = match alias {
                    Some(a) => *a,
                    None => ri.stem,
                };
                let importer = self.current_module();
                let symbol = ScopeSymbol {
                    id,
                    module: importer,
                    scope_index: Some(0),
                    visibility: Visibility::Priv,
                    ty: Type::Module(ri.module),
                    is_static_member: true,
                };
                self.define_scope_symbol(id, symbol, stmt.line, stmt.col)
            },
            _ => Ok(()),
        }
    }
}

} // verus!
