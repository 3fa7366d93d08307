//! What the import resolver decides: the module path an `import` statement
//! names, the directory that path starts from, and whether a module met is
//! loaded or was loaded before. Reading the modules themselves is left to the
//! caller.
use vstd::prelude::*;

use crate::ast::{Expr, ExprKind, SpecExpr, SpecExprKind};
use crate::error::Error;
use crate::text::str_equals;

verus! {

/// The parts of the module path that an import expression names: `a` names
/// `[a]`, `a::b::c` names `[a, b, c]`; any other expression is an error at its
/// position.
pub open spec fn path_parts<'a>(e: SpecExpr<'a>) -> Result<Seq<&'a str>, Error>
    decreases e,
{
    match e.kind {
        SpecExprKind::Identifier(id) => Ok(seq![id]),
        SpecExprKind::StaticAccess { target, member } => match path_parts(*target) {
            Ok(parts) => Ok(parts.push(member)),
            Err(err) => Err(err),
        },
        _ => Err(
            Error::Located {
                line: e.line,
                col: e.col,
                message: "Invalid import path: expected identifier or static access expression",
            },
        ),
    }
}

/// The directory an imported module is looked for in.
#[derive(Debug, Clone, Copy, PartialEq, Eq)]
pub enum ImportRoot {
    /// The directory that holds the standard library.
    Std,
    /// The directory of the main module.
    Main,
}

/// Paths that start with `std` are found beside the standard library, all
/// others beside the main module.
pub open spec fn root_of<'a>(parts: Seq<&'a str>) -> ImportRoot {
    if parts.len() > 0 && parts[0]@ == "std"@ {
        ImportRoot::Std
    } else {
        ImportRoot::Main
    }
}

/// The module path that an import expression names, part by part.
pub fn flatten_path<'a>(expr: &Expr<'a>) -> (r: Result<Vec<&'a str>, Error>)
    ensures
        match r {
            Ok(parts) => path_parts(expr@) == Ok::<Seq<&'a str>, Error>(parts@),
            Err(e) => path_parts(expr@) == Err::<Seq<&'a str>, Error>(e),
        },
    decreases expr,
{
    match &expr.kind {
        ExprKind::Identifier(id) => {
            let parts = vec![*id];
            proof {
                assert(parts@ =~= seq![*id]);
            }
            Ok(parts)
        },
        ExprKind::StaticAccess { target, member } => {
            let mut path = flatten_path(target)?;
            path.push(*member);
            Ok(path)
        },
        _ => Err(
            Error::Located {
                line: expr.line,
                col: expr.col,
                message: "Invalid import path: expected identifier or static access expression",
            },
        ),
    }
}

/// The directory that a module path starts from.
pub fn import_root(parts: &Vec<&str>) -> (r: ImportRoot)
    ensures
        r == root_of(parts@),
{
    if parts.len() > 0 && str_equals(parts[0], "std") {
        ImportRoot::Std
    } else {
        ImportRoot::Main
    }
}

/// The expression the parser builds for the import path `a::b::c`: the first
/// name, then a static access for each further one, all at the position where
/// the path starts.
pub open spec fn path_expr<'a>(parts: Seq<&'a str>, line: usize, col: usize) -> SpecExpr<'a>
    decreases parts.len(),
{
    if parts.len() <= 1 {
        SpecExpr { kind: SpecExprKind::Identifier(parts[0]), line, col }
    } else {
        SpecExpr {
            kind: SpecExprKind::StaticAccess {
                target: Box::new(path_expr(parts.drop_last(), line, col)),
                member: parts.last(),
            },
            line,
            col,
        }
    }
}

/// Flattening the expression of a module path gives back the names of that
/// path, in order.
pub proof fn lemma_flatten_path_expr<'a>(parts: Seq<&'a str>, line: usize, col: usize)
    requires
        parts.len() >= 1,
    ensures
        path_parts(path_expr(parts, line, col)) == Ok::<Seq<&'a str>, Error>(parts),
    decreases parts.len(),
{
    if parts.len() > 1 {
        lemma_flatten_path_expr(parts.drop_last(), line, col);
        assert(parts.drop_last().push(parts.last()) =~= parts);
    } else {
        assert(seq![parts[0]] =~= parts);
    }
}

/// Whether `key` is one of `loaded`.
pub open spec fn was_loaded<'a>(loaded: Seq<&'a str>, key: &'a str) -> bool {
    exists|k: int| 0 <= k < loaded.len() && (#[trigger] loaded[k])@ == key@
}

/// Meeting the module `key` while resolving imports: the first time it is
/// recorded in `loaded` and is to be loaded (`true`); after that it is
/// skipped (`false`) and nothing changes.
pub fn enter_module<'a>(loaded: &mut Vec<&'a str>, key: &'a str) -> (r: bool)
    ensures
        r == !was_loaded(old(loaded)@, key),
        final(loaded)@ == if r {
            old(loaded)@.push(key)
        } else {
            old(loaded)@
        },
{
    let mut k: usize = 0;
    while k < loaded.len()
        invariant
            k <= loaded.len(),
            forall|j: int| 0 <= j < k ==> (#[trigger] loaded@[j])@ != key@,
        decreases loaded.len() - k,
    {
        if str_equals(loaded[k], key) {
            return false;
        }
        k += 1;
    }
    loaded.push(key);
    true
}

/// A module is loaded at most once: met again, it is skipped.
pub proof fn lemma_loaded_once<'a>(loaded: Seq<&'a str>, key: &'a str)
    ensures
        was_loaded(loaded.push(key), key),
{
    assert(loaded.push(key)[loaded.len() as int] == key);
}

} // verus!
