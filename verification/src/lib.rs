pub mod model;
pub mod grammar;
pub mod key;
pub mod provider;
pub mod rewrite;

use vstd::prelude::*;

use crate::key::{resolved_key, resolve_key};
use crate::provider::ReadEnv;
use crate::rewrite::{expr_rewritable, expr_rewritten, rewrite_err, rewrite_expr};

verus! {

pub use crate::model::{Span, LitKind, Lit, Expr, DeclKind, Declaration, RewriteError, ErrV};
pub use crate::model::{lit_kind, lit_span_of};

/// The output declaration is the input with only its initializer's literal
/// payload replaced: same shape, same name, same type annotation, same
/// positions.
pub open spec fn decl_rewritten(d: Declaration, raw: Seq<char>, out: Declaration) -> bool {
    &&& out.kind == d.kind
    &&& out.name == d.name
    &&& out.ty == d.ty
    &&& out.span == d.span
    &&& expr_rewritten(d.init, raw, out.init)
}

/// Applies an override to one declaration: resolves the key, consults the
/// provider, and either returns the declaration untouched (key absent) or
/// replaces the initializer's literal payload with the looked-up value.
pub fn rewrite_declaration<E: ReadEnv>(decl: Declaration, attr: Option<Expr>, env: &E) -> (r:
    Result<Declaration, RewriteError>)
    ensures
        (match resolved_key(attr, decl.name@) {
            None => (r matches Err(err) && err@ == ErrV::KeyResolution),
            Some(k) => match env.lookup_spec(k) {
                None => r == Ok::<Declaration, RewriteError>(decl),
                Some(v) => if expr_rewritable(decl.init, v) {
                    (r matches Ok(out) && decl_rewritten(decl, v, out))
                } else {
                    (r matches Err(err) && err@ == rewrite_err(decl.init, v))
                },
            },
        }),
{
    let key = match resolve_key(attr.as_ref(), &decl.name) {
        Ok(k) => k,
        Err(err) => {
            return Err(err);
        },
    };
    match env.read_env(&key) {
        None => Ok(decl),
        Some(v) => {
            let Declaration { kind, name, ty, init, span } = decl;
            match rewrite_expr(init, v.as_str()) {
                Ok(new_init) => Ok(Declaration { kind, name, ty, init: new_init, span }),
                Err(err) => Err(err),
            }
        },
    }
}

} // verus!
