use vstd::prelude::*;

use crate::model::{Expr, Lit, RewriteError, ErrV};

verus! {

/// The key an explicit attribute argument denotes: a string literal,
/// possibly nested in parentheses. Any other shape has no statically known
/// key.
pub open spec fn key_of_expr(e: Expr) -> Option<Seq<char>>
    decreases e,
{
    match e {
        Expr::Lit { lit: Lit::Str { value }, .. } => Some(value@),
        Expr::Paren { inner } => key_of_expr(*inner),
        _ => None,
    }
}

/// The override key a declaration uses: the explicit attribute argument's
/// string value when one is given, else the declared identifier itself.
pub open spec fn resolved_key(attr: Option<Expr>, name: Seq<char>) -> Option<Seq<char>> {
    match attr {
        Some(e) => key_of_expr(e),
        None => Some(name),
    }
}

fn key_from_expr(e: &Expr) -> (r: Result<String, RewriteError>)
    ensures
        (match key_of_expr(*e) {
            Some(k) => (r matches Ok(s) && s@ == k),
            None => (r matches Err(err) && err@ == ErrV::KeyResolution),
        }),
    decreases *e,
{
    match e {
        Expr::Lit { lit: Lit::Str { value }, .. } => Ok(value.clone()),
        Expr::Paren { inner } => key_from_expr(inner),
        _ => Err(RewriteError::KeyResolution),
    }
}

/// Computes the override key for a declaration from the optional explicit
/// attribute argument and the declared name.
pub fn resolve_key(attr: Option<&Expr>, declared_name: &String) -> (r: Result<
    String,
    RewriteError,
>)
    ensures
        (match attr {
            None => (r matches Ok(k) && k@ == declared_name@),
            Some(e) => (match key_of_expr(*e) {
                Some(k) => (r matches Ok(s) && s@ == k),
                None => (r matches Err(err) && err@ == ErrV::KeyResolution),
            }),
        }),
{
    match attr {
        None => Ok(declared_name.clone()),
        Some(e) => key_from_expr(e),
    }
}

} // verus!
