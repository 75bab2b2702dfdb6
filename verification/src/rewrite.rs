use vstd::prelude::*;

use crate::model::{Expr, Lit, LitKind, RewriteError, ErrV, Span, lit_kind, lit_span_of};
use crate::grammar::{
    text_units, byte_units, is_int_token, is_float_token, is_true_token, is_false_token,
    int_token_result, float_token_result, int_with_suffix, float_with_suffix,
    parse_text, parse_bytes, validate_int, validate_float, parse_bool,
};

verus! {

// ---------------------------------------------------------------------------
// What a rewrite means, kind by kind
// ---------------------------------------------------------------------------

/// Whether the raw override value parses as the same kind as the literal.
pub open spec fn lit_rewritable(l: Lit, raw: Seq<char>) -> bool {
    match l {
        Lit::Str { .. } => text_units(raw, '"') is Some,
        Lit::ByteStr { .. } => byte_units(raw, '"') is Some,
        Lit::Byte { .. } => (byte_units(raw, '\'') matches Some(u) && u.len() == 1),
        Lit::Char { .. } => (text_units(raw, '\'') matches Some(u) && u.len() == 1),
        Lit::Int { .. } => is_int_token(raw),
        Lit::Float { .. } => is_float_token(raw),
        Lit::Bool { .. } => is_true_token(raw) || is_false_token(raw),
    }
}

/// The new literal carries the raw value's payload under the original's
/// kind tag. A numeric token also keeps the original's declared suffix
/// when the raw value does not bring one of its own, so the declared
/// numeric type survives a plain decimal override.
pub open spec fn lit_rewritten(l: Lit, raw: Seq<char>, out: Lit) -> bool {
    match l {
        Lit::Str { .. } => (out matches Lit::Str { value } && Some(value@) == text_units(
            raw,
            '"',
        )),
        Lit::ByteStr { .. } => (out matches Lit::ByteStr { value } && Some(value@) == byte_units(
            raw,
            '"',
        )),
        Lit::Byte { .. } => (out matches Lit::Byte { value } && byte_units(raw, '\'') == Some(
            seq![value],
        )),
        Lit::Char { .. } => (out matches Lit::Char { value } && text_units(raw, '\'') == Some(
            seq![value],
        )),
        Lit::Int { token: orig } => (out matches Lit::Int { token } && token@ == int_token_result(
            orig@,
            raw,
        ) && is_int_token(raw)),
        Lit::Float { token: orig } => (out matches Lit::Float { token } && token@
            == float_token_result(orig@, raw) && is_float_token(raw)),
        Lit::Bool { .. } => (out matches Lit::Bool { value } && (value <==> is_true_token(raw))
            && (is_true_token(raw) || is_false_token(raw))),
    }
}

/// Whether the expression bottoms out in a literal through unary-negation
/// wrappers only.
pub open spec fn literal_shape(e: Expr) -> bool
    decreases e,
{
    match e {
        Expr::Lit { .. } => true,
        Expr::Neg { inner } => literal_shape(*inner),
        Expr::Paren { .. } => false,
        Expr::Other => false,
    }
}

/// The kind of the literal at the core of a literal-shaped expression.
pub open spec fn shape_kind(e: Expr) -> LitKind
    decreases e,
{
    match e {
        Expr::Lit { lit, .. } => lit_kind(lit),
        Expr::Neg { inner } => shape_kind(*inner),
        Expr::Paren { .. } => LitKind::Int,
        Expr::Other => LitKind::Int,
    }
}

/// Whether the whole initializer expression can be rewritten with the raw
/// value: each negation wrapper consumes a leading `-` of the raw value,
/// and the core literal takes the rest.
pub open spec fn expr_rewritable(e: Expr, raw: Seq<char>) -> bool
    decreases e,
{
    match e {
        Expr::Lit { lit, .. } => lit_rewritable(lit, raw),
        Expr::Neg { inner } => raw.len() >= 1 && raw[0] == '-' && expr_rewritable(
            *inner,
            raw.skip(1),
        ),
        Expr::Paren { .. } => false,
        Expr::Other => false,
    }
}

/// The rewritten expression: the same wrapper structure, the same span and
/// annotations on the literal node, a new payload.
pub open spec fn expr_rewritten(e: Expr, raw: Seq<char>, out: Expr) -> bool
    decreases e,
{
    match e {
        Expr::Lit { lit, span, attrs } => (out matches Expr::Lit { lit: l2, span: s2, attrs: a2 }
            && lit_rewritten(lit, raw, l2) && s2 == span && a2 == attrs),
        Expr::Neg { inner } => raw.len() >= 1 && raw[0] == '-' && (out matches Expr::Neg {
            inner: i2,
        } && expr_rewritten(*inner, raw.skip(1), *i2)),
        Expr::Paren { .. } => false,
        Expr::Other => false,
    }
}

/// Which error a failed rewrite reports: an unrecognized initializer shape
/// is unsupported; a recognized shape whose raw value does not parse is a
/// value-parse failure naming the expected kind.
pub open spec fn rewrite_err(e: Expr, raw: Seq<char>) -> ErrV
    decreases e,
{
    match e {
        Expr::Lit { lit, .. } => ErrV::ValueParse { expected: lit_kind(lit), raw },
        Expr::Neg { inner } => if !literal_shape(*inner) {
            ErrV::UnsupportedLiteral
        } else if raw.len() >= 1 && raw[0] == '-' {
            rewrite_err(*inner, raw.skip(1))
        } else {
            ErrV::ValueParse { expected: shape_kind(*inner), raw }
        },
        Expr::Paren { .. } => ErrV::UnsupportedLiteral,
        Expr::Other => ErrV::UnsupportedLiteral,
    }
}

// ---------------------------------------------------------------------------
// Executable rewriting
// ---------------------------------------------------------------------------

/// Rewrites one literal payload with the raw override value, keeping the
/// kind tag.
pub fn rewrite_lit(l: &Lit, raw: &str) -> (r: Result<Lit, RewriteError>)
    ensures
        lit_rewritable(*l, raw@) ==> (r matches Ok(out) && lit_rewritten(*l, raw@, out)),
        !lit_rewritable(*l, raw@) ==> (r matches Err(err) && err@ == (ErrV::ValueParse {
            expected: lit_kind(*l),
            raw: raw@,
        })),
{
    match l {
        Lit::Str { .. } => {
            match parse_text(raw, '"') {
                Some(value) => Ok(Lit::Str { value }),
                None => Err(RewriteError::ValueParse { expected: LitKind::Str, raw: raw.to_owned() }),
            }
        },
        Lit::ByteStr { .. } => {
            match parse_bytes(raw, '"') {
                Some(value) => Ok(Lit::ByteStr { value }),
                None => Err(RewriteError::ValueParse {
                    expected: LitKind::ByteStr,
                    raw: raw.to_owned(),
                }),
            }
        },
        Lit::Byte { .. } => {
            match parse_bytes(raw, '\'') {
                Some(units) => {
                    if units.len() == 1 {
                        let b = units[0];
                        proof {
                            assert(units@ =~= seq![units@[0]]);
                        }
                        Ok(Lit::Byte { value: b })
                    } else {
                        Err(RewriteError::ValueParse {
                            expected: LitKind::Byte,
                            raw: raw.to_owned(),
                        })
                    }
                },
                None => Err(RewriteError::ValueParse {
                    expected: LitKind::Byte,
                    raw: raw.to_owned(),
                }),
            }
        },
        Lit::Char { .. } => {
            match parse_text(raw, '\'') {
                Some(units) => {
                    if units.as_str().unicode_len() == 1 {
                        let c = units.as_str().get_char(0);
                        proof {
                            assert(units@ =~= seq![units@[0]]);
                        }
                        Ok(Lit::Char { value: c })
                    } else {
                        Err(RewriteError::ValueParse {
                            expected: LitKind::Char,
                            raw: raw.to_owned(),
                        })
                    }
                },
                None => Err(RewriteError::ValueParse {
                    expected: LitKind::Char,
                    raw: raw.to_owned(),
                }),
            }
        },
        Lit::Int { token: orig } => {
            if validate_int(raw) {
                Ok(Lit::Int { token: int_with_suffix(orig.as_str(), raw) })
            } else {
                Err(RewriteError::ValueParse { expected: LitKind::Int, raw: raw.to_owned() })
            }
        },
        Lit::Float { token: orig } => {
            if validate_float(raw) {
                Ok(Lit::Float { token: float_with_suffix(orig.as_str(), raw) })
            } else {
                Err(RewriteError::ValueParse { expected: LitKind::Float, raw: raw.to_owned() })
            }
        },
        Lit::Bool { .. } => {
            match parse_bool(raw) {
                Some(value) => Ok(Lit::Bool { value }),
                None => Err(RewriteError::ValueParse {
                    expected: LitKind::Bool,
                    raw: raw.to_owned(),
                }),
            }
        },
    }
}

/// The kind of the literal an initializer bottoms out in, if its shape is
/// supported.
pub fn shape_kind_exec(e: &Expr) -> (r: Option<LitKind>)
    ensures
        (r is Some) == literal_shape(*e),
        r matches Some(k) ==> k == shape_kind(*e),
    decreases *e,
{
    match e {
        Expr::Lit { lit, .. } => Some(lit.kind()),
        Expr::Neg { inner } => shape_kind_exec(inner),
        Expr::Paren { .. } => None,
        Expr::Other => None,
    }
}

/// Rewrites an initializer expression with the raw override value,
/// preserving negation wrappers, spans and annotations.
pub fn rewrite_expr(e: Expr, raw: &str) -> (r: Result<Expr, RewriteError>)
    ensures
        expr_rewritable(e, raw@) ==> (r matches Ok(out) && expr_rewritten(e, raw@, out)),
        !expr_rewritable(e, raw@) ==> (r matches Err(err) && err@ == rewrite_err(e, raw@)),
    decreases e,
{
    match e {
        Expr::Lit { lit, span, attrs } => {
            match rewrite_lit(&lit, raw) {
                Ok(l2) => Ok(Expr::Lit { lit: l2, span, attrs }),
                Err(err) => Err(err),
            }
        },
        Expr::Neg { inner } => {
            let n = raw.unicode_len();
            if n == 0 || raw.get_char(0) != '-' {
                match shape_kind_exec(&inner) {
                    Some(k) => Err(RewriteError::ValueParse { expected: k, raw: raw.to_owned() }),
                    None => Err(RewriteError::UnsupportedLiteral),
                }
            } else {
                let rest = raw.substring_char(1, n);
                proof {
                    assert(rest@ =~= raw@.skip(1));
                }
                match rewrite_expr(*inner, rest) {
                    Ok(i2) => Ok(Expr::Neg { inner: Box::new(i2) }),
                    Err(err) => Err(err),
                }
            }
        },
        Expr::Paren { .. } => Err(RewriteError::UnsupportedLiteral),
        Expr::Other => Err(RewriteError::UnsupportedLiteral),
    }
}

// ---------------------------------------------------------------------------
// Laws
// ---------------------------------------------------------------------------

/// A rewritten literal always carries the same kind tag as the original:
/// overriding never changes what kind of literal a declaration holds.
pub proof fn lemma_kind_preserved(l: Lit, raw: Seq<char>, out: Lit)
    requires
        lit_rewritten(l, raw, out),
    ensures
        lit_kind(out) == lit_kind(l),
{
}

/// A rewritten initializer keeps the original's wrapper structure and
/// bottoms out in a literal of the original's kind: overriding never turns
/// a declaration of one literal kind into another.
pub proof fn lemma_shape_kind_preserved(e: Expr, raw: Seq<char>, out: Expr)
    requires
        expr_rewritten(e, raw, out),
    ensures
        literal_shape(out),
        shape_kind(out) == shape_kind(e),
    decreases e,
{
    match e {
        Expr::Neg { inner } => {
            match out {
                Expr::Neg { inner: i2 } => {
                    lemma_shape_kind_preserved(*inner, raw.skip(1), *i2);
                },
                _ => {
                },
            }
        },
        Expr::Lit { lit, .. } => {
            match out {
                Expr::Lit { lit: l2, .. } => {
                    lemma_kind_preserved(lit, raw, l2);
                },
                _ => {
                },
            }
        },
        _ => {
        },
    }
}

/// A rewritten initializer reports the original literal's source position,
/// never a position taken from the replacement text.
pub proof fn lemma_position_preserved(e: Expr, raw: Seq<char>, out: Expr)
    requires
        expr_rewritten(e, raw, out),
    ensures
        lit_span_of(out) == lit_span_of(e),
    decreases e,
{
    match e {
        Expr::Neg { inner } => {
            match out {
                Expr::Neg { inner: i2 } => {
                    lemma_position_preserved(*inner, raw.skip(1), *i2);
                },
                _ => {
                },
            }
        },
        _ => {
        },
    }
}

} // verus!
