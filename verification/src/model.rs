use vstd::prelude::*;

verus! {

/// Source-position metadata attached to a literal or a declaration.
/// Diagnostics keep pointing at the original source, so rewriting must
/// carry this through unchanged.
#[derive(Clone, Copy, PartialEq, Eq, Structural, Debug)]
pub struct Span {
    pub lo: u64,
    pub hi: u64,
}

/// The closed set of literal kinds the rewriter understands.
#[derive(Clone, Copy, PartialEq, Eq, Structural, Debug)]
pub enum LitKind {
    Str,
    ByteStr,
    Byte,
    Char,
    Int,
    Float,
    Bool,
}

/// A literal payload. `Int` and `Float` keep the literal's token text
/// (digits, base prefix, suffix) rather than a numeric value: the token is
/// re-emitted as source, never evaluated.
#[derive(PartialEq, Eq, Debug)]
pub enum Lit {
    Str { value: String },
    ByteStr { value: Vec<u8> },
    Byte { value: u8 },
    Char { value: char },
    Int { token: String },
    Float { token: String },
    Bool { value: bool },
}

/// The kind tag of a literal.
pub open spec fn lit_kind(l: Lit) -> LitKind {
    match l {
        Lit::Str { .. } => LitKind::Str,
        Lit::ByteStr { .. } => LitKind::ByteStr,
        Lit::Byte { .. } => LitKind::Byte,
        Lit::Char { .. } => LitKind::Char,
        Lit::Int { .. } => LitKind::Int,
        Lit::Float { .. } => LitKind::Float,
        Lit::Bool { .. } => LitKind::Bool,
    }
}

impl Lit {
    pub fn kind(&self) -> (k: LitKind)
        ensures
            k == lit_kind(*self),
    {
        match self {
            Lit::Str { .. } => LitKind::Str,
            Lit::ByteStr { .. } => LitKind::ByteStr,
            Lit::Byte { .. } => LitKind::Byte,
            Lit::Char { .. } => LitKind::Char,
            Lit::Int { .. } => LitKind::Int,
            Lit::Float { .. } => LitKind::Float,
            Lit::Bool { .. } => LitKind::Bool,
        }
    }
}

/// An initializer or attribute-argument expression: a literal with its
/// position and annotations, possibly wrapped in unary negation or
/// parentheses, or some other expression shape the rewriter does not touch.
#[derive(PartialEq, Eq, Debug)]
pub enum Expr {
    Lit { lit: Lit, span: Span, attrs: Vec<String> },
    Neg { inner: Box<Expr> },
    Paren { inner: Box<Expr> },
    Other,
}

/// The source position of the literal at the core of an expression, if the
/// expression bottoms out in one.
pub open spec fn lit_span_of(e: Expr) -> Option<Span>
    decreases e,
{
    match e {
        Expr::Lit { span, .. } => Some(span),
        Expr::Neg { inner } => lit_span_of(*inner),
        Expr::Paren { inner } => lit_span_of(*inner),
        Expr::Other => None,
    }
}

/// The two declaration shapes subject to overriding.
#[derive(Clone, Copy, PartialEq, Eq, Structural, Debug)]
pub enum DeclKind {
    Const,
    Static,
}

/// A named, typed binding with a literal initializer. `ty` is the type
/// annotation's source text; it is never altered by rewriting.
#[derive(PartialEq, Eq, Debug)]
pub struct Declaration {
    pub kind: DeclKind,
    pub name: String,
    pub ty: String,
    pub init: Expr,
    pub span: Span,
}

/// Why an override could not be applied. Every variant is fatal to the
/// caller: a malformed override must never silently degrade a constant.
#[derive(PartialEq, Eq, Debug)]
pub enum RewriteError {
    /// The explicit key attribute did not reduce to a string literal.
    KeyResolution,
    /// The declaration's initializer is not a recognized literal shape.
    UnsupportedLiteral,
    /// The override value cannot be parsed as the required literal kind.
    ValueParse { expected: LitKind, raw: String },
}

/// The mathematical image of a `RewriteError`.
pub enum ErrV {
    KeyResolution,
    UnsupportedLiteral,
    ValueParse { expected: LitKind, raw: Seq<char> },
}

impl View for RewriteError {
    type V = ErrV;

    open spec fn view(&self) -> ErrV {
        match self {
            RewriteError::KeyResolution => ErrV::KeyResolution,
            RewriteError::UnsupportedLiteral => ErrV::UnsupportedLiteral,
            RewriteError::ValueParse { expected, raw } => ErrV::ValueParse {
                expected: *expected,
                raw: raw@,
            },
        }
    }
}

} // verus!
