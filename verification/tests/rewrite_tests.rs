use const_env_impl::key::resolve_key;
use const_env_impl::provider::{ReadEnv, TestEnv};
use const_env_impl::rewrite::{rewrite_expr, rewrite_lit};
use const_env_impl::{
    rewrite_declaration, DeclKind, Declaration, Expr, Lit, LitKind, RewriteError, Span,
};

fn span() -> Span {
    Span { lo: 3, hi: 17 }
}

fn lit_expr(lit: Lit) -> Expr {
    Expr::Lit { lit, span: span(), attrs: vec![] }
}

fn decl(name: &str, ty: &str, init: Expr) -> Declaration {
    Declaration {
        kind: DeclKind::Const,
        name: name.to_string(),
        ty: ty.to_string(),
        init,
        span: Span { lo: 0, hi: 40 },
    }
}

#[test]
fn unchanged_when_provider_empty() {
    // const NAME: &str = "default"; with no override supplied.
    let env = TestEnv::builder().build();
    let d = decl("NAME", "&str", lit_expr(Lit::Str { value: "default".to_string() }));
    let expected = decl("NAME", "&str", lit_expr(Lit::Str { value: "default".to_string() }));
    assert_eq!(rewrite_declaration(d, None, &env), Ok(expected));
}

#[test]
fn absent_key_round_trip_for_other_kinds() {
    let env = TestEnv::builder().set("UNRELATED", "99").build();
    let d = decl("LIMIT", "i32", lit_expr(Lit::Int { token: "10".to_string() }));
    let expected = decl("LIMIT", "i32", lit_expr(Lit::Int { token: "10".to_string() }));
    assert_eq!(rewrite_declaration(d, None, &env), Ok(expected));
}

#[test]
fn int_override_scenario() {
    // const LIMIT: i32 = 10; with provider { "LIMIT": "99" }.
    let env = TestEnv::builder().set("LIMIT", "99").build();
    let d = decl("LIMIT", "i32", lit_expr(Lit::Int { token: "10".to_string() }));
    let expected = decl("LIMIT", "i32", lit_expr(Lit::Int { token: "99".to_string() }));
    assert_eq!(rewrite_declaration(d, None, &env), Ok(expected));
}

#[test]
fn sign_round_trip() {
    // An initializer of -5 overridden with "-42" keeps its negation wrapper.
    let neg_five = Expr::Neg { inner: Box::new(lit_expr(Lit::Int { token: "5".to_string() })) };
    let rewritten = rewrite_expr(neg_five, "-42").unwrap();
    let expected = Expr::Neg { inner: Box::new(lit_expr(Lit::Int { token: "42".to_string() })) };
    assert_eq!(rewritten, expected);
}

#[test]
fn negative_override_needs_sign() {
    let neg_five = Expr::Neg { inner: Box::new(lit_expr(Lit::Int { token: "5".to_string() })) };
    assert_eq!(
        rewrite_expr(neg_five, "42"),
        Err(RewriteError::ValueParse { expected: LitKind::Int, raw: "42".to_string() })
    );
}

#[test]
fn explicit_key_precedence() {
    let env = TestEnv::builder().set("NAME", "A").set("OTHER_KEY", "B").build();
    let d = decl("NAME", "&str", lit_expr(Lit::Str { value: "X".to_string() }));
    let attr = lit_expr(Lit::Str { value: "OTHER_KEY".to_string() });
    let expected = decl("NAME", "&str", lit_expr(Lit::Str { value: "B".to_string() }));
    assert_eq!(rewrite_declaration(d, Some(attr), &env), Ok(expected));
}

#[test]
fn bool_mismatch_rejected() {
    let env = TestEnv::builder().set("FLAG", "yes").build();
    let d = decl("FLAG", "bool", lit_expr(Lit::Bool { value: false }));
    assert_eq!(
        rewrite_declaration(d, None, &env),
        Err(RewriteError::ValueParse { expected: LitKind::Bool, raw: "yes".to_string() })
    );
}

#[test]
fn int_mismatch_rejected() {
    let env = TestEnv::builder().set("LIMIT", "abc").build();
    let d = decl("LIMIT", "i32", lit_expr(Lit::Int { token: "10".to_string() }));
    assert_eq!(
        rewrite_declaration(d, None, &env),
        Err(RewriteError::ValueParse { expected: LitKind::Int, raw: "abc".to_string() })
    );
}

#[test]
fn kind_preserved_for_each_kind() {
    let cases: Vec<(Lit, &str)> = vec![
        (Lit::Str { value: "old".to_string() }, "new"),
        (Lit::ByteStr { value: vec![1] }, "xy"),
        (Lit::Byte { value: 1 }, "z"),
        (Lit::Char { value: 'a' }, "b"),
        (Lit::Int { token: "1".to_string() }, "2"),
        (Lit::Float { token: "1.0".to_string() }, "2.5"),
        (Lit::Bool { value: false }, "true"),
    ];
    for (lit, raw) in cases {
        let kind = lit.kind();
        let out = rewrite_lit(&lit, raw).unwrap();
        assert_eq!(out.kind(), kind);
    }
}

#[test]
fn payloads_rewritten_per_kind() {
    assert_eq!(
        rewrite_lit(&Lit::Str { value: "d".to_string() }, "a\\tb"),
        Ok(Lit::Str { value: "a\tb".to_string() })
    );
    assert_eq!(
        rewrite_lit(&Lit::ByteStr { value: vec![] }, "hi\\x00"),
        Ok(Lit::ByteStr { value: vec![0x68, 0x69, 0x00] })
    );
    assert_eq!(rewrite_lit(&Lit::Byte { value: 0 }, "A"), Ok(Lit::Byte { value: 65 }));
    assert_eq!(rewrite_lit(&Lit::Char { value: 'a' }, "\u{e9}"), Ok(Lit::Char { value: '\u{e9}' }));
    assert_eq!(
        rewrite_lit(&Lit::Int { token: "1".to_string() }, "123u8"),
        Ok(Lit::Int { token: "123u8".to_string() })
    );
    assert_eq!(
        rewrite_lit(&Lit::Float { token: "1.0".to_string() }, "9.75e2"),
        Ok(Lit::Float { token: "9.75e2".to_string() })
    );
    assert_eq!(rewrite_lit(&Lit::Bool { value: true }, "false"), Ok(Lit::Bool { value: false }));
}

#[test]
fn int_suffix_carried_over() {
    // A plain decimal override keeps the original token's declared suffix.
    assert_eq!(
        rewrite_lit(&Lit::Int { token: "10u8".to_string() }, "99"),
        Ok(Lit::Int { token: "99u8".to_string() })
    );
    // An override bringing its own suffix stands as written.
    assert_eq!(
        rewrite_lit(&Lit::Int { token: "10u8".to_string() }, "99i32"),
        Ok(Lit::Int { token: "99i32".to_string() })
    );
    // Base prefixes on either side do not confuse the suffix split.
    assert_eq!(
        rewrite_lit(&Lit::Int { token: "0x10u64".to_string() }, "0b1"),
        Ok(Lit::Int { token: "0b1u64".to_string() })
    );
    // No suffix anywhere: the raw value stands alone.
    assert_eq!(
        rewrite_lit(&Lit::Int { token: "10".to_string() }, "99"),
        Ok(Lit::Int { token: "99".to_string() })
    );
}

#[test]
fn float_suffix_carried_over() {
    assert_eq!(
        rewrite_lit(&Lit::Float { token: "1.5f32".to_string() }, "2.5"),
        Ok(Lit::Float { token: "2.5f32".to_string() })
    );
    assert_eq!(
        rewrite_lit(&Lit::Float { token: "1.5f32".to_string() }, "9.75e2f64"),
        Ok(Lit::Float { token: "9.75e2f64".to_string() })
    );
    assert_eq!(
        rewrite_lit(&Lit::Float { token: "1.0f64".to_string() }, "3e8"),
        Ok(Lit::Float { token: "3e8f64".to_string() })
    );
}

#[test]
fn suffixed_declaration_scenario() {
    // const LIMIT: u8 = 10u8; overridden with "99" keeps the u8 token.
    let env = TestEnv::builder().set("LIMIT", "99").build();
    let d = decl("LIMIT", "u8", lit_expr(Lit::Int { token: "10u8".to_string() }));
    let expected = decl("LIMIT", "u8", lit_expr(Lit::Int { token: "99u8".to_string() }));
    assert_eq!(rewrite_declaration(d, None, &env), Ok(expected));
}

#[test]
fn negated_suffixed_literal_keeps_both() {
    let neg = Expr::Neg { inner: Box::new(lit_expr(Lit::Int { token: "5i64".to_string() })) };
    let out = rewrite_expr(neg, "-7").unwrap();
    let expected = Expr::Neg { inner: Box::new(lit_expr(Lit::Int { token: "7i64".to_string() })) };
    assert_eq!(out, expected);
}

#[test]
fn multi_unit_byte_and_char_rejected() {
    assert_eq!(
        rewrite_lit(&Lit::Byte { value: 0 }, "ab"),
        Err(RewriteError::ValueParse { expected: LitKind::Byte, raw: "ab".to_string() })
    );
    assert_eq!(
        rewrite_lit(&Lit::Char { value: 'a' }, "ab"),
        Err(RewriteError::ValueParse { expected: LitKind::Char, raw: "ab".to_string() })
    );
    assert_eq!(
        rewrite_lit(&Lit::Char { value: 'a' }, ""),
        Err(RewriteError::ValueParse { expected: LitKind::Char, raw: "".to_string() })
    );
}

#[test]
fn position_and_annotations_preserved() {
    let original = Expr::Lit {
        lit: Lit::Int { token: "10".to_string() },
        span: Span { lo: 11, hi: 13 },
        attrs: vec!["allow(dead_code)".to_string()],
    };
    let out = rewrite_expr(original, "99").unwrap();
    match out {
        Expr::Lit { lit, span, attrs } => {
            assert_eq!(lit, Lit::Int { token: "99".to_string() });
            assert_eq!(span, Span { lo: 11, hi: 13 });
            assert_eq!(attrs, vec!["allow(dead_code)".to_string()]);
        },
        other => panic!("expected a literal expression, got {:?}", other),
    }
}

#[test]
fn unsupported_shapes_rejected() {
    let env = TestEnv::builder().set("K", "1").build();
    let d = decl("K", "i32", Expr::Other);
    assert_eq!(rewrite_declaration(d, None, &env), Err(RewriteError::UnsupportedLiteral));
    let paren = Expr::Paren { inner: Box::new(lit_expr(Lit::Int { token: "1".to_string() })) };
    let d2 = decl("K", "i32", paren);
    assert_eq!(rewrite_declaration(d2, None, &env), Err(RewriteError::UnsupportedLiteral));
}

#[test]
fn static_declarations_rewritten_too() {
    let env = TestEnv::builder().set("GREETING", "hello").build();
    let d = Declaration {
        kind: DeclKind::Static,
        name: "GREETING".to_string(),
        ty: "&str".to_string(),
        init: lit_expr(Lit::Str { value: "hi".to_string() }),
        span: Span { lo: 0, hi: 30 },
    };
    let out = rewrite_declaration(d, None, &env).unwrap();
    assert_eq!(out.kind, DeclKind::Static);
    assert_eq!(out.init, lit_expr(Lit::Str { value: "hello".to_string() }));
}

#[test]
fn resolve_key_defaults_to_name() {
    assert_eq!(resolve_key(None, &"LIMIT".to_string()), Ok("LIMIT".to_string()));
}

#[test]
fn resolve_key_unwraps_parentheses() {
    let nested = Expr::Paren {
        inner: Box::new(Expr::Paren {
            inner: Box::new(lit_expr(Lit::Str { value: "KEY".to_string() })),
        }),
    };
    assert_eq!(resolve_key(Some(&nested), &"LIMIT".to_string()), Ok("KEY".to_string()));
}

#[test]
fn resolve_key_rejects_other_shapes() {
    let not_a_string = lit_expr(Lit::Int { token: "1".to_string() });
    assert_eq!(
        resolve_key(Some(&not_a_string), &"LIMIT".to_string()),
        Err(RewriteError::KeyResolution)
    );
    assert_eq!(resolve_key(Some(&Expr::Other), &"LIMIT".to_string()), Err(RewriteError::KeyResolution));
}

#[test]
fn key_resolution_error_stops_rewriting() {
    let env = TestEnv::builder().set("LIMIT", "99").build();
    let d = decl("LIMIT", "i32", lit_expr(Lit::Int { token: "10".to_string() }));
    let attr = lit_expr(Lit::Bool { value: true });
    assert_eq!(rewrite_declaration(d, Some(attr), &env), Err(RewriteError::KeyResolution));
}

#[test]
fn builder_later_entry_shadows_earlier() {
    let env = TestEnv::builder().set("K", "first").set("K", "second").build();
    assert_eq!(env.read_env(&"K".to_string()), Some("second".to_string()));
    assert_eq!(env.read_env(&"ABSENT".to_string()), None);
}

#[test]
fn nested_negation_strips_one_sign_per_wrapper() {
    let inner = Expr::Neg { inner: Box::new(lit_expr(Lit::Int { token: "5".to_string() })) };
    let doubled = Expr::Neg { inner: Box::new(inner) };
    let out = rewrite_expr(doubled, "--7").unwrap();
    let expected_inner =
        Expr::Neg { inner: Box::new(lit_expr(Lit::Int { token: "7".to_string() })) };
    assert_eq!(out, Expr::Neg { inner: Box::new(expected_inner) });
}
