use one_assert::ast::{Block, Expr, RawStmt, SrcSpan, printable_expr_string, render_line};
use one_assert::classify::{assert_internal, assert_true_flavor};
use one_assert::output::{GenBody, GenOut, Output};
use one_assert::text::{escape_text, format_with_args, u64_to_string};
use one_assert::utils::{FieldIdent, FullSpan, TokenStreamExt, Toks, list_items};

fn sp2(lo: usize, hi: usize) -> SrcSpan {
    SrcSpan { lo, hi }
}

fn sp() -> SrcSpan {
    sp2(0, 0)
}

fn lit(t: &str) -> Expr {
    Expr::Lit { span: sp(), text: t.to_string() }
}

fn path(t: &str) -> Expr {
    Expr::Path { span: sp(), text: t.to_string() }
}

fn bin(l: Expr, op: &str, r: Expr) -> Expr {
    Expr::Binary { span: sp(), left: Box::new(l), op: op.to_string(), right: Box::new(r) }
}

fn blk(stmts: Vec<&str>, tail: Option<Expr>) -> Block {
    Block {
        span: sp(),
        stmts: stmts.into_iter().map(|t| RawStmt { span: sp(), text: t.to_string() }).collect(),
        tail: tail.map(Box::new),
    }
}

fn rejection(e: Expr) -> (SrcSpan, String) {
    match assert_internal(e, None) {
        Err(d) => (d.span, d.message),
        Ok(_) => panic!("expected a rejection"),
    }
}

#[test]
fn test_rejected_shapes() {
    let (span, msg) = rejection(Expr::Assign {
        span: sp2(0, 5),
        eq_span: sp2(2, 3),
        text: "a = b".to_string(),
    });
    assert_eq!(span, sp2(2, 3));
    assert_eq!(
        msg,
        "Expected a boolean expression, found an assignment. Did you intend to compare with `==`?",
    );

    let (span, msg) = rejection(Expr::Async { span: sp2(0, 14), text: "async { true }".to_string() });
    assert_eq!(span, sp2(0, 14));
    assert_eq!(
        msg,
        "Expected a boolean expression, found an async block. Did you intend to await a future?",
    );

    let (_, msg) = rejection(Expr::Break { span: sp(), text: "break".to_string() });
    assert_eq!(msg, "Expected a boolean expression, found a break statement");

    let (_, msg) = rejection(Expr::Continue { span: sp(), text: "continue".to_string() });
    assert_eq!(msg, "Expected a boolean expression, found a continue statement");

    let (_, msg) = rejection(Expr::ForLoop { span: sp(), text: "for x in y { }".to_string() });
    assert_eq!(msg, "Expected a boolean expression, found a for loop");

    let (_, msg) = rejection(Expr::Let { span: sp(), text: "let x = 1".to_string() });
    assert_eq!(msg, "Expected a boolean expression, found a let statement");

    let (_, msg) = rejection(Expr::Return { span: sp(), text: "return true".to_string() });
    assert_eq!(msg, "Expected a boolean expression, found a return statement");

    let (_, msg) = rejection(Expr::Struct { span: sp(), text: "S { x : 1 }".to_string() });
    assert_eq!(msg, "Expected a boolean expression, found a struct literal");

    let (_, msg) = rejection(Expr::While { span: sp(), text: "while x { }".to_string() });
    assert_eq!(msg, "Expected a boolean expression, found a while loop");
}

#[test]
fn test_nested_rejection() {
    // a rejected shape as a block's trailing expression fails the whole
    // classification
    let e = Expr::Block {
        span: sp(),
        block: blk(vec![], Some(Expr::Break { span: sp2(2, 7), text: "break".to_string() })),
    };
    let (span, msg) = rejection(e);
    assert_eq!(span, sp2(2, 7));
    assert_eq!(msg, "Expected a boolean expression, found a break statement");
}

#[test]
fn test_else_shape_rejection() {
    // an `else` branch that is neither a block nor an `if` cannot come from
    // the front end; it is reported as a parse-shape error
    let e = Expr::If {
        span: sp(),
        cond: Box::new(bin(path("x"), "==", lit("1"))),
        then_branch: blk(vec![], Some(lit("true"))),
        else_branch: Some(Box::new(lit("false"))),
    };
    let (_, msg) = rejection(e);
    assert_eq!(msg, "parsing error: expected else block or if-else chain");
}

#[test]
fn test_arm_rejection() {
    // a rejected shape inside a match arm fails the whole classification
    let e = Expr::Match {
        span: sp(),
        scrutinee: Box::new(path("x")),
        arms: vec![one_assert::ast::MatchArm {
            pat: "_".to_string(),
            body: Expr::Continue { span: sp2(4, 6), text: "continue".to_string() },
            comma: true,
        }],
    };
    let (span, msg) = rejection(e);
    assert_eq!(span, sp2(4, 6));
    assert_eq!(msg, "Expected a boolean expression, found a continue statement");
}

#[test]
fn test_true_fast_path() {
    match assert_internal(lit("true"), None) {
        Ok(Output::TrueFlavor) => {}
        _ => panic!("expected the easter-egg fast path"),
    }
    match assert_true_flavor() {
        Output::TrueFlavor => {}
        _ => panic!("expected the easter-egg fragment"),
    }
}

#[test]
fn test_positive_predicate() {
    // the rewritten predicate stays positive: it reads the captured
    // bindings, never a synthesized negation
    let gen = match assert_internal(bin(path("a"), "==", lit("2")), None) {
        Ok(Output::Rewritten { gen }) => gen,
        _ => panic!("expected a rewritten fragment"),
    };
    match gen.body {
        GenBody::Check { condition, .. } => {
            assert_eq!(condition.parts[0].text, "a");
            for part in &condition.parts {
                assert!(part.text != "!");
            }
        }
        _ => panic!("expected a plain check"),
    }
}

#[test]
fn test_capture_identifiers_unique() {
    // nested captures within one expansion never reuse an identifier
    let gen = match assert_internal(
        bin(lit("1"), "==", bin(lit("2"), "+", lit("3"))),
        None,
    ) {
        Ok(Output::Rewritten { gen }) => gen,
        _ => panic!("expected a rewritten fragment"),
    };
    let mut idents: Vec<String> = Vec::new();
    for stmt in &gen.setup {
        match stmt {
            one_assert::state::SetupStmt::BindValue { ident, .. } => idents.push(ident.clone()),
            one_assert::state::SetupStmt::BindDebugStr { ident, .. } => idents.push(ident.clone()),
            _ => {}
        }
    }
    assert!(idents.len() >= 4);
    for i in 0..idents.len() {
        for j in 0..idents.len() {
            if i != j {
                assert!(idents[i] != idents[j]);
            }
        }
    }
}

#[test]
fn test_empty_message_is_no_message() {
    let gen = match assert_internal(bin(path("x"), "==", lit("2")), Some(String::new())) {
        Ok(Output::Rewritten { gen }) => gen,
        _ => panic!("expected a rewritten fragment"),
    };
    match gen.body {
        GenBody::Check { args, .. } => assert_eq!(args.len(), 2),
        _ => panic!("expected a plain check"),
    }
}

#[test]
fn test_format_with_args_edges() {
    let none: Vec<String> = Vec::new();
    assert_eq!(format_with_args("plain", &none), Some("plain".to_string()));
    assert_eq!(format_with_args("{{}}", &none), Some("{}".to_string()));
    assert_eq!(
        format_with_args("a {} b", &vec!["X".to_string()]),
        Some("a X b".to_string()),
    );
    // argument count must match the holes exactly
    assert_eq!(format_with_args("a {}", &none), None);
    assert_eq!(format_with_args("a", &vec!["X".to_string()]), None);
    // stray braces are malformed
    assert_eq!(format_with_args("a {", &none), None);
    assert_eq!(format_with_args("a }", &none), None);
}

#[test]
fn test_escape_text() {
    assert_eq!(escape_text("a{b}c"), "a{{b}}c");
    assert_eq!(escape_text("plain"), "plain");
}

#[test]
fn test_u64_rendering() {
    assert_eq!(u64_to_string(0), "0");
    assert_eq!(u64_to_string(7), "7");
    assert_eq!(u64_to_string(120), "120");
}

#[test]
fn test_list_items() {
    let empty: Vec<String> = Vec::new();
    assert_eq!(list_items(&empty), "");
    assert_eq!(list_items(&vec!["a".to_string()]), "a");
    assert_eq!(list_items(&vec!["a".to_string(), "b".to_string()]), "a or b");
    assert_eq!(
        list_items(&vec!["a".to_string(), "b".to_string(), "c".to_string()]),
        "a, b, or c",
    );
}

#[test]
fn test_field_ident() {
    let f = FieldIdent::from_index(7, sp2(1, 2));
    assert_eq!(f.text(), "7");
    let toks = f.to_toks();
    assert_eq!(toks.parts.len(), 1);
    assert_eq!(toks.parts[0].text, "7");
    assert_eq!(toks.parts[0].span, sp2(1, 2));
    let named = FieldIdent::Named { name: "field".to_string(), span: sp() };
    assert_eq!(named.text(), "field");
}

#[test]
fn test_full_span_apply() {
    // the first fragment takes the start position, the second the end, so a
    // host error underlines the whole original range
    let full = FullSpan::from_spanned(&Expr::Lit { span: sp2(10, 20), text: "x".to_string() });
    let a = Toks::single("v".to_string(), sp());
    let b = Toks::single(".0".to_string(), sp());
    let r = full.apply(a, b);
    assert_eq!(r.parts.len(), 2);
    assert_eq!(r.parts[0].span, sp2(10, 10));
    assert_eq!(r.parts[1].span, sp2(20, 20));

    let same = FullSpan::from_span(sp2(3, 4));
    assert_eq!(same.0, sp2(3, 4));
    assert_eq!(same.1, sp2(3, 4));
}

#[test]
fn test_with_span() {
    let mut t = Toks::single("a".to_string(), sp2(1, 2));
    t.push("b".to_string(), sp2(3, 4));
    let t = t.with_span(sp2(9, 9));
    assert_eq!(t.parts[0].span, sp2(9, 9));
    assert_eq!(t.parts[1].span, sp2(9, 9));
    assert_eq!(t.parts[0].text, "a");

    let mut u = Toks::single("c".to_string(), sp2(5, 6));
    u.set_span(sp2(7, 7));
    assert_eq!(u.parts[0].span, sp2(7, 7));
}

#[test]
fn test_rendering() {
    assert_eq!(render_line(&bin(path("a"), "==", lit("2"))), "a == 2");
    assert_eq!(
        printable_expr_string(&Expr::Block {
            span: sp(),
            block: blk(vec!["let a = 1;"], Some(bin(path("a"), "==", lit("2")))),
        }),
        "{{ let a = 1; a == 2 }}",
    );
}
