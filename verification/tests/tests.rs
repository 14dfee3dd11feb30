use one_assert::ast::{Expr, SrcSpan};
use one_assert::classify::assert_internal;
use one_assert::output::{GenBody, GenOut, Output};
use one_assert::state::SetupStmt;
use one_assert::text::format_with_args;

fn sp() -> SrcSpan {
    SrcSpan { lo: 0, hi: 0 }
}

fn lit(t: &str) -> Expr {
    Expr::Lit { span: sp(), text: t.to_string() }
}

fn path(t: &str) -> Expr {
    Expr::Path { span: sp(), text: t.to_string() }
}

fn opaque(t: &str) -> Expr {
    Expr::Opaque { span: sp(), text: t.to_string() }
}

fn bin(l: Expr, op: &str, r: Expr) -> Expr {
    Expr::Binary { span: sp(), left: Box::new(l), op: op.to_string(), right: Box::new(r) }
}

fn un(op: &str, e: Expr) -> Expr {
    Expr::Unary { span: sp(), op: op.to_string(), operand: Box::new(e) }
}

fn call(f: Expr, args: Vec<Expr>) -> Expr {
    Expr::Call { span: sp(), func: Box::new(f), args }
}

fn mcall(r: Expr, m: &str, args: Vec<Expr>) -> Expr {
    Expr::MethodCall {
        span: sp(),
        receiver: Box::new(r),
        method: m.to_string(),
        turbofish: String::new(),
        args,
    }
}

fn rewritten(e: Expr, fmt: Option<&str>) -> GenOut {
    match assert_internal(e, fmt.map(|s| s.to_string())) {
        Ok(Output::Rewritten { gen }) => gen,
        Ok(_) => panic!("expected a rewritten fragment"),
        Err(d) => panic!("unexpected rejection: {}", d.message),
    }
}

fn fail_msg(gen: GenOut, vals: &[&str]) -> String {
    match gen.body {
        GenBody::Check { message, args, .. } => {
            assert_eq!(args.len(), vals.len());
            let v: Vec<String> = vals.iter().map(|s| s.to_string()).collect();
            format_with_args(&message, &v).unwrap()
        }
        _ => panic!("expected a plain check"),
    }
}

fn check_fail(e: Expr, fmt: Option<&str>, vals: &[&str], expected: &str) {
    assert_eq!(fail_msg(rewritten(e, fmt), vals), expected);
}

#[test]
fn test_assert() {
    // the host's own macro reports "assertion failed: x == 2" and stops
    // there; this library's report for the same condition names both values
    check_fail(
        bin(path("x"), "==", lit("2")),
        None,
        &["1", "2"],
        "assertion `x == 2` failed\n     left: 1\n    right: 2",
    );
}

#[test]
fn test_assert_message() {
    // the host's own macro with a message reports only "x=1"; this library
    // keeps both the message and the condition report
    check_fail(
        bin(path("x"), "==", lit("2")),
        Some("\"x={}\", x"),
        &["x=1", "1", "2"],
        "assertion `x == 2` failed: x=1\n     left: 1\n    right: 2",
    );
}

#[test]
fn test_one_assert() {
    check_fail(
        bin(path("x"), "==", lit("2")),
        None,
        &["1", "2"],
        "assertion `x == 2` failed\n     left: 1\n    right: 2",
    );
    check_fail(
        bin(path("x"), "&&", lit("false")),
        None,
        &["true", "false"],
        "assertion `x && false` failed\n     left: true\n    right: false",
    );
}

#[test]
fn test_one_assert_message() {
    check_fail(
        bin(path("x"), "==", lit("2")),
        Some("\"x={}\", x"),
        &["x=1", "1", "2"],
        "assertion `x == 2` failed: x=1\n     left: 1\n    right: 2",
    );
    check_fail(
        bin(path("x"), "&&", lit("false")),
        Some("\"x={}\", x"),
        &["x=true", "true", "false"],
        "assertion `x && false` failed: x=true\n     left: true\n    right: false",
    );
}

#[test]
fn test_misc() {
    check_fail(
        un(
            "!",
            mcall(
                mcall(
                    lit("\"abc123\""),
                    "replace",
                    vec![opaque("|c : char| c.is_alphabetic()"), lit("\"\"")],
                ),
                "is_empty",
                vec![],
            ),
        ),
        None,
        &["false"],
        "assertion `! \"abc123\".replace(|c : char| c.is_alphabetic(), \"\").is_empty()` failed\n    original: false",
    );
}

#[test]
fn test_single_evaluation() {
    // however often a captured value is displayed, the generated setup
    // evaluates the expression with the side effect exactly once
    let gen = rewritten(bin(call(path("caller"), vec![]), "==", lit("false")), None);
    let mut caller_bindings = 0;
    for stmt in &gen.setup {
        if let SetupStmt::BindValue { expr: Expr::Call { .. }, .. } = stmt {
            caller_bindings += 1;
        }
    }
    assert_eq!(caller_bindings, 1);
    assert_eq!(
        fail_msg(gen, &["true", "false"]),
        "assertion `caller() == false` failed\n     left: true\n    right: false",
    );
}

#[test]
fn test_crazy_nonsense() {
    check_fail(
        bin(path("x"), "+", call(path("AddsToBool"), vec![lit("2")])),
        None,
        &["AddsToBool(1)", "AddsToBool(2)"],
        "assertion `x + AddsToBool(2)` failed\n     left: AddsToBool(1)\n    right: AddsToBool(2)",
    );
}
