use one_assert::ast::{Block, Expr, MatchArm, RawStmt, SrcSpan};
use one_assert::classify::assert_internal;
use one_assert::output::{GenBody, GenOut, Output};
use one_assert::text::format_with_args;

fn sp() -> SrcSpan {
    SrcSpan { lo: 0, hi: 0 }
}

fn lit(t: &str) -> Expr {
    Expr::Lit { span: sp(), text: t.to_string() }
}

fn path(t: &str) -> Expr {
    Expr::Path { span: sp(), text: t.to_string() }
}

fn opaque(t: &str) -> Expr {
    Expr::Opaque { span: sp(), text: t.to_string() }
}

fn bin(l: Expr, op: &str, r: Expr) -> Expr {
    Expr::Binary { span: sp(), left: Box::new(l), op: op.to_string(), right: Box::new(r) }
}

fn un(op: &str, e: Expr) -> Expr {
    Expr::Unary { span: sp(), op: op.to_string(), operand: Box::new(e) }
}

fn call(f: Expr, args: Vec<Expr>) -> Expr {
    Expr::Call { span: sp(), func: Box::new(f), args }
}

fn mcall(r: Expr, m: &str, args: Vec<Expr>) -> Expr {
    Expr::MethodCall {
        span: sp(),
        receiver: Box::new(r),
        method: m.to_string(),
        turbofish: String::new(),
        args,
    }
}

fn idx(b: Expr, i: Expr) -> Expr {
    Expr::Index { span: sp(), base: Box::new(b), index: Box::new(i) }
}

fn cast(v: Expr, ty: &str) -> Expr {
    Expr::Cast { span: sp(), value: Box::new(v), ty: ty.to_string() }
}

fn paren(e: Expr) -> Expr {
    Expr::Paren { span: sp(), inner: Box::new(e) }
}

fn blk(stmts: Vec<&str>, tail: Option<Expr>) -> Block {
    Block {
        span: sp(),
        stmts: stmts.into_iter().map(|t| RawStmt { span: sp(), text: t.to_string() }).collect(),
        tail: tail.map(Box::new),
    }
}

fn block_expr(stmts: Vec<&str>, tail: Option<Expr>) -> Expr {
    Expr::Block { span: sp(), block: blk(stmts, tail) }
}

fn const_expr(stmts: Vec<&str>, tail: Option<Expr>) -> Expr {
    Expr::Const { span: sp(), block: blk(stmts, tail) }
}

fn unsafe_expr(stmts: Vec<&str>, tail: Option<Expr>) -> Expr {
    Expr::Unsafe { span: sp(), block: blk(stmts, tail) }
}

fn if_expr(c: Expr, t: Block, e: Option<Expr>) -> Expr {
    Expr::If { span: sp(), cond: Box::new(c), then_branch: t, else_branch: e.map(Box::new) }
}

fn match_expr(s: Expr, arms: Vec<(&str, Expr, bool)>) -> Expr {
    Expr::Match {
        span: sp(),
        scrutinee: Box::new(s),
        arms: arms
            .into_iter()
            .map(|(p, b, comma)| MatchArm { pat: p.to_string(), body: b, comma })
            .collect(),
    }
}

fn rewritten(e: Expr) -> GenOut {
    match assert_internal(e, None) {
        Ok(Output::Rewritten { gen }) => gen,
        Ok(_) => panic!("expected a rewritten fragment"),
        Err(d) => panic!("unexpected rejection: {}", d.message),
    }
}

fn fail_msg(gen: GenOut, vals: &[&str]) -> String {
    match gen.body {
        GenBody::Check { message, args, .. } => {
            assert_eq!(args.len(), vals.len());
            let v: Vec<String> = vals.iter().map(|s| s.to_string()).collect();
            format_with_args(&message, &v).unwrap()
        }
        _ => panic!("expected a plain check"),
    }
}

fn check_fail(e: Expr, vals: &[&str], expected: &str) {
    assert_eq!(fail_msg(rewritten(e), vals), expected);
}

#[test]
fn test_negated_await() {
    check_fail(
        un("!", opaque("true_fut.await")),
        &["true"],
        "assertion `! true_fut.await` failed\n    original: true",
    );
}

#[test]
fn test_negated_binary() {
    check_fail(
        un("!", paren(bin(path("a"), "==", lit("1")))),
        &["true"],
        "assertion `! (a == 1)` failed\n    original: true",
    );
    check_fail(
        un("!", paren(bin(path("a"), "!=", lit("2")))),
        &["true"],
        "assertion `! (a != 2)` failed\n    original: true",
    );
    check_fail(
        un("!", paren(bin(path("a"), "<", lit("2")))),
        &["true"],
        "assertion `! (a < 2)` failed\n    original: true",
    );
    check_fail(
        un("!", paren(bin(path("a"), "<=", lit("1")))),
        &["true"],
        "assertion `! (a <= 1)` failed\n    original: true",
    );
    check_fail(
        un("!", paren(bin(path("a"), ">", lit("0")))),
        &["true"],
        "assertion `! (a > 0)` failed\n    original: true",
    );
    check_fail(
        un("!", paren(bin(path("a"), ">=", lit("1")))),
        &["true"],
        "assertion `! (a >= 1)` failed\n    original: true",
    );
    check_fail(
        un("!", paren(bin(path("b"), "&&", lit("true")))),
        &["true"],
        "assertion `! (b && true)` failed\n    original: true",
    );
    check_fail(
        un("!", paren(bin(path("b"), "||", lit("true")))),
        &["true"],
        "assertion `! (b || true)` failed\n    original: true",
    );
    for op in ["+", "-", "*", "/", "%", "&", "|", "^", "<<", ">>"] {
        check_fail(
            un("!", paren(bin(path("a"), op, call(path("OpToBool"), vec![lit("1")])))),
            &["true"],
            &format!("assertion `! (a {} OpToBool(1))` failed\n    original: true", op),
        );
    }
}

#[test]
fn test_negated_block() {
    check_fail(
        un("!", block_expr(vec!["let a = 1;"], Some(bin(path("a"), "==", lit("1"))))),
        &["true"],
        "assertion `! { let a = 1; a == 1 }` failed\n    original: true",
    );
}

#[test]
fn test_negated_call() {
    check_fail(
        un("!", call(path("dummy_fn"), vec![path("a"), path("b"), path("c")])),
        &["true"],
        "assertion `! dummy_fn(a, b, c)` failed\n    original: true",
    );
    check_fail(
        un("!", call(path("simple_true_fn"), vec![])),
        &["true"],
        "assertion `! simple_true_fn()` failed\n    original: true",
    );
    check_fail(
        un("!", call(call(path("curry_true"), vec![]), vec![])),
        &["true"],
        "assertion `! curry_true() ()` failed\n    original: true",
    );
    check_fail(
        un("!", call(path("echo_fn"), vec![lit("true")])),
        &["true"],
        "assertion `! echo_fn(true)` failed\n    original: true",
    );
    check_fail(
        un("!", call(call(path("curry_return"), vec![path("simple_true_fn")]), vec![])),
        &["true"],
        "assertion `! curry_return(simple_true_fn) ()` failed\n    original: true",
    );
}

#[test]
fn test_negated_cast() {
    check_fail(
        un("!", paren(cast(lit("true"), "bool"))),
        &["true"],
        "assertion `! (true as bool)` failed\n    original: true",
    );
}

#[test]
fn test_negated_const() {
    check_fail(
        un("!", const_expr(vec!["let a = 1;"], Some(bin(path("a"), "==", lit("1"))))),
        &["true"],
        "assertion `! const { let a = 1; a == 1 }` failed\n    original: true",
    );
}

#[test]
fn test_negated_field() {
    check_fail(
        un("!", opaque("unbob.valid")),
        &["true"],
        "assertion `! unbob.valid` failed\n    original: true",
    );
}

#[test]
fn test_negated_if() {
    check_fail(
        un(
            "!",
            if_expr(
                bin(path("x"), "==", lit("1")),
                blk(vec![], Some(lit("true"))),
                Some(block_expr(vec![], Some(bin(path("y"), "==", lit("3"))))),
            ),
        ),
        &["true"],
        "assertion `! if x == 1 { true } else { y == 3 }` failed\n    original: true",
    );
}

#[test]
fn test_negated_index() {
    check_fail(
        un("!", idx(path("arr"), path("idx"))),
        &["true"],
        "assertion `! arr [idx]` failed\n    original: true",
    );
    check_fail(
        un("!", idx(path("arr"), lit("0"))),
        &["true"],
        "assertion `! arr [0]` failed\n    original: true",
    );
}

#[test]
fn test_negated_lit() {
    check_fail(un("!", lit("true")), &["true"], "assertion `! true` failed\n    original: true");
}

#[test]
fn test_negated_loop() {
    check_fail(
        un("!", opaque("loop { break true; }")),
        &["true"],
        "assertion `! loop { break true; }` failed\n    original: true",
    );
}

#[test]
fn test_negated_macro() {
    check_fail(
        un("!", opaque("dbg! (true)")),
        &["true"],
        "assertion `! dbg! (true)` failed\n    original: true",
    );
}

#[test]
fn test_negated_match() {
    check_fail(
        un(
            "!",
            match_expr(
                opaque("(x, y)"),
                vec![
                    ("(2, _)", lit("true"), true),
                    ("(_, 2)", un("!", paren(bin(path("z"), "==", lit("5")))), true),
                    ("_", lit("false"), true),
                ],
            ),
        ),
        &["true"],
        "assertion `! match (x, y) { (2, _) => true, (_, 2) => ! (z == 5), _ => false, }` failed\n    original: true",
    );
}

#[test]
fn test_negated_methodcall() {
    check_fail(
        un("!", mcall(path("s"), "contains", vec![lit("\"ell\"")])),
        &["true"],
        "assertion `! s.contains(\"ell\")` failed\n    original: true",
    );
}

#[test]
fn test_negated_paren() {
    check_fail(
        un("!", paren(un("!", lit("false")))),
        &["true"],
        "assertion `! (! false)` failed\n    original: true",
    );
}

#[test]
fn test_negated_path() {
    check_fail(un("!", path("x")), &["true"], "assertion `! x` failed\n    original: true");
    check_fail(
        un("!", path("foo :: bar :: TRUE")),
        &["true"],
        "assertion `! foo :: bar :: TRUE` failed\n    original: true",
    );
    check_fail(
        un("!", path("foo :: Generic :: < 3 > :: IS_POSITIVE")),
        &["true"],
        "assertion `! foo :: Generic :: < 3 > :: IS_POSITIVE` failed\n    original: true",
    );
}

#[test]
fn test_negated_try() {
    check_fail(
        un("!", opaque("x ?")),
        &["true"],
        "assertion `! x ?` failed\n    original: true",
    );
}

#[test]
fn test_negated_unary() {
    check_fail(
        un("!", un("!", path("b"))),
        &["true"],
        "assertion `! ! b` failed\n    original: true",
    );
    check_fail(
        un("!", un("-", path("b"))),
        &["true"],
        "assertion `! - b` failed\n    original: true",
    );
    check_fail(
        un("!", un("*", path("b"))),
        &["true"],
        "assertion `! * b` failed\n    original: true",
    );
}

#[test]
fn test_negated_unsafe() {
    check_fail(
        un(
            "!",
            unsafe_expr(vec![], Some(call(path("std :: mem :: transmute"), vec![lit("1u8")]))),
        ),
        &["true"],
        "assertion `! unsafe { std :: mem :: transmute(1u8) }` failed\n    original: true",
    );
}
