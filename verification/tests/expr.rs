use one_assert::ast::{Block, Expr, MatchArm, RawStmt, SrcSpan};
use one_assert::classify::assert_internal;
use one_assert::output::{ElseOut, GenBody, GenOut, Output};
use one_assert::text::format_with_args;

fn sp() -> SrcSpan {
    SrcSpan { lo: 0, hi: 0 }
}

fn lit(t: &str) -> Expr {
    Expr::Lit { span: sp(), text: t.to_string() }
}

fn path(t: &str) -> Expr {
    Expr::Path { span: sp(), text: t.to_string() }
}

fn opaque(t: &str) -> Expr {
    Expr::Opaque { span: sp(), text: t.to_string() }
}

fn bin(l: Expr, op: &str, r: Expr) -> Expr {
    Expr::Binary { span: sp(), left: Box::new(l), op: op.to_string(), right: Box::new(r) }
}

fn un(op: &str, e: Expr) -> Expr {
    Expr::Unary { span: sp(), op: op.to_string(), operand: Box::new(e) }
}

fn call(f: Expr, args: Vec<Expr>) -> Expr {
    Expr::Call { span: sp(), func: Box::new(f), args }
}

fn mcall(r: Expr, m: &str, args: Vec<Expr>) -> Expr {
    Expr::MethodCall {
        span: sp(),
        receiver: Box::new(r),
        method: m.to_string(),
        turbofish: String::new(),
        args,
    }
}

fn idx(b: Expr, i: Expr) -> Expr {
    Expr::Index { span: sp(), base: Box::new(b), index: Box::new(i) }
}

fn cast(v: Expr, ty: &str) -> Expr {
    Expr::Cast { span: sp(), value: Box::new(v), ty: ty.to_string() }
}

fn paren(e: Expr) -> Expr {
    Expr::Paren { span: sp(), inner: Box::new(e) }
}

fn blk(stmts: Vec<&str>, tail: Option<Expr>) -> Block {
    Block {
        span: sp(),
        stmts: stmts.into_iter().map(|t| RawStmt { span: sp(), text: t.to_string() }).collect(),
        tail: tail.map(Box::new),
    }
}

fn block_expr(stmts: Vec<&str>, tail: Option<Expr>) -> Expr {
    Expr::Block { span: sp(), block: blk(stmts, tail) }
}

fn const_expr(stmts: Vec<&str>, tail: Option<Expr>) -> Expr {
    Expr::Const { span: sp(), block: blk(stmts, tail) }
}

fn unsafe_expr(stmts: Vec<&str>, tail: Option<Expr>) -> Expr {
    Expr::Unsafe { span: sp(), block: blk(stmts, tail) }
}

fn if_expr(c: Expr, t: Block, e: Option<Expr>) -> Expr {
    Expr::If { span: sp(), cond: Box::new(c), then_branch: t, else_branch: e.map(Box::new) }
}

fn match_expr(s: Expr, arms: Vec<(&str, Expr, bool)>) -> Expr {
    Expr::Match {
        span: sp(),
        scrutinee: Box::new(s),
        arms: arms
            .into_iter()
            .map(|(p, b, comma)| MatchArm { pat: p.to_string(), body: b, comma })
            .collect(),
    }
}

fn rewritten(e: Expr, fmt: Option<&str>) -> GenOut {
    match assert_internal(e, fmt.map(|s| s.to_string())) {
        Ok(Output::Rewritten { gen }) => gen,
        Ok(_) => panic!("expected a rewritten fragment"),
        Err(d) => panic!("unexpected rejection: {}", d.message),
    }
}

fn fail_msg(gen: GenOut, vals: &[&str]) -> String {
    match gen.body {
        GenBody::Check { message, args, .. } => {
            assert_eq!(args.len(), vals.len());
            let v: Vec<String> = vals.iter().map(|s| s.to_string()).collect();
            format_with_args(&message, &v).unwrap()
        }
        _ => panic!("expected a plain check"),
    }
}

fn check_fail(e: Expr, vals: &[&str], expected: &str) {
    assert_eq!(fail_msg(rewritten(e, None), vals), expected);
}

fn split_if(gen: GenOut) -> (GenOut, ElseOut) {
    match gen.body {
        GenBody::IfElse { then_gen, else_gen, .. } => (*then_gen, *else_gen),
        _ => panic!("expected an if/else fragment"),
    }
}

fn else_last(e: ElseOut) -> GenOut {
    match e {
        ElseOut::Last { body } => *body,
        _ => panic!("expected a final else"),
    }
}

fn else_if(e: ElseOut) -> (GenOut, ElseOut) {
    match e {
        ElseOut::ElseIf { then_gen, else_gen, .. } => (*then_gen, *else_gen),
        _ => panic!("expected an else-if link"),
    }
}

fn match_arm_gen(gen: GenOut, i: usize) -> GenOut {
    match gen.body {
        GenBody::Match { mut arms, .. } => arms.remove(i).gen,
        _ => panic!("expected a match fragment"),
    }
}

#[test]
fn test_await() {
    check_fail(opaque("false_fut.await"), &[], "assertion `false_fut.await` failed");
}

#[test]
fn test_binary() {
    check_fail(
        bin(path("a"), "==", lit("2")),
        &["1", "2"],
        "assertion `a == 2` failed\n     left: 1\n    right: 2",
    );
    check_fail(
        bin(path("a"), "!=", lit("1")),
        &["1", "1"],
        "assertion `a != 1` failed\n     left: 1\n    right: 1",
    );
    check_fail(
        bin(path("a"), "<", lit("1")),
        &["1", "1"],
        "assertion `a < 1` failed\n     left: 1\n    right: 1",
    );
    check_fail(
        bin(path("a"), "<=", lit("0")),
        &["1", "0"],
        "assertion `a <= 0` failed\n     left: 1\n    right: 0",
    );
    check_fail(
        bin(path("a"), ">", lit("1")),
        &["1", "1"],
        "assertion `a > 1` failed\n     left: 1\n    right: 1",
    );
    check_fail(
        bin(path("a"), ">=", lit("2")),
        &["1", "2"],
        "assertion `a >= 2` failed\n     left: 1\n    right: 2",
    );
    check_fail(
        bin(path("b"), "&&", lit("false")),
        &["true", "false"],
        "assertion `b && false` failed\n     left: true\n    right: false",
    );
    check_fail(
        bin(path("b"), "&", lit("false")),
        &["true", "false"],
        "assertion `b & false` failed\n     left: true\n    right: false",
    );
    check_fail(
        bin(path("b"), "||", lit("false")),
        &["false", "false"],
        "assertion `b || false` failed\n     left: false\n    right: false",
    );
    check_fail(
        bin(path("b"), "|", lit("false")),
        &["false", "false"],
        "assertion `b | false` failed\n     left: false\n    right: false",
    );
    for op in ["+", "-", "*", "/", "%", "&", "|", "^", "<<", ">>"] {
        check_fail(
            bin(path("a"), op, call(path("OpToBool"), vec![lit("2")])),
            &["OpToBool(1)", "OpToBool(2)"],
            &format!(
                "assertion `a {} OpToBool(2)` failed\n     left: OpToBool(1)\n    right: OpToBool(2)",
                op
            ),
        );
    }
}

#[test]
fn test_block() {
    check_fail(
        block_expr(vec!["let a = 1;"], Some(bin(path("a"), "==", lit("2")))),
        &["1", "2"],
        "assertion `{ let a = 1; a == 2 }` failed\n  caused by: block return assertion `a == 2` failed\n     left: 1\n    right: 2",
    );
}

#[test]
fn test_call() {
    check_fail(
        call(path("dummy_fn"), vec![path("a"), path("b"), path("c")]),
        &["true", "1", "\"world\""],
        "assertion `dummy_fn(a, b, c)` failed\n    arg 0: true\n    arg 1: 1\n    arg 2: \"world\"",
    );
    check_fail(
        call(
            path("ten_arg_fn"),
            vec![
                path("a"),
                path("b"),
                lit("0"),
                lit("0"),
                lit("0"),
                lit("0"),
                lit("0"),
                lit("0"),
                lit("0"),
                lit("0"),
            ],
        ),
        &["1", "2", "0", "0", "0", "0", "0", "0", "0", "0"],
        "assertion `ten_arg_fn(a, b, 0, 0, 0, 0, 0, 0, 0, 0)` failed\n    arg 0: 1\n    arg 1: 2\n    arg 2: 0\n    arg 3: 0\n    arg 4: 0\n    arg 5: 0\n    arg 6: 0\n    arg 7: 0\n    arg 8: 0\n    arg 9: 0",
    );
    check_fail(
        call(
            path("eleven_arg_fn"),
            vec![
                path("a"),
                path("b"),
                lit("0"),
                lit("0"),
                lit("0"),
                lit("0"),
                lit("0"),
                lit("0"),
                lit("0"),
                lit("0"),
                lit("0"),
            ],
        ),
        &["1", "2", "0", "0", "0", "0", "0", "0", "0", "0", "0"],
        "assertion `eleven_arg_fn(a, b, 0, 0, 0, 0, 0, 0, 0, 0, 0)` failed\n    arg  0: 1\n    arg  1: 2\n    arg  2: 0\n    arg  3: 0\n    arg  4: 0\n    arg  5: 0\n    arg  6: 0\n    arg  7: 0\n    arg  8: 0\n    arg  9: 0\n    arg 10: 0",
    );
    check_fail(call(path("simple_false_fn"), vec![]), &[], "assertion `simple_false_fn()` failed");
    check_fail(
        call(call(path("curry_false"), vec![]), vec![]),
        &[],
        "assertion `curry_false() ()` failed",
    );
    check_fail(
        call(path("echo_fn"), vec![lit("false")]),
        &["false"],
        "assertion `echo_fn(false)` failed\n    arg 0: false",
    );
    check_fail(
        call(call(path("curry_echo"), vec![]), vec![lit("false")]),
        &["false"],
        "assertion `curry_echo() (false)` failed\n    arg 0: false",
    );
    check_fail(
        call(call(path("curry_return"), vec![path("simple_false_fn")]), vec![]),
        &[],
        "assertion `curry_return(simple_false_fn) ()` failed",
    );
}

#[test]
fn test_cast() {
    // the pre-cast value of a cast to bool is captured as "input"
    check_fail(
        cast(lit("false"), "bool"),
        &["false"],
        "assertion `false as bool` failed\n    input: false",
    );
    // a cast to any other type is left for the host compiler
    check_fail(cast(lit("1"), "u8"), &[], "assertion `1 as u8` failed");
}

#[test]
fn test_const() {
    check_fail(
        const_expr(vec!["let a = 1;"], Some(bin(path("a"), "==", lit("2")))),
        &["1", "2"],
        "assertion `const { let a = 1; a == 2 }` failed\n  caused by: block return assertion `a == 2` failed\n     left: 1\n    right: 2",
    );
}

#[test]
fn test_field() {
    check_fail(opaque("unbob.valid"), &[], "assertion `unbob.valid` failed");
}

#[test]
fn test_if() {
    let e = if_expr(
        bin(path("x"), "==", lit("1")),
        blk(vec![], Some(lit("false"))),
        Some(block_expr(vec![], Some(bin(path("y"), "==", lit("3"))))),
    );
    let (then_gen, _) = split_if(rewritten(e, None));
    assert_eq!(
        fail_msg(then_gen, &["true"]),
        "assertion `if x == 1 { false } else { y == 3 }` failed\n    condition `x == 1`: true\n  caused by: block return assertion `false` failed",
    );

    let e = if_expr(
        bin(path("x"), "==", lit("2")),
        blk(vec![], Some(lit("true"))),
        Some(block_expr(vec![], Some(bin(path("y"), "==", lit("3"))))),
    );
    let (_, else_gen) = split_if(rewritten(e, None));
    assert_eq!(
        fail_msg(else_last(else_gen), &["false", "2", "3"]),
        "assertion `if x == 2 { true } else { y == 3 }` failed\n    condition `x == 2`: false\n  caused by: block return assertion `y == 3` failed\n     left: 2\n    right: 3",
    );

    let e = if_expr(
        bin(path("x"), "==", lit("0")),
        blk(vec![], Some(lit("true"))),
        Some(if_expr(
            bin(path("x"), "==", lit("1")),
            blk(vec![], Some(bin(path("y"), "==", path("x")))),
            Some(if_expr(
                bin(path("x"), "==", lit("2")),
                blk(vec![], Some(lit("false"))),
                Some(block_expr(vec![], Some(opaque("unreachable! ()")))),
            )),
        )),
    );
    let (_, else1) = split_if(rewritten(e, None));
    let (branch2, _) = else_if(else1);
    assert_eq!(
        fail_msg(branch2, &["false", "true", "2", "1"]),
        "assertion `if x == 0 { true } else if x == 1 { y == x } else if x == 2 { false } else\n{ unreachable! () }` failed\n    condition `x == 0`: false\n    condition `x == 1`: true\n  caused by: block return assertion `y == x` failed\n     left: 2\n    right: 1",
    );

    let e = if_expr(
        bin(path("x"), "==", lit("0")),
        blk(vec![], Some(lit("true"))),
        Some(if_expr(
            bin(path("x"), "==", lit("5")),
            blk(vec![], Some(bin(path("y"), "==", path("x")))),
            Some(if_expr(
                lit("false"),
                blk(vec![], Some(lit("true"))),
                Some(if_expr(
                    bin(path("x"), "==", lit("2")),
                    blk(vec![], Some(lit("false"))),
                    Some(block_expr(
                        vec![],
                        Some(if_expr(
                            bin(path("x"), "==", lit("1")),
                            blk(vec![], Some(bin(path("y"), "==", lit("3")))),
                            Some(block_expr(vec![], Some(lit("false")))),
                        )),
                    )),
                )),
            )),
        )),
    );
    let (_, else1) = split_if(rewritten(e, None));
    let (_, else2) = else_if(else1);
    let (_, else3) = else_if(else2);
    let (_, else4) = else_if(else3);
    let inner_if = else_last(else4);
    let (inner_then, _) = split_if(inner_if);
    assert_eq!(
        fail_msg(inner_then, &["false", "false", "false", "false", "true", "2", "3"]),
        "assertion `if x == 0 { true } else if x == 5 { y == x } else if false { true } else if x\n== 2 { false } else { if x == 1 { y == 3 } else { false } }` failed\n    condition `x == 0`: false\n    condition `x == 5`: false\n     condition `false`: false\n    condition `x == 2`: false\n  caused by: block return assertion `if x == 1 { y == 3 } else { false }` failed\n    condition `x == 1`: true\n  caused by: block return assertion `y == 3` failed\n     left: 2\n    right: 3",
    );
}

#[test]
fn test_index() {
    check_fail(
        idx(path("arr"), path("idx")),
        &["1"],
        "assertion `arr [idx]` failed\n    index: 1",
    );
    check_fail(idx(path("arr"), lit("2")), &[], "assertion `arr [2]` failed");
    check_fail(
        idx(path("map"), path("false_key")),
        &["\"b\""],
        "assertion `map [false_key]` failed\n    index: \"b\"",
    );
}

#[test]
fn test_lit() {
    match assert_internal(lit("false"), None) {
        Ok(Output::FalsePanic) => {}
        _ => panic!("expected the fixed false panic"),
    }
    assert_eq!(
        one_assert::output::false_panic_message_string(),
        "surprisingly, `false` did not evaluate to true",
    );
}

#[test]
fn test_loop() {
    check_fail(
        opaque("loop { break false; }"),
        &[],
        "assertion `loop { break false; }` failed",
    );
}

#[test]
fn test_macro() {
    check_fail(opaque("dbg! (false)"), &[], "assertion `dbg! (false)` failed");
}

#[test]
fn test_match() {
    let e = match_expr(
        opaque("(x, y)"),
        vec![
            ("(2, _)", lit("true"), true),
            ("(_, 2)", bin(path("z"), "==", lit("5")), true),
            ("_", lit("false"), true),
        ],
    );
    let gen = rewritten(e, None);
    assert_eq!(
        fail_msg(match_arm_gen(gen, 1), &["(1, 2)", "3", "5"]),
        "assertion `match (x, y) { (2, _) => true, (_, 2) => z == 5, _ => false, }` failed\n    matched value: (1, 2)\n  caused by: match (x, y) entered arm `(_, 2)` where assertion `z == 5` failed\n     left: 3\n    right: 5",
    );

    let e = match_expr(
        path("x"),
        vec![
            ("2", lit("true"), true),
            (
                "_ if y < 5",
                block_expr(vec!["let w = 4;"], Some(bin(path("z"), "==", path("w")))),
                false,
            ),
            ("_", lit("false"), true),
        ],
    );
    let gen = rewritten(e, None);
    assert_eq!(
        fail_msg(match_arm_gen(gen, 1), &["1", "3", "4"]),
        "assertion `match x { 2 => true, _ if y < 5 => { let w = 4; z == w } _ => false, }` failed\n    matched value: 1\n  caused by: match x entered arm `_ if y < 5` where assertion `{ let w = 4; z == w }` failed\n  caused by: block return assertion `z == w` failed\n     left: 3\n    right: 4",
    );
}

#[test]
fn test_methodcall() {
    check_fail(
        mcall(path("s"), "contains", vec![lit("\"world\"")]),
        &["\"hello\"", "\"world\""],
        "assertion `s.contains(\"world\")` failed\n    object: \"hello\"\n     arg 0: \"world\"",
    );
}

#[test]
fn test_paren() {
    check_fail(paren(lit("false")), &[], "assertion `(false)` failed");
}

#[test]
fn test_path() {
    check_fail(path("x"), &[], "assertion `x` failed");
    check_fail(path("foo :: bar :: FALSE"), &[], "assertion `foo :: bar :: FALSE` failed");
    check_fail(
        path("foo :: Generic :: < -1 > :: IS_POSITIVE"),
        &[],
        "assertion `foo :: Generic :: < -1 > :: IS_POSITIVE` failed",
    );
}

#[test]
fn test_try() {
    check_fail(opaque("x ?"), &[], "assertion `x ?` failed");
}

#[test]
fn test_unary() {
    check_fail(
        un("!", path("b")),
        &["OpToBool(false)"],
        "assertion `! b` failed\n    original: OpToBool(false)",
    );
    check_fail(
        un("-", path("b")),
        &["OpToBool(false)"],
        "assertion `- b` failed\n    original: OpToBool(false)",
    );
    check_fail(
        un("*", path("b")),
        &["OpToBool(false)"],
        "assertion `* b` failed\n    original: OpToBool(false)",
    );
}

#[test]
fn test_unsafe() {
    let gen = rewritten(
        unsafe_expr(vec![], Some(call(path("std :: mem :: transmute"), vec![lit("0u8")]))),
        None,
    );
    assert!(gen.unsafe_block);
    assert_eq!(
        fail_msg(gen, &["0"]),
        "assertion `unsafe { std :: mem :: transmute(0u8) }` failed\n  caused by: block return assertion `std :: mem :: transmute(0u8)` failed\n    arg 0: 0",
    );
}
