//! The expression classifier and rewriter.
//!
//! For every expression shape, classification decides whether the expression
//! may serve as a check predicate at all, which sub-expressions are captured
//! into named bindings so their values can be reported, and how the failure
//! message mirrors the expression's structure. The rewritten predicate reads
//! the captured bindings, so every operand is evaluated exactly once.

use vstd::prelude::*;

use crate::ast::Block;
use crate::ast::Expr;
use crate::ast::SrcSpan;
use crate::ast::bsize;
use crate::ast::esize;
use crate::ast::aseq_size;
use crate::ast::eseq_size;
use crate::ast::expr_text;
use crate::ast::printable_text;
use crate::ast::span_of;
use crate::ast::MatchArm;
use crate::ast::RawStmt;
use crate::ast::lemma_aseq_skip;
use crate::ast::lemma_eseq_skip;
use crate::ast::printable_expr_string;
use crate::ast::render_block;
use crate::ast::render_line;
use crate::state::SetupStmt;
use crate::state::State;
use crate::state::StateV;
use crate::state::StmtV;
use crate::state::add_var_spec;
use crate::state::resolve_spec;
use crate::output::Diagnostic;
use crate::output::ElseOut;
use crate::output::ElseOutV;
use crate::output::GenArm;
use crate::output::GenArmV;
use crate::output::GenBody;
use crate::output::GenBodyV;
use crate::output::GenOut;
use crate::output::GenOutV;
use crate::output::Output;
use crate::output::OutputV;
use crate::output::else_out_v;
use crate::output::gen_arms_v;
use crate::output::gen_out_v;
use crate::output::output_v;
use crate::output::stmts_v;
use crate::output::strs_v;
use crate::text::append_spaces;
use crate::text::dec_str;
use crate::text::pad_left;
use crate::text::u64_to_string;
use crate::utils::Toks;
use crate::utils::call_site;
use crate::utils::call_site_span;

verus! {

/// An expression as it stands in generated code when it is not rewritten:
/// its own text, attributed to its own range.
pub open spec fn etoks(e: Expr) -> Seq<(Seq<char>, SrcSpan)> {
    seq![(expr_text(e), span_of(e))]
}

/// An isolated state for one branch: fresh setup, no `unsafe`, shared
/// message progress and counter.
pub open spec fn fork_v(st: StateV) -> StateV {
    StateV { setup: Seq::empty(), possibly_unsafe: false, ..st }
}

/// The state with a "caused by" line appended.
pub open spec fn with_cause(st: StateV, cause: Seq<char>) -> StateV {
    StateV { format_message: st.format_message + "\n  caused by: "@ + cause, ..st }
}

/// The plain instrumented check: pending variables written into the message,
/// then the setup, the positive predicate and the failure report assembled
/// into one fragment.
pub open spec fn finish_v(st: StateV, cond: Seq<(Seq<char>, SrcSpan)>) -> GenOutV {
    let st2 = resolve_spec(st);
    GenOutV {
        unsafe_block: st2.possibly_unsafe,
        setup: st2.setup,
        body: GenBodyV::Check {
            condition: cond,
            message: st2.format_message,
            args: st2.dynamic_args,
        },
    }
}

/// The width that call-argument indices are padded to: the width of the
/// largest index.
pub open spec fn arg_width(n: nat) -> nat {
    if n == 0 {
        1
    } else {
        dec_str((n - 1) as nat).len()
    }
}

/// The identifier role of the capture for argument `i`.
pub open spec fn arg_ident(i: nat) -> Seq<char> {
    "arg"@ + dec_str(i)
}

/// The display name of the capture for argument `i`, padded to width `w`.
pub open spec fn arg_display(i: nat, w: nat) -> Seq<char> {
    "arg "@ + pad_left(dec_str(i), w)
}

/// Captures each remaining call argument in order, starting at index `idx`:
/// the final state and the access tokens of each argument.
pub open spec fn add_args_spec(st: StateV, rest: Seq<Expr>, idx: nat, w: nat) -> (
    StateV,
    Seq<Seq<(Seq<char>, SrcSpan)>>,
)
    decreases rest.len(),
{
    if rest.len() == 0 {
        (st, Seq::empty())
    } else {
        let (st1, acc) = add_var_spec(st, rest[0], arg_ident(idx), arg_display(idx, w));
        let (st2, accs) = add_args_spec(st1, rest.skip(1), idx + 1, w);
        (st2, seq![acc] + accs)
    }
}

/// Argument accesses joined with commas.
pub open spec fn join_args(accs: Seq<Seq<(Seq<char>, SrcSpan)>>) -> Seq<(Seq<char>, SrcSpan)>
    decreases accs.len(),
{
    if accs.len() == 0 {
        Seq::empty()
    } else if accs.len() == 1 {
        accs[0]
    } else {
        join_args(accs.drop_last()) + seq![(","@, call_site())] + accs.last()
    }
}

/// The setup statements for user statements hoisted out of a block.
pub open spec fn hoisted_v(s: Seq<crate::ast::RawStmt>) -> Seq<StmtV> {
    Seq::new(s.len(), |i: int| StmtV::Hoisted { text: s[i].text@, span: s[i].span })
}

/// What classification returns for an expression: the generated fragment, or
/// the rejection for a shape that cannot serve as a check predicate.
///
/// Classification fails exactly on an assignment, an `async` block, `break`,
/// `continue`, a `for` or `while` loop, a `let` binding, `return`, a struct
/// literal — each with its own message — or on such a shape nested where
/// classification recurses; every other expression is accepted.
pub open spec fn eval_expr_spec(e: Expr, st: StateV) -> Result<GenOutV, (SrcSpan, Seq<char>)>
    decreases e, 1int,
{
    match e {
        Expr::Assign { eq_span, .. } => Err(
            (
                eq_span,
                "Expected a boolean expression, found an assignment. Did you intend to compare with `==`?"@,
            ),
        ),
        Expr::Async { span, .. } => Err(
            (
                span,
                "Expected a boolean expression, found an async block. Did you intend to await a future?"@,
            ),
        ),
        Expr::Break { span, .. } => Err(
            (span, "Expected a boolean expression, found a break statement"@),
        ),
        Expr::Continue { span, .. } => Err(
            (span, "Expected a boolean expression, found a continue statement"@),
        ),
        Expr::ForLoop { span, .. } => Err(
            (span, "Expected a boolean expression, found a for loop"@),
        ),
        Expr::Let { span, .. } => Err(
            (span, "Expected a boolean expression, found a let statement"@),
        ),
        Expr::Return { span, .. } => Err(
            (span, "Expected a boolean expression, found a return statement"@),
        ),
        Expr::Struct { span, .. } => Err(
            (span, "Expected a boolean expression, found a struct literal"@),
        ),
        Expr::While { span, .. } => Err(
            (span, "Expected a boolean expression, found a while loop"@),
        ),
        Expr::Binary { left, op, right, .. } => {
            let (st1, lacc) = add_var_spec(st, *left, "lhs"@, "left"@);
            let (st2, racc) = add_var_spec(st1, *right, "rhs"@, "right"@);
            Ok(finish_v(st2, lacc + seq![(op@, call_site())] + racc))
        },
        Expr::Unary { op, operand, .. } => {
            let (st1, acc) = add_var_spec(st, *operand, "original"@, "original"@);
            Ok(finish_v(st1, seq![(op@, call_site())] + acc))
        },
        Expr::Call { func, args, .. } => {
            if args.len() == 0 {
                Ok(finish_v(st, etoks(e)))
            } else {
                let w = arg_width(args@.len());
                let (st1, accs) = add_args_spec(st, args@, 0, w);
                let cond = seq![(expr_text(*func), span_of(*func)), ("("@, call_site())]
                    + join_args(accs) + seq![(")"@, call_site())];
                Ok(finish_v(st1, cond))
            }
        },
        Expr::MethodCall { receiver, method, turbofish, args, .. } => {
            let (st1, obj) = add_var_spec(st, *receiver, "object"@, "object"@);
            let w = arg_width(args@.len());
            let (st2, accs) = add_args_spec(st1, args@, 0, w);
            let cond = obj + seq![("."@ + method@ + turbofish@, call_site()), ("("@, call_site())]
                + join_args(accs) + seq![(")"@, call_site())];
            Ok(finish_v(st2, cond))
        },
        Expr::Index { base, index, .. } => {
            if *index is Lit {
                Ok(finish_v(st, etoks(e)))
            } else {
                let (st1, iacc) = add_var_spec(st, *index, "index"@, "index"@);
                let cond = seq![(expr_text(*base), span_of(*base)), ("["@, call_site())] + iacc
                    + seq![("]"@, call_site())];
                Ok(finish_v(st1, cond))
            }
        },
        Expr::Cast { value, ty, .. } => {
            if ty@ == "bool"@ {
                let (st1, acc) = add_var_spec(st, *value, "input"@, "input"@);
                Ok(finish_v(st1, acc + seq![("as"@, call_site()), (ty@, call_site())]))
            } else {
                Ok(finish_v(st, etoks(e)))
            }
        },
        Expr::Paren { inner, .. } => eval_expr_spec(*inner, st),
        Expr::Group { inner, .. } => eval_expr_spec(*inner, st),
        Expr::Block { block, .. } => eval_block_spec(block, st),
        Expr::Const { block, .. } => eval_block_spec(block, st),
        Expr::Unsafe { block, .. } => eval_block_spec(
            block,
            StateV { possibly_unsafe: true, ..st },
        ),
        Expr::If { cond, then_branch, else_branch: Some(eb), .. } => {
            let cond_str = printable_text(*cond);
            let (st1, cacc) = add_var_spec(
                st,
                *cond,
                "condition"@,
                "condition `"@ + cond_str + "`"@,
            );
            match eval_block_spec(then_branch, fork_v(st1)) {
                Err(d) => Err(d),
                Ok(then_gen) => match recurse_else_spec(*eb, fork_v(st1)) {
                    Err(d) => Err(d),
                    Ok(else_gen) => {
                        let st2 = resolve_spec(st1);
                        Ok(
                            GenOutV {
                                unsafe_block: st2.possibly_unsafe,
                                setup: st2.setup,
                                body: GenBodyV::IfElse {
                                    condition: cacc,
                                    then_gen: Box::new(then_gen),
                                    else_gen: Box::new(else_gen),
                                },
                            },
                        )
                    },
                },
            }
        },
        Expr::If { else_branch: None, .. } => Ok(finish_v(st, etoks(e))),
        Expr::Match { scrutinee, arms, .. } => {
            let expr_str = printable_text(*scrutinee);
            let (st1, macc) = add_var_spec(st, *scrutinee, "matched"@, "matched value"@);
            let st2 = resolve_spec(st1);
            match eval_arms_spec(expr_str, arms@, st2) {
                Err(d) => Err(d),
                Ok(arms_v) => Ok(
                    GenOutV {
                        unsafe_block: st2.possibly_unsafe,
                        setup: st2.setup,
                        body: GenBodyV::Match { scrutinee: macc, arms: arms_v },
                    },
                ),
            }
        },
        _ => Ok(finish_v(st, etoks(e))),
    }
}

/// The "caused by" line of a match arm whose assertion failed.
pub open spec fn arm_cause(expr_str: Seq<char>, pat: Seq<char>, body: Expr) -> Seq<char> {
    "match "@ + expr_str + " entered arm `"@ + crate::text::escape_braces(pat)
        + "` where assertion `"@ + printable_text(body) + "` failed"@
}

/// Classifies each arm body in an isolated state carrying the arm's "caused
/// by" line.
pub open spec fn eval_arms_spec(expr_str: Seq<char>, arms: Seq<crate::ast::MatchArm>, st: StateV) -> Result<
    Seq<GenArmV>,
    (SrcSpan, Seq<char>),
>
    decreases arms, 0int,
{
    if arms.len() == 0 {
        Ok(Seq::empty())
    } else {
        let arm = arms[0];
        let arm_state = with_cause(fork_v(st), arm_cause(expr_str, arm.pat@, arm.body));
        match eval_expr_spec(arm.body, arm_state) {
            Err(d) => Err(d),
            Ok(gen) => match eval_arms_spec(expr_str, arms.skip(1), st) {
                Err(d) => Err(d),
                Ok(rest) => Ok(seq![GenArmV { pat: arm.pat@, gen }] + rest),
            },
        }
    }
}

/// Classifies a block: pending variables are written out first, so that the
/// lines of the enclosing level stay aligned together. A block whose last
/// statement is a trailing expression hoists the leading statements into the
/// setup, notes the block-return cause, and classifies the trailing
/// expression; any other block is checked whole, with no report of its own.
pub open spec fn eval_block_spec(b: Block, st: StateV) -> Result<GenOutV, (SrcSpan, Seq<char>)>
    decreases b, 1int,
{
    let st1 = resolve_spec(st);
    match b.tail {
        None => Ok(
            GenOutV {
                unsafe_block: st1.possibly_unsafe,
                setup: st1.setup,
                body: GenBodyV::BareCheck {
                    condition: seq![(crate::ast::block_text(b), b.span)],
                },
            },
        ),
        Some(tail) => {
            let cond_str = printable_text(*tail);
            let st2 = with_cause(st1, "block return assertion `"@ + cond_str + "` failed"@);
            let st3 = StateV { setup: st2.setup + hoisted_v(b.stmts@), ..st2 };
            eval_expr_spec(*tail, st3)
        },
    }
}

/// Classifies the `else` side of an instrumented `if`: a block ends the
/// chain, an `else if` with its own `else` recurses self-similarly with its
/// own isolated setup, an `if` with no `else` is kept verbatim, and anything
/// else is a parse-shape that an `else` cannot hold.
pub open spec fn recurse_else_spec(branch: Expr, st: StateV) -> Result<
    ElseOutV,
    (SrcSpan, Seq<char>),
>
    decreases branch, 0int,
{
    match branch {
        Expr::Block { block, .. } => match eval_block_spec(block, st) {
            Err(d) => Err(d),
            Ok(body) => Ok(ElseOutV::Last { body: Box::new(body) }),
        },
        Expr::If { cond, then_branch, else_branch: Some(eb), .. } => {
            let cond_str = printable_text(*cond);
            let (st1, cacc) = add_var_spec(
                st,
                *cond,
                "condition"@,
                "condition `"@ + cond_str + "`"@,
            );
            match eval_block_spec(then_branch, fork_v(st1)) {
                Err(d) => Err(d),
                Ok(then_gen) => match recurse_else_spec(*eb, fork_v(st1)) {
                    Err(d) => Err(d),
                    Ok(else_gen) => {
                        let st2 = resolve_spec(st1);
                        Ok(
                            ElseOutV::ElseIf {
                                setup: st2.setup,
                                condition: cacc,
                                then_gen: Box::new(then_gen),
                                else_gen: Box::new(else_gen),
                            },
                        )
                    },
                },
            }
        },
        Expr::If { else_branch: None, .. } => Ok(ElseOutV::Passthrough { expr: branch }),
        _ => Err((span_of(branch), "parsing error: expected else block or if-else chain"@)),
    }
}

/// The state every classification starts from: the wrapper-struct
/// definition, the failure header quoting the condition, and the user's
/// format message, if one was given.
pub open spec fn initial_state(expr_str: Seq<char>, fmt: Option<Seq<char>>) -> StateV {
    let base = StateV {
        setup: seq![StmtV::WrapperDef],
        format_message: "assertion `"@ + expr_str + "` failed"@,
        dynamic_args: Seq::empty(),
        variables: Seq::empty(),
        possibly_unsafe: false,
        next_ident_id: 0,
    };
    match fmt {
        Some(f) => if f.len() > 0 {
            StateV {
                format_message: base.format_message + ": {}"@,
                dynamic_args: seq!["::std::format_args!("@ + f + ")"@],
                ..base
            }
        } else {
            base
        },
        None => base,
    }
}

/// The access tokens of a vector of fragments, in order.
pub open spec fn toks_vec_v(v: Seq<crate::utils::Toks>) -> Seq<Seq<(Seq<char>, SrcSpan)>> {
    Seq::new(v.len(), |i: int| v[i]@)
}

/// Assembles the plain instrumented check from a finished state and the
/// rewritten predicate.
fn finish(st_in: State, cond: Toks) -> (g: GenOut)
    ensures
        gen_out_v(g) == finish_v(st_in@, cond@),
{
    let mut st = st_in;
    st.resolve_variables();
    let ghost stv = st@;
    let g = GenOut {
        unsafe_block: st.possibly_unsafe,
        setup: st.setup,
        body: GenBody::Check {
            condition: cond,
            message: st.format_message,
            args: st.dynamic_args,
        },
    };
    proof {
        assert(stmts_v(g.setup@) =~= stv.setup);
        assert(match g.body {
            GenBody::Check { args, .. } => strs_v(args@) =~= stv.dynamic_args,
            _ => false,
        });
    }
    g
}

/// The whole transform: the literal fast paths for a bare `true` or `false`
/// condition, and generic classification for everything else.
pub open spec fn assert_internal_spec(e: Expr, fmt: Option<Seq<char>>) -> Result<
    OutputV,
    (SrcSpan, Seq<char>),
> {
    let expr_str = printable_text(e);
    if expr_str == "true"@ {
        Ok(OutputV::TrueFlavor)
    } else if expr_str == "false"@ {
        Ok(OutputV::FalsePanic)
    } else {
        match eval_expr_spec(e, initial_state(expr_str, fmt)) {
            Ok(g) => Ok(OutputV::Rewritten { gen: g }),
            Err(d) => Err(d),
        }
    }
}

/// Captures each call argument in order, starting at index `idx`; returns
/// the grown state and the access tokens of each argument.
fn add_args(st_in: State, args: Vec<Expr>, idx: u64, w: usize) -> (r: (State, Vec<Toks>))
    requires
        st_in@.next_ident_id + 2 * eseq_size(args@) <= u64::MAX,
        idx + args@.len() <= u64::MAX,
    ensures
        ({
            let (stf, accs) = add_args_spec(st_in@, args@, idx as nat, w as nat);
            r.0@ == stf && toks_vec_v(r.1@) == accs && stf.next_ident_id <= st_in@.next_ident_id
                + 2 * eseq_size(args@)
        }),
    decreases args@.len(),
{
    if args.len() == 0 {
        let empty: Vec<Toks> = Vec::new();
        proof {
            assert(toks_vec_v(empty@) =~= Seq::<Seq<(Seq<char>, SrcSpan)>>::empty());
        }
        (st_in, empty)
    } else {
        let ghost full = args@;
        let mut st = st_in;
        let mut args = args;
        let first = args.remove(0);
        proof {
            lemma_eseq_skip(full);
            assert(args@ =~= full.skip(1));
            assert(esize(full[0]) >= 1);
        }
        let ds = u64_to_string(idx);
        let mut idn = String::from_str("arg");
        idn.append(ds.as_str());
        let mut dsp = String::from_str("arg ");
        let dlen = ds.as_str().unicode_len();
        if dlen < w {
            append_spaces(&mut dsp, w - dlen);
            dsp.append(ds.as_str());
            proof {
                assert(pad_left(dec_str(idx as nat), w as nat) == crate::text::spaces(
                    (w - dlen) as nat,
                ) + dec_str(idx as nat));
                assert(dsp@ =~= arg_display(idx as nat, w as nat));
            }
        } else {
            dsp.append(ds.as_str());
            proof {
                assert(pad_left(dec_str(idx as nat), w as nat) == dec_str(idx as nat));
                assert(dsp@ =~= arg_display(idx as nat, w as nat));
            }
        }
        proof {
            assert(idn@ =~= arg_ident(idx as nat));
        }
        let acc = st.add_var(first, idn.as_str(), dsp.as_str());
        proof {
            assert(st@.next_ident_id <= st_in@.next_ident_id + 2);
        }
        let (st2, mut rest) = add_args(st, args, idx + 1, w);
        let ghost rest_pre = rest@;
        rest.insert(0, acc);
        proof {
            let (stf, accs) = add_args_spec(st_in@, full, idx as nat, w as nat);
            assert(rest@ =~= seq![acc].add(rest_pre));
            assert forall|k: int| 0 <= k < rest@.len() implies toks_vec_v(rest@)[k] == accs[k] by {
                if k > 0 {
                    assert(toks_vec_v(rest_pre)[k - 1] == rest_pre[k - 1]@);
                }
            }
            assert(toks_vec_v(rest@) =~= accs);
        }
        (st2, rest)
    }
}

/// Builds the rewritten argument list: the accesses joined with commas.
fn join_args_toks(accs: Vec<Toks>) -> (r: Toks)
    ensures
        r@ == join_args(toks_vec_v(accs@)),
{
    let ghost av = toks_vec_v(accs@);
    let n = accs.len();
    let mut accs = accs;
    let mut out = Toks::new();
    let mut i: usize = 0;
    proof {
        assert(av.subrange(0, 0) =~= Seq::<Seq<(Seq<char>, SrcSpan)>>::empty());
        assert(out@ =~= join_args(av.subrange(0, 0)));
    }
    while i < n
        invariant
            i <= n,
            av.len() == n,
            accs@.len() == n - i,
            forall|k: int| 0 <= k < n - i ==> accs@[k]@ == av[k + i],
            out@ == join_args(av.subrange(0, i as int)),
        decreases n - i,
    {
        if i > 0 {
            out.push(String::from_str(","), call_site_span());
        }
        let a = accs.remove(0);
        proof {
            assert(a@ == av[i as int]);
        }
        out.extend(a);
        proof {
            let cur = av.subrange(0, i + 1);
            assert(cur.drop_last() =~= av.subrange(0, i as int));
            assert(cur.last() == av[i as int]);
            if i == 0 {
                assert(cur.len() == 1);
                assert(out@ =~= cur[0]);
            } else {
                assert(out@ =~= join_args(cur.drop_last()) + seq![(","@, call_site())]
                    + cur.last());
            }
        }
        i = i + 1;
    }
    proof {
        assert(av.subrange(0, n as int) =~= av);
    }
    out
}

/// Classifies an expression, growing the diagnostic state, and returns the
/// generated fragment or the rejection.
#[verifier::rlimit(100)]
pub fn eval_expr(e: Expr, st: State) -> (r: Result<GenOut, Diagnostic>)
    requires
        st@.next_ident_id + 2 * esize(e) <= u64::MAX,
    ensures
        (match r {
            Ok(g) => eval_expr_spec(e, st@) == Ok::<GenOutV, (SrcSpan, Seq<char>)>(gen_out_v(g)),
            Err(d) => eval_expr_spec(e, st@) == Err::<GenOutV, (SrcSpan, Seq<char>)>(d@),
        }),
    decreases esize(e), 1int,
{
    let ghost st0 = st@;
    let eline = render_line(&e);
    let esp = e.span();
    let mut st = st;
    match e {
        Expr::Assign { eq_span, .. } => Err(
            Diagnostic {
                span: eq_span,
                message: String::from_str(
                    "Expected a boolean expression, found an assignment. Did you intend to compare with `==`?",
                ),
            },
        ),
        Expr::Async { span, .. } => Err(
            Diagnostic {
                span,
                message: String::from_str(
                    "Expected a boolean expression, found an async block. Did you intend to await a future?",
                ),
            },
        ),
        Expr::Break { span, .. } => Err(
            Diagnostic {
                span,
                message: String::from_str(
                    "Expected a boolean expression, found a break statement",
                ),
            },
        ),
        Expr::Continue { span, .. } => Err(
            Diagnostic {
                span,
                message: String::from_str(
                    "Expected a boolean expression, found a continue statement",
                ),
            },
        ),
        Expr::ForLoop { span, .. } => Err(
            Diagnostic {
                span,
                message: String::from_str("Expected a boolean expression, found a for loop"),
            },
        ),
        Expr::Let { span, .. } => Err(
            Diagnostic {
                span,
                message: String::from_str("Expected a boolean expression, found a let statement"),
            },
        ),
        Expr::Return { span, .. } => Err(
            Diagnostic {
                span,
                message: String::from_str(
                    "Expected a boolean expression, found a return statement",
                ),
            },
        ),
        Expr::Struct { span, .. } => Err(
            Diagnostic {
                span,
                message: String::from_str("Expected a boolean expression, found a struct literal"),
            },
        ),
        Expr::While { span, .. } => Err(
            Diagnostic {
                span,
                message: String::from_str("Expected a boolean expression, found a while loop"),
            },
        ),
        Expr::Binary { left, op, right, .. } => {
            proof {
                assert(esize(*left) >= 1 && esize(*right) >= 1);
            }
            let lacc = st.add_var(*left, "lhs", "left");
            proof {
                assert(st@.next_ident_id <= st0.next_ident_id + 2);
            }
            let racc = st.add_var(*right, "rhs", "right");
            let ghost laccv = lacc@;
            let ghost raccv = racc@;
            let ghost opv = op@;
            let mut cond = lacc;
            cond.push(op, call_site_span());
            cond.extend(racc);
            proof {
                assert(cond@ =~= laccv + seq![(opv, call_site())] + raccv);
            }
            Ok(finish(st, cond))
        },
        Expr::Unary { op, operand, .. } => {
            proof {
                assert(esize(*operand) >= 1);
            }
            let acc = st.add_var(*operand, "original", "original");
            let ghost accv = acc@;
            let ghost opv = op@;
            let mut cond = Toks::single(op, call_site_span());
            cond.extend(acc);
            proof {
                assert(cond@ =~= seq![(opv, call_site())] + accv);
            }
            Ok(finish(st, cond))
        },
        Expr::Call { func, args, .. } => {
            if args.len() == 0 {
                let cond = Toks::single(eline, esp);
                proof {
                    assert(cond@ =~= etoks(e));
                }
                Ok(finish(st, cond))
            } else {
                let fline = render_line(&*func);
                let fsp = func.span();
                let last_idx = args.len() - 1;
                let wstr = u64_to_string(last_idx as u64);
                let w = wstr.as_str().unicode_len();
                proof {
                    assert(w as nat == arg_width(args@.len()));
                    assert(esize(*func) >= 1);
                }
                let (st2, accs) = add_args(st, args, 0, w);
                let ghost accsv = toks_vec_v(accs@);
                let joined = join_args_toks(accs);
                let ghost joinedv = joined@;
                let ghost flinev = fline@;
                let mut cond = Toks::single(fline, fsp);
                cond.push(String::from_str("("), call_site_span());
                cond.extend(joined);
                cond.push(String::from_str(")"), call_site_span());
                proof {
                    assert(cond@ =~= seq![(flinev, fsp), ("("@, call_site())] + joinedv + seq![
                        (")"@, call_site()),
                    ]);
                }
                Ok(finish(st2, cond))
            }
        },
        Expr::MethodCall { receiver, method, turbofish, args, .. } => {
            proof {
                assert(esize(*receiver) >= 1);
            }
            let obj = st.add_var(*receiver, "object", "object");
            proof {
                assert(st@.next_ident_id <= st0.next_ident_id + 2);
            }
            let last_idx = if args.len() == 0 {
                0
            } else {
                args.len() - 1
            };
            let wstr = u64_to_string(last_idx as u64);
            let w = wstr.as_str().unicode_len();
            proof {
                assert(w as nat == arg_width(args@.len()));
            }
            let (st2, accs) = add_args(st, args, 0, w);
            let ghost objv = obj@;
            let joined = join_args_toks(accs);
            let ghost joinedv = joined@;
            let mut dot = String::from_str(".");
            dot.append(method.as_str());
            dot.append(turbofish.as_str());
            let ghost dotv = dot@;
            let mut cond = obj;
            cond.push(dot, call_site_span());
            cond.push(String::from_str("("), call_site_span());
            cond.extend(joined);
            cond.push(String::from_str(")"), call_site_span());
            proof {
                assert(cond@ =~= objv + seq![(dotv, call_site()), ("("@, call_site())] + joinedv
                    + seq![(")"@, call_site())]);
            }
            Ok(finish(st2, cond))
        },
        Expr::Index { base, index, .. } => {
            if matches!(*index, Expr::Lit { .. }) {
                let cond = Toks::single(eline, esp);
                proof {
                    assert(cond@ =~= etoks(e));
                }
                Ok(finish(st, cond))
            } else {
                let bline = render_line(&*base);
                let bsp = base.span();
                proof {
                    assert(esize(*index) >= 1 && esize(*base) >= 1);
                }
                let iacc = st.add_var(*index, "index", "index");
                let ghost iaccv = iacc@;
                let ghost blinev = bline@;
                let mut cond = Toks::single(bline, bsp);
                cond.push(String::from_str("["), call_site_span());
                cond.extend(iacc);
                cond.push(String::from_str("]"), call_site_span());
                proof {
                    assert(cond@ =~= seq![(blinev, bsp), ("["@, call_site())] + iaccv + seq![
                        ("]"@, call_site()),
                    ]);
                }
                Ok(finish(st, cond))
            }
        },
        Expr::Cast { value, ty, .. } => {
            let bool_name = String::from_str("bool");
            if ty == bool_name {
                proof {
                    assert(esize(*value) >= 1);
                }
                let acc = st.add_var(*value, "input", "input");
                let ghost accv = acc@;
                let ghost tyv = ty@;
                let mut cond = acc;
                cond.push(String::from_str("as"), call_site_span());
                cond.push(ty, call_site_span());
                proof {
                    assert(cond@ =~= accv + seq![("as"@, call_site()), (tyv, call_site())]);
                }
                Ok(finish(st, cond))
            } else {
                let cond = Toks::single(eline, esp);
                proof {
                    assert(cond@ =~= etoks(e));
                }
                Ok(finish(st, cond))
            }
        },
        Expr::Paren { inner, .. } => eval_expr(*inner, st),
        Expr::Group { inner, .. } => eval_expr(*inner, st),
        Expr::Block { block, .. } => eval_block(block, st),
        Expr::Const { block, .. } => eval_block(block, st),
        Expr::Unsafe { block, .. } => {
            st.possibly_unsafe = true;
            eval_block(block, st)
        },
        Expr::If { cond, then_branch, else_branch: Some(eb), .. } => {
            let cond_str = printable_expr_string(&cond);
            let mut dsp = String::from_str("condition `");
            dsp.append(cond_str.as_str());
            dsp.append("`");
            proof {
                assert(esize(*cond) >= 1 && esize(*eb) >= 1 && bsize(then_branch) >= 1);
            }
            let cacc = st.add_var(*cond, "condition", dsp.as_str());
            proof {
                assert(st@.next_ident_id <= st0.next_ident_id + 2);
            }
            let then_gen = match eval_block(then_branch, st.fork()) {
                Ok(g) => g,
                Err(d) => {
                    return Err(d);
                },
            };
            let else_gen = match recurse_else_branches(*eb, st.fork()) {
                Ok(g) => g,
                Err(d) => {
                    return Err(d);
                },
            };
            st.resolve_variables();
            let ghost stv = st@;
            let g = GenOut {
                unsafe_block: st.possibly_unsafe,
                setup: st.setup,
                body: GenBody::IfElse {
                    condition: cacc,
                    then_gen: Box::new(then_gen),
                    else_gen: Box::new(else_gen),
                },
            };
            proof {
                assert(stmts_v(g.setup@) =~= stv.setup);
            }
            Ok(g)
        },
        Expr::If { else_branch: None, .. } => {
            let cond = Toks::single(eline, esp);
            proof {
                assert(cond@ =~= etoks(e));
            }
            Ok(finish(st, cond))
        },
        Expr::Match { scrutinee, arms, .. } => {
            let expr_str = printable_expr_string(&scrutinee);
            proof {
                assert(esize(*scrutinee) >= 1);
            }
            let macc = st.add_var(*scrutinee, "matched", "matched value");
            proof {
                assert(st@.next_ident_id <= st0.next_ident_id + 2);
            }
            st.resolve_variables();
            let arms_out = match eval_arms(&expr_str, arms, &st) {
                Ok(v) => v,
                Err(d) => {
                    return Err(d);
                },
            };
            let ghost stv = st@;
            let g = GenOut {
                unsafe_block: st.possibly_unsafe,
                setup: st.setup,
                body: GenBody::Match { scrutinee: macc, arms: arms_out },
            };
            proof {
                assert(stmts_v(g.setup@) =~= stv.setup);
            }
            Ok(g)
        },
        _ => {
            let cond = Toks::single(eline, esp);
            proof {
                assert(cond@ =~= etoks(e));
            }
            Ok(finish(st, cond))
        },
    }
}

/// Classifies each match arm body in an isolated state carrying the arm's
/// "caused by" line.
fn eval_arms(expr_str: &String, arms: Vec<MatchArm>, st: &State) -> (r: Result<
    Vec<GenArm>,
    Diagnostic,
>)
    requires
        st@.next_ident_id + 2 * aseq_size(arms@) <= u64::MAX,
    ensures
        (match r {
            Ok(v) => eval_arms_spec(expr_str@, arms@, st@) == Ok::<
                Seq<GenArmV>,
                (SrcSpan, Seq<char>),
            >(gen_arms_v(v@)),
            Err(d) => eval_arms_spec(expr_str@, arms@, st@) == Err::<
                Seq<GenArmV>,
                (SrcSpan, Seq<char>),
            >(d@),
        }),
    decreases aseq_size(arms@), 2int,
{
    if arms.len() == 0 {
        let empty: Vec<GenArm> = Vec::new();
        proof {
            assert(gen_arms_v(empty@) =~= Seq::<GenArmV>::empty());
        }
        Ok(empty)
    } else {
        let ghost full = arms@;
        let mut arms = arms;
        let arm = arms.remove(0);
        proof {
            lemma_aseq_skip(full);
            assert(arms@ =~= full.skip(1));
        }
        let body_str = printable_expr_string(&arm.body);
        let mut cause = String::from_str("match ");
        cause.append(expr_str.as_str());
        cause.append(" entered arm `");
        let escaped_pat = crate::text::escape_text(arm.pat.as_str());
        cause.append(escaped_pat.as_str());
        cause.append("` where assertion `");
        cause.append(body_str.as_str());
        cause.append("` failed");
        let mut arm_state = st.fork();
        arm_state.add_cause(cause.as_str());
        proof {
            assert(arm_state@ == with_cause(fork_v(st@), arm_cause(expr_str@, full[0].pat@, full[0].body)));
        }
        let gen = match eval_expr(arm.body, arm_state) {
            Ok(g) => g,
            Err(d) => {
                return Err(d);
            },
        };
        let rest = match eval_arms(expr_str, arms, st) {
            Ok(v) => v,
            Err(d) => {
                return Err(d);
            },
        };
        let mut out = rest;
        let ghost armp = arm.pat@;
        let ghost genv = gen_out_v(gen);
        let ghost restv = gen_arms_v(out@);
        let ghost oldout = out@;
        out.insert(0, GenArm { pat: arm.pat, gen });
        proof {
            lemma_gen_arms_v_insert_front(out@);
            assert(out@[0].pat@ == armp);
            assert(gen_out_v(out@[0].gen) == genv);
            assert(out@.skip(1) =~= oldout);
            assert(gen_arms_v(out@) == seq![GenArmV { pat: armp, gen: genv }] + restv);
        }
        Ok(out)
    }
}

/// The ghost arms of a non-empty vector: the first arm, then the rest.
proof fn lemma_gen_arms_v_insert_front(s: Seq<GenArm>)
    requires
        s.len() > 0,
    ensures
        gen_arms_v(s) == seq![GenArmV { pat: s[0].pat@, gen: gen_out_v(s[0].gen) }] + gen_arms_v(
            s.skip(1),
        ),
    decreases s.len(),
{
    if s.len() == 1 {
        assert(s.skip(1) =~= Seq::<GenArm>::empty());
        assert(s.drop_last() =~= Seq::<GenArm>::empty());
        assert(s.last() == s[0]);
        assert(gen_arms_v(s) =~= seq![GenArmV { pat: s[0].pat@, gen: gen_out_v(s[0].gen) }]
            + gen_arms_v(s.skip(1)));
    } else {
        lemma_gen_arms_v_insert_front(s.drop_last());
        assert(s.drop_last()[0] == s[0]);
        assert(s.skip(1).drop_last() =~= s.drop_last().skip(1));
        assert(s.skip(1).last() == s.last());
        assert(gen_arms_v(s) =~= seq![GenArmV { pat: s[0].pat@, gen: gen_out_v(s[0].gen) }]
            + gen_arms_v(s.skip(1)));
    }
}

/// Classifies a block: the enclosing level's pending variables are written
/// out first, leading statements are hoisted, and the trailing expression is
/// classified under a block-return cause.
pub fn eval_block(b: Block, st: State) -> (r: Result<GenOut, Diagnostic>)
    requires
        st@.next_ident_id + 2 * bsize(b) <= u64::MAX,
    ensures
        (match r {
            Ok(g) => eval_block_spec(b, st@) == Ok::<GenOutV, (SrcSpan, Seq<char>)>(gen_out_v(g)),
            Err(d) => eval_block_spec(b, st@) == Err::<GenOutV, (SrcSpan, Seq<char>)>(d@),
        }),
    decreases bsize(b), 2int,
{
    let btext = render_block(&b);
    let bspan = b.span;
    let mut st = st;
    st.resolve_variables();
    let Block { stmts, tail, .. } = b;
    match tail {
        None => {
            let ghost stv = st@;
            let g = GenOut {
                unsafe_block: st.possibly_unsafe,
                setup: st.setup,
                body: GenBody::BareCheck { condition: Toks::single(btext, bspan) },
            };
            proof {
                assert(stmts_v(g.setup@) =~= stv.setup);
                assert(match g.body {
                    GenBody::BareCheck { condition } => condition@ =~= seq![
                        (crate::ast::block_text(b), b.span),
                    ],
                    _ => false,
                });
            }
            Ok(g)
        },
        Some(tail) => {
            let cond_str = printable_expr_string(&tail);
            let mut cause = String::from_str("block return assertion `");
            cause.append(cond_str.as_str());
            cause.append("` failed");
            st.add_cause(cause.as_str());
            let ghost pre_hoist = st@;
            let ghost full_stmts = stmts@;
            let mut stmts = stmts;
            let n = stmts.len();
            let mut i: usize = 0;
            while i < n
                invariant
                    i <= n,
                    n == stmts@.len(),
                    stmts@ == full_stmts,
                    st@.format_message == pre_hoist.format_message,
                    st@.dynamic_args == pre_hoist.dynamic_args,
                    st@.variables == pre_hoist.variables,
                    st@.possibly_unsafe == pre_hoist.possibly_unsafe,
                    st@.next_ident_id == pre_hoist.next_ident_id,
                    st@.setup =~= pre_hoist.setup + hoisted_v(full_stmts.subrange(0, i as int)),
                decreases n - i,
            {
                let text = stmts[i].text.clone();
                let span = stmts[i].span;
                let ghost before = st@.setup;
                st.setup.push(SetupStmt::Hoisted { stmt: RawStmt { text, span } });
                proof {
                    let elemv = StmtV::Hoisted {
                        text: full_stmts[i as int].text@,
                        span: full_stmts[i as int].span,
                    };
                    assert forall|k: int| 0 <= k < st@.setup.len() implies st@.setup[k]
                        == before.push(elemv)[k] by {
                        assert(st@.setup[k] == st.setup@[k]@);
                    }
                    assert(st@.setup =~= before.push(elemv));
                    assert(hoisted_v(full_stmts.subrange(0, i + 1)) =~= hoisted_v(
                        full_stmts.subrange(0, i as int),
                    ).push(elemv));
                    assert(st@.setup =~= pre_hoist.setup + hoisted_v(
                        full_stmts.subrange(0, i + 1),
                    ));
                }
                i = i + 1;
            }
            proof {
                assert(full_stmts.subrange(0, n as int) =~= full_stmts);
                assert(st@ == (StateV {
                    setup: pre_hoist.setup + hoisted_v(full_stmts),
                    ..pre_hoist
                }));
            }
            eval_expr(*tail, st)
        },
    }
}

/// Classifies the `else` side of an instrumented `if`.
pub fn recurse_else_branches(branch: Expr, st: State) -> (r: Result<ElseOut, Diagnostic>)
    requires
        st@.next_ident_id + 2 * esize(branch) <= u64::MAX,
    ensures
        (match r {
            Ok(g) => recurse_else_spec(branch, st@) == Ok::<ElseOutV, (SrcSpan, Seq<char>)>(
                else_out_v(g),
            ),
            Err(d) => recurse_else_spec(branch, st@) == Err::<ElseOutV, (SrcSpan, Seq<char>)>(d@),
        }),
    decreases esize(branch), 0int,
{
    let ghost st0 = st@;
    let mut st = st;
    match branch {
        Expr::Block { block, .. } => {
            let body = match eval_block(block, st) {
                Ok(g) => g,
                Err(d) => {
                    return Err(d);
                },
            };
            Ok(ElseOut::Last { body: Box::new(body) })
        },
        Expr::If { cond, then_branch, else_branch: Some(eb), .. } => {
            let cond_str = printable_expr_string(&cond);
            let mut dsp = String::from_str("condition `");
            dsp.append(cond_str.as_str());
            dsp.append("`");
            proof {
                assert(esize(*cond) >= 1 && esize(*eb) >= 1 && bsize(then_branch) >= 1);
            }
            let cacc = st.add_var(*cond, "condition", dsp.as_str());
            proof {
                assert(st@.next_ident_id <= st0.next_ident_id + 2);
            }
            let then_gen = match eval_block(then_branch, st.fork()) {
                Ok(g) => g,
                Err(d) => {
                    return Err(d);
                },
            };
            let else_gen = match recurse_else_branches(*eb, st.fork()) {
                Ok(g) => g,
                Err(d) => {
                    return Err(d);
                },
            };
            st.resolve_variables();
            let ghost stv = st@;
            let g = ElseOut::ElseIf {
                setup: st.setup,
                condition: cacc,
                then_gen: Box::new(then_gen),
                else_gen: Box::new(else_gen),
            };
            proof {
                assert(match g {
                    ElseOut::ElseIf { setup, .. } => stmts_v(setup@) =~= stv.setup,
                    _ => false,
                });
            }
            Ok(g)
        },
        Expr::If { else_branch: None, .. } => Ok(ElseOut::Passthrough { expr: Box::new(branch) }),
        _ => {
            let sp = branch.span();
            Err(
                Diagnostic {
                    span: sp,
                    message: String::from_str("parsing error: expected else block or if-else chain"),
                },
            )
        },
    }
}

/// The easter-egg fragment for a condition that is literally `true`: the
/// flavor text is picked in the generated code from the call site's line
/// number, so the fragment itself is a fixed marker.
pub fn assert_true_flavor() -> (r: Output)
    ensures
        output_v(r) == OutputV::TrueFlavor,
{
    Output::TrueFlavor
}

/// The flavor texts of the easter-egg fragment, in the order the generated
/// code indexes them by line number.
pub fn flavor_messages() -> (r: Vec<String>)
    ensures
        r@.len() == 6,
        r@[0]@ == "Ha! Did you think `assert!(true)` would do nothing? Fool!"@,
        r@[1]@ == "assertion `true` failed:\n  left: tr\n right: ue"@,
        r@[2]@ == "assertion `true` failed: `true` did not evaluate to true"@,
        r@[3]@ == "assertion `true` failed: `true` did not evaluate to true...? Huh? What?"@,
        r@[4]@ == "Undefined reference to `true`. Did you mean `false`?"@,
        r@[5]@ == "assertion `true` failed: `true` did not evaluate to true. What a surprise!"@,
{
    let mut r: Vec<String> = Vec::new();
    r.push(String::from_str("Ha! Did you think `assert!(true)` would do nothing? Fool!"));
    r.push(String::from_str("assertion `true` failed:\n  left: tr\n right: ue"));
    r.push(String::from_str("assertion `true` failed: `true` did not evaluate to true"));
    r.push(String::from_str("assertion `true` failed: `true` did not evaluate to true...? Huh? What?"));
    r.push(String::from_str("Undefined reference to `true`. Did you mean `false`?"));
    r.push(
        String::from_str("assertion `true` failed: `true` did not evaluate to true. What a surprise!"),
    );
    r
}

/// The whole transform, from the condition's tree and the optional format
/// message to the replacement fragment: the literal fast paths first, then
/// generic classification.
pub fn assert_internal(e: Expr, fmt: Option<String>) -> (r: Result<Output, Diagnostic>)
    requires
        2 * esize(e) <= u64::MAX,
    ensures
        (match r {
            Ok(o) => assert_internal_spec(e, opt_view(fmt)) == Ok::<OutputV, (SrcSpan, Seq<char>)>(
                output_v(o),
            ),
            Err(d) => assert_internal_spec(e, opt_view(fmt)) == Err::<
                OutputV,
                (SrcSpan, Seq<char>),
            >(d@),
        }),
{
    let expr_str = printable_expr_string(&e);
    let true_lit = String::from_str("true");
    let false_lit = String::from_str("false");
    if expr_str == true_lit {
        return Ok(assert_true_flavor());
    }
    if expr_str == false_lit {
        return Ok(Output::FalsePanic);
    }
    let mut st = State::new();
    st.setup.push(SetupStmt::WrapperDef);
    let mut header = String::from_str("assertion `");
    header.append(expr_str.as_str());
    header.append("` failed");
    st.format_message = header;
    match &fmt {
        Some(f) => {
            if !f.as_str().is_empty() {
                st.format_message.append(": {}");
                let mut arg = String::from_str("::std::format_args!(");
                arg.append(f.as_str());
                arg.append(")");
                st.dynamic_args.push(arg);
            }
        },
        None => {},
    }
    proof {
        assert(st@.setup =~= initial_state(printable_text(e), opt_view(fmt)).setup);
        assert(st@.dynamic_args =~= initial_state(printable_text(e), opt_view(fmt)).dynamic_args);
        assert(st@.variables =~= initial_state(printable_text(e), opt_view(fmt)).variables);
        assert(st@ == initial_state(printable_text(e), opt_view(fmt)));
    }
    match eval_expr(e, st) {
        Ok(g) => Ok(Output::Rewritten { gen: g }),
        Err(d) => Err(d),
    }
}

/// The text of an optional format message.
pub open spec fn opt_view(fmt: Option<String>) -> Option<Seq<char>> {
    match fmt {
        Some(f) => Some(f@),
        None => None,
    }
}

} // verus!
