//! The stated guarantees of the classifier, proved from its specification.

use vstd::prelude::*;

use crate::ast::Expr;
use crate::ast::SrcSpan;
use crate::ast::printable_text;
use crate::ast::Block;
use crate::classify::add_args_spec;
use crate::classify::arg_display;
use crate::classify::arg_ident;
use crate::classify::arg_width;
use crate::classify::assert_internal_spec;
use crate::classify::eval_block_spec;
use crate::classify::eval_expr_spec;
use crate::classify::finish_v;
use crate::classify::fork_v;
use crate::classify::hoisted_v;
use crate::classify::recurse_else_spec;
use crate::classify::with_cause;
use crate::text::lemma_dec_str_len_monotone;
use crate::text::lemma_spaces_len;
use crate::text::pad_left;
use crate::text::spaces;
use crate::output::GenBodyV;
use crate::output::GenOutV;
use crate::output::OutputV;
use crate::state::StateV;
use crate::state::StmtV;
use crate::state::add_var_spec;
use crate::state::ident_str;
use crate::state::max_name_len;
use crate::state::resolve_spec;
use crate::state::resolved_lines;
use crate::state::var_idents;
use crate::state::var_line;
use crate::ast::MatchArm;
use crate::classify::arm_cause;
use crate::classify::eval_arms_spec;
use crate::classify::initial_state;
use crate::output::ElseOutV;
use crate::output::GenArmV;
use crate::text::dec_str;
use crate::text::escape_braces;
use crate::text::lemma_dec_str_injective;
use crate::text::lemma_dec_str_val;
use crate::text::lemma_holes_concat;
use crate::text::lemma_holes_escape;
use crate::text::tmpl_holes;

verus! {

/// A literal `true` condition never reaches generic classification: the
/// transform takes the easter-egg fast path. A literal `false` condition
/// always produces the fixed panic, whose message has nothing of the
/// generic left/right report.
pub proof fn lemma_literal_fast_paths(e: Expr, fmt: Option<Seq<char>>)
    ensures
        printable_text(e) == "true"@ ==> assert_internal_spec(e, fmt) == Ok::<
            OutputV,
            (SrcSpan, Seq<char>),
        >(OutputV::TrueFlavor),
        printable_text(e) == "false"@ ==> assert_internal_spec(e, fmt) == Ok::<
            OutputV,
            (SrcSpan, Seq<char>),
        >(OutputV::FalsePanic),
{
    reveal_strlit("true");
    reveal_strlit("false");
    assert("true"@.len() == 4);
    assert("false"@.len() == 5);
}

/// Two generated identifiers with the same role but different counter values
/// never collide: within one expansion the counter only moves forward, so
/// capturing the same sub-expression twice gives two independent names.
pub proof fn lemma_ident_unique(name: Seq<char>, id1: nat, id2: nat)
    requires
        id1 != id2,
    ensures
        ident_str(name, id1) != ident_str(name, id2),
{
    lemma_dec_str_injective(id1, id2);
    lemma_dec_str_val(id1);
    lemma_dec_str_val(id2);
    let p = "__one_assert_"@ + name + "_"@;
    let a = ident_str(name, id1);
    let b = ident_str(name, id2);
    assert(a == p + dec_str(id1));
    assert(b == p + dec_str(id2));
    if a == b {
        assert(a.len() == p.len() + dec_str(id1).len());
        assert(b.len() == p.len() + dec_str(id2).len());
        assert(dec_str(id1).len() == dec_str(id2).len());
        assert forall|k: int| 0 <= k < dec_str(id1).len() implies dec_str(id1)[k] == dec_str(
            id2,
        )[k] by {
            assert(a[p.len() + k] == dec_str(id1)[k]);
            assert(b[p.len() + k] == dec_str(id2)[k]);
        }
        assert(dec_str(id1) =~= dec_str(id2));
        assert(false);
    }
}

/// Capturing twice — for instance the two operands of one expression, or
/// the same sub-expression at two nesting depths — hands out distinct value
/// identifiers, whatever the captured expressions are.
pub proof fn lemma_captures_distinct(
    st: StateV,
    e1: Expr,
    e2: Expr,
    ident: Seq<char>,
    disp1: Seq<char>,
    disp2: Seq<char>,
)
    ensures
        ({
            let (st1, _) = add_var_spec(st, e1, ident, disp1);
            let (st2, _) = add_var_spec(st1, e2, ident, disp2);
            st1.variables.last().1 != st2.variables.last().1
        }),
{
    let (st1, _) = add_var_spec(st, e1, ident, disp1);
    let (st2, _) = add_var_spec(st1, e2, ident, disp2);
    assert(st1.variables.last().1 == ident_str(ident + "_str"@, st.next_ident_id));
    assert(st2.variables.last().1 == ident_str(ident + "_str"@, st1.next_ident_id));
    assert(st1.next_ident_id > st.next_ident_id);
    lemma_ident_unique(ident + "_str"@, st.next_ident_id, st1.next_ident_id);
}

/// How many times the setup statements evaluate a given expression: the
/// number of value bindings that hold it.
pub open spec fn eval_count(setup: Seq<StmtV>, e: Expr) -> nat
    decreases setup.len(),
{
    if setup.len() == 0 {
        0
    } else {
        eval_count(setup.drop_last(), e) + (match setup.last() {
            StmtV::BindValue { expr, .. } => if expr == e {
                1 as nat
            } else {
                0 as nat
            },
            _ => 0 as nat,
        })
    }
}

/// Evaluation counts add over concatenated setup code.
pub proof fn lemma_eval_count_concat(a: Seq<StmtV>, b: Seq<StmtV>, e: Expr)
    ensures
        eval_count(a + b, e) == eval_count(a, e) + eval_count(b, e),
    decreases b.len(),
{
    if b.len() == 0 {
        assert(a + b =~= a);
    } else {
        lemma_eval_count_concat(a, b.drop_last(), e);
        assert((a + b).drop_last() =~= a + b.drop_last());
        assert((a + b).last() == b.last());
    }
}

/// For a binary condition `left <op> right`, classification succeeds and the
/// report gains exactly one aligned "left" line and one "right" line, in
/// that order, each fed by exactly one dynamic argument; and the setup code
/// evaluates each operand at most once — exactly once unless the operand is
/// a bare path, which the predicate reads directly without moving it.
pub proof fn lemma_binary_report(e: Expr, st: StateV)
    requires
        e is Binary,
        st.variables.len() == 0,
    ensures
        ({
            let (st1, _) = add_var_spec(st, (*e->Binary_left), "lhs"@, "left"@);
            let (st2, _) = add_var_spec(st1, (*e->Binary_right), "rhs"@, "right"@);
            match eval_expr_spec(e, st) {
                Ok(g) => match g.body {
                    GenBodyV::Check { message, args, .. } => {
                        &&& message == st.format_message + var_line("left"@, 5) + var_line(
                            "right"@,
                            5,
                        )
                        &&& args == st.dynamic_args + var_idents(st2.variables)
                        &&& args.len() == st.dynamic_args.len() + 2
                        &&& g.setup == st2.setup
                    },
                    _ => false,
                },
                Err(_) => false,
            }
        }),
{
    reveal_strlit("left");
    reveal_strlit("right");
    let l = (*e->Binary_left);
    let r = (*e->Binary_right);
    let (st1, lacc) = add_var_spec(st, l, "lhs"@, "left"@);
    let (st2, racc) = add_var_spec(st1, r, "rhs"@, "right"@);
    assert("left"@.len() == 4);
    assert("right"@.len() == 5);
    let ls = st1.variables.last().1;
    let rs = st2.variables.last().1;
    assert(st1.variables =~= st.variables.push(("left"@, ls)));
    assert(st2.variables =~= seq![("left"@, ls), ("right"@, rs)]);
    assert(st2.variables.drop_last() =~= seq![("left"@, ls)]);
    assert(seq![("left"@, ls)].drop_last() =~= Seq::<(Seq<char>, Seq<char>)>::empty());
    assert(max_name_len(Seq::<(Seq<char>, Seq<char>)>::empty()) == 0);
    assert(max_name_len(seq![("left"@, ls)]) == 4);
    assert(max_name_len(st2.variables) == 5);
    assert(resolved_lines(st2.variables, 5) == resolved_lines(seq![("left"@, ls)], 5) + var_line(
        "right"@,
        5,
    ));
    assert(resolved_lines(Seq::<(Seq<char>, Seq<char>)>::empty(), 5) == Seq::<char>::empty());
    assert(resolved_lines(seq![("left"@, ls)], 5) =~= Seq::<char>::empty() + var_line("left"@, 5));
    assert(Seq::<char>::empty() + var_line("left"@, 5) =~= var_line("left"@, 5));
    let g = finish_v(st2, lacc + seq![(e->Binary_op@, crate::utils::call_site())] + racc);
    assert(eval_expr_spec(e, st) == Ok::<GenOutV, (SrcSpan, Seq<char>)>(g));
    assert(resolve_spec(st2).format_message == st.format_message + (var_line("left"@, 5)
        + var_line("right"@, 5)));
    assert(st.format_message + (var_line("left"@, 5) + var_line("right"@, 5)) =~= st.format_message
        + var_line("left"@, 5) + var_line("right"@, 5));
    assert(var_idents(st2.variables).len() == 2);
}

/// The evaluation count of a single setup statement.
pub proof fn lemma_eval_count_single(s: StmtV, e: Expr)
    ensures
        eval_count(seq![s], e) == (match s {
            StmtV::BindValue { expr, .. } => if expr == e {
                1nat
            } else {
                0nat
            },
            _ => 0nat,
        }),
{
    assert(seq![s].drop_last() =~= Seq::<StmtV>::empty());
    assert(eval_count(Seq::<StmtV>::empty(), e) == 0);
    assert(seq![s].last() == s);
}

/// The two operand captures of a binary condition evaluate each operand
/// exactly once in the generated setup (a bare path is read in place and not
/// bound at all), regardless of how often the value appears in the report.
pub proof fn lemma_binary_single_evaluation(e: Expr, st: StateV)
    requires
        e is Binary,
        (*e->Binary_left) != (*e->Binary_right),
    ensures
        ({
            let (st1, _) = add_var_spec(st, (*e->Binary_left), "lhs"@, "left"@);
            let (st2, _) = add_var_spec(st1, (*e->Binary_right), "rhs"@, "right"@);
            &&& eval_count(st2.setup, (*e->Binary_left)) == eval_count(st.setup, (*e->Binary_left))
                + (if (*e->Binary_left) is Path {
                0nat
            } else {
                1nat
            })
            &&& eval_count(st2.setup, (*e->Binary_right)) == eval_count(
                st.setup,
                (*e->Binary_right),
            ) + (if (*e->Binary_right) is Path {
                0nat
            } else {
                1nat
            })
        }),
{
    let l = (*e->Binary_left);
    let r = (*e->Binary_right);
    let (st1, lacc) = add_var_spec(st, l, "lhs"@, "left"@);
    let (st2, racc) = add_var_spec(st1, r, "rhs"@, "right"@);
    let lstmts = st1.setup.skip(st.setup.len() as int);
    let rstmts = st2.setup.skip(st1.setup.len() as int);
    assert(st1.setup =~= st.setup + lstmts);
    assert(st2.setup =~= st1.setup + rstmts);
    lemma_eval_count_concat(st.setup, lstmts, l);
    lemma_eval_count_concat(st.setup, lstmts, r);
    lemma_eval_count_concat(st1.setup, rstmts, l);
    lemma_eval_count_concat(st1.setup, rstmts, r);
    if l is Path {
        let bd = StmtV::BindDebugStr {
            ident: ident_str("lhs"@ + "_str"@, st.next_ident_id),
            target: seq![(l->Path_text@, l->Path_span)],
        };
        assert(lstmts =~= seq![bd]);
        lemma_eval_count_single(bd, l);
        lemma_eval_count_single(bd, r);
    } else {
        let sp = crate::ast::span_of(l);
        let acc = seq![
            (ident_str("lhs"@, st.next_ident_id + 1), SrcSpan { lo: sp.lo, hi: sp.lo }),
            (".0"@, SrcSpan { lo: sp.hi, hi: sp.hi }),
        ];
        let bv = StmtV::BindValue { ident: ident_str("lhs"@, st.next_ident_id + 1), expr: l };
        let bd = StmtV::BindDebugStr {
            ident: ident_str("lhs"@ + "_str"@, st.next_ident_id),
            target: acc,
        };
        assert(lstmts =~= seq![bv] + seq![bd]);
        lemma_eval_count_concat(seq![bv], seq![bd], l);
        lemma_eval_count_concat(seq![bv], seq![bd], r);
        lemma_eval_count_single(bv, l);
        lemma_eval_count_single(bd, l);
        lemma_eval_count_single(bv, r);
        lemma_eval_count_single(bd, r);
    }
    if r is Path {
        let bd = StmtV::BindDebugStr {
            ident: ident_str("rhs"@ + "_str"@, st1.next_ident_id),
            target: seq![(r->Path_text@, r->Path_span)],
        };
        assert(rstmts =~= seq![bd]);
        lemma_eval_count_single(bd, l);
        lemma_eval_count_single(bd, r);
    } else {
        let sp = crate::ast::span_of(r);
        let acc = seq![
            (ident_str("rhs"@, st1.next_ident_id + 1), SrcSpan { lo: sp.lo, hi: sp.lo }),
            (".0"@, SrcSpan { lo: sp.hi, hi: sp.hi }),
        ];
        let bv = StmtV::BindValue { ident: ident_str("rhs"@, st1.next_ident_id + 1), expr: r };
        let bd = StmtV::BindDebugStr {
            ident: ident_str("rhs"@ + "_str"@, st1.next_ident_id),
            target: acc,
        };
        assert(rstmts =~= seq![bv] + seq![bd]);
        lemma_eval_count_concat(seq![bv], seq![bd], l);
        lemma_eval_count_concat(seq![bv], seq![bd], r);
        lemma_eval_count_single(bv, l);
        lemma_eval_count_single(bd, l);
        lemma_eval_count_single(bv, r);
        lemma_eval_count_single(bd, r);
    }
}

/// Capturing a run of call arguments touches neither the message nor its
/// queued dynamic arguments; it appends one pending variable per argument,
/// named "arg i" with the index right-aligned to the given width, in
/// argument order.
pub proof fn lemma_add_args_vars(st: StateV, args: Seq<Expr>, idx: nat, w: nat)
    ensures
        ({
            let (stf, accs) = add_args_spec(st, args, idx, w);
            &&& stf.variables.len() == st.variables.len() + args.len()
            &&& forall|i: int| 0 <= i < st.variables.len() ==> stf.variables[i] == st.variables[i]
            &&& forall|i: int|
                0 <= i < args.len() ==> (#[trigger] stf.variables[st.variables.len() + i]).0
                    == arg_display((idx + i) as nat, w)
            &&& stf.format_message == st.format_message
            &&& stf.dynamic_args == st.dynamic_args
            &&& stf.possibly_unsafe == st.possibly_unsafe
        }),
    decreases args.len(),
{
    if args.len() > 0 {
        let (st1, _) = add_var_spec(st, args[0], arg_ident(idx), arg_display(idx, w));
        lemma_add_args_vars(st1, args.skip(1), idx + 1, w);
        assert(st1.variables.len() == st.variables.len() + 1);
        assert(st1.variables.last().0 == arg_display(idx, w));
        let (stf, _) = add_args_spec(st, args, idx, w);
        assert forall|i: int| 0 <= i < st.variables.len() implies stf.variables[i]
            == st.variables[i] by {
            assert(stf.variables[i] == st1.variables[i]);
        }
        assert forall|j: int|
            0 <= j < args.len() implies (#[trigger] stf.variables[st.variables.len() + j]).0
            == arg_display((idx + j) as nat, w) by {
            if j == 0 {
                assert(stf.variables[st1.variables.len() - 1] == st1.variables[st1.variables.len()
                    - 1]);
            } else {
                assert(stf.variables[st1.variables.len() + (j - 1)].0 == arg_display(
                    (idx + 1 + (j - 1)) as nat,
                    w,
                ));
            }
        }
    }
}

/// Every display name "arg i" for `i` below `n` has the same length: four
/// for the word and the space, plus the width of the largest index.
pub proof fn lemma_arg_display_uniform(i: nat, n: nat)
    requires
        n > 0,
        i < n,
    ensures
        arg_display(i, arg_width(n)).len() == 4 + arg_width(n),
{
    reveal_strlit("arg ");
    let w = arg_width(n);
    lemma_dec_str_len_monotone(i, (n - 1) as nat);
    crate::text::lemma_dec_str_val(i);
    if dec_str(i).len() >= w {
        assert(dec_str(i).len() == w);
        assert(pad_left(dec_str(i), w) == dec_str(i));
    } else {
        lemma_spaces_len((w - dec_str(i).len()) as nat);
        assert(pad_left(dec_str(i), w).len() == w);
    }
}

/// The longest name of a run of equally long names is that length.
pub proof fn lemma_max_uniform(vars: Seq<(Seq<char>, Seq<char>)>, len: nat)
    requires
        vars.len() > 0,
        forall|i: int| 0 <= i < vars.len() ==> (#[trigger] vars[i]).0.len() == len,
    ensures
        max_name_len(vars) == len,
    decreases vars.len(),
{
    if vars.len() == 1 {
        assert(vars.drop_last() =~= Seq::<(Seq<char>, Seq<char>)>::empty());
        assert(max_name_len(vars.drop_last()) == 0);
        assert(vars.last() == vars[0]);
    } else {
        lemma_max_uniform(vars.drop_last(), len);
        assert(vars.last() == vars[vars.len() - 1]);
    }
}

/// For a call with at least one argument, the report gains exactly one
/// "arg i" line per argument, in argument order, each index right-aligned to
/// the width of the largest index so that all lines align; each argument
/// feeds exactly one dynamic argument.
pub proof fn lemma_call_report(e: Expr, st: StateV)
    requires
        e is Call,
        e->Call_args@.len() >= 1,
        st.variables.len() == 0,
    ensures
        ({
            let n = e->Call_args@.len();
            let w = arg_width(n);
            let (stf, _) = add_args_spec(st, e->Call_args@, 0, w);
            match eval_expr_spec(e, st) {
                Ok(g) => match g.body {
                    GenBodyV::Check { message, args, .. } => {
                        &&& message == st.format_message + resolved_lines(stf.variables, (4 + w) as nat)
                        &&& stf.variables.len() == n
                        &&& (forall|i: int|
                            0 <= i < n ==> (#[trigger] stf.variables[i]).0 == arg_display(
                                i as nat,
                                w,
                            ))
                        &&& (forall|i: int|
                            0 <= i < n ==> (#[trigger] stf.variables[i]).0.len() == 4 + w)
                        &&& args == st.dynamic_args + var_idents(stf.variables)
                        &&& args.len() == st.dynamic_args.len() + n
                    },
                    _ => false,
                },
                Err(_) => false,
            }
        }),
{
    let args_seq = e->Call_args@;
    let n = args_seq.len();
    let w = arg_width(n);
    let (stf, accs) = add_args_spec(st, args_seq, 0, w);
    lemma_add_args_vars(st, args_seq, 0, w);
    assert forall|i: int| 0 <= i < n implies (#[trigger] stf.variables[i]).0 == arg_display(
        i as nat,
        w,
    ) by {
        assert(stf.variables[st.variables.len() + i].0 == arg_display((0 + i) as nat, w));
    }
    assert forall|i: int| 0 <= i < n implies (#[trigger] stf.variables[i]).0.len() == 4 + w by {
        lemma_arg_display_uniform(i as nat, n);
    }
    lemma_max_uniform(stf.variables, (4 + w) as nat);
    assert(var_idents(stf.variables).len() == n);
}

/// An instrumented `if` with an `else` hands each branch an isolated state:
/// the message so far is shared unchanged, and the pending variables are
/// those of the enclosing level plus exactly one new entry — the condition,
/// displayed as ``condition `<text>` `` — so each branch's report will list
/// the conditions evaluated on the way to it, in source order.
pub proof fn lemma_if_branch_states(e: Expr, st: StateV)
    requires
        e is If,
        e->If_else_branch is Some,
    ensures
        ({
            let cond = *e->If_cond;
            let disp = "condition `"@ + printable_text(cond) + "`"@;
            let (st1, _) = add_var_spec(st, cond, "condition"@, disp);
            let bst = fork_v(st1);
            &&& bst.format_message == st.format_message
            &&& bst.variables.len() == st.variables.len() + 1
            &&& bst.variables.last().0 == disp
            &&& (forall|i: int|
                0 <= i < st.variables.len() ==> (#[trigger] bst.variables[i]) == st.variables[i])
            &&& (match eval_expr_spec(e, st) {
                Ok(g) => match g.body {
                    GenBodyV::IfElse { then_gen, else_gen, .. } => {
                        &&& Ok::<GenOutV, (SrcSpan, Seq<char>)>(*then_gen) == eval_block_spec(
                            e->If_then_branch,
                            bst,
                        )
                        &&& Ok::<crate::output::ElseOutV, (SrcSpan, Seq<char>)>(*else_gen)
                            == recurse_else_spec(*e->If_else_branch->0, bst)
                    },
                    _ => false,
                },
                Err(_) => eval_block_spec(e->If_then_branch, bst) is Err || recurse_else_spec(
                    *e->If_else_branch->0,
                    bst,
                ) is Err,
            })
        }),
{
    let cond = *e->If_cond;
    let disp = "condition `"@ + printable_text(cond) + "`"@;
    let (st1, _) = add_var_spec(st, cond, "condition"@, disp);
}

/// A block with a trailing expression classifies that expression in a state
/// whose message first lists every pending condition line, in order and
/// aligned together, followed by exactly one "caused by: block return
/// assertion" line naming the trailing expression — and nothing else.
pub proof fn lemma_block_cause(b: Block, st: StateV)
    requires
        b.tail is Some,
    ensures
        ({
            let t = *b.tail->0;
            let st3 = StateV {
                setup: resolve_spec(st).setup + hoisted_v(b.stmts@),
                ..with_cause(
                    resolve_spec(st),
                    "block return assertion `"@ + printable_text(t) + "` failed"@,
                )
            };
            &&& eval_block_spec(b, st) == eval_expr_spec(t, st3)
            &&& st3.format_message == st.format_message + resolved_lines(
                st.variables,
                max_name_len(st.variables),
            ) + "\n  caused by: "@ + "block return assertion `"@ + printable_text(t)
                + "` failed"@
            &&& st3.variables.len() == 0
        }),
{
    let t = *b.tail->0;
    let st1 = resolve_spec(st);
    let st2 = with_cause(st1, "block return assertion `"@ + printable_text(t) + "` failed"@);
    assert(st2.format_message == st.format_message + resolved_lines(
        st.variables,
        max_name_len(st.variables),
    ) + "\n  caused by: "@ + ("block return assertion `"@ + printable_text(t) + "` failed"@));
    assert(st.format_message + resolved_lines(st.variables, max_name_len(st.variables))
        + "\n  caused by: "@ + ("block return assertion `"@ + printable_text(t) + "` failed"@)
        =~= st.format_message + resolved_lines(st.variables, max_name_len(st.variables))
        + "\n  caused by: "@ + "block return assertion `"@ + printable_text(t) + "` failed"@);
}

/// A text with no brace at all.
pub open spec fn no_braces(s: Seq<char>) -> bool {
    forall|i: int| 0 <= i < s.len() ==> s[i] != '{' && s[i] != '}'
}

/// A brace-free text is a well-formed template piece with no holes.
pub proof fn lemma_holes_brace_free(s: Seq<char>)
    requires
        no_braces(s),
    ensures
        tmpl_holes(s) == Some(0nat),
    decreases s.len(),
{
    if s.len() > 0 {
        assert(s[0] != '{' && s[0] != '}');
        assert(no_braces(s.skip(1)));
        lemma_holes_brace_free(s.skip(1));
    }
}

/// The decimal rendering of a number never holds a brace.
pub proof fn lemma_dec_str_no_braces(n: nat)
    ensures
        no_braces(dec_str(n)),
    decreases n,
{
    if n < 10 {
    } else {
        lemma_dec_str_no_braces(n / 10);
        assert forall|i: int| 0 <= i < dec_str(n).len() implies dec_str(n)[i] != '{' && dec_str(
            n,
        )[i] != '}' by {
            if i < dec_str(n / 10).len() {
                assert(dec_str(n)[i] == dec_str(n / 10)[i]);
            }
        }
    }
}

/// A run of spaces never holds a brace.
pub proof fn lemma_spaces_no_braces(n: nat)
    ensures
        no_braces(spaces(n)),
    decreases n,
{
    if n > 0 {
        lemma_spaces_no_braces((n - 1) as nat);
        assert forall|i: int| 0 <= i < spaces(n).len() implies spaces(n)[i] != '{' && spaces(
            n,
        )[i] != '}' by {
            if i < spaces((n - 1) as nat).len() {
                assert(spaces(n)[i] == spaces((n - 1) as nat)[i]);
            } else {
                assert(spaces(n)[i] == ' ');
            }
        }
    }
}

/// One aligned `name: value` line adds exactly one hole to the template, as
/// long as the name itself is quoted template text.
pub proof fn lemma_var_line_holes(name: Seq<char>, w: nat)
    requires
        tmpl_holes(name) == Some(0nat),
    ensures
        tmpl_holes(var_line(name, w)) == Some(1nat),
{
    reveal_strlit("\n    ");
    reveal_strlit(": {}");
    let head = "\n    "@;
    let tail = ": {}"@;
    assert(no_braces(head));
    lemma_holes_brace_free(head);
    assert(tmpl_holes(Seq::<char>::empty()) == Some(0nat));
    assert(tmpl_holes(tail.skip(2)) == Some(1nat)) by {
        assert(tail.skip(2)[0] == '{');
        assert(tail.skip(2)[1] == '}');
        assert(tail.skip(2).skip(2) =~= Seq::<char>::empty());
        assert(tmpl_holes(Seq::<char>::empty()) == Some(0nat));
    }
    assert(tail[0] == ':');
    assert(tail.skip(1)[0] == ' ');
    assert(tail.skip(1).skip(1) =~= tail.skip(2));
    assert(tmpl_holes(tail.skip(1)) == tmpl_holes(tail.skip(2)));
    assert(tmpl_holes(tail) == tmpl_holes(tail.skip(1)));
    assert(tmpl_holes(tail) == Some(1nat));
    let pad = pad_left(name, w);
    if name.len() >= w {
        assert(pad == name);
    } else {
        lemma_spaces_no_braces((w - name.len()) as nat);
        lemma_holes_brace_free(spaces((w - name.len()) as nat));
        lemma_holes_concat(spaces((w - name.len()) as nat), name);
        assert(tmpl_holes(pad) == Some(0nat));
    }
    lemma_holes_concat(head, pad);
    lemma_holes_concat(head + pad, tail);
    assert(var_line(name, w) == head + pad + tail);
}

/// Pending variables whose display names are quoted template text.
pub open spec fn wf_vars(vars: Seq<(Seq<char>, Seq<char>)>) -> bool {
    forall|i: int| 0 <= i < vars.len() ==> tmpl_holes((#[trigger] vars[i]).0) == Some(0nat)
}

/// The template invariant of the diagnostic state: after resolution the
/// message holds exactly one `{}` hole per dynamic argument, in order, so
/// the count of holes equals the queued arguments plus the pending
/// variables, and every pending name is quoted text.
pub open spec fn wf_state(st: StateV) -> bool {
    &&& tmpl_holes(st.format_message) == Some(st.dynamic_args.len() as nat)
    &&& wf_vars(st.variables)
}

/// The aligned lines of a run of variables add one hole per variable.
pub proof fn lemma_resolved_lines_holes(vars: Seq<(Seq<char>, Seq<char>)>, w: nat)
    requires
        wf_vars(vars),
    ensures
        tmpl_holes(resolved_lines(vars, w)) == Some(vars.len() as nat),
    decreases vars.len(),
{
    if vars.len() == 0 {
    } else {
        assert(wf_vars(vars.drop_last())) by {
            assert(forall|i: int|
                0 <= i < vars.len() - 1 ==> (#[trigger] vars.drop_last()[i]) == vars[i]);
        }
        lemma_resolved_lines_holes(vars.drop_last(), w);
        assert(tmpl_holes(vars.last().0) == Some(0nat));
        lemma_var_line_holes(vars.last().0, w);
        lemma_holes_concat(resolved_lines(vars.drop_last(), w), var_line(vars.last().0, w));
    }
}

/// Writing the pending variables out keeps the template invariant.
pub proof fn lemma_resolve_wf(st: StateV)
    requires
        wf_state(st),
    ensures
        wf_state(resolve_spec(st)),
        resolve_spec(st).dynamic_args.len() == st.dynamic_args.len() + st.variables.len(),
{
    lemma_resolved_lines_holes(st.variables, max_name_len(st.variables));
    lemma_holes_concat(
        st.format_message,
        resolved_lines(st.variables, max_name_len(st.variables)),
    );
    assert(var_idents(st.variables).len() == st.variables.len());
}

/// Capturing a variable keeps the template invariant, as long as its display
/// name is quoted template text.
pub proof fn lemma_add_var_wf(st: StateV, e: Expr, ident: Seq<char>, disp: Seq<char>)
    requires
        wf_state(st),
        tmpl_holes(disp) == Some(0nat),
    ensures
        wf_state(add_var_spec(st, e, ident, disp).0),
{
    let st1 = add_var_spec(st, e, ident, disp).0;
    assert(st1.variables == st.variables.push((disp, st1.variables.last().1)));
    assert forall|i: int| 0 <= i < st1.variables.len() implies tmpl_holes(
        (#[trigger] st1.variables[i]).0,
    ) == Some(0nat) by {
        if i < st.variables.len() {
            assert(st1.variables[i] == st.variables[i]);
        } else {
            assert(st1.variables[i].0 == disp);
        }
    }
}

/// Adding a "caused by" line keeps the template invariant, as long as the
/// cause is quoted template text.
pub proof fn lemma_with_cause_wf(st: StateV, cause: Seq<char>)
    requires
        wf_state(st),
        tmpl_holes(cause) == Some(0nat),
    ensures
        wf_state(with_cause(st, cause)),
{
    reveal_strlit("\n  caused by: ");
    assert(no_braces("\n  caused by: "@));
    lemma_holes_brace_free("\n  caused by: "@);
    lemma_holes_concat(st.format_message, "\n  caused by: "@);
    lemma_holes_concat(st.format_message + "\n  caused by: "@, cause);
}

/// The text an expression is quoted as holds no hole.
pub proof fn lemma_printable_wf(e: Expr)
    ensures
        tmpl_holes(printable_text(e)) == Some(0nat),
{
    lemma_holes_escape(crate::ast::wrapped_of(crate::ast::expr_units(e)));
}

/// The quoted-condition display name of a branch holds no hole.
pub proof fn lemma_condition_disp_wf(e: Expr)
    ensures
        tmpl_holes("condition `"@ + printable_text(e) + "`"@) == Some(0nat),
{
    reveal_strlit("condition `");
    reveal_strlit("`");
    assert(no_braces("condition `"@));
    assert(no_braces("`"@));
    lemma_holes_brace_free("condition `"@);
    lemma_holes_brace_free("`"@);
    lemma_printable_wf(e);
    lemma_holes_concat("condition `"@, printable_text(e));
    lemma_holes_concat("condition `"@ + printable_text(e), "`"@);
}

/// The block-return cause line holds no hole.
pub proof fn lemma_block_cause_wf(e: Expr)
    ensures
        tmpl_holes("block return assertion `"@ + printable_text(e) + "` failed"@) == Some(0nat),
{
    reveal_strlit("block return assertion `");
    reveal_strlit("` failed");
    assert(no_braces("block return assertion `"@));
    assert(no_braces("` failed"@));
    lemma_holes_brace_free("block return assertion `"@);
    lemma_holes_brace_free("` failed"@);
    lemma_printable_wf(e);
    lemma_holes_concat("block return assertion `"@, printable_text(e));
    lemma_holes_concat("block return assertion `"@ + printable_text(e), "` failed"@);
}

/// The match-arm cause line holds no hole.
pub proof fn lemma_arm_cause_wf(expr_str: Seq<char>, pat: Seq<char>, body: Expr)
    requires
        tmpl_holes(expr_str) == Some(0nat),
    ensures
        tmpl_holes(arm_cause(expr_str, pat, body)) == Some(0nat),
{
    reveal_strlit("match ");
    reveal_strlit(" entered arm `");
    reveal_strlit("` where assertion `");
    reveal_strlit("` failed");
    assert(no_braces("match "@));
    assert(no_braces(" entered arm `"@));
    assert(no_braces("` where assertion `"@));
    assert(no_braces("` failed"@));
    lemma_holes_brace_free("match "@);
    lemma_holes_brace_free(" entered arm `"@);
    lemma_holes_brace_free("` where assertion `"@);
    lemma_holes_brace_free("` failed"@);
    lemma_holes_escape(pat);
    lemma_printable_wf(body);
    lemma_holes_concat("match "@, expr_str);
    lemma_holes_concat("match "@ + expr_str, " entered arm `"@);
    lemma_holes_concat("match "@ + expr_str + " entered arm `"@, escape_braces(pat));
    lemma_holes_concat(
        "match "@ + expr_str + " entered arm `"@ + escape_braces(pat),
        "` where assertion `"@,
    );
    lemma_holes_concat(
        "match "@ + expr_str + " entered arm `"@ + escape_braces(pat) + "` where assertion `"@,
        printable_text(body),
    );
    lemma_holes_concat(
        "match "@ + expr_str + " entered arm `"@ + escape_braces(pat) + "` where assertion `"@
            + printable_text(body),
        "` failed"@,
    );
}

/// Every failure report of a generated fragment has exactly one `{}` hole
/// per dynamic argument.
pub open spec fn out_wf(g: GenOutV) -> bool
    decreases g, 1int,
{
    body_wf(g.body)
}

/// Well-formedness of a fragment body.
pub open spec fn body_wf(b: GenBodyV) -> bool
    decreases b, 1int,
{
    match b {
        GenBodyV::Check { message, args, .. } => tmpl_holes(message) == Some(args.len() as nat),
        GenBodyV::BareCheck { .. } => true,
        GenBodyV::IfElse { then_gen, else_gen, .. } => out_wf(*then_gen) && else_wf(*else_gen),
        GenBodyV::Match { arms, .. } => arms_wf(arms),
    }
}

/// Well-formedness of a run of generated match arms.
pub open spec fn arms_wf(s: Seq<GenArmV>) -> bool
    decreases s, 1int,
{
    if s.len() == 0 {
        true
    } else {
        arms_wf(s.drop_last()) && out_wf(s.last().gen)
    }
}

/// Well-formedness of a generated `else` side.
pub open spec fn else_wf(e: ElseOutV) -> bool
    decreases e, 1int,
{
    match e {
        ElseOutV::Last { body } => out_wf(*body),
        ElseOutV::ElseIf { then_gen, else_gen, .. } => out_wf(*then_gen) && else_wf(*else_gen),
        ElseOutV::Passthrough { .. } => true,
    }
}

/// The display name of a call argument is quoted template text.
pub proof fn lemma_arg_display_wf(i: nat, w: nat)
    ensures
        tmpl_holes(arg_display(i, w)) == Some(0nat),
{
    reveal_strlit("arg ");
    assert(no_braces("arg "@));
    lemma_holes_brace_free("arg "@);
    lemma_dec_str_no_braces(i);
    lemma_holes_brace_free(dec_str(i));
    let pad = pad_left(dec_str(i), w);
    if dec_str(i).len() >= w {
        assert(pad == dec_str(i));
    } else {
        lemma_spaces_no_braces((w - dec_str(i).len()) as nat);
        lemma_holes_brace_free(spaces((w - dec_str(i).len()) as nat));
        lemma_holes_concat(spaces((w - dec_str(i).len()) as nat), dec_str(i));
    }
    lemma_holes_concat("arg "@, pad);
}

/// Capturing a run of call arguments keeps the template invariant.
pub proof fn lemma_add_args_wf(st: StateV, args: Seq<Expr>, idx: nat, w: nat)
    requires
        wf_state(st),
    ensures
        wf_state(add_args_spec(st, args, idx, w).0),
    decreases args.len(),
{
    if args.len() > 0 {
        lemma_arg_display_wf(idx, w);
        lemma_add_var_wf(st, args[0], arg_ident(idx), arg_display(idx, w));
        let (st1, _) = add_var_spec(st, args[0], arg_ident(idx), arg_display(idx, w));
        lemma_add_args_wf(st1, args.skip(1), idx + 1, w);
    }
}

/// The plain instrumented check is well-formed for any well-formed state.
pub proof fn lemma_finish_wf(st: StateV, cond: Seq<(Seq<char>, SrcSpan)>)
    requires
        wf_state(st),
    ensures
        out_wf(finish_v(st, cond)),
{
    lemma_resolve_wf(st);
}

/// A well-formed literal display name, by revealing it.
pub proof fn lemma_plain_names_wf()
    ensures
        tmpl_holes("left"@) == Some(0nat),
        tmpl_holes("right"@) == Some(0nat),
        tmpl_holes("original"@) == Some(0nat),
        tmpl_holes("object"@) == Some(0nat),
        tmpl_holes("index"@) == Some(0nat),
        tmpl_holes("input"@) == Some(0nat),
        tmpl_holes("matched value"@) == Some(0nat),
{
    reveal_strlit("left");
    reveal_strlit("right");
    reveal_strlit("original");
    reveal_strlit("object");
    reveal_strlit("index");
    reveal_strlit("input");
    reveal_strlit("matched value");
    assert(no_braces("left"@));
    assert(no_braces("right"@));
    assert(no_braces("original"@));
    assert(no_braces("object"@));
    assert(no_braces("index"@));
    assert(no_braces("input"@));
    assert(no_braces("matched value"@));
    lemma_holes_brace_free("left"@);
    lemma_holes_brace_free("right"@);
    lemma_holes_brace_free("original"@);
    lemma_holes_brace_free("object"@);
    lemma_holes_brace_free("index"@);
    lemma_holes_brace_free("input"@);
    lemma_holes_brace_free("matched value"@);
}

/// A run of generated arms is well-formed exactly when its first arm and the
/// rest are.
pub proof fn lemma_arms_wf_cons(s: Seq<GenArmV>)
    requires
        s.len() > 0,
    ensures
        arms_wf(s) == (out_wf(s[0].gen) && arms_wf(s.skip(1))),
    decreases s.len(),
{
    if s.len() == 1 {
        assert(s.skip(1) =~= Seq::<GenArmV>::empty());
        assert(s.drop_last() =~= Seq::<GenArmV>::empty());
        assert(s.last() == s[0]);
    } else {
        lemma_arms_wf_cons(s.drop_last());
        assert(s.drop_last()[0] == s[0]);
        assert(s.skip(1).drop_last() =~= s.drop_last().skip(1));
        assert(s.skip(1).last() == s.last());
    }
}

/// Classification preserves the template invariant: every failure report of
/// the produced fragment has exactly one `{}` hole per dynamic argument, in
/// order, so the report can always be formatted.
pub proof fn lemma_eval_expr_wf(e: Expr, st: StateV)
    requires
        wf_state(st),
    ensures
        (match eval_expr_spec(e, st) {
            Ok(g) => out_wf(g),
            Err(_) => true,
        }),
    decreases e, 1int,
{
    lemma_plain_names_wf();
    match e {
        Expr::Binary { left, right, .. } => {
            lemma_add_var_wf(st, *left, "lhs"@, "left"@);
            let (st1, _) = add_var_spec(st, *left, "lhs"@, "left"@);
            lemma_add_var_wf(st1, *right, "rhs"@, "right"@);
            let (st2, _) = add_var_spec(st1, *right, "rhs"@, "right"@);
            lemma_resolve_wf(st2);
        },
        Expr::Unary { operand, .. } => {
            lemma_add_var_wf(st, *operand, "original"@, "original"@);
            lemma_resolve_wf(add_var_spec(st, *operand, "original"@, "original"@).0);
        },
        Expr::Call { args, .. } => {
            if args.len() == 0 {
                lemma_resolve_wf(st);
            } else {
                let w = arg_width(args@.len());
                lemma_add_args_wf(st, args@, 0, w);
                lemma_resolve_wf(add_args_spec(st, args@, 0, w).0);
            }
        },
        Expr::MethodCall { receiver, args, .. } => {
            lemma_add_var_wf(st, *receiver, "object"@, "object"@);
            let (st1, _) = add_var_spec(st, *receiver, "object"@, "object"@);
            let w = arg_width(args@.len());
            lemma_add_args_wf(st1, args@, 0, w);
            lemma_resolve_wf(add_args_spec(st1, args@, 0, w).0);
        },
        Expr::Index { index, .. } => {
            if *index is Lit {
                lemma_resolve_wf(st);
            } else {
                lemma_add_var_wf(st, *index, "index"@, "index"@);
                lemma_resolve_wf(add_var_spec(st, *index, "index"@, "index"@).0);
            }
        },
        Expr::Cast { value, ty, .. } => {
            if ty@ == "bool"@ {
                lemma_add_var_wf(st, *value, "input"@, "input"@);
                lemma_resolve_wf(add_var_spec(st, *value, "input"@, "input"@).0);
            } else {
                lemma_resolve_wf(st);
            }
        },
        Expr::Paren { inner, .. } => {
            lemma_eval_expr_wf(*inner, st);
        },
        Expr::Group { inner, .. } => {
            lemma_eval_expr_wf(*inner, st);
        },
        Expr::Block { block, .. } => {
            lemma_eval_block_wf(block, st);
        },
        Expr::Const { block, .. } => {
            lemma_eval_block_wf(block, st);
        },
        Expr::Unsafe { block, .. } => {
            lemma_eval_block_wf(block, StateV { possibly_unsafe: true, ..st });
        },
        Expr::If { cond, then_branch, else_branch: Some(eb), .. } => {
            let disp = "condition `"@ + printable_text(*cond) + "`"@;
            lemma_condition_disp_wf(*cond);
            lemma_add_var_wf(st, *cond, "condition"@, disp);
            let (st1, _) = add_var_spec(st, *cond, "condition"@, disp);
            lemma_eval_block_wf(then_branch, fork_v(st1));
            lemma_recurse_else_wf(*eb, fork_v(st1));
        },
        Expr::If { else_branch: None, .. } => {
            lemma_resolve_wf(st);
        },
        Expr::Match { scrutinee, arms, .. } => {
            let expr_str = printable_text(*scrutinee);
            lemma_printable_wf(*scrutinee);
            lemma_add_var_wf(st, *scrutinee, "matched"@, "matched value"@);
            let (st1, _) = add_var_spec(st, *scrutinee, "matched"@, "matched value"@);
            lemma_resolve_wf(st1);
            lemma_eval_arms_wf(expr_str, arms@, resolve_spec(st1));
        },
        _ => {
            lemma_resolve_wf(st);
        },
    }
}

/// Block classification preserves the template invariant.
pub proof fn lemma_eval_block_wf(b: Block, st: StateV)
    requires
        wf_state(st),
    ensures
        (match eval_block_spec(b, st) {
            Ok(g) => out_wf(g),
            Err(_) => true,
        }),
    decreases b, 1int,
{
    lemma_resolve_wf(st);
    let st1 = resolve_spec(st);
    match b.tail {
        None => {},
        Some(tail) => {
            lemma_block_cause_wf(*tail);
            lemma_with_cause_wf(
                st1,
                "block return assertion `"@ + printable_text(*tail) + "` failed"@,
            );
            let st2 = with_cause(
                st1,
                "block return assertion `"@ + printable_text(*tail) + "` failed"@,
            );
            let st3 = StateV { setup: st2.setup + hoisted_v(b.stmts@), ..st2 };
            assert(wf_state(st3));
            lemma_eval_expr_wf(*tail, st3);
        },
    }
}

/// Else-side classification preserves the template invariant.
pub proof fn lemma_recurse_else_wf(branch: Expr, st: StateV)
    requires
        wf_state(st),
    ensures
        (match recurse_else_spec(branch, st) {
            Ok(g) => else_wf(g),
            Err(_) => true,
        }),
    decreases branch, 0int,
{
    match branch {
        Expr::Block { block, .. } => {
            lemma_eval_block_wf(block, st);
        },
        Expr::If { cond, then_branch, else_branch: Some(eb), .. } => {
            let disp = "condition `"@ + printable_text(*cond) + "`"@;
            lemma_condition_disp_wf(*cond);
            lemma_add_var_wf(st, *cond, "condition"@, disp);
            let (st1, _) = add_var_spec(st, *cond, "condition"@, disp);
            lemma_eval_block_wf(then_branch, fork_v(st1));
            lemma_recurse_else_wf(*eb, fork_v(st1));
        },
        _ => {},
    }
}

/// Arm-by-arm classification preserves the template invariant.
pub proof fn lemma_eval_arms_wf(expr_str: Seq<char>, arms: Seq<MatchArm>, st: StateV)
    requires
        wf_state(st),
        tmpl_holes(expr_str) == Some(0nat),
    ensures
        (match eval_arms_spec(expr_str, arms, st) {
            Ok(v) => arms_wf(v),
            Err(_) => true,
        }),
    decreases arms, 0int,
{
    if arms.len() > 0 {
        let arm = arms[0];
        lemma_arm_cause_wf(expr_str, arm.pat@, arm.body);
        lemma_with_cause_wf(fork_v(st), arm_cause(expr_str, arm.pat@, arm.body));
        let arm_state = with_cause(fork_v(st), arm_cause(expr_str, arm.pat@, arm.body));
        lemma_eval_expr_wf(arm.body, arm_state);
        lemma_eval_arms_wf(expr_str, arms.skip(1), st);
        match eval_arms_spec(expr_str, arms, st) {
            Ok(v) => {
                lemma_arms_wf_cons(v);
                match eval_arms_spec(expr_str, arms.skip(1), st) {
                    Ok(rest) => {
                        assert(v.skip(1) =~= rest);
                    },
                    Err(_) => {},
                }
            },
            Err(_) => {},
        }
    }
}

/// Whole-transform well-formedness: every failure report of the replacement
/// fragment holds exactly one `{}` hole per dynamic argument.
pub open spec fn output_wf(o: OutputV) -> bool {
    match o {
        OutputV::Rewritten { gen } => out_wf(gen),
        _ => true,
    }
}

/// The transform always hands back well-formed reports: however deeply the
/// condition nests, each generated failure message can be formatted with its
/// own dynamic arguments.
pub proof fn lemma_assert_internal_wf(e: Expr, fmt: Option<Seq<char>>)
    ensures
        (match assert_internal_spec(e, fmt) {
            Ok(o) => output_wf(o),
            Err(_) => true,
        }),
{
    reveal_strlit("assertion `");
    reveal_strlit("` failed");
    reveal_strlit(": {}");
    let expr_str = printable_text(e);
    lemma_printable_wf(e);
    assert(no_braces("assertion `"@));
    assert(no_braces("` failed"@));
    lemma_holes_brace_free("assertion `"@);
    lemma_holes_brace_free("` failed"@);
    lemma_holes_concat("assertion `"@, expr_str);
    lemma_holes_concat("assertion `"@ + expr_str, "` failed"@);
    let st = initial_state(expr_str, fmt);
    match fmt {
        Some(f) => {
            if f.len() > 0 {
                assert(tmpl_holes(": {}"@) == Some(1nat)) by {
                    assert(": {}"@[0] == ':');
                    assert(": {}"@.skip(1)[0] == ' ');
                    assert(": {}"@.skip(1).skip(1)[0] == '{');
                    assert(": {}"@.skip(1).skip(1)[1] == '}');
                    assert(": {}"@.skip(1).skip(1).skip(2) =~= Seq::<char>::empty());
                    assert(tmpl_holes(Seq::<char>::empty()) == Some(0nat));
                    assert(tmpl_holes(": {}"@.skip(1).skip(1)) == Some(1nat));
                    assert(tmpl_holes(": {}"@.skip(1)) == Some(1nat));
                }
                lemma_holes_concat("assertion `"@ + expr_str + "` failed"@, ": {}"@);
                assert(wf_state(st));
            } else {
                assert(wf_state(st));
            }
        },
        None => {
            assert(wf_state(st));
        },
    }
    lemma_eval_expr_wf(e, st);
}

/// A well-formed failure report can always be formatted: filling its
/// template with one value per dynamic argument succeeds, whatever the
/// values are.
pub proof fn lemma_report_formats(
    message: Seq<char>,
    args: Seq<Seq<char>>,
    values: Seq<Seq<char>>,
)
    requires
        tmpl_holes(message) == Some(args.len() as nat),
        values.len() == args.len(),
    ensures
        crate::text::fmt_spec(message, values) is Some,
{
    crate::text::lemma_fmt_total(message, values);
}

/// Whether an expression can serve as a check predicate: everything except
/// an assignment, an `async` block, `break`, `continue`, a `for` or `while`
/// loop, a `let` binding, `return` or a struct literal — wherever
/// classification looks: at the top, under parentheses and groups, behind a
/// block's trailing expression, in either branch of an instrumented `if`,
/// or in a match arm's body. An `else` that is neither a block nor an `if`
/// is no parse shape an `else` can hold, and is rejected too.
pub open spec fn accepts(e: Expr) -> bool
    decreases e, 1int,
{
    match e {
        Expr::Assign { .. } => false,
        Expr::Async { .. } => false,
        Expr::Break { .. } => false,
        Expr::Continue { .. } => false,
        Expr::ForLoop { .. } => false,
        Expr::Let { .. } => false,
        Expr::Return { .. } => false,
        Expr::Struct { .. } => false,
        Expr::While { .. } => false,
        Expr::Paren { inner, .. } => accepts(*inner),
        Expr::Group { inner, .. } => accepts(*inner),
        Expr::Block { block, .. } => accepts_block(block),
        Expr::Const { block, .. } => accepts_block(block),
        Expr::Unsafe { block, .. } => accepts_block(block),
        Expr::If { then_branch, else_branch: Some(eb), .. } => accepts_block(then_branch)
            && accepts_else(*eb),
        Expr::Match { arms, .. } => accepts_arms(arms@),
        _ => true,
    }
}

/// Whether a block can serve as a check predicate: its trailing expression
/// must, if it has one.
pub open spec fn accepts_block(b: Block) -> bool
    decreases b, 1int,
{
    match b.tail {
        None => true,
        Some(t) => accepts(*t),
    }
}

/// Whether an `else` side can be instrumented.
pub open spec fn accepts_else(branch: Expr) -> bool
    decreases branch, 0int,
{
    match branch {
        Expr::Block { block, .. } => accepts_block(block),
        Expr::If { then_branch, else_branch: Some(eb), .. } => accepts_block(then_branch)
            && accepts_else(*eb),
        Expr::If { else_branch: None, .. } => true,
        _ => false,
    }
}

/// Whether every arm body can serve as a check predicate.
pub open spec fn accepts_arms(s: Seq<MatchArm>) -> bool
    decreases s, 0int,
{
    s.len() == 0 || (accepts(s[0].body) && accepts_arms(s.skip(1)))
}

/// Success is owed exactly on the accepted shapes: classification returns a
/// fragment if and only if no rejected construct stands where it looks,
/// whatever the incoming state.
pub proof fn lemma_accepts_iff(e: Expr, st: StateV)
    ensures
        eval_expr_spec(e, st) is Ok <==> accepts(e),
    decreases e, 1int,
{
    match e {
        Expr::Paren { inner, .. } => {
            lemma_accepts_iff(*inner, st);
        },
        Expr::Group { inner, .. } => {
            lemma_accepts_iff(*inner, st);
        },
        Expr::Block { block, .. } => {
            lemma_accepts_block_iff(block, st);
        },
        Expr::Const { block, .. } => {
            lemma_accepts_block_iff(block, st);
        },
        Expr::Unsafe { block, .. } => {
            lemma_accepts_block_iff(block, StateV { possibly_unsafe: true, ..st });
        },
        Expr::If { cond, then_branch, else_branch: Some(eb), .. } => {
            let disp = "condition `"@ + printable_text(*cond) + "`"@;
            let (st1, _) = add_var_spec(st, *cond, "condition"@, disp);
            lemma_accepts_block_iff(then_branch, fork_v(st1));
            lemma_accepts_else_iff(*eb, fork_v(st1));
        },
        Expr::Match { scrutinee, arms, .. } => {
            let expr_str = printable_text(*scrutinee);
            let (st1, _) = add_var_spec(st, *scrutinee, "matched"@, "matched value"@);
            lemma_accepts_arms_iff(expr_str, arms@, resolve_spec(st1));
        },
        _ => {},
    }
}

/// Success is owed for a block exactly when its trailing expression is
/// accepted.
pub proof fn lemma_accepts_block_iff(b: Block, st: StateV)
    ensures
        eval_block_spec(b, st) is Ok <==> accepts_block(b),
    decreases b, 2int,
{
    match b.tail {
        None => {},
        Some(t) => {
            let st1 = resolve_spec(st);
            let st2 = with_cause(
                st1,
                "block return assertion `"@ + printable_text(*t) + "` failed"@,
            );
            let st3 = StateV { setup: st2.setup + hoisted_v(b.stmts@), ..st2 };
            lemma_accepts_iff(*t, st3);
        },
    }
}

/// Success is owed for an `else` side exactly when it is an acceptable
/// parse shape with accepted contents.
pub proof fn lemma_accepts_else_iff(branch: Expr, st: StateV)
    ensures
        recurse_else_spec(branch, st) is Ok <==> accepts_else(branch),
    decreases branch, 0int,
{
    match branch {
        Expr::Block { block, .. } => {
            lemma_accepts_block_iff(block, st);
        },
        Expr::If { cond, then_branch, else_branch: Some(eb), .. } => {
            let disp = "condition `"@ + printable_text(*cond) + "`"@;
            let (st1, _) = add_var_spec(st, *cond, "condition"@, disp);
            lemma_accepts_block_iff(then_branch, fork_v(st1));
            lemma_accepts_else_iff(*eb, fork_v(st1));
        },
        _ => {},
    }
}

/// Success is owed for a run of match arms exactly when every body is
/// accepted.
pub proof fn lemma_accepts_arms_iff(expr_str: Seq<char>, arms: Seq<MatchArm>, st: StateV)
    ensures
        eval_arms_spec(expr_str, arms, st) is Ok <==> accepts_arms(arms),
    decreases arms, 0int,
{
    if arms.len() > 0 {
        let arm = arms[0];
        let arm_state = with_cause(fork_v(st), arm_cause(expr_str, arm.pat@, arm.body));
        lemma_accepts_iff(arm.body, arm_state);
        lemma_accepts_arms_iff(expr_str, arms.skip(1), st);
    }
}

/// An `else if` link hands its branches the same isolation as a top-level
/// `if`: the message so far is shared unchanged, and the pending variables
/// grow by exactly the link's own condition entry, so each deeper branch's
/// report lists one more condition line, in source order.
pub proof fn lemma_else_if_branch_states(branch: Expr, st: StateV)
    requires
        branch is If,
        branch->If_else_branch is Some,
    ensures
        ({
            let cond = *branch->If_cond;
            let disp = "condition `"@ + printable_text(cond) + "`"@;
            let (st1, _) = add_var_spec(st, cond, "condition"@, disp);
            let bst = fork_v(st1);
            &&& bst.format_message == st.format_message
            &&& bst.variables.len() == st.variables.len() + 1
            &&& bst.variables.last().0 == disp
            &&& (forall|i: int|
                0 <= i < st.variables.len() ==> (#[trigger] bst.variables[i]) == st.variables[i])
            &&& (match recurse_else_spec(branch, st) {
                Ok(g) => match g {
                    ElseOutV::ElseIf { then_gen, else_gen, .. } => {
                        &&& Ok::<GenOutV, (SrcSpan, Seq<char>)>(*then_gen) == eval_block_spec(
                            branch->If_then_branch,
                            bst,
                        )
                        &&& Ok::<ElseOutV, (SrcSpan, Seq<char>)>(*else_gen) == recurse_else_spec(
                            *branch->If_else_branch->0,
                            bst,
                        )
                    },
                    _ => false,
                },
                Err(_) => eval_block_spec(branch->If_then_branch, bst) is Err
                    || recurse_else_spec(*branch->If_else_branch->0, bst) is Err,
            })
        }),
{
    let cond = *branch->If_cond;
    let disp = "condition `"@ + printable_text(cond) + "`"@;
    let (st1, _) = add_var_spec(st, cond, "condition"@, disp);
}

} // verus!
