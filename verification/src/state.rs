//! The diagnostic state threaded through the classifier: setup statements,
//! the failure-message template, its dynamic arguments, the variables not yet
//! written into the template, the pending `unsafe` qualifier, and the counter
//! behind collision-free generated identifiers.

use vstd::prelude::*;

use crate::ast::Expr;
use crate::ast::RawStmt;
use crate::ast::SrcSpan;
use crate::ast::span_of;
use crate::text::dec_str;
use crate::text::pad_left;
use crate::text::u64_to_string;
use crate::text::append_spaces;
use crate::utils::FullSpan;
use crate::utils::Toks;
use crate::utils::call_site_span;

verus! {

/// One generated setup statement.
pub enum SetupStmt {
    /// The definition of the single-field wrapper struct used for span
    /// attribution.
    WrapperDef,
    /// `let <ident> = <wrapper>(<expr>);` — the one place a captured
    /// sub-expression is evaluated.
    BindValue { ident: String, expr: Expr },
    /// `let <ident> = <format "{:?}" of target>;` — the captured value
    /// rendered for display.
    BindDebugStr { ident: String, target: Toks },
    /// A user statement hoisted out of a block, kept verbatim.
    Hoisted { stmt: RawStmt },
}

/// Ghost form of a setup statement.
pub enum StmtV {
    WrapperDef,
    BindValue { ident: Seq<char>, expr: Expr },
    BindDebugStr { ident: Seq<char>, target: Seq<(Seq<char>, SrcSpan)> },
    Hoisted { text: Seq<char>, span: SrcSpan },
}

impl View for SetupStmt {
    type V = StmtV;

    open spec fn view(&self) -> StmtV {
        match self {
            SetupStmt::WrapperDef => StmtV::WrapperDef,
            SetupStmt::BindValue { ident, expr } => StmtV::BindValue {
                ident: ident@,
                expr: *expr,
            },
            SetupStmt::BindDebugStr { ident, target } => StmtV::BindDebugStr {
                ident: ident@,
                target: target@,
            },
            SetupStmt::Hoisted { stmt } => StmtV::Hoisted { text: stmt.text@, span: stmt.span },
        }
    }
}

/// A variable waiting to be written into the message template: its display
/// name and the identifier holding its rendered value.
pub struct VarEntry {
    pub name: String,
    pub str_ident: String,
}

impl View for VarEntry {
    type V = (Seq<char>, Seq<char>);

    open spec fn view(&self) -> (Seq<char>, Seq<char>) {
        (self.name@, self.str_ident@)
    }
}

/// Ghost form of the diagnostic state.
pub struct StateV {
    pub setup: Seq<StmtV>,
    pub format_message: Seq<char>,
    pub dynamic_args: Seq<Seq<char>>,
    pub variables: Seq<(Seq<char>, Seq<char>)>,
    pub possibly_unsafe: bool,
    pub next_ident_id: nat,
}

/// The diagnostic state.
pub struct State {
    /// Statements that set up the captured variables.
    pub setup: Vec<SetupStmt>,
    /// The message shown when the assertion fails; one `{}` per dynamic
    /// argument.
    pub format_message: String,
    /// Argument texts, only evaluated when the assertion fails.
    pub dynamic_args: Vec<String>,
    /// (display name, value identifier) pairs not yet written into the
    /// message, kept back so they can be aligned together.
    pub variables: Vec<VarEntry>,
    /// Whether the generated block must be `unsafe`.
    pub possibly_unsafe: bool,
    /// Counter behind collision-free generated identifiers.
    pub next_ident_id: u64,
}

impl View for State {
    type V = StateV;

    open spec fn view(&self) -> StateV {
        StateV {
            setup: Seq::new(self.setup@.len(), |i: int| self.setup@[i]@),
            format_message: self.format_message@,
            dynamic_args: Seq::new(self.dynamic_args@.len(), |i: int| self.dynamic_args@[i]@),
            variables: Seq::new(self.variables@.len(), |i: int| self.variables@[i]@),
            possibly_unsafe: self.possibly_unsafe,
            next_ident_id: self.next_ident_id as nat,
        }
    }
}

/// The name of a generated identifier: a fixed prefix, the role of the
/// identifier, and the value of the counter when it was made.
pub open spec fn ident_str(name: Seq<char>, id: nat) -> Seq<char> {
    "__one_assert_"@ + name + "_"@ + dec_str(id)
}

/// What `add_var` does: the two generated identifiers, the access tokens that
/// replace the captured expression, and the grown state.
pub open spec fn add_var_spec(
    st: StateV,
    e: Expr,
    identifier: Seq<char>,
    display: Seq<char>,
) -> (StateV, Seq<(Seq<char>, SrcSpan)>) {
    let str_ident = ident_str(identifier + "_str"@, st.next_ident_id);
    if e is Path {
        let access = seq![(e->Path_text@, e->Path_span)];
        (
            StateV {
                setup: st.setup + seq![StmtV::BindDebugStr { ident: str_ident, target: access }],
                variables: st.variables.push((display, str_ident)),
                next_ident_id: st.next_ident_id + 1,
                ..st
            },
            access,
        )
    } else {
        let var_ident = ident_str(identifier, st.next_ident_id + 1);
        let sp = span_of(e);
        let access = seq![
            (var_ident, SrcSpan { lo: sp.lo, hi: sp.lo }),
            (".0"@, SrcSpan { lo: sp.hi, hi: sp.hi }),
        ];
        (
            StateV {
                setup: st.setup + seq![
                    StmtV::BindValue { ident: var_ident, expr: e },
                    StmtV::BindDebugStr { ident: str_ident, target: access },
                ],
                variables: st.variables.push((display, str_ident)),
                next_ident_id: st.next_ident_id + 2,
                ..st
            },
            access,
        )
    }
}

/// The length of the longest display name.
pub open spec fn max_name_len(vars: Seq<(Seq<char>, Seq<char>)>) -> nat
    decreases vars.len(),
{
    if vars.len() == 0 {
        0
    } else {
        let rest = max_name_len(vars.drop_last());
        if vars.last().0.len() > rest {
            vars.last().0.len()
        } else {
            rest
        }
    }
}

/// One `name: value` line of the message template, the name right-aligned in
/// a field of width `w`.
pub open spec fn var_line(name: Seq<char>, w: nat) -> Seq<char> {
    "\n    "@ + pad_left(name, w) + ": {}"@
}

/// The lines for a run of variables, all aligned to width `w`.
pub open spec fn resolved_lines(vars: Seq<(Seq<char>, Seq<char>)>, w: nat) -> Seq<char>
    decreases vars.len(),
{
    if vars.len() == 0 {
        Seq::empty()
    } else {
        resolved_lines(vars.drop_last(), w) + var_line(vars.last().0, w)
    }
}

/// The value identifiers of a run of variables, in order.
pub open spec fn var_idents(vars: Seq<(Seq<char>, Seq<char>)>) -> Seq<Seq<char>> {
    Seq::new(vars.len(), |i: int| vars[i].1)
}

/// What `resolve_variables` does: every pending variable becomes an aligned
/// message line and a dynamic argument, in order.
pub open spec fn resolve_spec(st: StateV) -> StateV {
    let w = max_name_len(st.variables);
    StateV {
        format_message: st.format_message + resolved_lines(st.variables, w),
        dynamic_args: st.dynamic_args + var_idents(st.variables),
        variables: Seq::empty(),
        ..st
    }
}

impl State {
    /// A fresh state: nothing generated yet.
    pub fn new() -> (r: State)
        ensures
            r@ == (StateV {
                setup: Seq::empty(),
                format_message: Seq::<char>::empty(),
                dynamic_args: Seq::empty(),
                variables: Seq::empty(),
                possibly_unsafe: false,
                next_ident_id: 0,
            }),
    {
        let r = State {
            setup: Vec::new(),
            format_message: String::new(),
            dynamic_args: Vec::new(),
            variables: Vec::new(),
            possibly_unsafe: false,
            next_ident_id: 0,
        };
        proof {
            assert(r@.setup =~= Seq::<StmtV>::empty());
            assert(r@.dynamic_args =~= Seq::<Seq<char>>::empty());
            assert(r@.variables =~= Seq::<(Seq<char>, Seq<char>)>::empty());
        }
        r
    }

    /// An isolated state for one branch: fresh setup, shared message
    /// progress, shared pending variables, and the same identifier counter.
    pub fn fork(&self) -> (r: State)
        ensures
            r@ == (StateV {
                setup: Seq::empty(),
                possibly_unsafe: false,
                ..self@
            }),
    {
        let mut dynamic_args: Vec<String> = Vec::new();
        let mut i: usize = 0;
        let n = self.dynamic_args.len();
        while i < n
            invariant
                i <= n,
                n == self.dynamic_args@.len(),
                dynamic_args@.len() == i,
                forall|k: int| 0 <= k < i ==> dynamic_args@[k]@ == self.dynamic_args@[k]@,
            decreases n - i,
        {
            dynamic_args.push(self.dynamic_args[i].clone());
            i = i + 1;
        }
        let mut variables: Vec<VarEntry> = Vec::new();
        let mut i: usize = 0;
        let m = self.variables.len();
        while i < m
            invariant
                i <= m,
                m == self.variables@.len(),
                variables@.len() == i,
                forall|k: int| 0 <= k < i ==> variables@[k]@ == self.variables@[k]@,
            decreases m - i,
        {
            let name = self.variables[i].name.clone();
            let str_ident = self.variables[i].str_ident.clone();
            variables.push(VarEntry { name, str_ident });
            i = i + 1;
        }
        let r = State {
            setup: Vec::new(),
            format_message: self.format_message.clone(),
            dynamic_args,
            variables,
            possibly_unsafe: false,
            next_ident_id: self.next_ident_id,
        };
        proof {
            assert(r@.setup =~= Seq::<StmtV>::empty());
            assert forall|k: int| 0 <= k < n implies r@.dynamic_args[k]
                == self@.dynamic_args[k] by {
                assert(r.dynamic_args@[k]@ == self.dynamic_args@[k]@);
            }
            assert(r@.dynamic_args =~= self@.dynamic_args);
            assert forall|k: int| 0 <= k < m implies r@.variables[k] == self@.variables[k] by {
                assert(r.variables@[k]@ == self.variables@[k]@);
            }
            assert(r@.variables =~= self@.variables);
        }
        r
    }

    /// A fresh identifier: the fixed prefix, the given role, and the counter,
    /// which moves on. No two calls within one expansion return the same
    /// name.
    pub fn create_ident(&mut self, name: &str) -> (r: String)
        requires
            old(self).next_ident_id < u64::MAX,
        ensures
            r@ == ident_str(name@, old(self)@.next_ident_id),
            final(self)@ == (StateV { next_ident_id: old(self)@.next_ident_id + 1, ..old(self)@ }),
            final(self).setup == old(self).setup,
            final(self).format_message == old(self).format_message,
            final(self).dynamic_args == old(self).dynamic_args,
            final(self).variables == old(self).variables,
            final(self).possibly_unsafe == old(self).possibly_unsafe,
            final(self).next_ident_id == old(self).next_ident_id + 1,
    {
        let mut s = String::from_str("__one_assert_");
        s.append(name);
        s.append("_");
        let num = u64_to_string(self.next_ident_id);
        s.append(num.as_str());
        self.next_ident_id = self.next_ident_id + 1;
        proof {
            assert(self@.setup =~= old(self)@.setup);
            assert(self@.dynamic_args =~= old(self)@.dynamic_args);
            assert(self@.variables =~= old(self)@.variables);
        }
        s
    }

    /// Captures an expression: binds its value once in the setup code,
    /// renders it for display, stores the pending message line, and returns
    /// the tokens that stand for the captured value in the rewritten
    /// predicate.
    ///
    /// A bare path is not bound by value — it may name something that cannot
    /// be moved — and is read directly instead.
    pub fn add_var(&mut self, expr: Expr, identifier: &str, display: &str) -> (access: Toks)
        requires
            old(self).next_ident_id + 2 <= u64::MAX,
        ensures
            ({
                let (st, acc) = add_var_spec(old(self)@, expr, identifier@, display@);
                final(self)@ == st && access@ == acc
            }),
    {
        let ghost (st, acc) = add_var_spec(old(self)@, expr, identifier@, display@);
        let mut str_name = String::from_str(identifier);
        str_name.append("_str");
        let var_debug_str = self.create_ident(str_name.as_str());
        let access: Toks;
        match &expr {
            Expr::Path { span, text } => {
                access = Toks::single(text.clone(), *span);
                let target = Toks::single(text.clone(), *span);
                proof {
                    assert(access@ =~= acc);
                    assert(target@ =~= acc);
                }
                self.setup.push(SetupStmt::BindDebugStr { ident: var_debug_str.clone(), target });
            },
            _ => {
                let var_ident = self.create_ident(identifier);
                let expr_span = FullSpan::from_spanned(&expr);
                access = expr_span.apply(
                    Toks::single(var_ident.clone(), call_site_span()),
                    Toks::single(String::from_str(".0"), call_site_span()),
                );
                let target = expr_span.apply(
                    Toks::single(var_ident.clone(), call_site_span()),
                    Toks::single(String::from_str(".0"), call_site_span()),
                );
                proof {
                    assert(access@ =~= acc);
                    assert(target@ =~= acc);
                }
                self.setup.push(SetupStmt::BindValue { ident: var_ident, expr });
                self.setup.push(SetupStmt::BindDebugStr { ident: var_debug_str.clone(), target });
            },
        }
        self.variables.push(VarEntry { name: String::from_str(display), str_ident: var_debug_str });
        proof {
            assert forall|k: int| 0 <= k < self@.setup.len() implies self@.setup[k]
                == st.setup[k] by {
                assert(self@.setup[k] == self.setup@[k]@);
                if k < old(self)@.setup.len() {
                    assert(self.setup@[k] == old(self).setup@[k]);
                    assert(old(self)@.setup[k] == old(self).setup@[k]@);
                }
            }
            assert(self@.setup =~= st.setup);
            assert forall|k: int| 0 <= k < self@.variables.len() implies self@.variables[k]
                == st.variables[k] by {
                assert(self@.variables[k] == self.variables@[k]@);
                if k < old(self)@.variables.len() {
                    assert(self.variables@[k] == old(self).variables@[k]);
                    assert(old(self)@.variables[k] == old(self).variables@[k]@);
                }
            }
            assert(self@.variables =~= st.variables);
            assert forall|k: int| 0 <= k < self@.dynamic_args.len() implies self@.dynamic_args[k]
                == st.dynamic_args[k] by {
                assert(self.dynamic_args@[k] == old(self).dynamic_args@[k]);
                assert(old(self)@.dynamic_args[k] == old(self).dynamic_args@[k]@);
            }
            assert(self@.dynamic_args =~= st.dynamic_args);
        }
        access
    }

    /// Writes all pending variables into the message template as aligned
    /// `name: value` lines, and queues their value identifiers as dynamic
    /// arguments.
    pub fn resolve_variables(&mut self)
        ensures
            final(self)@ == resolve_spec(old(self)@),
    {
        let n = self.variables.len();
        let mut w: usize = 0;
        let mut i: usize = 0;
        proof {
            assert(old(self)@.variables.subrange(0, 0) =~= Seq::<(Seq<char>, Seq<char>)>::empty());
        }
        while i < n
            invariant
                i <= n,
                n == self.variables@.len(),
                self == old(self),
                w as nat == max_name_len(self@.variables.subrange(0, i as int)),
            decreases n - i,
        {
            let len = self.variables[i].name.as_str().unicode_len();
            proof {
                let cur = self@.variables.subrange(0, i + 1);
                assert(cur.drop_last() =~= self@.variables.subrange(0, i as int));
                assert(cur.last() == self@.variables[i as int]);
                assert(self@.variables[i as int].0 == self.variables@[i as int].name@);
            }
            if len > w {
                w = len;
            }
            i = i + 1;
        }
        proof {
            assert(self@.variables.subrange(0, n as int) =~= self@.variables);
            assert(w as nat == max_name_len(old(self)@.variables));
        }
        let ghost vars0 = old(self)@.variables;
        let ghost args0 = old(self)@.dynamic_args;
        let ghost msg0 = old(self)@.format_message;
        let mut i: usize = 0;
        proof {
            assert(vars0.subrange(0, 0) =~= Seq::<(Seq<char>, Seq<char>)>::empty());
            assert(msg0 + resolved_lines(vars0.subrange(0, 0), w as nat) =~= msg0);
            assert(args0 + var_idents(vars0.subrange(0, 0)) =~= args0);
        }
        while i < n
            invariant
                i <= n,
                n == self.variables@.len(),
                self.setup == old(self).setup,
                self.possibly_unsafe == old(self).possibly_unsafe,
                self.next_ident_id == old(self).next_ident_id,
                self@.variables == vars0,
                self@.format_message == msg0 + resolved_lines(
                    vars0.subrange(0, i as int),
                    w as nat,
                ),
                self@.dynamic_args == args0 + var_idents(vars0.subrange(0, i as int)),
            decreases n - i,
        {
            let ghost msg_pre = self@.format_message;
            let ghost args_pre = self@.dynamic_args;
            let name = self.variables[i].name.clone();
            let str_ident = self.variables[i].str_ident.clone();
            let len = name.as_str().unicode_len();
            self.format_message.append("\n    ");
            if len < w {
                append_spaces(&mut self.format_message, w - len);
            }
            self.format_message.append(name.as_str());
            self.format_message.append(": {}");
            self.dynamic_args.push(str_ident);
            proof {
                let cur = vars0.subrange(0, i + 1);
                assert(cur.drop_last() =~= vars0.subrange(0, i as int));
                assert(cur.last() == vars0[i as int]);
                assert(vars0[i as int].0 == name@);
                assert(vars0[i as int].1 == self.variables@[i as int].str_ident@);
                if len < w {
                    assert(pad_left(name@, w as nat) == crate::text::spaces((w - len) as nat)
                        + name@);
                } else {
                    assert(pad_left(name@, w as nat) == name@);
                    assert(self@.format_message =~= msg_pre + "\n    "@ + name@ + ": {}"@);
                }
                assert(self@.format_message =~= msg_pre + var_line(name@, w as nat));
                assert(self@.format_message =~= msg0 + resolved_lines(cur, w as nat));
                let goal = args0 + var_idents(cur);
                assert(var_idents(vars0.subrange(0, i as int)).len() == i);
                assert(var_idents(cur).len() == i + 1);
                assert(args_pre.len() == args0.len() + i);
                assert(self@.dynamic_args.len() == goal.len());
                assert forall|k: int| 0 <= k < self@.dynamic_args.len() implies self@.dynamic_args[k]
                    == goal[k] by {
                    assert(self@.dynamic_args[k] == self.dynamic_args@[k]@);
                    if k < args_pre.len() {
                        assert(self@.dynamic_args[k] == args_pre[k]);
                        if k >= args0.len() {
                            assert(var_idents(vars0.subrange(0, i as int))[k - args0.len()]
                                == vars0.subrange(0, i as int)[k - args0.len()].1);
                            assert(var_idents(cur)[k - args0.len()] == cur[k - args0.len()].1);
                        }
                    } else {
                        assert(self.dynamic_args@[k]@ == vars0[i as int].1);
                        assert(var_idents(cur)[k - args0.len()] == cur[k - args0.len()].1);
                    }
                }
                assert(self@.dynamic_args =~= goal);
            }
            i = i + 1;
        }
        self.variables = Vec::new();
        proof {
            assert(vars0.subrange(0, n as int) =~= vars0);
            assert(self@.variables =~= Seq::<(Seq<char>, Seq<char>)>::empty());
            assert(self@.setup =~= old(self)@.setup);
            assert(self@ == resolve_spec(old(self)@));
        }
    }

    /// Appends a "caused by" line to the message template.
    pub fn add_cause(&mut self, cause: &str)
        ensures
            final(self)@ == (StateV {
                format_message: old(self)@.format_message + "\n  caused by: "@ + cause@,
                ..old(self)@
            }),
    {
        self.format_message.append("\n  caused by: ");
        self.format_message.append(cause);
        proof {
            assert(self@.setup =~= old(self)@.setup);
            assert(self@.dynamic_args =~= old(self)@.dynamic_args);
            assert(self@.variables =~= old(self)@.variables);
        }
    }
}

} // verus!
