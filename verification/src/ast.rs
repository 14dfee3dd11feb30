//! The expression tree that the classifier works on.
//!
//! Leaves carry their source text; composite nodes compose their text from
//! their children. Every node carries the source range it came from.

use vstd::prelude::*;

use crate::text::escape_braces;
use crate::text::escape_text;
use crate::text::push_char;

verus! {

/// A source range, in byte offsets into the original source text.
#[derive(Clone, Copy, PartialEq, Eq, Structural, Debug)]
pub struct SrcSpan {
    pub lo: usize,
    pub hi: usize,
}

/// A statement inside a block, kept as raw source text.
#[derive(Debug)]
pub struct RawStmt {
    pub span: SrcSpan,
    pub text: String,
}

impl View for RawStmt {
    type V = Seq<char>;

    open spec fn view(&self) -> Seq<char> {
        self.text@
    }
}

impl DeepView for RawStmt {
    type V = Seq<char>;

    open spec fn deep_view(&self) -> Seq<char> {
        self.text@
    }
}

/// A brace-delimited block: leading statements and an optional trailing
/// expression that gives the block its value.
#[derive(Debug)]
pub struct Block {
    pub span: SrcSpan,
    pub stmts: Vec<RawStmt>,
    pub tail: Option<Box<Expr>>,
}

/// One arm of a `match` expression. The pattern (with its guard, if any) is
/// kept as text; `comma` records whether the arm ended with a comma.
#[derive(Debug)]
pub struct MatchArm {
    pub pat: String,
    pub body: Expr,
    pub comma: bool,
}

/// The expression tree.
#[derive(Debug)]
pub enum Expr {
    /// A literal, kept as text (`true`, `0u8`, `"b"`).
    Lit { span: SrcSpan, text: String },
    /// A path, kept as text (`x`, `foo :: bar :: FALSE`).
    Path { span: SrcSpan, text: String },
    /// Any other kind with no special handling; passed through unchanged.
    Opaque { span: SrcSpan, text: String },
    /// `a = b`; rejected. `eq_span` is the range of the `=` token.
    Assign { span: SrcSpan, eq_span: SrcSpan, text: String },
    /// `async { ... }`; rejected.
    Async { span: SrcSpan, text: String },
    /// `break`; rejected.
    Break { span: SrcSpan, text: String },
    /// `continue`; rejected.
    Continue { span: SrcSpan, text: String },
    /// `for pat in iter { ... }`; rejected.
    ForLoop { span: SrcSpan, text: String },
    /// `let pat = expr`; rejected.
    Let { span: SrcSpan, text: String },
    /// `return expr`; rejected.
    Return { span: SrcSpan, text: String },
    /// `MyStruct { .. }`; rejected.
    Struct { span: SrcSpan, text: String },
    /// `while cond { ... }`; rejected.
    While { span: SrcSpan, text: String },
    /// `left <op> right`.
    Binary { span: SrcSpan, left: Box<Expr>, op: String, right: Box<Expr> },
    /// `<op> operand`.
    Unary { span: SrcSpan, op: String, operand: Box<Expr> },
    /// `func(args...)`.
    Call { span: SrcSpan, func: Box<Expr>, args: Vec<Expr> },
    /// `receiver.method::<T>(args...)`.
    MethodCall {
        span: SrcSpan,
        receiver: Box<Expr>,
        method: String,
        turbofish: String,
        args: Vec<Expr>,
    },
    /// `base[index]`.
    Index { span: SrcSpan, base: Box<Expr>, index: Box<Expr> },
    /// `value as ty`.
    Cast { span: SrcSpan, value: Box<Expr>, ty: String },
    /// `(inner)`.
    Paren { span: SrcSpan, inner: Box<Expr> },
    /// A group with invisible delimiters.
    Group { span: SrcSpan, inner: Box<Expr> },
    /// `{ ... }`.
    Block { span: SrcSpan, block: Block },
    /// `const { ... }`.
    Const { span: SrcSpan, block: Block },
    /// `unsafe { ... }`.
    Unsafe { span: SrcSpan, block: Block },
    /// `if cond { ... }`, optionally with an `else` branch.
    If { span: SrcSpan, cond: Box<Expr>, then_branch: Block, else_branch: Option<Box<Expr>> },
    /// `match scrutinee { arms... }`.
    Match { span: SrcSpan, scrutinee: Box<Expr>, arms: Vec<MatchArm> },
}

/// Number of nodes in an expression; the termination measure of everything
/// that walks the tree.
pub open spec fn esize(e: Expr) -> nat
    decreases e,
{
    1 + (match e {
        Expr::Binary { left, right, .. } => esize(*left) + esize(*right),
        Expr::Unary { operand, .. } => esize(*operand),
        Expr::Call { func, args, .. } => esize(*func) + eseq_size(args@),
        Expr::MethodCall { receiver, args, .. } => esize(*receiver) + eseq_size(args@),
        Expr::Index { base, index, .. } => esize(*base) + esize(*index),
        Expr::Cast { value, .. } => esize(*value),
        Expr::Paren { inner, .. } => esize(*inner),
        Expr::Group { inner, .. } => esize(*inner),
        Expr::Block { block, .. } => bsize(block),
        Expr::Const { block, .. } => bsize(block),
        Expr::Unsafe { block, .. } => bsize(block),
        Expr::If { cond, then_branch, else_branch, .. } => esize(*cond) + bsize(then_branch)
            + (match else_branch {
            Some(b) => esize(*b),
            None => 0,
        }),
        Expr::Match { scrutinee, arms, .. } => esize(*scrutinee) + aseq_size(arms@),
        _ => 0,
    })
}

/// Total size of a sequence of expressions.
pub open spec fn eseq_size(s: Seq<Expr>) -> nat
    decreases s,
{
    if s.len() == 0 {
        0
    } else {
        esize(s.last()) + eseq_size(s.drop_last())
    }
}

/// Total size of the bodies of a sequence of match arms.
pub open spec fn aseq_size(s: Seq<MatchArm>) -> nat
    decreases s,
{
    if s.len() == 0 {
        0
    } else {
        esize(s.last().body) + aseq_size(s.drop_last())
    }
}

/// Size of a block: the size of its trailing expression, if any.
pub open spec fn bsize(b: Block) -> nat
    decreases b,
{
    match b.tail {
        Some(e) => 1 + esize(*e),
        None => 1,
    }
}

/// Splitting off the first element of a sequence of expressions splits its
/// size.
pub proof fn lemma_eseq_skip(s: Seq<Expr>)
    requires
        s.len() > 0,
    ensures
        eseq_size(s) == esize(s[0]) + eseq_size(s.skip(1)),
    decreases s.len(),
{
    if s.len() == 1 {
        assert(s.skip(1) =~= Seq::<Expr>::empty());
        assert(s.drop_last() =~= Seq::<Expr>::empty());
        assert(s.last() == s[0]);
    } else {
        lemma_eseq_skip(s.drop_last());
        assert(s.drop_last()[0] == s[0]);
        assert(s.skip(1).drop_last() =~= s.drop_last().skip(1));
        assert(s.skip(1).last() == s.last());
    }
}

/// Splitting off the first arm of a sequence of match arms splits its size.
pub proof fn lemma_aseq_skip(s: Seq<MatchArm>)
    requires
        s.len() > 0,
    ensures
        aseq_size(s) == esize(s[0].body) + aseq_size(s.skip(1)),
    decreases s.len(),
{
    if s.len() == 1 {
        assert(s.skip(1) =~= Seq::<MatchArm>::empty());
        assert(s.drop_last() =~= Seq::<MatchArm>::empty());
        assert(s.last() == s[0]);
    } else {
        lemma_aseq_skip(s.drop_last());
        assert(s.drop_last()[0] == s[0]);
        assert(s.skip(1).drop_last() =~= s.drop_last().skip(1));
        assert(s.skip(1).last() == s.last());
    }
}

/// An element of a sequence of expressions is no larger than the whole.
pub proof fn lemma_eseq_elem(s: Seq<Expr>, i: int)
    requires
        0 <= i < s.len(),
    ensures
        esize(s[i]) <= eseq_size(s),
    decreases s.len(),
{
    if i + 1 == s.len() {
        assert(s.last() == s[i]);
    } else {
        lemma_eseq_elem(s.drop_last(), i);
        assert(s.drop_last()[i] == s[i]);
    }
}

/// An arm body of a sequence of match arms is no larger than the whole.
pub proof fn lemma_aseq_elem(s: Seq<MatchArm>, i: int)
    requires
        0 <= i < s.len(),
    ensures
        esize(s[i].body) <= aseq_size(s),
    decreases s.len(),
{
    if i + 1 == s.len() {
        assert(s.last() == s[i]);
    } else {
        lemma_aseq_elem(s.drop_last(), i);
        assert(s.drop_last()[i] == s[i]);
    }
}

/// The source range an expression covers.
pub open spec fn span_of(e: Expr) -> SrcSpan {
    match e {
        Expr::Lit { span, .. } => span,
        Expr::Path { span, .. } => span,
        Expr::Opaque { span, .. } => span,
        Expr::Assign { span, .. } => span,
        Expr::Async { span, .. } => span,
        Expr::Break { span, .. } => span,
        Expr::Continue { span, .. } => span,
        Expr::ForLoop { span, .. } => span,
        Expr::Let { span, .. } => span,
        Expr::Return { span, .. } => span,
        Expr::Struct { span, .. } => span,
        Expr::While { span, .. } => span,
        Expr::Binary { span, .. } => span,
        Expr::Unary { span, .. } => span,
        Expr::Call { span, .. } => span,
        Expr::MethodCall { span, .. } => span,
        Expr::Index { span, .. } => span,
        Expr::Cast { span, .. } => span,
        Expr::Paren { span, .. } => span,
        Expr::Group { span, .. } => span,
        Expr::Block { span, .. } => span,
        Expr::Const { span, .. } => span,
        Expr::Unsafe { span, .. } => span,
        Expr::If { span, .. } => span,
        Expr::Match { span, .. } => span,
    }
}

impl Expr {
    /// The source range this expression covers.
    pub fn span(&self) -> (s: SrcSpan)
        ensures
            s == span_of(*self),
    {
        match self {
            Expr::Lit { span, .. } => *span,
            Expr::Path { span, .. } => *span,
            Expr::Opaque { span, .. } => *span,
            Expr::Assign { span, .. } => *span,
            Expr::Async { span, .. } => *span,
            Expr::Break { span, .. } => *span,
            Expr::Continue { span, .. } => *span,
            Expr::ForLoop { span, .. } => *span,
            Expr::Let { span, .. } => *span,
            Expr::Return { span, .. } => *span,
            Expr::Struct { span, .. } => *span,
            Expr::While { span, .. } => *span,
            Expr::Binary { span, .. } => *span,
            Expr::Unary { span, .. } => *span,
            Expr::Call { span, .. } => *span,
            Expr::MethodCall { span, .. } => *span,
            Expr::Index { span, .. } => *span,
            Expr::Cast { span, .. } => *span,
            Expr::Paren { span, .. } => *span,
            Expr::Group { span, .. } => *span,
            Expr::Block { span, .. } => *span,
            Expr::Const { span, .. } => *span,
            Expr::Unsafe { span, .. } => *span,
            Expr::If { span, .. } => *span,
            Expr::Match { span, .. } => *span,
        }
    }
}

/// Whether a character can end an identifier or a literal token.
pub open spec fn is_ident_char(c: char) -> bool {
    (97 <= c as u32 && c as u32 <= 122)  // a-z
     || (65 <= c as u32 && c as u32 <= 90)  // A-Z
     || (48 <= c as u32 && c as u32 <= 57)  // 0-9
     || c as u32 == 95  // _
}

/// Whether a text ends in an identifier character. The parenthesized argument
/// list of a call is written with no space before it exactly when the callee
/// ends this way, matching how the host renders token streams.
pub open spec fn last_is_ident(s: Seq<char>) -> bool {
    s.len() > 0 && is_ident_char(s.last())
}

/// A rendering unit: a piece of single-line text, and whether it is glued to
/// the previous unit (no space before it).
pub open spec fn unit(t: Seq<char>, glued: bool) -> (Seq<char>, bool) {
    (t, glued)
}

/// The single-line text of a sequence of units: units separated by single
/// spaces, except that a glued unit follows its predecessor directly.
pub open spec fn line_of(us: Seq<(Seq<char>, bool)>) -> Seq<char>
    decreases us.len(),
{
    if us.len() == 0 {
        Seq::empty()
    } else if us.len() == 1 {
        us[0].0
    } else {
        line_of(us.drop_last()) + (if us.last().1 {
            Seq::<char>::empty()
        } else {
            " "@
        }) + us.last().0
    }
}

/// The rendering units of an expression.
pub open spec fn expr_units(e: Expr) -> Seq<(Seq<char>, bool)>
    decreases e, 0int,
{
    match e {
        Expr::Lit { text, .. } => seq![unit(text@, false)],
        Expr::Path { text, .. } => seq![unit(text@, false)],
        Expr::Opaque { text, .. } => seq![unit(text@, false)],
        Expr::Assign { text, .. } => seq![unit(text@, false)],
        Expr::Async { text, .. } => seq![unit(text@, false)],
        Expr::Break { text, .. } => seq![unit(text@, false)],
        Expr::Continue { text, .. } => seq![unit(text@, false)],
        Expr::ForLoop { text, .. } => seq![unit(text@, false)],
        Expr::Let { text, .. } => seq![unit(text@, false)],
        Expr::Return { text, .. } => seq![unit(text@, false)],
        Expr::Struct { text, .. } => seq![unit(text@, false)],
        Expr::While { text, .. } => seq![unit(text@, false)],
        Expr::Binary { left, op, right, .. } => expr_units(*left) + seq![unit(op@, false)]
            + expr_units(*right),
        Expr::Unary { op, operand, .. } => seq![unit(op@, false)] + expr_units(*operand),
        Expr::Call { func, args, .. } => expr_units(*func) + seq![
            unit("("@ + args_text(args@) + ")"@, last_is_ident(expr_text(*func))),
        ],
        Expr::MethodCall { receiver, method, turbofish, args, .. } => expr_units(*receiver)
            + seq![
            unit("."@ + method@ + turbofish@, true),
            unit("("@ + args_text(args@) + ")"@, true),
        ],
        Expr::Index { base, index, .. } => expr_units(*base) + seq![
            unit("["@ + expr_text(*index) + "]"@, false),
        ],
        Expr::Cast { value, ty, .. } => expr_units(*value) + seq![
            unit("as"@, false),
            unit(ty@, false),
        ],
        Expr::Paren { inner, .. } => seq![unit("("@ + expr_text(*inner) + ")"@, false)],
        Expr::Group { inner, .. } => expr_units(*inner),
        Expr::Block { block, .. } => seq![unit(block_text(block), false)],
        Expr::Const { block, .. } => seq![unit("const"@, false), unit(block_text(block), false)],
        Expr::Unsafe { block, .. } => seq![unit("unsafe"@, false), unit(block_text(block), false)],
        Expr::If { cond, then_branch, else_branch, .. } => seq![unit("if"@, false)] + expr_units(
            *cond,
        ) + seq![unit(block_text(then_branch), false)] + (match else_branch {
            Some(eb) => seq![unit("else"@, false)] + expr_units(*eb),
            None => Seq::empty(),
        }),
        Expr::Match { scrutinee, arms, .. } => seq![unit("match"@, false)] + expr_units(*scrutinee)
            + seq![unit(arms_body_text(arms@), false)],
    }
}

/// The single-line text of an expression.
pub open spec fn expr_text(e: Expr) -> Seq<char>
    decreases e, 1int,
{
    line_of(expr_units(e))
}

/// The texts of call arguments, joined by commas.
pub open spec fn args_text(s: Seq<Expr>) -> Seq<char>
    decreases s, 0int,
{
    if s.len() == 0 {
        Seq::empty()
    } else if s.len() == 1 {
        expr_text(s[0])
    } else {
        args_text(s.drop_last()) + ", "@ + expr_text(s.last())
    }
}

/// The text of a block: statements and the trailing expression between
/// braces.
pub open spec fn block_text(b: Block) -> Seq<char>
    decreases b, 1int,
{
    let inner = stmts_text(b.stmts.deep_view()) + (match b.tail {
        Some(t) => (if b.stmts@.len() == 0 {
            Seq::<char>::empty()
        } else {
            " "@
        }) + expr_text(*t),
        None => Seq::<char>::empty(),
    });
    if inner.len() == 0 {
        "{}"@
    } else {
        "{ "@ + inner + " }"@
    }
}

/// The statement texts of a block, joined by spaces.
pub open spec fn stmts_text(s: Seq<Seq<char>>) -> Seq<char>
    decreases s.len(),
{
    if s.len() == 0 {
        Seq::empty()
    } else if s.len() == 1 {
        s[0]
    } else {
        stmts_text(s.drop_last()) + " "@ + s.last()
    }
}

/// The text of one match arm: pattern, arrow, body, and the trailing comma if
/// the arm had one.
pub open spec fn arm_text(a: MatchArm) -> Seq<char>
    decreases a, 1int,
{
    a.pat@ + " => "@ + expr_text(a.body) + (if a.comma {
        ","@
    } else {
        Seq::<char>::empty()
    })
}

/// The brace-delimited body of a match: the arms joined by spaces.
pub open spec fn arms_body_text(s: Seq<MatchArm>) -> Seq<char>
    decreases s, 1int,
{
    if s.len() == 0 {
        "{}"@
    } else {
        "{ "@ + arms_join(s) + " }"@
    }
}

/// The arm texts joined by spaces.
pub open spec fn arms_join(s: Seq<MatchArm>) -> Seq<char>
    decreases s, 0int,
{
    if s.len() == 0 {
        Seq::empty()
    } else if s.len() == 1 {
        arm_text(s[0])
    } else {
        arms_join(s.drop_last()) + " "@ + arm_text(s.last())
    }
}

/// A rendering unit in executable form.
#[derive(Debug)]
pub struct RUnit {
    pub text: String,
    pub glued: bool,
}

impl View for RUnit {
    type V = (Seq<char>, bool);

    open spec fn view(&self) -> (Seq<char>, bool) {
        (self.text@, self.glued)
    }
}

/// The abstract units a vector of executable units stands for.
pub open spec fn units_view(v: Seq<RUnit>) -> Seq<(Seq<char>, bool)> {
    Seq::new(v.len(), |i: int| v[i]@)
}

/// Moves all units of `src` to the end of `dst`.
fn append_runits(dst: &mut Vec<RUnit>, src: Vec<RUnit>) -> (nothing: ())
    ensures
        final(dst)@ =~= old(dst)@ + src@,
{
    let n = src.len();
    let mut i: usize = 0;
    let mut src = src;
    while i < n
        invariant
            i <= n,
            n == src@.len(),
            dst@ =~= old(dst)@ + src@.subrange(0, i as int),
        decreases n - i,
    {
        let text = src[i].text.clone();
        let glued = src[i].glued;
        proof {
            assert(RUnit { text: text, glued: glued }@ == src@[i as int]@);
            assert((old(dst)@ + src@.subrange(0, i as int)).push(src@[i as int]) =~= old(dst)@
                + src@.subrange(0, i + 1));
        }
        dst.push(RUnit { text, glued });
        proof {
            assert(dst@.last()@ == src@[i as int]@);
            assert(dst@ =~= dst@.drop_last().push(dst@.last()));
            assert forall|k: int| 0 <= k < dst@.len() implies dst@[k]@ == (old(dst)@ + src@.subrange(
                0,
                i + 1,
            ))[k]@ by {}
        }
        i = i + 1;
    }
    proof {
        assert(src@.subrange(0, n as int) =~= src@);
    }
}

/// Whether a character can end an identifier or a literal token.
fn ident_char(c: char) -> (r: bool)
    ensures
        r == is_ident_char(c),
{
    let u = c as u32;
    (97 <= u && u <= 122) || (65 <= u && u <= 90) || (48 <= u && u <= 57) || u == 95
}

/// Renders units as a single line: spaces between units, none before a glued
/// unit.
pub fn line_from_units(units: &Vec<RUnit>) -> (r: String)
    ensures
        r@ == line_of(units_view(units@)),
{
    let ghost uv = units_view(units@);
    let n = units.len();
    let mut out = String::new();
    let mut i: usize = 0;
    while i < n
        invariant
            i <= n,
            n == units@.len(),
            uv == units_view(units@),
            out@ == line_of(uv.subrange(0, i as int)),
        decreases n - i,
    {
        if i > 0 && !units[i].glued {
            out.append(" ");
        }
        out.append(units[i].text.as_str());
        proof {
            let pre = uv.subrange(0, i as int);
            let cur = uv.subrange(0, i + 1);
            assert(cur.drop_last() =~= pre);
            assert(cur.last() == uv[i as int]);
            assert(uv[i as int] == units@[i as int]@);
            if i == 0 {
                assert(cur.len() == 1);
                assert(out@ =~= cur[0].0);
            } else {
                assert(out@ =~= line_of(pre) + (if uv[i as int].1 {
                    Seq::<char>::empty()
                } else {
                    " "@
                }) + uv[i as int].0);
            }
        }
        i = i + 1;
    }
    proof {
        assert(uv.subrange(0, n as int) =~= uv);
    }
    out
}

/// A wrapping column, saturated just past the margin: everything at or past
/// the margin behaves the same, so nothing larger needs to be tracked.
pub open spec fn cap_col(n: nat) -> nat {
    if n > 79 {
        79
    } else {
        n
    }
}

/// The line-wrapped text of the units after the first, entered at column
/// `col`: a unit that would run past column 78 starts a new line instead of
/// being preceded by a space; a glued unit never breaks.
pub open spec fn wrap_rest(us: Seq<(Seq<char>, bool)>, col: nat) -> Seq<char>
    decreases us.len(),
{
    if us.len() == 0 {
        Seq::empty()
    } else {
        let t = us[0].0;
        if us[0].1 {
            t + wrap_rest(us.skip(1), cap_col(col + t.len()))
        } else if col + 1 + t.len() > 78 {
            "\n"@ + t + wrap_rest(us.skip(1), cap_col(t.len()))
        } else {
            " "@ + t + wrap_rest(us.skip(1), cap_col(col + 1 + t.len()))
        }
    }
}

/// The line-wrapped text of a sequence of units, as the host renders a long
/// expression.
pub open spec fn wrapped_of(us: Seq<(Seq<char>, bool)>) -> Seq<char> {
    if us.len() == 0 {
        Seq::empty()
    } else {
        us[0].0 + wrap_rest(us.skip(1), cap_col(us[0].0.len()))
    }
}

/// Renders units with line wrapping at the margin.
pub fn wrap_from_units(units: &Vec<RUnit>) -> (r: String)
    ensures
        r@ == wrapped_of(units_view(units@)),
{
    let ghost uv = units_view(units@);
    let n = units.len();
    if n == 0 {
        return String::new();
    }
    let mut out = units[0].text.clone();
    let first_len = units[0].text.unicode_len();
    let mut col: usize = if first_len > 79 {
        79
    } else {
        first_len
    };
    let mut i: usize = 1;
    proof {
        assert(uv[0] == units@[0]@);
        assert(col as nat == cap_col(uv[0].0.len()));
    }
    while i < n
        invariant
            1 <= i <= n,
            n == units@.len(),
            uv == units_view(units@),
            col <= 79,
            wrapped_of(uv) == out@ + wrap_rest(uv.skip(i as int), col as nat),
        decreases n - i,
    {
        let ghost ui = uv.skip(i as int);
        let ghost col0 = col as nat;
        let ghost out0 = out@;
        proof {
            assert(ui[0] == uv[i as int]);
            assert(uv[i as int] == units@[i as int]@);
            assert(ui.skip(1) =~= uv.skip(i + 1));
        }
        let t = units[i].text.clone();
        let len = t.unicode_len();
        proof {
            assert(len as nat == ui[0].0.len());
        }
        if units[i].glued {
            out.append(t.as_str());
            col = if len > 79 - col {
                79
            } else {
                col + len
            };
            proof {
                assert(col as nat == cap_col(col0 + ui[0].0.len()));
                assert(wrap_rest(ui, col0) == ui[0].0 + wrap_rest(ui.skip(1), cap_col(col as nat)));
                assert(out0 + (ui[0].0 + wrap_rest(ui.skip(1), cap_col(col as nat))) =~= out@
                    + wrap_rest(ui.skip(1), cap_col(col as nat)));
            }
        } else if col > 77 || len > 77 - col {
            out.append("\n");
            out.append(t.as_str());
            col = if len > 79 {
                79
            } else {
                len
            };
            proof {
                assert(col0 + 1 + ui[0].0.len() > 78);
                assert(col as nat == cap_col(ui[0].0.len()));
                assert(wrap_rest(ui, col0) == "\n"@ + ui[0].0 + wrap_rest(
                    ui.skip(1),
                    cap_col(col as nat),
                ));
                assert(out0 + ("\n"@ + ui[0].0 + wrap_rest(ui.skip(1), cap_col(col as nat)))
                    =~= out@ + wrap_rest(ui.skip(1), cap_col(col as nat)));
            }
        } else {
            out.append(" ");
            out.append(t.as_str());
            col = col + 1 + len;
            proof {
                assert(col0 + 1 + ui[0].0.len() <= 78);
                assert(col as nat == cap_col(col0 + 1 + ui[0].0.len()));
                assert(wrap_rest(ui, col0) == " "@ + ui[0].0 + wrap_rest(
                    ui.skip(1),
                    cap_col(col as nat),
                ));
                assert(out0 + (" "@ + ui[0].0 + wrap_rest(ui.skip(1), cap_col(col as nat))) =~= out@
                    + wrap_rest(ui.skip(1), cap_col(col as nat)));
            }
        }
        i = i + 1;
    }
    proof {
        assert(uv.skip(n as int) =~= Seq::<(Seq<char>, bool)>::empty());
        assert(wrap_rest(uv.skip(n as int), col as nat) =~= Seq::<char>::empty());
        assert(out@ + Seq::<char>::empty() =~= out@);
    }
    out
}

/// Whether a text ends in an identifier character.
fn ends_ident(s: &String) -> (r: bool)
    ensures
        r == last_is_ident(s@),
{
    let n = s.as_str().unicode_len();
    if n == 0 {
        false
    } else {
        let c = s.as_str().get_char(n - 1);
        proof {
            assert(s@.last() == s@[n - 1]);
        }
        ident_char(c)
    }
}

/// A vector holding one non-glued unit.
fn single_unit(text: &String) -> (r: Vec<RUnit>)
    ensures
        units_view(r@) =~= seq![unit(text@, false)],
{
    let mut v: Vec<RUnit> = Vec::new();
    v.push(RUnit { text: text.clone(), glued: false });
    proof {
        assert(units_view(v@) =~= seq![unit(text@, false)]);
    }
    v
}

/// The rendering units of an expression, in executable form.
pub fn render_units(e: &Expr) -> (r: Vec<RUnit>)
    ensures
        units_view(r@) == expr_units(*e),
    decreases esize(*e), 0int,
{
    match e {
        Expr::Lit { text, .. } => single_unit(text),
        Expr::Path { text, .. } => single_unit(text),
        Expr::Opaque { text, .. } => single_unit(text),
        Expr::Assign { text, .. } => single_unit(text),
        Expr::Async { text, .. } => single_unit(text),
        Expr::Break { text, .. } => single_unit(text),
        Expr::Continue { text, .. } => single_unit(text),
        Expr::ForLoop { text, .. } => single_unit(text),
        Expr::Let { text, .. } => single_unit(text),
        Expr::Return { text, .. } => single_unit(text),
        Expr::Struct { text, .. } => single_unit(text),
        Expr::While { text, .. } => single_unit(text),
        Expr::Binary { left, op, right, .. } => {
            let mut v = render_units(&**left);
            v.push(RUnit { text: op.clone(), glued: false });
            let rv = render_units(&**right);
            append_runits(&mut v, rv);
            proof {
                assert(units_view(v@) =~= expr_units(**left) + seq![unit(op@, false)] + expr_units(
                    **right,
                ));
            }
            v
        },
        Expr::Unary { op, operand, .. } => {
            let mut v: Vec<RUnit> = Vec::new();
            v.push(RUnit { text: op.clone(), glued: false });
            let ov = render_units(&**operand);
            append_runits(&mut v, ov);
            proof {
                assert(units_view(v@) =~= seq![unit(op@, false)] + expr_units(**operand));
            }
            v
        },
        Expr::Call { func, args, .. } => {
            let mut v = render_units(&**func);
            let fl = line_from_units(&v);
            let glued = ends_ident(&fl);
            let a = render_args(args);
            let mut text = String::from_str("(");
            text.append(a.as_str());
            text.append(")");
            v.push(RUnit { text, glued });
            proof {
                assert(units_view(v@) =~= expr_units(**func) + seq![
                    unit("("@ + args_text(args@) + ")"@, last_is_ident(expr_text(**func))),
                ]);
            }
            v
        },
        Expr::MethodCall { receiver, method, turbofish, args, .. } => {
            let mut v = render_units(&**receiver);
            let mut dot = String::from_str(".");
            dot.append(method.as_str());
            dot.append(turbofish.as_str());
            v.push(RUnit { text: dot, glued: true });
            let a = render_args(args);
            let mut text = String::from_str("(");
            text.append(a.as_str());
            text.append(")");
            v.push(RUnit { text, glued: true });
            proof {
                assert(units_view(v@) =~= expr_units(**receiver) + seq![
                    unit("."@ + method@ + turbofish@, true),
                    unit("("@ + args_text(args@) + ")"@, true),
                ]);
            }
            v
        },
        Expr::Index { base, index, .. } => {
            let mut v = render_units(&**base);
            let il = render_line(&**index);
            let mut text = String::from_str("[");
            text.append(il.as_str());
            text.append("]");
            v.push(RUnit { text, glued: false });
            proof {
                assert(units_view(v@) =~= expr_units(**base) + seq![
                    unit("["@ + expr_text(**index) + "]"@, false),
                ]);
            }
            v
        },
        Expr::Cast { value, ty, .. } => {
            let mut v = render_units(&**value);
            v.push(RUnit { text: String::from_str("as"), glued: false });
            v.push(RUnit { text: ty.clone(), glued: false });
            proof {
                assert(units_view(v@) =~= expr_units(**value) + seq![
                    unit("as"@, false),
                    unit(ty@, false),
                ]);
            }
            v
        },
        Expr::Paren { inner, .. } => {
            let il = render_line(&**inner);
            let mut text = String::from_str("(");
            text.append(il.as_str());
            text.append(")");
            let mut v: Vec<RUnit> = Vec::new();
            v.push(RUnit { text, glued: false });
            proof {
                assert(units_view(v@) =~= seq![unit("("@ + expr_text(**inner) + ")"@, false)]);
            }
            v
        },
        Expr::Group { inner, .. } => render_units(&**inner),
        Expr::Block { block, .. } => {
            let bt = render_block(block);
            let mut v: Vec<RUnit> = Vec::new();
            v.push(RUnit { text: bt, glued: false });
            proof {
                assert(units_view(v@) =~= seq![unit(block_text(*block), false)]);
            }
            v
        },
        Expr::Const { block, .. } => {
            let bt = render_block(block);
            let mut v: Vec<RUnit> = Vec::new();
            v.push(RUnit { text: String::from_str("const"), glued: false });
            v.push(RUnit { text: bt, glued: false });
            proof {
                assert(units_view(v@) =~= seq![
                    unit("const"@, false),
                    unit(block_text(*block), false),
                ]);
            }
            v
        },
        Expr::Unsafe { block, .. } => {
            let bt = render_block(block);
            let mut v: Vec<RUnit> = Vec::new();
            v.push(RUnit { text: String::from_str("unsafe"), glued: false });
            v.push(RUnit { text: bt, glued: false });
            proof {
                assert(units_view(v@) =~= seq![
                    unit("unsafe"@, false),
                    unit(block_text(*block), false),
                ]);
            }
            v
        },
        Expr::If { cond, then_branch, else_branch, .. } => {
            let mut v: Vec<RUnit> = Vec::new();
            v.push(RUnit { text: String::from_str("if"), glued: false });
            let cv = render_units(&**cond);
            append_runits(&mut v, cv);
            let bt = render_block(then_branch);
            v.push(RUnit { text: bt, glued: false });
            match else_branch {
                Some(eb) => {
                    v.push(RUnit { text: String::from_str("else"), glued: false });
                    let ev = render_units(&**eb);
                    append_runits(&mut v, ev);
                    proof {
                        assert(units_view(v@) =~= seq![unit("if"@, false)] + expr_units(**cond)
                            + seq![unit(block_text(*then_branch), false)] + (seq![
                            unit("else"@, false),
                        ] + expr_units(**eb)));
                    }
                },
                None => {
                    proof {
                        assert(units_view(v@) =~= seq![unit("if"@, false)] + expr_units(**cond)
                            + seq![unit(block_text(*then_branch), false)]
                            + Seq::<(Seq<char>, bool)>::empty());
                    }
                },
            }
            v
        },
        Expr::Match { scrutinee, arms, .. } => {
            let mut v: Vec<RUnit> = Vec::new();
            v.push(RUnit { text: String::from_str("match"), glued: false });
            let sv = render_units(&**scrutinee);
            append_runits(&mut v, sv);
            let at = render_arms_body(arms);
            v.push(RUnit { text: at, glued: false });
            proof {
                assert(units_view(v@) =~= seq![unit("match"@, false)] + expr_units(**scrutinee)
                    + seq![unit(arms_body_text(arms@), false)]);
            }
            v
        },
    }
}

/// The single-line text of an expression, in executable form.
pub fn render_line(e: &Expr) -> (r: String)
    ensures
        r@ == expr_text(*e),
    decreases esize(*e), 1int,
{
    let v = render_units(e);
    line_from_units(&v)
}

/// The texts of call arguments, joined by commas.
fn render_args(args: &Vec<Expr>) -> (r: String)
    ensures
        r@ == args_text(args@),
    decreases eseq_size(args@), 2int,
{
    let n = args.len();
    let mut out = String::new();
    let mut i: usize = 0;
    proof {
        assert(args@.subrange(0, 0) =~= Seq::<Expr>::empty());
    }
    while i < n
        invariant
            i <= n,
            n == args@.len(),
            out@ == args_text(args@.subrange(0, i as int)),
        decreases n - i,
    {
        if i > 0 {
            out.append(", ");
        }
        proof {
            lemma_eseq_elem(args@, i as int);
        }
        let line = render_line(&args[i]);
        out.append(line.as_str());
        proof {
            let cur = args@.subrange(0, i + 1);
            assert(cur.drop_last() =~= args@.subrange(0, i as int));
            assert(cur.last() == args@[i as int]);
            if i == 0 {
                assert(cur.len() == 1);
                assert(out@ =~= expr_text(cur[0]));
            }
        }
        i = i + 1;
    }
    proof {
        assert(args@.subrange(0, n as int) =~= args@);
    }
    out
}

/// The text of a block, in executable form.
pub fn render_block(b: &Block) -> (r: String)
    ensures
        r@ == block_text(*b),
    decreases bsize(*b), 1int,
{
    let ghost dv = b.stmts.deep_view();
    let n = b.stmts.len();
    let mut inner = String::new();
    let mut i: usize = 0;
    proof {
        assert(dv.len() == b.stmts@.len());
        assert(dv.subrange(0, 0) =~= Seq::<Seq<char>>::empty());
    }
    while i < n
        invariant
            i <= n,
            n == b.stmts@.len(),
            dv == b.stmts.deep_view(),
            dv.len() == n,
            inner@ == stmts_text(dv.subrange(0, i as int)),
        decreases n - i,
    {
        if i > 0 {
            inner.append(" ");
        }
        inner.append(b.stmts[i].text.as_str());
        proof {
            assert(dv[i as int] == b.stmts@[i as int].text@);
            let cur = dv.subrange(0, i + 1);
            assert(cur.drop_last() =~= dv.subrange(0, i as int));
            assert(cur.last() == dv[i as int]);
            if i == 0 {
                assert(cur.len() == 1);
                assert(inner@ =~= cur[0]);
            }
        }
        i = i + 1;
    }
    proof {
        assert(dv.subrange(0, n as int) =~= dv);
    }
    match &b.tail {
        Some(t) => {
            if n > 0 {
                inner.append(" ");
            }
            let lt = render_line(&**t);
            inner.append(lt.as_str());
        },
        None => {},
    }
    if inner.as_str().is_empty() {
        String::from_str("{}")
    } else {
        let mut out = String::from_str("{ ");
        out.append(inner.as_str());
        out.append(" }");
        out
    }
}

/// The brace-delimited body of a match, in executable form.
fn render_arms_body(arms: &Vec<MatchArm>) -> (r: String)
    ensures
        r@ == arms_body_text(arms@),
    decreases aseq_size(arms@), 2int,
{
    let n = arms.len();
    if n == 0 {
        return String::from_str("{}");
    }
    let mut j = String::new();
    let mut i: usize = 0;
    proof {
        assert(arms@.subrange(0, 0) =~= Seq::<MatchArm>::empty());
    }
    while i < n
        invariant
            0 < n == arms@.len(),
            i <= n,
            j@ == arms_join(arms@.subrange(0, i as int)),
        decreases n - i,
    {
        if i > 0 {
            j.append(" ");
        }
        proof {
            lemma_aseq_elem(arms@, i as int);
        }
        let arm = &arms[i];
        j.append(arm.pat.as_str());
        j.append(" => ");
        let bl = render_line(&arm.body);
        j.append(bl.as_str());
        if arm.comma {
            j.append(",");
        }
        proof {
            let cur = arms@.subrange(0, i + 1);
            assert(cur.drop_last() =~= arms@.subrange(0, i as int));
            assert(cur.last() == arms@[i as int]);
            if i == 0 {
                assert(cur.len() == 1);
                assert(j@ =~= arm_text(cur[0]));
            } else {
                assert(j@ =~= arms_join(cur.drop_last()) + " "@ + arm_text(cur.last()));
            }
        }
        i = i + 1;
    }
    proof {
        assert(arms@.subrange(0, n as int) =~= arms@);
    }
    let mut out = String::from_str("{ ");
    out.append(j.as_str());
    out.append(" }");
    out
}

/// The text of an expression as it is quoted into a failure message:
/// line-wrapped at the margin, with braces doubled for the formatter.
pub open spec fn printable_text(e: Expr) -> Seq<char> {
    escape_braces(wrapped_of(expr_units(e)))
}

/// Renders an expression for quoting into a failure message.
pub fn printable_expr_string(e: &Expr) -> (r: String)
    ensures
        r@ == printable_text(*e),
{
    let units = render_units(e);
    let w = wrap_from_units(&units);
    escape_text(w.as_str())
}

} // verus!
