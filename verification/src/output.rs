//! The replacement code fragment that classification produces, in structured
//! form: setup statements, a positive predicate, and either a failure check
//! or branch-structured recursion, ready for a host back end to print.

use vstd::prelude::*;

use crate::ast::Expr;
use crate::ast::SrcSpan;
use crate::state::SetupStmt;
use crate::state::StmtV;
use crate::utils::Toks;

verus! {

/// A compile-time rejection: the offending range and the message shown for
/// it.
pub struct Diagnostic {
    pub span: SrcSpan,
    pub message: String,
}

impl View for Diagnostic {
    type V = (SrcSpan, Seq<char>);

    open spec fn view(&self) -> (SrcSpan, Seq<char>) {
        (self.span, self.message@)
    }
}

/// One generated fragment: an attribute-quieted block holding setup
/// statements and a body.
pub struct GenOut {
    /// Whether the block is generated with an `unsafe` qualifier.
    pub unsafe_block: bool,
    /// The setup statements run before the predicate.
    pub setup: Vec<SetupStmt>,
    /// What the block does after the setup.
    pub body: GenBody,
}

/// The working part of a generated fragment.
pub enum GenBody {
    /// `if <condition> { } else { panic!(<message>, <args...>) }` — the
    /// plain instrumented check. The predicate is kept positive so that a
    /// host type error points at the original expression.
    Check { condition: Toks, message: String, args: Vec<String> },
    /// `if <condition> { }` — a block kept whole, with no report of its own;
    /// the host compiler's type error does the talking.
    BareCheck { condition: Toks },
    /// `if <condition> { <then> } else <else>` — each branch instrumented in
    /// isolation, so only the taken branch's setup runs.
    IfElse { condition: Toks, then_gen: Box<GenOut>, else_gen: Box<ElseOut> },
    /// `match <scrutinee> { <pat> => { <arm> } ... }` — each arm
    /// instrumented in isolation.
    Match { scrutinee: Toks, arms: Vec<GenArm> },
}

/// One generated match arm: the pattern text (with its guard) and the
/// fragment for the arm's body.
pub struct GenArm {
    pub pat: String,
    pub gen: GenOut,
}

/// The generated `else` side of an instrumented `if`.
pub enum ElseOut {
    /// `else { <fragment> }`.
    Last { body: Box<GenOut> },
    /// `else { <setup> if <condition> { <then> } else <else> }` — one more
    /// link of an `else if` chain, with its own isolated setup.
    ElseIf { setup: Vec<SetupStmt>, condition: Toks, then_gen: Box<GenOut>, else_gen: Box<ElseOut> },
    /// An `if` with no `else` of its own, kept verbatim.
    Passthrough { expr: Box<Expr> },
}

/// Ghost form of a generated fragment.
pub struct GenOutV {
    pub unsafe_block: bool,
    pub setup: Seq<StmtV>,
    pub body: GenBodyV,
}

/// Ghost form of a fragment body.
pub enum GenBodyV {
    Check { condition: Seq<(Seq<char>, SrcSpan)>, message: Seq<char>, args: Seq<Seq<char>> },
    BareCheck { condition: Seq<(Seq<char>, SrcSpan)> },
    IfElse { condition: Seq<(Seq<char>, SrcSpan)>, then_gen: Box<GenOutV>, else_gen: Box<ElseOutV> },
    Match { scrutinee: Seq<(Seq<char>, SrcSpan)>, arms: Seq<GenArmV> },
}

/// Ghost form of a generated match arm.
pub struct GenArmV {
    pub pat: Seq<char>,
    pub gen: GenOutV,
}

/// Ghost form of a generated `else` side.
pub enum ElseOutV {
    Last { body: Box<GenOutV> },
    ElseIf {
        setup: Seq<StmtV>,
        condition: Seq<(Seq<char>, SrcSpan)>,
        then_gen: Box<GenOutV>,
        else_gen: Box<ElseOutV>,
    },
    Passthrough { expr: Expr },
}

/// The ghost form of a sequence of setup statements.
pub open spec fn stmts_v(s: Seq<SetupStmt>) -> Seq<StmtV> {
    Seq::new(s.len(), |i: int| s[i]@)
}

/// The ghost form of a sequence of argument texts.
pub open spec fn strs_v(s: Seq<String>) -> Seq<Seq<char>> {
    Seq::new(s.len(), |i: int| s[i]@)
}

/// The ghost form of a generated fragment.
pub open spec fn gen_out_v(g: GenOut) -> GenOutV
    decreases g, 1int,
{
    GenOutV {
        unsafe_block: g.unsafe_block,
        setup: stmts_v(g.setup@),
        body: gen_body_v(g.body),
    }
}

/// The ghost form of a fragment body.
pub open spec fn gen_body_v(b: GenBody) -> GenBodyV
    decreases b, 1int,
{
    match b {
        GenBody::Check { condition, message, args } => GenBodyV::Check {
            condition: condition@,
            message: message@,
            args: strs_v(args@),
        },
        GenBody::BareCheck { condition } => GenBodyV::BareCheck { condition: condition@ },
        GenBody::IfElse { condition, then_gen, else_gen } => GenBodyV::IfElse {
            condition: condition@,
            then_gen: Box::new(gen_out_v(*then_gen)),
            else_gen: Box::new(else_out_v(*else_gen)),
        },
        GenBody::Match { scrutinee, arms } => GenBodyV::Match {
            scrutinee: scrutinee@,
            arms: gen_arms_v(arms@),
        },
    }
}

/// The ghost form of a sequence of generated match arms.
pub open spec fn gen_arms_v(s: Seq<GenArm>) -> Seq<GenArmV>
    decreases s, 1int,
{
    if s.len() == 0 {
        Seq::empty()
    } else {
        gen_arms_v(s.drop_last()).push(
            GenArmV { pat: s.last().pat@, gen: gen_out_v(s.last().gen) },
        )
    }
}

/// The ghost form of a generated `else` side.
pub open spec fn else_out_v(e: ElseOut) -> ElseOutV
    decreases e, 1int,
{
    match e {
        ElseOut::Last { body } => ElseOutV::Last { body: Box::new(gen_out_v(*body)) },
        ElseOut::ElseIf { setup, condition, then_gen, else_gen } => ElseOutV::ElseIf {
            setup: stmts_v(setup@),
            condition: condition@,
            then_gen: Box::new(gen_out_v(*then_gen)),
            else_gen: Box::new(else_out_v(*else_gen)),
        },
        ElseOut::Passthrough { expr } => ElseOutV::Passthrough { expr: *expr },
    }
}

/// The whole replacement fragment for one assertion.
pub enum Output {
    /// The easter-egg block produced when the whole condition is the literal
    /// `true`; it never reaches generic classification.
    TrueFlavor,
    /// The fixed panic produced when the whole condition is the literal
    /// `false`.
    FalsePanic,
    /// An instrumented check.
    Rewritten { gen: GenOut },
}

/// Ghost form of the whole replacement fragment.
pub enum OutputV {
    TrueFlavor,
    FalsePanic,
    Rewritten { gen: GenOutV },
}

/// The ghost form of a whole replacement fragment.
pub open spec fn output_v(o: Output) -> OutputV {
    match o {
        Output::TrueFlavor => OutputV::TrueFlavor,
        Output::FalsePanic => OutputV::FalsePanic,
        Output::Rewritten { gen } => OutputV::Rewritten { gen: gen_out_v(gen) },
    }
}

/// The message of the fixed panic for a literal `false` condition.
pub open spec fn false_panic_message() -> Seq<char> {
    "surprisingly, `false` did not evaluate to true"@
}

/// Exec counterpart of [`false_panic_message`].
pub fn false_panic_message_string() -> (r: String)
    ensures
        r@ == false_panic_message(),
{
    String::from_str("surprisingly, `false` did not evaluate to true")
}

} // verus!
