//! Generated-code fragments and span bookkeeping.
//!
//! Generated code is kept as a sequence of text parts, each carrying the
//! source range it should be attributed to, so that host-compiler errors on
//! the rewritten predicate point back at the original sub-expression.

use vstd::prelude::*;

use crate::ast::SrcSpan;
use crate::text::dec_str;
use crate::text::u64_to_string;

verus! {

/// The span given to generated tokens that stand for no particular place in
/// the source.
pub open spec fn call_site() -> SrcSpan {
    SrcSpan { lo: 0, hi: 0 }
}

/// Exec counterpart of [`call_site`].
pub fn call_site_span() -> (s: SrcSpan)
    ensures
        s == call_site(),
{
    SrcSpan { lo: 0, hi: 0 }
}

/// One part of a generated-code fragment: a piece of text and the source
/// range it is attributed to.
#[derive(Debug)]
pub struct TokPart {
    pub text: String,
    pub span: SrcSpan,
}

impl View for TokPart {
    type V = (Seq<char>, SrcSpan);

    open spec fn view(&self) -> (Seq<char>, SrcSpan) {
        (self.text@, self.span)
    }
}

/// A generated-code fragment: an ordered sequence of spanned text parts.
#[derive(Debug)]
pub struct Toks {
    pub parts: Vec<TokPart>,
}

impl View for Toks {
    type V = Seq<(Seq<char>, SrcSpan)>;

    open spec fn view(&self) -> Seq<(Seq<char>, SrcSpan)> {
        Seq::new(self.parts@.len(), |i: int| self.parts@[i]@)
    }
}

/// The same parts, all attributed to one span.
pub open spec fn spanned_toks(ts: Seq<(Seq<char>, SrcSpan)>, span: SrcSpan) -> Seq<
    (Seq<char>, SrcSpan),
> {
    Seq::new(ts.len(), |i: int| (ts[i].0, span))
}

impl Toks {
    /// A fragment with no parts.
    pub fn new() -> (r: Toks)
        ensures
            r@ =~= Seq::<(Seq<char>, SrcSpan)>::empty(),
    {
        Toks { parts: Vec::new() }
    }

    /// A fragment of a single part.
    pub fn single(text: String, span: SrcSpan) -> (r: Toks)
        ensures
            r@ =~= seq![(text@, span)],
    {
        let mut parts: Vec<TokPart> = Vec::new();
        parts.push(TokPart { text, span });
        Toks { parts }
    }

    /// Appends one part.
    pub fn push(&mut self, text: String, span: SrcSpan)
        ensures
            final(self)@ =~= old(self)@.push((text@, span)),
    {
        self.parts.push(TokPart { text, span });
    }

    /// Appends all parts of another fragment.
    pub fn extend(&mut self, other: Toks)
        ensures
            final(self)@ =~= old(self)@ + other@,
    {
        let mut rest = other.parts;
        let n = rest.len();
        let mut i: usize = 0;
        while i < n
            invariant
                i <= n,
                n == rest@.len(),
                rest@ == other.parts@,
                self@ =~= old(self)@ + other@.subrange(0, i as int),
            decreases n - i,
        {
            let text = rest[i].text.clone();
            let span = rest[i].span;
            proof {
                assert((text@, span) == other@[i as int]);
                assert((old(self)@ + other@.subrange(0, i as int)).push((text@, span)) =~= old(
                    self,
                )@ + other@.subrange(0, i + 1));
            }
            self.parts.push(TokPart { text, span });
            i = i + 1;
        }
        proof {
            assert(other@.subrange(0, n as int) =~= other@);
        }
    }
}

/// Extension methods for generated-code fragments that re-attribute every
/// part to one span.
pub trait TokenStreamExt: Sized + View<V = Seq<(Seq<char>, SrcSpan)>> {
    /// Re-attributes every part of the fragment to `span`, in place.
    fn set_span(&mut self, span: SrcSpan)
        ensures
            final(self)@ == spanned_toks(old(self)@, span),
    ;

    /// Re-attributes every part of the fragment to `span`.
    fn with_span(self, span: SrcSpan) -> (r: Self)
        ensures
            r@ == spanned_toks(self@, span),
    ;
}

impl TokenStreamExt for Toks {
    fn set_span(&mut self, span: SrcSpan)
        ensures
            final(self)@ == spanned_toks(old(self)@, span),
    {
        let n = self.parts.len();
        let mut i: usize = 0;
        while i < n
            invariant
                i <= n,
                n == self.parts@.len(),
                n == old(self).parts@.len(),
                forall|k: int| i <= k < n ==> self.parts@[k] == old(self).parts@[k],
                forall|k: int|
                    0 <= k < i ==> self.parts@[k].text@ == old(self).parts@[k].text@
                        && self.parts@[k].span == span,
            decreases n - i,
        {
            let text = self.parts[i].text.clone();
            self.parts.set(i, TokPart { text, span });
            i = i + 1;
        }
        proof {
            assert forall|k: int| 0 <= k < n implies self@[k] == (old(self)@[k].0, span) by {
                assert(self.parts@[k].text@ == old(self).parts@[k].text@);
            }
            assert(self@ =~= spanned_toks(old(self)@, span));
        }
    }

    fn with_span(self, span: SrcSpan) -> (r: Self)
        ensures
            r@ == spanned_toks(self@, span),
    {
        let mut r = self;
        let ghost orig = r@;
        r.set_span(span);
        proof {
            assert(r@ == spanned_toks(orig, span));
        }
        r
    }
}

/// The first and last source position of an expression, kept separately.
///
/// A host-compiler error that should underline a whole generated fragment is
/// made to do so by attributing the fragment's first part to the start of the
/// original expression and its last part to the end; the compiler underlines
/// everything in between.
#[derive(Clone, Copy, Debug)]
pub struct FullSpan(pub SrcSpan, pub SrcSpan);

impl FullSpan {
    /// Both ends taken from one span.
    pub fn from_span(span: SrcSpan) -> (r: Self)
        ensures
            r == FullSpan(span, span),
    {
        FullSpan(span, span)
    }

    /// The range of an expression split into its two ends, so that a
    /// generated fragment can be bound to the whole original range: the
    /// fragment's first part takes the start, its last part the end.
    pub fn from_spanned(e: &crate::ast::Expr) -> (r: Self)
        ensures
            r == ({
                let sp = crate::ast::span_of(*e);
                FullSpan(
                    SrcSpan { lo: sp.lo, hi: sp.lo },
                    SrcSpan { lo: sp.hi, hi: sp.hi },
                )
            }),
    {
        let sp = e.span();
        FullSpan(SrcSpan { lo: sp.lo, hi: sp.lo }, SrcSpan { lo: sp.hi, hi: sp.hi })
    }

    /// Attributes `a` to the start position and `b` to the end position, and
    /// concatenates them.
    pub fn apply(self, a: Toks, b: Toks) -> (r: Toks)
        ensures
            r@ == spanned_toks(a@, self.0) + spanned_toks(b@, self.1),
    {
        let mut ret = a.with_span(self.0);
        ret.extend(b.with_span(self.1));
        ret
    }
}

/// A struct field name: either named, or the index of a tuple field.
#[derive(Debug)]
pub enum FieldIdent {
    Named { name: String, span: SrcSpan },
    Index { index: usize, span: SrcSpan },
}

impl FieldIdent {
    /// The field identifier for a tuple-field index.
    pub fn from_index(i: usize, span: SrcSpan) -> (r: FieldIdent)
        ensures
            r == (FieldIdent::Index { index: i, span }),
    {
        FieldIdent::Index { index: i, span }
    }

    /// The text of the field identifier.
    pub open spec fn text_spec(&self) -> Seq<char> {
        match self {
            FieldIdent::Named { name, .. } => name@,
            FieldIdent::Index { index, .. } => dec_str(*index as nat),
        }
    }

    /// Renders the field identifier as text.
    pub fn text(&self) -> (r: String)
        ensures
            r@ == self.text_spec(),
    {
        match self {
            FieldIdent::Named { name, .. } => name.clone(),
            FieldIdent::Index { index, .. } => u64_to_string(*index as u64),
        }
    }

    /// The field identifier as a generated-code fragment.
    pub fn to_toks(&self) -> (r: Toks)
        ensures
            r@ =~= seq![
                (
                    self.text_spec(),
                    match self {
                        FieldIdent::Named { span, .. } => *span,
                        FieldIdent::Index { span, .. } => *span,
                    },
                ),
            ],
    {
        match self {
            FieldIdent::Named { name, span } => Toks::single(name.clone(), *span),
            FieldIdent::Index { index, span } => Toks::single(u64_to_string(*index as u64), *span),
        }
    }
}

/// Every item of the sequence followed by a comma and a space.
pub open spec fn commad(s: Seq<Seq<char>>) -> Seq<char>
    decreases s.len(),
{
    if s.len() == 0 {
        Seq::empty()
    } else {
        commad(s.drop_last()) + s.last() + ", "@
    }
}

/// A list of items as prose: items comma-separated, with "or" before the last
/// one.
pub open spec fn list_items_spec(s: Seq<Seq<char>>) -> Seq<char> {
    if s.len() == 0 {
        Seq::empty()
    } else if s.len() == 1 {
        s[0]
    } else if s.len() == 2 {
        s[0] + " or "@ + s[1]
    } else {
        commad(s.drop_last()) + "or "@ + s.last()
    }
}

/// Formats a list of items as a comma-separated list, with "or" before the
/// last item.
pub fn list_items(items: &Vec<String>) -> (r: String)
    ensures
        r@ == list_items_spec(items.deep_view()),
{
    let ghost dv = items.deep_view();
    proof {
        assert(dv.len() == items@.len());
        assert(forall|i: int| 0 <= i < dv.len() ==> dv[i] == items@[i]@);
    }
    if items.len() == 0 {
        String::new()
    } else if items.len() == 1 {
        items[0].clone()
    } else if items.len() == 2 {
        let mut s = items[0].clone();
        s.append(" or ");
        s.append(items[1].as_str());
        s
    } else {
        let n = items.len();
        let mut s = String::new();
        let mut i: usize = 0;
        while i < n - 1
            invariant
                i <= n - 1,
                n == items@.len(),
                n >= 3,
                dv == items.deep_view(),
                dv.len() == n,
                s@ == commad(dv.subrange(0, i as int)),
            decreases n - i,
        {
            s.append(items[i].as_str());
            s.append(", ");
            proof {
                assert(dv.subrange(0, i + 1).drop_last() =~= dv.subrange(0, i as int));
                assert(dv.subrange(0, i + 1).last() == dv[i as int]);
                assert(s@ =~= commad(dv.subrange(0, i + 1)));
            }
            i = i + 1;
        }
        s.append("or ");
        s.append(items[n - 1].as_str());
        proof {
            assert(dv.subrange(0, n - 1) =~= dv.drop_last());
            assert(s@ =~= commad(dv.drop_last()) + "or "@ + dv.last());
        }
        s
    }
}

} // verus!
