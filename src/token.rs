//! Syntax-highlight spans: a byte range of a line with a color and a style.
use vstd::prelude::*;

verus! {

/// Font style of a span.
#[derive(Clone, Copy, Debug, PartialEq, Eq, Structural)]
pub enum TokenStyle {
    Normal,
    Bold,
    Italic,
}

/// A colored, styled half-open byte range `[start, end)` of a line.
#[derive(Clone, Debug, PartialEq, Eq)]
pub struct TokenSpan {
    pub start: usize,
    pub end: usize,
    /// A color such as `#rrggbb`.
    pub color: String,
    pub style: TokenStyle,
}

/// A span as plain values.
pub ghost struct SpanView {
    pub start: int,
    pub end: int,
    pub color: Seq<char>,
    pub style: TokenStyle,
}

impl TokenSpan {
    pub open spec fn view_span(&self) -> SpanView {
        SpanView {
            start: self.start as int,
            end: self.end as int,
            color: self.color@,
            style: self.style,
        }
    }

    /// A copy of the span.
    pub fn duplicate(&self) -> (r: TokenSpan)
        ensures
            r == *self,
    {
        TokenSpan { start: self.start, end: self.end, color: self.color.clone(), style: self.style }
    }
}

/// A copy of a list of spans.
pub fn copy_spans(v: &Vec<TokenSpan>) -> (r: Vec<TokenSpan>)
    ensures
        r@ == v@,
{
    let mut r: Vec<TokenSpan> = Vec::new();
    let mut i: usize = 0;
    while i < v.len()
        invariant
            i <= v@.len(),
            r@ == v@.subrange(0, i as int),
        decreases v@.len() - i,
    {
        r.push(v[i].duplicate());
        i = i + 1;
        assert(r@ =~= v@.subrange(0, i as int));
    }
    assert(v@.subrange(0, v@.len() as int) =~= v@);
    r
}

} // verus!
