//! Source positions and spans.
//!
//! A [`Pos`] is a place in the source text: line, column, and absolute byte
//! offset. Positions are ordered by offset alone. A [`Span`] is a pair of
//! positions with the start not after the end; two spans from the same source
//! combine with [`Span::union`], which takes the earlier start and the later
//! end.

use vstd::prelude::*;

verus! {

/// Shift an unsigned coordinate by a signed delta, the shared step of
/// [`Pos::map_inc`].
fn add_signed(base: usize, off: isize) -> (r: usize)
    requires
        0 <= base + off <= usize::MAX,
    ensures
        r == base + off,
{
    if off >= 0 {
        base + (off as usize)
    } else if off == isize::MIN {
        base - ((isize::MAX as usize) + 1)
    } else {
        base - ((-off) as usize)
    }
}

/// A position in the source text: line, column, and absolute offset.
#[derive(Debug, Clone, Copy, Eq, PartialEq, Structural)]
pub struct Pos {
    /// Line number, starting at zero.
    pub ln: usize,
    /// Column within the line, starting at zero.
    pub pos: usize,
    /// Absolute offset into the source text; positions are ordered by it.
    pub index: usize,
}

impl Pos {
    pub fn new(ln: usize, pos: usize, index: usize) -> (r: Pos)
        ensures
            r == (Pos { ln, pos, index }),
    {
        Pos { ln, pos, index }
    }

    /// The position before any text: line 0, column 0, offset 0.
    pub fn zero() -> (r: Pos)
        ensures
            r == (Pos { ln: 0usize, pos: 0usize, index: 0usize }),
    {
        Pos { ln: 0, pos: 0, index: 0 }
    }

    /// Advance the raw offset by one without touching line or column, for
    /// bytes that occupy no column of their own.
    #[must_use]
    pub fn bump(self) -> (r: Pos)
        requires
            self.index < usize::MAX,
        ensures
            r == (Pos { index: (self.index + 1) as usize, ..self }),
    {
        Pos { index: self.index + 1, ..self }
    }

    /// Advance one column: column and offset both grow by one.
    #[must_use]
    pub fn inc(self) -> (r: Pos)
        requires
            self.pos < usize::MAX,
            self.index < usize::MAX,
        ensures
            r.ln == self.ln,
            r.pos == self.pos + 1,
            r.index == self.index + 1,
    {
        Pos { ln: self.ln, pos: self.pos + 1, index: self.index + 1 }
    }

    /// Advance one line: the line and offset grow by one and the column
    /// resets to zero.
    #[must_use]
    pub fn lf(self) -> (r: Pos)
        requires
            self.ln < usize::MAX,
            self.index < usize::MAX,
        ensures
            r.ln == self.ln + 1,
            r.pos == 0,
            r.index == self.index + 1,
    {
        Pos { ln: self.ln + 1, pos: 0, index: self.index + 1 }
    }

    /// Advance by an arbitrary signed delta in column, line and offset.
    #[must_use]
    pub fn map_inc(self, pos_offset: isize, ln_offset: isize, index_offset: isize) -> (r: Pos)
        requires
            0 <= self.pos + pos_offset <= usize::MAX,
            0 <= self.ln + ln_offset <= usize::MAX,
            0 <= self.index + index_offset <= usize::MAX,
        ensures
            r.pos == self.pos + pos_offset,
            r.ln == self.ln + ln_offset,
            r.index == self.index + index_offset,
    {
        Pos {
            ln: add_signed(self.ln, ln_offset),
            pos: add_signed(self.pos, pos_offset),
            index: add_signed(self.index, index_offset),
        }
    }

    /// In-place form of [`Pos::inc`].
    pub fn inc_self(&mut self)
        requires
            old(self).pos < usize::MAX,
            old(self).index < usize::MAX,
        ensures
            final(self).ln == old(self).ln,
            final(self).pos == old(self).pos + 1,
            final(self).index == old(self).index + 1,
    {
        self.pos = self.pos + 1;
        self.index = self.index + 1;
    }

    /// In-place form of [`Pos::lf`].
    pub fn lf_self(&mut self)
        requires
            old(self).ln < usize::MAX,
            old(self).index < usize::MAX,
        ensures
            final(self).ln == old(self).ln + 1,
            final(self).pos == 0,
            final(self).index == old(self).index + 1,
    {
        self.pos = 0;
        self.ln = self.ln + 1;
        self.index = self.index + 1;
    }

    /// In-place form of [`Pos::bump`].
    pub fn bump_self(&mut self)
        requires
            old(self).index < usize::MAX,
        ensures
            final(self).ln == old(self).ln,
            final(self).pos == old(self).pos,
            final(self).index == old(self).index + 1,
    {
        self.index = self.index + 1;
    }
}

impl PartialOrd for Pos {
    /// Positions are totally ordered by their offset into the source text
    /// alone; line and column are derived information and do not take part.
    fn partial_cmp(&self, other: &Pos) -> (r: Option<core::cmp::Ordering>) {
        if self.index < other.index {
            Option::Some(core::cmp::Ordering::Less)
        } else if self.index > other.index {
            Option::Some(core::cmp::Ordering::Greater)
        } else {
            Option::Some(core::cmp::Ordering::Equal)
        }
    }
}

impl vstd::std_specs::cmp::PartialOrdSpecImpl for Pos {
    open spec fn obeys_partial_cmp_spec() -> bool {
        true
    }

    open spec fn partial_cmp_spec(&self, other: &Pos) -> Option<core::cmp::Ordering> {
        if self.index < other.index {
            Option::Some(core::cmp::Ordering::Less)
        } else if self.index > other.index {
            Option::Some(core::cmp::Ordering::Greater)
        } else {
            Option::Some(core::cmp::Ordering::Equal)
        }
    }
}

/// A region of the source text: a start and an end position with
/// `start.index <= end.index`.
#[derive(Debug, Clone, Copy, Eq, PartialEq, Structural)]
pub struct Span {
    pub start: Pos,
    pub end: Pos,
}

impl Span {
    /// The invariant every span keeps: the start is not after the end.
    pub open spec fn wf(self) -> bool {
        self.start.index <= self.end.index
    }

    pub fn from(start: Pos, end: Pos) -> (r: Span)
        requires
            start.index <= end.index,
        ensures
            r == (Span { start, end }),
            r.wf(),
    {
        Span { start, end }
    }

    /// A span that covers a single position.
    pub fn point(pos: Pos) -> (r: Span)
        ensures
            r == (Span { start: pos, end: pos }),
            r.wf(),
    {
        Span { start: pos, end: pos }
    }

    /// The span of the very beginning of the source.
    pub fn zero() -> (r: Span)
        ensures
            r.start == (Pos { ln: 0usize, pos: 0usize, index: 0usize }),
            r.end == r.start,
            r.wf(),
    {
        Span { start: Pos::zero(), end: Pos::zero() }
    }

    /// What [`Span::union`] returns: the earlier start and the later end,
    /// positions compared by offset. On equal offsets the earlier start is
    /// taken from `a` and the later end from `b`.
    pub open spec fn spec_union(a: Span, b: Span) -> Span {
        Span {
            start: if b.start.index < a.start.index {
                b.start
            } else {
                a.start
            },
            end: if b.end.index < a.end.index {
                a.end
            } else {
                b.end
            },
        }
    }

    /// Combine two spans into one that covers both, filling any gap between
    /// them. Only meaningful for spans drawn from the same source text.
    pub fn union(self, other: Span) -> (r: Span)
        requires
            self.wf(),
            other.wf(),
        ensures
            r == Span::spec_union(self, other),
            r.wf(),
            r.start.index <= self.start.index,
            r.start.index <= other.start.index,
            r.end.index >= self.end.index,
            r.end.index >= other.end.index,
    {
        let start: Pos = if other.start.index < self.start.index {
            other.start
        } else {
            self.start
        };
        let end: Pos = if other.end.index < self.end.index {
            self.end
        } else {
            other.end
        };
        Span { start, end }
    }
}

/// Uniting spans is commutative wherever equal offsets mean equal positions,
/// which holds of any two spans drawn from the same source text.
pub proof fn lemma_span_union_comm(a: Span, b: Span)
    requires
        a.start.index == b.start.index ==> a.start == b.start,
        a.end.index == b.end.index ==> a.end == b.end,
    ensures
        Span::spec_union(a, b) == Span::spec_union(b, a),
{
}

/// A syntax-tree node that knows the region of source text it came from.
pub trait AstNode {
    fn span(&self) -> Span;
}

} // verus!
