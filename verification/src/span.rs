//! Positions in an input and the regions between them.

use std::ops::Range;
use vstd::prelude::*;

verus! {

/// The distance between two positions, whichever comes first.
pub open spec fn gap(a: nat, b: nat) -> nat {
    if a <= b {
        (b - a) as nat
    } else {
        (a - b) as nat
    }
}

/// A position marker: copyable, totally ordered by `position`, and able to
/// tell how far apart two markers are.
pub trait Location: Copy {
    /// The unsigned difference of two locations.
    type Diff: Copy;

    /// Where the marker stands, counted from the start of the input.
    spec fn position(self) -> nat;

    /// The number that a difference stands for.
    spec fn distance(diff: Self::Diff) -> nat;

    /// Two markers at the same position are the same marker.
    proof fn lemma_position_injective(a: Self, b: Self)
        requires
            a.position() == b.position(),
        ensures
            a == b,
    ;

    fn abs_diff(self, other: Self) -> (diff: Self::Diff)
        ensures
            Self::distance(diff) == gap(self.position(), other.position()),
    ;

    /// Whether `self` stands strictly before `other`.
    fn is_before(self, other: Self) -> (before: bool)
        ensures
            before == (self.position() < other.position()),
    ;
}

impl Location for usize {
    type Diff = usize;

    open spec fn position(self) -> nat {
        self as nat
    }

    open spec fn distance(diff: usize) -> nat {
        diff as nat
    }

    proof fn lemma_position_injective(a: usize, b: usize) {
    }

    fn abs_diff(self, other: usize) -> (diff: usize) {
        if self <= other {
            other - self
        } else {
            self - other
        }
    }

    fn is_before(self, other: usize) -> (before: bool) {
        self < other
    }
}

impl Location for u128 {
    type Diff = u128;

    open spec fn position(self) -> nat {
        self as nat
    }

    open spec fn distance(diff: u128) -> nat {
        diff as nat
    }

    proof fn lemma_position_injective(a: u128, b: u128) {
    }

    fn abs_diff(self, other: u128) -> (diff: u128) {
        if self <= other {
            other - self
        } else {
            self - other
        }
    }

    fn is_before(self, other: u128) -> (before: bool) {
        self < other
    }
}

impl Location for u64 {
    type Diff = u64;

    open spec fn position(self) -> nat {
        self as nat
    }

    open spec fn distance(diff: u64) -> nat {
        diff as nat
    }

    proof fn lemma_position_injective(a: u64, b: u64) {
    }

    fn abs_diff(self, other: u64) -> (diff: u64) {
        if self <= other {
            other - self
        } else {
            self - other
        }
    }

    fn is_before(self, other: u64) -> (before: bool) {
        self < other
    }
}

impl Location for u32 {
    type Diff = u32;

    open spec fn position(self) -> nat {
        self as nat
    }

    open spec fn distance(diff: u32) -> nat {
        diff as nat
    }

    proof fn lemma_position_injective(a: u32, b: u32) {
    }

    fn abs_diff(self, other: u32) -> (diff: u32) {
        if self <= other {
            other - self
        } else {
            self - other
        }
    }

    fn is_before(self, other: u32) -> (before: bool) {
        self < other
    }
}

impl Location for u16 {
    type Diff = u16;

    open spec fn position(self) -> nat {
        self as nat
    }

    open spec fn distance(diff: u16) -> nat {
        diff as nat
    }

    proof fn lemma_position_injective(a: u16, b: u16) {
    }

    fn abs_diff(self, other: u16) -> (diff: u16) {
        if self <= other {
            other - self
        } else {
            self - other
        }
    }

    fn is_before(self, other: u16) -> (before: bool) {
        self < other
    }
}

impl Location for u8 {
    type Diff = u8;

    open spec fn position(self) -> nat {
        self as nat
    }

    open spec fn distance(diff: u8) -> nat {
        diff as nat
    }

    proof fn lemma_position_injective(a: u8, b: u8) {
    }

    fn abs_diff(self, other: u8) -> (diff: u8) {
        if self <= other {
            other - self
        } else {
            self - other
        }
    }

    fn is_before(self, other: u8) -> (before: bool) {
        self < other
    }
}

/// A region of the input: where it starts and where it ends, with the end
/// never before the start.
#[derive(Debug)]
pub struct Span<L: Location> {
    start: L,
    end: L,
}

impl<L: Location> Clone for Span<L> {
    fn clone(&self) -> (copy: Self)
        ensures
            copy == *self,
    {
        Span { start: self.start, end: self.end }
    }
}

impl<L: Location> Copy for Span<L> {

}

impl<L: Location> Span<L> {
    /// The position of the first location of the span.
    pub closed spec fn spec_start(self) -> L {
        self.start
    }

    /// The position just behind the span.
    pub closed spec fn spec_end(self) -> L {
        self.end
    }

    /// The end never lies before the start.
    pub closed spec fn wf(self) -> bool {
        self.start.position() <= self.end.position()
    }

    /// The span that `new` makes of two locations.
    pub closed spec fn spec_new(start: L, end: L) -> Self {
        Span {
            start,
            end: if end.position() < start.position() {
                start
            } else {
                end
            },
        }
    }

    /// What `spec_new` makes: the span starts at `start`, and ends at `end`
    /// or, where that lies before `start`, at `start`.
    pub proof fn lemma_spec_new(start: L, end: L)
        ensures
            Self::spec_new(start, end).wf(),
            Self::spec_new(start, end).spec_start() == start,
            Self::spec_new(start, end).spec_end() == (if end.position() < start.position() {
                start
            } else {
                end
            }),
    {
    }

    /// A span is known by where it starts and where it ends.
    pub proof fn lemma_same_span(self, other: Self)
        requires
            self.spec_start() == other.spec_start(),
            self.spec_end() == other.spec_end(),
        ensures
            self == other,
    {
    }

    /// The span from `start` to `end`; an `end` before `start` is raised to
    /// `start`, which gives the empty span there.
    pub fn new(start: L, end: L) -> (span: Self)
        ensures
            span == Self::spec_new(start, end),
            span.wf(),
            span.spec_start() == start,
            span.spec_end() == (if end.position() < start.position() {
                start
            } else {
                end
            }),
    {
        let end = if end.is_before(start) {
            start
        } else {
            end
        };
        Self { start, end }
    }

    pub fn start(&self) -> (start: L)
        ensures
            start == self.spec_start(),
    {
        self.start
    }

    pub fn end(&self) -> (end: L)
        ensures
            end == self.spec_end(),
    {
        self.end
    }

    /// How far the end lies behind the start.
    pub fn len(&self) -> (len: L::Diff)
        ensures
            L::distance(len) == gap(self.spec_start().position(), self.spec_end().position()),
            self.wf() ==> L::distance(len) == self.spec_end().position()
                - self.spec_start().position(),
    {
        self.start.abs_diff(self.end)
    }

    pub fn is_empty(&self) -> (empty: bool)
        ensures
            empty == (self.spec_start() == self.spec_end()),
    {
        proof {
            if self.start.position() == self.end.position() {
                L::lemma_position_injective(self.start, self.end);
            }
        }
        !self.start.is_before(self.end) && !self.end.is_before(self.start)
    }

    pub fn to_range(self) -> (range: Range<L>)
        ensures
            range.start == self.spec_start(),
            range.end == self.spec_end(),
    {
        self.start..self.end
    }
}

/// A span made by `new` is empty exactly when its length is zero.
pub proof fn lemma_empty_span_has_no_length<L: Location>(span: Span<L>)
    requires
        span.wf(),
    ensures
        (span.spec_start() == span.spec_end()) <==> gap(
            span.spec_start().position(),
            span.spec_end().position(),
        ) == 0,
{
    if span.spec_start().position() == span.spec_end().position() {
        L::lemma_position_injective(span.spec_start(), span.spec_end());
    }
}

} // verus!
