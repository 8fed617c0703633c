//! The input model: a cheap, copyable view of what is left of an input.

use vstd::prelude::*;
use vstd::slice::slice_subrange;

verus! {

/// What a view of an input is made of: its elements, and how offsets count
/// them.
///
/// Offsets count in units of `width`: one per element for an array, the
/// number of encoded bytes per character for text.
pub trait Tokens: Sized + Copy {
    type Token: Copy;

    /// The elements of the view, first to last.
    spec fn tokens(&self) -> Seq<Self::Token>;

    /// How many offsets one element takes up.
    spec fn width(token: Self::Token) -> nat;

    /// Every element takes up at least one offset.
    proof fn lemma_width_positive(token: Self::Token)
        ensures
            Self::width(token) >= 1,
    ;
}

/// A view of the rest of an input. It hands out its first element together
/// with the view behind it, and cuts sub-views by offset.
pub trait Slice: Tokens {
    /// The first element and the view of everything behind it.
    fn next(&self) -> (r: Option<(Self::Token, Self)>)
        ensures
            match r {
                Some((token, rest)) => {
                    &&& self.tokens().len() > 0
                    &&& token == self.tokens()[0]
                    &&& rest.tokens() == self.tokens().drop_first()
                },
                None => self.tokens().len() == 0,
            },
    ;

    /// The sub-view between two offsets, where both fall between elements
    /// and `start` is not behind `end`.
    fn slice(&self, start: usize, end: usize) -> (r: Option<Self>)
        ensures
            r is Some <==> {
                &&& start <= end
                &&& is_cut::<Self>(self.tokens(), start as int)
                &&& is_cut::<Self>(self.tokens(), end as int)
            },
            r matches Some(sub) ==> sub.tokens() == self.tokens().subrange(
                index_at::<Self>(self.tokens(), start as int),
                index_at::<Self>(self.tokens(), end as int),
            ),
    ;

    /// The offset just behind the last element.
    fn len(&self) -> (len: usize)
        ensures
            len == extent::<Self>(self.tokens()),
    ;

    fn is_empty(&self) -> (empty: bool)
        ensures
            empty == (self.tokens().len() == 0),
    ;
}

/// The number of offsets that a run of elements takes up.
pub open spec fn extent<S: Tokens>(tokens: Seq<S::Token>) -> nat
    decreases tokens.len(),
{
    if tokens.len() == 0 {
        0
    } else {
        extent::<S>(tokens.drop_last()) + S::width(tokens.last())
    }
}

/// The offset at which the element of index `k` starts.
pub open spec fn offset_at<S: Tokens>(tokens: Seq<S::Token>, k: int) -> nat {
    extent::<S>(tokens.take(k))
}

/// Whether `offset` falls between two elements, or at either end.
pub open spec fn is_cut<S: Tokens>(tokens: Seq<S::Token>, offset: int) -> bool {
    exists|k: int| 0 <= k <= tokens.len() && #[trigger] offset_at::<S>(tokens, k) == offset
}

/// The index of the element that starts at `offset`.
pub open spec fn index_at<S: Tokens>(tokens: Seq<S::Token>, offset: int) -> int {
    choose|k: int| 0 <= k <= tokens.len() && #[trigger] offset_at::<S>(tokens, k) == offset
}

/// The extent of two runs put together is the sum of their extents.
pub proof fn lemma_extent_concat<S: Tokens>(a: Seq<S::Token>, b: Seq<S::Token>)
    ensures
        extent::<S>(a + b) == extent::<S>(a) + extent::<S>(b),
    decreases b.len(),
{
    if b.len() == 0 {
        assert(a + b =~= a);
    } else {
        assert((a + b).drop_last() =~= a + b.drop_last());
        assert((a + b).last() == b.last());
        lemma_extent_concat::<S>(a, b.drop_last());
    }
}

/// A run takes up at least one offset per element.
pub proof fn lemma_extent_at_least_len<S: Tokens>(tokens: Seq<S::Token>)
    ensures
        extent::<S>(tokens) >= tokens.len(),
    decreases tokens.len(),
{
    if tokens.len() > 0 {
        S::lemma_width_positive(tokens.last());
        lemma_extent_at_least_len::<S>(tokens.drop_last());
    }
}

/// Later elements start at later offsets.
pub proof fn lemma_offset_increases<S: Tokens>(tokens: Seq<S::Token>, i: int, j: int)
    requires
        0 <= i <= j <= tokens.len(),
    ensures
        offset_at::<S>(tokens, j) == offset_at::<S>(tokens, i) + extent::<S>(
            tokens.subrange(i, j),
        ),
        offset_at::<S>(tokens, j) - offset_at::<S>(tokens, i) >= j - i,
{
    assert(tokens.take(j) =~= tokens.take(i) + tokens.subrange(i, j));
    lemma_extent_concat::<S>(tokens.take(i), tokens.subrange(i, j));
    lemma_extent_at_least_len::<S>(tokens.subrange(i, j));
}

/// An offset is the start of at most one element, so `index_at` finds the
/// index that an offset was computed from.
pub proof fn lemma_index_at_offset<S: Tokens>(tokens: Seq<S::Token>, k: int)
    requires
        0 <= k <= tokens.len(),
    ensures
        is_cut::<S>(tokens, offset_at::<S>(tokens, k) as int),
        index_at::<S>(tokens, offset_at::<S>(tokens, k) as int) == k,
{
    let offset = offset_at::<S>(tokens, k) as int;
    let found = index_at::<S>(tokens, offset);
    assert(0 <= found <= tokens.len() && offset_at::<S>(tokens, found) == offset);
    if found < k {
        lemma_offset_increases::<S>(tokens, found, k);
    } else if k < found {
        lemma_offset_increases::<S>(tokens, k, found);
    }
}

/// The whole run ends at its extent.
pub proof fn lemma_offset_at_end<S: Tokens>(tokens: Seq<S::Token>)
    ensures
        offset_at::<S>(tokens, tokens.len() as int) == extent::<S>(tokens),
        offset_at::<S>(tokens, 0) == 0,
{
    assert(tokens.take(tokens.len() as int) =~= tokens);
}

/// In an array every element takes up one offset.
pub proof fn lemma_array_extent<'a, T: Copy + 'a>(tokens: Seq<T>)
    ensures
        extent::<&'a [T]>(tokens) == tokens.len(),
    decreases tokens.len(),
{
    if tokens.len() > 0 {
        lemma_array_extent::<T>(tokens.drop_last());
    }
}

/// In an array an offset is a cut exactly when it is within the bounds, and
/// it is then the index itself.
pub proof fn lemma_array_cut<'a, T: Copy + 'a>(tokens: Seq<T>, offset: int)
    ensures
        is_cut::<&'a [T]>(tokens, offset) <==> 0 <= offset <= tokens.len(),
        0 <= offset <= tokens.len() ==> index_at::<&'a [T]>(tokens, offset) == offset,
{
    if 0 <= offset <= tokens.len() {
        lemma_array_extent::<T>(tokens.take(offset));
        assert(offset_at::<&'a [T]>(tokens, offset) == offset);
        lemma_index_at_offset::<&'a [T]>(tokens, offset);
    }
    if is_cut::<&'a [T]>(tokens, offset) {
        let k = index_at::<&'a [T]>(tokens, offset);
        lemma_array_extent::<T>(tokens.take(k));
    }
}

impl<'a, T: Copy> Tokens for &'a [T] {
    type Token = T;

    open spec fn tokens(&self) -> Seq<T> {
        self@
    }

    open spec fn width(token: T) -> nat {
        1
    }

    proof fn lemma_width_positive(token: T) {
    }
}

impl<'a, T: Copy> Slice for &'a [T] {
    fn next(&self) -> (r: Option<(T, Self)>) {
        let count = <[T]>::len(self);
        if count == 0 {
            None
        } else {
            let first = self[0];
            let rest = slice_subrange(*self, 1, count);
            assert(rest@ =~= self@.drop_first());
            Some((first, rest))
        }
    }

    fn slice(&self, start: usize, end: usize) -> (r: Option<Self>) {
        proof {
            lemma_array_cut::<T>(self@, start as int);
            lemma_array_cut::<T>(self@, end as int);
        }
        if start <= end && end <= <[T]>::len(self) {
            Some(slice_subrange(*self, start, end))
        } else {
            None
        }
    }

    fn len(&self) -> (len: usize) {
        proof {
            lemma_array_extent::<T>(self@);
        }
        <[T]>::len(self)
    }

    fn is_empty(&self) -> (empty: bool) {
        <[T]>::len(self) == 0
    }
}

} // verus!
