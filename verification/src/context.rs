//! The state of one parse run: the whole input, what is left of it, and the
//! diagnostics reported so far.

use crate::slice::{
    extent, index_at, is_cut, lemma_extent_concat, lemma_index_at_offset, lemma_offset_at_end,
    offset_at, Slice, Tokens,
};
use vstd::prelude::*;

verus! {

/// What a context holds, as plain values: the elements of the whole input,
/// how many of them have been consumed, and the reported diagnostics.
pub struct ContextView<T, E> {
    pub input: Seq<T>,
    pub index: int,
    pub errors: Seq<E>,
}

impl<T, E> ContextView<T, E> {
    /// The state after one more element has been consumed.
    pub open spec fn advance(self) -> Self {
        ContextView { index: self.index + 1, ..self }
    }

    /// The same state at another position.
    pub open spec fn at(self, index: int) -> Self {
        ContextView { index, ..self }
    }

    /// The state with one more diagnostic.
    pub open spec fn with_report(self, error: E) -> Self {
        ContextView { errors: self.errors.push(error), ..self }
    }

    /// The elements that are still to come.
    pub open spec fn remaining(self) -> Seq<T> {
        self.input.skip(self.index)
    }
}

/// The execution state of a single parse run.
pub struct Context<In: Slice, Error> {
    full: In,
    rest: In,
    errors: Vec<Error>,
}

impl<In: Slice, Error> View for Context<In, Error> {
    type V = ContextView<In::Token, Error>;

    closed spec fn view(&self) -> Self::V {
        ContextView {
            input: self.full.tokens(),
            index: self.full.tokens().len() - self.rest.tokens().len(),
            errors: self.errors@,
        }
    }
}

impl<In: Slice, Error> Context<In, Error> {
    /// What is left is the tail of the whole input from the current index
    /// on, and the offsets of the input fit the machine.
    pub closed spec fn wf(&self) -> bool {
        &&& extent::<In>(self.full.tokens()) <= usize::MAX
        &&& self.rest.tokens().len() <= self.full.tokens().len()
        &&& self.rest.tokens() == self.full.tokens().skip(
            self.full.tokens().len() - self.rest.tokens().len(),
        )
    }

    /// The whole input that the context was made over.
    pub closed spec fn spec_slice(&self) -> In {
        self.full
    }

    /// The offset of the current position.
    pub open spec fn spec_location(&self) -> nat {
        offset_at::<In>(self@.input, self@.index)
    }

    /// The index of a well-formed context lies within its input.
    pub proof fn lemma_index_in_bounds(&self)
        requires
            self.wf(),
        ensures
            0 <= self@.index <= self@.input.len() <= usize::MAX,
            self.spec_slice().tokens() == self@.input,
            is_cut::<In>(self@.input, self.spec_location() as int),
            index_at::<In>(self@.input, self.spec_location() as int) == self@.index,
    {
        lemma_index_at_offset::<In>(self@.input, self@.index);
        crate::slice::lemma_extent_at_least_len::<In>(self@.input);
    }

    /// A context at the start of `slice`, with no diagnostics.
    pub fn new(slice: In) -> (context: Self)
        ensures
            context.wf(),
            context.spec_slice() == slice,
            context@ == (ContextView::<In::Token, Error> {
                input: slice.tokens(),
                index: 0,
                errors: Seq::empty(),
            }),
    {
        // The length is asked for so that the offsets of the input are known to
        // fit a `usize`: a location is the difference of two lengths.
        let _ = slice.len();
        let context = Self { full: slice, rest: slice, errors: Vec::new() };
        assert(slice.tokens().skip(0) =~= slice.tokens());
        context
    }

    /// The whole input, wherever the run stands.
    pub fn slice(&self) -> (slice: In)
        ensures
            slice == self.spec_slice(),
            slice.tokens() == self@.input,
    {
        self.full
    }

    /// The offset of the current position from the start of the input.
    pub fn location(&self) -> (location: usize)
        requires
            self.wf(),
        ensures
            location == self.spec_location(),
    {
        let whole = self.full.len();
        let left = self.rest.len();
        proof {
            let tokens = self.full.tokens();
            let index = tokens.len() - self.rest.tokens().len();
            assert(tokens =~= tokens.take(index) + tokens.skip(index));
            lemma_extent_concat::<In>(tokens.take(index), tokens.skip(index));
        }
        whole - left
    }

    /// Moves the run to the element that starts at `location`. Diagnostics
    /// stay as they are.
    pub fn set_location(&mut self, location: usize)
        requires
            old(self).wf(),
            is_cut::<In>(old(self)@.input, location as int),
        ensures
            final(self).wf(),
            final(self).spec_slice() == old(self).spec_slice(),
            final(self)@ == old(self)@.at(index_at::<In>(old(self)@.input, location as int)),
    {
        let whole = self.full.len();
        proof {
            let tokens = self.full.tokens();
            lemma_offset_at_end::<In>(tokens);
            lemma_index_at_offset::<In>(tokens, tokens.len() as int);
            let k = index_at::<In>(tokens, location as int);
            if k < tokens.len() {
                crate::slice::lemma_offset_increases::<In>(tokens, k, tokens.len() as int);
            }
        }
        match self.full.slice(location, whole) {
            Some(rest) => {
                self.rest = rest;
                proof {
                    let tokens = self.full.tokens();
                    let k = index_at::<In>(tokens, location as int);
                    assert(tokens.subrange(k, tokens.len() as int) =~= tokens.skip(k));
                }
            },
            None => {
                assert(false);
            },
        }
    }

    /// Consumes the next element, if there is one.
    pub fn next(&mut self) -> (token: Option<In::Token>)
        requires
            old(self).wf(),
        ensures
            final(self).wf(),
            final(self).spec_slice() == old(self).spec_slice(),
            match token {
                Some(t) => {
                    &&& 0 <= old(self)@.index < old(self)@.input.len()
                    &&& t == old(self)@.input[old(self)@.index]
                    &&& final(self)@ == old(self)@.advance()
                },
                None => {
                    &&& old(self)@.index == old(self)@.input.len()
                    &&& final(self)@ == old(self)@
                },
            },
    {
        match self.rest.next() {
            Some((token, rest)) => {
                proof {
                    let tokens = self.full.tokens();
                    let index = tokens.len() - self.rest.tokens().len();
                    assert(tokens.skip(index).drop_first() =~= tokens.skip(index + 1));
                }
                self.rest = rest;
                Some(token)
            },
            None => None,
        }
    }

    /// Adds a diagnostic behind those already reported.
    pub fn report(&mut self, error: Error)
        requires
            old(self).wf(),
        ensures
            final(self).wf(),
            final(self).spec_slice() == old(self).spec_slice(),
            final(self)@ == old(self)@.with_report(error),
    {
        self.errors.push(error);
    }

    /// The diagnostics reported so far, oldest first.
    pub fn errors(&self) -> (errors: &[Error])
        ensures
            errors@ == self@.errors,
    {
        self.errors.as_slice()
    }

    /// Ends the run and hands out its diagnostics.
    pub fn into_errors(self) -> (errors: Vec<Error>)
        ensures
            errors@ == self@.errors,
    {
        self.errors
    }
}

} // verus!
