use crate::context::{Context, ContextView};
use crate::parser::{ParseResult, Parser};
use crate::slice::{lemma_index_at_offset, lemma_offset_increases, Slice};
use std::marker::PhantomData;
use vstd::prelude::*;

verus! {

/// A parser that gives the part of the input that it matched.
#[verifier::reject_recursive_types(In)]
#[verifier::reject_recursive_types(Out)]
#[verifier::reject_recursive_types(Error)]
pub struct ToSlice<In: Slice, Out, Error, P: Parser<In, Out, Error>> {
    pub parser: P,
    pub _phantom: PhantomData<(In, Out, Error)>,
}

/// What a parser does that gives the matched input. The parser runs; on a
/// success the result is the view of the input between the positions where
/// it started and where it stopped, whatever its own output was. A failure
/// is handed on as it is.
pub open spec fn to_slice_run<In: Slice, Out, Error, P: Parser<In, Out, Error>>(
    parser: P,
    pre: ContextView<In::Token, Error>,
    res: Result<In, Option<Error>>,
    post: ContextView<In::Token, Error>,
) -> bool {
    exists|inner: Result<Out, Option<Error>>| #[trigger]
        parser.run(pre, inner, post) && match inner {
            Ok(_) => res matches Ok(matched) && matched.tokens() == pre.input.subrange(
                pre.index,
                post.index,
            ),
            Err(err) => res == Err::<In, Option<Error>>(err),
        }
}

impl<In: Slice, Out, Error, P: Parser<In, Out, Error>> Parser<In, In, Error> for ToSlice<
    In,
    Out,
    Error,
    P,
> {
    open spec fn wf(&self) -> bool {
        self.parser.wf()
    }

    open spec fn run(
        &self,
        pre: ContextView<In::Token, Error>,
        res: Result<In, Option<Error>>,
        post: ContextView<In::Token, Error>,
    ) -> bool {
        to_slice_run(self.parser, pre, res, post)
    }

    fn parse(&self, context: &mut Context<In, Error>) -> (res: ParseResult<In, Error>) {
        let ghost pre = context@;
        proof {
            context.lemma_index_in_bounds();
        }
        let start = context.location();
        let inner = self.parser.parse(context);
        assert(self.parser.run(pre, inner@, context@));
        match inner.to_result() {
            Ok(_) => {
                let end = context.location();
                proof {
                    context.lemma_index_in_bounds();
                    lemma_offset_increases::<In>(pre.input, pre.index, context@.index);
                    lemma_index_at_offset::<In>(pre.input, pre.index);
                    lemma_index_at_offset::<In>(pre.input, context@.index);
                }
                match context.slice().slice(start, end) {
                    Some(matched) => ParseResult::ok(matched),
                    None => {
                        assert(false);
                        ParseResult::err(None)
                    },
                }
            },
            Err(err) => ParseResult::err(err),
        }
    }
}

} // verus!
