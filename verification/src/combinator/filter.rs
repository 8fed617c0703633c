use crate::context::{Context, ContextView};
use crate::parser::{ParseResult, Parser};
use crate::slice::Slice;
use std::marker::PhantomData;
use vstd::prelude::*;

verus! {

/// A parser whose output has to pass a test.
#[verifier::reject_recursive_types(In)]
#[verifier::reject_recursive_types(Out)]
#[verifier::reject_recursive_types(Error)]
pub struct Filter<In, Out, Error, P, F> where
    In: Slice,
    P: Parser<In, Out, Error>,
    F: Fn(&Out) -> bool,
 {
    pub parser: P,
    pub filter: F,
    pub _phantom: PhantomData<(In, Out, Error)>,
}

/// What makes a filtered parser one that can be run: the parser can be
/// run, and the test can be applied to every output of it.
pub open spec fn filter_wf<In, Out, Error, P, F>(parser: P, filter: F) -> bool where
    In: Slice,
    P: Parser<In, Out, Error>,
    F: Fn(&Out) -> bool,
 {
    &&& parser.wf()
    &&& forall|
        pre: ContextView<In::Token, Error>,
        output: Out,
        post: ContextView<In::Token, Error>,
    | #[trigger]
        parser.run(pre, Ok(output), post) ==> call_requires(filter, (&output,))
}

/// What a filtered parser does. The parser runs. An output that passes the
/// test is the result. One that does not becomes a silent failure, with the
/// position back where the parser started. A failure is handed on as it is.
pub open spec fn filter_run<In, Out, Error, P, F>(
    parser: P,
    filter: F,
    pre: ContextView<In::Token, Error>,
    res: Result<Out, Option<Error>>,
    post: ContextView<In::Token, Error>,
) -> bool where In: Slice, P: Parser<In, Out, Error>, F: Fn(&Out) -> bool {
    exists|inner: Result<Out, Option<Error>>, mid: ContextView<In::Token, Error>| #[trigger]
        parser.run(pre, inner, mid) && match inner {
            Ok(output) => {
                ||| {
                    &&& call_ensures(filter, (&output,), true)
                    &&& res == inner
                    &&& post == mid
                }
                ||| {
                    &&& call_ensures(filter, (&output,), false)
                    &&& res == Err::<Out, Option<Error>>(None)
                    &&& post == mid.at(pre.index)
                }
            },
            Err(_) => res == inner && post == mid,
        }
}

impl<In, Out, Error, P, F> Parser<In, Out, Error> for Filter<In, Out, Error, P, F> where
    In: Slice,
    P: Parser<In, Out, Error>,
    F: Fn(&Out) -> bool,
 {
    open spec fn wf(&self) -> bool {
        filter_wf(self.parser, self.filter)
    }

    open spec fn run(
        &self,
        pre: ContextView<In::Token, Error>,
        res: Result<Out, Option<Error>>,
        post: ContextView<In::Token, Error>,
    ) -> bool {
        filter_run(self.parser, self.filter, pre, res, post)
    }

    fn parse(&self, context: &mut Context<In, Error>) -> (res: ParseResult<Out, Error>) {
        let ghost pre = context@;
        proof {
            context.lemma_index_in_bounds();
        }
        let start = context.location();
        let inner = self.parser.parse(context);
        let ghost mid = context@;
        assert(self.parser.run(pre, inner@, mid));
        match inner.to_result() {
            Ok(output) => {
                if (self.filter)(&output) {
                    ParseResult::ok(output)
                } else {
                    context.set_location(start);
                    ParseResult::err(None)
                }
            },
            Err(err) => ParseResult::err(err),
        }
    }
}

} // verus!
