use crate::context::{Context, ContextView};
use crate::parser::{ParseResult, Parser};
use crate::slice::Slice;
use std::marker::PhantomData;
use vstd::prelude::*;

verus! {

/// A parser whose output is thrown away.
#[verifier::reject_recursive_types(In)]
#[verifier::reject_recursive_types(Out)]
#[verifier::reject_recursive_types(Error)]
pub struct Drop<In, Out, Error, P> where In: Slice, P: Parser<In, Out, Error> {
    pub parser: P,
    pub _phantom: PhantomData<(In, Out, Error)>,
}

/// What a parser does whose output is dropped. The parser runs; a success
/// gives `()`, and a failure is handed on as it is.
pub open spec fn drop_run<In: Slice, Out, Error, P: Parser<In, Out, Error>>(
    parser: P,
    pre: ContextView<In::Token, Error>,
    res: Result<(), Option<Error>>,
    post: ContextView<In::Token, Error>,
) -> bool {
    exists|inner: Result<Out, Option<Error>>| #[trigger]
        parser.run(pre, inner, post) && match inner {
            Ok(_) => res == Ok::<(), Option<Error>>(()),
            Err(err) => res == Err::<(), Option<Error>>(err),
        }
}

impl<In, Out, Error, P> Parser<In, (), Error> for Drop<In, Out, Error, P> where
    In: Slice,
    P: Parser<In, Out, Error>,
 {
    open spec fn wf(&self) -> bool {
        self.parser.wf()
    }

    open spec fn run(
        &self,
        pre: ContextView<In::Token, Error>,
        res: Result<(), Option<Error>>,
        post: ContextView<In::Token, Error>,
    ) -> bool {
        drop_run(self.parser, pre, res, post)
    }

    fn parse(&self, context: &mut Context<In, Error>) -> (res: ParseResult<(), Error>) {
        let ghost pre = context@;
        let inner = self.parser.parse(context);
        assert(self.parser.run(pre, inner@, context@));
        match inner.to_result() {
            Ok(_) => ParseResult::ok(()),
            Err(err) => ParseResult::err(err),
        }
    }
}

} // verus!
