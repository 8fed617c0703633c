use crate::context::{Context, ContextView};
use crate::parser::{ParseResult, Parser};
use crate::slice::Slice;
use std::marker::PhantomData;
use vstd::prelude::*;

verus! {

/// A parser whose output is passed through a function.
#[verifier::reject_recursive_types(In)]
#[verifier::reject_recursive_types(OA)]
#[verifier::reject_recursive_types(OB)]
#[verifier::reject_recursive_types(Error)]
pub struct Mapped<In, OA, OB, Error, P, F> where
    In: Slice,
    P: Parser<In, OA, Error>,
    F: Fn(OA) -> OB + Copy,
 {
    pub parser: P,
    pub map: F,
    pub _phantom: PhantomData<(In, OA, OB, Error)>,
}

/// What makes a mapped parser one that can be run: the parser can be run,
/// and the function can be called on every output of it.
pub open spec fn mapped_wf<In, OA, OB, Error, P, F>(parser: P, map: F) -> bool where
    In: Slice,
    P: Parser<In, OA, Error>,
    F: Fn(OA) -> OB,
 {
    &&& parser.wf()
    &&& forall|
        pre: ContextView<In::Token, Error>,
        output: OA,
        post: ContextView<In::Token, Error>,
    | #[trigger]
        parser.run(pre, Ok(output), post) ==> call_requires(map, (output,))
}

/// What a mapped parser does. The parser runs; the function is applied to
/// its output, and a failure is handed on as it is.
pub open spec fn mapped_run<In, OA, OB, Error, P, F>(
    parser: P,
    map: F,
    pre: ContextView<In::Token, Error>,
    res: Result<OB, Option<Error>>,
    post: ContextView<In::Token, Error>,
) -> bool where In: Slice, P: Parser<In, OA, Error>, F: Fn(OA) -> OB {
    exists|inner: Result<OA, Option<Error>>| #[trigger]
        parser.run(pre, inner, post) && match inner {
            Ok(output) => res matches Ok(mapped) && call_ensures(map, (output,), mapped),
            Err(err) => res == Err::<OB, Option<Error>>(err),
        }
}

impl<In, OA, OB, Error, P, F> Parser<In, OB, Error> for Mapped<In, OA, OB, Error, P, F> where
    In: Slice,
    P: Parser<In, OA, Error>,
    F: Fn(OA) -> OB + Copy,
 {
    open spec fn wf(&self) -> bool {
        mapped_wf(self.parser, self.map)
    }

    open spec fn run(
        &self,
        pre: ContextView<In::Token, Error>,
        res: Result<OB, Option<Error>>,
        post: ContextView<In::Token, Error>,
    ) -> bool {
        mapped_run(self.parser, self.map, pre, res, post)
    }

    fn parse(&self, context: &mut Context<In, Error>) -> (res: ParseResult<OB, Error>) {
        let ghost pre = context@;
        let inner = self.parser.parse(context);
        assert(self.parser.run(pre, inner@, context@));
        inner.map(self.map)
    }
}

} // verus!
