use crate::context::{Context, ContextView};
use crate::parser::{ParseResult, Parser};
use crate::slice::{offset_at, Slice};
use crate::span::Span;
use std::marker::PhantomData;
use vstd::prelude::*;

verus! {

/// A parser that also tells which region of the input it matched.
#[verifier::reject_recursive_types(In)]
#[verifier::reject_recursive_types(Out)]
#[verifier::reject_recursive_types(Error)]
pub struct Spanned<In: Slice, Out, Error, P: Parser<In, Out, Error>> {
    pub parser: P,
    pub _phantom: PhantomData<(In, Out, Error)>,
}

/// What a parser with its span does. The parser runs; its output comes
/// with the span from the offset where it started to the offset where it
/// stopped, and a failure is handed on as it is.
pub open spec fn spanned_run<In: Slice, Out, Error, P: Parser<In, Out, Error>>(
    parser: P,
    pre: ContextView<In::Token, Error>,
    res: Result<(Span<usize>, Out), Option<Error>>,
    post: ContextView<In::Token, Error>,
) -> bool {
    exists|inner: Result<Out, Option<Error>>| #[trigger]
        parser.run(pre, inner, post) && match inner {
            Ok(output) => res == Ok::<(Span<usize>, Out), Option<Error>>(
                (
                    Span::spec_new(
                        offset_at::<In>(pre.input, pre.index) as usize,
                        offset_at::<In>(post.input, post.index) as usize,
                    ),
                    output,
                ),
            ),
            Err(err) => res == Err::<(Span<usize>, Out), Option<Error>>(err),
        }
}

impl<In: Slice, Out, Error, P: Parser<In, Out, Error>> Parser<
    In,
    (Span<usize>, Out),
    Error,
> for Spanned<In, Out, Error, P> {
    open spec fn wf(&self) -> bool {
        self.parser.wf()
    }

    open spec fn run(
        &self,
        pre: ContextView<In::Token, Error>,
        res: Result<(Span<usize>, Out), Option<Error>>,
        post: ContextView<In::Token, Error>,
    ) -> bool {
        spanned_run(self.parser, pre, res, post)
    }

    fn parse(&self, context: &mut Context<In, Error>) -> (res: ParseResult<
        (Span<usize>, Out),
        Error,
    >) {
        let ghost pre = context@;
        let start = context.location();
        let inner = self.parser.parse(context);
        assert(self.parser.run(pre, inner@, context@));
        match inner.to_result() {
            Ok(output) => {
                let span = Span::new(start, context.location());
                ParseResult::ok((span, output))
            },
            Err(err) => ParseResult::err(err),
        }
    }
}

} // verus!
