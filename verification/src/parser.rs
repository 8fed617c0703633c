//! The parser contract and the three-way outcome of a parse.

use crate::combinator::drop::{drop_run, Drop};
use crate::combinator::filter::{filter_run, filter_wf, Filter};
use crate::combinator::map::{mapped_run, mapped_wf, Mapped};
use crate::combinator::repeat::{repeat_run, repeat_wf, NoRepeatOutput, Repeat};
use crate::combinator::spanned::{spanned_run, Spanned};
use crate::combinator::to_slice::{to_slice_run, ToSlice};
use crate::span::Span;
use crate::context::{Context, ContextView};
use crate::slice::Slice;
use std::marker::PhantomData;
use vstd::prelude::*;
use vstd::std_specs::convert::FromSpecImpl;

verus! {

/// The outcome of a parse: an output, a silent failure (`Err(None)`: this
/// alternative does not apply), or a failure that carries a diagnostic.
pub struct ParseResult<Out, Error> {
    pub inner: Result<Out, Option<Error>>,
}

impl<Out, Error> View for ParseResult<Out, Error> {
    type V = Result<Out, Option<Error>>;

    open spec fn view(&self) -> Self::V {
        self.inner
    }
}

impl<Out, Error> ParseResult<Out, Error> {
    /// A failure, silent where `err` is `None`.
    pub fn err(err: Option<Error>) -> (result: Self)
        ensures
            result@ == Err::<Out, Option<Error>>(err),
    {
        Self { inner: Err(err) }
    }

    /// A success with `output`.
    pub fn ok(output: Out) -> (result: Self)
        ensures
            result@ == Ok::<Out, Option<Error>>(output),
    {
        Self { inner: Ok(output) }
    }

    pub fn to_result(self) -> (result: Result<Out, Option<Error>>)
        ensures
            result == self@,
    {
        self.inner
    }

    pub fn is_ok(&self) -> (ok: bool)
        ensures
            ok == (self@ is Ok),
    {
        self.inner.is_ok()
    }

    pub fn is_err(&self) -> (err: bool)
        ensures
            err == (self@ is Err),
    {
        self.inner.is_err()
    }

    /// Applies `f` to the output of a success; a failure stays as it is.
    pub fn map<U, F: Fn(Out) -> U>(self, f: F) -> (result: ParseResult<U, Error>)
        requires
            self@ matches Ok(output) ==> call_requires(f, (output,)),
        ensures
            match self@ {
                Ok(output) => result@ matches Ok(mapped) && call_ensures(f, (output,), mapped),
                Err(err) => result@ == Err::<U, Option<Error>>(err),
            },
    {
        match self.inner {
            Ok(output) => ParseResult { inner: Ok(f(output)) },
            Err(err) => ParseResult { inner: Err(err) },
        }
    }
}

impl<Out: Default, Error> From<()> for ParseResult<Out, Error> {
    /// A success with the default output.
    fn from(_value: ()) -> (result: Self)
        ensures
            result@ is Ok,
    {
        Self { inner: Ok(Out::default()) }
    }
}

impl<Out: Default, Error> FromSpecImpl<()> for ParseResult<Out, Error> {
    open spec fn obeys_from_spec() -> bool {
        false
    }

    open spec fn from_spec(value: ()) -> Self {
        arbitrary()
    }
}

impl<Out, Error> From<Option<Out>> for ParseResult<Out, Error> {
    /// A success where there is an output, a silent failure where not.
    fn from(output: Option<Out>) -> (result: Self) {
        match output {
            Some(output) => Self { inner: Ok(output) },
            None => Self { inner: Err(None) },
        }
    }
}

impl<Out, Error> FromSpecImpl<Option<Out>> for ParseResult<Out, Error> {
    open spec fn obeys_from_spec() -> bool {
        true
    }

    open spec fn from_spec(output: Option<Out>) -> Self {
        match output {
            Some(output) => ParseResult { inner: Ok(output) },
            None => ParseResult { inner: Err(None) },
        }
    }
}

impl<Out, Error> From<Result<Out, Error>> for ParseResult<Out, Error> {
    /// A success on `Ok`, a failure with the diagnostic on `Err`.
    fn from(output: Result<Out, Error>) -> (result: Self) {
        match output {
            Ok(output) => Self { inner: Ok(output) },
            Err(err) => Self { inner: Err(Some(err)) },
        }
    }
}

impl<Out, Error> FromSpecImpl<Result<Out, Error>> for ParseResult<Out, Error> {
    open spec fn obeys_from_spec() -> bool {
        true
    }

    open spec fn from_spec(output: Result<Out, Error>) -> Self {
        match output {
            Ok(output) => ParseResult { inner: Ok(output) },
            Err(err) => ParseResult { inner: Err(Some(err)) },
        }
    }
}

/// A parser over the input `In` that gives an `Out` or fails.
///
/// What a parser does is the relation `run`: from the state `pre` it may
/// return `res` and leave the state `post`. Whatever it is, a parser keeps
/// the context well-formed and over the same input, and a success never
/// leaves the position before the point where the parser started.
pub trait Parser<In: Slice, Out, Error> {
    /// What must hold of the parser for it to be run.
    spec fn wf(&self) -> bool;

    /// Whether, started in `pre`, the parser may return `res` and leave `post`.
    spec fn run(
        &self,
        pre: ContextView<In::Token, Error>,
        res: Result<Out, Option<Error>>,
        post: ContextView<In::Token, Error>,
    ) -> bool;

    /// Runs this parser.
    fn parse(&self, context: &mut Context<In, Error>) -> (res: ParseResult<Out, Error>)
        requires
            self.wf(),
            old(context).wf(),
        ensures
            final(context).wf(),
            final(context).spec_slice() == old(context).spec_slice(),
            final(context)@.input == old(context)@.input,
            res@ is Ok ==> old(context)@.index <= final(context)@.index,
            self.run(old(context)@, res@, final(context)@),
    ;

    /// Runs this parser once over the whole of `input`, from its start.
    ///
    /// Gives the output, where the parser succeeded, and every diagnostic of
    /// the run in the order of the reports; the diagnostic that a failure
    /// carries comes last.
    fn parse_input(&self, input: In) -> (outcome: (Option<Out>, Vec<Error>)) where Self: Sized
        requires
            self.wf(),
        ensures
            exists|res: Result<Out, Option<Error>>, post: ContextView<In::Token, Error>|
                {
                    &&& #[trigger] self.run(start_of(input.tokens()), res, post)
                    &&& outcome.0 == output_of(res)
                    &&& outcome.1@ == diagnostics_of(res, post.errors)
                },
    {
        let mut context = Context::new(input);
        let ghost pre = context@;
        let res = self.parse(&mut context);
        let ghost post = context@;
        assert(pre == start_of::<In::Token, Error>(input.tokens()));
        assert(self.run(pre, res@, post));
        match res.to_result() {
            Ok(output) => (Some(output), context.into_errors()),
            Err(None) => (None, context.into_errors()),
            Err(Some(error)) => {
                context.report(error);
                (None, context.into_errors())
            },
        }
    }
}

/// The combinators that every parser has.
pub trait ParserExt<In: Slice, Out, Error>: Parser<In, Out, Error> + Sized {
    /// Map the output of this parser to some other value.
    fn map<F, OutB>(self, f: F) -> (mapped: Mapped<In, Out, OutB, Error, Self, F>) where
        F: Fn(Out) -> OutB + Copy,

        ensures
            mapped.parser == self,
            mapped.map == f,
            mapped.wf() <==> mapped_wf(self, f),
            forall|
                pre: ContextView<In::Token, Error>,
                res: Result<OutB, Option<Error>>,
                post: ContextView<In::Token, Error>,
            | #[trigger]
                mapped.run(pre, res, post) <==> mapped_run(self, f, pre, res, post),
    {
        Mapped { parser: self, map: f, _phantom: PhantomData }
    }

    /// Decide whether to accept an output.
    fn filter<F>(self, f: F) -> (filtered: Filter<In, Out, Error, Self, F>) where
        F: Fn(&Out) -> bool,

        ensures
            filtered.parser == self,
            filtered.filter == f,
            filtered.wf() <==> filter_wf(self, f),
            forall|
                pre: ContextView<In::Token, Error>,
                res: Result<Out, Option<Error>>,
                post: ContextView<In::Token, Error>,
            | #[trigger]
                filtered.run(pre, res, post) <==> filter_run(self, f, pre, res, post),
    {
        Filter { parser: self, filter: f, _phantom: PhantomData }
    }

    /// Convert the output of this parser to `()`.
    fn drop(self) -> (dropped: Drop<In, Out, Error, Self>)
        ensures
            dropped.parser == self,
            dropped.wf() <==> self.wf(),
            forall|
                pre: ContextView<In::Token, Error>,
                res: Result<(), Option<Error>>,
                post: ContextView<In::Token, Error>,
            | #[trigger]
                dropped.run(pre, res, post) <==> drop_run(self, pre, res, post),
    {
        Drop { parser: self, _phantom: PhantomData }
    }

    /// Repeat this parser.
    ///
    /// The number of repetitions to match can be configured by calling `min`
    /// and `max`.
    ///
    /// Has no output by default. To output as a collection, call `collect` on
    /// it.
    fn repeat(self) -> (repeated: Repeat<In, Out, Error, Self, NoRepeatOutput>)
        ensures
            repeated.parser == self,
            repeated.min == 0,
            repeated.max is None,
            repeated.wf() <==> repeat_wf(self, None),
            forall|
                pre: ContextView<In::Token, Error>,
                res: Result<NoRepeatOutput, Option<Error>>,
                post: ContextView<In::Token, Error>,
            | #[trigger]
                repeated.run(pre, res, post) <==> repeat_run(self, 0, None, pre, res, post),
    {
        Repeat { parser: self, min: 0, max: None, _phantom: PhantomData }
    }

    /// Get the span of the matched input.
    ///
    /// Has an output of form `(span, output)`.
    fn spanned(self) -> (spanned: Spanned<In, Out, Error, Self>)
        ensures
            spanned.parser == self,
            spanned.wf() <==> self.wf(),
            forall|
                pre: ContextView<In::Token, Error>,
                res: Result<(Span<usize>, Out), Option<Error>>,
                post: ContextView<In::Token, Error>,
            | #[trigger]
                spanned.run(pre, res, post) <==> spanned_run(self, pre, res, post),
    {
        Spanned { parser: self, _phantom: PhantomData }
    }

    /// Convert the output to a slice of the matched input.
    fn to_slice(self) -> (sliced: ToSlice<In, Out, Error, Self>)
        ensures
            sliced.parser == self,
            sliced.wf() <==> self.wf(),
            forall|
                pre: ContextView<In::Token, Error>,
                res: Result<In, Option<Error>>,
                post: ContextView<In::Token, Error>,
            | #[trigger]
                sliced.run(pre, res, post) <==> to_slice_run(self, pre, res, post),
    {
        ToSlice { parser: self, _phantom: PhantomData }
    }
}

impl<In: Slice, Out, Error, P: Parser<In, Out, Error>> ParserExt<In, Out, Error> for P {

}

/// The state in which a run over `input` starts.
pub open spec fn start_of<T, E>(input: Seq<T>) -> ContextView<T, E> {
    ContextView { input, index: 0, errors: Seq::empty() }
}

/// The output that a finished run hands to its caller.
pub open spec fn output_of<Out, Error>(res: Result<Out, Option<Error>>) -> Option<Out> {
    match res {
        Ok(output) => Some(output),
        Err(_) => None,
    }
}

/// The diagnostics that a finished run hands to its caller: those reported
/// during the run, and behind them the one that the failure carries.
pub open spec fn diagnostics_of<Out, Error>(
    res: Result<Out, Option<Error>>,
    reported: Seq<Error>,
) -> Seq<Error> {
    match res {
        Err(Some(error)) => reported.push(error),
        _ => reported,
    }
}

/// Whether a failure of `parser` always leaves the position where the
/// parser found it.
pub open spec fn rewinds<In: Slice, Out, Error, P: Parser<In, Out, Error>>(parser: P) -> bool {
    forall|
        pre: ContextView<In::Token, Error>,
        res: Result<Out, Option<Error>>,
        post: ContextView<In::Token, Error>,
    | #[trigger]
        parser.run(pre, res, post) && res is Err ==> post.index == pre.index
}

} // verus!
