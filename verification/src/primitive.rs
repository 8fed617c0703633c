//! The parsers that everything else is built from.

use crate::context::{Context, ContextView};
use crate::parser::{ParseResult, Parser};
use crate::slice::Slice;
use std::marker::PhantomData;
use vstd::prelude::*;

verus! {

/// Parse any token.
pub fn any<In: Slice, Error>() -> (parser: Any<In, Error>)
    ensures
        parser.wf(),
{
    Any { _phantom: PhantomData }
}

#[verifier::reject_recursive_types(In)]
#[verifier::reject_recursive_types(Error)]
pub struct Any<In: Slice, Error> {
    _phantom: PhantomData<(In, Error)>,
}

impl<In: Slice, Error> Clone for Any<In, Error> {
    fn clone(&self) -> (copy: Self)
        ensures
            copy == *self,
    {
        Any { _phantom: PhantomData }
    }
}

impl<In: Slice, Error> Copy for Any<In, Error> {

}

/// What `any` does: it takes the next element, or fails silently at the end
/// of the input without moving.
pub open spec fn any_run<T, E>(
    pre: ContextView<T, E>,
    res: Result<T, Option<E>>,
    post: ContextView<T, E>,
) -> bool {
    match res {
        Ok(token) => {
            &&& 0 <= pre.index < pre.input.len()
            &&& token == pre.input[pre.index]
            &&& post == pre.advance()
        },
        Err(err) => {
            &&& err is None
            &&& pre.index == pre.input.len()
            &&& post == pre
        },
    }
}

impl<In: Slice, Error> Parser<In, In::Token, Error> for Any<In, Error> {
    open spec fn wf(&self) -> bool {
        true
    }

    open spec fn run(
        &self,
        pre: ContextView<In::Token, Error>,
        res: Result<In::Token, Option<Error>>,
        post: ContextView<In::Token, Error>,
    ) -> bool {
        any_run(pre, res, post)
    }

    #[inline]
    fn parse(&self, context: &mut Context<In, Error>) -> (res: ParseResult<In::Token, Error>) {
        match context.next() {
            Some(token) => ParseResult::ok(token),
            None => ParseResult::err(None),
        }
    }
}

/// Don't do anything, just output `()`.
pub fn nothing<In: Slice, Error>() -> (parser: Nothing<In, Error>)
    ensures
        parser.wf(),
{
    Nothing { _phantom: PhantomData }
}

#[verifier::reject_recursive_types(In)]
#[verifier::reject_recursive_types(Error)]
pub struct Nothing<In: Slice, Error> {
    _phantom: PhantomData<(In, Error)>,
}

impl<In: Slice, Error> Clone for Nothing<In, Error> {
    fn clone(&self) -> (copy: Self)
        ensures
            copy == *self,
    {
        Nothing { _phantom: PhantomData }
    }
}

impl<In: Slice, Error> Copy for Nothing<In, Error> {

}

impl<In: Slice, Error> Parser<In, (), Error> for Nothing<In, Error> {
    open spec fn wf(&self) -> bool {
        true
    }

    open spec fn run(
        &self,
        pre: ContextView<In::Token, Error>,
        res: Result<(), Option<Error>>,
        post: ContextView<In::Token, Error>,
    ) -> bool {
        res == Ok::<(), Option<Error>>(()) && post == pre
    }

    fn parse(&self, context: &mut Context<In, Error>) -> (res: ParseResult<(), Error>) {
        ParseResult::ok(())
    }
}

/// Parse a token if it matches a predicate.
pub fn pred<In: Slice, Error, F>(predicate: F) -> (parser: Pred<In, Error, F>) where
    F: Fn(In::Token) -> bool + Copy,

    ensures
        parser.pred == predicate,
        parser.wf() <==> forall|token: In::Token| call_requires(predicate, (token,)),
        forall|
            pre: ContextView<In::Token, Error>,
            res: Result<In::Token, Option<Error>>,
            post: ContextView<In::Token, Error>,
        | #[trigger]
            parser.run(pre, res, post) <==> pred_run(predicate, pre, res, post),
{
    Pred { pred: predicate, _phantom: PhantomData }
}

/// What `pred` does with the test `predicate`. The next element is taken
/// where the test holds of it; where it does not, or at the end of the
/// input, the parser fails silently without moving.
pub open spec fn pred_run<T, E, F: Fn(T) -> bool>(
    predicate: F,
    pre: ContextView<T, E>,
    res: Result<T, Option<E>>,
    post: ContextView<T, E>,
) -> bool {
    match res {
        Ok(token) => {
            &&& 0 <= pre.index < pre.input.len()
            &&& token == pre.input[pre.index]
            &&& call_ensures(predicate, (token,), true)
            &&& post == pre.advance()
        },
        Err(err) => {
            &&& err is None
            &&& post == pre
            &&& 0 <= pre.index <= pre.input.len()
            &&& pre.index < pre.input.len() ==> call_ensures(
                predicate,
                (pre.input[pre.index],),
                false,
            )
        },
    }
}

#[verifier::reject_recursive_types(In)]
#[verifier::reject_recursive_types(Error)]
pub struct Pred<In, Error, F> where In: Slice, F: Fn(In::Token) -> bool + Copy {
    pub pred: F,
    pub _phantom: PhantomData<(In, Error)>,
}

impl<In, Error, F> Clone for Pred<In, Error, F> where In: Slice, F: Fn(In::Token) -> bool + Copy {
    fn clone(&self) -> (copy: Self)
        ensures
            copy.pred == self.pred,
    {
        Pred { pred: self.pred, _phantom: PhantomData }
    }
}

impl<In, Error, F> Copy for Pred<In, Error, F> where In: Slice, F: Fn(In::Token) -> bool + Copy {

}

impl<In, Error, F> Parser<In, In::Token, Error> for Pred<In, Error, F> where
    In: Slice,
    F: Fn(In::Token) -> bool + Copy,
 {
    /// The predicate can be asked of every element.
    open spec fn wf(&self) -> bool {
        forall|token: In::Token| call_requires(self.pred, (token,))
    }

    open spec fn run(
        &self,
        pre: ContextView<In::Token, Error>,
        res: Result<In::Token, Option<Error>>,
        post: ContextView<In::Token, Error>,
    ) -> bool {
        pred_run(self.pred, pre, res, post)
    }

    fn parse(&self, context: &mut Context<In, Error>) -> (res: ParseResult<In::Token, Error>) {
        proof {
            context.lemma_index_in_bounds();
        }
        let start = context.location();

        match context.next() {
            Some(token) => {
                if (self.pred)(token) {
                    ParseResult::ok(token)
                } else {
                    context.set_location(start);
                    ParseResult::err(None)
                }
            },
            None => {
                context.set_location(start);
                ParseResult::err(None)
            },
        }
    }
}

/// Elements that can be told apart when a parser runs.
pub trait TokenEq: Copy {
    /// Whether the two are the same element.
    fn same(self, other: Self) -> (same: bool)
        ensures
            same == (self == other),
    ;
}

impl TokenEq for char {
    fn same(self, other: char) -> (same: bool) {
        self == other
    }
}

impl TokenEq for bool {
    fn same(self, other: bool) -> (same: bool) {
        self == other
    }
}

impl TokenEq for u8 {
    fn same(self, other: u8) -> (same: bool) {
        self == other
    }
}

impl TokenEq for u16 {
    fn same(self, other: u16) -> (same: bool) {
        self == other
    }
}

impl TokenEq for u32 {
    fn same(self, other: u32) -> (same: bool) {
        self == other
    }
}

impl TokenEq for u64 {
    fn same(self, other: u64) -> (same: bool) {
        self == other
    }
}

impl TokenEq for u128 {
    fn same(self, other: u128) -> (same: bool) {
        self == other
    }
}

impl TokenEq for usize {
    fn same(self, other: usize) -> (same: bool) {
        self == other
    }
}

impl TokenEq for i8 {
    fn same(self, other: i8) -> (same: bool) {
        self == other
    }
}

impl TokenEq for i16 {
    fn same(self, other: i16) -> (same: bool) {
        self == other
    }
}

impl TokenEq for i32 {
    fn same(self, other: i32) -> (same: bool) {
        self == other
    }
}

impl TokenEq for i64 {
    fn same(self, other: i64) -> (same: bool) {
        self == other
    }
}

impl TokenEq for i128 {
    fn same(self, other: i128) -> (same: bool) {
        self == other
    }
}

impl TokenEq for isize {
    fn same(self, other: isize) -> (same: bool) {
        self == other
    }
}

/// Match a single token.
pub fn just<In: Slice, Error>(token: In::Token) -> (parser: Just<In, Error>) where
    In::Token: TokenEq,

    ensures
        parser.token == token,
        parser.wf(),
{
    Just { token, _phantom: PhantomData }
}

#[verifier::reject_recursive_types(In)]
#[verifier::reject_recursive_types(Error)]
pub struct Just<In: Slice, Error> where In::Token: TokenEq {
    pub token: In::Token,
    pub _phantom: PhantomData<(In, Error)>,
}

impl<In: Slice, Error> Clone for Just<In, Error> where In::Token: TokenEq {
    fn clone(&self) -> (copy: Self)
        ensures
            copy.token == self.token,
    {
        Just { token: self.token, _phantom: PhantomData }
    }
}

impl<In: Slice, Error> Copy for Just<In, Error> where In::Token: TokenEq {

}

/// What `just` does with `token`. The next element is taken where it is the
/// token; where it is not, or at the end of the input, the parser fails
/// silently without moving.
pub open spec fn just_run<T, E>(
    token: T,
    pre: ContextView<T, E>,
    res: Result<T, Option<E>>,
    post: ContextView<T, E>,
) -> bool {
    match res {
        Ok(found) => {
            &&& 0 <= pre.index < pre.input.len()
            &&& found == token
            &&& pre.input[pre.index] == token
            &&& post == pre.advance()
        },
        Err(err) => {
            &&& err is None
            &&& post == pre
            &&& 0 <= pre.index <= pre.input.len()
            &&& pre.index < pre.input.len() ==> pre.input[pre.index] != token
        },
    }
}

impl<In: Slice, Error> Parser<In, In::Token, Error> for Just<In, Error> where
    In::Token: TokenEq,
 {
    open spec fn wf(&self) -> bool {
        true
    }

    open spec fn run(
        &self,
        pre: ContextView<In::Token, Error>,
        res: Result<In::Token, Option<Error>>,
        post: ContextView<In::Token, Error>,
    ) -> bool {
        just_run(self.token, pre, res, post)
    }

    fn parse(&self, context: &mut Context<In, Error>) -> (res: ParseResult<In::Token, Error>) {
        proof {
            context.lemma_index_in_bounds();
        }
        let start = context.location();

        match context.next() {
            Some(token) => {
                if token.same(self.token) {
                    ParseResult::ok(token)
                } else {
                    context.set_location(start);
                    ParseResult::err(None)
                }
            },
            None => {
                context.set_location(start);
                ParseResult::err(None)
            },
        }
    }
}

/// Construct a parser from a function.
///
/// The function takes the context of the run and gives it back, moved on
/// as far as it consumed, together with its outcome.
pub fn func<In, Out, Error, F>(f: F) -> (parser: FuncParser<In, Out, Error, F>) where
    In: Slice,
    F: Fn(Context<In, Error>) -> (ParseResult<Out, Error>, Context<In, Error>),

    ensures
        parser.func == f,
        parser.wf() <==> func_wf(f),
        forall|
            pre: ContextView<In::Token, Error>,
            res: Result<Out, Option<Error>>,
            post: ContextView<In::Token, Error>,
        | #[trigger]
            parser.run(pre, res, post) <==> func_run(f, pre, res, post),
{
    FuncParser { func: f, _phantom: PhantomData }
}

/// What makes a function a parser: it can be called on every well-formed
/// context, and gives back a well-formed context over the same input,
/// which a success has not moved backwards.
pub open spec fn func_wf<In, Out, Error, F>(f: F) -> bool where
    In: Slice,
    F: Fn(Context<In, Error>) -> (ParseResult<Out, Error>, Context<In, Error>),
 {
    &&& forall|context: Context<In, Error>| context.wf() ==> call_requires(f, (context,))
    &&& forall|context: Context<In, Error>, given: (ParseResult<Out, Error>, Context<In, Error>)|
        context.wf() && #[trigger] call_ensures(f, (context,), given) ==> {
            &&& given.1.wf()
            &&& given.1.spec_slice() == context.spec_slice()
            &&& given.0@ is Ok ==> context@.index <= given.1@.index
        }
}

/// What a function does as a parser: whatever it may give on a context in
/// the state `pre`.
pub open spec fn func_run<In, Out, Error, F>(
    f: F,
    pre: ContextView<In::Token, Error>,
    res: Result<Out, Option<Error>>,
    post: ContextView<In::Token, Error>,
) -> bool where
    In: Slice,
    F: Fn(Context<In, Error>) -> (ParseResult<Out, Error>, Context<In, Error>),
 {
    exists|context: Context<In, Error>, given: (ParseResult<Out, Error>, Context<In, Error>)|
        {
            &&& context.wf()
            &&& context@ == pre
            &&& given.0@ == res
            &&& given.1@ == post
            &&& #[trigger] call_ensures(f, (context,), given)
        }
}

#[verifier::reject_recursive_types(In)]
#[verifier::reject_recursive_types(Out)]
#[verifier::reject_recursive_types(Error)]
pub struct FuncParser<In, Out, Error, F> where
    In: Slice,
    F: Fn(Context<In, Error>) -> (ParseResult<Out, Error>, Context<In, Error>),
 {
    pub func: F,
    pub _phantom: PhantomData<(In, Out, Error)>,
}

impl<In, Out, Error, F> Parser<In, Out, Error> for FuncParser<In, Out, Error, F> where
    In: Slice,
    F: Fn(Context<In, Error>) -> (ParseResult<Out, Error>, Context<In, Error>),
 {
    open spec fn wf(&self) -> bool {
        func_wf(self.func)
    }

    open spec fn run(
        &self,
        pre: ContextView<In::Token, Error>,
        res: Result<Out, Option<Error>>,
        post: ContextView<In::Token, Error>,
    ) -> bool {
        func_run(self.func, pre, res, post)
    }

    fn parse(&self, context: &mut Context<In, Error>) -> (res: ParseResult<Out, Error>) {
        let mut taken = Context::new(context.slice());
        core::mem::swap(&mut taken, context);
        proof {
            taken.lemma_index_in_bounds();
        }
        let (res, next) = (self.func)(taken);
        proof {
            next.lemma_index_in_bounds();
        }
        *context = next;
        res
    }
}

} // verus!
