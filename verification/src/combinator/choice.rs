use crate::context::{Context, ContextView};
use crate::parser::{ParseResult, Parser};
use crate::slice::Slice;
use std::marker::PhantomData;
use vstd::prelude::*;

verus! {

/// A parser that tries to parse one of a tuple of parsers.
pub fn choice<In: Slice, Out, Error, P: ChoiceParsers<In, Out, Error>>(parsers: P) -> (parser:
    Choice<In, Out, Error, P>)
    ensures
        parser.parsers == parsers,
{
    Choice { parsers, _phantom: PhantomData }
}

#[verifier::reject_recursive_types(In)]
#[verifier::reject_recursive_types(Out)]
#[verifier::reject_recursive_types(Error)]
pub struct Choice<In: Slice, Out, Error, Parsers: ChoiceParsers<In, Out, Error>> {
    pub parsers: Parsers,
    pub _phantom: PhantomData<(In, Out, Error)>,
}

impl<In: Slice, Out, Error, Parsers: ChoiceParsers<In, Out, Error>> Parser<
    In,
    Out,
    Error,
> for Choice<In, Out, Error, Parsers> {
    open spec fn wf(&self) -> bool {
        self.parsers.all_wf()
    }

    open spec fn run(
        &self,
        pre: ContextView<In::Token, Error>,
        res: Result<Out, Option<Error>>,
        post: ContextView<In::Token, Error>,
    ) -> bool {
        self.parsers.choice_run(pre, res, post)
    }

    fn parse(&self, context: &mut Context<In, Error>) -> (res: ParseResult<Out, Error>) {
        self.parsers.parse_choice(context)
    }
}

/// A tuple of [`Parser`]s, to be passed to [`choice`].
///
/// Currently implemented for tuples of up to 8 elements.
pub trait ChoiceParsers<In: Slice, Out, Error> {
    /// Every parser of the tuple can be run.
    spec fn all_wf(&self) -> bool;

    /// The parsers are tried in order, each from the position where the
    /// choice started. The first success is the result, with the position
    /// where that parser left it. Where every parser fails, the choice
    /// fails silently at the position where it started. What the failed
    /// parsers reported stays.
    spec fn choice_run(
        &self,
        pre: ContextView<In::Token, Error>,
        res: Result<Out, Option<Error>>,
        post: ContextView<In::Token, Error>,
    ) -> bool;

    /// A choice fails only silently, and only at the position where it
    /// started.
    proof fn lemma_choice_failure(
        &self,
        pre: ContextView<In::Token, Error>,
        res: Result<Out, Option<Error>>,
        post: ContextView<In::Token, Error>,
    )
        requires
            self.choice_run(pre, res, post),
            res is Err,
        ensures
            res == Err::<Out, Option<Error>>(None),
            post.index == pre.index,
    ;

    fn parse_choice(&self, context: &mut Context<In, Error>) -> (res: ParseResult<Out, Error>)
        requires
            self.all_wf(),
            old(context).wf(),
        ensures
            final(context).wf(),
            final(context).spec_slice() == old(context).spec_slice(),
            final(context)@.input == old(context)@.input,
            res@ is Ok ==> old(context)@.index <= final(context)@.index,
            self.choice_run(old(context)@, res@, final(context)@),
    ;
}

/// Runs one alternative. A success is handed out as it is; after a failure
/// the position is back where the alternative started. The ghost result is
/// the state in which the parser itself stopped.
fn attempt<In: Slice, Out, Error, P: Parser<In, Out, Error>>(
    parser: &P,
    context: &mut Context<In, Error>,
) -> (tried: (ParseResult<Out, Error>, Ghost<ContextView<In::Token, Error>>))
    requires
        parser.wf(),
        old(context).wf(),
    ensures
        final(context).wf(),
        final(context).spec_slice() == old(context).spec_slice(),
        final(context)@.input == old(context)@.input,
        parser.run(old(context)@, tried.0@, tried.1@),
        tried.0@ is Ok ==> old(context)@.index <= final(context)@.index && final(context)@
            == tried.1@,
        tried.0@ is Err ==> final(context)@ == tried.1@.at(old(context)@.index),
{
    proof {
        context.lemma_index_in_bounds();
    }
    let start = context.location();
    let result = parser.parse(context);
    let ghost stopped = context@;
    if result.is_err() {
        context.set_location(start);
    }
    (result, Ghost(stopped))
}

impl<In, Out, Error, A> ChoiceParsers<In, Out, Error> for (A,) where
    In: Slice,
    A: Parser<In, Out, Error>,
 {
    open spec fn all_wf(&self) -> bool {
        &&& self.0.wf()
    }

    open spec fn choice_run(
        &self,
        pre: ContextView<In::Token, Error>,
        res: Result<Out, Option<Error>>,
        post: ContextView<In::Token, Error>,
    ) -> bool {
        exists|tried: Result<Out, Option<Error>>, mid: ContextView<In::Token, Error>| #[trigger]
            self.0.run(pre, tried, mid) && match tried {
                Ok(_) => res == tried && post == mid,
                Err(_) => res == Err::<Out, Option<Error>>(None) && post == mid.at(pre.index),
            }
    }

    proof fn lemma_choice_failure(
        &self,
        pre: ContextView<In::Token, Error>,
        res: Result<Out, Option<Error>>,
        post: ContextView<In::Token, Error>,
    ) {
    }

    fn parse_choice(&self, context: &mut Context<In, Error>) -> (res: ParseResult<Out, Error>) {
        let (r0, _) = attempt(&self.0, context);
        if r0.is_ok() {
            return r0;
        }
        ParseResult::err(None)
    }
}

impl<In, Out, Error, A, B> ChoiceParsers<In, Out, Error> for (A, B) where
    In: Slice,
    A: Parser<In, Out, Error>,
    B: Parser<In, Out, Error>,
 {
    open spec fn all_wf(&self) -> bool {
        &&& self.0.wf()
        &&& self.1.wf()
    }

    open spec fn choice_run(
        &self,
        pre: ContextView<In::Token, Error>,
        res: Result<Out, Option<Error>>,
        post: ContextView<In::Token, Error>,
    ) -> bool {
        exists|tried: Result<Out, Option<Error>>, mid: ContextView<In::Token, Error>| #[trigger]
            self.0.run(pre, tried, mid) && match tried {
                Ok(_) => res == tried && post == mid,
                Err(_) => (self.1,).choice_run(mid.at(pre.index), res, post),
            }
    }

    proof fn lemma_choice_failure(
        &self,
        pre: ContextView<In::Token, Error>,
        res: Result<Out, Option<Error>>,
        post: ContextView<In::Token, Error>,
    ) {
        let (tried, mid) = choose|
            tried: Result<Out, Option<Error>>,
            mid: ContextView<In::Token, Error>,
        | #[trigger]
            self.0.run(pre, tried, mid) && match tried {
                Ok(_) => res == tried && post == mid,
                Err(_) => (self.1,).choice_run(mid.at(pre.index), res, post),
            };
        (self.1,).lemma_choice_failure(mid.at(pre.index), res, post);
    }

    fn parse_choice(&self, context: &mut Context<In, Error>) -> (res: ParseResult<Out, Error>) {
        let (r0, _) = attempt(&self.0, context);
        if r0.is_ok() {
            return r0;
        }
        let ghost s1 = context@;
        let (r1, _) = attempt(&self.1, context);
        if r1.is_ok() {
            proof {
                assert((self.1,).0 == self.1);
                assert((self.1,).choice_run(s1, r1@, context@));
            }
            return r1;
        }
        proof {
            assert((self.1,).0 == self.1);
            assert((self.1,).choice_run(s1, Err(None), context@));
        }
        ParseResult::err(None)
    }
}

impl<In, Out, Error, A, B, C> ChoiceParsers<In, Out, Error> for (A, B, C) where
    In: Slice,
    A: Parser<In, Out, Error>,
    B: Parser<In, Out, Error>,
    C: Parser<In, Out, Error>,
 {
    open spec fn all_wf(&self) -> bool {
        &&& self.0.wf()
        &&& self.1.wf()
        &&& self.2.wf()
    }

    open spec fn choice_run(
        &self,
        pre: ContextView<In::Token, Error>,
        res: Result<Out, Option<Error>>,
        post: ContextView<In::Token, Error>,
    ) -> bool {
        exists|tried: Result<Out, Option<Error>>, mid: ContextView<In::Token, Error>| #[trigger]
            self.0.run(pre, tried, mid) && match tried {
                Ok(_) => res == tried && post == mid,
                Err(_) => (self.1, self.2).choice_run(mid.at(pre.index), res, post),
            }
    }

    proof fn lemma_choice_failure(
        &self,
        pre: ContextView<In::Token, Error>,
        res: Result<Out, Option<Error>>,
        post: ContextView<In::Token, Error>,
    ) {
        let (tried, mid) = choose|
            tried: Result<Out, Option<Error>>,
            mid: ContextView<In::Token, Error>,
        | #[trigger]
            self.0.run(pre, tried, mid) && match tried {
                Ok(_) => res == tried && post == mid,
                Err(_) => (self.1, self.2).choice_run(mid.at(pre.index), res, post),
            };
        (self.1, self.2).lemma_choice_failure(mid.at(pre.index), res, post);
    }

    fn parse_choice(&self, context: &mut Context<In, Error>) -> (res: ParseResult<Out, Error>) {
        let (r0, _) = attempt(&self.0, context);
        if r0.is_ok() {
            return r0;
        }
        let ghost s1 = context@;
        let (r1, _) = attempt(&self.1, context);
        if r1.is_ok() {
            proof {
                assert((self.1, self.2).0 == self.1);
                assert((self.1, self.2).choice_run(s1, r1@, context@));
            }
            return r1;
        }
        let ghost s2 = context@;
        let (r2, _) = attempt(&self.2, context);
        if r2.is_ok() {
            proof {
                assert((self.2,).0 == self.2);
                assert((self.2,).choice_run(s2, r2@, context@));
                assert((self.1, self.2).0 == self.1);
                assert((self.1, self.2).choice_run(s1, r2@, context@));
            }
            return r2;
        }
        proof {
            assert((self.2,).0 == self.2);
            assert((self.2,).choice_run(s2, Err(None), context@));
            assert((self.1, self.2).0 == self.1);
            assert((self.1, self.2).choice_run(s1, Err(None), context@));
        }
        ParseResult::err(None)
    }
}

impl<In, Out, Error, A, B, C, D> ChoiceParsers<In, Out, Error> for (A, B, C, D) where
    In: Slice,
    A: Parser<In, Out, Error>,
    B: Parser<In, Out, Error>,
    C: Parser<In, Out, Error>,
    D: Parser<In, Out, Error>,
 {
    open spec fn all_wf(&self) -> bool {
        &&& self.0.wf()
        &&& self.1.wf()
        &&& self.2.wf()
        &&& self.3.wf()
    }

    open spec fn choice_run(
        &self,
        pre: ContextView<In::Token, Error>,
        res: Result<Out, Option<Error>>,
        post: ContextView<In::Token, Error>,
    ) -> bool {
        exists|tried: Result<Out, Option<Error>>, mid: ContextView<In::Token, Error>| #[trigger]
            self.0.run(pre, tried, mid) && match tried {
                Ok(_) => res == tried && post == mid,
                Err(_) => (self.1, self.2, self.3).choice_run(mid.at(pre.index), res, post),
            }
    }

    proof fn lemma_choice_failure(
        &self,
        pre: ContextView<In::Token, Error>,
        res: Result<Out, Option<Error>>,
        post: ContextView<In::Token, Error>,
    ) {
        let (tried, mid) = choose|
            tried: Result<Out, Option<Error>>,
            mid: ContextView<In::Token, Error>,
        | #[trigger]
            self.0.run(pre, tried, mid) && match tried {
                Ok(_) => res == tried && post == mid,
                Err(_) => (self.1, self.2, self.3).choice_run(mid.at(pre.index), res, post),
            };
        (self.1, self.2, self.3).lemma_choice_failure(mid.at(pre.index), res, post);
    }

    fn parse_choice(&self, context: &mut Context<In, Error>) -> (res: ParseResult<Out, Error>) {
        let (r0, _) = attempt(&self.0, context);
        if r0.is_ok() {
            return r0;
        }
        let ghost s1 = context@;
        let (r1, _) = attempt(&self.1, context);
        if r1.is_ok() {
            proof {
                assert((self.1, self.2, self.3).0 == self.1);
                assert((self.1, self.2, self.3).choice_run(s1, r1@, context@));
            }
            return r1;
        }
        let ghost s2 = context@;
        let (r2, _) = attempt(&self.2, context);
        if r2.is_ok() {
            proof {
                assert((self.2, self.3).0 == self.2);
                assert((self.2, self.3).choice_run(s2, r2@, context@));
                assert((self.1, self.2, self.3).0 == self.1);
                assert((self.1, self.2, self.3).choice_run(s1, r2@, context@));
            }
            return r2;
        }
        let ghost s3 = context@;
        let (r3, _) = attempt(&self.3, context);
        if r3.is_ok() {
            proof {
                assert((self.3,).0 == self.3);
                assert((self.3,).choice_run(s3, r3@, context@));
                assert((self.2, self.3).0 == self.2);
                assert((self.2, self.3).choice_run(s2, r3@, context@));
                assert((self.1, self.2, self.3).0 == self.1);
                assert((self.1, self.2, self.3).choice_run(s1, r3@, context@));
            }
            return r3;
        }
        proof {
            assert((self.3,).0 == self.3);
            assert((self.3,).choice_run(s3, Err(None), context@));
            assert((self.2, self.3).0 == self.2);
            assert((self.2, self.3).choice_run(s2, Err(None), context@));
            assert((self.1, self.2, self.3).0 == self.1);
            assert((self.1, self.2, self.3).choice_run(s1, Err(None), context@));
        }
        ParseResult::err(None)
    }
}

impl<In, Out, Error, A, B, C, D, E> ChoiceParsers<In, Out, Error> for (A, B, C, D, E) where
    In: Slice,
    A: Parser<In, Out, Error>,
    B: Parser<In, Out, Error>,
    C: Parser<In, Out, Error>,
    D: Parser<In, Out, Error>,
    E: Parser<In, Out, Error>,
 {
    open spec fn all_wf(&self) -> bool {
        &&& self.0.wf()
        &&& self.1.wf()
        &&& self.2.wf()
        &&& self.3.wf()
        &&& self.4.wf()
    }

    open spec fn choice_run(
        &self,
        pre: ContextView<In::Token, Error>,
        res: Result<Out, Option<Error>>,
        post: ContextView<In::Token, Error>,
    ) -> bool {
        exists|tried: Result<Out, Option<Error>>, mid: ContextView<In::Token, Error>| #[trigger]
            self.0.run(pre, tried, mid) && match tried {
                Ok(_) => res == tried && post == mid,
                Err(_) => (self.1, self.2, self.3, self.4).choice_run(mid.at(pre.index), res, post),
            }
    }

    proof fn lemma_choice_failure(
        &self,
        pre: ContextView<In::Token, Error>,
        res: Result<Out, Option<Error>>,
        post: ContextView<In::Token, Error>,
    ) {
        let (tried, mid) = choose|
            tried: Result<Out, Option<Error>>,
            mid: ContextView<In::Token, Error>,
        | #[trigger]
            self.0.run(pre, tried, mid) && match tried {
                Ok(_) => res == tried && post == mid,
                Err(_) => (self.1, self.2, self.3, self.4).choice_run(mid.at(pre.index), res, post),
            };
        (self.1, self.2, self.3, self.4).lemma_choice_failure(mid.at(pre.index), res, post);
    }

    fn parse_choice(&self, context: &mut Context<In, Error>) -> (res: ParseResult<Out, Error>) {
        let (r0, _) = attempt(&self.0, context);
        if r0.is_ok() {
            return r0;
        }
        let ghost s1 = context@;
        let (r1, _) = attempt(&self.1, context);
        if r1.is_ok() {
            proof {
                assert((self.1, self.2, self.3, self.4).0 == self.1);
                assert((self.1, self.2, self.3, self.4).choice_run(s1, r1@, context@));
            }
            return r1;
        }
        let ghost s2 = context@;
        let (r2, _) = attempt(&self.2, context);
        if r2.is_ok() {
            proof {
                assert((self.2, self.3, self.4).0 == self.2);
                assert((self.2, self.3, self.4).choice_run(s2, r2@, context@));
                assert((self.1, self.2, self.3, self.4).0 == self.1);
                assert((self.1, self.2, self.3, self.4).choice_run(s1, r2@, context@));
            }
            return r2;
        }
        let ghost s3 = context@;
        let (r3, _) = attempt(&self.3, context);
        if r3.is_ok() {
            proof {
                assert((self.3, self.4).0 == self.3);
                assert((self.3, self.4).choice_run(s3, r3@, context@));
                assert((self.2, self.3, self.4).0 == self.2);
                assert((self.2, self.3, self.4).choice_run(s2, r3@, context@));
                assert((self.1, self.2, self.3, self.4).0 == self.1);
                assert((self.1, self.2, self.3, self.4).choice_run(s1, r3@, context@));
            }
            return r3;
        }
        let ghost s4 = context@;
        let (r4, _) = attempt(&self.4, context);
        if r4.is_ok() {
            proof {
                assert((self.4,).0 == self.4);
                assert((self.4,).choice_run(s4, r4@, context@));
                assert((self.3, self.4).0 == self.3);
                assert((self.3, self.4).choice_run(s3, r4@, context@));
                assert((self.2, self.3, self.4).0 == self.2);
                assert((self.2, self.3, self.4).choice_run(s2, r4@, context@));
                assert((self.1, self.2, self.3, self.4).0 == self.1);
                assert((self.1, self.2, self.3, self.4).choice_run(s1, r4@, context@));
            }
            return r4;
        }
        proof {
            assert((self.4,).0 == self.4);
            assert((self.4,).choice_run(s4, Err(None), context@));
            assert((self.3, self.4).0 == self.3);
            assert((self.3, self.4).choice_run(s3, Err(None), context@));
            assert((self.2, self.3, self.4).0 == self.2);
            assert((self.2, self.3, self.4).choice_run(s2, Err(None), context@));
            assert((self.1, self.2, self.3, self.4).0 == self.1);
            assert((self.1, self.2, self.3, self.4).choice_run(s1, Err(None), context@));
        }
        ParseResult::err(None)
    }
}

impl<In, Out, Error, A, B, C, D, E, F> ChoiceParsers<In, Out, Error> for (A, B, C, D, E, F) where
    In: Slice,
    A: Parser<In, Out, Error>,
    B: Parser<In, Out, Error>,
    C: Parser<In, Out, Error>,
    D: Parser<In, Out, Error>,
    E: Parser<In, Out, Error>,
    F: Parser<In, Out, Error>,
 {
    open spec fn all_wf(&self) -> bool {
        &&& self.0.wf()
        &&& self.1.wf()
        &&& self.2.wf()
        &&& self.3.wf()
        &&& self.4.wf()
        &&& self.5.wf()
    }

    open spec fn choice_run(
        &self,
        pre: ContextView<In::Token, Error>,
        res: Result<Out, Option<Error>>,
        post: ContextView<In::Token, Error>,
    ) -> bool {
        exists|tried: Result<Out, Option<Error>>, mid: ContextView<In::Token, Error>| #[trigger]
            self.0.run(pre, tried, mid) && match tried {
                Ok(_) => res == tried && post == mid,
                Err(_) => (self.1, self.2, self.3, self.4, self.5).choice_run(mid.at(pre.index), res, post),
            }
    }

    proof fn lemma_choice_failure(
        &self,
        pre: ContextView<In::Token, Error>,
        res: Result<Out, Option<Error>>,
        post: ContextView<In::Token, Error>,
    ) {
        let (tried, mid) = choose|
            tried: Result<Out, Option<Error>>,
            mid: ContextView<In::Token, Error>,
        | #[trigger]
            self.0.run(pre, tried, mid) && match tried {
                Ok(_) => res == tried && post == mid,
                Err(_) => (self.1, self.2, self.3, self.4, self.5).choice_run(mid.at(pre.index), res, post),
            };
        (self.1, self.2, self.3, self.4, self.5).lemma_choice_failure(mid.at(pre.index), res, post);
    }

    fn parse_choice(&self, context: &mut Context<In, Error>) -> (res: ParseResult<Out, Error>) {
        let (r0, _) = attempt(&self.0, context);
        if r0.is_ok() {
            return r0;
        }
        let ghost s1 = context@;
        let (r1, _) = attempt(&self.1, context);
        if r1.is_ok() {
            proof {
                assert((self.1, self.2, self.3, self.4, self.5).0 == self.1);
                assert((self.1, self.2, self.3, self.4, self.5).choice_run(s1, r1@, context@));
            }
            return r1;
        }
        let ghost s2 = context@;
        let (r2, _) = attempt(&self.2, context);
        if r2.is_ok() {
            proof {
                assert((self.2, self.3, self.4, self.5).0 == self.2);
                assert((self.2, self.3, self.4, self.5).choice_run(s2, r2@, context@));
                assert((self.1, self.2, self.3, self.4, self.5).0 == self.1);
                assert((self.1, self.2, self.3, self.4, self.5).choice_run(s1, r2@, context@));
            }
            return r2;
        }
        let ghost s3 = context@;
        let (r3, _) = attempt(&self.3, context);
        if r3.is_ok() {
            proof {
                assert((self.3, self.4, self.5).0 == self.3);
                assert((self.3, self.4, self.5).choice_run(s3, r3@, context@));
                assert((self.2, self.3, self.4, self.5).0 == self.2);
                assert((self.2, self.3, self.4, self.5).choice_run(s2, r3@, context@));
                assert((self.1, self.2, self.3, self.4, self.5).0 == self.1);
                assert((self.1, self.2, self.3, self.4, self.5).choice_run(s1, r3@, context@));
            }
            return r3;
        }
        let ghost s4 = context@;
        let (r4, _) = attempt(&self.4, context);
        if r4.is_ok() {
            proof {
                assert((self.4, self.5).0 == self.4);
                assert((self.4, self.5).choice_run(s4, r4@, context@));
                assert((self.3, self.4, self.5).0 == self.3);
                assert((self.3, self.4, self.5).choice_run(s3, r4@, context@));
                assert((self.2, self.3, self.4, self.5).0 == self.2);
                assert((self.2, self.3, self.4, self.5).choice_run(s2, r4@, context@));
                assert((self.1, self.2, self.3, self.4, self.5).0 == self.1);
                assert((self.1, self.2, self.3, self.4, self.5).choice_run(s1, r4@, context@));
            }
            return r4;
        }
        let ghost s5 = context@;
        let (r5, _) = attempt(&self.5, context);
        if r5.is_ok() {
            proof {
                assert((self.5,).0 == self.5);
                assert((self.5,).choice_run(s5, r5@, context@));
                assert((self.4, self.5).0 == self.4);
                assert((self.4, self.5).choice_run(s4, r5@, context@));
                assert((self.3, self.4, self.5).0 == self.3);
                assert((self.3, self.4, self.5).choice_run(s3, r5@, context@));
                assert((self.2, self.3, self.4, self.5).0 == self.2);
                assert((self.2, self.3, self.4, self.5).choice_run(s2, r5@, context@));
                assert((self.1, self.2, self.3, self.4, self.5).0 == self.1);
                assert((self.1, self.2, self.3, self.4, self.5).choice_run(s1, r5@, context@));
            }
            return r5;
        }
        proof {
            assert((self.5,).0 == self.5);
            assert((self.5,).choice_run(s5, Err(None), context@));
            assert((self.4, self.5).0 == self.4);
            assert((self.4, self.5).choice_run(s4, Err(None), context@));
            assert((self.3, self.4, self.5).0 == self.3);
            assert((self.3, self.4, self.5).choice_run(s3, Err(None), context@));
            assert((self.2, self.3, self.4, self.5).0 == self.2);
            assert((self.2, self.3, self.4, self.5).choice_run(s2, Err(None), context@));
            assert((self.1, self.2, self.3, self.4, self.5).0 == self.1);
            assert((self.1, self.2, self.3, self.4, self.5).choice_run(s1, Err(None), context@));
        }
        ParseResult::err(None)
    }
}

impl<In, Out, Error, A, B, C, D, E, F, G> ChoiceParsers<In, Out, Error> for (A, B, C, D, E, F, G) where
    In: Slice,
    A: Parser<In, Out, Error>,
    B: Parser<In, Out, Error>,
    C: Parser<In, Out, Error>,
    D: Parser<In, Out, Error>,
    E: Parser<In, Out, Error>,
    F: Parser<In, Out, Error>,
    G: Parser<In, Out, Error>,
 {
    open spec fn all_wf(&self) -> bool {
        &&& self.0.wf()
        &&& self.1.wf()
        &&& self.2.wf()
        &&& self.3.wf()
        &&& self.4.wf()
        &&& self.5.wf()
        &&& self.6.wf()
    }

    open spec fn choice_run(
        &self,
        pre: ContextView<In::Token, Error>,
        res: Result<Out, Option<Error>>,
        post: ContextView<In::Token, Error>,
    ) -> bool {
        exists|tried: Result<Out, Option<Error>>, mid: ContextView<In::Token, Error>| #[trigger]
            self.0.run(pre, tried, mid) && match tried {
                Ok(_) => res == tried && post == mid,
                Err(_) => (self.1, self.2, self.3, self.4, self.5, self.6).choice_run(mid.at(pre.index), res, post),
            }
    }

    proof fn lemma_choice_failure(
        &self,
        pre: ContextView<In::Token, Error>,
        res: Result<Out, Option<Error>>,
        post: ContextView<In::Token, Error>,
    ) {
        let (tried, mid) = choose|
            tried: Result<Out, Option<Error>>,
            mid: ContextView<In::Token, Error>,
        | #[trigger]
            self.0.run(pre, tried, mid) && match tried {
                Ok(_) => res == tried && post == mid,
                Err(_) => (self.1, self.2, self.3, self.4, self.5, self.6).choice_run(mid.at(pre.index), res, post),
            };
        (self.1, self.2, self.3, self.4, self.5, self.6).lemma_choice_failure(mid.at(pre.index), res, post);
    }

    fn parse_choice(&self, context: &mut Context<In, Error>) -> (res: ParseResult<Out, Error>) {
        let (r0, _) = attempt(&self.0, context);
        if r0.is_ok() {
            return r0;
        }
        let ghost s1 = context@;
        let (r1, _) = attempt(&self.1, context);
        if r1.is_ok() {
            proof {
                assert((self.1, self.2, self.3, self.4, self.5, self.6).0 == self.1);
                assert((self.1, self.2, self.3, self.4, self.5, self.6).choice_run(s1, r1@, context@));
            }
            return r1;
        }
        let ghost s2 = context@;
        let (r2, _) = attempt(&self.2, context);
        if r2.is_ok() {
            proof {
                assert((self.2, self.3, self.4, self.5, self.6).0 == self.2);
                assert((self.2, self.3, self.4, self.5, self.6).choice_run(s2, r2@, context@));
                assert((self.1, self.2, self.3, self.4, self.5, self.6).0 == self.1);
                assert((self.1, self.2, self.3, self.4, self.5, self.6).choice_run(s1, r2@, context@));
            }
            return r2;
        }
        let ghost s3 = context@;
        let (r3, _) = attempt(&self.3, context);
        if r3.is_ok() {
            proof {
                assert((self.3, self.4, self.5, self.6).0 == self.3);
                assert((self.3, self.4, self.5, self.6).choice_run(s3, r3@, context@));
                assert((self.2, self.3, self.4, self.5, self.6).0 == self.2);
                assert((self.2, self.3, self.4, self.5, self.6).choice_run(s2, r3@, context@));
                assert((self.1, self.2, self.3, self.4, self.5, self.6).0 == self.1);
                assert((self.1, self.2, self.3, self.4, self.5, self.6).choice_run(s1, r3@, context@));
            }
            return r3;
        }
        let ghost s4 = context@;
        let (r4, _) = attempt(&self.4, context);
        if r4.is_ok() {
            proof {
                assert((self.4, self.5, self.6).0 == self.4);
                assert((self.4, self.5, self.6).choice_run(s4, r4@, context@));
                assert((self.3, self.4, self.5, self.6).0 == self.3);
                assert((self.3, self.4, self.5, self.6).choice_run(s3, r4@, context@));
                assert((self.2, self.3, self.4, self.5, self.6).0 == self.2);
                assert((self.2, self.3, self.4, self.5, self.6).choice_run(s2, r4@, context@));
                assert((self.1, self.2, self.3, self.4, self.5, self.6).0 == self.1);
                assert((self.1, self.2, self.3, self.4, self.5, self.6).choice_run(s1, r4@, context@));
            }
            return r4;
        }
        let ghost s5 = context@;
        let (r5, _) = attempt(&self.5, context);
        if r5.is_ok() {
            proof {
                assert((self.5, self.6).0 == self.5);
                assert((self.5, self.6).choice_run(s5, r5@, context@));
                assert((self.4, self.5, self.6).0 == self.4);
                assert((self.4, self.5, self.6).choice_run(s4, r5@, context@));
                assert((self.3, self.4, self.5, self.6).0 == self.3);
                assert((self.3, self.4, self.5, self.6).choice_run(s3, r5@, context@));
                assert((self.2, self.3, self.4, self.5, self.6).0 == self.2);
                assert((self.2, self.3, self.4, self.5, self.6).choice_run(s2, r5@, context@));
                assert((self.1, self.2, self.3, self.4, self.5, self.6).0 == self.1);
                assert((self.1, self.2, self.3, self.4, self.5, self.6).choice_run(s1, r5@, context@));
            }
            return r5;
        }
        let ghost s6 = context@;
        let (r6, _) = attempt(&self.6, context);
        if r6.is_ok() {
            proof {
                assert((self.6,).0 == self.6);
                assert((self.6,).choice_run(s6, r6@, context@));
                assert((self.5, self.6).0 == self.5);
                assert((self.5, self.6).choice_run(s5, r6@, context@));
                assert((self.4, self.5, self.6).0 == self.4);
                assert((self.4, self.5, self.6).choice_run(s4, r6@, context@));
                assert((self.3, self.4, self.5, self.6).0 == self.3);
                assert((self.3, self.4, self.5, self.6).choice_run(s3, r6@, context@));
                assert((self.2, self.3, self.4, self.5, self.6).0 == self.2);
                assert((self.2, self.3, self.4, self.5, self.6).choice_run(s2, r6@, context@));
                assert((self.1, self.2, self.3, self.4, self.5, self.6).0 == self.1);
                assert((self.1, self.2, self.3, self.4, self.5, self.6).choice_run(s1, r6@, context@));
            }
            return r6;
        }
        proof {
            assert((self.6,).0 == self.6);
            assert((self.6,).choice_run(s6, Err(None), context@));
            assert((self.5, self.6).0 == self.5);
            assert((self.5, self.6).choice_run(s5, Err(None), context@));
            assert((self.4, self.5, self.6).0 == self.4);
            assert((self.4, self.5, self.6).choice_run(s4, Err(None), context@));
            assert((self.3, self.4, self.5, self.6).0 == self.3);
            assert((self.3, self.4, self.5, self.6).choice_run(s3, Err(None), context@));
            assert((self.2, self.3, self.4, self.5, self.6).0 == self.2);
            assert((self.2, self.3, self.4, self.5, self.6).choice_run(s2, Err(None), context@));
            assert((self.1, self.2, self.3, self.4, self.5, self.6).0 == self.1);
            assert((self.1, self.2, self.3, self.4, self.5, self.6).choice_run(s1, Err(None), context@));
        }
        ParseResult::err(None)
    }
}

impl<In, Out, Error, A, B, C, D, E, F, G, H> ChoiceParsers<In, Out, Error> for (A, B, C, D, E, F, G, H) where
    In: Slice,
    A: Parser<In, Out, Error>,
    B: Parser<In, Out, Error>,
    C: Parser<In, Out, Error>,
    D: Parser<In, Out, Error>,
    E: Parser<In, Out, Error>,
    F: Parser<In, Out, Error>,
    G: Parser<In, Out, Error>,
    H: Parser<In, Out, Error>,
 {
    open spec fn all_wf(&self) -> bool {
        &&& self.0.wf()
        &&& self.1.wf()
        &&& self.2.wf()
        &&& self.3.wf()
        &&& self.4.wf()
        &&& self.5.wf()
        &&& self.6.wf()
        &&& self.7.wf()
    }

    open spec fn choice_run(
        &self,
        pre: ContextView<In::Token, Error>,
        res: Result<Out, Option<Error>>,
        post: ContextView<In::Token, Error>,
    ) -> bool {
        exists|tried: Result<Out, Option<Error>>, mid: ContextView<In::Token, Error>| #[trigger]
            self.0.run(pre, tried, mid) && match tried {
                Ok(_) => res == tried && post == mid,
                Err(_) => (self.1, self.2, self.3, self.4, self.5, self.6, self.7).choice_run(mid.at(pre.index), res, post),
            }
    }

    proof fn lemma_choice_failure(
        &self,
        pre: ContextView<In::Token, Error>,
        res: Result<Out, Option<Error>>,
        post: ContextView<In::Token, Error>,
    ) {
        let (tried, mid) = choose|
            tried: Result<Out, Option<Error>>,
            mid: ContextView<In::Token, Error>,
        | #[trigger]
            self.0.run(pre, tried, mid) && match tried {
                Ok(_) => res == tried && post == mid,
                Err(_) => (self.1, self.2, self.3, self.4, self.5, self.6, self.7).choice_run(mid.at(pre.index), res, post),
            };
        (self.1, self.2, self.3, self.4, self.5, self.6, self.7).lemma_choice_failure(mid.at(pre.index), res, post);
    }

    fn parse_choice(&self, context: &mut Context<In, Error>) -> (res: ParseResult<Out, Error>) {
        let (r0, _) = attempt(&self.0, context);
        if r0.is_ok() {
            return r0;
        }
        let ghost s1 = context@;
        let (r1, _) = attempt(&self.1, context);
        if r1.is_ok() {
            proof {
                assert((self.1, self.2, self.3, self.4, self.5, self.6, self.7).0 == self.1);
                assert((self.1, self.2, self.3, self.4, self.5, self.6, self.7).choice_run(s1, r1@, context@));
            }
            return r1;
        }
        let ghost s2 = context@;
        let (r2, _) = attempt(&self.2, context);
        if r2.is_ok() {
            proof {
                assert((self.2, self.3, self.4, self.5, self.6, self.7).0 == self.2);
                assert((self.2, self.3, self.4, self.5, self.6, self.7).choice_run(s2, r2@, context@));
                assert((self.1, self.2, self.3, self.4, self.5, self.6, self.7).0 == self.1);
                assert((self.1, self.2, self.3, self.4, self.5, self.6, self.7).choice_run(s1, r2@, context@));
            }
            return r2;
        }
        let ghost s3 = context@;
        let (r3, _) = attempt(&self.3, context);
        if r3.is_ok() {
            proof {
                assert((self.3, self.4, self.5, self.6, self.7).0 == self.3);
                assert((self.3, self.4, self.5, self.6, self.7).choice_run(s3, r3@, context@));
                assert((self.2, self.3, self.4, self.5, self.6, self.7).0 == self.2);
                assert((self.2, self.3, self.4, self.5, self.6, self.7).choice_run(s2, r3@, context@));
                assert((self.1, self.2, self.3, self.4, self.5, self.6, self.7).0 == self.1);
                assert((self.1, self.2, self.3, self.4, self.5, self.6, self.7).choice_run(s1, r3@, context@));
            }
            return r3;
        }
        let ghost s4 = context@;
        let (r4, _) = attempt(&self.4, context);
        if r4.is_ok() {
            proof {
                assert((self.4, self.5, self.6, self.7).0 == self.4);
                assert((self.4, self.5, self.6, self.7).choice_run(s4, r4@, context@));
                assert((self.3, self.4, self.5, self.6, self.7).0 == self.3);
                assert((self.3, self.4, self.5, self.6, self.7).choice_run(s3, r4@, context@));
                assert((self.2, self.3, self.4, self.5, self.6, self.7).0 == self.2);
                assert((self.2, self.3, self.4, self.5, self.6, self.7).choice_run(s2, r4@, context@));
                assert((self.1, self.2, self.3, self.4, self.5, self.6, self.7).0 == self.1);
                assert((self.1, self.2, self.3, self.4, self.5, self.6, self.7).choice_run(s1, r4@, context@));
            }
            return r4;
        }
        let ghost s5 = context@;
        let (r5, _) = attempt(&self.5, context);
        if r5.is_ok() {
            proof {
                assert((self.5, self.6, self.7).0 == self.5);
                assert((self.5, self.6, self.7).choice_run(s5, r5@, context@));
                assert((self.4, self.5, self.6, self.7).0 == self.4);
                assert((self.4, self.5, self.6, self.7).choice_run(s4, r5@, context@));
                assert((self.3, self.4, self.5, self.6, self.7).0 == self.3);
                assert((self.3, self.4, self.5, self.6, self.7).choice_run(s3, r5@, context@));
                assert((self.2, self.3, self.4, self.5, self.6, self.7).0 == self.2);
                assert((self.2, self.3, self.4, self.5, self.6, self.7).choice_run(s2, r5@, context@));
                assert((self.1, self.2, self.3, self.4, self.5, self.6, self.7).0 == self.1);
                assert((self.1, self.2, self.3, self.4, self.5, self.6, self.7).choice_run(s1, r5@, context@));
            }
            return r5;
        }
        let ghost s6 = context@;
        let (r6, _) = attempt(&self.6, context);
        if r6.is_ok() {
            proof {
                assert((self.6, self.7).0 == self.6);
                assert((self.6, self.7).choice_run(s6, r6@, context@));
                assert((self.5, self.6, self.7).0 == self.5);
                assert((self.5, self.6, self.7).choice_run(s5, r6@, context@));
                assert((self.4, self.5, self.6, self.7).0 == self.4);
                assert((self.4, self.5, self.6, self.7).choice_run(s4, r6@, context@));
                assert((self.3, self.4, self.5, self.6, self.7).0 == self.3);
                assert((self.3, self.4, self.5, self.6, self.7).choice_run(s3, r6@, context@));
                assert((self.2, self.3, self.4, self.5, self.6, self.7).0 == self.2);
                assert((self.2, self.3, self.4, self.5, self.6, self.7).choice_run(s2, r6@, context@));
                assert((self.1, self.2, self.3, self.4, self.5, self.6, self.7).0 == self.1);
                assert((self.1, self.2, self.3, self.4, self.5, self.6, self.7).choice_run(s1, r6@, context@));
            }
            return r6;
        }
        let ghost s7 = context@;
        let (r7, _) = attempt(&self.7, context);
        if r7.is_ok() {
            proof {
                assert((self.7,).0 == self.7);
                assert((self.7,).choice_run(s7, r7@, context@));
                assert((self.6, self.7).0 == self.6);
                assert((self.6, self.7).choice_run(s6, r7@, context@));
                assert((self.5, self.6, self.7).0 == self.5);
                assert((self.5, self.6, self.7).choice_run(s5, r7@, context@));
                assert((self.4, self.5, self.6, self.7).0 == self.4);
                assert((self.4, self.5, self.6, self.7).choice_run(s4, r7@, context@));
                assert((self.3, self.4, self.5, self.6, self.7).0 == self.3);
                assert((self.3, self.4, self.5, self.6, self.7).choice_run(s3, r7@, context@));
                assert((self.2, self.3, self.4, self.5, self.6, self.7).0 == self.2);
                assert((self.2, self.3, self.4, self.5, self.6, self.7).choice_run(s2, r7@, context@));
                assert((self.1, self.2, self.3, self.4, self.5, self.6, self.7).0 == self.1);
                assert((self.1, self.2, self.3, self.4, self.5, self.6, self.7).choice_run(s1, r7@, context@));
            }
            return r7;
        }
        proof {
            assert((self.7,).0 == self.7);
            assert((self.7,).choice_run(s7, Err(None), context@));
            assert((self.6, self.7).0 == self.6);
            assert((self.6, self.7).choice_run(s6, Err(None), context@));
            assert((self.5, self.6, self.7).0 == self.5);
            assert((self.5, self.6, self.7).choice_run(s5, Err(None), context@));
            assert((self.4, self.5, self.6, self.7).0 == self.4);
            assert((self.4, self.5, self.6, self.7).choice_run(s4, Err(None), context@));
            assert((self.3, self.4, self.5, self.6, self.7).0 == self.3);
            assert((self.3, self.4, self.5, self.6, self.7).choice_run(s3, Err(None), context@));
            assert((self.2, self.3, self.4, self.5, self.6, self.7).0 == self.2);
            assert((self.2, self.3, self.4, self.5, self.6, self.7).choice_run(s2, Err(None), context@));
            assert((self.1, self.2, self.3, self.4, self.5, self.6, self.7).0 == self.1);
            assert((self.1, self.2, self.3, self.4, self.5, self.6, self.7).choice_run(s1, Err(None), context@));
        }
        ParseResult::err(None)
    }
}

} // verus!
