use crate::context::{Context, ContextView};
use crate::parser::{ParseResult, Parser};
use crate::slice::Slice;
use std::marker::PhantomData;
use vstd::prelude::*;

verus! {

/// A parser that runs a tuple of parsers one after the other.
pub fn chain<In: Slice, Out, Error, P: ChainParsers<In, Out, Error>>(parsers: P) -> (parser: Chain<
    In,
    Out,
    Error,
    P,
>)
    ensures
        parser.parsers == parsers,
{
    Chain { parsers, _phantom: PhantomData }
}

#[verifier::reject_recursive_types(In)]
#[verifier::reject_recursive_types(Out)]
#[verifier::reject_recursive_types(Error)]
pub struct Chain<In: Slice, Out, Error, Parsers: ChainParsers<In, Out, Error>> {
    pub parsers: Parsers,
    pub _phantom: PhantomData<(In, Out, Error)>,
}

impl<In: Slice, Out, Error, Parsers: ChainParsers<In, Out, Error>> Parser<
    In,
    Out,
    Error,
> for Chain<In, Out, Error, Parsers> {
    open spec fn wf(&self) -> bool {
        self.parsers.all_wf()
    }

    open spec fn run(
        &self,
        pre: ContextView<In::Token, Error>,
        res: Result<Out, Option<Error>>,
        post: ContextView<In::Token, Error>,
    ) -> bool {
        self.parsers.chain_from(pre.index, pre, res, post)
    }

    fn parse(&self, context: &mut Context<In, Error>) -> (res: ParseResult<Out, Error>) {
        self.parsers.parse_chain(context)
    }
}

/// A tuple of [`Parser`]s, to be passed to [`chain`].
///
/// Currently implemented for tuples of up to 8 elements.
pub trait ChainParsers<In: Slice, Out, Error> {
    /// Every parser of the tuple can be run.
    spec fn all_wf(&self) -> bool;

    /// The parsers run in order from the state `pre`, each where the one
    /// before it stopped. Where all succeed the result is the tuple of their
    /// outputs, with the position where the last one left it. The first
    /// failure is the result of the chain as it is, diagnostic included,
    /// with the position back at the index `start`.
    spec fn chain_from(
        &self,
        start: int,
        pre: ContextView<In::Token, Error>,
        res: Result<Out, Option<Error>>,
        post: ContextView<In::Token, Error>,
    ) -> bool;

    /// A chain that fails leaves the position at `start`.
    proof fn lemma_chain_failure(
        &self,
        start: int,
        pre: ContextView<In::Token, Error>,
        res: Result<Out, Option<Error>>,
        post: ContextView<In::Token, Error>,
    )
        requires
            self.chain_from(start, pre, res, post),
            res is Err,
        ensures
            post.index == start,
    ;

    fn parse_chain(&self, context: &mut Context<In, Error>) -> (res: ParseResult<Out, Error>)
        requires
            self.all_wf(),
            old(context).wf(),
        ensures
            final(context).wf(),
            final(context).spec_slice() == old(context).spec_slice(),
            final(context)@.input == old(context)@.input,
            res@ is Ok ==> old(context)@.index <= final(context)@.index,
            self.chain_from(old(context)@.index, old(context)@, res@, final(context)@),
    ;
}

impl<In, A, AOut, Error> ChainParsers<In, (AOut,), Error> for (A,) where
    In: Slice,
    A: Parser<In, AOut, Error>,
 {
    open spec fn all_wf(&self) -> bool {
        &&& self.0.wf()
    }

    open spec fn chain_from(
        &self,
        start: int,
        pre: ContextView<In::Token, Error>,
        res: Result<(AOut,), Option<Error>>,
        post: ContextView<In::Token, Error>,
    ) -> bool {
        exists|first: Result<AOut, Option<Error>>, mid: ContextView<In::Token, Error>| #[trigger]
            self.0.run(pre, first, mid) && match first {
                Ok(output) => res == Ok::<(AOut,), Option<Error>>((output,)) && post == mid,
                Err(err) => res == Err::<(AOut,), Option<Error>>(err) && post == mid.at(start),
            }
    }

    proof fn lemma_chain_failure(
        &self,
        start: int,
        pre: ContextView<In::Token, Error>,
        res: Result<(AOut,), Option<Error>>,
        post: ContextView<In::Token, Error>,
    ) {
    }

    fn parse_chain(&self, context: &mut Context<In, Error>) -> (res: ParseResult<(AOut,), Error>) {
        proof {
            context.lemma_index_in_bounds();
        }
        let start = context.location();
        let ghost from = context@.index;

        let ghost s0 = context@;
        let r0 = self.0.parse(context);
        let ghost m0 = context@;
        let a_out = match r0.to_result() {
            Ok(output) => output,
            Err(err) => {
                context.set_location(start);
                proof {
                    assert((self.0,).0 == self.0);
                    assert((self.0,).chain_from(
                        from,
                        s0,
                        Err::<(AOut,), Option<Error>>(err),
                        context@,
                    ));
                }
                return ParseResult::err(err);
            },
        };
        proof {
            assert((self.0,).0 == self.0);
            assert((self.0,).chain_from(
                from,
                s0,
                Ok::<(AOut,), Option<Error>>((a_out,)),
                context@,
            ));
        }
        ParseResult::ok((a_out,))
    }
}

impl<In, A, AOut, B, BOut, Error> ChainParsers<In, (AOut, BOut), Error> for (A, B) where
    In: Slice,
    A: Parser<In, AOut, Error>,
    B: Parser<In, BOut, Error>,
 {
    open spec fn all_wf(&self) -> bool {
        &&& self.0.wf()
        &&& self.1.wf()
    }

    open spec fn chain_from(
        &self,
        start: int,
        pre: ContextView<In::Token, Error>,
        res: Result<(AOut, BOut), Option<Error>>,
        post: ContextView<In::Token, Error>,
    ) -> bool {
        exists|first: Result<AOut, Option<Error>>, mid: ContextView<In::Token, Error>| #[trigger]
            self.0.run(pre, first, mid) && match first {
                Ok(output) => exists|rest: Result<(BOut,), Option<Error>>| #[trigger]
                    (self.1,).chain_from(start, mid, rest, post) && match rest {
                        Ok(others) => res == Ok::<(AOut, BOut), Option<Error>>(
                            (output, others.0),
                        ),
                        Err(err) => res == Err::<(AOut, BOut), Option<Error>>(err),
                    },
                Err(err) => res == Err::<(AOut, BOut), Option<Error>>(err) && post == mid.at(start),
            }
    }

    proof fn lemma_chain_failure(
        &self,
        start: int,
        pre: ContextView<In::Token, Error>,
        res: Result<(AOut, BOut), Option<Error>>,
        post: ContextView<In::Token, Error>,
    ) {
        let (first, mid) = choose|
            first: Result<AOut, Option<Error>>,
            mid: ContextView<In::Token, Error>,
        | #[trigger]
            self.0.run(pre, first, mid) && match first {
                Ok(output) => exists|rest: Result<(BOut,), Option<Error>>| #[trigger]
                    (self.1,).chain_from(start, mid, rest, post) && match rest {
                        Ok(others) => res == Ok::<(AOut, BOut), Option<Error>>(
                            (output, others.0),
                        ),
                        Err(err) => res == Err::<(AOut, BOut), Option<Error>>(err),
                    },
                Err(err) => res == Err::<(AOut, BOut), Option<Error>>(err) && post == mid.at(start),
            };
        if let Ok(output) = first {
            let rest = choose|rest: Result<(BOut,), Option<Error>>| #[trigger]
                (self.1,).chain_from(start, mid, rest, post) && match rest {
                    Ok(others) => res == Ok::<(AOut, BOut), Option<Error>>(
                        (output, others.0),
                    ),
                    Err(err) => res == Err::<(AOut, BOut), Option<Error>>(err),
                };
            (self.1,).lemma_chain_failure(start, mid, rest, post);
        }
    }

    fn parse_chain(&self, context: &mut Context<In, Error>) -> (res: ParseResult<(AOut, BOut), Error>) {
        proof {
            context.lemma_index_in_bounds();
        }
        let start = context.location();
        let ghost from = context@.index;

        let ghost s0 = context@;
        let r0 = self.0.parse(context);
        let ghost m0 = context@;
        let a_out = match r0.to_result() {
            Ok(output) => output,
            Err(err) => {
                context.set_location(start);
                proof {
                    assert((self.0, self.1).0 == self.0);
                    assert((self.0, self.1).chain_from(
                        from,
                        s0,
                        Err::<(AOut, BOut), Option<Error>>(err),
                        context@,
                    ));
                }
                return ParseResult::err(err);
            },
        };
        let ghost s1 = context@;
        let r1 = self.1.parse(context);
        let ghost m1 = context@;
        let b_out = match r1.to_result() {
            Ok(output) => output,
            Err(err) => {
                context.set_location(start);
                proof {
                    assert((self.1,).0 == self.1);
                    assert((self.1,).chain_from(
                        from,
                        s1,
                        Err::<(BOut,), Option<Error>>(err),
                        context@,
                    ));
                    assert((self.0, self.1).0 == self.0);
                    assert((self.0, self.1).chain_from(
                        from,
                        s0,
                        Err::<(AOut, BOut), Option<Error>>(err),
                        context@,
                    ));
                }
                return ParseResult::err(err);
            },
        };
        proof {
            assert((self.1,).0 == self.1);
            assert((self.1,).chain_from(
                from,
                s1,
                Ok::<(BOut,), Option<Error>>((b_out,)),
                context@,
            ));
            assert((self.0, self.1).0 == self.0);
            assert((self.0, self.1).chain_from(
                from,
                s0,
                Ok::<(AOut, BOut), Option<Error>>((a_out, b_out)),
                context@,
            ));
        }
        ParseResult::ok((a_out, b_out))
    }
}

impl<In, A, AOut, B, BOut, C, COut, Error> ChainParsers<In, (AOut, BOut, COut), Error> for (A, B, C) where
    In: Slice,
    A: Parser<In, AOut, Error>,
    B: Parser<In, BOut, Error>,
    C: Parser<In, COut, Error>,
 {
    open spec fn all_wf(&self) -> bool {
        &&& self.0.wf()
        &&& self.1.wf()
        &&& self.2.wf()
    }

    open spec fn chain_from(
        &self,
        start: int,
        pre: ContextView<In::Token, Error>,
        res: Result<(AOut, BOut, COut), Option<Error>>,
        post: ContextView<In::Token, Error>,
    ) -> bool {
        exists|first: Result<AOut, Option<Error>>, mid: ContextView<In::Token, Error>| #[trigger]
            self.0.run(pre, first, mid) && match first {
                Ok(output) => exists|rest: Result<(BOut, COut), Option<Error>>| #[trigger]
                    (self.1, self.2).chain_from(start, mid, rest, post) && match rest {
                        Ok(others) => res == Ok::<(AOut, BOut, COut), Option<Error>>(
                            (output, others.0, others.1),
                        ),
                        Err(err) => res == Err::<(AOut, BOut, COut), Option<Error>>(err),
                    },
                Err(err) => res == Err::<(AOut, BOut, COut), Option<Error>>(err) && post == mid.at(start),
            }
    }

    proof fn lemma_chain_failure(
        &self,
        start: int,
        pre: ContextView<In::Token, Error>,
        res: Result<(AOut, BOut, COut), Option<Error>>,
        post: ContextView<In::Token, Error>,
    ) {
        let (first, mid) = choose|
            first: Result<AOut, Option<Error>>,
            mid: ContextView<In::Token, Error>,
        | #[trigger]
            self.0.run(pre, first, mid) && match first {
                Ok(output) => exists|rest: Result<(BOut, COut), Option<Error>>| #[trigger]
                    (self.1, self.2).chain_from(start, mid, rest, post) && match rest {
                        Ok(others) => res == Ok::<(AOut, BOut, COut), Option<Error>>(
                            (output, others.0, others.1),
                        ),
                        Err(err) => res == Err::<(AOut, BOut, COut), Option<Error>>(err),
                    },
                Err(err) => res == Err::<(AOut, BOut, COut), Option<Error>>(err) && post == mid.at(start),
            };
        if let Ok(output) = first {
            let rest = choose|rest: Result<(BOut, COut), Option<Error>>| #[trigger]
                (self.1, self.2).chain_from(start, mid, rest, post) && match rest {
                    Ok(others) => res == Ok::<(AOut, BOut, COut), Option<Error>>(
                        (output, others.0, others.1),
                    ),
                    Err(err) => res == Err::<(AOut, BOut, COut), Option<Error>>(err),
                };
            (self.1, self.2).lemma_chain_failure(start, mid, rest, post);
        }
    }

    fn parse_chain(&self, context: &mut Context<In, Error>) -> (res: ParseResult<(AOut, BOut, COut), Error>) {
        proof {
            context.lemma_index_in_bounds();
        }
        let start = context.location();
        let ghost from = context@.index;

        let ghost s0 = context@;
        let r0 = self.0.parse(context);
        let ghost m0 = context@;
        let a_out = match r0.to_result() {
            Ok(output) => output,
            Err(err) => {
                context.set_location(start);
                proof {
                    assert((self.0, self.1, self.2).0 == self.0);
                    assert((self.0, self.1, self.2).chain_from(
                        from,
                        s0,
                        Err::<(AOut, BOut, COut), Option<Error>>(err),
                        context@,
                    ));
                }
                return ParseResult::err(err);
            },
        };
        let ghost s1 = context@;
        let r1 = self.1.parse(context);
        let ghost m1 = context@;
        let b_out = match r1.to_result() {
            Ok(output) => output,
            Err(err) => {
                context.set_location(start);
                proof {
                    assert((self.1, self.2).0 == self.1);
                    assert(((self.1, self.2).1,) == (self.2,));
                    assert((self.1, self.2).chain_from(
                        from,
                        s1,
                        Err::<(BOut, COut), Option<Error>>(err),
                        context@,
                    ));
                    assert((self.0, self.1, self.2).0 == self.0);
                    assert((self.0, self.1, self.2).chain_from(
                        from,
                        s0,
                        Err::<(AOut, BOut, COut), Option<Error>>(err),
                        context@,
                    ));
                }
                return ParseResult::err(err);
            },
        };
        let ghost s2 = context@;
        let r2 = self.2.parse(context);
        let ghost m2 = context@;
        let c_out = match r2.to_result() {
            Ok(output) => output,
            Err(err) => {
                context.set_location(start);
                proof {
                    assert((self.2,).0 == self.2);
                    assert((self.2,).chain_from(
                        from,
                        s2,
                        Err::<(COut,), Option<Error>>(err),
                        context@,
                    ));
                    assert((self.1, self.2).0 == self.1);
                    assert(((self.1, self.2).1,) == (self.2,));
                    assert((self.1, self.2).chain_from(
                        from,
                        s1,
                        Err::<(BOut, COut), Option<Error>>(err),
                        context@,
                    ));
                    assert((self.0, self.1, self.2).0 == self.0);
                    assert((self.0, self.1, self.2).chain_from(
                        from,
                        s0,
                        Err::<(AOut, BOut, COut), Option<Error>>(err),
                        context@,
                    ));
                }
                return ParseResult::err(err);
            },
        };
        proof {
            assert((self.2,).0 == self.2);
            assert((self.2,).chain_from(
                from,
                s2,
                Ok::<(COut,), Option<Error>>((c_out,)),
                context@,
            ));
            assert((self.1, self.2).0 == self.1);
            assert(((self.1, self.2).1,) == (self.2,));
            assert((self.1, self.2).chain_from(
                from,
                s1,
                Ok::<(BOut, COut), Option<Error>>((b_out, c_out)),
                context@,
            ));
            assert((self.0, self.1, self.2).0 == self.0);
            assert((self.0, self.1, self.2).chain_from(
                from,
                s0,
                Ok::<(AOut, BOut, COut), Option<Error>>((a_out, b_out, c_out)),
                context@,
            ));
        }
        ParseResult::ok((a_out, b_out, c_out))
    }
}

impl<In, A, AOut, B, BOut, C, COut, D, DOut, Error> ChainParsers<In, (AOut, BOut, COut, DOut), Error> for (A, B, C, D) where
    In: Slice,
    A: Parser<In, AOut, Error>,
    B: Parser<In, BOut, Error>,
    C: Parser<In, COut, Error>,
    D: Parser<In, DOut, Error>,
 {
    open spec fn all_wf(&self) -> bool {
        &&& self.0.wf()
        &&& self.1.wf()
        &&& self.2.wf()
        &&& self.3.wf()
    }

    open spec fn chain_from(
        &self,
        start: int,
        pre: ContextView<In::Token, Error>,
        res: Result<(AOut, BOut, COut, DOut), Option<Error>>,
        post: ContextView<In::Token, Error>,
    ) -> bool {
        exists|first: Result<AOut, Option<Error>>, mid: ContextView<In::Token, Error>| #[trigger]
            self.0.run(pre, first, mid) && match first {
                Ok(output) => exists|rest: Result<(BOut, COut, DOut), Option<Error>>| #[trigger]
                    (self.1, self.2, self.3).chain_from(start, mid, rest, post) && match rest {
                        Ok(others) => res == Ok::<(AOut, BOut, COut, DOut), Option<Error>>(
                            (output, others.0, others.1, others.2),
                        ),
                        Err(err) => res == Err::<(AOut, BOut, COut, DOut), Option<Error>>(err),
                    },
                Err(err) => res == Err::<(AOut, BOut, COut, DOut), Option<Error>>(err) && post == mid.at(start),
            }
    }

    proof fn lemma_chain_failure(
        &self,
        start: int,
        pre: ContextView<In::Token, Error>,
        res: Result<(AOut, BOut, COut, DOut), Option<Error>>,
        post: ContextView<In::Token, Error>,
    ) {
        let (first, mid) = choose|
            first: Result<AOut, Option<Error>>,
            mid: ContextView<In::Token, Error>,
        | #[trigger]
            self.0.run(pre, first, mid) && match first {
                Ok(output) => exists|rest: Result<(BOut, COut, DOut), Option<Error>>| #[trigger]
                    (self.1, self.2, self.3).chain_from(start, mid, rest, post) && match rest {
                        Ok(others) => res == Ok::<(AOut, BOut, COut, DOut), Option<Error>>(
                            (output, others.0, others.1, others.2),
                        ),
                        Err(err) => res == Err::<(AOut, BOut, COut, DOut), Option<Error>>(err),
                    },
                Err(err) => res == Err::<(AOut, BOut, COut, DOut), Option<Error>>(err) && post == mid.at(start),
            };
        if let Ok(output) = first {
            let rest = choose|rest: Result<(BOut, COut, DOut), Option<Error>>| #[trigger]
                (self.1, self.2, self.3).chain_from(start, mid, rest, post) && match rest {
                    Ok(others) => res == Ok::<(AOut, BOut, COut, DOut), Option<Error>>(
                        (output, others.0, others.1, others.2),
                    ),
                    Err(err) => res == Err::<(AOut, BOut, COut, DOut), Option<Error>>(err),
                };
            (self.1, self.2, self.3).lemma_chain_failure(start, mid, rest, post);
        }
    }

    fn parse_chain(&self, context: &mut Context<In, Error>) -> (res: ParseResult<(AOut, BOut, COut, DOut), Error>) {
        proof {
            context.lemma_index_in_bounds();
        }
        let start = context.location();
        let ghost from = context@.index;

        let ghost s0 = context@;
        let r0 = self.0.parse(context);
        let ghost m0 = context@;
        let a_out = match r0.to_result() {
            Ok(output) => output,
            Err(err) => {
                context.set_location(start);
                proof {
                    assert((self.0, self.1, self.2, self.3).0 == self.0);
                    assert((self.0, self.1, self.2, self.3).chain_from(
                        from,
                        s0,
                        Err::<(AOut, BOut, COut, DOut), Option<Error>>(err),
                        context@,
                    ));
                }
                return ParseResult::err(err);
            },
        };
        let ghost s1 = context@;
        let r1 = self.1.parse(context);
        let ghost m1 = context@;
        let b_out = match r1.to_result() {
            Ok(output) => output,
            Err(err) => {
                context.set_location(start);
                proof {
                    assert((self.1, self.2, self.3).0 == self.1);
                    assert(((self.1, self.2, self.3).1, (self.1, self.2, self.3).2) == (self.2, self.3));
                    assert((self.1, self.2, self.3).chain_from(
                        from,
                        s1,
                        Err::<(BOut, COut, DOut), Option<Error>>(err),
                        context@,
                    ));
                    assert((self.0, self.1, self.2, self.3).0 == self.0);
                    assert((self.0, self.1, self.2, self.3).chain_from(
                        from,
                        s0,
                        Err::<(AOut, BOut, COut, DOut), Option<Error>>(err),
                        context@,
                    ));
                }
                return ParseResult::err(err);
            },
        };
        let ghost s2 = context@;
        let r2 = self.2.parse(context);
        let ghost m2 = context@;
        let c_out = match r2.to_result() {
            Ok(output) => output,
            Err(err) => {
                context.set_location(start);
                proof {
                    assert((self.2, self.3).0 == self.2);
                    assert(((self.2, self.3).1,) == (self.3,));
                    assert((self.2, self.3).chain_from(
                        from,
                        s2,
                        Err::<(COut, DOut), Option<Error>>(err),
                        context@,
                    ));
                    assert((self.1, self.2, self.3).0 == self.1);
                    assert(((self.1, self.2, self.3).1, (self.1, self.2, self.3).2) == (self.2, self.3));
                    assert((self.1, self.2, self.3).chain_from(
                        from,
                        s1,
                        Err::<(BOut, COut, DOut), Option<Error>>(err),
                        context@,
                    ));
                    assert((self.0, self.1, self.2, self.3).0 == self.0);
                    assert((self.0, self.1, self.2, self.3).chain_from(
                        from,
                        s0,
                        Err::<(AOut, BOut, COut, DOut), Option<Error>>(err),
                        context@,
                    ));
                }
                return ParseResult::err(err);
            },
        };
        let ghost s3 = context@;
        let r3 = self.3.parse(context);
        let ghost m3 = context@;
        let d_out = match r3.to_result() {
            Ok(output) => output,
            Err(err) => {
                context.set_location(start);
                proof {
                    assert((self.3,).0 == self.3);
                    assert((self.3,).chain_from(
                        from,
                        s3,
                        Err::<(DOut,), Option<Error>>(err),
                        context@,
                    ));
                    assert((self.2, self.3).0 == self.2);
                    assert(((self.2, self.3).1,) == (self.3,));
                    assert((self.2, self.3).chain_from(
                        from,
                        s2,
                        Err::<(COut, DOut), Option<Error>>(err),
                        context@,
                    ));
                    assert((self.1, self.2, self.3).0 == self.1);
                    assert(((self.1, self.2, self.3).1, (self.1, self.2, self.3).2) == (self.2, self.3));
                    assert((self.1, self.2, self.3).chain_from(
                        from,
                        s1,
                        Err::<(BOut, COut, DOut), Option<Error>>(err),
                        context@,
                    ));
                    assert((self.0, self.1, self.2, self.3).0 == self.0);
                    assert((self.0, self.1, self.2, self.3).chain_from(
                        from,
                        s0,
                        Err::<(AOut, BOut, COut, DOut), Option<Error>>(err),
                        context@,
                    ));
                }
                return ParseResult::err(err);
            },
        };
        proof {
            assert((self.3,).0 == self.3);
            assert((self.3,).chain_from(
                from,
                s3,
                Ok::<(DOut,), Option<Error>>((d_out,)),
                context@,
            ));
            assert((self.2, self.3).0 == self.2);
            assert(((self.2, self.3).1,) == (self.3,));
            assert((self.2, self.3).chain_from(
                from,
                s2,
                Ok::<(COut, DOut), Option<Error>>((c_out, d_out)),
                context@,
            ));
            assert((self.1, self.2, self.3).0 == self.1);
            assert(((self.1, self.2, self.3).1, (self.1, self.2, self.3).2) == (self.2, self.3));
            assert((self.1, self.2, self.3).chain_from(
                from,
                s1,
                Ok::<(BOut, COut, DOut), Option<Error>>((b_out, c_out, d_out)),
                context@,
            ));
            assert((self.0, self.1, self.2, self.3).0 == self.0);
            assert((self.0, self.1, self.2, self.3).chain_from(
                from,
                s0,
                Ok::<(AOut, BOut, COut, DOut), Option<Error>>((a_out, b_out, c_out, d_out)),
                context@,
            ));
        }
        ParseResult::ok((a_out, b_out, c_out, d_out))
    }
}

impl<In, A, AOut, B, BOut, C, COut, D, DOut, E, EOut, Error> ChainParsers<In, (AOut, BOut, COut, DOut, EOut), Error> for (A, B, C, D, E) where
    In: Slice,
    A: Parser<In, AOut, Error>,
    B: Parser<In, BOut, Error>,
    C: Parser<In, COut, Error>,
    D: Parser<In, DOut, Error>,
    E: Parser<In, EOut, Error>,
 {
    open spec fn all_wf(&self) -> bool {
        &&& self.0.wf()
        &&& self.1.wf()
        &&& self.2.wf()
        &&& self.3.wf()
        &&& self.4.wf()
    }

    open spec fn chain_from(
        &self,
        start: int,
        pre: ContextView<In::Token, Error>,
        res: Result<(AOut, BOut, COut, DOut, EOut), Option<Error>>,
        post: ContextView<In::Token, Error>,
    ) -> bool {
        exists|first: Result<AOut, Option<Error>>, mid: ContextView<In::Token, Error>| #[trigger]
            self.0.run(pre, first, mid) && match first {
                Ok(output) => exists|rest: Result<(BOut, COut, DOut, EOut), Option<Error>>| #[trigger]
                    (self.1, self.2, self.3, self.4).chain_from(start, mid, rest, post) && match rest {
                        Ok(others) => res == Ok::<(AOut, BOut, COut, DOut, EOut), Option<Error>>(
                            (output, others.0, others.1, others.2, others.3),
                        ),
                        Err(err) => res == Err::<(AOut, BOut, COut, DOut, EOut), Option<Error>>(err),
                    },
                Err(err) => res == Err::<(AOut, BOut, COut, DOut, EOut), Option<Error>>(err) && post == mid.at(start),
            }
    }

    proof fn lemma_chain_failure(
        &self,
        start: int,
        pre: ContextView<In::Token, Error>,
        res: Result<(AOut, BOut, COut, DOut, EOut), Option<Error>>,
        post: ContextView<In::Token, Error>,
    ) {
        let (first, mid) = choose|
            first: Result<AOut, Option<Error>>,
            mid: ContextView<In::Token, Error>,
        | #[trigger]
            self.0.run(pre, first, mid) && match first {
                Ok(output) => exists|rest: Result<(BOut, COut, DOut, EOut), Option<Error>>| #[trigger]
                    (self.1, self.2, self.3, self.4).chain_from(start, mid, rest, post) && match rest {
                        Ok(others) => res == Ok::<(AOut, BOut, COut, DOut, EOut), Option<Error>>(
                            (output, others.0, others.1, others.2, others.3),
                        ),
                        Err(err) => res == Err::<(AOut, BOut, COut, DOut, EOut), Option<Error>>(err),
                    },
                Err(err) => res == Err::<(AOut, BOut, COut, DOut, EOut), Option<Error>>(err) && post == mid.at(start),
            };
        if let Ok(output) = first {
            let rest = choose|rest: Result<(BOut, COut, DOut, EOut), Option<Error>>| #[trigger]
                (self.1, self.2, self.3, self.4).chain_from(start, mid, rest, post) && match rest {
                    Ok(others) => res == Ok::<(AOut, BOut, COut, DOut, EOut), Option<Error>>(
                        (output, others.0, others.1, others.2, others.3),
                    ),
                    Err(err) => res == Err::<(AOut, BOut, COut, DOut, EOut), Option<Error>>(err),
                };
            (self.1, self.2, self.3, self.4).lemma_chain_failure(start, mid, rest, post);
        }
    }

    fn parse_chain(&self, context: &mut Context<In, Error>) -> (res: ParseResult<(AOut, BOut, COut, DOut, EOut), Error>) {
        proof {
            context.lemma_index_in_bounds();
        }
        let start = context.location();
        let ghost from = context@.index;

        let ghost s0 = context@;
        let r0 = self.0.parse(context);
        let ghost m0 = context@;
        let a_out = match r0.to_result() {
            Ok(output) => output,
            Err(err) => {
                context.set_location(start);
                proof {
                    assert((self.0, self.1, self.2, self.3, self.4).0 == self.0);
                    assert((self.0, self.1, self.2, self.3, self.4).chain_from(
                        from,
                        s0,
                        Err::<(AOut, BOut, COut, DOut, EOut), Option<Error>>(err),
                        context@,
                    ));
                }
                return ParseResult::err(err);
            },
        };
        let ghost s1 = context@;
        let r1 = self.1.parse(context);
        let ghost m1 = context@;
        let b_out = match r1.to_result() {
            Ok(output) => output,
            Err(err) => {
                context.set_location(start);
                proof {
                    assert((self.1, self.2, self.3, self.4).0 == self.1);
                    assert(((self.1, self.2, self.3, self.4).1, (self.1, self.2, self.3, self.4).2, (self.1, self.2, self.3, self.4).3) == (self.2, self.3, self.4));
                    assert((self.1, self.2, self.3, self.4).chain_from(
                        from,
                        s1,
                        Err::<(BOut, COut, DOut, EOut), Option<Error>>(err),
                        context@,
                    ));
                    assert((self.0, self.1, self.2, self.3, self.4).0 == self.0);
                    assert((self.0, self.1, self.2, self.3, self.4).chain_from(
                        from,
                        s0,
                        Err::<(AOut, BOut, COut, DOut, EOut), Option<Error>>(err),
                        context@,
                    ));
                }
                return ParseResult::err(err);
            },
        };
        let ghost s2 = context@;
        let r2 = self.2.parse(context);
        let ghost m2 = context@;
        let c_out = match r2.to_result() {
            Ok(output) => output,
            Err(err) => {
                context.set_location(start);
                proof {
                    assert((self.2, self.3, self.4).0 == self.2);
                    assert(((self.2, self.3, self.4).1, (self.2, self.3, self.4).2) == (self.3, self.4));
                    assert((self.2, self.3, self.4).chain_from(
                        from,
                        s2,
                        Err::<(COut, DOut, EOut), Option<Error>>(err),
                        context@,
                    ));
                    assert((self.1, self.2, self.3, self.4).0 == self.1);
                    assert(((self.1, self.2, self.3, self.4).1, (self.1, self.2, self.3, self.4).2, (self.1, self.2, self.3, self.4).3) == (self.2, self.3, self.4));
                    assert((self.1, self.2, self.3, self.4).chain_from(
                        from,
                        s1,
                        Err::<(BOut, COut, DOut, EOut), Option<Error>>(err),
                        context@,
                    ));
                    assert((self.0, self.1, self.2, self.3, self.4).0 == self.0);
                    assert((self.0, self.1, self.2, self.3, self.4).chain_from(
                        from,
                        s0,
                        Err::<(AOut, BOut, COut, DOut, EOut), Option<Error>>(err),
                        context@,
                    ));
                }
                return ParseResult::err(err);
            },
        };
        let ghost s3 = context@;
        let r3 = self.3.parse(context);
        let ghost m3 = context@;
        let d_out = match r3.to_result() {
            Ok(output) => output,
            Err(err) => {
                context.set_location(start);
                proof {
                    assert((self.3, self.4).0 == self.3);
                    assert(((self.3, self.4).1,) == (self.4,));
                    assert((self.3, self.4).chain_from(
                        from,
                        s3,
                        Err::<(DOut, EOut), Option<Error>>(err),
                        context@,
                    ));
                    assert((self.2, self.3, self.4).0 == self.2);
                    assert(((self.2, self.3, self.4).1, (self.2, self.3, self.4).2) == (self.3, self.4));
                    assert((self.2, self.3, self.4).chain_from(
                        from,
                        s2,
                        Err::<(COut, DOut, EOut), Option<Error>>(err),
                        context@,
                    ));
                    assert((self.1, self.2, self.3, self.4).0 == self.1);
                    assert(((self.1, self.2, self.3, self.4).1, (self.1, self.2, self.3, self.4).2, (self.1, self.2, self.3, self.4).3) == (self.2, self.3, self.4));
                    assert((self.1, self.2, self.3, self.4).chain_from(
                        from,
                        s1,
                        Err::<(BOut, COut, DOut, EOut), Option<Error>>(err),
                        context@,
                    ));
                    assert((self.0, self.1, self.2, self.3, self.4).0 == self.0);
                    assert((self.0, self.1, self.2, self.3, self.4).chain_from(
                        from,
                        s0,
                        Err::<(AOut, BOut, COut, DOut, EOut), Option<Error>>(err),
                        context@,
                    ));
                }
                return ParseResult::err(err);
            },
        };
        let ghost s4 = context@;
        let r4 = self.4.parse(context);
        let ghost m4 = context@;
        let e_out = match r4.to_result() {
            Ok(output) => output,
            Err(err) => {
                context.set_location(start);
                proof {
                    assert((self.4,).0 == self.4);
                    assert((self.4,).chain_from(
                        from,
                        s4,
                        Err::<(EOut,), Option<Error>>(err),
                        context@,
                    ));
                    assert((self.3, self.4).0 == self.3);
                    assert(((self.3, self.4).1,) == (self.4,));
                    assert((self.3, self.4).chain_from(
                        from,
                        s3,
                        Err::<(DOut, EOut), Option<Error>>(err),
                        context@,
                    ));
                    assert((self.2, self.3, self.4).0 == self.2);
                    assert(((self.2, self.3, self.4).1, (self.2, self.3, self.4).2) == (self.3, self.4));
                    assert((self.2, self.3, self.4).chain_from(
                        from,
                        s2,
                        Err::<(COut, DOut, EOut), Option<Error>>(err),
                        context@,
                    ));
                    assert((self.1, self.2, self.3, self.4).0 == self.1);
                    assert(((self.1, self.2, self.3, self.4).1, (self.1, self.2, self.3, self.4).2, (self.1, self.2, self.3, self.4).3) == (self.2, self.3, self.4));
                    assert((self.1, self.2, self.3, self.4).chain_from(
                        from,
                        s1,
                        Err::<(BOut, COut, DOut, EOut), Option<Error>>(err),
                        context@,
                    ));
                    assert((self.0, self.1, self.2, self.3, self.4).0 == self.0);
                    assert((self.0, self.1, self.2, self.3, self.4).chain_from(
                        from,
                        s0,
                        Err::<(AOut, BOut, COut, DOut, EOut), Option<Error>>(err),
                        context@,
                    ));
                }
                return ParseResult::err(err);
            },
        };
        proof {
            assert((self.4,).0 == self.4);
            assert((self.4,).chain_from(
                from,
                s4,
                Ok::<(EOut,), Option<Error>>((e_out,)),
                context@,
            ));
            assert((self.3, self.4).0 == self.3);
            assert(((self.3, self.4).1,) == (self.4,));
            assert((self.3, self.4).chain_from(
                from,
                s3,
                Ok::<(DOut, EOut), Option<Error>>((d_out, e_out)),
                context@,
            ));
            assert((self.2, self.3, self.4).0 == self.2);
            assert(((self.2, self.3, self.4).1, (self.2, self.3, self.4).2) == (self.3, self.4));
            assert((self.2, self.3, self.4).chain_from(
                from,
                s2,
                Ok::<(COut, DOut, EOut), Option<Error>>((c_out, d_out, e_out)),
                context@,
            ));
            assert((self.1, self.2, self.3, self.4).0 == self.1);
            assert(((self.1, self.2, self.3, self.4).1, (self.1, self.2, self.3, self.4).2, (self.1, self.2, self.3, self.4).3) == (self.2, self.3, self.4));
            assert((self.1, self.2, self.3, self.4).chain_from(
                from,
                s1,
                Ok::<(BOut, COut, DOut, EOut), Option<Error>>((b_out, c_out, d_out, e_out)),
                context@,
            ));
            assert((self.0, self.1, self.2, self.3, self.4).0 == self.0);
            assert((self.0, self.1, self.2, self.3, self.4).chain_from(
                from,
                s0,
                Ok::<(AOut, BOut, COut, DOut, EOut), Option<Error>>((a_out, b_out, c_out, d_out, e_out)),
                context@,
            ));
        }
        ParseResult::ok((a_out, b_out, c_out, d_out, e_out))
    }
}

impl<In, A, AOut, B, BOut, C, COut, D, DOut, E, EOut, F, FOut, Error> ChainParsers<In, (AOut, BOut, COut, DOut, EOut, FOut), Error> for (A, B, C, D, E, F) where
    In: Slice,
    A: Parser<In, AOut, Error>,
    B: Parser<In, BOut, Error>,
    C: Parser<In, COut, Error>,
    D: Parser<In, DOut, Error>,
    E: Parser<In, EOut, Error>,
    F: Parser<In, FOut, Error>,
 {
    open spec fn all_wf(&self) -> bool {
        &&& self.0.wf()
        &&& self.1.wf()
        &&& self.2.wf()
        &&& self.3.wf()
        &&& self.4.wf()
        &&& self.5.wf()
    }

    open spec fn chain_from(
        &self,
        start: int,
        pre: ContextView<In::Token, Error>,
        res: Result<(AOut, BOut, COut, DOut, EOut, FOut), Option<Error>>,
        post: ContextView<In::Token, Error>,
    ) -> bool {
        exists|first: Result<AOut, Option<Error>>, mid: ContextView<In::Token, Error>| #[trigger]
            self.0.run(pre, first, mid) && match first {
                Ok(output) => exists|rest: Result<(BOut, COut, DOut, EOut, FOut), Option<Error>>| #[trigger]
                    (self.1, self.2, self.3, self.4, self.5).chain_from(start, mid, rest, post) && match rest {
                        Ok(others) => res == Ok::<(AOut, BOut, COut, DOut, EOut, FOut), Option<Error>>(
                            (output, others.0, others.1, others.2, others.3, others.4),
                        ),
                        Err(err) => res == Err::<(AOut, BOut, COut, DOut, EOut, FOut), Option<Error>>(err),
                    },
                Err(err) => res == Err::<(AOut, BOut, COut, DOut, EOut, FOut), Option<Error>>(err) && post == mid.at(start),
            }
    }

    proof fn lemma_chain_failure(
        &self,
        start: int,
        pre: ContextView<In::Token, Error>,
        res: Result<(AOut, BOut, COut, DOut, EOut, FOut), Option<Error>>,
        post: ContextView<In::Token, Error>,
    ) {
        let (first, mid) = choose|
            first: Result<AOut, Option<Error>>,
            mid: ContextView<In::Token, Error>,
        | #[trigger]
            self.0.run(pre, first, mid) && match first {
                Ok(output) => exists|rest: Result<(BOut, COut, DOut, EOut, FOut), Option<Error>>| #[trigger]
                    (self.1, self.2, self.3, self.4, self.5).chain_from(start, mid, rest, post) && match rest {
                        Ok(others) => res == Ok::<(AOut, BOut, COut, DOut, EOut, FOut), Option<Error>>(
                            (output, others.0, others.1, others.2, others.3, others.4),
                        ),
                        Err(err) => res == Err::<(AOut, BOut, COut, DOut, EOut, FOut), Option<Error>>(err),
                    },
                Err(err) => res == Err::<(AOut, BOut, COut, DOut, EOut, FOut), Option<Error>>(err) && post == mid.at(start),
            };
        if let Ok(output) = first {
            let rest = choose|rest: Result<(BOut, COut, DOut, EOut, FOut), Option<Error>>| #[trigger]
                (self.1, self.2, self.3, self.4, self.5).chain_from(start, mid, rest, post) && match rest {
                    Ok(others) => res == Ok::<(AOut, BOut, COut, DOut, EOut, FOut), Option<Error>>(
                        (output, others.0, others.1, others.2, others.3, others.4),
                    ),
                    Err(err) => res == Err::<(AOut, BOut, COut, DOut, EOut, FOut), Option<Error>>(err),
                };
            (self.1, self.2, self.3, self.4, self.5).lemma_chain_failure(start, mid, rest, post);
        }
    }

    fn parse_chain(&self, context: &mut Context<In, Error>) -> (res: ParseResult<(AOut, BOut, COut, DOut, EOut, FOut), Error>) {
        proof {
            context.lemma_index_in_bounds();
        }
        let start = context.location();
        let ghost from = context@.index;

        let ghost s0 = context@;
        let r0 = self.0.parse(context);
        let ghost m0 = context@;
        let a_out = match r0.to_result() {
            Ok(output) => output,
            Err(err) => {
                context.set_location(start);
                proof {
                    assert((self.0, self.1, self.2, self.3, self.4, self.5).0 == self.0);
                    assert((self.0, self.1, self.2, self.3, self.4, self.5).chain_from(
                        from,
                        s0,
                        Err::<(AOut, BOut, COut, DOut, EOut, FOut), Option<Error>>(err),
                        context@,
                    ));
                }
                return ParseResult::err(err);
            },
        };
        let ghost s1 = context@;
        let r1 = self.1.parse(context);
        let ghost m1 = context@;
        let b_out = match r1.to_result() {
            Ok(output) => output,
            Err(err) => {
                context.set_location(start);
                proof {
                    assert((self.1, self.2, self.3, self.4, self.5).0 == self.1);
                    assert(((self.1, self.2, self.3, self.4, self.5).1, (self.1, self.2, self.3, self.4, self.5).2, (self.1, self.2, self.3, self.4, self.5).3, (self.1, self.2, self.3, self.4, self.5).4) == (self.2, self.3, self.4, self.5));
                    assert((self.1, self.2, self.3, self.4, self.5).chain_from(
                        from,
                        s1,
                        Err::<(BOut, COut, DOut, EOut, FOut), Option<Error>>(err),
                        context@,
                    ));
                    assert((self.0, self.1, self.2, self.3, self.4, self.5).0 == self.0);
                    assert((self.0, self.1, self.2, self.3, self.4, self.5).chain_from(
                        from,
                        s0,
                        Err::<(AOut, BOut, COut, DOut, EOut, FOut), Option<Error>>(err),
                        context@,
                    ));
                }
                return ParseResult::err(err);
            },
        };
        let ghost s2 = context@;
        let r2 = self.2.parse(context);
        let ghost m2 = context@;
        let c_out = match r2.to_result() {
            Ok(output) => output,
            Err(err) => {
                context.set_location(start);
                proof {
                    assert((self.2, self.3, self.4, self.5).0 == self.2);
                    assert(((self.2, self.3, self.4, self.5).1, (self.2, self.3, self.4, self.5).2, (self.2, self.3, self.4, self.5).3) == (self.3, self.4, self.5));
                    assert((self.2, self.3, self.4, self.5).chain_from(
                        from,
                        s2,
                        Err::<(COut, DOut, EOut, FOut), Option<Error>>(err),
                        context@,
                    ));
                    assert((self.1, self.2, self.3, self.4, self.5).0 == self.1);
                    assert(((self.1, self.2, self.3, self.4, self.5).1, (self.1, self.2, self.3, self.4, self.5).2, (self.1, self.2, self.3, self.4, self.5).3, (self.1, self.2, self.3, self.4, self.5).4) == (self.2, self.3, self.4, self.5));
                    assert((self.1, self.2, self.3, self.4, self.5).chain_from(
                        from,
                        s1,
                        Err::<(BOut, COut, DOut, EOut, FOut), Option<Error>>(err),
                        context@,
                    ));
                    assert((self.0, self.1, self.2, self.3, self.4, self.5).0 == self.0);
                    assert((self.0, self.1, self.2, self.3, self.4, self.5).chain_from(
                        from,
                        s0,
                        Err::<(AOut, BOut, COut, DOut, EOut, FOut), Option<Error>>(err),
                        context@,
                    ));
                }
                return ParseResult::err(err);
            },
        };
        let ghost s3 = context@;
        let r3 = self.3.parse(context);
        let ghost m3 = context@;
        let d_out = match r3.to_result() {
            Ok(output) => output,
            Err(err) => {
                context.set_location(start);
                proof {
                    assert((self.3, self.4, self.5).0 == self.3);
                    assert(((self.3, self.4, self.5).1, (self.3, self.4, self.5).2) == (self.4, self.5));
                    assert((self.3, self.4, self.5).chain_from(
                        from,
                        s3,
                        Err::<(DOut, EOut, FOut), Option<Error>>(err),
                        context@,
                    ));
                    assert((self.2, self.3, self.4, self.5).0 == self.2);
                    assert(((self.2, self.3, self.4, self.5).1, (self.2, self.3, self.4, self.5).2, (self.2, self.3, self.4, self.5).3) == (self.3, self.4, self.5));
                    assert((self.2, self.3, self.4, self.5).chain_from(
                        from,
                        s2,
                        Err::<(COut, DOut, EOut, FOut), Option<Error>>(err),
                        context@,
                    ));
                    assert((self.1, self.2, self.3, self.4, self.5).0 == self.1);
                    assert(((self.1, self.2, self.3, self.4, self.5).1, (self.1, self.2, self.3, self.4, self.5).2, (self.1, self.2, self.3, self.4, self.5).3, (self.1, self.2, self.3, self.4, self.5).4) == (self.2, self.3, self.4, self.5));
                    assert((self.1, self.2, self.3, self.4, self.5).chain_from(
                        from,
                        s1,
                        Err::<(BOut, COut, DOut, EOut, FOut), Option<Error>>(err),
                        context@,
                    ));
                    assert((self.0, self.1, self.2, self.3, self.4, self.5).0 == self.0);
                    assert((self.0, self.1, self.2, self.3, self.4, self.5).chain_from(
                        from,
                        s0,
                        Err::<(AOut, BOut, COut, DOut, EOut, FOut), Option<Error>>(err),
                        context@,
                    ));
                }
                return ParseResult::err(err);
            },
        };
        let ghost s4 = context@;
        let r4 = self.4.parse(context);
        let ghost m4 = context@;
        let e_out = match r4.to_result() {
            Ok(output) => output,
            Err(err) => {
                context.set_location(start);
                proof {
                    assert((self.4, self.5).0 == self.4);
                    assert(((self.4, self.5).1,) == (self.5,));
                    assert((self.4, self.5).chain_from(
                        from,
                        s4,
                        Err::<(EOut, FOut), Option<Error>>(err),
                        context@,
                    ));
                    assert((self.3, self.4, self.5).0 == self.3);
                    assert(((self.3, self.4, self.5).1, (self.3, self.4, self.5).2) == (self.4, self.5));
                    assert((self.3, self.4, self.5).chain_from(
                        from,
                        s3,
                        Err::<(DOut, EOut, FOut), Option<Error>>(err),
                        context@,
                    ));
                    assert((self.2, self.3, self.4, self.5).0 == self.2);
                    assert(((self.2, self.3, self.4, self.5).1, (self.2, self.3, self.4, self.5).2, (self.2, self.3, self.4, self.5).3) == (self.3, self.4, self.5));
                    assert((self.2, self.3, self.4, self.5).chain_from(
                        from,
                        s2,
                        Err::<(COut, DOut, EOut, FOut), Option<Error>>(err),
                        context@,
                    ));
                    assert((self.1, self.2, self.3, self.4, self.5).0 == self.1);
                    assert(((self.1, self.2, self.3, self.4, self.5).1, (self.1, self.2, self.3, self.4, self.5).2, (self.1, self.2, self.3, self.4, self.5).3, (self.1, self.2, self.3, self.4, self.5).4) == (self.2, self.3, self.4, self.5));
                    assert((self.1, self.2, self.3, self.4, self.5).chain_from(
                        from,
                        s1,
                        Err::<(BOut, COut, DOut, EOut, FOut), Option<Error>>(err),
                        context@,
                    ));
                    assert((self.0, self.1, self.2, self.3, self.4, self.5).0 == self.0);
                    assert((self.0, self.1, self.2, self.3, self.4, self.5).chain_from(
                        from,
                        s0,
                        Err::<(AOut, BOut, COut, DOut, EOut, FOut), Option<Error>>(err),
                        context@,
                    ));
                }
                return ParseResult::err(err);
            },
        };
        let ghost s5 = context@;
        let r5 = self.5.parse(context);
        let ghost m5 = context@;
        let f_out = match r5.to_result() {
            Ok(output) => output,
            Err(err) => {
                context.set_location(start);
                proof {
                    assert((self.5,).0 == self.5);
                    assert((self.5,).chain_from(
                        from,
                        s5,
                        Err::<(FOut,), Option<Error>>(err),
                        context@,
                    ));
                    assert((self.4, self.5).0 == self.4);
                    assert(((self.4, self.5).1,) == (self.5,));
                    assert((self.4, self.5).chain_from(
                        from,
                        s4,
                        Err::<(EOut, FOut), Option<Error>>(err),
                        context@,
                    ));
                    assert((self.3, self.4, self.5).0 == self.3);
                    assert(((self.3, self.4, self.5).1, (self.3, self.4, self.5).2) == (self.4, self.5));
                    assert((self.3, self.4, self.5).chain_from(
                        from,
                        s3,
                        Err::<(DOut, EOut, FOut), Option<Error>>(err),
                        context@,
                    ));
                    assert((self.2, self.3, self.4, self.5).0 == self.2);
                    assert(((self.2, self.3, self.4, self.5).1, (self.2, self.3, self.4, self.5).2, (self.2, self.3, self.4, self.5).3) == (self.3, self.4, self.5));
                    assert((self.2, self.3, self.4, self.5).chain_from(
                        from,
                        s2,
                        Err::<(COut, DOut, EOut, FOut), Option<Error>>(err),
                        context@,
                    ));
                    assert((self.1, self.2, self.3, self.4, self.5).0 == self.1);
                    assert(((self.1, self.2, self.3, self.4, self.5).1, (self.1, self.2, self.3, self.4, self.5).2, (self.1, self.2, self.3, self.4, self.5).3, (self.1, self.2, self.3, self.4, self.5).4) == (self.2, self.3, self.4, self.5));
                    assert((self.1, self.2, self.3, self.4, self.5).chain_from(
                        from,
                        s1,
                        Err::<(BOut, COut, DOut, EOut, FOut), Option<Error>>(err),
                        context@,
                    ));
                    assert((self.0, self.1, self.2, self.3, self.4, self.5).0 == self.0);
                    assert((self.0, self.1, self.2, self.3, self.4, self.5).chain_from(
                        from,
                        s0,
                        Err::<(AOut, BOut, COut, DOut, EOut, FOut), Option<Error>>(err),
                        context@,
                    ));
                }
                return ParseResult::err(err);
            },
        };
        proof {
            assert((self.5,).0 == self.5);
            assert((self.5,).chain_from(
                from,
                s5,
                Ok::<(FOut,), Option<Error>>((f_out,)),
                context@,
            ));
            assert((self.4, self.5).0 == self.4);
            assert(((self.4, self.5).1,) == (self.5,));
            assert((self.4, self.5).chain_from(
                from,
                s4,
                Ok::<(EOut, FOut), Option<Error>>((e_out, f_out)),
                context@,
            ));
            assert((self.3, self.4, self.5).0 == self.3);
            assert(((self.3, self.4, self.5).1, (self.3, self.4, self.5).2) == (self.4, self.5));
            assert((self.3, self.4, self.5).chain_from(
                from,
                s3,
                Ok::<(DOut, EOut, FOut), Option<Error>>((d_out, e_out, f_out)),
                context@,
            ));
            assert((self.2, self.3, self.4, self.5).0 == self.2);
            assert(((self.2, self.3, self.4, self.5).1, (self.2, self.3, self.4, self.5).2, (self.2, self.3, self.4, self.5).3) == (self.3, self.4, self.5));
            assert((self.2, self.3, self.4, self.5).chain_from(
                from,
                s2,
                Ok::<(COut, DOut, EOut, FOut), Option<Error>>((c_out, d_out, e_out, f_out)),
                context@,
            ));
            assert((self.1, self.2, self.3, self.4, self.5).0 == self.1);
            assert(((self.1, self.2, self.3, self.4, self.5).1, (self.1, self.2, self.3, self.4, self.5).2, (self.1, self.2, self.3, self.4, self.5).3, (self.1, self.2, self.3, self.4, self.5).4) == (self.2, self.3, self.4, self.5));
            assert((self.1, self.2, self.3, self.4, self.5).chain_from(
                from,
                s1,
                Ok::<(BOut, COut, DOut, EOut, FOut), Option<Error>>((b_out, c_out, d_out, e_out, f_out)),
                context@,
            ));
            assert((self.0, self.1, self.2, self.3, self.4, self.5).0 == self.0);
            assert((self.0, self.1, self.2, self.3, self.4, self.5).chain_from(
                from,
                s0,
                Ok::<(AOut, BOut, COut, DOut, EOut, FOut), Option<Error>>((a_out, b_out, c_out, d_out, e_out, f_out)),
                context@,
            ));
        }
        ParseResult::ok((a_out, b_out, c_out, d_out, e_out, f_out))
    }
}

impl<In, A, AOut, B, BOut, C, COut, D, DOut, E, EOut, F, FOut, G, GOut, Error> ChainParsers<In, (AOut, BOut, COut, DOut, EOut, FOut, GOut), Error> for (A, B, C, D, E, F, G) where
    In: Slice,
    A: Parser<In, AOut, Error>,
    B: Parser<In, BOut, Error>,
    C: Parser<In, COut, Error>,
    D: Parser<In, DOut, Error>,
    E: Parser<In, EOut, Error>,
    F: Parser<In, FOut, Error>,
    G: Parser<In, GOut, Error>,
 {
    open spec fn all_wf(&self) -> bool {
        &&& self.0.wf()
        &&& self.1.wf()
        &&& self.2.wf()
        &&& self.3.wf()
        &&& self.4.wf()
        &&& self.5.wf()
        &&& self.6.wf()
    }

    open spec fn chain_from(
        &self,
        start: int,
        pre: ContextView<In::Token, Error>,
        res: Result<(AOut, BOut, COut, DOut, EOut, FOut, GOut), Option<Error>>,
        post: ContextView<In::Token, Error>,
    ) -> bool {
        exists|first: Result<AOut, Option<Error>>, mid: ContextView<In::Token, Error>| #[trigger]
            self.0.run(pre, first, mid) && match first {
                Ok(output) => exists|rest: Result<(BOut, COut, DOut, EOut, FOut, GOut), Option<Error>>| #[trigger]
                    (self.1, self.2, self.3, self.4, self.5, self.6).chain_from(start, mid, rest, post) && match rest {
                        Ok(others) => res == Ok::<(AOut, BOut, COut, DOut, EOut, FOut, GOut), Option<Error>>(
                            (output, others.0, others.1, others.2, others.3, others.4, others.5),
                        ),
                        Err(err) => res == Err::<(AOut, BOut, COut, DOut, EOut, FOut, GOut), Option<Error>>(err),
                    },
                Err(err) => res == Err::<(AOut, BOut, COut, DOut, EOut, FOut, GOut), Option<Error>>(err) && post == mid.at(start),
            }
    }

    proof fn lemma_chain_failure(
        &self,
        start: int,
        pre: ContextView<In::Token, Error>,
        res: Result<(AOut, BOut, COut, DOut, EOut, FOut, GOut), Option<Error>>,
        post: ContextView<In::Token, Error>,
    ) {
        let (first, mid) = choose|
            first: Result<AOut, Option<Error>>,
            mid: ContextView<In::Token, Error>,
        | #[trigger]
            self.0.run(pre, first, mid) && match first {
                Ok(output) => exists|rest: Result<(BOut, COut, DOut, EOut, FOut, GOut), Option<Error>>| #[trigger]
                    (self.1, self.2, self.3, self.4, self.5, self.6).chain_from(start, mid, rest, post) && match rest {
                        Ok(others) => res == Ok::<(AOut, BOut, COut, DOut, EOut, FOut, GOut), Option<Error>>(
                            (output, others.0, others.1, others.2, others.3, others.4, others.5),
                        ),
                        Err(err) => res == Err::<(AOut, BOut, COut, DOut, EOut, FOut, GOut), Option<Error>>(err),
                    },
                Err(err) => res == Err::<(AOut, BOut, COut, DOut, EOut, FOut, GOut), Option<Error>>(err) && post == mid.at(start),
            };
        if let Ok(output) = first {
            let rest = choose|rest: Result<(BOut, COut, DOut, EOut, FOut, GOut), Option<Error>>| #[trigger]
                (self.1, self.2, self.3, self.4, self.5, self.6).chain_from(start, mid, rest, post) && match rest {
                    Ok(others) => res == Ok::<(AOut, BOut, COut, DOut, EOut, FOut, GOut), Option<Error>>(
                        (output, others.0, others.1, others.2, others.3, others.4, others.5),
                    ),
                    Err(err) => res == Err::<(AOut, BOut, COut, DOut, EOut, FOut, GOut), Option<Error>>(err),
                };
            (self.1, self.2, self.3, self.4, self.5, self.6).lemma_chain_failure(start, mid, rest, post);
        }
    }

    fn parse_chain(&self, context: &mut Context<In, Error>) -> (res: ParseResult<(AOut, BOut, COut, DOut, EOut, FOut, GOut), Error>) {
        proof {
            context.lemma_index_in_bounds();
        }
        let start = context.location();
        let ghost from = context@.index;

        let ghost s0 = context@;
        let r0 = self.0.parse(context);
        let ghost m0 = context@;
        let a_out = match r0.to_result() {
            Ok(output) => output,
            Err(err) => {
                context.set_location(start);
                proof {
                    assert((self.0, self.1, self.2, self.3, self.4, self.5, self.6).0 == self.0);
                    assert((self.0, self.1, self.2, self.3, self.4, self.5, self.6).chain_from(
                        from,
                        s0,
                        Err::<(AOut, BOut, COut, DOut, EOut, FOut, GOut), Option<Error>>(err),
                        context@,
                    ));
                }
                return ParseResult::err(err);
            },
        };
        let ghost s1 = context@;
        let r1 = self.1.parse(context);
        let ghost m1 = context@;
        let b_out = match r1.to_result() {
            Ok(output) => output,
            Err(err) => {
                context.set_location(start);
                proof {
                    assert((self.1, self.2, self.3, self.4, self.5, self.6).0 == self.1);
                    assert(((self.1, self.2, self.3, self.4, self.5, self.6).1, (self.1, self.2, self.3, self.4, self.5, self.6).2, (self.1, self.2, self.3, self.4, self.5, self.6).3, (self.1, self.2, self.3, self.4, self.5, self.6).4, (self.1, self.2, self.3, self.4, self.5, self.6).5) == (self.2, self.3, self.4, self.5, self.6));
                    assert((self.1, self.2, self.3, self.4, self.5, self.6).chain_from(
                        from,
                        s1,
                        Err::<(BOut, COut, DOut, EOut, FOut, GOut), Option<Error>>(err),
                        context@,
                    ));
                    assert((self.0, self.1, self.2, self.3, self.4, self.5, self.6).0 == self.0);
                    assert((self.0, self.1, self.2, self.3, self.4, self.5, self.6).chain_from(
                        from,
                        s0,
                        Err::<(AOut, BOut, COut, DOut, EOut, FOut, GOut), Option<Error>>(err),
                        context@,
                    ));
                }
                return ParseResult::err(err);
            },
        };
        let ghost s2 = context@;
        let r2 = self.2.parse(context);
        let ghost m2 = context@;
        let c_out = match r2.to_result() {
            Ok(output) => output,
            Err(err) => {
                context.set_location(start);
                proof {
                    assert((self.2, self.3, self.4, self.5, self.6).0 == self.2);
                    assert(((self.2, self.3, self.4, self.5, self.6).1, (self.2, self.3, self.4, self.5, self.6).2, (self.2, self.3, self.4, self.5, self.6).3, (self.2, self.3, self.4, self.5, self.6).4) == (self.3, self.4, self.5, self.6));
                    assert((self.2, self.3, self.4, self.5, self.6).chain_from(
                        from,
                        s2,
                        Err::<(COut, DOut, EOut, FOut, GOut), Option<Error>>(err),
                        context@,
                    ));
                    assert((self.1, self.2, self.3, self.4, self.5, self.6).0 == self.1);
                    assert(((self.1, self.2, self.3, self.4, self.5, self.6).1, (self.1, self.2, self.3, self.4, self.5, self.6).2, (self.1, self.2, self.3, self.4, self.5, self.6).3, (self.1, self.2, self.3, self.4, self.5, self.6).4, (self.1, self.2, self.3, self.4, self.5, self.6).5) == (self.2, self.3, self.4, self.5, self.6));
                    assert((self.1, self.2, self.3, self.4, self.5, self.6).chain_from(
                        from,
                        s1,
                        Err::<(BOut, COut, DOut, EOut, FOut, GOut), Option<Error>>(err),
                        context@,
                    ));
                    assert((self.0, self.1, self.2, self.3, self.4, self.5, self.6).0 == self.0);
                    assert((self.0, self.1, self.2, self.3, self.4, self.5, self.6).chain_from(
                        from,
                        s0,
                        Err::<(AOut, BOut, COut, DOut, EOut, FOut, GOut), Option<Error>>(err),
                        context@,
                    ));
                }
                return ParseResult::err(err);
            },
        };
        let ghost s3 = context@;
        let r3 = self.3.parse(context);
        let ghost m3 = context@;
        let d_out = match r3.to_result() {
            Ok(output) => output,
            Err(err) => {
                context.set_location(start);
                proof {
                    assert((self.3, self.4, self.5, self.6).0 == self.3);
                    assert(((self.3, self.4, self.5, self.6).1, (self.3, self.4, self.5, self.6).2, (self.3, self.4, self.5, self.6).3) == (self.4, self.5, self.6));
                    assert((self.3, self.4, self.5, self.6).chain_from(
                        from,
                        s3,
                        Err::<(DOut, EOut, FOut, GOut), Option<Error>>(err),
                        context@,
                    ));
                    assert((self.2, self.3, self.4, self.5, self.6).0 == self.2);
                    assert(((self.2, self.3, self.4, self.5, self.6).1, (self.2, self.3, self.4, self.5, self.6).2, (self.2, self.3, self.4, self.5, self.6).3, (self.2, self.3, self.4, self.5, self.6).4) == (self.3, self.4, self.5, self.6));
                    assert((self.2, self.3, self.4, self.5, self.6).chain_from(
                        from,
                        s2,
                        Err::<(COut, DOut, EOut, FOut, GOut), Option<Error>>(err),
                        context@,
                    ));
                    assert((self.1, self.2, self.3, self.4, self.5, self.6).0 == self.1);
                    assert(((self.1, self.2, self.3, self.4, self.5, self.6).1, (self.1, self.2, self.3, self.4, self.5, self.6).2, (self.1, self.2, self.3, self.4, self.5, self.6).3, (self.1, self.2, self.3, self.4, self.5, self.6).4, (self.1, self.2, self.3, self.4, self.5, self.6).5) == (self.2, self.3, self.4, self.5, self.6));
                    assert((self.1, self.2, self.3, self.4, self.5, self.6).chain_from(
                        from,
                        s1,
                        Err::<(BOut, COut, DOut, EOut, FOut, GOut), Option<Error>>(err),
                        context@,
                    ));
                    assert((self.0, self.1, self.2, self.3, self.4, self.5, self.6).0 == self.0);
                    assert((self.0, self.1, self.2, self.3, self.4, self.5, self.6).chain_from(
                        from,
                        s0,
                        Err::<(AOut, BOut, COut, DOut, EOut, FOut, GOut), Option<Error>>(err),
                        context@,
                    ));
                }
                return ParseResult::err(err);
            },
        };
        let ghost s4 = context@;
        let r4 = self.4.parse(context);
        let ghost m4 = context@;
        let e_out = match r4.to_result() {
            Ok(output) => output,
            Err(err) => {
                context.set_location(start);
                proof {
                    assert((self.4, self.5, self.6).0 == self.4);
                    assert(((self.4, self.5, self.6).1, (self.4, self.5, self.6).2) == (self.5, self.6));
                    assert((self.4, self.5, self.6).chain_from(
                        from,
                        s4,
                        Err::<(EOut, FOut, GOut), Option<Error>>(err),
                        context@,
                    ));
                    assert((self.3, self.4, self.5, self.6).0 == self.3);
                    assert(((self.3, self.4, self.5, self.6).1, (self.3, self.4, self.5, self.6).2, (self.3, self.4, self.5, self.6).3) == (self.4, self.5, self.6));
                    assert((self.3, self.4, self.5, self.6).chain_from(
                        from,
                        s3,
                        Err::<(DOut, EOut, FOut, GOut), Option<Error>>(err),
                        context@,
                    ));
                    assert((self.2, self.3, self.4, self.5, self.6).0 == self.2);
                    assert(((self.2, self.3, self.4, self.5, self.6).1, (self.2, self.3, self.4, self.5, self.6).2, (self.2, self.3, self.4, self.5, self.6).3, (self.2, self.3, self.4, self.5, self.6).4) == (self.3, self.4, self.5, self.6));
                    assert((self.2, self.3, self.4, self.5, self.6).chain_from(
                        from,
                        s2,
                        Err::<(COut, DOut, EOut, FOut, GOut), Option<Error>>(err),
                        context@,
                    ));
                    assert((self.1, self.2, self.3, self.4, self.5, self.6).0 == self.1);
                    assert(((self.1, self.2, self.3, self.4, self.5, self.6).1, (self.1, self.2, self.3, self.4, self.5, self.6).2, (self.1, self.2, self.3, self.4, self.5, self.6).3, (self.1, self.2, self.3, self.4, self.5, self.6).4, (self.1, self.2, self.3, self.4, self.5, self.6).5) == (self.2, self.3, self.4, self.5, self.6));
                    assert((self.1, self.2, self.3, self.4, self.5, self.6).chain_from(
                        from,
                        s1,
                        Err::<(BOut, COut, DOut, EOut, FOut, GOut), Option<Error>>(err),
                        context@,
                    ));
                    assert((self.0, self.1, self.2, self.3, self.4, self.5, self.6).0 == self.0);
                    assert((self.0, self.1, self.2, self.3, self.4, self.5, self.6).chain_from(
                        from,
                        s0,
                        Err::<(AOut, BOut, COut, DOut, EOut, FOut, GOut), Option<Error>>(err),
                        context@,
                    ));
                }
                return ParseResult::err(err);
            },
        };
        let ghost s5 = context@;
        let r5 = self.5.parse(context);
        let ghost m5 = context@;
        let f_out = match r5.to_result() {
            Ok(output) => output,
            Err(err) => {
                context.set_location(start);
                proof {
                    assert((self.5, self.6).0 == self.5);
                    assert(((self.5, self.6).1,) == (self.6,));
                    assert((self.5, self.6).chain_from(
                        from,
                        s5,
                        Err::<(FOut, GOut), Option<Error>>(err),
                        context@,
                    ));
                    assert((self.4, self.5, self.6).0 == self.4);
                    assert(((self.4, self.5, self.6).1, (self.4, self.5, self.6).2) == (self.5, self.6));
                    assert((self.4, self.5, self.6).chain_from(
                        from,
                        s4,
                        Err::<(EOut, FOut, GOut), Option<Error>>(err),
                        context@,
                    ));
                    assert((self.3, self.4, self.5, self.6).0 == self.3);
                    assert(((self.3, self.4, self.5, self.6).1, (self.3, self.4, self.5, self.6).2, (self.3, self.4, self.5, self.6).3) == (self.4, self.5, self.6));
                    assert((self.3, self.4, self.5, self.6).chain_from(
                        from,
                        s3,
                        Err::<(DOut, EOut, FOut, GOut), Option<Error>>(err),
                        context@,
                    ));
                    assert((self.2, self.3, self.4, self.5, self.6).0 == self.2);
                    assert(((self.2, self.3, self.4, self.5, self.6).1, (self.2, self.3, self.4, self.5, self.6).2, (self.2, self.3, self.4, self.5, self.6).3, (self.2, self.3, self.4, self.5, self.6).4) == (self.3, self.4, self.5, self.6));
                    assert((self.2, self.3, self.4, self.5, self.6).chain_from(
                        from,
                        s2,
                        Err::<(COut, DOut, EOut, FOut, GOut), Option<Error>>(err),
                        context@,
                    ));
                    assert((self.1, self.2, self.3, self.4, self.5, self.6).0 == self.1);
                    assert(((self.1, self.2, self.3, self.4, self.5, self.6).1, (self.1, self.2, self.3, self.4, self.5, self.6).2, (self.1, self.2, self.3, self.4, self.5, self.6).3, (self.1, self.2, self.3, self.4, self.5, self.6).4, (self.1, self.2, self.3, self.4, self.5, self.6).5) == (self.2, self.3, self.4, self.5, self.6));
                    assert((self.1, self.2, self.3, self.4, self.5, self.6).chain_from(
                        from,
                        s1,
                        Err::<(BOut, COut, DOut, EOut, FOut, GOut), Option<Error>>(err),
                        context@,
                    ));
                    assert((self.0, self.1, self.2, self.3, self.4, self.5, self.6).0 == self.0);
                    assert((self.0, self.1, self.2, self.3, self.4, self.5, self.6).chain_from(
                        from,
                        s0,
                        Err::<(AOut, BOut, COut, DOut, EOut, FOut, GOut), Option<Error>>(err),
                        context@,
                    ));
                }
                return ParseResult::err(err);
            },
        };
        let ghost s6 = context@;
        let r6 = self.6.parse(context);
        let ghost m6 = context@;
        let g_out = match r6.to_result() {
            Ok(output) => output,
            Err(err) => {
                context.set_location(start);
                proof {
                    assert((self.6,).0 == self.6);
                    assert((self.6,).chain_from(
                        from,
                        s6,
                        Err::<(GOut,), Option<Error>>(err),
                        context@,
                    ));
                    assert((self.5, self.6).0 == self.5);
                    assert(((self.5, self.6).1,) == (self.6,));
                    assert((self.5, self.6).chain_from(
                        from,
                        s5,
                        Err::<(FOut, GOut), Option<Error>>(err),
                        context@,
                    ));
                    assert((self.4, self.5, self.6).0 == self.4);
                    assert(((self.4, self.5, self.6).1, (self.4, self.5, self.6).2) == (self.5, self.6));
                    assert((self.4, self.5, self.6).chain_from(
                        from,
                        s4,
                        Err::<(EOut, FOut, GOut), Option<Error>>(err),
                        context@,
                    ));
                    assert((self.3, self.4, self.5, self.6).0 == self.3);
                    assert(((self.3, self.4, self.5, self.6).1, (self.3, self.4, self.5, self.6).2, (self.3, self.4, self.5, self.6).3) == (self.4, self.5, self.6));
                    assert((self.3, self.4, self.5, self.6).chain_from(
                        from,
                        s3,
                        Err::<(DOut, EOut, FOut, GOut), Option<Error>>(err),
                        context@,
                    ));
                    assert((self.2, self.3, self.4, self.5, self.6).0 == self.2);
                    assert(((self.2, self.3, self.4, self.5, self.6).1, (self.2, self.3, self.4, self.5, self.6).2, (self.2, self.3, self.4, self.5, self.6).3, (self.2, self.3, self.4, self.5, self.6).4) == (self.3, self.4, self.5, self.6));
                    assert((self.2, self.3, self.4, self.5, self.6).chain_from(
                        from,
                        s2,
                        Err::<(COut, DOut, EOut, FOut, GOut), Option<Error>>(err),
                        context@,
                    ));
                    assert((self.1, self.2, self.3, self.4, self.5, self.6).0 == self.1);
                    assert(((self.1, self.2, self.3, self.4, self.5, self.6).1, (self.1, self.2, self.3, self.4, self.5, self.6).2, (self.1, self.2, self.3, self.4, self.5, self.6).3, (self.1, self.2, self.3, self.4, self.5, self.6).4, (self.1, self.2, self.3, self.4, self.5, self.6).5) == (self.2, self.3, self.4, self.5, self.6));
                    assert((self.1, self.2, self.3, self.4, self.5, self.6).chain_from(
                        from,
                        s1,
                        Err::<(BOut, COut, DOut, EOut, FOut, GOut), Option<Error>>(err),
                        context@,
                    ));
                    assert((self.0, self.1, self.2, self.3, self.4, self.5, self.6).0 == self.0);
                    assert((self.0, self.1, self.2, self.3, self.4, self.5, self.6).chain_from(
                        from,
                        s0,
                        Err::<(AOut, BOut, COut, DOut, EOut, FOut, GOut), Option<Error>>(err),
                        context@,
                    ));
                }
                return ParseResult::err(err);
            },
        };
        proof {
            assert((self.6,).0 == self.6);
            assert((self.6,).chain_from(
                from,
                s6,
                Ok::<(GOut,), Option<Error>>((g_out,)),
                context@,
            ));
            assert((self.5, self.6).0 == self.5);
            assert(((self.5, self.6).1,) == (self.6,));
            assert((self.5, self.6).chain_from(
                from,
                s5,
                Ok::<(FOut, GOut), Option<Error>>((f_out, g_out)),
                context@,
            ));
            assert((self.4, self.5, self.6).0 == self.4);
            assert(((self.4, self.5, self.6).1, (self.4, self.5, self.6).2) == (self.5, self.6));
            assert((self.4, self.5, self.6).chain_from(
                from,
                s4,
                Ok::<(EOut, FOut, GOut), Option<Error>>((e_out, f_out, g_out)),
                context@,
            ));
            assert((self.3, self.4, self.5, self.6).0 == self.3);
            assert(((self.3, self.4, self.5, self.6).1, (self.3, self.4, self.5, self.6).2, (self.3, self.4, self.5, self.6).3) == (self.4, self.5, self.6));
            assert((self.3, self.4, self.5, self.6).chain_from(
                from,
                s3,
                Ok::<(DOut, EOut, FOut, GOut), Option<Error>>((d_out, e_out, f_out, g_out)),
                context@,
            ));
            assert((self.2, self.3, self.4, self.5, self.6).0 == self.2);
            assert(((self.2, self.3, self.4, self.5, self.6).1, (self.2, self.3, self.4, self.5, self.6).2, (self.2, self.3, self.4, self.5, self.6).3, (self.2, self.3, self.4, self.5, self.6).4) == (self.3, self.4, self.5, self.6));
            assert((self.2, self.3, self.4, self.5, self.6).chain_from(
                from,
                s2,
                Ok::<(COut, DOut, EOut, FOut, GOut), Option<Error>>((c_out, d_out, e_out, f_out, g_out)),
                context@,
            ));
            assert((self.1, self.2, self.3, self.4, self.5, self.6).0 == self.1);
            assert(((self.1, self.2, self.3, self.4, self.5, self.6).1, (self.1, self.2, self.3, self.4, self.5, self.6).2, (self.1, self.2, self.3, self.4, self.5, self.6).3, (self.1, self.2, self.3, self.4, self.5, self.6).4, (self.1, self.2, self.3, self.4, self.5, self.6).5) == (self.2, self.3, self.4, self.5, self.6));
            assert((self.1, self.2, self.3, self.4, self.5, self.6).chain_from(
                from,
                s1,
                Ok::<(BOut, COut, DOut, EOut, FOut, GOut), Option<Error>>((b_out, c_out, d_out, e_out, f_out, g_out)),
                context@,
            ));
            assert((self.0, self.1, self.2, self.3, self.4, self.5, self.6).0 == self.0);
            assert((self.0, self.1, self.2, self.3, self.4, self.5, self.6).chain_from(
                from,
                s0,
                Ok::<(AOut, BOut, COut, DOut, EOut, FOut, GOut), Option<Error>>((a_out, b_out, c_out, d_out, e_out, f_out, g_out)),
                context@,
            ));
        }
        ParseResult::ok((a_out, b_out, c_out, d_out, e_out, f_out, g_out))
    }
}

impl<In, A, AOut, B, BOut, C, COut, D, DOut, E, EOut, F, FOut, G, GOut, H, HOut, Error> ChainParsers<In, (AOut, BOut, COut, DOut, EOut, FOut, GOut, HOut), Error> for (A, B, C, D, E, F, G, H) where
    In: Slice,
    A: Parser<In, AOut, Error>,
    B: Parser<In, BOut, Error>,
    C: Parser<In, COut, Error>,
    D: Parser<In, DOut, Error>,
    E: Parser<In, EOut, Error>,
    F: Parser<In, FOut, Error>,
    G: Parser<In, GOut, Error>,
    H: Parser<In, HOut, Error>,
 {
    open spec fn all_wf(&self) -> bool {
        &&& self.0.wf()
        &&& self.1.wf()
        &&& self.2.wf()
        &&& self.3.wf()
        &&& self.4.wf()
        &&& self.5.wf()
        &&& self.6.wf()
        &&& self.7.wf()
    }

    open spec fn chain_from(
        &self,
        start: int,
        pre: ContextView<In::Token, Error>,
        res: Result<(AOut, BOut, COut, DOut, EOut, FOut, GOut, HOut), Option<Error>>,
        post: ContextView<In::Token, Error>,
    ) -> bool {
        exists|first: Result<AOut, Option<Error>>, mid: ContextView<In::Token, Error>| #[trigger]
            self.0.run(pre, first, mid) && match first {
                Ok(output) => exists|rest: Result<(BOut, COut, DOut, EOut, FOut, GOut, HOut), Option<Error>>| #[trigger]
                    (self.1, self.2, self.3, self.4, self.5, self.6, self.7).chain_from(start, mid, rest, post) && match rest {
                        Ok(others) => res == Ok::<(AOut, BOut, COut, DOut, EOut, FOut, GOut, HOut), Option<Error>>(
                            (output, others.0, others.1, others.2, others.3, others.4, others.5, others.6),
                        ),
                        Err(err) => res == Err::<(AOut, BOut, COut, DOut, EOut, FOut, GOut, HOut), Option<Error>>(err),
                    },
                Err(err) => res == Err::<(AOut, BOut, COut, DOut, EOut, FOut, GOut, HOut), Option<Error>>(err) && post == mid.at(start),
            }
    }

    proof fn lemma_chain_failure(
        &self,
        start: int,
        pre: ContextView<In::Token, Error>,
        res: Result<(AOut, BOut, COut, DOut, EOut, FOut, GOut, HOut), Option<Error>>,
        post: ContextView<In::Token, Error>,
    ) {
        let (first, mid) = choose|
            first: Result<AOut, Option<Error>>,
            mid: ContextView<In::Token, Error>,
        | #[trigger]
            self.0.run(pre, first, mid) && match first {
                Ok(output) => exists|rest: Result<(BOut, COut, DOut, EOut, FOut, GOut, HOut), Option<Error>>| #[trigger]
                    (self.1, self.2, self.3, self.4, self.5, self.6, self.7).chain_from(start, mid, rest, post) && match rest {
                        Ok(others) => res == Ok::<(AOut, BOut, COut, DOut, EOut, FOut, GOut, HOut), Option<Error>>(
                            (output, others.0, others.1, others.2, others.3, others.4, others.5, others.6),
                        ),
                        Err(err) => res == Err::<(AOut, BOut, COut, DOut, EOut, FOut, GOut, HOut), Option<Error>>(err),
                    },
                Err(err) => res == Err::<(AOut, BOut, COut, DOut, EOut, FOut, GOut, HOut), Option<Error>>(err) && post == mid.at(start),
            };
        if let Ok(output) = first {
            let rest = choose|rest: Result<(BOut, COut, DOut, EOut, FOut, GOut, HOut), Option<Error>>| #[trigger]
                (self.1, self.2, self.3, self.4, self.5, self.6, self.7).chain_from(start, mid, rest, post) && match rest {
                    Ok(others) => res == Ok::<(AOut, BOut, COut, DOut, EOut, FOut, GOut, HOut), Option<Error>>(
                        (output, others.0, others.1, others.2, others.3, others.4, others.5, others.6),
                    ),
                    Err(err) => res == Err::<(AOut, BOut, COut, DOut, EOut, FOut, GOut, HOut), Option<Error>>(err),
                };
            (self.1, self.2, self.3, self.4, self.5, self.6, self.7).lemma_chain_failure(start, mid, rest, post);
        }
    }

    fn parse_chain(&self, context: &mut Context<In, Error>) -> (res: ParseResult<(AOut, BOut, COut, DOut, EOut, FOut, GOut, HOut), Error>) {
        proof {
            context.lemma_index_in_bounds();
        }
        let start = context.location();
        let ghost from = context@.index;

        let ghost s0 = context@;
        let r0 = self.0.parse(context);
        let ghost m0 = context@;
        let a_out = match r0.to_result() {
            Ok(output) => output,
            Err(err) => {
                context.set_location(start);
                proof {
                    assert((self.0, self.1, self.2, self.3, self.4, self.5, self.6, self.7).0 == self.0);
                    assert((self.0, self.1, self.2, self.3, self.4, self.5, self.6, self.7).chain_from(
                        from,
                        s0,
                        Err::<(AOut, BOut, COut, DOut, EOut, FOut, GOut, HOut), Option<Error>>(err),
                        context@,
                    ));
                }
                return ParseResult::err(err);
            },
        };
        let ghost s1 = context@;
        let r1 = self.1.parse(context);
        let ghost m1 = context@;
        let b_out = match r1.to_result() {
            Ok(output) => output,
            Err(err) => {
                context.set_location(start);
                proof {
                    assert((self.1, self.2, self.3, self.4, self.5, self.6, self.7).0 == self.1);
                    assert(((self.1, self.2, self.3, self.4, self.5, self.6, self.7).1, (self.1, self.2, self.3, self.4, self.5, self.6, self.7).2, (self.1, self.2, self.3, self.4, self.5, self.6, self.7).3, (self.1, self.2, self.3, self.4, self.5, self.6, self.7).4, (self.1, self.2, self.3, self.4, self.5, self.6, self.7).5, (self.1, self.2, self.3, self.4, self.5, self.6, self.7).6) == (self.2, self.3, self.4, self.5, self.6, self.7));
                    assert((self.1, self.2, self.3, self.4, self.5, self.6, self.7).chain_from(
                        from,
                        s1,
                        Err::<(BOut, COut, DOut, EOut, FOut, GOut, HOut), Option<Error>>(err),
                        context@,
                    ));
                    assert((self.0, self.1, self.2, self.3, self.4, self.5, self.6, self.7).0 == self.0);
                    assert((self.0, self.1, self.2, self.3, self.4, self.5, self.6, self.7).chain_from(
                        from,
                        s0,
                        Err::<(AOut, BOut, COut, DOut, EOut, FOut, GOut, HOut), Option<Error>>(err),
                        context@,
                    ));
                }
                return ParseResult::err(err);
            },
        };
        let ghost s2 = context@;
        let r2 = self.2.parse(context);
        let ghost m2 = context@;
        let c_out = match r2.to_result() {
            Ok(output) => output,
            Err(err) => {
                context.set_location(start);
                proof {
                    assert((self.2, self.3, self.4, self.5, self.6, self.7).0 == self.2);
                    assert(((self.2, self.3, self.4, self.5, self.6, self.7).1, (self.2, self.3, self.4, self.5, self.6, self.7).2, (self.2, self.3, self.4, self.5, self.6, self.7).3, (self.2, self.3, self.4, self.5, self.6, self.7).4, (self.2, self.3, self.4, self.5, self.6, self.7).5) == (self.3, self.4, self.5, self.6, self.7));
                    assert((self.2, self.3, self.4, self.5, self.6, self.7).chain_from(
                        from,
                        s2,
                        Err::<(COut, DOut, EOut, FOut, GOut, HOut), Option<Error>>(err),
                        context@,
                    ));
                    assert((self.1, self.2, self.3, self.4, self.5, self.6, self.7).0 == self.1);
                    assert(((self.1, self.2, self.3, self.4, self.5, self.6, self.7).1, (self.1, self.2, self.3, self.4, self.5, self.6, self.7).2, (self.1, self.2, self.3, self.4, self.5, self.6, self.7).3, (self.1, self.2, self.3, self.4, self.5, self.6, self.7).4, (self.1, self.2, self.3, self.4, self.5, self.6, self.7).5, (self.1, self.2, self.3, self.4, self.5, self.6, self.7).6) == (self.2, self.3, self.4, self.5, self.6, self.7));
                    assert((self.1, self.2, self.3, self.4, self.5, self.6, self.7).chain_from(
                        from,
                        s1,
                        Err::<(BOut, COut, DOut, EOut, FOut, GOut, HOut), Option<Error>>(err),
                        context@,
                    ));
                    assert((self.0, self.1, self.2, self.3, self.4, self.5, self.6, self.7).0 == self.0);
                    assert((self.0, self.1, self.2, self.3, self.4, self.5, self.6, self.7).chain_from(
                        from,
                        s0,
                        Err::<(AOut, BOut, COut, DOut, EOut, FOut, GOut, HOut), Option<Error>>(err),
                        context@,
                    ));
                }
                return ParseResult::err(err);
            },
        };
        let ghost s3 = context@;
        let r3 = self.3.parse(context);
        let ghost m3 = context@;
        let d_out = match r3.to_result() {
            Ok(output) => output,
            Err(err) => {
                context.set_location(start);
                proof {
                    assert((self.3, self.4, self.5, self.6, self.7).0 == self.3);
                    assert(((self.3, self.4, self.5, self.6, self.7).1, (self.3, self.4, self.5, self.6, self.7).2, (self.3, self.4, self.5, self.6, self.7).3, (self.3, self.4, self.5, self.6, self.7).4) == (self.4, self.5, self.6, self.7));
                    assert((self.3, self.4, self.5, self.6, self.7).chain_from(
                        from,
                        s3,
                        Err::<(DOut, EOut, FOut, GOut, HOut), Option<Error>>(err),
                        context@,
                    ));
                    assert((self.2, self.3, self.4, self.5, self.6, self.7).0 == self.2);
                    assert(((self.2, self.3, self.4, self.5, self.6, self.7).1, (self.2, self.3, self.4, self.5, self.6, self.7).2, (self.2, self.3, self.4, self.5, self.6, self.7).3, (self.2, self.3, self.4, self.5, self.6, self.7).4, (self.2, self.3, self.4, self.5, self.6, self.7).5) == (self.3, self.4, self.5, self.6, self.7));
                    assert((self.2, self.3, self.4, self.5, self.6, self.7).chain_from(
                        from,
                        s2,
                        Err::<(COut, DOut, EOut, FOut, GOut, HOut), Option<Error>>(err),
                        context@,
                    ));
                    assert((self.1, self.2, self.3, self.4, self.5, self.6, self.7).0 == self.1);
                    assert(((self.1, self.2, self.3, self.4, self.5, self.6, self.7).1, (self.1, self.2, self.3, self.4, self.5, self.6, self.7).2, (self.1, self.2, self.3, self.4, self.5, self.6, self.7).3, (self.1, self.2, self.3, self.4, self.5, self.6, self.7).4, (self.1, self.2, self.3, self.4, self.5, self.6, self.7).5, (self.1, self.2, self.3, self.4, self.5, self.6, self.7).6) == (self.2, self.3, self.4, self.5, self.6, self.7));
                    assert((self.1, self.2, self.3, self.4, self.5, self.6, self.7).chain_from(
                        from,
                        s1,
                        Err::<(BOut, COut, DOut, EOut, FOut, GOut, HOut), Option<Error>>(err),
                        context@,
                    ));
                    assert((self.0, self.1, self.2, self.3, self.4, self.5, self.6, self.7).0 == self.0);
                    assert((self.0, self.1, self.2, self.3, self.4, self.5, self.6, self.7).chain_from(
                        from,
                        s0,
                        Err::<(AOut, BOut, COut, DOut, EOut, FOut, GOut, HOut), Option<Error>>(err),
                        context@,
                    ));
                }
                return ParseResult::err(err);
            },
        };
        let ghost s4 = context@;
        let r4 = self.4.parse(context);
        let ghost m4 = context@;
        let e_out = match r4.to_result() {
            Ok(output) => output,
            Err(err) => {
                context.set_location(start);
                proof {
                    assert((self.4, self.5, self.6, self.7).0 == self.4);
                    assert(((self.4, self.5, self.6, self.7).1, (self.4, self.5, self.6, self.7).2, (self.4, self.5, self.6, self.7).3) == (self.5, self.6, self.7));
                    assert((self.4, self.5, self.6, self.7).chain_from(
                        from,
                        s4,
                        Err::<(EOut, FOut, GOut, HOut), Option<Error>>(err),
                        context@,
                    ));
                    assert((self.3, self.4, self.5, self.6, self.7).0 == self.3);
                    assert(((self.3, self.4, self.5, self.6, self.7).1, (self.3, self.4, self.5, self.6, self.7).2, (self.3, self.4, self.5, self.6, self.7).3, (self.3, self.4, self.5, self.6, self.7).4) == (self.4, self.5, self.6, self.7));
                    assert((self.3, self.4, self.5, self.6, self.7).chain_from(
                        from,
                        s3,
                        Err::<(DOut, EOut, FOut, GOut, HOut), Option<Error>>(err),
                        context@,
                    ));
                    assert((self.2, self.3, self.4, self.5, self.6, self.7).0 == self.2);
                    assert(((self.2, self.3, self.4, self.5, self.6, self.7).1, (self.2, self.3, self.4, self.5, self.6, self.7).2, (self.2, self.3, self.4, self.5, self.6, self.7).3, (self.2, self.3, self.4, self.5, self.6, self.7).4, (self.2, self.3, self.4, self.5, self.6, self.7).5) == (self.3, self.4, self.5, self.6, self.7));
                    assert((self.2, self.3, self.4, self.5, self.6, self.7).chain_from(
                        from,
                        s2,
                        Err::<(COut, DOut, EOut, FOut, GOut, HOut), Option<Error>>(err),
                        context@,
                    ));
                    assert((self.1, self.2, self.3, self.4, self.5, self.6, self.7).0 == self.1);
                    assert(((self.1, self.2, self.3, self.4, self.5, self.6, self.7).1, (self.1, self.2, self.3, self.4, self.5, self.6, self.7).2, (self.1, self.2, self.3, self.4, self.5, self.6, self.7).3, (self.1, self.2, self.3, self.4, self.5, self.6, self.7).4, (self.1, self.2, self.3, self.4, self.5, self.6, self.7).5, (self.1, self.2, self.3, self.4, self.5, self.6, self.7).6) == (self.2, self.3, self.4, self.5, self.6, self.7));
                    assert((self.1, self.2, self.3, self.4, self.5, self.6, self.7).chain_from(
                        from,
                        s1,
                        Err::<(BOut, COut, DOut, EOut, FOut, GOut, HOut), Option<Error>>(err),
                        context@,
                    ));
                    assert((self.0, self.1, self.2, self.3, self.4, self.5, self.6, self.7).0 == self.0);
                    assert((self.0, self.1, self.2, self.3, self.4, self.5, self.6, self.7).chain_from(
                        from,
                        s0,
                        Err::<(AOut, BOut, COut, DOut, EOut, FOut, GOut, HOut), Option<Error>>(err),
                        context@,
                    ));
                }
                return ParseResult::err(err);
            },
        };
        let ghost s5 = context@;
        let r5 = self.5.parse(context);
        let ghost m5 = context@;
        let f_out = match r5.to_result() {
            Ok(output) => output,
            Err(err) => {
                context.set_location(start);
                proof {
                    assert((self.5, self.6, self.7).0 == self.5);
                    assert(((self.5, self.6, self.7).1, (self.5, self.6, self.7).2) == (self.6, self.7));
                    assert((self.5, self.6, self.7).chain_from(
                        from,
                        s5,
                        Err::<(FOut, GOut, HOut), Option<Error>>(err),
                        context@,
                    ));
                    assert((self.4, self.5, self.6, self.7).0 == self.4);
                    assert(((self.4, self.5, self.6, self.7).1, (self.4, self.5, self.6, self.7).2, (self.4, self.5, self.6, self.7).3) == (self.5, self.6, self.7));
                    assert((self.4, self.5, self.6, self.7).chain_from(
                        from,
                        s4,
                        Err::<(EOut, FOut, GOut, HOut), Option<Error>>(err),
                        context@,
                    ));
                    assert((self.3, self.4, self.5, self.6, self.7).0 == self.3);
                    assert(((self.3, self.4, self.5, self.6, self.7).1, (self.3, self.4, self.5, self.6, self.7).2, (self.3, self.4, self.5, self.6, self.7).3, (self.3, self.4, self.5, self.6, self.7).4) == (self.4, self.5, self.6, self.7));
                    assert((self.3, self.4, self.5, self.6, self.7).chain_from(
                        from,
                        s3,
                        Err::<(DOut, EOut, FOut, GOut, HOut), Option<Error>>(err),
                        context@,
                    ));
                    assert((self.2, self.3, self.4, self.5, self.6, self.7).0 == self.2);
                    assert(((self.2, self.3, self.4, self.5, self.6, self.7).1, (self.2, self.3, self.4, self.5, self.6, self.7).2, (self.2, self.3, self.4, self.5, self.6, self.7).3, (self.2, self.3, self.4, self.5, self.6, self.7).4, (self.2, self.3, self.4, self.5, self.6, self.7).5) == (self.3, self.4, self.5, self.6, self.7));
                    assert((self.2, self.3, self.4, self.5, self.6, self.7).chain_from(
                        from,
                        s2,
                        Err::<(COut, DOut, EOut, FOut, GOut, HOut), Option<Error>>(err),
                        context@,
                    ));
                    assert((self.1, self.2, self.3, self.4, self.5, self.6, self.7).0 == self.1);
                    assert(((self.1, self.2, self.3, self.4, self.5, self.6, self.7).1, (self.1, self.2, self.3, self.4, self.5, self.6, self.7).2, (self.1, self.2, self.3, self.4, self.5, self.6, self.7).3, (self.1, self.2, self.3, self.4, self.5, self.6, self.7).4, (self.1, self.2, self.3, self.4, self.5, self.6, self.7).5, (self.1, self.2, self.3, self.4, self.5, self.6, self.7).6) == (self.2, self.3, self.4, self.5, self.6, self.7));
                    assert((self.1, self.2, self.3, self.4, self.5, self.6, self.7).chain_from(
                        from,
                        s1,
                        Err::<(BOut, COut, DOut, EOut, FOut, GOut, HOut), Option<Error>>(err),
                        context@,
                    ));
                    assert((self.0, self.1, self.2, self.3, self.4, self.5, self.6, self.7).0 == self.0);
                    assert((self.0, self.1, self.2, self.3, self.4, self.5, self.6, self.7).chain_from(
                        from,
                        s0,
                        Err::<(AOut, BOut, COut, DOut, EOut, FOut, GOut, HOut), Option<Error>>(err),
                        context@,
                    ));
                }
                return ParseResult::err(err);
            },
        };
        let ghost s6 = context@;
        let r6 = self.6.parse(context);
        let ghost m6 = context@;
        let g_out = match r6.to_result() {
            Ok(output) => output,
            Err(err) => {
                context.set_location(start);
                proof {
                    assert((self.6, self.7).0 == self.6);
                    assert(((self.6, self.7).1,) == (self.7,));
                    assert((self.6, self.7).chain_from(
                        from,
                        s6,
                        Err::<(GOut, HOut), Option<Error>>(err),
                        context@,
                    ));
                    assert((self.5, self.6, self.7).0 == self.5);
                    assert(((self.5, self.6, self.7).1, (self.5, self.6, self.7).2) == (self.6, self.7));
                    assert((self.5, self.6, self.7).chain_from(
                        from,
                        s5,
                        Err::<(FOut, GOut, HOut), Option<Error>>(err),
                        context@,
                    ));
                    assert((self.4, self.5, self.6, self.7).0 == self.4);
                    assert(((self.4, self.5, self.6, self.7).1, (self.4, self.5, self.6, self.7).2, (self.4, self.5, self.6, self.7).3) == (self.5, self.6, self.7));
                    assert((self.4, self.5, self.6, self.7).chain_from(
                        from,
                        s4,
                        Err::<(EOut, FOut, GOut, HOut), Option<Error>>(err),
                        context@,
                    ));
                    assert((self.3, self.4, self.5, self.6, self.7).0 == self.3);
                    assert(((self.3, self.4, self.5, self.6, self.7).1, (self.3, self.4, self.5, self.6, self.7).2, (self.3, self.4, self.5, self.6, self.7).3, (self.3, self.4, self.5, self.6, self.7).4) == (self.4, self.5, self.6, self.7));
                    assert((self.3, self.4, self.5, self.6, self.7).chain_from(
                        from,
                        s3,
                        Err::<(DOut, EOut, FOut, GOut, HOut), Option<Error>>(err),
                        context@,
                    ));
                    assert((self.2, self.3, self.4, self.5, self.6, self.7).0 == self.2);
                    assert(((self.2, self.3, self.4, self.5, self.6, self.7).1, (self.2, self.3, self.4, self.5, self.6, self.7).2, (self.2, self.3, self.4, self.5, self.6, self.7).3, (self.2, self.3, self.4, self.5, self.6, self.7).4, (self.2, self.3, self.4, self.5, self.6, self.7).5) == (self.3, self.4, self.5, self.6, self.7));
                    assert((self.2, self.3, self.4, self.5, self.6, self.7).chain_from(
                        from,
                        s2,
                        Err::<(COut, DOut, EOut, FOut, GOut, HOut), Option<Error>>(err),
                        context@,
                    ));
                    assert((self.1, self.2, self.3, self.4, self.5, self.6, self.7).0 == self.1);
                    assert(((self.1, self.2, self.3, self.4, self.5, self.6, self.7).1, (self.1, self.2, self.3, self.4, self.5, self.6, self.7).2, (self.1, self.2, self.3, self.4, self.5, self.6, self.7).3, (self.1, self.2, self.3, self.4, self.5, self.6, self.7).4, (self.1, self.2, self.3, self.4, self.5, self.6, self.7).5, (self.1, self.2, self.3, self.4, self.5, self.6, self.7).6) == (self.2, self.3, self.4, self.5, self.6, self.7));
                    assert((self.1, self.2, self.3, self.4, self.5, self.6, self.7).chain_from(
                        from,
                        s1,
                        Err::<(BOut, COut, DOut, EOut, FOut, GOut, HOut), Option<Error>>(err),
                        context@,
                    ));
                    assert((self.0, self.1, self.2, self.3, self.4, self.5, self.6, self.7).0 == self.0);
                    assert((self.0, self.1, self.2, self.3, self.4, self.5, self.6, self.7).chain_from(
                        from,
                        s0,
                        Err::<(AOut, BOut, COut, DOut, EOut, FOut, GOut, HOut), Option<Error>>(err),
                        context@,
                    ));
                }
                return ParseResult::err(err);
            },
        };
        let ghost s7 = context@;
        let r7 = self.7.parse(context);
        let ghost m7 = context@;
        let h_out = match r7.to_result() {
            Ok(output) => output,
            Err(err) => {
                context.set_location(start);
                proof {
                    assert((self.7,).0 == self.7);
                    assert((self.7,).chain_from(
                        from,
                        s7,
                        Err::<(HOut,), Option<Error>>(err),
                        context@,
                    ));
                    assert((self.6, self.7).0 == self.6);
                    assert(((self.6, self.7).1,) == (self.7,));
                    assert((self.6, self.7).chain_from(
                        from,
                        s6,
                        Err::<(GOut, HOut), Option<Error>>(err),
                        context@,
                    ));
                    assert((self.5, self.6, self.7).0 == self.5);
                    assert(((self.5, self.6, self.7).1, (self.5, self.6, self.7).2) == (self.6, self.7));
                    assert((self.5, self.6, self.7).chain_from(
                        from,
                        s5,
                        Err::<(FOut, GOut, HOut), Option<Error>>(err),
                        context@,
                    ));
                    assert((self.4, self.5, self.6, self.7).0 == self.4);
                    assert(((self.4, self.5, self.6, self.7).1, (self.4, self.5, self.6, self.7).2, (self.4, self.5, self.6, self.7).3) == (self.5, self.6, self.7));
                    assert((self.4, self.5, self.6, self.7).chain_from(
                        from,
                        s4,
                        Err::<(EOut, FOut, GOut, HOut), Option<Error>>(err),
                        context@,
                    ));
                    assert((self.3, self.4, self.5, self.6, self.7).0 == self.3);
                    assert(((self.3, self.4, self.5, self.6, self.7).1, (self.3, self.4, self.5, self.6, self.7).2, (self.3, self.4, self.5, self.6, self.7).3, (self.3, self.4, self.5, self.6, self.7).4) == (self.4, self.5, self.6, self.7));
                    assert((self.3, self.4, self.5, self.6, self.7).chain_from(
                        from,
                        s3,
                        Err::<(DOut, EOut, FOut, GOut, HOut), Option<Error>>(err),
                        context@,
                    ));
                    assert((self.2, self.3, self.4, self.5, self.6, self.7).0 == self.2);
                    assert(((self.2, self.3, self.4, self.5, self.6, self.7).1, (self.2, self.3, self.4, self.5, self.6, self.7).2, (self.2, self.3, self.4, self.5, self.6, self.7).3, (self.2, self.3, self.4, self.5, self.6, self.7).4, (self.2, self.3, self.4, self.5, self.6, self.7).5) == (self.3, self.4, self.5, self.6, self.7));
                    assert((self.2, self.3, self.4, self.5, self.6, self.7).chain_from(
                        from,
                        s2,
                        Err::<(COut, DOut, EOut, FOut, GOut, HOut), Option<Error>>(err),
                        context@,
                    ));
                    assert((self.1, self.2, self.3, self.4, self.5, self.6, self.7).0 == self.1);
                    assert(((self.1, self.2, self.3, self.4, self.5, self.6, self.7).1, (self.1, self.2, self.3, self.4, self.5, self.6, self.7).2, (self.1, self.2, self.3, self.4, self.5, self.6, self.7).3, (self.1, self.2, self.3, self.4, self.5, self.6, self.7).4, (self.1, self.2, self.3, self.4, self.5, self.6, self.7).5, (self.1, self.2, self.3, self.4, self.5, self.6, self.7).6) == (self.2, self.3, self.4, self.5, self.6, self.7));
                    assert((self.1, self.2, self.3, self.4, self.5, self.6, self.7).chain_from(
                        from,
                        s1,
                        Err::<(BOut, COut, DOut, EOut, FOut, GOut, HOut), Option<Error>>(err),
                        context@,
                    ));
                    assert((self.0, self.1, self.2, self.3, self.4, self.5, self.6, self.7).0 == self.0);
                    assert((self.0, self.1, self.2, self.3, self.4, self.5, self.6, self.7).chain_from(
                        from,
                        s0,
                        Err::<(AOut, BOut, COut, DOut, EOut, FOut, GOut, HOut), Option<Error>>(err),
                        context@,
                    ));
                }
                return ParseResult::err(err);
            },
        };
        proof {
            assert((self.7,).0 == self.7);
            assert((self.7,).chain_from(
                from,
                s7,
                Ok::<(HOut,), Option<Error>>((h_out,)),
                context@,
            ));
            assert((self.6, self.7).0 == self.6);
            assert(((self.6, self.7).1,) == (self.7,));
            assert((self.6, self.7).chain_from(
                from,
                s6,
                Ok::<(GOut, HOut), Option<Error>>((g_out, h_out)),
                context@,
            ));
            assert((self.5, self.6, self.7).0 == self.5);
            assert(((self.5, self.6, self.7).1, (self.5, self.6, self.7).2) == (self.6, self.7));
            assert((self.5, self.6, self.7).chain_from(
                from,
                s5,
                Ok::<(FOut, GOut, HOut), Option<Error>>((f_out, g_out, h_out)),
                context@,
            ));
            assert((self.4, self.5, self.6, self.7).0 == self.4);
            assert(((self.4, self.5, self.6, self.7).1, (self.4, self.5, self.6, self.7).2, (self.4, self.5, self.6, self.7).3) == (self.5, self.6, self.7));
            assert((self.4, self.5, self.6, self.7).chain_from(
                from,
                s4,
                Ok::<(EOut, FOut, GOut, HOut), Option<Error>>((e_out, f_out, g_out, h_out)),
                context@,
            ));
            assert((self.3, self.4, self.5, self.6, self.7).0 == self.3);
            assert(((self.3, self.4, self.5, self.6, self.7).1, (self.3, self.4, self.5, self.6, self.7).2, (self.3, self.4, self.5, self.6, self.7).3, (self.3, self.4, self.5, self.6, self.7).4) == (self.4, self.5, self.6, self.7));
            assert((self.3, self.4, self.5, self.6, self.7).chain_from(
                from,
                s3,
                Ok::<(DOut, EOut, FOut, GOut, HOut), Option<Error>>((d_out, e_out, f_out, g_out, h_out)),
                context@,
            ));
            assert((self.2, self.3, self.4, self.5, self.6, self.7).0 == self.2);
            assert(((self.2, self.3, self.4, self.5, self.6, self.7).1, (self.2, self.3, self.4, self.5, self.6, self.7).2, (self.2, self.3, self.4, self.5, self.6, self.7).3, (self.2, self.3, self.4, self.5, self.6, self.7).4, (self.2, self.3, self.4, self.5, self.6, self.7).5) == (self.3, self.4, self.5, self.6, self.7));
            assert((self.2, self.3, self.4, self.5, self.6, self.7).chain_from(
                from,
                s2,
                Ok::<(COut, DOut, EOut, FOut, GOut, HOut), Option<Error>>((c_out, d_out, e_out, f_out, g_out, h_out)),
                context@,
            ));
            assert((self.1, self.2, self.3, self.4, self.5, self.6, self.7).0 == self.1);
            assert(((self.1, self.2, self.3, self.4, self.5, self.6, self.7).1, (self.1, self.2, self.3, self.4, self.5, self.6, self.7).2, (self.1, self.2, self.3, self.4, self.5, self.6, self.7).3, (self.1, self.2, self.3, self.4, self.5, self.6, self.7).4, (self.1, self.2, self.3, self.4, self.5, self.6, self.7).5, (self.1, self.2, self.3, self.4, self.5, self.6, self.7).6) == (self.2, self.3, self.4, self.5, self.6, self.7));
            assert((self.1, self.2, self.3, self.4, self.5, self.6, self.7).chain_from(
                from,
                s1,
                Ok::<(BOut, COut, DOut, EOut, FOut, GOut, HOut), Option<Error>>((b_out, c_out, d_out, e_out, f_out, g_out, h_out)),
                context@,
            ));
            assert((self.0, self.1, self.2, self.3, self.4, self.5, self.6, self.7).0 == self.0);
            assert((self.0, self.1, self.2, self.3, self.4, self.5, self.6, self.7).chain_from(
                from,
                s0,
                Ok::<(AOut, BOut, COut, DOut, EOut, FOut, GOut, HOut), Option<Error>>((a_out, b_out, c_out, d_out, e_out, f_out, g_out, h_out)),
                context@,
            ));
        }
        ParseResult::ok((a_out, b_out, c_out, d_out, e_out, f_out, g_out, h_out))
    }
}

} // verus!
