//! Parsers that refer to themselves.
//!
//! A grammar rule that mentions itself is built in two steps. First a
//! handle is declared: a pointer to a shared slot without a body, together
//! with the right to fill the slot, once. Then the body is built with the
//! handle inside it, and installed in the slot. What comes out is the handle
//! of the finished rule, which holds the body itself.
//!
//! The handle inside the body reaches the body through the slot. It is
//! declared with a relation that the body has to meet, and that relation is
//! what it does. It can be run only where it is known to be linked, and the
//! functions of this module say so only once the slot is filled: the
//! function that builds the body cannot run it.

use crate::context::{Context, ContextView};
use crate::parser::{ParseResult, Parser};
use crate::slice::Slice;
use std::marker::PhantomData;
use std::rc::Rc;
use vstd::cell::invcell::InvCell;
use vstd::predicate::Predicate;
use vstd::prelude::*;

verus! {

/// The relation of a parser, as a value.
pub type Relation<T, Out, Error> = spec_fn(
    ContextView<T, Error>,
    Result<Out, Option<Error>>,
    ContextView<T, Error>,
) -> bool;

/// The relation that allows every outcome.
pub open spec fn anything<T, Out, Error>() -> Relation<T, Out, Error> {
    |pre: ContextView<T, Error>, res: Result<Out, Option<Error>>, post: ContextView<T, Error>|
        true
}

/// What the body of a handle has to meet: it can be run, and does only what
/// `relation` allows.
#[verifier::reject_recursive_types(In)]
#[verifier::reject_recursive_types(Out)]
#[verifier::reject_recursive_types(Error)]
pub struct Meets<In: Slice, Out, Error> {
    pub relation: Relation<In::Token, Out, Error>,
}

impl<'a, In: Slice, Out, Error> Predicate<
    Option<Rc<Box<dyn Parser<In, Out, Error> + 'a>>>,
> for Meets<In, Out, Error> {
    open spec fn predicate(&self, slot: Option<Rc<Box<dyn Parser<In, Out, Error> + 'a>>>) -> bool {
        slot matches Some(body) ==> meets(&**body, self.relation)
    }
}

/// Whether `parser` can be run and does only what `relation` allows.
pub open spec fn meets<In: Slice, Out, Error, P: Parser<In, Out, Error> + ?Sized>(
    parser: &P,
    relation: Relation<In::Token, Out, Error>,
) -> bool {
    &&& parser.wf()
    &&& forall|
        pre: ContextView<In::Token, Error>,
        res: Result<Out, Option<Error>>,
        post: ContextView<In::Token, Error>,
    | #[trigger]
        parser.run(pre, res, post) ==> relation(pre, res, post)
}

/// A parser as it stands in the slot of a handle.
#[verifier::reject_recursive_types(In)]
#[verifier::reject_recursive_types(Out)]
#[verifier::reject_recursive_types(Error)]
pub struct Body<In: Slice, Out, Error, P: Parser<In, Out, Error>> {
    pub parser: P,
    pub _phantom: PhantomData<(In, Out, Error)>,
}

impl<In: Slice, Out, Error, P: Parser<In, Out, Error>> Parser<In, Out, Error> for Body<
    In,
    Out,
    Error,
    P,
> {
    open spec fn wf(&self) -> bool {
        self.parser.wf()
    }

    open spec fn run(
        &self,
        pre: ContextView<In::Token, Error>,
        res: Result<Out, Option<Error>>,
        post: ContextView<In::Token, Error>,
    ) -> bool {
        self.parser.run(pre, res, post)
    }

    fn parse(&self, context: &mut Context<In, Error>) -> (res: ParseResult<Out, Error>) {
        self.parser.parse(context)
    }
}

/// What stands in for the body of a slot that is empty. Running it does not
/// return: it runs itself again until the stack is used up. No handle that
/// is known to be linked looks into an empty slot.
#[verifier::reject_recursive_types(In)]
#[verifier::reject_recursive_types(Out)]
#[verifier::reject_recursive_types(Error)]
struct Undefined<In: Slice, Out, Error> {
    _phantom: PhantomData<(In, Out, Error)>,
}

impl<In: Slice, Out, Error> Parser<In, Out, Error> for Undefined<In, Out, Error> {
    closed spec fn wf(&self) -> bool {
        true
    }

    closed spec fn run(
        &self,
        pre: ContextView<In::Token, Error>,
        res: Result<Out, Option<Error>>,
        post: ContextView<In::Token, Error>,
    ) -> bool {
        false
    }

    fn parse(&self, context: &mut Context<In, Error>) -> (res: ParseResult<Out, Error>) {
        let again: Box<dyn Parser<In, Out, Error> + '_> = Box::new(
            Undefined { _phantom: PhantomData },
        );
        again.parse(context)
    }
}

/// Makes two of what was taken out of a slot: one to put back, one to hand
/// out. Both point to the body that was taken, where there was one.
pub fn share<T>(taken: Option<Rc<T>>) -> (both: (Option<Rc<T>>, Option<Rc<T>>))
    ensures
        both.0 == taken,
        both.1 == taken,
{
    match taken {
        Some(found) => {
            let second = found.clone();
            (Some(found), Some(second))
        },
        None => (None, None),
    }
}

/// A handle to a parser that refers to itself.
///
/// The handle of a finished rule holds the body of the rule. The handle
/// inside the body holds none: it looks into the slot.
#[verifier::reject_recursive_types(In)]
#[verifier::reject_recursive_types(Out)]
#[verifier::reject_recursive_types(Error)]
pub struct Recursive<'a, In: Slice, Out, Error> {
    slot: Rc<InvCell<Option<Rc<Box<dyn Parser<In, Out, Error> + 'a>>>, Meets<In, Out, Error>>>,
    body: Option<Rc<Box<dyn Parser<In, Out, Error> + 'a>>>,
}

/// The right to fill the slot of a handle. It is used up by filling it.
#[verifier::reject_recursive_types(In)]
#[verifier::reject_recursive_types(Out)]
#[verifier::reject_recursive_types(Error)]
pub struct Pending<'a, In: Slice, Out, Error> {
    slot: Rc<InvCell<Option<Rc<Box<dyn Parser<In, Out, Error> + 'a>>>, Meets<In, Out, Error>>>,
}

impl<'a, In: Slice + 'a, Out: 'a, Error: 'a> Pending<'a, In, Out, Error> {
    /// The relation that the slot was declared with.
    pub closed spec fn relation(&self) -> Relation<In::Token, Out, Error> {
        self.slot.predicate().relation
    }
}

/// Whether `handle` is the handle of the rule whose body is `body`: it can
/// be run where the body can, and gives what the body gives.
pub open spec fn gives<'a, In, Out, Error, P>(
    handle: Rc<Recursive<'a, In, Out, Error>>,
    body: &P,
) -> bool where In: Slice + 'a, Out: 'a, Error: 'a, P: Parser<In, Out, Error> {
    &&& handle.spec_body() is Some
    &&& handle.wf() <==> body.wf()
    &&& forall|
        pre: ContextView<In::Token, Error>,
        res: Result<Out, Option<Error>>,
        post: ContextView<In::Token, Error>,
    | #[trigger]
        handle.run(pre, res, post) <==> body.run(pre, res, post)
}

impl<'a, In: Slice + 'a, Out: 'a, Error: 'a> Recursive<'a, In, Out, Error> {
    /// The relation that the slot of the handle was declared with.
    pub closed spec fn relation(&self) -> Relation<In::Token, Out, Error> {
        self.slot.predicate().relation
    }

    /// The body that the handle holds: that of the finished rule, or none
    /// for the handle inside a body.
    pub closed spec fn spec_body(&self) -> Option<Rc<Box<dyn Parser<In, Out, Error> + 'a>>> {
        self.body
    }

    /// Whether the slot that the handle looks into is known to be filled.
    /// Outside this module that is known only of the handle that
    /// `recursive` or `recursive_meeting` gave to the builder, once they
    /// have returned.
    pub closed spec fn is_linked(&self) -> bool {
        true
    }

    /// A handle without a body, which is going to do what `relation`
    /// allows, and the right to fill its slot.
    fn declare(Ghost(relation): Ghost<Relation<In::Token, Out, Error>>) -> (declared: (
        Rc<Self>,
        Pending<'a, In, Out, Error>,
    ))
        ensures
            declared.0.relation() == relation,
            declared.0.spec_body() is None,
            declared.1.relation() == relation,
    {
        let slot = Rc::new(InvCell::new(None, Ghost(Meets { relation })));
        let handle = Rc::new(Recursive { slot: slot.clone(), body: None });
        (handle, Pending { slot })
    }

    /// Installs `parser` as the body of the slot, and gives the handle of
    /// the finished rule. The right to fill the slot is used up: a slot is
    /// filled once.
    fn define<P: Parser<In, Out, Error> + 'a>(pending: Pending<'a, In, Out, Error>, parser: P) -> (handle:
        Rc<Self>)
        requires
            meets(&parser, pending.relation()),
        ensures
            handle.relation() == pending.relation(),
            gives(handle, &parser),
    {
        let wrapped = Body { parser, _phantom: PhantomData };
        let body: Box<dyn Parser<In, Out, Error> + 'a> = Box::new(wrapped);
        assert(body.wf() == parser.wf());
        assert forall|
            pre: ContextView<In::Token, Error>,
            res: Result<Out, Option<Error>>,
            post: ContextView<In::Token, Error>,
        | #[trigger] body.run(pre, res, post) == parser.run(pre, res, post) by {
            assert(wrapped.run(pre, res, post) == parser.run(pre, res, post));
        }
        let shared = Rc::new(body);
        assert(shared.wf() == parser.wf());
        assert forall|
            pre: ContextView<In::Token, Error>,
            res: Result<Out, Option<Error>>,
            post: ContextView<In::Token, Error>,
        | #[trigger] shared.run(pre, res, post) == parser.run(pre, res, post) by {
            assert(body.run(pre, res, post) == parser.run(pre, res, post));
        }
        let (kept, held) = share(Some(shared));
        assert(pending.slot.inv(kept));
        let _ = pending.slot.replace(kept);
        let handle = Rc::new(Recursive { slot: pending.slot, body: held });
        assert(handle.spec_body() == Some(shared));
        handle
    }

    /// The body in the slot, if there is one. The slot is emptied for the
    /// moment that it takes to make a second pointer to the body.
    ///
    /// What the slot holds is known only when it is taken out: whatever
    /// that is, it meets the relation of the slot, and `share` says what
    /// is handed out for it.
    fn installed(&self) -> (body: Option<Rc<Box<dyn Parser<In, Out, Error> + 'a>>>)
        ensures
            body matches Some(found) ==> meets(&**found, self.relation()),
    {
        let taken = self.slot.replace(None);
        let (kept, shared) = share(taken);
        let _ = self.slot.replace(kept);
        shared
    }
}

impl<'a, In: Slice + 'a, Out: 'a, Error: 'a> Parser<In, Out, Error> for Rc<
    Recursive<'a, In, Out, Error>,
> {
    /// The handle of a finished rule can be run where its body can. The
    /// handle inside a body can be run where it is known to be linked.
    open spec fn wf(&self) -> bool {
        match self.spec_body() {
            Some(body) => body.wf(),
            None => self.is_linked(),
        }
    }

    /// The handle of a finished rule gives what its body gives. The handle
    /// inside a body does what the relation that it was declared with
    /// allows.
    open spec fn run(
        &self,
        pre: ContextView<In::Token, Error>,
        res: Result<Out, Option<Error>>,
        post: ContextView<In::Token, Error>,
    ) -> bool {
        match self.spec_body() {
            Some(body) => body.run(pre, res, post),
            None => (self.relation())(pre, res, post),
        }
    }

    /// Runs the body of the rule.
    fn parse(&self, context: &mut Context<In, Error>) -> (res: ParseResult<Out, Error>) {
        let ghost pre = context@;
        match &self.body {
            Some(body) => {
                let res = body.parse(context);
                assert(body.run(pre, res@, context@));
                res
            },
            None => match self.installed() {
                Some(body) => {
                    let res = body.parse(context);
                    assert(body.run(pre, res@, context@));
                    res
                },
                None => {
                    let undefined = Undefined { _phantom: PhantomData };
                    undefined.parse(context)
                },
            },
        }
    }
}

/// Whether `builder` makes the body of a rule declared with `relation`. It
/// can be called on every handle without a body that was declared with
/// `relation`, whether or not the handle is known to be linked; and where
/// the handle is linked, what it gives can be run and does only what
/// `relation` allows.
pub open spec fn builds<'a, In, Out, Error, P, F>(
    builder: F,
    relation: Relation<In::Token, Out, Error>,
) -> bool where
    In: Slice + 'a,
    Out: 'a,
    Error: 'a,
    P: Parser<In, Out, Error> + 'a,
    F: Fn(Rc<Recursive<'a, In, Out, Error>>) -> P,
 {
    forall|handle: Rc<Recursive<'a, In, Out, Error>>| #[trigger]
        handle.relation() == relation && handle.spec_body() is None ==> {
            &&& call_requires(builder, (handle,))
            &&& forall|body: P| #[trigger]
                call_ensures(builder, (handle,), body) && handle.wf() ==> meets(&body, relation)
        }
}

/// Whether `handle` is the handle of the rule that `builder` makes where
/// the handle inside the body does what `relation` allows: the builder gave
/// some body for such a handle, linked by now, and `handle` gives what that
/// body gives.
pub open spec fn built_by<'a, In, Out, Error, P, F>(
    handle: Rc<Recursive<'a, In, Out, Error>>,
    builder: F,
    relation: Relation<In::Token, Out, Error>,
) -> bool where
    In: Slice + 'a,
    Out: 'a,
    Error: 'a,
    P: Parser<In, Out, Error> + 'a,
    F: Fn(Rc<Recursive<'a, In, Out, Error>>) -> P,
 {
    exists|inner: Rc<Recursive<'a, In, Out, Error>>, body: P|
        {
            &&& inner.relation() == relation
            &&& inner.spec_body() is None
            &&& inner.wf()
            &&& #[trigger] call_ensures(builder, (inner,), body)
            &&& #[trigger] gives(handle, &body)
        }
}

/// Construct a parser that can call itself.
///
/// A reference to the parser itself is provided to the builder, and can be
/// used to construct a recursive parser. The handle that comes out gives
/// what the body gives that the builder made. Of the reference inside the
/// body nothing is known but that it is a parser: see `recursive_meeting`
/// for a rule of which more is to be known.
pub fn recursive<'a, In, Out, Error, P, F>(build_parser: F) -> (handle: Rc<
    Recursive<'a, In, Out, Error>,
>) where
    In: Slice + 'a,
    Out: 'a,
    Error: 'a,
    P: Parser<In, Out, Error> + 'a,
    F: Fn(Rc<Recursive<'a, In, Out, Error>>) -> P,

    requires
        builds(build_parser, anything()),
    ensures
        handle.relation() == anything::<In::Token, Out, Error>(),
        built_by(handle, build_parser, anything()),
{
    recursive_meeting(build_parser, Ghost(anything()))
}

/// Construct a parser that can call itself, where the reference to itself
/// does what `relation` allows.
///
/// The builder is given a reference that does what `relation` allows, and
/// has to give a parser that meets `relation`. The handle that comes out
/// gives what that parser gives.
pub fn recursive_meeting<'a, In, Out, Error, P, F>(
    build_parser: F,
    Ghost(relation): Ghost<Relation<In::Token, Out, Error>>,
) -> (handle: Rc<Recursive<'a, In, Out, Error>>) where
    In: Slice + 'a,
    Out: 'a,
    Error: 'a,
    P: Parser<In, Out, Error> + 'a,
    F: Fn(Rc<Recursive<'a, In, Out, Error>>) -> P,

    requires
        builds(build_parser, relation),
    ensures
        handle.relation() == relation,
        built_by(handle, build_parser, relation),
{
    let (inner, pending) = Recursive::declare(Ghost(relation));
    let ghost reference = inner;
    let body = build_parser(inner);
    assert(call_ensures(build_parser, (reference,), body));
    let handle = Recursive::define(pending, body);
    assert(gives(handle, &body));
    handle
}

} // verus!
