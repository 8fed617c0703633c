use crate::context::{Context, ContextView};
use crate::parser::{ParseResult, Parser};
use crate::slice::Slice;
use std::marker::PhantomData;
use vstd::prelude::*;

verus! {

/// A container that the outputs of a repetition can be put into, one after
/// the other.
pub trait Collection<Item>: Sized {
    /// Whether the container is what `items`, added in this order, make.
    spec fn holds(&self, items: Seq<Item>) -> bool;

    /// The container of no items.
    fn empty() -> (collection: Self)
        ensures
            collection.holds(Seq::empty()),
    ;

    /// Puts `item` behind the items already there.
    fn add(&mut self, item: Item)
        ensures
            forall|items: Seq<Item>| #[trigger]
                old(self).holds(items) ==> final(self).holds(items.push(item)),
    ;
}

impl<Item> Collection<Item> for Vec<Item> {
    open spec fn holds(&self, items: Seq<Item>) -> bool {
        self@ == items
    }

    fn empty() -> (collection: Self) {
        Vec::new()
    }

    fn add(&mut self, item: Item) {
        self.push(item);
    }
}

/// The output of a repetition that keeps none of its items.
#[derive(Debug, Clone, Copy, PartialEq, Eq, Hash)]
pub struct NoRepeatOutput;

impl<Item> Collection<Item> for NoRepeatOutput {
    open spec fn holds(&self, items: Seq<Item>) -> bool {
        true
    }

    fn empty() -> (collection: Self) {
        NoRepeatOutput
    }

    fn add(&mut self, item: Item) {
    }
}

/// A parser run again and again, between `min` and `max` times.
#[verifier::reject_recursive_types(In)]
#[verifier::reject_recursive_types(Out)]
#[verifier::reject_recursive_types(Error)]
#[verifier::reject_recursive_types(Dest)]
pub struct Repeat<In: Slice, Out, Error, P: Parser<In, Out, Error>, Dest: Collection<Out>> {
    pub parser: P,
    pub min: usize,
    pub max: Option<usize>,
    pub _phantom: PhantomData<(In, Out, Error, Dest)>,
}

impl<In, Out, Error, P, Dest> Repeat<In, Out, Error, P, Dest> where
    In: Slice,
    P: Parser<In, Out, Error>,
    Dest: Collection<Out>,
 {
    /// Set the minimum number of times to match.
    pub fn min(self, min: usize) -> (repeat: Self)
        ensures
            repeat.parser == self.parser,
            repeat.min == min,
            repeat.max == self.max,
            repeat.wf() <==> repeat_wf(repeat.parser, repeat.max),
            forall|
                pre: ContextView<In::Token, Error>,
                res: Result<Dest, Option<Error>>,
                post: ContextView<In::Token, Error>,
            | #[trigger]
                repeat.run(pre, res, post) <==> repeat_run(
                    repeat.parser,
                    repeat.min,
                    repeat.max,
                    pre,
                    res,
                    post,
                ),
    {
        let mut repeat = self;
        repeat.min = min;
        repeat
    }

    /// Set the maximum number of times to match.
    pub fn max(self, max: usize) -> (repeat: Self)
        ensures
            repeat.parser == self.parser,
            repeat.min == self.min,
            repeat.max == Some(max),
            repeat.wf() <==> repeat_wf(repeat.parser, repeat.max),
            forall|
                pre: ContextView<In::Token, Error>,
                res: Result<Dest, Option<Error>>,
                post: ContextView<In::Token, Error>,
            | #[trigger]
                repeat.run(pre, res, post) <==> repeat_run(
                    repeat.parser,
                    repeat.min,
                    repeat.max,
                    pre,
                    res,
                    post,
                ),
    {
        let mut repeat = self;
        repeat.max = Some(max);
        repeat
    }

    /// Collect the output of this parser.
    pub fn collect<Target: Collection<Out>>(self) -> (repeat: Repeat<In, Out, Error, P, Target>)
        ensures
            repeat.parser == self.parser,
            repeat.min == self.min,
            repeat.max == self.max,
            repeat.wf() <==> repeat_wf(repeat.parser, repeat.max),
            forall|
                pre: ContextView<In::Token, Error>,
                res: Result<Target, Option<Error>>,
                post: ContextView<In::Token, Error>,
            | #[trigger]
                repeat.run(pre, res, post) <==> repeat_run(
                    repeat.parser,
                    repeat.min,
                    repeat.max,
                    pre,
                    res,
                    post,
                ),
    {
        Repeat { parser: self.parser, min: self.min, max: self.max, _phantom: PhantomData }
    }
}

/// The match of index `i` of a repetition: from the state of index `i` the
/// parser gives the output of index `i` and leaves the state behind it.
pub open spec fn nth_match<In: Slice, Out, Error, P: Parser<In, Out, Error>>(
    parser: P,
    outputs: Seq<Out>,
    states: Seq<ContextView<In::Token, Error>>,
    i: int,
) -> bool {
    parser.run(states[i], Ok(outputs[i]), states[i + 1])
}

/// `outputs` are the outputs of successive matches of `parser`, and
/// `states` the states before, between and behind them.
pub open spec fn matches_in_a_row<In: Slice, Out, Error, P: Parser<In, Out, Error>>(
    parser: P,
    outputs: Seq<Out>,
    states: Seq<ContextView<In::Token, Error>>,
) -> bool {
    &&& states.len() == outputs.len() + 1
    &&& forall|i: int| 0 <= i < outputs.len() ==> #[trigger] nth_match(parser, outputs, states, i)
}

/// Why a repetition ends after `count` matches in the state `last`, and in
/// which state it ends: the maximum is reached, or one more attempt fails.
/// The failed attempt leaves its reports, and the position at `last`.
pub open spec fn ends_after<In: Slice, Out, Error, P: Parser<In, Out, Error>>(
    parser: P,
    max: Option<usize>,
    count: nat,
    last: ContextView<In::Token, Error>,
    end: ContextView<In::Token, Error>,
) -> bool {
    if max is Some && count >= max->Some_0 {
        count == max->Some_0 && end == last
    } else {
        exists|err: Option<Error>, failed: ContextView<In::Token, Error>| #[trigger]
            parser.run(last, Err(err), failed) && end == failed.at(last.index)
    }
}

/// What makes a repetition one that can be run. The parser can be run; and
/// a repetition without a maximum needs a parser that consumes input
/// whenever it succeeds at a position within the input: it would not end
/// otherwise.
pub open spec fn repeat_wf<In: Slice, Out, Error, P: Parser<In, Out, Error>>(
    parser: P,
    max: Option<usize>,
) -> bool {
    &&& parser.wf()
    &&& max is None ==> forall|
        pre: ContextView<In::Token, Error>,
        output: Out,
        post: ContextView<In::Token, Error>,
    | #[trigger]
        parser.run(pre, Ok(output), post) && 0 <= pre.index <= pre.input.len() ==> pre.index
            != post.index
}

/// What a repetition does. The parser is run until it fails or has matched
/// `max` times. With fewer than `min` matches the repetition fails
/// silently, back at the position where it started. Else it gives the
/// outputs, and stands where the last match ended.
pub open spec fn repeat_run<In, Out, Error, P, Dest>(
    parser: P,
    min: usize,
    max: Option<usize>,
    pre: ContextView<In::Token, Error>,
    res: Result<Dest, Option<Error>>,
    post: ContextView<In::Token, Error>,
) -> bool where In: Slice, P: Parser<In, Out, Error>, Dest: Collection<Out> {
    exists|
        outputs: Seq<Out>,
        states: Seq<ContextView<In::Token, Error>>,
        end: ContextView<In::Token, Error>,
    |
        {
            &&& #[trigger] matches_in_a_row(parser, outputs, states)
            &&& states[0] == pre
            &&& #[trigger] ends_after(parser, max, outputs.len(), states.last(), end)
            &&& if outputs.len() < min {
                res == Err::<Dest, Option<Error>>(None) && post == end.at(pre.index)
            } else {
                res matches Ok(collection) && collection.holds(outputs) && post == end
            }
        }
}

impl<In, Out, Error, P, Dest> Parser<In, Dest, Error> for Repeat<In, Out, Error, P, Dest> where
    In: Slice,
    P: Parser<In, Out, Error>,
    Dest: Collection<Out>,
 {
    open spec fn wf(&self) -> bool {
        repeat_wf(self.parser, self.max)
    }

    open spec fn run(
        &self,
        pre: ContextView<In::Token, Error>,
        res: Result<Dest, Option<Error>>,
        post: ContextView<In::Token, Error>,
    ) -> bool {
        repeat_run(self.parser, self.min, self.max, pre, res, post)
    }

    fn parse(&self, context: &mut Context<In, Error>) -> (res: ParseResult<Dest, Error>) {
        let ghost pre = context@;
        proof {
            context.lemma_index_in_bounds();
        }
        let start = context.location();
        let mut count: usize = 0;
        let mut collection = Dest::empty();
        let ghost mut outputs: Seq<Out> = Seq::empty();
        let ghost mut states: Seq<ContextView<In::Token, Error>> = seq![pre];
        let ghost mut end = pre;
        let ghost mut ended = false;

        loop
            invariant_except_break
                !ended,
            invariant
                self.wf(),
                context.wf(),
                context.spec_slice() == old(context).spec_slice(),
                context@.input == pre.input,
                pre == old(context)@,
                matches_in_a_row(self.parser, outputs, states),
                states[0] == pre,
                count == outputs.len(),
                collection.holds(outputs),
                0 <= pre.index <= states.last().index,
                self.max is None ==> count <= states.last().index - pre.index,
                self.max matches Some(max) ==> count <= max,
                !ended ==> context@ == states.last(),
                ended ==> context@ == end && ends_after(
                    self.parser,
                    self.max,
                    outputs.len(),
                    states.last(),
                    end,
                ),
            ensures
                ended,
            decreases
                    (if self.max is Some {
                        self.max->Some_0 - count
                    } else {
                        pre.input.len() - states.last().index
                    }),
        {
            if let Some(max) = self.max {
                if count >= max {
                    proof {
                        end = context@;
                        ended = true;
                    }
                    break ;
                }
            }
            proof {
                context.lemma_index_in_bounds();
            }
            let before = context.location();
            let ghost last = context@;
            let attempt = self.parser.parse(context);
            let ghost after = context@;
            proof {
                context.lemma_index_in_bounds();
            }
            match attempt.to_result() {
                Ok(output) => {
                    proof {
                        assert(self.parser.run(last, Ok(output), after));
                        let grown = outputs.push(output);
                        let moved = states.push(after);
                        assert forall|i: int| 0 <= i < grown.len() implies #[trigger] nth_match(
                            self.parser,
                            grown,
                            moved,
                            i,
                        ) by {
                            if i < outputs.len() {
                                assert(nth_match(self.parser, outputs, states, i));
                                assert(moved[i] == states[i] && moved[i + 1] == states[i + 1]);
                                assert(grown[i] == outputs[i]);
                            } else {
                                assert(moved[i] == last && moved[i + 1] == after);
                                assert(self.parser.run(last, Ok(output), after));
                            }
                        }
                        outputs = grown;
                        states = moved;
                    }
                    count = count + 1;
                    collection.add(output);
                },
                Err(err) => {
                    context.set_location(before);
                    proof {
                        end = context@;
                        ended = true;
                        assert(self.parser.run(last, Err(err), after));
                        assert(end == after.at(last.index));
                    }
                    break ;
                },
            }
        }

        if count < self.min {
            context.set_location(start);
            ParseResult::err(None)
        } else {
            ParseResult::ok(collection)
        }
    }
}

} // verus!
