//! What holds of the parsers of this library, whatever they are made from.

use crate::combinator::chain::{Chain, ChainParsers};
use crate::combinator::choice::{Choice, ChoiceParsers};
use crate::combinator::drop::Drop;
use crate::combinator::filter::Filter;
use crate::combinator::map::Mapped;
use crate::combinator::repeat::{ends_after, matches_in_a_row, Collection, Repeat};
use crate::combinator::spanned::Spanned;
use crate::combinator::to_slice::ToSlice;
use crate::context::{Context, ContextView};
use crate::parser::{rewinds, ParseResult, Parser};
use crate::primitive::{Any, FuncParser, Just, Nothing, Pred, TokenEq};
use crate::recursive::{gives, Recursive};
use crate::slice::Slice;
use crate::span::Span;
use std::rc::Rc;
use vstd::prelude::*;

verus! {

/// `any` fails only at the end of the input, and does not move then.
pub proof fn lemma_any_rewinds<In: Slice, Error>(parser: Any<In, Error>)
    ensures
        rewinds::<In, In::Token, Error, _>(parser),
{
}

/// `nothing` never fails.
pub proof fn lemma_nothing_rewinds<In: Slice, Error>(parser: Nothing<In, Error>)
    ensures
        rewinds::<In, (), Error, _>(parser),
{
}

/// `pred` does not move when it fails.
pub proof fn lemma_pred_rewinds<In, Error, F>(parser: Pred<In, Error, F>) where
    In: Slice,
    F: Fn(In::Token) -> bool + Copy,

    ensures
        rewinds::<In, In::Token, Error, _>(parser),
{
}

/// `just` does not move when it fails.
pub proof fn lemma_just_rewinds<In: Slice, Error>(parser: Just<In, Error>) where
    In::Token: TokenEq,

    ensures
        rewinds::<In, In::Token, Error, _>(parser),
{
}

/// A function is a parser that rewinds where no failure of the function
/// leaves the context at another position than it found it.
pub proof fn lemma_func_rewinds<In, Out, Error, F>(parser: FuncParser<In, Out, Error, F>) where
    In: Slice,
    F: Fn(Context<In, Error>) -> (ParseResult<Out, Error>, Context<In, Error>),

    requires
        forall|context: Context<In, Error>, given: (ParseResult<Out, Error>, Context<In, Error>)|
            #[trigger] call_ensures(parser.func, (context,), given) && given.0@ is Err
                ==> given.1@.index == context@.index,
    ensures
        rewinds::<In, Out, Error, _>(parser),
{
}

/// A mapped parser rewinds where the parser inside it does.
pub proof fn lemma_map_rewinds<In, OA, OB, Error, P, F>(parser: Mapped<In, OA, OB, Error, P, F>) where
    In: Slice,
    P: Parser<In, OA, Error>,
    F: Fn(OA) -> OB + Copy,

    requires
        rewinds::<In, OA, Error, P>(parser.parser),
    ensures
        rewinds::<In, OB, Error, _>(parser),
{
}

/// A filtered parser rewinds where the parser inside it does. An output
/// that the test turns down is a failure at the position where the parser
/// started, whatever the parser inside does.
pub proof fn lemma_filter_rewinds<In, Out, Error, P, F>(parser: Filter<In, Out, Error, P, F>) where
    In: Slice,
    P: Parser<In, Out, Error>,
    F: Fn(&Out) -> bool,

    requires
        rewinds::<In, Out, Error, P>(parser.parser),
    ensures
        rewinds::<In, Out, Error, _>(parser),
{
}

/// A parser whose output is dropped rewinds where the parser inside it
/// does.
pub proof fn lemma_drop_rewinds<In, Out, Error, P>(parser: Drop<In, Out, Error, P>) where
    In: Slice,
    P: Parser<In, Out, Error>,

    requires
        rewinds::<In, Out, Error, P>(parser.parser),
    ensures
        rewinds::<In, (), Error, _>(parser),
{
}

/// A parser with its span rewinds where the parser inside it does.
pub proof fn lemma_spanned_rewinds<In, Out, Error, P>(parser: Spanned<In, Out, Error, P>) where
    In: Slice,
    P: Parser<In, Out, Error>,

    requires
        rewinds::<In, Out, Error, P>(parser.parser),
    ensures
        rewinds::<In, (Span<usize>, Out), Error, _>(parser),
{
}

/// A parser that gives the matched input rewinds where the parser inside
/// it does.
pub proof fn lemma_to_slice_rewinds<In, Out, Error, P>(parser: ToSlice<In, Out, Error, P>) where
    In: Slice,
    P: Parser<In, Out, Error>,

    requires
        rewinds::<In, Out, Error, P>(parser.parser),
    ensures
        rewinds::<In, In, Error, _>(parser),
{
}

/// A chain rewinds, whatever its parsers do.
pub proof fn lemma_chain_rewinds<In, Out, Error, Parsers>(parser: Chain<In, Out, Error, Parsers>) where
    In: Slice,
    Parsers: ChainParsers<In, Out, Error>,

    ensures
        rewinds::<In, Out, Error, _>(parser),
{
    assert forall|
        pre: ContextView<In::Token, Error>,
        res: Result<Out, Option<Error>>,
        post: ContextView<In::Token, Error>,
    | #[trigger] parser.run(pre, res, post) && res is Err implies post.index == pre.index by {
        parser.parsers.lemma_chain_failure(pre.index, pre, res, post);
    }
}

/// A choice rewinds, whatever its parsers do, and its failure is silent.
pub proof fn lemma_choice_rewinds<In, Out, Error, Parsers>(
    parser: Choice<In, Out, Error, Parsers>,
) where In: Slice, Parsers: ChoiceParsers<In, Out, Error>
    ensures
        rewinds::<In, Out, Error, _>(parser),
        forall|
            pre: ContextView<In::Token, Error>,
            res: Result<Out, Option<Error>>,
            post: ContextView<In::Token, Error>,
        | #[trigger]
            parser.run(pre, res, post) && res is Err ==> res == Err::<Out, Option<Error>>(None),
{
    assert forall|
        pre: ContextView<In::Token, Error>,
        res: Result<Out, Option<Error>>,
        post: ContextView<In::Token, Error>,
    | #[trigger] parser.run(pre, res, post) && res is Err implies post.index == pre.index && res
        == Err::<Out, Option<Error>>(None) by {
        parser.parsers.lemma_choice_failure(pre, res, post);
    }
}

/// A repetition rewinds, whatever its parser does, and its failure is
/// silent.
pub proof fn lemma_repeat_rewinds<In, Out, Error, P, Dest>(
    parser: Repeat<In, Out, Error, P, Dest>,
) where In: Slice, P: Parser<In, Out, Error>, Dest: Collection<Out>
    ensures
        rewinds::<In, Dest, Error, _>(parser),
        forall|
            pre: ContextView<In::Token, Error>,
            res: Result<Dest, Option<Error>>,
            post: ContextView<In::Token, Error>,
        | #[trigger]
            parser.run(pre, res, post) && res is Err ==> res == Err::<Dest, Option<Error>>(None),
{
}

/// The handle of a finished rule rewinds where its body does.
pub proof fn lemma_recursive_rewinds<'a, In, Out, Error, P>(
    handle: Rc<Recursive<'a, In, Out, Error>>,
    body: P,
) where In: Slice + 'a, Out: 'a, Error: 'a, P: Parser<In, Out, Error>
    requires
        gives(handle, &body),
        rewinds::<In, Out, Error, P>(body),
    ensures
        rewinds::<In, Out, Error, _>(handle),
{
}

/// First match wins: where the first of two alternatives cannot fail in the
/// state `pre`, what the choice gives is what the first alternative gives,
/// whatever the second would do.
pub proof fn lemma_choice_takes_first<In, Out, Error, A, B>(
    parser: Choice<In, Out, Error, (A, B)>,
    pre: ContextView<In::Token, Error>,
    res: Result<Out, Option<Error>>,
    post: ContextView<In::Token, Error>,
) where In: Slice, A: Parser<In, Out, Error>, B: Parser<In, Out, Error>
    requires
        parser.run(pre, res, post),
        forall|tried: Result<Out, Option<Error>>, mid: ContextView<In::Token, Error>| #[trigger]
            parser.parsers.0.run(pre, tried, mid) ==> tried is Ok,
    ensures
        parser.parsers.0.run(pre, res, post),
{
}

/// Where the first of two alternatives fails, the choice gives what the
/// second gives from the position where the choice started, or fails
/// silently there if the second fails too.
pub proof fn lemma_choice_falls_through<In, Out, Error, A, B>(
    parser: Choice<In, Out, Error, (A, B)>,
    pre: ContextView<In::Token, Error>,
    res: Result<Out, Option<Error>>,
    post: ContextView<In::Token, Error>,
) where In: Slice, A: Parser<In, Out, Error>, B: Parser<In, Out, Error>
    requires
        parser.run(pre, res, post),
        forall|tried: Result<Out, Option<Error>>, mid: ContextView<In::Token, Error>| #[trigger]
            parser.parsers.0.run(pre, tried, mid) ==> tried is Err,
    ensures
        exists|
            first: Result<Out, Option<Error>>,
            mid: ContextView<In::Token, Error>,
            second: Result<Out, Option<Error>>,
            end: ContextView<In::Token, Error>,
        |
            {
                &&& #[trigger] parser.parsers.0.run(pre, first, mid)
                &&& #[trigger] parser.parsers.1.run(mid.at(pre.index), second, end)
                &&& match second {
                    Ok(_) => res == second && post == end,
                    Err(_) => res == Err::<Out, Option<Error>>(None) && post == end.at(
                        pre.index,
                    ),
                }
            },
{
    let (first, mid) = choose|first: Result<Out, Option<Error>>, mid: ContextView<In::Token, Error>|
     #[trigger]
        parser.parsers.0.run(pre, first, mid) && match first {
            Ok(_) => res == first && post == mid,
            Err(_) => (parser.parsers.1,).choice_run(mid.at(pre.index), res, post),
        };
    let from = mid.at(pre.index);
    let (second, end) = choose|
        second: Result<Out, Option<Error>>,
        end: ContextView<In::Token, Error>,
    | #[trigger]
        parser.parsers.1.run(from, second, end) && match second {
            Ok(_) => res == second && post == end,
            Err(_) => res == Err::<Out, Option<Error>>(None) && post == end.at(from.index),
        };
    assert(parser.parsers.0.run(pre, first, mid));
    assert(parser.parsers.1.run(mid.at(pre.index), second, end));
}

/// A chain of two is all or nothing: where the first parser succeeds and
/// the second fails, the chain fails with the failure of the second,
/// diagnostic included, and the position is back where the chain started.
pub proof fn lemma_chain_is_atomic<In, AOut, BOut, Error, A, B>(
    parser: Chain<In, (AOut, BOut), Error, (A, B)>,
    pre: ContextView<In::Token, Error>,
    res: Result<(AOut, BOut), Option<Error>>,
    post: ContextView<In::Token, Error>,
) where In: Slice, A: Parser<In, AOut, Error>, B: Parser<In, BOut, Error>
    requires
        parser.run(pre, res, post),
        res is Err,
        forall|first: Result<AOut, Option<Error>>, mid: ContextView<In::Token, Error>| #[trigger]
            parser.parsers.0.run(pre, first, mid) ==> first is Ok,
    ensures
        post.index == pre.index,
        exists|
            output: AOut,
            mid: ContextView<In::Token, Error>,
            err: Option<Error>,
            end: ContextView<In::Token, Error>,
        |
            {
                &&& #[trigger] parser.parsers.0.run(pre, Ok(output), mid)
                &&& #[trigger] parser.parsers.1.run(mid, Err(err), end)
                &&& res == Err::<(AOut, BOut), Option<Error>>(err)
                &&& post == end.at(pre.index)
            },
{
    let (first, mid) = choose|first: Result<AOut, Option<Error>>, mid: ContextView<In::Token, Error>|
     #[trigger]
        parser.parsers.0.run(pre, first, mid) && match first {
            Ok(output) => exists|rest: Result<(BOut,), Option<Error>>| #[trigger]
                (parser.parsers.1,).chain_from(pre.index, mid, rest, post) && match rest {
                    Ok(others) => res == Ok::<(AOut, BOut), Option<Error>>((output, others.0)),
                    Err(err) => res == Err::<(AOut, BOut), Option<Error>>(err),
                },
            Err(err) => res == Err::<(AOut, BOut), Option<Error>>(err) && post == mid.at(
                pre.index,
            ),
        };
    let output = first->Ok_0;
    let rest = choose|rest: Result<(BOut,), Option<Error>>| #[trigger]
        (parser.parsers.1,).chain_from(pre.index, mid, rest, post) && match rest {
            Ok(others) => res == Ok::<(AOut, BOut), Option<Error>>((output, others.0)),
            Err(err) => res == Err::<(AOut, BOut), Option<Error>>(err),
        };
    let (second, end) = choose|
        second: Result<BOut, Option<Error>>,
        end: ContextView<In::Token, Error>,
    | #[trigger]
        parser.parsers.1.run(mid, second, end) && match second {
            Ok(output) => rest == Ok::<(BOut,), Option<Error>>((output,)) && post == end,
            Err(err) => rest == Err::<(BOut,), Option<Error>>(err) && post == end.at(pre.index),
        };
    assert(parser.parsers.0.run(pre, Ok(output), mid));
    assert(parser.parsers.1.run(mid, Err(second->Err_0), end));
}

/// A repetition keeps its bounds. Its failure is silent and leaves the
/// position where the repetition started. Its success holds the outputs of
/// no fewer than `min` and no more than `max` matches in a row, and leaves
/// the position where the last of them ended.
pub proof fn lemma_repeat_keeps_bounds<In, Out, Error, P, Dest>(
    parser: Repeat<In, Out, Error, P, Dest>,
    pre: ContextView<In::Token, Error>,
    res: Result<Dest, Option<Error>>,
    post: ContextView<In::Token, Error>,
) where In: Slice, P: Parser<In, Out, Error>, Dest: Collection<Out>
    requires
        parser.run(pre, res, post),
    ensures
        res is Err ==> res == Err::<Dest, Option<Error>>(None) && post.index == pre.index,
        res matches Ok(collection) ==> exists|
            outputs: Seq<Out>,
            states: Seq<ContextView<In::Token, Error>>,
        |
            {
                &&& #[trigger] matches_in_a_row(parser.parser, outputs, states)
                &&& states[0] == pre
                &&& parser.min <= outputs.len()
                &&& parser.max matches Some(max) ==> outputs.len() <= max
                &&& #[trigger] collection.holds(outputs)
                &&& post.index == states.last().index
            },
{
    let (outputs, states, end) = choose|
        outputs: Seq<Out>,
        states: Seq<ContextView<In::Token, Error>>,
        end: ContextView<In::Token, Error>,
    |
        {
            &&& #[trigger] matches_in_a_row(parser.parser, outputs, states)
            &&& states[0] == pre
            &&& #[trigger] ends_after(parser.parser, parser.max, outputs.len(), states.last(), end)
            &&& if outputs.len() < parser.min {
                res == Err::<Dest, Option<Error>>(None) && post == end.at(pre.index)
            } else {
                res matches Ok(collection) && collection.holds(outputs) && post == end
            }
        };
    if res is Ok {
        assert(matches_in_a_row(parser.parser, outputs, states));
        assert(res->Ok_0.holds(outputs));
    }
}

/// What `to_slice` gives is the part of the input between the positions
/// where its parser started and stopped, whatever the output of the parser
/// was.
pub proof fn lemma_to_slice_gives_matched_input<In, Out, Error, P>(
    parser: ToSlice<In, Out, Error, P>,
    pre: ContextView<In::Token, Error>,
    matched: In,
    post: ContextView<In::Token, Error>,
) where In: Slice, P: Parser<In, Out, Error>
    requires
        parser.run(pre, Ok(matched), post),
    ensures
        matched.tokens() == pre.input.subrange(pre.index, post.index),
        exists|output: Out| #[trigger] parser.parser.run(pre, Ok(output), post),
{
    let inner = choose|inner: Result<Out, Option<Error>>| #[trigger]
        parser.parser.run(pre, inner, post) && match inner {
            Ok(_) => Ok::<In, Option<Error>>(matched) matches Ok(found) && found.tokens()
                == pre.input.subrange(pre.index, post.index),
            Err(err) => Ok::<In, Option<Error>>(matched) == Err::<In, Option<Error>>(err),
        };
    assert(parser.parser.run(pre, Ok(inner->Ok_0), post));
}

} // verus!
