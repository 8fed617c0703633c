//! Two small grammars over characters: identifiers and blank space.

use crate::combinator::chain::{chain, ChainParsers};
use crate::combinator::repeat::{
    ends_after, matches_in_a_row, nth_match, Collection, NoRepeatOutput, Repeat,
};
use crate::context::ContextView;
use crate::parser::{Parser, ParserExt};
use crate::primitive::{pred, Pred};
use crate::slice::Slice;
use vstd::prelude::*;

verus! {

/// Whether an identifier can start with `c`: an ASCII letter or `_`.
pub open spec fn spec_is_ident_start(c: char) -> bool {
    ||| 'a' <= c <= 'z'
    ||| 'A' <= c <= 'Z'
    ||| c == '_'
}

/// Whether an identifier can go on with `c`: an ASCII letter or digit, or
/// `_`.
pub open spec fn spec_is_ident(c: char) -> bool {
    ||| spec_is_ident_start(c)
    ||| '0' <= c <= '9'
}

/// Whether `c` is ASCII blank space: space, tab, line feed, form feed or
/// carriage return.
pub open spec fn spec_is_space(c: char) -> bool {
    ||| c == ' '
    ||| c == '\t'
    ||| c == '\n'
    ||| c == '\x0C'
    ||| c == '\r'
}

pub fn is_ident_start(c: char) -> (b: bool)
    ensures
        b == spec_is_ident_start(c),
{
    ('a' <= c && c <= 'z') || ('A' <= c && c <= 'Z') || c == '_'
}

pub fn is_ident(c: char) -> (b: bool)
    ensures
        b == spec_is_ident(c),
{
    is_ident_start(c) || ('0' <= c && c <= '9')
}

pub fn is_space(c: char) -> (b: bool)
    ensures
        b == spec_is_space(c),
{
    c == ' ' || c == '\t' || c == '\n' || c == '\x0C' || c == '\r'
}

/// How many elements at the start of `tokens` pass the test `accepts`, one
/// after the other.
pub open spec fn run_of(tokens: Seq<char>, accepts: spec_fn(char) -> bool) -> nat
    decreases tokens.len(),
{
    if tokens.len() > 0 && accepts(tokens[0]) {
        1 + run_of(tokens.drop_first(), accepts)
    } else {
        0
    }
}

/// A run is as long as the stretch of passing elements that ends at the
/// first failing one, or at the end.
pub proof fn lemma_run_of(tokens: Seq<char>, accepts: spec_fn(char) -> bool, count: int)
    requires
        0 <= count <= tokens.len(),
        forall|i: int| 0 <= i < count ==> accepts(#[trigger] tokens[i]),
        count < tokens.len() ==> !accepts(tokens[count]),
    ensures
        run_of(tokens, accepts) == count,
    decreases count,
{
    if count > 0 {
        let rest = tokens.drop_first();
        assert forall|i: int| 0 <= i < count - 1 implies accepts(#[trigger] rest[i]) by {
            assert(rest[i] == tokens[i + 1]);
        }
        lemma_run_of(rest, accepts, count - 1);
    }
}

/// Whether the function `test` computes the predicate `accepts`.
pub open spec fn decides<F: Fn(char) -> bool>(test: F, accepts: spec_fn(char) -> bool) -> bool {
    &&& forall|c: char| call_requires(test, (c,))
    &&& forall|c: char, b: bool| call_ensures(test, (c,), b) ==> b == accepts(c)
}

/// What an unbounded repetition of a test on characters does: it takes the
/// run of passing characters at the current position. With fewer than `min`
/// of them it fails silently and does not move.
pub open spec fn takes_run<Error, Dest: Collection<char>>(
    accepts: spec_fn(char) -> bool,
    min: usize,
    pre: ContextView<char, Error>,
    res: Result<Dest, Option<Error>>,
    post: ContextView<char, Error>,
) -> bool {
    let count = run_of(pre.remaining(), accepts);
    if count < min {
        res == Err::<Dest, Option<Error>>(None) && post == pre
    } else {
        &&& res matches Ok(collection) && collection.holds(
            pre.input.subrange(pre.index, pre.index + count),
        )
        &&& post == pre.at(pre.index + count)
    }
}

/// An unbounded repetition of a test on characters takes the run of
/// passing characters.
pub proof fn lemma_repeat_takes_run<In, Error, F, Dest>(
    parser: Repeat<In, char, Error, Pred<In, Error, F>, Dest>,
    accepts: spec_fn(char) -> bool,
    pre: ContextView<char, Error>,
    res: Result<Dest, Option<Error>>,
    post: ContextView<char, Error>,
) where In: Slice<Token = char>, F: Fn(char) -> bool + Copy, Dest: Collection<char>
    requires
        decides(parser.parser.pred, accepts),
        parser.max is None,
        parser.run(pre, res, post),
    ensures
        0 <= pre.index <= pre.input.len(),
        takes_run(accepts, parser.min, pre, res, post),
{
    let (outputs, states, end) = choose|
        outputs: Seq<char>,
        states: Seq<ContextView<char, Error>>,
        end: ContextView<char, Error>,
    |
        {
            &&& #[trigger] matches_in_a_row(parser.parser, outputs, states)
            &&& states[0] == pre
            &&& #[trigger] ends_after(parser.parser, parser.max, outputs.len(), states.last(), end)
            &&& if outputs.len() < parser.min {
                res == Err::<Dest, Option<Error>>(None) && post == end.at(pre.index)
            } else {
                res matches Ok(collection) && collection.holds(outputs) && post == end
            }
        };
    let count = outputs.len() as int;
    let last = states.last();
    let (err, failed) = choose|err: Option<Error>, failed: ContextView<char, Error>| #[trigger]
        parser.parser.run(last, Err(err), failed) && end == failed.at(last.index);
    if count > 0 {
        assert(nth_match(parser.parser, outputs, states, 0));
    }
    lemma_matches_advance(parser.parser, accepts, outputs, states, count);
    let rest = pre.remaining();
    assert forall|i: int| 0 <= i < count implies accepts(#[trigger] rest[i]) by {
        lemma_matches_advance(parser.parser, accepts, outputs, states, i + 1);
    }
    assert(count < rest.len() ==> rest[count] == pre.input[pre.index + count]);
    lemma_run_of(rest, accepts, count);
    assert(outputs =~= pre.input.subrange(pre.index, pre.index + count)) by {
        assert forall|i: int| 0 <= i < count implies outputs[i] == pre.input[pre.index + i] by {
            lemma_matches_advance(parser.parser, accepts, outputs, states, i + 1);
        }
    }
}

/// After `n` matches in a row of a test on characters the position is `n`
/// further, nothing else has changed, and the `n` elements passed the
/// test.
proof fn lemma_matches_advance<In, Error, F>(
    parser: Pred<In, Error, F>,
    accepts: spec_fn(char) -> bool,
    outputs: Seq<char>,
    states: Seq<ContextView<char, Error>>,
    n: int,
) where In: Slice<Token = char>, F: Fn(char) -> bool + Copy
    requires
        decides(parser.pred, accepts),
        matches_in_a_row(parser, outputs, states),
        0 <= n <= outputs.len(),
        0 <= states[0].index <= states[0].input.len(),
    ensures
        states[n] == states[0].at(states[0].index + n),
        states[0].index + n <= states[0].input.len(),
        n > 0 ==> outputs[n - 1] == states[0].input[states[0].index + n - 1] && accepts(
            outputs[n - 1],
        ),
    decreases n,
{
    if n > 0 {
        lemma_matches_advance(parser, accepts, outputs, states, n - 1);
        assert(nth_match(parser, outputs, states, n - 1));
    }
}

/// What `ident` does. Where the input goes on with a letter or `_`, it
/// takes that and the run of letters, digits and `_` behind it, and gives
/// the part of the input that it took. Else it fails silently and does not
/// move.
pub open spec fn ident_run<In: Slice<Token = char>, Error>(
    pre: ContextView<char, Error>,
    res: Result<In, Option<Error>>,
    post: ContextView<char, Error>,
) -> bool {
    let rest = pre.remaining();
    if rest.len() > 0 && spec_is_ident_start(rest[0]) {
        let end = pre.index + 1 + run_of(rest.drop_first(), |c: char| spec_is_ident(c));
        &&& res matches Ok(matched) && matched.tokens() == pre.input.subrange(pre.index, end)
        &&& post == pre.at(end)
    } else {
        res == Err::<In, Option<Error>>(None) && post == pre
    }
}

/// What `space` does: it takes the run of blank characters at the current
/// position, which may be empty.
pub open spec fn space_run<Error>(
    pre: ContextView<char, Error>,
    res: Result<(), Option<Error>>,
    post: ContextView<char, Error>,
) -> bool {
    &&& res == Ok::<(), Option<Error>>(())
    &&& post == pre.at(pre.index + run_of(pre.remaining(), |c: char| spec_is_space(c)))
}

/// The identifier grammar over the tests `starts` and `goes_on`.
fn ident_with<In, Error, F, G>(starts: F, goes_on: G) -> (parser: impl Parser<In, In, Error>) where
    In: Slice<Token = char>,
    F: Fn(char) -> bool + Copy,
    G: Fn(char) -> bool + Copy,

    requires
        decides(starts, |c: char| spec_is_ident_start(c)),
        decides(goes_on, |c: char| spec_is_ident(c)),
    ensures
        parser.wf(),
        forall|
            pre: ContextView<char, Error>,
            res: Result<In, Option<Error>>,
            post: ContextView<char, Error>,
        | #[trigger]
            parser.run(pre, res, post) ==> 0 <= pre.index <= pre.input.len() && ident_run(
                pre,
                res,
                post,
            ),
{
    let first = pred(starts);
    let others = pred(goes_on).repeat();
    let both = chain((first, others));
    let sliced = both.to_slice();
    proof {
        assert forall|
            pre: ContextView<char, Error>,
            res: Result<In, Option<Error>>,
            post: ContextView<char, Error>,
        | #[trigger]
            sliced.run(pre, res, post) implies 0 <= pre.index <= pre.input.len() && ident_run(
            pre,
            res,
            post,
        ) by {
            let accepts = |c: char| spec_is_ident(c);
            let inner = choose|inner: Result<(char, NoRepeatOutput), Option<Error>>| #[trigger]
                both.run(pre, inner, post) && match inner {
                    Ok(_) => res matches Ok(matched) && matched.tokens() == pre.input.subrange(
                        pre.index,
                        post.index,
                    ),
                    Err(err) => res == Err::<In, Option<Error>>(err),
                };
            let (head, mid) = choose|
                head: Result<char, Option<Error>>,
                mid: ContextView<char, Error>,
            | #[trigger]
                first.run(pre, head, mid) && match head {
                    Ok(output) => exists|
                        rest: Result<(NoRepeatOutput,), Option<Error>>,
                    | #[trigger]
                        (others,).chain_from(pre.index, mid, rest, post) && match rest {
                            Ok(found) => inner == Ok::<
                                (char, NoRepeatOutput),
                                Option<Error>,
                            >((output, found.0)),
                            Err(err) => inner == Err::<
                                (char, NoRepeatOutput),
                                Option<Error>,
                            >(err),
                        },
                    Err(err) => inner == Err::<
                        (char, NoRepeatOutput),
                        Option<Error>,
                    >(err) && post == mid.at(pre.index),
                };
            let tokens = pre.remaining();
            if let Ok(output) = head {
                let rest = choose|
                    rest: Result<(NoRepeatOutput,), Option<Error>>,
                | #[trigger]
                    (others,).chain_from(pre.index, mid, rest, post) && match rest {
                        Ok(found) => inner == Ok::<
                            (char, NoRepeatOutput),
                            Option<Error>,
                        >((output, found.0)),
                        Err(err) => inner == Err::<
                            (char, NoRepeatOutput),
                            Option<Error>,
                        >(err),
                    };
                let (tail, end) = choose|
                    tail: Result<NoRepeatOutput, Option<Error>>,
                    end: ContextView<char, Error>,
                | #[trigger]
                    others.run(mid, tail, end) && match tail {
                        Ok(found) => rest == Ok::<
                            (NoRepeatOutput,),
                            Option<Error>,
                        >((found,)) && post == end,
                        Err(err) => rest == Err::<
                            (NoRepeatOutput,),
                            Option<Error>,
                        >(err) && post == end.at(pre.index),
                    };
                lemma_repeat_takes_run(others, accepts, mid, tail, end);
                assert(mid.remaining() =~= tokens.drop_first());
            }
        }
    }
    sliced
}

/// An identifier: one letter or `_`, then letters, digits and `_` as far as
/// they go. The output is the part of the input that was matched.
pub fn ident<In: Slice<Token = char>, Error>() -> (parser: impl Parser<In, In, Error>)
    ensures
        parser.wf(),
        forall|
            pre: ContextView<char, Error>,
            res: Result<In, Option<Error>>,
            post: ContextView<char, Error>,
        | #[trigger]
            parser.run(pre, res, post) ==> 0 <= pre.index <= pre.input.len() && ident_run(
                pre,
                res,
                post,
            ),
{
    let starts = |c: char| -> (b: bool)
        ensures
            b == spec_is_ident_start(c),
        {
            is_ident_start(c)
        };
    let goes_on = |c: char| -> (b: bool)
        ensures
            b == spec_is_ident(c),
        {
            is_ident(c)
        };
    ident_with(starts, goes_on)
}

/// The blank-space grammar over the test `blank`.
fn space_with<In, Error, F>(blank: F) -> (parser: impl Parser<In, (), Error>) where
    In: Slice<Token = char>,
    F: Fn(char) -> bool + Copy,

    requires
        decides(blank, |c: char| spec_is_space(c)),
    ensures
        parser.wf(),
        forall|
            pre: ContextView<char, Error>,
            res: Result<(), Option<Error>>,
            post: ContextView<char, Error>,
        | #[trigger]
            parser.run(pre, res, post) ==> 0 <= pre.index <= pre.input.len() && space_run(
                pre,
                res,
                post,
            ),
{
    let blanks = pred(blank).repeat();
    let dropped = blanks.drop();
    proof {
        assert forall|
            pre: ContextView<char, Error>,
            res: Result<(), Option<Error>>,
            post: ContextView<char, Error>,
        | #[trigger]
            dropped.run(pre, res, post) implies 0 <= pre.index <= pre.input.len() && space_run(
            pre,
            res,
            post,
        ) by {
            let inner = choose|
                inner: Result<NoRepeatOutput, Option<Error>>,
            | #[trigger]
                blanks.run(pre, inner, post) && match inner {
                    Ok(_) => res == Ok::<(), Option<Error>>(()),
                    Err(err) => res == Err::<(), Option<Error>>(err),
                };
            lemma_repeat_takes_run(blanks, |c: char| spec_is_space(c), pre, inner, post);
        }
    }
    dropped
}

/// Blank space, as much as there is; none is a match too.
pub fn space<In: Slice<Token = char>, Error>() -> (parser: impl Parser<In, (), Error>)
    ensures
        parser.wf(),
        forall|
            pre: ContextView<char, Error>,
            res: Result<(), Option<Error>>,
            post: ContextView<char, Error>,
        | #[trigger]
            parser.run(pre, res, post) ==> 0 <= pre.index <= pre.input.len() && space_run(
                pre,
                res,
                post,
            ),
{
    let blank = |c: char| -> (b: bool)
        ensures
            b == spec_is_space(c),
        {
            is_space(c)
        };
    space_with(blank)
}

} // verus!
