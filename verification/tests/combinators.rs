use papa::combinator::chain::chain;
use papa::combinator::choice::choice;
use papa::combinator::repeat::NoRepeatOutput;
use papa::context::Context;
use papa::parser::{ParseResult, Parser, ParserExt};
use papa::primitive::{any, func, just, nothing, pred};
use papa::span::Span;

fn context(input: &str) -> Context<&str, String> {
    Context::new(input)
}

/// Fails with a diagnostic, without consuming.
fn failing<'a>(message: &'static str) -> impl Parser<&'a str, char, String> {
    func(move |ctx: Context<&'a str, String>| (ParseResult::err(Some(message.to_string())), ctx))
}

/// Consumes one element and then fails silently, without rewinding.
fn greedy_failure<'a>() -> impl Parser<&'a str, char, String> {
    func(|mut ctx: Context<&'a str, String>| {
        ctx.next();
        (ParseResult::err(None), ctx)
    })
}

fn digit<'a>() -> impl Parser<&'a str, char, String> {
    pred(|c: char| c.is_ascii_digit())
}

#[test]
fn map_applies_the_function_to_the_output() {
    let mut ctx = context("7");
    let res = digit().map(|c| c.to_digit(10).unwrap()).parse(&mut ctx).to_result();
    assert_eq!(res, Ok(7));
    assert_eq!(ctx.location(), 1);
}

#[test]
fn map_hands_a_failure_on() {
    let mut ctx = context("x");
    let res = digit().map(|c| c.to_digit(10).unwrap()).parse(&mut ctx).to_result();
    assert_eq!(res, Err(None));
    assert_eq!(ctx.location(), 0);
    let mut ctx = context("x");
    let res = failing("no").map(|c| c as u32).parse(&mut ctx).to_result();
    assert_eq!(res, Err(Some("no".to_string())));
}

#[test]
fn filter_accepts_an_output_that_passes() {
    let mut ctx = context("8");
    let res = digit().filter(|c| *c >= '5').parse(&mut ctx).to_result();
    assert_eq!(res, Ok('8'));
    assert_eq!(ctx.location(), 1);
}

#[test]
fn filter_rewinds_when_it_turns_an_output_down() {
    let mut ctx = context("3");
    let res = digit().filter(|c| *c >= '5').parse(&mut ctx).to_result();
    assert_eq!(res, Err(None));
    assert_eq!(ctx.location(), 0);
    assert_eq!(any().parse(&mut ctx).to_result(), Ok('3'));
}

#[test]
fn filter_hands_a_failure_on() {
    let mut ctx = context("x");
    let res = failing("no").filter(|_| true).parse(&mut ctx).to_result();
    assert_eq!(res, Err(Some("no".to_string())));
    assert_eq!(ctx.location(), 0);
}

#[test]
fn drop_gives_unit_on_success() {
    let mut ctx = context("7");
    assert_eq!(digit().drop().parse(&mut ctx).to_result(), Ok(()));
    assert_eq!(ctx.location(), 1);
}

#[test]
fn drop_hands_a_failure_on() {
    let mut ctx = context("x");
    assert_eq!(digit().drop().parse(&mut ctx).to_result(), Err(None));
    assert_eq!(ctx.location(), 0);
    assert_eq!(failing("no").drop().parse(&mut ctx).to_result(), Err(Some("no".to_string())));
}

#[test]
fn chain_gives_the_tuple_of_outputs() {
    let mut ctx = context("a1b");
    let res = chain((just('a'), digit(), just('b'))).parse(&mut ctx).to_result();
    assert_eq!(res, Ok(('a', '1', 'b')));
    assert_eq!(ctx.location(), 3);
}

#[test]
fn chain_of_one_and_of_eight() {
    let mut ctx = context("abcdefgh");
    assert_eq!(chain((just('a'),)).parse(&mut ctx).to_result(), Ok(('a',)));
    ctx.set_location(0);
    let eight = chain((
        just('a'),
        just('b'),
        just('c'),
        just('d'),
        just('e'),
        just('f'),
        just('g'),
        just('h'),
    ));
    assert_eq!(
        eight.parse(&mut ctx).to_result(),
        Ok(('a', 'b', 'c', 'd', 'e', 'f', 'g', 'h'))
    );
    assert_eq!(ctx.location(), 8);
    let mut short = context("abcdefgx");
    assert_eq!(eight.parse(&mut short).to_result(), Err(None));
    assert_eq!(short.location(), 0);
}

#[test]
fn chain_is_all_or_nothing() {
    let mut ctx = context("ab");
    let res = chain((just('a'), just('x'))).parse(&mut ctx).to_result();
    assert_eq!(res, Err(None));
    assert_eq!(ctx.location(), 0);
}

#[test]
fn chain_returns_the_failure_of_the_parser_that_failed() {
    let mut ctx = context("ab");
    let res = chain((just('a'), failing("second failed"))).parse(&mut ctx).to_result();
    assert_eq!(res, Err(Some("second failed".to_string())));
    assert_eq!(ctx.location(), 0);
}

#[test]
fn chain_rewinds_behind_a_parser_that_does_not() {
    let mut ctx = context("abc");
    let res = chain((just('a'), greedy_failure())).parse(&mut ctx).to_result();
    assert_eq!(res, Err(None));
    assert_eq!(ctx.location(), 0);
}

#[test]
fn choice_takes_the_first_success() {
    let mut ctx = context("ab");
    let first = chain((just('a'),)).map(|_| 1);
    let second = chain((just('a'), just('b'))).map(|_| 2);
    assert_eq!(choice((first, second)).parse(&mut ctx).to_result(), Ok(1));
    assert_eq!(ctx.location(), 1);
}

#[test]
fn choice_tries_the_next_from_the_start() {
    let mut ctx = context("ab");
    let first = chain((just('a'), just('x'))).map(|_| 1);
    let second = chain((just('a'), just('b'))).map(|_| 2);
    assert_eq!(choice((first, second)).parse(&mut ctx).to_result(), Ok(2));
    assert_eq!(ctx.location(), 2);
}

#[test]
fn choice_rewinds_behind_a_parser_that_does_not() {
    let mut ctx = context("ab");
    let res = choice((greedy_failure(), just('a'))).parse(&mut ctx).to_result();
    assert_eq!(res, Ok('a'));
    assert_eq!(ctx.location(), 1);
}

#[test]
fn choice_drops_the_diagnostics_of_its_alternatives() {
    let mut ctx = context("ab");
    let res = choice((failing("one"), failing("two"))).parse(&mut ctx).to_result();
    assert_eq!(res, Err(None));
    assert_eq!(ctx.location(), 0);
    assert!(ctx.errors().is_empty());
}

#[test]
fn choice_of_one_and_of_eight() {
    let mut ctx = context("h");
    assert_eq!(choice((just('h'),)).parse(&mut ctx).to_result(), Ok('h'));
    ctx.set_location(0);
    let eight = choice((
        just('a'),
        just('b'),
        just('c'),
        just('d'),
        just('e'),
        just('f'),
        just('g'),
        just('h'),
    ));
    assert_eq!(eight.parse(&mut ctx).to_result(), Ok('h'));
    assert_eq!(ctx.location(), 1);
    let mut other = context("z");
    assert_eq!(eight.parse(&mut other).to_result(), Err(None));
    assert_eq!(other.location(), 0);
}

#[test]
fn repeat_below_its_minimum_fails_and_rewinds() {
    let mut ctx = context("1ab");
    let res: Result<Vec<char>, _> = digit().repeat().min(2).collect().parse(&mut ctx).to_result();
    assert_eq!(res, Err(None));
    assert_eq!(ctx.location(), 0);
}

#[test]
fn repeat_stops_at_its_maximum() {
    let mut ctx = context("123");
    let res: Result<Vec<char>, _> = digit().repeat().max(2).collect().parse(&mut ctx).to_result();
    assert_eq!(res, Ok(vec!['1', '2']));
    assert_eq!(ctx.location(), 2);
    assert_eq!(any().parse(&mut ctx).to_result(), Ok('3'));
}

#[test]
fn repeat_takes_all_that_match() {
    let mut ctx = context("123x");
    let res: Result<Vec<char>, _> = digit().repeat().collect().parse(&mut ctx).to_result();
    assert_eq!(res, Ok(vec!['1', '2', '3']));
    assert_eq!(ctx.location(), 3);
}

#[test]
fn repeat_of_nothing_that_matches_is_empty() {
    let mut ctx = context("x");
    let res: Result<Vec<char>, _> = digit().repeat().collect().parse(&mut ctx).to_result();
    assert_eq!(res, Ok(vec![]));
    assert_eq!(ctx.location(), 0);
}

#[test]
fn repeat_with_maximum_zero_runs_nothing() {
    let mut ctx = context("123");
    let res: Result<Vec<char>, _> = digit().repeat().max(0).collect().parse(&mut ctx).to_result();
    assert_eq!(res, Ok(vec![]));
    assert_eq!(ctx.location(), 0);
}

#[test]
fn repeat_with_a_maximum_may_match_without_consuming() {
    let mut ctx = context("ab");
    let res: Result<Vec<()>, _> = nothing().repeat().max(3).collect().parse(&mut ctx).to_result();
    assert_eq!(res, Ok(vec![(), (), ()]));
    assert_eq!(ctx.location(), 0);
}

#[test]
fn repeat_meets_minimum_and_maximum_together() {
    let mut ctx = context("12345");
    let bounded = digit().repeat().min(2).max(4).collect::<Vec<char>>();
    assert_eq!(bounded.parse(&mut ctx).to_result(), Ok(vec!['1', '2', '3', '4']));
    assert_eq!(ctx.location(), 4);
    let mut two = context("12x");
    assert_eq!(bounded.parse(&mut two).to_result(), Ok(vec!['1', '2']));
    assert_eq!(two.location(), 2);
}

#[test]
fn repeat_has_no_output_by_default() {
    let mut ctx = context("12x");
    let res = digit().repeat().parse(&mut ctx).to_result();
    assert_eq!(res, Ok(NoRepeatOutput));
    assert_eq!(ctx.location(), 2);
}

#[test]
fn repeat_drops_the_diagnostic_of_the_attempt_that_ends_it() {
    let mut ctx = context("ab");
    let res: Result<Vec<char>, _> = failing("end").repeat().collect().parse(&mut ctx).to_result();
    assert_eq!(res, Ok(vec![]));
    assert!(ctx.errors().is_empty());
}

#[test]
fn repeat_stands_where_the_last_match_ended() {
    let mut ctx = context("a1a2x");
    let pair = choice((chain((just('a'), digit())).map(|_| 'p'), greedy_failure()));
    let res: Result<Vec<char>, _> = pair.repeat().collect().parse(&mut ctx).to_result();
    assert_eq!(res, Ok(vec!['p', 'p']));
    assert_eq!(ctx.location(), 4);

    let mut ctx = context("11x");
    let stubborn = choice((digit(),));
    let res: Result<Vec<char>, _> = stubborn.repeat().collect().parse(&mut ctx).to_result();
    assert_eq!(res, Ok(vec!['1', '1']));
    assert_eq!(ctx.location(), 2);
}

#[test]
fn repeat_rewinds_behind_a_failing_attempt_that_does_not() {
    let mut ctx = context("abc");
    let res: Result<Vec<char>, _> = greedy_failure().repeat().collect().parse(&mut ctx).to_result();
    assert_eq!(res, Ok(vec![]));
    assert_eq!(ctx.location(), 0);
}

#[test]
fn spanned_gives_the_region_that_was_matched() {
    let mut ctx = context("x12y");
    assert_eq!(any().parse(&mut ctx).to_result(), Ok('x'));
    let digits = digit().repeat().collect::<Vec<char>>().spanned();
    let (span, output) = digits.parse(&mut ctx).to_result().unwrap();
    assert_eq!(span.to_range(), 1..3);
    assert_eq!(span.len(), 2);
    assert_eq!(output, vec!['1', '2']);
    assert_eq!(ctx.location(), 3);
}

#[test]
fn spanned_of_an_empty_match_is_empty() {
    let mut ctx = context("xy");
    let (span, ()): (Span<usize>, ()) = nothing().spanned().parse(&mut ctx).to_result().unwrap();
    assert!(span.is_empty());
    assert_eq!(span.start(), 0);
}

#[test]
fn spanned_hands_a_failure_on() {
    let mut ctx = context("xy");
    let res = failing("no").spanned().parse(&mut ctx).to_result();
    assert!(matches!(res, Err(Some(message)) if message == "no"));
}

#[test]
fn spanned_counts_bytes_in_text() {
    let mut ctx = context("\u{e9}\u{20ac}!");
    let two = chain((any(), any())).spanned();
    let (span, output) = two.parse(&mut ctx).to_result().unwrap();
    assert_eq!(span.to_range(), 0..5);
    assert_eq!(output, ('\u{e9}', '\u{20ac}'));
}

#[test]
fn to_slice_gives_the_matched_input() {
    let mut ctx = context("ab12cd");
    assert_eq!(chain((any(), any())).to_slice().parse(&mut ctx).to_result(), Ok("ab"));
    let res = digit().repeat().to_slice().parse(&mut ctx).to_result();
    assert_eq!(res, Ok("12"));
    assert_eq!(ctx.location(), 4);
}

#[test]
fn to_slice_does_not_depend_on_the_output() {
    let mut one = context("12x");
    let mut other = context("12x");
    let plain = digit().repeat().collect::<Vec<char>>().to_slice();
    let mapped = digit().repeat().collect::<Vec<char>>().map(|_| 0u8).to_slice();
    assert_eq!(plain.parse(&mut one).to_result(), Ok("12"));
    assert_eq!(mapped.parse(&mut other).to_result(), Ok("12"));
    assert_eq!(one.location(), other.location());
}

#[test]
fn to_slice_of_an_empty_match_is_empty() {
    let mut ctx = context("ab");
    assert_eq!(any().parse(&mut ctx).to_result(), Ok('a'));
    assert_eq!(nothing().to_slice().parse(&mut ctx).to_result(), Ok(""));
    assert_eq!(ctx.location(), 1);
}

#[test]
fn to_slice_hands_a_failure_on() {
    let mut ctx = context("ab");
    assert_eq!(digit().to_slice().parse(&mut ctx).to_result(), Err(None));
    assert_eq!(ctx.location(), 0);
}

#[test]
fn to_slice_on_arrays() {
    let tokens = [1u8, 2, 3, 9];
    let mut ctx: Context<&[u8], String> = Context::new(&tokens[..]);
    let small = pred(|t: u8| t < 5).repeat().to_slice();
    assert_eq!(small.parse(&mut ctx).to_result(), Ok(&[1u8, 2, 3][..]));
    assert_eq!(ctx.location(), 3);
}
