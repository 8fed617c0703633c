use papa::context::Context;
use papa::parser::{ParseResult, Parser};
use papa::primitive::{any, func, just, nothing, pred, TokenEq};

fn context(input: &str) -> Context<&str, String> {
    Context::new(input)
}

#[test]
fn any_takes_one_element() {
    let mut ctx = context("ab");
    let res = any().parse(&mut ctx).to_result();
    assert_eq!(res, Ok('a'));
    assert_eq!(ctx.location(), 1);
}

#[test]
fn any_fails_silently_at_the_end_without_moving() {
    let mut ctx = context("a");
    assert_eq!(any().parse(&mut ctx).to_result(), Ok('a'));
    let res = any().parse(&mut ctx).to_result();
    assert_eq!(res, Err(None));
    assert_eq!(ctx.location(), 1);
    assert!(ctx.errors().is_empty());
}

#[test]
fn any_counts_the_bytes_of_a_character() {
    let mut ctx = context("\u{e9}x");
    assert_eq!(any().parse(&mut ctx).to_result(), Ok('\u{e9}'));
    assert_eq!(ctx.location(), 2);
    assert_eq!(any().parse(&mut ctx).to_result(), Ok('x'));
    assert_eq!(ctx.location(), 3);
}

#[test]
fn pred_takes_an_element_that_passes() {
    let mut ctx = context("7x");
    let res = pred(|c: char| c.is_ascii_digit()).parse(&mut ctx).to_result();
    assert_eq!(res, Ok('7'));
    assert_eq!(ctx.location(), 1);
}

#[test]
fn pred_rewinds_when_the_element_does_not_pass() {
    let mut ctx = context("x7");
    let res = pred(|c: char| c.is_ascii_digit()).parse(&mut ctx).to_result();
    assert_eq!(res, Err(None));
    assert_eq!(ctx.location(), 0);
}

#[test]
fn pred_fails_silently_at_the_end() {
    let mut ctx = context("");
    let res = pred(|_: char| true).parse(&mut ctx).to_result();
    assert_eq!(res, Err(None));
    assert_eq!(ctx.location(), 0);
}

#[test]
fn just_takes_the_element_it_was_given() {
    let mut ctx = context("ab");
    assert_eq!(just('a').parse(&mut ctx).to_result(), Ok('a'));
    assert_eq!(ctx.location(), 1);
}

#[test]
fn just_rewinds_on_another_element() {
    let mut ctx = context("ab");
    assert_eq!(just('b').parse(&mut ctx).to_result(), Err(None));
    assert_eq!(ctx.location(), 0);
}

#[test]
fn just_fails_silently_at_the_end() {
    let mut ctx = context("");
    assert_eq!(just('b').parse(&mut ctx).to_result(), Err(None));
    assert_eq!(ctx.location(), 0);
}

#[test]
fn just_works_on_arrays() {
    let tokens = [1u8, 2, 3];
    let mut ctx: Context<&[u8], String> = Context::new(&tokens[..]);
    assert_eq!(just(1u8).parse(&mut ctx).to_result(), Ok(1));
    assert_eq!(just(3u8).parse(&mut ctx).to_result(), Err(None));
    assert_eq!(ctx.location(), 1);
    assert_eq!(just(2u8).parse(&mut ctx).to_result(), Ok(2));
    assert_eq!(ctx.location(), 2);
}

#[test]
fn nothing_succeeds_and_consumes_nothing() {
    let mut ctx = context("ab");
    assert_eq!(nothing().parse(&mut ctx).to_result(), Ok(()));
    assert_eq!(ctx.location(), 0);
    let mut empty = context("");
    assert_eq!(nothing().parse(&mut empty).to_result(), Ok(()));
    assert_eq!(empty.location(), 0);
}

#[test]
fn func_runs_the_function_on_the_context() {
    let two = func(|mut ctx: Context<&str, String>| {
        let first = ctx.next();
        let second = ctx.next();
        match (first, second) {
            (Some(a), Some(b)) => (ParseResult::ok((a, b)), ctx),
            _ => {
                ctx.set_location(0);
                ctx.report("too short".to_string());
                (ParseResult::err(None), ctx)
            }
        }
    });
    let mut ctx = context("abc");
    assert_eq!(two.parse(&mut ctx).to_result(), Ok(('a', 'b')));
    assert_eq!(ctx.location(), 2);

    let mut short = context("a");
    assert_eq!(two.parse(&mut short).to_result(), Err(None));
    assert_eq!(short.location(), 0);
    assert_eq!(short.errors(), &["too short".to_string()]);
}

#[test]
fn parse_input_gives_the_output_of_a_success() {
    let (output, errors) = Parser::<&str, char, String>::parse_input(&any(), "a");
    assert_eq!(output, Some('a'));
    assert_eq!(errors, Vec::<String>::new());
}

#[test]
fn parse_input_gives_nothing_on_a_silent_failure() {
    let (output, errors) = Parser::<&str, char, String>::parse_input(&any(), "");
    assert_eq!(output, None);
    assert_eq!(errors, Vec::<String>::new());
}

#[test]
fn parse_input_puts_the_final_diagnostic_last() {
    let failing = func(|mut ctx: Context<&str, String>| {
        ctx.report("first".to_string());
        ctx.report("second".to_string());
        (ParseResult::<char, String>::err(Some("fatal".to_string())), ctx)
    });
    let (output, errors) = failing.parse_input("abc");
    assert_eq!(output, None);
    assert_eq!(errors, vec!["first".to_string(), "second".to_string(), "fatal".to_string()]);
}

#[test]
fn parse_input_keeps_the_reports_of_a_success() {
    let reporting = func(|mut ctx: Context<&str, String>| {
        ctx.report("skipped something".to_string());
        (ParseResult::ok(1u8), ctx)
    });
    let (output, errors) = reporting.parse_input("abc");
    assert_eq!(output, Some(1));
    assert_eq!(errors, vec!["skipped something".to_string()]);
}

#[test]
fn result_constructors_and_tests() {
    let ok: ParseResult<u8, String> = ParseResult::ok(3);
    assert!(ok.is_ok());
    assert!(!ok.is_err());
    assert_eq!(ok.to_result(), Ok(3));

    let silent: ParseResult<u8, String> = ParseResult::err(None);
    assert!(silent.is_err());
    assert!(!silent.is_ok());
    assert_eq!(silent.to_result(), Err(None));

    let loud: ParseResult<u8, String> = ParseResult::err(Some("bad".to_string()));
    assert!(loud.is_err());
    assert_eq!(loud.to_result(), Err(Some("bad".to_string())));
}

#[test]
fn result_map_applies_to_a_success_only() {
    let ok: ParseResult<u8, String> = ParseResult::ok(3);
    assert_eq!(ok.map(|n| n as u32 * 2).to_result(), Ok(6u32));
    let silent: ParseResult<u8, String> = ParseResult::err(None);
    assert_eq!(silent.map(|n| n as u32 * 2).to_result(), Err(None));
    let loud: ParseResult<u8, String> = ParseResult::err(Some("bad".to_string()));
    assert_eq!(loud.map(|n| n as u32 * 2).to_result(), Err(Some("bad".to_string())));
}

#[test]
fn result_from_unit_is_the_default_output() {
    let res: ParseResult<u8, String> = ParseResult::from(());
    assert_eq!(res.to_result(), Ok(0));
    let unit: ParseResult<(), String> = ().into();
    assert_eq!(unit.to_result(), Ok(()));
}

#[test]
fn result_from_option() {
    let some: ParseResult<u8, String> = ParseResult::from(Some(4));
    assert_eq!(some.to_result(), Ok(4));
    let none: ParseResult<u8, String> = ParseResult::from(None);
    assert_eq!(none.to_result(), Err(None));
}

#[test]
fn result_from_result() {
    let ok: ParseResult<u8, String> = ParseResult::from(Ok(4));
    assert_eq!(ok.to_result(), Ok(4));
    let err: ParseResult<u8, String> = ParseResult::from(Err("bad".to_string()));
    assert_eq!(err.to_result(), Err(Some("bad".to_string())));
}

#[test]
fn tokens_are_told_apart_by_value() {
    assert!('a'.same('a'));
    assert!(!'a'.same('b'));
    assert!(true.same(true));
    assert!(!true.same(false));
    assert!(7u8.same(7));
    assert!(!7u16.same(8));
    assert!(7u32.same(7));
    assert!(!u64::MAX.same(0));
    assert!(u128::MAX.same(u128::MAX));
    assert!(!0usize.same(1));
    assert!((-1i8).same(-1));
    assert!(!(-1i16).same(1));
    assert!(i32::MIN.same(i32::MIN));
    assert!(!i64::MIN.same(i64::MAX));
    assert!(0i128.same(0));
    assert!(!0isize.same(-1));
}
