use papa::combinator::chain::chain;
use papa::combinator::choice::choice;
use papa::parser::{Parser, ParserExt};
use papa::primitive::just;
use papa::recursive::{recursive, share, Recursive};
use std::rc::Rc;

/// Nested brackets around an `x`; the output is the depth of the nesting.
fn nested<'a>() -> Rc<Recursive<'a, &'a str, usize, String>> {
    recursive(|inner| {
        choice((
            chain((just('('), inner, just(')'))).map(|(_, depth, _)| depth + 1),
            just('x').map(|_| 0usize),
        ))
    })
}

#[test]
fn recursive_parser_calls_itself() {
    let parser = nested();
    assert_eq!(parser.parse_input("x"), (Some(0), vec![]));
    assert_eq!(parser.parse_input("(x)"), (Some(1), vec![]));
    assert_eq!(parser.parse_input("(((x)))"), (Some(3), vec![]));
}

#[test]
fn recursive_parser_fails_where_its_body_fails() {
    let parser = nested();
    assert_eq!(parser.parse_input(""), (None, vec![]));
    assert_eq!(parser.parse_input("((x)"), (None, vec![]));
    assert_eq!(parser.parse_input("()"), (None, vec![]));
}

#[test]
fn recursive_handle_gives_what_its_body_gives() {
    let handle = nested();
    let body = choice((
        chain((just('('), handle.clone(), just(')'))).map(|(_, depth, _)| depth + 1),
        just('x').map(|_| 0usize),
    ));
    for input in ["x", "(x)", "((x))", "", "(", "(x", "((x)", "y", "(x))"] {
        assert_eq!(handle.parse_input(input), body.parse_input(input));
    }
}

#[test]
fn recursive_handle_can_be_shared() {
    let handle = nested();
    let copy = handle.clone();
    let twice = chain((handle, copy));
    assert_eq!(twice.parse_input("(x)((x))"), (Some((1, 2)), vec![]));
    assert_eq!(twice.parse_input("(x)"), (None, vec![]));
}

#[test]
fn share_hands_out_what_was_taken() {
    let (kept, shared) = share(Some(Rc::new(5u8)));
    let kept = kept.unwrap();
    let shared = shared.unwrap();
    assert_eq!(*kept, 5);
    assert_eq!(*shared, 5);
    assert!(Rc::ptr_eq(&kept, &shared));
    let (kept, shared) = share::<u8>(None);
    assert!(kept.is_none());
    assert!(shared.is_none());
}
