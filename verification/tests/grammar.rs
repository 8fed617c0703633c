use papa::combinator::chain::chain;
use papa::parser::{Parser, ParserExt};
use papa::utils::{ident, space};

fn run_tests<'a, Out: std::fmt::Debug + Eq>(
    parser: impl Parser<&'a str, Out, String>,
    cases: &[(&'a str, Option<Out>, Vec<String>)],
) {
    for (input, output, errors) in cases {
        println!("testing input: {input:?}");
        let (output_actual, errors_actual) = parser.parse_input(input);
        assert_eq!(output, &output_actual);
        assert_eq!(errors, &errors_actual);
    }
}

#[test]
fn test_ident() {
    run_tests(
        ident(),
        &[
            ("", None, vec![]),
            ("hello", Some("hello"), vec![]),
            ("hello world", Some("hello"), vec![]),
        ],
    );
}

#[test]
fn test_ident_whitespace() {
    run_tests(
        chain((ident(), space()))
            .map(|(ident, _)| ident)
            .repeat()
            .min(1)
            .collect(),
        &[
            ("", None, vec![]),
            ("hello", Some(vec!["hello"]), vec![]),
            ("hello \t world", Some(vec!["hello", "world"]), vec![]),
        ],
    );
}
