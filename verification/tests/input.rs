use papa::context::Context;
use papa::slice::Slice;
use papa::span::{Location, Span};
use papa::text::width_of;
use papa::utils::{is_ident, is_ident_start, is_space};

#[test]
fn array_next_gives_first_and_rest() {
    let tokens = [10u8, 20, 30];
    let slice: &[u8] = &tokens;
    let (first, rest) = Slice::next(&slice).unwrap();
    assert_eq!(first, 10);
    assert_eq!(rest, &[20u8, 30][..]);
    let empty: &[u8] = &[];
    assert!(Slice::next(&empty).is_none());
}

#[test]
fn array_slice_by_offsets() {
    let tokens = [10u8, 20, 30, 40];
    let slice: &[u8] = &tokens;
    assert_eq!(Slice::slice(&slice, 1, 3), Some(&[20u8, 30][..]));
    assert_eq!(Slice::slice(&slice, 0, 4), Some(&tokens[..]));
    assert_eq!(Slice::slice(&slice, 2, 2), Some(&[][..]));
    assert_eq!(Slice::slice(&slice, 3, 5), None);
    assert_eq!(Slice::slice(&slice, 3, 2), None);
    assert_eq!(Slice::len(&slice), 4);
    assert!(!Slice::is_empty(&slice));
    let empty: &[u8] = &[];
    assert!(Slice::is_empty(&empty));
}

#[test]
fn text_next_decodes_one_character() {
    let text = "\u{20ac}uro";
    let (first, rest) = Slice::next(&text).unwrap();
    assert_eq!(first, '\u{20ac}');
    assert_eq!(rest, "uro");
    assert!(Slice::next(&"").is_none());
}

#[test]
fn text_offsets_are_bytes() {
    let text = "a\u{e9}\u{20ac}\u{1f600}z";
    assert_eq!(Slice::len(&text), 1 + 2 + 3 + 4 + 1);
    assert_eq!(Slice::slice(&text, 1, 3), Some("\u{e9}"));
    assert_eq!(Slice::slice(&text, 3, 6), Some("\u{20ac}"));
    assert_eq!(Slice::slice(&text, 6, 10), Some("\u{1f600}"));
    assert_eq!(Slice::slice(&text, 0, 11), Some(text));
    assert_eq!(Slice::slice(&text, 11, 11), Some(""));
}

#[test]
fn text_slice_refuses_offsets_inside_a_character() {
    let text = "a\u{e9}z";
    assert_eq!(Slice::slice(&text, 0, 2), None);
    assert_eq!(Slice::slice(&text, 2, 4), None);
    assert_eq!(Slice::slice(&text, 0, 5), None);
    assert_eq!(Slice::slice(&text, 3, 1), None);
    assert!(!Slice::is_empty(&text));
    assert!(Slice::is_empty(&""));
}

#[test]
fn width_of_each_encoding_length() {
    assert_eq!(width_of('a'), 1);
    assert_eq!(width_of('\u{7f}'), 1);
    assert_eq!(width_of('\u{80}'), 2);
    assert_eq!(width_of('\u{7ff}'), 2);
    assert_eq!(width_of('\u{800}'), 3);
    assert_eq!(width_of('\u{ffff}'), 3);
    assert_eq!(width_of('\u{10000}'), 4);
    assert_eq!(width_of('\u{10ffff}'), 4);
    for c in ['a', '\u{e9}', '\u{20ac}', '\u{1f600}'] {
        assert_eq!(width_of(c), c.len_utf8());
    }
}

#[test]
fn context_starts_at_the_beginning() {
    let ctx: Context<&str, String> = Context::new("abc");
    assert_eq!(ctx.location(), 0);
    assert_eq!(ctx.slice(), "abc");
    assert!(ctx.errors().is_empty());
}

#[test]
fn context_next_moves_and_stops_at_the_end() {
    let mut ctx: Context<&str, String> = Context::new("a\u{e9}");
    assert_eq!(ctx.next(), Some('a'));
    assert_eq!(ctx.location(), 1);
    assert_eq!(ctx.next(), Some('\u{e9}'));
    assert_eq!(ctx.location(), 3);
    assert_eq!(ctx.next(), None);
    assert_eq!(ctx.location(), 3);
    assert_eq!(ctx.slice(), "a\u{e9}");
}

#[test]
fn context_rewinds_to_an_earlier_location() {
    let mut ctx: Context<&str, String> = Context::new("abc");
    ctx.next();
    let mark = ctx.location();
    ctx.next();
    ctx.next();
    assert_eq!(ctx.location(), 3);
    ctx.set_location(mark);
    assert_eq!(ctx.location(), 1);
    assert_eq!(ctx.next(), Some('b'));
    ctx.set_location(3);
    assert_eq!(ctx.next(), None);
    ctx.set_location(0);
    assert_eq!(ctx.next(), Some('a'));
}

#[test]
fn context_keeps_diagnostics_in_order_across_a_rewind() {
    let mut ctx: Context<&str, u8> = Context::new("abc");
    ctx.next();
    ctx.report(1);
    ctx.next();
    ctx.report(2);
    ctx.set_location(0);
    ctx.report(3);
    assert_eq!(ctx.errors(), &[1, 2, 3]);
    assert_eq!(ctx.location(), 0);
    assert_eq!(ctx.into_errors(), vec![1, 2, 3]);
}

#[test]
fn span_keeps_start_and_end() {
    let span = Span::new(2usize, 5usize);
    assert_eq!(span.start(), 2);
    assert_eq!(span.end(), 5);
    assert_eq!(span.len(), 3);
    assert!(!span.is_empty());
    assert_eq!(span.to_range(), 2..5);
}

#[test]
fn span_raises_an_end_before_the_start() {
    let span = Span::new(5usize, 2usize);
    assert_eq!(span.start(), 5);
    assert_eq!(span.end(), 5);
    assert_eq!(span.len(), 0);
    assert!(span.is_empty());
    assert_eq!(span.to_range(), 5..5);
}

#[test]
fn span_of_equal_locations_is_empty() {
    let span = Span::new(7u8, 7u8);
    assert!(span.is_empty());
    assert_eq!(span.len(), 0);
}

#[test]
fn locations_of_every_width() {
    assert_eq!(Location::abs_diff(3usize, 10usize), 7);
    assert_eq!(Location::abs_diff(10usize, 3usize), 7);
    assert_eq!(Location::abs_diff(0u128, u128::MAX), u128::MAX);
    assert_eq!(Location::abs_diff(u64::MAX, 1u64), u64::MAX - 1);
    assert_eq!(Location::abs_diff(5u32, 5u32), 0);
    assert_eq!(Location::abs_diff(9u16, 2u16), 7);
    assert_eq!(Location::abs_diff(0u8, 255u8), 255);
    assert!(Location::is_before(1u8, 2u8));
    assert!(!Location::is_before(2u8, 2u8));
    assert!(!Location::is_before(3u64, 2u64));
    assert!(Location::is_before(0u128, 1u128));
    assert!(Location::is_before(0u16, 1u16));
    assert!(Location::is_before(0u32, 1u32));
    assert!(!Location::is_before(1usize, 0usize));
}

#[test]
fn character_classes() {
    for c in ['a', 'z', 'A', 'Z', '_'] {
        assert!(is_ident_start(c));
        assert!(is_ident(c));
    }
    for c in ['0', '9'] {
        assert!(!is_ident_start(c));
        assert!(is_ident(c));
    }
    for c in [' ', '-', '\u{e9}', '@', '[', '`', '{', '/', ':'] {
        assert!(!is_ident_start(c));
        assert!(!is_ident(c));
    }
    for c in [' ', '\t', '\n', '\r', '\x0C'] {
        assert!(is_space(c));
        assert_eq!(is_space(c), c.is_ascii_whitespace());
    }
    for c in ['a', '\x0B', '\u{a0}', '0'] {
        assert!(!is_space(c));
        assert_eq!(is_space(c), c.is_ascii_whitespace());
    }
    for code in 0u32..128 {
        let c = char::from_u32(code).unwrap();
        assert_eq!(is_ident_start(c), c.is_ascii_alphabetic() || c == '_');
        assert_eq!(is_ident(c), c.is_ascii_alphanumeric() || c == '_');
        assert_eq!(is_space(c), c.is_ascii_whitespace());
    }
}

#[test]
fn span_can_be_printed() {
    let span = Span::new(2usize, 5usize);
    let text = format!("{:?}", span);
    assert!(text.contains('2'));
    assert!(text.contains('5'));
}
