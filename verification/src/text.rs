//! Text as an input: the elements are the characters, and the offsets count
//! the bytes of their UTF-8 encoding.

use crate::slice::{
    extent, index_at, is_cut, lemma_index_at_offset, lemma_offset_increases, offset_at, Slice,
    Tokens,
};
use vstd::prelude::*;
use vstd::string::{StrSliceExecFns, StringSliceAdditionalSpecFns};
use vstd::utf8::{
    decode_utf8, decode_utf8_encode_utf8, decode_utf8_split, encode_scalar, encode_utf8,
    encode_utf8_decode_utf8, encode_utf8_first_scalar, encode_utf8_valid_utf8, is_char_boundary,
    length_of_first_scalar, pop_first_scalar, valid_utf8, valid_utf8_concat, valid_utf8_split,
};

verus! {

/// The number of bytes that the encoding of `c` has.
pub open spec fn utf8_width(c: char) -> nat {
    encode_scalar(c as u32).len()
}

/// The encoding of two runs of characters put together is the encoding of
/// the first followed by that of the second.
pub proof fn lemma_encode_concat(a: Seq<char>, b: Seq<char>)
    ensures
        encode_utf8(a + b) == encode_utf8(a) + encode_utf8(b),
    decreases a.len(),
{
    if a.len() == 0 {
        assert(a + b =~= b);
        assert(encode_utf8(a) + encode_utf8(b) =~= encode_utf8(b));
    } else {
        assert((a + b).drop_first() =~= a.drop_first() + b);
        lemma_encode_concat(a.drop_first(), b);
        assert(encode_utf8(a + b) =~= encode_utf8(a) + encode_utf8(b));
    }
}

/// The extent of a run of characters is the length of its encoding.
pub proof fn lemma_text_extent<'a>(chars: Seq<char>)
    ensures
        extent::<&'a str>(chars) == encode_utf8(chars).len(),
    decreases chars.len(),
{
    if chars.len() > 0 {
        let last = seq![chars.last()];
        lemma_text_extent(chars.drop_last());
        assert(chars =~= chars.drop_last() + last);
        lemma_encode_concat(chars.drop_last(), last);
        assert(last.drop_first() =~= Seq::<char>::empty());
        assert(encode_utf8(last) =~= encode_scalar(chars.last() as u32)) by {
            reveal_with_fuel(encode_utf8, 2);
        }
    }
}

/// Where two valid encodings are put together, the seam is a character
/// boundary.
pub proof fn lemma_seam_is_boundary(a: Seq<u8>, b: Seq<u8>)
    requires
        valid_utf8(a),
        valid_utf8(b),
    ensures
        valid_utf8(a + b),
        is_char_boundary(a + b, a.len() as int),
    decreases a.len(),
{
    valid_utf8_concat(a, b);
    if a.len() > 0 {
        let whole = a + b;
        assert(whole[0] == a[0]);
        assert(length_of_first_scalar(whole) == length_of_first_scalar(a));
        assert(pop_first_scalar(whole) =~= pop_first_scalar(a) + b);
        lemma_seam_is_boundary(pop_first_scalar(a), b);
    }
}

/// In text, an offset falls between two characters exactly when it is a
/// character boundary of the encoding.
pub proof fn lemma_text_cut<'a>(chars: Seq<char>, offset: int)
    ensures
        is_cut::<&'a str>(chars, offset) <==> 0 <= offset <= encode_utf8(chars).len()
            && is_char_boundary(encode_utf8(chars), offset),
{
    let bytes = encode_utf8(chars);
    encode_utf8_valid_utf8(chars);
    if is_cut::<&'a str>(chars, offset) {
        let k = index_at::<&'a str>(chars, offset);
        lemma_text_extent(chars.take(k));
        assert(chars =~= chars.take(k) + chars.skip(k));
        lemma_encode_concat(chars.take(k), chars.skip(k));
        encode_utf8_valid_utf8(chars.take(k));
        encode_utf8_valid_utf8(chars.skip(k));
        lemma_seam_is_boundary(encode_utf8(chars.take(k)), encode_utf8(chars.skip(k)));
    }
    if 0 <= offset <= bytes.len() && is_char_boundary(bytes, offset) {
        let head = bytes.subrange(0, offset);
        let tail = bytes.subrange(offset, bytes.len() as int);
        valid_utf8_split(bytes, offset);
        decode_utf8_split(bytes, offset);
        encode_utf8_decode_utf8(chars);
        let k = decode_utf8(head).len() as int;
        assert(chars =~= decode_utf8(head) + decode_utf8(tail));
        assert(chars.take(k) =~= decode_utf8(head));
        decode_utf8_encode_utf8(head);
        lemma_text_extent(chars.take(k));
        assert(offset_at::<&'a str>(chars, k) == offset);
    }
}

/// The bytes between two cuts are the encoding of the characters between
/// them.
pub proof fn lemma_text_between<'a>(chars: Seq<char>, i: int, j: int)
    requires
        0 <= i <= j <= chars.len(),
    ensures
        offset_at::<&'a str>(chars, i) <= offset_at::<&'a str>(chars, j) <= encode_utf8(
            chars,
        ).len(),
        encode_utf8(chars).subrange(
            offset_at::<&'a str>(chars, i) as int,
            offset_at::<&'a str>(chars, j) as int,
        ) == encode_utf8(chars.subrange(i, j)),
        encode_utf8(chars).subrange(0, offset_at::<&'a str>(chars, j) as int) == encode_utf8(
            chars.take(j),
        ),
{
    let head = chars.take(i);
    let middle = chars.subrange(i, j);
    let tail = chars.skip(j);
    lemma_text_extent(head);
    lemma_text_extent(chars.take(j));
    assert(chars.take(j) =~= head + middle);
    assert(chars =~= chars.take(j) + tail);
    lemma_encode_concat(head, middle);
    lemma_encode_concat(chars.take(j), tail);
    assert(encode_utf8(chars).subrange(
        offset_at::<&'a str>(chars, i) as int,
        offset_at::<&'a str>(chars, j) as int,
    ) =~= encode_utf8(middle));
    assert(encode_utf8(chars).subrange(0, offset_at::<&'a str>(chars, j) as int) =~= encode_utf8(
        chars.take(j),
    ));
}

/// Two runs of characters with the same encoding are the same run.
pub proof fn lemma_encode_injective(a: Seq<char>, b: Seq<char>)
    requires
        encode_utf8(a) == encode_utf8(b),
    ensures
        a == b,
{
    encode_utf8_decode_utf8(a);
    encode_utf8_decode_utf8(b);
}

/// The number of bytes that the encoding of `c` has.
pub fn width_of(c: char) -> (width: usize)
    ensures
        width == utf8_width(c),
        1 <= width <= 4,
{
    let code = c as u32;
    if code < 0x80 {
        1
    } else if code < 0x800 {
        2
    } else if code < 0x10000 {
        3
    } else {
        4
    }
}

impl<'a> Tokens for &'a str {
    type Token = char;

    open spec fn tokens(&self) -> Seq<char> {
        self@
    }

    open spec fn width(token: char) -> nat {
        utf8_width(token)
    }

    proof fn lemma_width_positive(token: char) {
    }
}

impl<'a> Slice for &'a str {
    fn next(&self) -> (r: Option<(char, Self)>) {
        let text: &'a str = *self;
        if text.is_empty() {
            None
        } else {
            let first = text.get_char(0);
            let width = width_of(first);
            proof {
                let chars = text@;
                let bytes = encode_utf8(chars);
                encode_utf8_valid_utf8(chars);
                encode_utf8_first_scalar(chars);
                assert(is_char_boundary(bytes, width as int)) by {
                    reveal_with_fuel(is_char_boundary, 2);
                }
            }
            let (_, rest) = text.split_at(width);
            proof {
                let chars = text@;
                assert(encode_utf8(chars.drop_first()) =~= encode_utf8(chars).subrange(
                    width as int,
                    encode_utf8(chars).len() as int,
                ));
                lemma_encode_injective(rest@, chars.drop_first());
            }
            Some((first, rest))
        }
    }

    fn slice(&self, start: usize, end: usize) -> (r: Option<Self>) {
        let text: &'a str = *self;
        proof {
            lemma_text_cut(text@, start as int);
            lemma_text_cut(text@, end as int);
        }
        if start <= end && end <= text.as_bytes().len() && text.is_char_boundary(start)
            && text.is_char_boundary(end) {
            let (head, _) = text.split_at(end);
            proof {
                let chars = text@;
                let i = index_at::<&'a str>(chars, start as int);
                let j = index_at::<&'a str>(chars, end as int);
                if j < i {
                    lemma_offset_increases::<&'a str>(chars, j, i);
                    lemma_index_at_offset::<&'a str>(chars, i);
                }
                lemma_text_between(chars, i, j);
                lemma_encode_injective(head@, chars.take(j));
                lemma_text_between(chars.take(j), i, j);
                assert(chars.take(j).take(i) =~= chars.take(i));
                assert(chars.take(j).take(j) =~= chars.take(j));
                assert(chars.take(j).subrange(i, j) =~= chars.subrange(i, j));
                lemma_text_cut(chars.take(j), start as int);
            }
            let (_, matched) = head.split_at(start);
            proof {
                let chars = text@;
                let i = index_at::<&'a str>(chars, start as int);
                let j = index_at::<&'a str>(chars, end as int);
                lemma_encode_injective(matched@, chars.subrange(i, j));
            }
            Some(matched)
        } else {
            None
        }
    }

    fn len(&self) -> (len: usize) {
        let text: &'a str = *self;
        proof {
            lemma_text_extent(text@);
        }
        text.as_bytes().len()
    }

    fn is_empty(&self) -> (empty: bool) {
        let text: &'a str = *self;
        text.is_empty()
    }
}

} // verus!
