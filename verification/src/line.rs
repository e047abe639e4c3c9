//! What the written line of a row looks like, character by character: which
//! fields come out between quotes and which come out as they are.

use crate::decimal::{decimal, is_digit, lemma_decimal_digits};
use crate::rows::{is_special, joined_fields, needs_quotes, written_field};
use vstd::prelude::*;
use vstd::utf8::{encode_scalar, encode_utf8, has_width_1_encoding, is_scalar};

verus! {

/// The characters that force a field into quotes: comma, double quote, line
/// feed and carriage return.
pub open spec fn is_special_char(c: char) -> bool {
    c == ',' || c == '"' || c == '\n' || c == '\r'
}

/// The field holds none of the characters that force it into quotes.
pub open spec fn is_plain(field: Seq<char>) -> bool {
    forall|i: int| 0 <= i < field.len() ==> !is_special_char(#[trigger] field[i])
}

/// A scalar below 128 is encoded as the one byte of its own value; every byte
/// of a longer encoding is 128 or more.
proof fn lemma_scalar_bytes(v: u32)
    requires
        is_scalar(v),
    ensures
        has_width_1_encoding(v) ==> encode_scalar(v) == seq![v as u8],
        !has_width_1_encoding(v) ==> forall|j: int|
            0 <= j < encode_scalar(v).len() ==> (#[trigger] encode_scalar(v)[j]) >= 0x80,
{
    if has_width_1_encoding(v) {
        assert((v & 0x7F) as u8 == v as u8) by (bit_vector)
            requires
                v <= 0x7F,
        ;
    } else {
        assert(forall|x: u8| (0x80u8 | x) >= 0x80u8) by (bit_vector);
        assert(forall|x: u8| (0xC0u8 | x) >= 0x80u8) by (bit_vector);
        assert(forall|x: u8| (0xE0u8 | x) >= 0x80u8) by (bit_vector);
        assert(forall|x: u8| (0xF0u8 | x) >= 0x80u8) by (bit_vector);
    }
}

/// The encoding of one character holds a byte that forces quotes exactly
/// when the character is one that does.
proof fn lemma_char_needs_quotes(c: char)
    ensures
        needs_quotes(encode_scalar(c as u32)) <==> is_special_char(c),
{
    let v = c as u32;
    let bytes = encode_scalar(v);
    lemma_scalar_bytes(v);
    if has_width_1_encoding(v) {
        assert(bytes[0] == v as u8);
        if is_special_char(c) {
            assert(is_special(bytes[0]));
        }
    }
}

/// Two runs of bytes one after the other need quotes exactly when one of
/// them does.
proof fn lemma_needs_quotes_concat(a: Seq<u8>, b: Seq<u8>)
    ensures
        needs_quotes(a + b) <==> needs_quotes(a) || needs_quotes(b),
{
    let whole = a + b;
    if needs_quotes(whole) {
        let i = choose|i: int| 0 <= i < whole.len() && is_special(#[trigger] whole[i]);
        if i < a.len() {
            assert(is_special(a[i]));
        } else {
            assert(is_special(b[i - a.len()]));
        }
    }
    if needs_quotes(a) {
        let i = choose|i: int| 0 <= i < a.len() && is_special(#[trigger] a[i]);
        assert(is_special(whole[i]));
    }
    if needs_quotes(b) {
        let i = choose|i: int| 0 <= i < b.len() && is_special(#[trigger] b[i]);
        assert(is_special(whole[i + a.len()]));
    }
}

/// A field is written between quotes exactly when it holds a comma, a double
/// quote, a line feed or a carriage return.
pub proof fn lemma_quoted_iff_special(field: Seq<char>)
    ensures
        needs_quotes(encode_utf8(field)) <==> !is_plain(field),
    decreases field.len(),
{
    if field.len() > 0 {
        let rest = field.drop_first();
        lemma_quoted_iff_special(rest);
        lemma_char_needs_quotes(field[0]);
        lemma_needs_quotes_concat(encode_scalar(field[0] as u32), encode_utf8(rest));
        if !is_plain(rest) {
            let i = choose|i: int| 0 <= i < rest.len() && is_special_char(#[trigger] rest[i]);
            assert(is_special_char(field[i + 1]));
        }
        if !is_plain(field) {
            let i = choose|i: int| 0 <= i < field.len() && is_special_char(#[trigger] field[i]);
            if i > 0 {
                assert(is_special_char(rest[i - 1]));
            }
        }
    }
}

/// A field without any such character is written as its UTF-8 bytes and
/// nothing else.
pub proof fn lemma_plain_field_written(field: Seq<char>)
    requires
        is_plain(field),
    ensures
        written_field(encode_utf8(field)) == encode_utf8(field),
{
    lemma_quoted_iff_special(field);
}

/// A number in decimal is written as it is.
pub proof fn lemma_decimal_written(n: nat)
    ensures
        is_plain(decimal(n)),
        written_field(encode_utf8(decimal(n))) == encode_utf8(decimal(n)),
{
    lemma_decimal_digits(n);
    let text = decimal(n);
    assert forall|i: int| 0 <= i < text.len() implies !is_special_char(#[trigger] text[i]) by {
        assert(is_digit(text[i]));
    }
    lemma_quoted_iff_special(text);
}

/// Five fields are written in their order, with a comma between each two.
pub proof fn lemma_joined_five(a: Seq<u8>, b: Seq<u8>, c: Seq<u8>, d: Seq<u8>, e: Seq<u8>)
    ensures
        joined_fields(seq![a, b, c, d, e]) == written_field(a) + seq![0x2Cu8] + written_field(b)
            + seq![0x2Cu8] + written_field(c) + seq![0x2Cu8] + written_field(d) + seq![0x2Cu8]
            + written_field(e),
{
    let five = seq![a, b, c, d, e];
    let four = seq![a, b, c, d];
    let three = seq![a, b, c];
    let two = seq![a, b];
    let one = seq![a];
    assert(five.drop_last() =~= four);
    assert(four.drop_last() =~= three);
    assert(three.drop_last() =~= two);
    assert(two.drop_last() =~= one);
    assert(joined_fields(one) == written_field(a));
    assert(joined_fields(two) == joined_fields(one) + seq![0x2Cu8] + written_field(b));
    assert(joined_fields(three) == joined_fields(two) + seq![0x2Cu8] + written_field(c));
    assert(joined_fields(four) == joined_fields(three) + seq![0x2Cu8] + written_field(d));
    assert(joined_fields(five) == joined_fields(four) + seq![0x2Cu8] + written_field(e));
}

} // verus!
