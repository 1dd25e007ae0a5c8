//! Percent-encoding of text for URLs, stated byte by byte over the UTF-8
//! encoding of the input.
//!
//! Two variants are offered: the query-component encoding used for stream
//! paths (controls, non-ASCII bytes, space, `"`, `#`, `<` and `>` become
//! `%XX` triples) and the `application/x-www-form-urlencoded` encoding used
//! for request bodies (alphanumerics and `*-._` unchanged, space becomes
//! `+`, everything else becomes a `%XX` triple).

use vstd::prelude::*;
use vstd::string::StrSliceExecFns;
use vstd::utf8::{
    encode_utf8, is_ascii_chars, is_ascii_chars_encode_utf8, encode_utf8_valid_utf8,
    encode_utf8_decode_utf8,
};
use crate::text::string_from_utf8;

verus! {

/// The ASCII bytes read as characters, one for one.
pub open spec fn bytes_as_chars(bs: Seq<u8>) -> Seq<char> {
    Seq::new(bs.len(), |i: int| bs[i] as char)
}

/// The ASCII code of the upper-case hexadecimal digit for a value below 16.
pub open spec fn spec_hex_upper(n: u8) -> u8
    recommends
        n < 16,
{
    if n < 10 {
        (0x30 + n) as u8
    } else {
        (0x37 + n) as u8
    }
}

/// The `%XX` escape of a byte, as ASCII bytes.
pub open spec fn spec_percent_triple(b: u8) -> Seq<u8> {
    seq![0x25u8, spec_hex_upper(b / 16), spec_hex_upper(b % 16)]
}

/// Whether the query-component encoding escapes a byte: controls, space,
/// `"`, `#`, `<`, `>` and everything outside printable ASCII.
pub open spec fn query_escaped(b: u8) -> bool {
    b < 0x21 || b > 0x7e || b == 0x22 || b == 0x23 || b == 0x3c || b == 0x3e
}

/// Whether the form encoding passes a byte through unchanged: ASCII
/// alphanumerics and `*`, `-`, `.`, `_`.
pub open spec fn form_unchanged(b: u8) -> bool {
    b == 0x2a || b == 0x2d || b == 0x2e || (0x30 <= b && b <= 0x39) || (0x41 <= b && b <= 0x5a)
        || b == 0x5f || (0x61 <= b && b <= 0x7a)
}

/// The query encoding of one byte.
pub open spec fn spec_query_byte(b: u8) -> Seq<u8> {
    if query_escaped(b) {
        spec_percent_triple(b)
    } else {
        seq![b]
    }
}

/// The form encoding of one byte.
pub open spec fn spec_form_byte(b: u8) -> Seq<u8> {
    if b == 0x20 {
        seq![0x2bu8]
    } else if form_unchanged(b) {
        seq![b]
    } else {
        spec_percent_triple(b)
    }
}

/// The encoding of one byte under the chosen variant.
pub open spec fn spec_encoded_byte(b: u8, form: bool) -> Seq<u8> {
    if form {
        spec_form_byte(b)
    } else {
        spec_query_byte(b)
    }
}

/// The encoding of a whole byte sequence under the chosen variant.
pub open spec fn spec_encoded_bytes(bs: Seq<u8>, form: bool) -> Seq<u8>
    decreases bs.len(),
{
    if bs.len() == 0 {
        Seq::<u8>::empty()
    } else {
        spec_encoded_byte(bs[0], form) + spec_encoded_bytes(bs.drop_first(), form)
    }
}

/// The query-component percent-encoding of a text value.
pub open spec fn spec_query_encoded(s: Seq<char>) -> Seq<char> {
    bytes_as_chars(spec_encoded_bytes(encode_utf8(s), false))
}

/// The form encoding of a text value.
pub open spec fn spec_form_encoded(s: Seq<char>) -> Seq<char> {
    bytes_as_chars(spec_encoded_bytes(encode_utf8(s), true))
}

/// Encoding one more byte extends the encoded sequence at the end.
proof fn lemma_encoded_bytes_take_step(bs: Seq<u8>, form: bool, i: int)
    requires
        0 <= i < bs.len(),
    ensures
        spec_encoded_bytes(bs.take(i + 1), form) == spec_encoded_bytes(bs.take(i), form)
            + spec_encoded_byte(bs[i], form),
    decreases i,
{
    if i == 0 {
        assert(bs.take(1).drop_first() =~= Seq::<u8>::empty());
        assert(bs.take(0) =~= Seq::<u8>::empty());
        assert(bs.take(1).len() == 1 && bs.take(1)[0] == bs[0]);
        assert(spec_encoded_bytes(Seq::<u8>::empty(), form) =~= Seq::<u8>::empty());
        assert(spec_encoded_bytes(bs.take(1), form) == spec_encoded_byte(bs[0], form)
            + spec_encoded_bytes(Seq::<u8>::empty(), form));
        assert(spec_encoded_byte(bs[0], form) + Seq::<u8>::empty() =~= spec_encoded_byte(
            bs[0],
            form,
        ));
        assert(Seq::<u8>::empty() + spec_encoded_byte(bs[0], form) =~= spec_encoded_byte(
            bs[0],
            form,
        ));
    } else {
        let t = bs.drop_first();
        lemma_encoded_bytes_take_step(t, form, i - 1);
        assert(bs.take(i + 1).drop_first() =~= t.take(i));
        assert(bs.take(i).drop_first() =~= t.take(i - 1));
        assert(t[i - 1] == bs[i]);
        assert(spec_encoded_bytes(bs.take(i + 1), form) == spec_encoded_byte(bs[0], form) + (
        spec_encoded_bytes(t.take(i - 1), form) + spec_encoded_byte(bs[i], form)));
        assert(spec_encoded_byte(bs[0], form) + (spec_encoded_bytes(t.take(i - 1), form)
            + spec_encoded_byte(bs[i], form)) =~= (spec_encoded_byte(bs[0], form)
            + spec_encoded_bytes(t.take(i - 1), form)) + spec_encoded_byte(bs[i], form));
    }
}

/// Every encoded byte is ASCII.
proof fn lemma_encoded_bytes_ascii(bs: Seq<u8>, form: bool)
    ensures
        forall|j: int|
            0 <= j < spec_encoded_bytes(bs, form).len() ==> #[trigger] spec_encoded_bytes(
                bs,
                form,
            )[j] < 0x80,
    decreases bs.len(),
{
    if bs.len() > 0 {
        lemma_encoded_bytes_ascii(bs.drop_first(), form);
        let h = spec_encoded_byte(bs[0], form);
        let t = spec_encoded_bytes(bs.drop_first(), form);
        assert(spec_encoded_bytes(bs, form) == h + t);
        assert(forall|j: int| 0 <= j < h.len() ==> #[trigger] h[j] < 0x80);
        assert forall|j: int|
            0 <= j < spec_encoded_bytes(bs, form).len() implies #[trigger] spec_encoded_bytes(
            bs,
            form,
        )[j] < 0x80 by {
            if j < h.len() {
                assert((h + t)[j] == h[j]);
            } else {
                assert((h + t)[j] == t[j - h.len()]);
            }
        }
    }
}

/// A sequence of ASCII bytes is a valid UTF-8 encoding and decodes to the
/// same values read as characters.
proof fn lemma_ascii_bytes_decode(bs: Seq<u8>)
    requires
        forall|j: int| 0 <= j < bs.len() ==> #[trigger] bs[j] < 0x80,
    ensures
        vstd::utf8::valid_utf8(bs),
        vstd::utf8::decode_utf8(bs) == bytes_as_chars(bs),
{
    let cs = bytes_as_chars(bs);
    assert(is_ascii_chars(cs)) by {
        assert forall|i: int| 0 <= i < cs.len() implies '\0' <= #[trigger] cs[i] <= '\u{7f}' by {
            assert(bs[i] < 0x80);
        }
    }
    is_ascii_chars_encode_utf8(cs);
    assert(encode_utf8(cs) =~= bs);
    encode_utf8_valid_utf8(cs);
    encode_utf8_decode_utf8(cs);
}

/// The upper-case hexadecimal digit for a value below 16.
fn hex_upper(n: u8) -> (r: u8)
    requires
        n < 16,
    ensures
        r == spec_hex_upper(n),
{
    if n < 10 {
        0x30 + n
    } else {
        0x37 + n
    }
}

/// A string made of ASCII bytes, read as characters one for one.
fn ascii_string(bytes: Vec<u8>) -> (r: String)
    requires
        forall|j: int| 0 <= j < bytes@.len() ==> #[trigger] bytes@[j] < 0x80,
    ensures
        r@ == bytes_as_chars(bytes@),
{
    proof {
        lemma_ascii_bytes_decode(bytes@);
    }
    match string_from_utf8(bytes) {
        Ok(s) => s,
        Err(_) => vstd::pervasive::unreached(),
    }
}

/// Encodes the UTF-8 bytes of `s` under the chosen variant.
fn encode_str(s: &str, form: bool) -> (r: String)
    ensures
        r@ == bytes_as_chars(spec_encoded_bytes(encode_utf8(s@), form)),
{
    let bytes = s.as_bytes_vec();
    let mut out: Vec<u8> = Vec::new();
    let mut i: usize = 0;
    while i < bytes.len()
        invariant
            bytes@ == encode_utf8(s@),
            0 <= i <= bytes@.len(),
            out@ == spec_encoded_bytes(bytes@.take(i as int), form),
            forall|j: int| 0 <= j < out@.len() ==> #[trigger] out@[j] < 0x80,
        decreases bytes@.len() - i,
    {
        let b = bytes[i];
        let escaped = if form {
            !(b == 0x2a || b == 0x2d || b == 0x2e || (0x30 <= b && b <= 0x39) || (0x41 <= b && b
                <= 0x5a) || b == 0x5f || (0x61 <= b && b <= 0x7a) || b == 0x20)
        } else {
            b < 0x21 || b > 0x7e || b == 0x22 || b == 0x23 || b == 0x3c || b == 0x3e
        };
        if escaped {
            let hi = b / 16;
            let lo = b % 16;
            out.push(0x25);
            out.push(hex_upper(hi));
            out.push(hex_upper(lo));
            assert(out@ =~= spec_encoded_bytes(bytes@.take(i as int), form) + spec_encoded_byte(
                bytes@[i as int],
                form,
            ));
        } else if form && b == 0x20 {
            out.push(0x2b);
            assert(out@ =~= spec_encoded_bytes(bytes@.take(i as int), form) + spec_encoded_byte(
                bytes@[i as int],
                form,
            ));
        } else {
            out.push(b);
            assert(out@ =~= spec_encoded_bytes(bytes@.take(i as int), form) + spec_encoded_byte(
                bytes@[i as int],
                form,
            ));
        }
        proof {
            lemma_encoded_bytes_take_step(bytes@, form, i as int);
        }
        i += 1;
    }
    proof {
        assert(bytes@.take(bytes@.len() as int) =~= bytes@);
    }
    ascii_string(out)
}

/// The query-component percent-encoding of `s`: non-ASCII and control bytes,
/// space, `"`, `#`, `<` and `>` become upper-case `%XX` triples; all other
/// printable ASCII passes through unchanged.
pub fn query_encode(s: &str) -> (r: String)
    ensures
        r@ == spec_query_encoded(s@),
{
    encode_str(s, false)
}

/// The form encoding of `s`: ASCII alphanumerics and `*-._` pass through,
/// space becomes `+`, every other byte becomes an upper-case `%XX` triple.
pub fn form_encode(s: &str) -> (r: String)
    ensures
        r@ == spec_form_encoded(s@),
{
    encode_str(s, true)
}

} // verus!
