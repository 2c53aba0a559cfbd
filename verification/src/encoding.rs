//! Percent-encoding of names that become part of a URL.
//!
//! A name is encoded byte by byte over its UTF-8 form: letters, digits and
//! the four marks `-`, `.`, `_`, `~` stand for themselves, every other byte
//! becomes `%` followed by its two upper-case hexadecimal digits.

use vstd::prelude::*;
use vstd::utf8::{encode_utf8, is_ascii_chars, is_ascii_chars_encode_utf8};

verus! {

/// Whether a character may appear in a URL as it is.
pub open spec fn is_unreserved(c: char) -> bool {
    ||| '0' <= c <= '9'
    ||| 'A' <= c <= 'Z'
    ||| 'a' <= c <= 'z'
    ||| c == '-'
    ||| c == '.'
    ||| c == '_'
    ||| c == '~'
}

/// The upper-case hexadecimal digit for a value below 16.
pub open spec fn hex_digit(n: u8) -> char
    recommends
        n < 16,
{
    if n < 10 {
        ('0' as u8 + n) as char
    } else {
        ('A' as u8 + (n - 10)) as char
    }
}

/// What one byte becomes in an encoded name.
pub open spec fn escape_byte(b: u8) -> Seq<char> {
    if is_unreserved(b as char) {
        seq![b as char]
    } else {
        seq!['%', hex_digit(b / 16), hex_digit(b % 16)]
    }
}

/// The encoded form of a run of bytes: each byte's form, in order.
pub open spec fn escape_bytes(bytes: Seq<u8>) -> Seq<char>
    decreases bytes.len(),
{
    if bytes.len() == 0 {
        Seq::empty()
    } else {
        escape_bytes(bytes.drop_last()) + escape_byte(bytes.last())
    }
}

/// The percent-encoded form of a text.
pub open spec fn percent_encoded(text: Seq<char>) -> Seq<char> {
    escape_bytes(encode_utf8(text))
}

fn unreserved(c: char) -> (r: bool)
    ensures
        r == is_unreserved(c),
{
    ('0' <= c && c <= '9') || ('A' <= c && c <= 'Z') || ('a' <= c && c <= 'z') || c == '-' || c == '.'
        || c == '_' || c == '~'
}

fn hex(n: u8) -> (c: char)
    requires
        n < 16,
    ensures
        c == hex_digit(n),
{
    if n < 10 {
        ('0' as u8 + n) as char
    } else {
        ('A' as u8 + (n - 10)) as char
    }
}

/// Percent-encodes `text` so that it can stand as one segment of a path or
/// as the value of a query parameter.
pub fn encode(text: &str) -> (r: String)
    ensures
        r@ == percent_encoded(text@),
{
    let bytes = text.as_bytes();
    let mut out = String::new();
    let mut i: usize = 0;
    while i < bytes.len()
        invariant
            i <= bytes@.len(),
            bytes@ == encode_utf8(text@),
            out@ == escape_bytes(bytes@.take(i as int)),
        decreases bytes@.len() - i,
    {
        let b: u8 = bytes[i];
        proof {
            let next = bytes@.take(i + 1);
            assert(next.drop_last() == bytes@.take(i as int));
            assert(next.last() == b);
        }
        if unreserved(b as char) {
            out.push(b as char);
        } else {
            out.push('%');
            out.push(hex(b / 16));
            out.push(hex(b % 16));
        }
        i += 1;
    }
    assert(bytes@.take(i as int) == bytes@);
    out
}

/// Whether a character can occur in an encoded name.
pub open spec fn is_encoded_char(c: char) -> bool {
    c == '%' || is_unreserved(c)
}

/// An encoded name holds nothing but unreserved characters and `%`: no
/// slash, no question mark, no space.
pub proof fn lemma_encoded_chars(text: Seq<char>)
    ensures
        forall|i: int|
            0 <= i < percent_encoded(text).len() ==> is_encoded_char(
                #[trigger] percent_encoded(text)[i],
            ),
{
    lemma_escaped_chars(encode_utf8(text));
}

proof fn lemma_escaped_chars(bytes: Seq<u8>)
    ensures
        forall|i: int|
            0 <= i < escape_bytes(bytes).len() ==> is_encoded_char(#[trigger] escape_bytes(bytes)[i]),
    decreases bytes.len(),
{
    if bytes.len() > 0 {
        lemma_escaped_chars(bytes.drop_last());
        let b = bytes.last();
        let front = escape_bytes(bytes.drop_last());
        let back = escape_byte(b);
        assert(is_encoded_char(hex_digit(b / 16)));
        assert(is_encoded_char(hex_digit(b % 16)));
        assert forall|i: int| 0 <= i < escape_bytes(bytes).len() implies is_encoded_char(
            #[trigger] escape_bytes(bytes)[i],
        ) by {
            if i < front.len() {
                assert(escape_bytes(bytes)[i] == front[i]);
            } else {
                assert(escape_bytes(bytes)[i] == back[i - front.len()]);
            }
        }
    }
}

/// The encoded form of a text is at least as long as the text, so that of
/// a text that is not empty is not empty.
pub proof fn lemma_encoded_len(text: Seq<char>)
    ensures
        percent_encoded(text).len() >= text.len(),
{
    lemma_utf8_len(text);
    lemma_escaped_len(encode_utf8(text));
}

proof fn lemma_utf8_len(text: Seq<char>)
    ensures
        encode_utf8(text).len() >= text.len(),
    decreases text.len(),
{
    if text.len() > 0 {
        lemma_utf8_len(text.drop_first());
    }
}

proof fn lemma_escaped_len(bytes: Seq<u8>)
    ensures
        escape_bytes(bytes).len() >= bytes.len(),
    decreases bytes.len(),
{
    if bytes.len() > 0 {
        lemma_escaped_len(bytes.drop_last());
    }
}

/// A text of unreserved characters is its own encoded form.
pub proof fn lemma_unreserved_unchanged(text: Seq<char>)
    requires
        forall|i: int| 0 <= i < text.len() ==> is_unreserved(#[trigger] text[i]),
    ensures
        percent_encoded(text) == text,
{
    assert(is_ascii_chars(text));
    is_ascii_chars_encode_utf8(text);
    lemma_unreserved_prefix_unchanged(text, encode_utf8(text), text.len() as int);
    assert(text.take(text.len() as int) == text);
    assert(encode_utf8(text).take(text.len() as int) == encode_utf8(text));
}

proof fn lemma_unreserved_prefix_unchanged(text: Seq<char>, bytes: Seq<u8>, n: int)
    requires
        0 <= n <= text.len(),
        bytes.len() == text.len(),
        forall|i: int| 0 <= i < text.len() ==> is_unreserved(#[trigger] text[i]),
        forall|i: int| 0 <= i < text.len() ==> text[i] as u8 == #[trigger] bytes[i],
    ensures
        escape_bytes(bytes.take(n)) == text.take(n),
    decreases n,
{
    if n > 0 {
        lemma_unreserved_prefix_unchanged(text, bytes, n - 1);
        assert(bytes.take(n).drop_last() == bytes.take(n - 1));
        let c = text[n - 1];
        assert(is_unreserved(c));
        assert(bytes[n - 1] as char == c);
        assert(text.take(n) =~= text.take(n - 1) + seq![c]);
    } else {
        assert(text.take(0) =~= Seq::<char>::empty());
    }
}

} // verus!
