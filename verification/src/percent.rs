//! Percent-encoding of form values, and the form-encoded body of a field map.

use vstd::prelude::*;
use vstd::string::StringExecFns;
use vstd::utf8::{decode_utf8, encode_utf8, is_ascii_chars, valid_utf8};
use crate::text::{join, text_from_utf8};
use crate::textmap::{Pairs, TextMap};

verus! {

/// The bytes that stand for themselves in an encoded value: the ASCII letters
/// and digits.
pub open spec fn is_unreserved(b: u8) -> bool {
    (0x30 <= b <= 0x39) || (0x41 <= b <= 0x5a) || (0x61 <= b <= 0x7a)
}

/// The upper-case hexadecimal digit for a number below sixteen.
pub open spec fn hex_digit(n: int) -> u8 {
    if n < 10 {
        (0x30 + n) as u8
    } else {
        (0x41 + n - 10) as u8
    }
}

/// The number that a hexadecimal digit of either case stands for.
pub open spec fn hex_value(b: u8) -> Option<int> {
    if 0x30 <= b <= 0x39 {
        Some(b - 0x30)
    } else if 0x41 <= b <= 0x46 {
        Some(b - 0x41 + 10)
    } else if 0x61 <= b <= 0x66 {
        Some(b - 0x61 + 10)
    } else {
        None
    }
}

/// One byte, encoded: itself where it is unreserved, else `%` and its two
/// hexadecimal digits.
pub open spec fn escape_byte(b: u8) -> Seq<u8> {
    if is_unreserved(b) {
        seq![b]
    } else {
        seq![0x25u8, hex_digit(b as int / 16), hex_digit(b as int % 16)]
    }
}

/// A sequence of bytes, each encoded in turn.
pub open spec fn escaped(bytes: Seq<u8>) -> Seq<u8>
    decreases bytes.len(),
{
    if bytes.len() == 0 {
        Seq::empty()
    } else {
        escape_byte(bytes[0]) + escaped(bytes.drop_first())
    }
}

/// A sequence of bytes, decoded: each `%` with two hexadecimal digits behind
/// it becomes the byte that they spell, and every other byte stays.
pub open spec fn unescaped(bytes: Seq<u8>) -> Seq<u8>
    decreases bytes.len(),
{
    if bytes.len() == 0 {
        Seq::empty()
    } else if bytes[0] == 0x25 && bytes.len() >= 3 && hex_value(bytes[1]) is Some && hex_value(
        bytes[2],
    ) is Some {
        seq![(16 * hex_value(bytes[1])->0 + hex_value(bytes[2])->0) as u8] + unescaped(
            bytes.skip(3),
        )
    } else {
        seq![bytes[0]] + unescaped(bytes.skip(1))
    }
}

/// ASCII bytes, read as characters.
pub open spec fn ascii_text(bytes: Seq<u8>) -> Seq<char> {
    Seq::new(bytes.len(), |i: int| bytes[i] as char)
}

/// The percent-encoding of a text: the encoding of its UTF-8 bytes.
pub open spec fn percent_encoded(text: Seq<char>) -> Seq<char> {
    ascii_text(escaped(encode_utf8(text)))
}

/// The text that a percent-encoded text stands for, where the decoded bytes
/// are UTF-8.
pub open spec fn percent_decoded(text: Seq<char>) -> Option<Seq<char>> {
    let bytes = unescaped(encode_utf8(text));
    if valid_utf8(bytes) {
        Some(decode_utf8(bytes))
    } else {
        None
    }
}

/// One field as it stands in a form-encoded body: its name as it is, `=`, and
/// its value percent-encoded.
pub open spec fn field_text(pair: (Seq<char>, Seq<char>)) -> Seq<char> {
    pair.0 + seq!['='] + percent_encoded(pair.1)
}

/// The form-encoded body of a field map: its fields in order, `&` between.
pub open spec fn form_body_of(fields: Pairs) -> Seq<char> {
    join(fields.map_values(|pair: (Seq<char>, Seq<char>)| field_text(pair)), seq!['&'])
}

/// Every encoded byte is ASCII.
pub proof fn lemma_escaped_is_ascii(bytes: Seq<u8>)
    ensures
        forall|i: int| 0 <= i < escaped(bytes).len() ==> escaped(bytes)[i] < 0x80,
    decreases bytes.len(),
{
    if bytes.len() > 0 {
        let head = escape_byte(bytes[0]);
        let tail = escaped(bytes.drop_first());
        lemma_escaped_is_ascii(bytes.drop_first());
        assert forall|i: int| 0 <= i < escaped(bytes).len() implies escaped(bytes)[i] < 0x80 by {
            if i < head.len() {
                assert(escaped(bytes)[i] == head[i]);
            } else {
                assert(escaped(bytes)[i] == tail[i - head.len()]);
            }
        }
    }
}

/// Decoding undoes encoding, byte for byte.
pub proof fn lemma_unescaped_escaped(bytes: Seq<u8>)
    ensures
        unescaped(escaped(bytes)) == bytes,
    decreases bytes.len(),
{
    if bytes.len() > 0 {
        let b = bytes[0];
        let rest = bytes.drop_first();
        let all = escaped(bytes);
        lemma_unescaped_escaped(rest);
        if is_unreserved(b) {
            assert(all.skip(1) =~= escaped(rest));
        } else {
            assert(all.skip(3) =~= escaped(rest));
            assert(16 * (b as int / 16) + b as int % 16 == b as int);
        }
        assert(seq![b] + rest =~= bytes);
    }
}

/// Encoding a text and decoding the result gives the text back, whatever
/// characters it holds.
pub proof fn lemma_percent_round_trip(text: Seq<char>)
    ensures
        percent_decoded(percent_encoded(text)) == Some(text),
{
    let bytes = encode_utf8(text);
    let enc = escaped(bytes);
    let shown = percent_encoded(text);
    lemma_escaped_is_ascii(bytes);
    assert(is_ascii_chars(shown));
    vstd::utf8::is_ascii_chars_encode_utf8(shown);
    assert(encode_utf8(shown) =~= enc);
    lemma_unescaped_escaped(bytes);
    vstd::utf8::encode_utf8_valid_utf8(text);
    vstd::utf8::encode_utf8_decode_utf8(text);
}

/// `percent_encoding::utf8_percent_encode` with the set `NON_ALPHANUMERIC`,
/// written out as a string: every byte of the text's UTF-8 form that is an
/// ASCII letter or digit stands as it is, and every other byte as `%` and its
/// two upper-case hexadecimal digits.
#[verifier::external_body]
fn encode_non_alphanumeric(s: &str) -> (r: String)
    ensures
        r@ == percent_encoded(s@),
{
    percent_encoding::utf8_percent_encode(s, percent_encoding::NON_ALPHANUMERIC).to_string()
}

/// The percent-encoding of a form value.
pub fn percent_encode(s: &str) -> (r: String)
    ensures
        r@ == percent_encoded(s@),
{
    encode_non_alphanumeric(s)
}

/// The number that a hexadecimal digit stands for.
fn hex_value_of(b: u8) -> (r: Option<u8>)
    ensures
        match r {
            Some(v) => hex_value(b) == Some(v as int) && v < 16,
            None => hex_value(b) is None,
        },
{
    if 0x30 <= b && b <= 0x39 {
        Some(b - 0x30)
    } else if 0x41 <= b && b <= 0x46 {
        Some(b - 0x41 + 10)
    } else if 0x61 <= b && b <= 0x66 {
        Some(b - 0x61 + 10)
    } else {
        None
    }
}

/// The text that a percent-encoded value stands for; none where the decoded
/// bytes are not UTF-8.
pub fn percent_decode(s: &str) -> (r: Option<String>)
    ensures
        match r {
            Some(text) => percent_decoded(s@) == Some(text@),
            None => percent_decoded(s@) is None,
        },
{
    let bytes = s.as_bytes();
    let n: usize = bytes.len();
    let mut out: Vec<u8> = Vec::new();
    let mut i: usize = 0;
    assert(bytes@.skip(0) =~= bytes@);
    while i < n
        invariant
            n == bytes@.len(),
            i <= n,
            out@ + unescaped(bytes@.skip(i as int)) == unescaped(bytes@),
        decreases n - i,
    {
        let ghost rest = bytes@.skip(i as int);
        let b: u8 = bytes[i];
        let mut step: usize = 1;
        let mut byte: u8 = b;
        if b == 0x25 && n - i >= 3 {
            match (hex_value_of(bytes[i + 1]), hex_value_of(bytes[i + 2])) {
                (Some(h), Some(l)) => {
                    byte = 16 * h + l;
                    step = 3;
                },
                _ => {},
            }
        }
        proof {
            assert(rest.skip(step as int) =~= bytes@.skip(i + step));
            assert(unescaped(rest) == seq![byte] + unescaped(rest.skip(step as int)));
            assert(out@.push(byte) + unescaped(rest.skip(step as int)) =~= out@ + unescaped(rest));
        }
        out.push(byte);
        i = i + step;
    }
    assert(bytes@.skip(n as int) =~= Seq::<u8>::empty());
    assert(out@ =~= unescaped(bytes@));
    match text_from_utf8(out) {
        Some(text) => {
            proof {
                vstd::utf8::encode_utf8_decode_utf8(text@);
            }
            Some(text)
        },
        None => None,
    }
}

/// The form-encoded body that sends a field map.
pub fn form_encode(fields: &TextMap) -> (r: String)
    ensures
        r@ == form_body_of(fields@),
{
    let ghost parts = fields@.map_values(|pair: (Seq<char>, Seq<char>)| field_text(pair));
    let mut out: String = String::new();
    let mut i: usize = 0;
    while i < fields.len()
        invariant
            i <= fields@.len(),
            parts == fields@.map_values(|pair: (Seq<char>, Seq<char>)| field_text(pair)),
            out@ == join(parts.take(i as int), seq!['&']),
        decreases fields@.len() - i,
    {
        let ghost before = out@;
        if i > 0 {
            out.push('&');
        }
        out.append(fields.name_at(i).as_str());
        out.push('=');
        let value = percent_encode(fields.value_at(i).as_str());
        out.append(value.as_str());
        proof {
            let next = parts.take(i + 1);
            assert(next.drop_last() =~= parts.take(i as int));
            assert(next.last() == field_text(fields@[i as int]));
            if i > 0 {
                assert(out@ =~= before + seq!['&'] + next.last());
            } else {
                assert(out@ =~= next.last());
            }
        }
        i = i + 1;
    }
    assert(parts.take(i as int) =~= parts);
    out
}

} // verus!
