//! Percent-encoding of a text for use inside a URL's query.

use vstd::prelude::*;
use vstd::utf8::*;

verus! {

/// A byte that stands for itself in a URL: an ASCII letter or digit, or one
/// of `-`, `.`, `_` and `~`.
pub open spec fn is_unreserved(b: u8) -> bool {
    ||| 0x30 <= b <= 0x39
    ||| 0x41 <= b <= 0x5a
    ||| 0x61 <= b <= 0x7a
    ||| b == 0x2d
    ||| b == 0x2e
    ||| b == 0x5f
    ||| b == 0x7e
}

/// The upper-case hexadecimal digit of a value below sixteen.
pub open spec fn hex_digit(d: u8) -> char {
    if d < 10 {
        (0x30 + d) as u8 as char
    } else {
        (0x41 - 10 + d) as u8 as char
    }
}

/// What one byte becomes: itself, or `%` and its two hexadecimal digits.
pub open spec fn escaped_byte(b: u8) -> Seq<char> {
    if is_unreserved(b) {
        seq![b as char]
    } else {
        seq!['%', hex_digit(b >> 4), hex_digit(b & 15)]
    }
}

/// What a sequence of bytes becomes, byte by byte.
pub open spec fn percent_encoded(bytes: Seq<u8>) -> Seq<char>
    decreases bytes.len(),
{
    if bytes.len() == 0 {
        Seq::empty()
    } else {
        escaped_byte(bytes[0]) + percent_encoded(bytes.drop_first())
    }
}

/// A character that stands for itself in a URL.
pub open spec fn is_plain_char(c: char) -> bool {
    ||| '0' <= c <= '9'
    ||| 'A' <= c <= 'Z'
    ||| 'a' <= c <= 'z'
    ||| c == '-'
    ||| c == '.'
    ||| c == '_'
    ||| c == '~'
}

/// A text made of such characters only.
pub open spec fn is_plain(text: Seq<char>) -> bool {
    forall|i: int| 0 <= i < text.len() ==> is_plain_char(#[trigger] text[i])
}

/// Calls `urlencoding::encode` and takes the result as an owned string.
///
/// Trusted: that function encodes the text's UTF-8 bytes one by one, leaves
/// ASCII letters, digits, `-`, `.`, `_` and `~` as they are, and writes every
/// other byte as `%` followed by its two upper-case hexadecimal digits.
#[verifier::external_body]
pub(crate) fn encode(data: &str) -> (r: String)
    ensures
        r@ == percent_encoded(encode_utf8(data@)),
{
    urlencoding::encode(data).into_owned()
}

/// Bytes that are all unreserved encode to the characters they stand for.
proof fn lemma_unreserved_bytes(bytes: Seq<u8>)
    requires
        forall|i: int| 0 <= i < bytes.len() ==> is_unreserved(#[trigger] bytes[i]),
    ensures
        percent_encoded(bytes) == bytes.map_values(|b: u8| b as char),
    decreases bytes.len(),
{
    let mapped = bytes.map_values(|b: u8| b as char);
    if bytes.len() == 0 {
        assert(percent_encoded(bytes) =~= mapped);
    } else {
        let rest = bytes.drop_first();
        assert forall|i: int| 0 <= i < rest.len() implies is_unreserved(#[trigger] rest[i]) by {
            assert(rest[i] == bytes[i + 1]);
        }
        lemma_unreserved_bytes(rest);
        assert(percent_encoded(bytes) =~= mapped);
    }
}

/// A text of unreserved characters is its own encoding: nothing in it is
/// escaped.
pub proof fn lemma_plain_text_unchanged(text: Seq<char>)
    requires
        is_plain(text),
    ensures
        percent_encoded(encode_utf8(text)) == text,
{
    assert(is_ascii_chars(text)) by {
        assert forall|i: int| 0 <= i < text.len() implies '\0' <= #[trigger] text[i] <= '\u{7f}' by {
            assert(is_plain_char(text[i]));
        }
    }
    is_ascii_chars_encode_utf8(text);
    let bytes = encode_utf8(text);
    assert forall|i: int| 0 <= i < bytes.len() implies is_unreserved(#[trigger] bytes[i]) by {
        assert(text[i] as u8 == bytes[i]);
        assert(is_plain_char(text[i]));
    }
    lemma_unreserved_bytes(bytes);
    assert(bytes.map_values(|b: u8| b as char) =~= text) by {
        assert forall|i: int| 0 <= i < text.len() implies bytes[i] as char == text[i] by {
            assert(text[i] as u8 == bytes[i]);
            assert(is_plain_char(text[i]));
        }
    }
}

} // verus!
