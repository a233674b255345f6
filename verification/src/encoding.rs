//! Byte and text encodings the library relies on: base64url, SHA-256,
//! percent-encoding and JSON scalars.

use vstd::prelude::*;
use vstd::utf8::encode_utf8;
use base64::Engine;
use sha2::Digest;

verus! {

/// Characters of the URL-safe base64 alphabet (RFC 4648 §5).
pub open spec fn is_base64url_char(c: char) -> bool {
    ('A' <= c && c <= 'Z') || ('a' <= c && c <= 'z') || ('0' <= c && c <= '9') || c == '-' || c
        == '_'
}

/// What `URL_SAFE_NO_PAD.encode` gives for a byte sequence.
pub uninterp spec fn base64url_encoded(bytes: Seq<u8>) -> Seq<char>;

/// What `URL_SAFE_NO_PAD.decode` gives for a text, `None` on a decode error.
pub uninterp spec fn base64url_decoded(text: Seq<char>) -> Option<Seq<u8>>;

/// The SHA-256 digest of a byte sequence.
pub uninterp spec fn sha256(bytes: Seq<u8>) -> Seq<u8>;

/// The length of unpadded base64 for `n` bytes: four characters for each
/// whole group of three bytes, and two or three for a final one or two.
pub open spec fn base64url_len(n: nat) -> nat {
    4 * (n / 3) + if n % 3 == 0 {
        0
    } else {
        n % 3 + 1
    }
}

/// Calls `base64::engine::general_purpose::URL_SAFE_NO_PAD.encode`.
/// Claims that the result is `base64url_encoded` of the input, that, as the
/// crate's alphabet `URL_SAFE` shows, it uses only URL-safe base64 characters,
/// and that its length is `encoded_len(len, false)`.
#[verifier::external_body]
pub(crate) fn base64url_encode(bytes: &[u8]) -> (s: String)
    ensures
        s@ == base64url_encoded(bytes@),
        forall|i: int| 0 <= i < s@.len() ==> is_base64url_char(#[trigger] s@[i]),
        s@.len() == base64url_len(bytes@.len()),
{
    base64::engine::general_purpose::URL_SAFE_NO_PAD.encode(bytes)
}

/// Calls `base64::engine::general_purpose::URL_SAFE_NO_PAD.decode` on the text's bytes.
/// Claims only that the outcome is `base64url_decoded` of the text.
#[verifier::external_body]
pub(crate) fn base64url_decode(text: &str) -> (r: Option<Vec<u8>>)
    ensures
        match r {
            Some(v) => base64url_decoded(text@) == Some(v@),
            None => base64url_decoded(text@) is None,
        },
{
    base64::engine::general_purpose::URL_SAFE_NO_PAD.decode(text).ok()
}

/// Calls `sha2::Sha256::digest`. Claims the result is `sha256` of the input,
/// 32 bytes long.
#[verifier::external_body]
pub(crate) fn sha256_digest(bytes: &[u8]) -> (d: Vec<u8>)
    ensures
        d@ == sha256(bytes@),
        d@.len() == 32,
{
    sha2::Sha256::digest(bytes).to_vec()
}

/// Upper-case hexadecimal digit of a nibble.
pub open spec fn hex_digit(n: u8) -> char
    recommends
        n < 16,
{
    seq!['0', '1', '2', '3', '4', '5', '6', '7', '8', '9', 'A', 'B', 'C', 'D', 'E', 'F'][n as int]
}

/// ASCII letters and digits: the bytes that `NON_ALPHANUMERIC` leaves as they are.
pub open spec fn is_ascii_alnum(b: u8) -> bool {
    (0x30 <= b && b <= 0x39) || (0x41 <= b && b <= 0x5A) || (0x61 <= b && b <= 0x7A)
}

/// One byte percent-encoded with the `NON_ALPHANUMERIC` set.
pub open spec fn percent_encode_byte(b: u8) -> Seq<char> {
    if is_ascii_alnum(b) {
        seq![b as char]
    } else {
        seq!['%', hex_digit(b / 16), hex_digit(b % 16)]
    }
}

/// A byte sequence percent-encoded with the `NON_ALPHANUMERIC` set.
pub open spec fn percent_encode_bytes(bytes: Seq<u8>) -> Seq<char>
    decreases bytes.len(),
{
    if bytes.len() == 0 {
        Seq::empty()
    } else {
        percent_encode_byte(bytes[0]) + percent_encode_bytes(bytes.drop_first())
    }
}

/// An upper-case hexadecimal digit.
pub open spec fn is_upper_hex_digit(c: char) -> bool {
    ('0' <= c && c <= '9') || ('A' <= c && c <= 'F')
}

/// A hexadecimal digit, either case.
pub open spec fn is_hex_char(c: char) -> bool {
    ('0' <= c && c <= '9') || ('A' <= c && c <= 'F') || ('a' <= c && c <= 'f')
}

/// The value of a hexadecimal digit.
pub open spec fn hex_value(c: char) -> int {
    if '0' <= c && c <= '9' {
        c as int - '0' as int
    } else if 'A' <= c && c <= 'F' {
        c as int - 'A' as int + 10
    } else {
        c as int - 'a' as int + 10
    }
}

/// The bytes that percent-decoding an ASCII text gives
/// (`percent_encoding::percent_decode_str`): `%` and two hex digits stand for
/// one byte, every other character for its own code.
pub open spec fn percent_decode_ascii(s: Seq<char>) -> Seq<u8>
    decreases s.len(),
{
    if s.len() == 0 {
        Seq::empty()
    } else if s.len() >= 3 && s[0] == '%' && is_hex_char(s[1]) && is_hex_char(s[2]) {
        seq![(hex_value(s[1]) * 16 + hex_value(s[2])) as u8] + percent_decode_ascii(s.skip(3))
    } else {
        seq![(s[0] as u32) as u8] + percent_decode_ascii(s.skip(1))
    }
}

/// A text of ASCII letters and digits and of escapes, each `%` followed by
/// two upper-case hex digits.
pub open spec fn is_escaped_text(s: Seq<char>) -> bool
    decreases s.len(),
{
    if s.len() == 0 {
        true
    } else if s[0] == '%' {
        s.len() >= 3 && is_upper_hex_digit(s[1]) && is_upper_hex_digit(s[2]) && is_escaped_text(s.skip(3))
    } else {
        (('A' <= s[0] && s[0] <= 'Z') || ('a' <= s[0] && s[0] <= 'z') || ('0' <= s[0] && s[0] <= '9'))
            && is_escaped_text(s.skip(1))
    }
}

proof fn lemma_hex_digit(n: u8)
    requires
        n < 16,
    ensures
        is_upper_hex_digit(hex_digit(n)),
        is_hex_char(hex_digit(n)),
        hex_value(hex_digit(n)) == n,
{
    let hex = seq!['0', '1', '2', '3', '4', '5', '6', '7', '8', '9', 'A', 'B', 'C', 'D', 'E', 'F'];
    assert(hex_digit(n) == hex[n as int]);
    if n < 10 {
        assert(n == 0 || n == 1 || n == 2 || n == 3 || n == 4 || n == 5 || n == 6 || n == 7 || n == 8
            || n == 9);
    } else {
        assert(n == 10 || n == 11 || n == 12 || n == 13 || n == 14 || n == 15);
    }
}

/// Percent-decoding what `NON_ALPHANUMERIC` encoding gives returns the bytes
/// encoded, and the encoded text holds only letters, digits and upper-case
/// escapes.
pub proof fn lemma_percent_round_trip(bytes: Seq<u8>)
    ensures
        percent_decode_ascii(percent_encode_bytes(bytes)) == bytes,
        is_escaped_text(percent_encode_bytes(bytes)),
    decreases bytes.len(),
{
    if bytes.len() > 0 {
        let b = bytes[0];
        let rest = bytes.drop_first();
        lemma_percent_round_trip(rest);
        let head = percent_encode_byte(b);
        let e = percent_encode_bytes(bytes);
        assert(e == head + percent_encode_bytes(rest));
        if is_ascii_alnum(b) {
            assert(e.skip(1) =~= percent_encode_bytes(rest));
            assert(e[0] == b as char);
            assert(((b as char) as u32) as u8 == b);
        } else {
            lemma_hex_digit(b / 16);
            lemma_hex_digit(b % 16);
            assert(e.skip(3) =~= percent_encode_bytes(rest));
            assert(e[0] == '%' && e[1] == hex_digit(b / 16) && e[2] == hex_digit(b % 16));
            assert((b / 16) as int * 16 + (b % 16) as int == b as int);
        }
        assert(percent_decode_ascii(e) =~= bytes);
    }
}

/// Calls `percent_encoding::utf8_percent_encode(s, NON_ALPHANUMERIC)` and
/// renders it. Claims what the crate's source shows: each UTF-8 byte of the
/// input that is an ASCII letter or digit is kept, every other byte becomes
/// `%` and two upper-case hex digits.
#[verifier::external_body]
pub(crate) fn percent_encode_text(s: &str) -> (r: String)
    ensures
        r@ == percent_encode_bytes(encode_utf8(s@)),
{
    percent_encoding::utf8_percent_encode(s, percent_encoding::NON_ALPHANUMERIC).to_string()
}

/// Lower-case hexadecimal digit of a nibble.
pub open spec fn lower_hex_digit(n: int) -> char
    recommends
        0 <= n < 16,
{
    seq!['0', '1', '2', '3', '4', '5', '6', '7', '8', '9', 'a', 'b', 'c', 'd', 'e', 'f'][n]
}

/// How serde_json writes one character inside a string: `"` and `\` after a
/// backslash; backspace, tab, newline, form feed and carriage return as
/// `\b`, `\t`, `\n`, `\f`, `\r`; any other control character below
/// U+0020 as `\u00` and two lower-case hex digits; everything else as it is.
pub open spec fn json_escape_char(c: char) -> Seq<char> {
    if c == '"' {
        seq!['\\', '"']
    } else if c == '\\' {
        seq!['\\', '\\']
    } else if c == '\u{8}' {
        seq!['\\', 'b']
    } else if c == '\t' {
        seq!['\\', 't']
    } else if c == '\n' {
        seq!['\\', 'n']
    } else if c == '\u{c}' {
        seq!['\\', 'f']
    } else if c == '\r' {
        seq!['\\', 'r']
    } else if (c as u32) < 0x20 {
        seq!['\\', 'u', '0', '0', lower_hex_digit(c as int / 16), lower_hex_digit(c as int % 16)]
    } else {
        seq![c]
    }
}

/// The characters of a string, each written as serde_json writes it.
pub open spec fn json_escaped(s: Seq<char>) -> Seq<char>
    decreases s.len(),
{
    if s.len() == 0 {
        Seq::empty()
    } else {
        json_escape_char(s[0]) + json_escaped(s.drop_first())
    }
}

/// What `serde_json::to_string` gives for a string: its JSON string literal.
#[verifier::opaque]
pub open spec fn json_string_literal(s: Seq<char>) -> Seq<char> {
    seq!['"'] + json_escaped(s) + seq!['"']
}

/// The decimal digits of a natural number, without leading zeros.
pub open spec fn decimal_digits(n: nat) -> Seq<char>
    decreases n,
{
    let d = seq!['0', '1', '2', '3', '4', '5', '6', '7', '8', '9'][(n % 10) as int];
    if n < 10 {
        seq![d]
    } else {
        decimal_digits(n / 10).push(d)
    }
}

/// What `serde_json::to_string` gives for an `i64`: its decimal form, with a
/// `-` before a negative number.
#[verifier::opaque]
pub open spec fn json_integer_literal(n: i64) -> Seq<char> {
    if n < 0 {
        seq!['-'] + decimal_digits((-(n as int)) as nat)
    } else {
        decimal_digits(n as nat)
    }
}

/// What `serde_json::from_slice::<Value>` followed by `get(key)` and `as_str`
/// yields: `None` when the bytes are not JSON, `Some(None)` when the value has
/// no member `key` holding a string, else that string.
pub uninterp spec fn json_string_member(payload: Seq<u8>, key: Seq<char>) -> Option<Option<Seq<char>>>;

/// Calls `serde_json::to_string` on a string. serde_json documents that
/// serialisation fails only when a `Serialize` impl fails or a map has
/// non-string keys, neither of which a `str` can do.
/// Claims that the result is `json_string_literal` of the input, as the
/// crate's `format_escaped_str` and its `ESCAPE` table write it.
#[verifier::external_body]
pub(crate) fn json_string(s: &str) -> (r: String)
    ensures
        r@ == json_string_literal(s@),
{
    serde_json::to_string(s).unwrap_or_default()
}

/// Calls `serde_json::to_string` on an `i64`, which cannot fail for the same reason.
/// Claims that the result is `json_integer_literal` of the input, the
/// decimal form that `itoa` writes.
#[verifier::external_body]
pub(crate) fn json_integer(n: i64) -> (r: String)
    ensures
        r@ == json_integer_literal(n),
{
    serde_json::to_string(&n).unwrap_or_default()
}

/// Parses the bytes with `serde_json::from_slice::<serde_json::Value>` and
/// reads the member `key` with `Value::get` and `Value::as_str`.
/// Claims only that the outcome is `json_string_member` of the arguments.
#[verifier::external_body]
pub(crate) fn json_member_str(payload: &[u8], key: &str) -> (r: Option<Option<String>>)
    ensures
        match r {
            None => json_string_member(payload@, key@) is None,
            Some(None) => json_string_member(payload@, key@) == Some(None::<Seq<char>>),
            Some(Some(s)) => json_string_member(payload@, key@) == Some(Some(s@)),
        },
{
    match serde_json::from_slice::<serde_json::Value>(payload) {
        Ok(v) => Some(v.get(key).and_then(|m| m.as_str()).map(|m| m.to_string())),
        Err(_) => None,
    }
}

} // verus!
