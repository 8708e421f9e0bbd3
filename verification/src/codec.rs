//! Percent-encoding (the `urlencoding` crate) and base64 (the `base64`
//! crate), called through trusted wrappers whose contracts state the
//! encodings exactly, with the laws that follow from them.
use vstd::prelude::*;
use vstd::utf8::*;

verus! {

// ---------------------------------------------------------------------------
// Percent-encoding
// ---------------------------------------------------------------------------

/// Bytes that percent-encoding leaves as they are: ASCII letters, digits and `-._~`.
pub open spec fn is_unreserved(b: u8) -> bool {
    ||| (48 <= b && b <= 57)
    ||| (65 <= b && b <= 90)
    ||| (97 <= b && b <= 122)
    ||| b == 45
    ||| b == 46
    ||| b == 95
    ||| b == 126
}

/// The upper-case hexadecimal digit (as an ASCII byte) of a value below 16.
pub open spec fn hex_upper_byte(d: u8) -> u8 {
    if d < 10 {
        (48 + d) as u8
    } else {
        (55 + d) as u8
    }
}

/// The value of an ASCII hexadecimal digit, in either case.
pub open spec fn hex_value(b: u8) -> Option<u8> {
    if 48 <= b && b <= 57 {
        Some((b - 48) as u8)
    } else if 65 <= b && b <= 70 {
        Some((b - 55) as u8)
    } else if 97 <= b && b <= 102 {
        Some((b - 87) as u8)
    } else {
        None
    }
}

/// How one byte is percent-encoded.
pub open spec fn pct_encode_byte(b: u8) -> Seq<u8> {
    if is_unreserved(b) {
        seq![b]
    } else {
        seq![37u8, hex_upper_byte(b / 16), hex_upper_byte(b % 16)]
    }
}

/// Percent-encoding of a byte string: every byte but the unreserved ones
/// becomes `%` and two upper-case hex digits.
pub open spec fn pct_encode_bytes(b: Seq<u8>) -> Seq<u8>
    decreases b.len(),
{
    if b.len() == 0 {
        Seq::<u8>::empty()
    } else {
        pct_encode_byte(b[0]) + pct_encode_bytes(b.drop_first())
    }
}

/// Percent-decoding of a byte string: `%` followed by two hex digits becomes
/// the byte they denote; every other byte, a lone `%` included, is kept.
pub open spec fn pct_decode_bytes(b: Seq<u8>) -> Seq<u8>
    decreases b.len(),
{
    if b.len() == 0 {
        Seq::<u8>::empty()
    } else if b.len() >= 3 && b[0] == 37 && hex_value(b[1]) is Some && hex_value(b[2]) is Some {
        seq![(hex_value(b[1])->0 * 16 + hex_value(b[2])->0) as u8] + pct_decode_bytes(b.skip(3))
    } else {
        seq![b[0]] + pct_decode_bytes(b.drop_first())
    }
}

/// The text of a sequence of ASCII bytes.
pub open spec fn ascii_text(b: Seq<u8>) -> Seq<char> {
    b.map_values(|x: u8| x as char)
}

/// `urlencoding::encode` of a text: the percent-encoding of its UTF-8 bytes.
pub open spec fn url_encoded(s: Seq<char>) -> Seq<char> {
    ascii_text(pct_encode_bytes(encode_utf8(s)))
}

/// `urlencoding::decode` of a text: the percent-decoded bytes read as UTF-8,
/// or `None` when they are not valid UTF-8.
pub open spec fn url_decoded(s: Seq<char>) -> Option<Seq<char>> {
    let d = pct_decode_bytes(encode_utf8(s));
    if valid_utf8(d) {
        Some(decode_utf8(d))
    } else {
        None
    }
}

/// The message of the `FromUtf8Error` that `String::from_utf8` returns for
/// bytes that are not valid UTF-8 (its `Display`: where the invalid sequence
/// starts and how long it is), a function of the bytes alone.
pub uninterp spec fn utf8_error_message(bytes: Seq<u8>) -> Seq<char>;

/// `urlencoding::encode`: the contract states the crate's encoding exactly
/// (every UTF-8 byte except ASCII alphanumerics and `-._~` becomes `%HH`).
#[verifier::external_body]
pub(crate) fn url_encode(s: &str) -> (r: String)
    ensures
        r@ == url_encoded(s@),
{
    urlencoding::encode(s).into_owned()
}

/// `urlencoding::decode`: the contract states the crate's decoding exactly.
/// Its error, std's `FromUtf8Error` for decoded bytes that are not UTF-8, is
/// handed back as its message, named `utf8_error_message` over those bytes.
#[verifier::external_body]
pub(crate) fn url_decode(s: &str) -> (r: Result<String, String>)
    ensures
        match url_decoded(s@) {
            Some(t) => r matches Ok(x) && x@ == t,
            None => r matches Err(m) && m@ == utf8_error_message(pct_decode_bytes(encode_utf8(s@))),
        },
{
    match urlencoding::decode(s) {
        Ok(c) => Ok(c.into_owned()),
        Err(e) => Err(e.to_string()),
    }
}

proof fn lemma_hex_roundtrip(d: u8)
    requires
        d < 16,
    ensures
        hex_value(hex_upper_byte(d)) == Some(d),
        hex_upper_byte(d) < 128,
        !is_unreserved(37u8),
{
}

/// Percent-encoded bytes are ASCII letters, digits, `-._~` or `%`.
pub open spec fn is_url_safe_byte(b: u8) -> bool {
    is_unreserved(b) || b == 37
}

/// Every byte of a percent-encoding is URL-safe.
pub proof fn lemma_pct_encode_safe(b: Seq<u8>)
    ensures
        forall|i: int| 0 <= i < pct_encode_bytes(b).len() ==> is_url_safe_byte(#[trigger] pct_encode_bytes(b)[i]),
    decreases b.len(),
{
    if b.len() > 0 {
        lemma_pct_encode_safe(b.drop_first());
        let head = pct_encode_byte(b[0]);
        let tail = pct_encode_bytes(b.drop_first());
        assert forall|i: int| 0 <= i < pct_encode_bytes(b).len() implies is_url_safe_byte(#[trigger] pct_encode_bytes(b)[i]) by {
            if i < head.len() {
                assert(pct_encode_bytes(b)[i] == head[i]);
            } else {
                assert(pct_encode_bytes(b)[i] == tail[i - head.len()]);
            }
        }
    }
}

/// Decoding undoes encoding, byte for byte.
pub proof fn lemma_pct_decode_encode(b: Seq<u8>)
    ensures
        pct_decode_bytes(pct_encode_bytes(b)) == b,
    decreases b.len(),
{
    if b.len() > 0 {
        lemma_pct_decode_encode(b.drop_first());
        let e = pct_encode_bytes(b);
        let rest = pct_encode_bytes(b.drop_first());
        if is_unreserved(b[0]) {
            assert(e == seq![b[0]] + rest);
            assert(e.drop_first() == rest);
            assert(e[0] != 37);
        } else {
            lemma_hex_roundtrip(b[0] / 16);
            lemma_hex_roundtrip(b[0] % 16);
            assert(e == seq![37u8, hex_upper_byte(b[0] / 16), hex_upper_byte(b[0] % 16)] + rest);
            assert(e.skip(3) == rest);
        }
        assert(b == seq![b[0]] + b.drop_first());
    }
}

/// ASCII bytes read as text and written back as UTF-8 are the same bytes.
pub proof fn lemma_ascii_text_utf8(b: Seq<u8>)
    requires
        forall|i: int| 0 <= i < b.len() ==> #[trigger] b[i] < 128,
    ensures
        encode_utf8(ascii_text(b)) == b,
        is_ascii_chars(ascii_text(b)),
{
    let t = ascii_text(b);
    assert(is_ascii_chars(t)) by {
        assert forall|i: int| 0 <= i < t.len() implies '\0' <= #[trigger] t[i] <= '\u{7f}' by {
            assert(t[i] == b[i] as char);
        }
    }
    is_ascii_chars_encode_utf8(t);
    assert forall|i: int| 0 <= i < b.len() implies #[trigger] encode_utf8(t)[i] == b[i] by {
        assert(t[i] as u8 == encode_utf8(t)[i]);
        assert(t[i] == b[i] as char);
    }
    assert(encode_utf8(t) =~= b);
}

/// Percent-encoded text is ASCII, and its UTF-8 bytes are the encoded bytes.
pub proof fn lemma_url_encoded_bytes(s: Seq<char>)
    ensures
        encode_utf8(url_encoded(s)) == pct_encode_bytes(encode_utf8(s)),
        forall|i: int| 0 <= i < url_encoded(s).len() ==> is_url_safe_byte(#[trigger] url_encoded(s)[i] as u8),
        forall|i: int| 0 <= i < url_encoded(s).len() ==> (#[trigger] url_encoded(s)[i] as u8) as char == url_encoded(s)[i],
{
    let b = pct_encode_bytes(encode_utf8(s));
    lemma_pct_encode_safe(encode_utf8(s));
    assert forall|i: int| 0 <= i < b.len() implies #[trigger] b[i] < 128 by {
        assert(is_url_safe_byte(b[i]));
    }
    lemma_ascii_text_utf8(b);
    assert forall|i: int| 0 <= i < url_encoded(s).len() implies is_url_safe_byte(#[trigger] url_encoded(s)[i] as u8) by {
        assert(url_encoded(s)[i] == b[i] as char);
        assert(is_url_safe_byte(b[i]));
    }
}

/// Decoding a percent-encoded text gives back the text.
pub proof fn lemma_url_roundtrip(s: Seq<char>)
    ensures
        url_decoded(url_encoded(s)) == Some(s),
{
    lemma_url_encoded_bytes(s);
    lemma_pct_decode_encode(encode_utf8(s));
    encode_utf8_valid_utf8(s);
    encode_utf8_decode_utf8(s);
}

/// A percent-encoded text holds none of the characters that delimit URL
/// parts and query parameters (`&`, `=`, `?`, `#`, `/`, `+`, space).
pub proof fn lemma_url_encoded_has_no_delimiters(s: Seq<char>)
    ensures
        !url_encoded(s).contains('&'),
        !url_encoded(s).contains('='),
        !url_encoded(s).contains('?'),
        !url_encoded(s).contains('#'),
        !url_encoded(s).contains('/'),
        !url_encoded(s).contains('+'),
        !url_encoded(s).contains(' '),
{
    lemma_url_encoded_bytes(s);
    let e = url_encoded(s);
    assert forall|i: int| 0 <= i < e.len() implies #[trigger] e[i] != '&' && e[i] != '=' && e[i] != '?' && e[i] != '#' && e[i] != '/' && e[i] != '+' && e[i] != ' ' by {
        assert(is_url_safe_byte(e[i] as u8));
        assert((e[i] as u8) as char == e[i]);
    }
}

/// The characters that percent-encoded text is made of.
pub open spec fn is_url_char(c: char) -> bool {
    ('0' <= c && c <= '9') || ('A' <= c && c <= 'Z') || ('a' <= c && c <= 'z') || c == '-' || c == '.'
        || c == '_' || c == '~' || c == '%'
}

/// Percent-encoded text is made of ASCII letters, digits, `-._~` and `%`.
pub proof fn lemma_url_encoded_chars(s: Seq<char>)
    ensures
        forall|i: int| 0 <= i < url_encoded(s).len() ==> is_url_char(#[trigger] url_encoded(s)[i]),
{
    lemma_url_encoded_bytes(s);
    let e = url_encoded(s);
    assert forall|i: int| 0 <= i < e.len() implies is_url_char(#[trigger] e[i]) by {
        assert(is_url_safe_byte(e[i] as u8));
        assert((e[i] as u8) as char == e[i]);
    }
}

// ---------------------------------------------------------------------------
// Base64
// ---------------------------------------------------------------------------

/// The base64 digit for a 6-bit value; `url_safe` picks `-_` over `+/` for 62 and 63.
pub open spec fn b64_digit(v: int, url_safe: bool) -> char {
    if v < 26 {
        ((65 + v) as u8) as char
    } else if v < 52 {
        ((71 + v) as u8) as char
    } else if v < 62 {
        ((v - 4) as u8) as char
    } else if v == 62 {
        if url_safe { '-' } else { '+' }
    } else {
        if url_safe { '_' } else { '/' }
    }
}

/// Base64 encoding of a byte string: each group of three bytes becomes four
/// digits; a last group of one or two bytes becomes two or three digits,
/// followed by `=` padding up to four when `pad` holds.
pub open spec fn b64_encode(b: Seq<u8>, url_safe: bool, pad: bool) -> Seq<char>
    decreases b.len(),
{
    if b.len() == 0 {
        Seq::<char>::empty()
    } else if b.len() == 1 {
        seq![b64_digit(b[0] as int / 4, url_safe), b64_digit((b[0] % 4) * 16, url_safe)]
            + (if pad { seq!['=', '='] } else { Seq::<char>::empty() })
    } else if b.len() == 2 {
        seq![
            b64_digit(b[0] as int / 4, url_safe),
            b64_digit((b[0] % 4) * 16 + b[1] / 16, url_safe),
            b64_digit((b[1] % 16) * 4, url_safe),
        ] + (if pad { seq!['='] } else { Seq::<char>::empty() })
    } else {
        seq![
            b64_digit(b[0] as int / 4, url_safe),
            b64_digit((b[0] % 4) * 16 + b[1] / 16, url_safe),
            b64_digit((b[1] % 16) * 4 + b[2] / 64, url_safe),
            b64_digit(b[2] as int % 64, url_safe),
        ] + b64_encode(b.skip(3), url_safe, pad)
    }
}

/// `base64::engine::general_purpose::STANDARD.encode`: the standard alphabet
/// (`+/`) with `=` padding. The crate panics only when the encoded length
/// overflows `usize`, which the bound on the input leaves out.
#[verifier::external_body]
pub(crate) fn base64_standard(data: &[u8]) -> (r: String)
    requires
        data@.len() <= usize::MAX / 2,
    ensures
        r@ == b64_encode(data@, false, true),
{
    base64::Engine::encode(&base64::engine::general_purpose::STANDARD, data)
}

/// `base64::engine::general_purpose::URL_SAFE_NO_PAD.encode`: the URL-safe
/// alphabet (`-_`) without padding.
#[verifier::external_body]
pub(crate) fn base64_url_no_pad(data: &[u8]) -> (r: String)
    requires
        data@.len() <= usize::MAX / 2,
    ensures
        r@ == b64_encode(data@, true, false),
{
    base64::Engine::encode(&base64::engine::general_purpose::URL_SAFE_NO_PAD, data)
}

/// Whether a character is a base64 digit or padding (never a line break).
pub open spec fn is_b64_char(c: char) -> bool {
    ('A' <= c && c <= 'Z') || ('a' <= c && c <= 'z') || ('0' <= c && c <= '9') || c == '+' || c == '/'
        || c == '-' || c == '_' || c == '='
}

proof fn lemma_b64_digit(v: int, url_safe: bool)
    requires
        0 <= v < 64,
    ensures
        is_b64_char(b64_digit(v, url_safe)),
{
}

/// Base64 text consists of base64 digits and padding only.
pub proof fn lemma_b64_chars(b: Seq<u8>, url_safe: bool, pad: bool)
    ensures
        forall|i: int| 0 <= i < b64_encode(b, url_safe, pad).len() ==> is_b64_char(#[trigger] b64_encode(b, url_safe, pad)[i]),
    decreases b.len(),
{
    let e = b64_encode(b, url_safe, pad);
    if b.len() == 1 {
        lemma_b64_digit(b[0] as int / 4, url_safe);
        lemma_b64_digit((b[0] % 4) * 16, url_safe);
    } else if b.len() == 2 {
        lemma_b64_digit(b[0] as int / 4, url_safe);
        lemma_b64_digit((b[0] % 4) * 16 + b[1] / 16, url_safe);
        lemma_b64_digit((b[1] % 16) * 4, url_safe);
    } else if b.len() >= 3 {
        lemma_b64_chars(b.skip(3), url_safe, pad);
        lemma_b64_digit(b[0] as int / 4, url_safe);
        lemma_b64_digit((b[0] % 4) * 16 + b[1] / 16, url_safe);
        lemma_b64_digit((b[1] % 16) * 4 + b[2] / 64, url_safe);
        lemma_b64_digit(b[2] as int % 64, url_safe);
        let rest = b64_encode(b.skip(3), url_safe, pad);
        assert forall|i: int| 0 <= i < e.len() implies is_b64_char(#[trigger] e[i]) by {
            if i >= 4 {
                assert(e[i] == rest[i - 4]);
            }
        }
    }
}

/// The characters of URL-safe base64 without padding: ASCII letters,
/// digits, `-` and `_`.
pub open spec fn is_b64url_char(c: char) -> bool {
    ('A' <= c && c <= 'Z') || ('a' <= c && c <= 'z') || ('0' <= c && c <= '9') || c == '-' || c == '_'
}

/// The 6-bit value of a base64 digit, in either alphabet.
pub open spec fn b64_value(c: char) -> int {
    if 'A' <= c && c <= 'Z' {
        c as int - 65
    } else if 'a' <= c && c <= 'z' {
        c as int - 71
    } else if '0' <= c && c <= '9' {
        c as int + 4
    } else if c == '-' || c == '+' {
        62
    } else {
        63
    }
}

/// Base64 decoding of unpadded text: each group of four digits gives three
/// bytes, a last group of two or three digits gives one or two.
pub open spec fn b64_decode(s: Seq<char>) -> Seq<u8>
    decreases s.len(),
{
    if s.len() < 2 {
        Seq::<u8>::empty()
    } else {
        let v0 = b64_value(s[0]);
        let v1 = b64_value(s[1]);
        let first = seq![(v0 * 4 + v1 / 16) as u8];
        if s.len() == 2 {
            first
        } else {
            let v2 = b64_value(s[2]);
            let two = first.push(((v1 % 16) * 16 + v2 / 4) as u8);
            if s.len() == 3 {
                two
            } else {
                two.push(((v2 % 4) * 64 + b64_value(s[3])) as u8) + b64_decode(s.skip(4))
            }
        }
    }
}

proof fn lemma_b64url_digit(v: int)
    requires
        0 <= v < 64,
    ensures
        is_b64url_char(b64_digit(v, true)),
        b64_value(b64_digit(v, true)) == v,
{
}

/// URL-safe base64 without padding (what Gmail's `raw` field holds) uses only
/// ASCII letters, digits, `-` and `_` (no `=`), and decodes back to the bytes.
pub proof fn lemma_b64url_roundtrip(b: Seq<u8>)
    ensures
        forall|i: int| 0 <= i < b64_encode(b, true, false).len() ==> is_b64url_char(#[trigger] b64_encode(b, true, false)[i]),
        !b64_encode(b, true, false).contains('='),
        b64_decode(b64_encode(b, true, false)) == b,
    decreases b.len(),
{
    let e = b64_encode(b, true, false);
    if b.len() == 0 {
        assert(b =~= Seq::<u8>::empty());
    } else if b.len() == 1 {
        let b0 = b[0] as int;
        lemma_b64url_digit(b0 / 4);
        lemma_b64url_digit((b0 % 4) * 16);
        assert(e =~= seq![b64_digit(b0 / 4, true), b64_digit((b0 % 4) * 16, true)]);
        assert(b0 / 4 * 4 + (b0 % 4) * 16 / 16 == b0);
        assert(b64_decode(e) =~= b);
    } else if b.len() == 2 {
        let b0 = b[0] as int;
        let b1 = b[1] as int;
        lemma_b64url_digit(b0 / 4);
        lemma_b64url_digit((b0 % 4) * 16 + b1 / 16);
        lemma_b64url_digit((b1 % 16) * 4);
        assert(e =~= seq![
            b64_digit(b0 / 4, true),
            b64_digit((b0 % 4) * 16 + b1 / 16, true),
            b64_digit((b1 % 16) * 4, true),
        ]);
        assert(b0 / 4 * 4 + ((b0 % 4) * 16 + b1 / 16) / 16 == b0);
        assert((((b0 % 4) * 16 + b1 / 16) % 16) * 16 + (b1 % 16) * 4 / 4 == b1);
        assert(b64_decode(e) =~= b);
    } else {
        let b0 = b[0] as int;
        let b1 = b[1] as int;
        let b2 = b[2] as int;
        let v0 = b0 / 4;
        let v1 = (b0 % 4) * 16 + b1 / 16;
        let v2 = (b1 % 16) * 4 + b2 / 64;
        let v3 = b2 % 64;
        lemma_b64url_digit(v0);
        lemma_b64url_digit(v1);
        lemma_b64url_digit(v2);
        lemma_b64url_digit(v3);
        lemma_b64url_roundtrip(b.skip(3));
        let rest = b64_encode(b.skip(3), true, false);
        assert(e =~= seq![
            b64_digit(v0, true),
            b64_digit(v1, true),
            b64_digit(v2, true),
            b64_digit(v3, true),
        ] + rest);
        assert(e.skip(4) =~= rest);
        assert(v0 * 4 + v1 / 16 == b0);
        assert((v1 % 16) * 16 + v2 / 4 == b1);
        assert((v2 % 4) * 64 + v3 == b2);
        assert forall|i: int| 0 <= i < e.len() implies is_b64url_char(#[trigger] e[i]) by {
            if i >= 4 {
                assert(e[i] == rest[i - 4]);
            }
        }
        assert(b64_decode(e) =~= seq![b[0], b[1], b[2]] + b.skip(3));
        assert(b =~= seq![b[0], b[1], b[2]] + b.skip(3));
    }
    assert forall|i: int| 0 <= i < e.len() implies is_b64url_char(#[trigger] e[i]) by {}
    if e.contains('=') {
        let k = choose|k: int| 0 <= k < e.len() && e[k] == '=';
        assert(is_b64url_char(e[k]));
    }
}

} // verus!
