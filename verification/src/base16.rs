//! Hexadecimal text.

use crate::text::characters;
use vstd::prelude::*;
use vstd::utf8::*;

verus! {

/// The lowercase digit that stands for `d`.
pub open spec fn hex_digit(d: int) -> char {
    if d < 10 {
        (48 + d) as char
    } else {
        (87 + d) as char
    }
}

/// Whether `c` is one of the characters `0` to `9`, `a` to `f` and `A` to `F`.
pub open spec fn is_hex_digit(c: char) -> bool {
    48 <= c as int <= 57 || 97 <= c as int <= 102 || 65 <= c as int <= 70
}

/// The number that a hexadecimal digit stands for.
pub open spec fn hex_value(c: char) -> int {
    if c as int <= 57 {
        c as int - 48
    } else if c as int <= 70 {
        c as int - 55
    } else {
        c as int - 87
    }
}

/// The text of `bytes`: two lowercase digits for each, the high one first.
pub open spec fn hex_text(bytes: Seq<u8>) -> Seq<char> {
    Seq::new(
        2 * bytes.len(),
        |i: int|
            hex_digit(
                if i % 2 == 0 {
                    bytes[i / 2] as int / 16
                } else {
                    bytes[i / 2] as int % 16
                },
            ),
    )
}

/// Whether `s` is an even number of hexadecimal digits.
pub open spec fn is_hex(s: Seq<char>) -> bool {
    s.len() % 2 == 0 && forall|i: int| 0 <= i < s.len() ==> is_hex_digit(#[trigger] s[i])
}

/// Whether no uppercase hexadecimal digit stands in `s`.
pub open spec fn is_lowercase(s: Seq<char>) -> bool {
    forall|i: int| 0 <= i < s.len() ==> !(65 <= (#[trigger] s[i]) as int <= 70)
}

/// `s` with its uppercase hexadecimal digits in lowercase.
pub open spec fn lowercase(s: Seq<char>) -> Seq<char> {
    Seq::new(
        s.len(),
        |i: int|
            if 65 <= s[i] as int <= 70 {
                (s[i] as int + 32) as char
            } else {
                s[i]
            },
    )
}

/// The bytes that an even number of hexadecimal digits stands for.
pub open spec fn hex_bytes(s: Seq<char>) -> Seq<u8> {
    Seq::new(
        s.len() / 2,
        |i: int| (hex_value(s[2 * i]) * 16 + hex_value(s[2 * i + 1])) as u8,
    )
}

/// What `hex::decode` says of a text that it cannot decode.
pub uninterp spec fn hex_error(s: Seq<char>) -> Seq<char>;

/// Decoding the text of some bytes gives them back.
pub proof fn lemma_decode_encode(bytes: Seq<u8>)
    ensures
        is_hex(hex_text(bytes)),
        is_lowercase(hex_text(bytes)),
        hex_bytes(hex_text(bytes)) == bytes,
{
    let s = hex_text(bytes);
    assert forall|i: int| 0 <= i < s.len() implies is_hex_digit(#[trigger] s[i]) && !(65
        <= s[i] as int <= 70) by {
        let b = bytes[i / 2];
        assert(0 <= b as int / 16 < 16 && 0 <= b as int % 16 < 16);
    }
    assert forall|i: int| 0 <= i < bytes.len() implies hex_bytes(s)[i] == bytes[i] by {
        let b = bytes[i];
        assert((2 * i) / 2 == i && (2 * i + 1) / 2 == i);
        assert((2 * i) % 2 == 0 && (2 * i + 1) % 2 == 1);
        assert(hex_value(s[2 * i]) == b as int / 16);
        assert(hex_value(s[2 * i + 1]) == b as int % 16);
    }
    assert(hex_bytes(s) =~= bytes);
}

/// Encoding what a text decodes to gives the text back in lowercase.
pub proof fn lemma_encode_decode(s: Seq<char>)
    requires
        is_hex(s),
    ensures
        hex_text(hex_bytes(s)) == lowercase(s),
{
    let bytes = hex_bytes(s);
    assert forall|i: int| 0 <= i < s.len() implies hex_text(bytes)[i] == lowercase(s)[i] by {
        let j = i / 2;
        assert(is_hex_digit(s[2 * j]) && is_hex_digit(s[2 * j + 1]));
        let high = hex_value(s[2 * j]);
        let low = hex_value(s[2 * j + 1]);
        assert(bytes[j] == (high * 16 + low) as u8);
        assert(bytes[j] as int / 16 == high && bytes[j] as int % 16 == low);
        assert(i == 2 * j || i == 2 * j + 1);
    }
    assert(hex_text(bytes) =~= lowercase(s));
}

/// Lowercase text stays as it is.
pub proof fn lemma_lowercase(s: Seq<char>)
    requires
        is_lowercase(s),
    ensures
        lowercase(s) == s,
{
    assert(lowercase(s) =~= s);
}

/// Whether a character is a hexadecimal digit.
fn is_digit(c: char) -> (r: bool)
    ensures
        r == is_hex_digit(c),
{
    ('0' <= c && c <= '9') || ('a' <= c && c <= 'f') || ('A' <= c && c <= 'F')
}

/// Whether a text is an even number of hexadecimal digits.
pub fn is_hex_text(s: &str) -> (r: bool)
    ensures
        r == is_hex(s@),
{
    let chars = characters(s);
    let mut i: usize = 0;
    while i < chars.len()
        invariant
            i <= chars.len(),
            chars@ == s@,
            forall|k: int| 0 <= k < i ==> is_hex_digit(#[trigger] s@[k]),
        decreases chars.len() - i,
    {
        if !is_digit(chars[i]) {
            assert(!is_hex_digit(s@[i as int]));
            return false;
        }
        i = i + 1;
    }
    chars.len() % 2 == 0
}

/// Encodes bytes with `hex::encode`, which writes two lowercase digits for each byte.
#[verifier::external_body]
pub(crate) fn encode_hex(bytes: &[u8]) -> (r: String)
    ensures
        r@ == hex_text(bytes@),
{
    hex::encode(bytes)
}

/// Decodes a text with `hex::decode`. It takes an even number of digits in either case and
/// refuses everything else. What it says of a text that it refuses depends on the text alone,
/// and is always the same where the number of bytes is odd.
#[verifier::external_body]
pub(crate) fn decode_hex(s: &str) -> (r: Result<Vec<u8>, String>)
    ensures
        match r {
            Ok(bytes) => is_hex(s@) && bytes@ == hex_bytes(s@),
            Err(e) => !is_hex(s@) && e@ == hex_error(s@) && (encode_utf8(s@).len() % 2 == 1
                ==> e@ == "Odd number of digits"@),
        },
{
    hex::decode(s).map_err(|e| e.to_string())
}

} // verus!
