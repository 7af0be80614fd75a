//! Digests and encodings that other crates and the standard library compute.
//!
//! Every function here that reaches outside states exactly what is relied on;
//! nothing beyond those statements is used anywhere.

use sha2::Digest;
use vstd::prelude::*;
use vstd::string::*;
use vstd::utf8::*;

use crate::text;

verus! {

/// The SHA-256 digest of a message.
pub uninterp spec fn sha256_of(message: Seq<u8>) -> [u8; 32];

/// `sha2::Sha256::digest`: the digest of `message`, a function of its bytes
/// alone.
#[verifier::external_body]
pub(crate) fn sha256(message: &[u8]) -> (digest: [u8; 32])
    ensures
        digest == sha256_of(message@),
{
    sha2::Sha256::digest(message).into()
}

/// The lowercase hexadecimal digit for a value below sixteen.
pub open spec fn hex_digit(n: int) -> char {
    if n < 10 {
        (48 + n) as char
    } else {
        (87 + n) as char
    }
}

/// Bytes in lowercase hexadecimal, two digits each, high digit first.
pub open spec fn hex_of(bytes: Seq<u8>) -> Seq<char> {
    Seq::new(
        2 * bytes.len(),
        |i: int|
            if i % 2 == 0 {
                hex_digit(bytes[i / 2] as int / 16)
            } else {
                hex_digit(bytes[i / 2] as int % 16)
            },
    )
}

/// `hex::encode`: two lowercase hexadecimal digits for each byte, in order.
#[verifier::external_body]
pub(crate) fn hex_text(bytes: &[u8]) -> (text: String)
    ensures
        text@ == hex_of(bytes@),
{
    hex::encode(bytes)
}

/// The SHA-256 digest of a message in lowercase hexadecimal.
pub open spec fn sha256_hex_of(message: Seq<u8>) -> Seq<char> {
    hex_of(sha256_of(message)@)
}

/// Digest `message` and write the digest in lowercase hexadecimal.
pub fn sha256_hex(message: &[u8]) -> (text: String)
    ensures
        text@ == sha256_hex_of(message@),
{
    let digest = sha256(message);
    hex_text(digest.as_slice())
}

/// Whether `c` is a lowercase hexadecimal digit.
pub open spec fn is_lower_hex(c: char) -> bool {
    '0' <= c <= '9' || 'a' <= c <= 'f'
}

/// Whether every character of `text` is a lowercase hexadecimal digit.
pub open spec fn all_lower_hex(text: Seq<char>) -> bool {
    forall|i: int| 0 <= i < text.len() ==> is_lower_hex(#[trigger] text[i])
}

/// Test for [`all_lower_hex`], together with the number of digits.
pub fn lower_hex_len(text: &str) -> (r: Option<usize>)
    ensures
        r is Some <==> all_lower_hex(text@),
        r matches Some(n) ==> n == text@.len(),
{
    let chars = text::text_chars(text);
    let mut i: usize = 0;
    while i < chars.len()
        invariant
            chars@ == text@,
            i <= chars.len(),
            forall|j: int| 0 <= j < i ==> is_lower_hex(#[trigger] text@[j]),
        decreases chars.len() - i,
    {
        let c = chars[i];
        if !(('0' <= c && c <= '9') || ('a' <= c && c <= 'f')) {
            assert(!is_lower_hex(text@[i as int]));
            return None;
        }
        i += 1;
    }
    Some(chars.len())
}

/// Hexadecimal text holds nothing but lowercase digits.
pub proof fn lemma_hex_of_is_lower(bytes: Seq<u8>)
    ensures
        all_lower_hex(hex_of(bytes)),
        hex_of(bytes).len() == 2 * bytes.len(),
{
    assert forall|i: int| 0 <= i < hex_of(bytes).len() implies is_lower_hex(
        #[trigger] hex_of(bytes)[i],
    ) by {
        let b = bytes[i / 2] as int;
        assert(0 <= b / 16 < 16 && 0 <= b % 16 < 16);
    }
}

/// The value of a lowercase hexadecimal digit.
pub open spec fn hex_digit_value(c: char) -> int {
    if c <= '9' {
        c as u32 - 48
    } else {
        c as u32 - 87
    }
}

/// The bytes that a row of lowercase hexadecimal digits stands for.
pub open spec fn unhex(text: Seq<char>) -> Seq<u8> {
    Seq::new(
        text.len() / 2,
        |i: int| (16 * hex_digit_value(text[2 * i]) + hex_digit_value(text[2 * i + 1])) as u8,
    )
}

/// Reading hexadecimal text gives back the bytes it was written from.
pub proof fn lemma_unhex_of_hex(bytes: Seq<u8>)
    ensures
        unhex(hex_of(bytes)) == bytes,
{
    let text = hex_of(bytes);
    assert forall|i: int| 0 <= i < bytes.len() implies #[trigger] unhex(text)[i] == bytes[i] by {
        let b = bytes[i] as int;
        assert((2 * i) / 2 == i && (2 * i) % 2 == 0);
        assert((2 * i + 1) / 2 == i && (2 * i + 1) % 2 == 1);
        assert(0 <= b / 16 < 16 && 0 <= b % 16 < 16);
        assert(hex_digit_value(text[2 * i]) == b / 16);
        assert(hex_digit_value(text[2 * i + 1]) == b % 16);
    }
    assert(unhex(text) =~= bytes);
}

/// Writing what lowercase hexadecimal text stands for gives back that text.
pub proof fn lemma_hex_of_unhex(text: Seq<char>)
    requires
        all_lower_hex(text),
        text.len() % 2 == 0,
    ensures
        hex_of(unhex(text)) == text,
{
    let bytes = unhex(text);
    assert forall|i: int| 0 <= i < text.len() implies #[trigger] hex_of(bytes)[i] == text[i] by {
        let k = i / 2;
        assert(is_lower_hex(text[2 * k]) && is_lower_hex(text[2 * k + 1]));
        let h = hex_digit_value(text[2 * k]);
        let l = hex_digit_value(text[2 * k + 1]);
        assert(0 <= h < 16 && 0 <= l < 16);
        assert(bytes[k] as int == 16 * h + l);
        assert((16 * h + l) / 16 == h && (16 * h + l) % 16 == l);
        assert(hex_digit(h) == text[2 * k]);
        assert(hex_digit(l) == text[2 * k + 1]);
        if i % 2 == 0 {
            assert(i == 2 * k);
        } else {
            assert(i == 2 * k + 1);
        }
    }
    assert(hex_of(bytes) =~= text);
}

/// Read lowercase hexadecimal text; `None` where it is not such text or holds
/// an odd number of digits.
pub fn unhex_text(text: &str) -> (r: Option<Vec<u8>>)
    ensures
        r is Some <==> all_lower_hex(text@) && text@.len() % 2 == 0,
        r matches Some(bytes) ==> bytes@ == unhex(text@),
{
    match lower_hex_len(text) {
        None => {
            return None;
        },
        Some(n) => {
            if n % 2 != 0 {
                return None;
            }
        },
    }
    let chars = text::text_chars(text);
    let mut bytes: Vec<u8> = Vec::new();
    let mut k: usize = 0;
    let half: usize = chars.len() / 2;
    while k < half
        invariant
            chars@ == text@,
            all_lower_hex(text@),
            half == chars.len() / 2,
            k <= half,
            bytes@ == unhex(text@).take(k as int),
        decreases half - k,
    {
        let high = chars[2 * k];
        let low = chars[2 * k + 1];
        assert(is_lower_hex(text@[2 * k]) && is_lower_hex(text@[2 * k + 1]));
        let h: u32 = if high <= '9' {
            high as u32 - 48
        } else {
            high as u32 - 87
        };
        let l: u32 = if low <= '9' {
            low as u32 - 48
        } else {
            low as u32 - 87
        };
        assert(h < 16 && l < 16);
        let b: u8 = (16 * h + l) as u8;
        bytes.push(b);
        proof {
            assert(unhex(text@)[k as int] == b);
            assert(unhex(text@).take(k + 1) == unhex(text@).take(k as int).push(b));
        }
        k += 1;
    }
    proof {
        assert(unhex(text@).take(half as int) == unhex(text@));
    }
    Some(bytes)
}

/// `String::from_utf8`: the text that `bytes` encode, exactly where they are
/// valid UTF-8.
#[verifier::external_body]
pub(crate) fn utf8_text(bytes: Vec<u8>) -> (text: Option<String>)
    ensures
        text is Some <==> valid_utf8(bytes@),
        text matches Some(t) ==> encode_utf8(t@) == bytes@,
{
    String::from_utf8(bytes).ok()
}

/// The text that stands for possibly ill-formed UTF-8 in messages.
pub uninterp spec fn lossy_text_of(bytes: Seq<u8>) -> Seq<char>;

/// `String::from_utf8_lossy`: well-formed UTF-8 comes back unchanged, and what
/// is ill-formed is replaced; a function of the bytes alone.
#[verifier::external_body]
pub(crate) fn lossy_text(bytes: &[u8]) -> (text: String)
    ensures
        text@ == lossy_text_of(bytes@),
        valid_utf8(bytes@) ==> encode_utf8(text@) == bytes@,
{
    String::from_utf8_lossy(bytes).into_owned()
}

/// The quoted, escaped form of a text that diagnostics use.
pub uninterp spec fn quoted_text_of(text: Seq<char>) -> Seq<char>;

/// `str`'s `Debug` form: `text` in quotation marks with special characters
/// escaped; a function of the text alone.
#[verifier::external_body]
pub(crate) fn quoted_text(text: &str) -> (quoted: String)
    ensures
        quoted@ == quoted_text_of(text@),
{
    format!("{:?}", text)
}

/// The encoding determines the text.
pub proof fn lemma_encode_utf8_injective(a: Seq<char>, b: Seq<char>)
    requires
        encode_utf8(a) == encode_utf8(b),
    ensures
        a == b,
{
    encode_utf8_decode_utf8(a);
    encode_utf8_decode_utf8(b);
}

} // verus!
