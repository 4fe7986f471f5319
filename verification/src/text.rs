//! Bytes as text and as decimal numbers.
//!
//! Text is UTF-8, read strictly or with replacement of what is malformed, or
//! EUC-KR. A number is ASCII decimal with an optional sign. What is stated
//! here of the standard library's conversions and of the decoder of
//! `encoding_rs` is believed, not proved; the rest is proved from it.

use encoding_rs::EUC_KR;
use vstd::prelude::*;
use vstd::string::StringSliceAdditionalSpecFns;
use vstd::utf8::{
    decode_utf8, decode_utf8_encode_utf8, encode_utf8, encode_utf8_decode_utf8,
    encode_utf8_valid_utf8, is_ascii_chars, is_ascii_chars_encode_utf8, valid_utf8,
};

verus! {

/// The character that lossy decoding puts in place of malformed input.
pub open spec fn replacement_character() -> char {
    '\u{FFFD}'
}

/// The text that `bytes` encode, where they are well-formed UTF-8.
pub open spec fn utf8_text(bytes: Seq<u8>) -> Option<Seq<char>> {
    if valid_utf8(bytes) {
        Some(decode_utf8(bytes))
    } else {
        None
    }
}

pub open spec fn is_digit(b: u8) -> bool {
    '0' as u8 <= b <= '9' as u8
}

pub open spec fn all_digits(digits: Seq<u8>) -> bool {
    forall|i: int| 0 <= i < digits.len() ==> is_digit(#[trigger] digits[i])
}

/// The number that a run of ASCII digits spells in base ten.
pub open spec fn digits_value(digits: Seq<u8>) -> int
    decreases digits.len(),
{
    if digits.len() == 0 {
        0
    } else {
        digits_value(digits.drop_last()) * 10 + (digits.last() - '0' as u8)
    }
}

pub open spec fn is_sign(b: u8) -> bool {
    b == '-' as u8 || b == '+' as u8
}

/// The integer that `text` spells: an optional `+` or `-`, then one or more
/// ASCII digits and nothing else. `None` for any other text.
pub open spec fn decimal_int(text: Seq<u8>) -> Option<int> {
    let signed = text.len() > 0 && is_sign(text[0]);
    let digits = if signed {
        text.drop_first()
    } else {
        text
    };
    if digits.len() > 0 && all_digits(digits) {
        if signed && text[0] == '-' as u8 {
            Some(-digits_value(digits))
        } else {
            Some(digits_value(digits))
        }
    } else {
        None
    }
}

/// The integer that `text` spells, where it is within the range of `i32`.
pub open spec fn decimal_i32(text: Seq<u8>) -> Option<i32> {
    match decimal_int(text) {
        Some(v) => if i32::MIN <= v <= i32::MAX {
            Some(v as i32)
        } else {
            None
        },
        None => None,
    }
}

pub open spec fn all_ascii(bytes: Seq<u8>) -> bool {
    forall|i: int| 0 <= i < bytes.len() ==> #[trigger] bytes[i] < 0x80
}

/// `String::from_utf8`: the text is returned where the bytes are well-formed
/// UTF-8, and only there; it is then the text that they encode.
#[verifier::external_body]
pub(crate) fn decode_text(bytes: &[u8]) -> (res: Option<String>)
    ensures
        res is Some <==> valid_utf8(bytes@),
        res matches Some(text) ==> text@ == decode_utf8(bytes@),
{
    String::from_utf8(bytes.to_vec()).ok()
}

/// `String::from_utf8_lossy`: well-formed UTF-8 is decoded as it stands;
/// malformed input leaves at least one replacement character in the text.
#[verifier::external_body]
pub(crate) fn decode_text_lossy(bytes: &[u8]) -> (res: String)
    ensures
        valid_utf8(bytes@) ==> res@ == decode_utf8(bytes@),
        !valid_utf8(bytes@) ==> res@.contains(replacement_character()),
{
    String::from_utf8_lossy(bytes).into_owned()
}

/// `str::parse::<i32>`: the number is returned where the bytes of the text
/// are an optional sign and one or more ASCII digits, and the value fits.
#[verifier::external_body]
pub(crate) fn parse_i32(text: &str) -> (res: Option<i32>)
    ensures
        res == decimal_i32(text.spec_bytes()),
{
    text.parse::<i32>().ok()
}

/// The characters that count as white space: those with the Unicode
/// property `White_Space`.
pub open spec fn is_white_space(c: char) -> bool {
    let code = c as u32;
    ||| 0x09 <= code <= 0x0D
    ||| code == 0x20
    ||| code == 0x85
    ||| code == 0xA0
    ||| code == 0x1680
    ||| 0x2000 <= code <= 0x200A
    ||| code == 0x2028
    ||| code == 0x2029
    ||| code == 0x202F
    ||| code == 0x205F
    ||| code == 0x3000
}

/// `text` without the white space that it opens with.
pub open spec fn trimmed_start(text: Seq<char>) -> Seq<char>
    decreases text.len(),
{
    if text.len() > 0 && is_white_space(text.first()) {
        trimmed_start(text.drop_first())
    } else {
        text
    }
}

/// `text` without the white space that it ends with.
pub open spec fn trimmed_end(text: Seq<char>) -> Seq<char>
    decreases text.len(),
{
    if text.len() > 0 && is_white_space(text.last()) {
        trimmed_end(text.drop_last())
    } else {
        text
    }
}

/// `text` without the white space at its two ends.
pub open spec fn trimmed(text: Seq<char>) -> Seq<char> {
    trimmed_end(trimmed_start(text))
}

/// The text in which each byte stands for the character of the same number.
pub open spec fn bytes_as_chars(bytes: Seq<u8>) -> Seq<char> {
    bytes.map_values(|b: u8| b as char)
}

/// The text that `encoding_rs` decodes `bytes` to as EUC-KR.
pub uninterp spec fn euc_kr_text(bytes: Seq<u8>) -> Seq<char>;

/// The largest input that can be decoded: the decoder sets aside several
/// times the length of its input.
pub open spec fn decodable_len() -> int {
    (usize::MAX / 8) as int
}

/// `Encoding::decode` on `EUC_KR`: the text that the bytes decode to. The
/// decoder does not return where the size of its buffer cannot be held in
/// `usize`.
#[verifier::external_body]
pub(crate) fn decode_euc_kr(bytes: &[u8]) -> (res: String)
    requires
        bytes@.len() <= decodable_len(),
    ensures
        res@ == euc_kr_text(bytes@),
{
    EUC_KR.decode(bytes).0.into_owned()
}

/// `str::trim`: the text without the white space at its two ends, where
/// white space is what Unicode calls so.
#[verifier::external_body]
pub(crate) fn trim(text: &str) -> (res: &str)
    ensures
        res@ == trimmed(text@),
{
    text.trim()
}

/// `String::push`: the character is added at the end.
#[verifier::external_body]
pub(crate) fn push_char(text: &mut String, c: char)
    ensures
        final(text)@ == old(text)@.push(c),
{
    text.push(c)
}

/// ASCII bytes are well-formed UTF-8, and each byte encodes one character.
pub proof fn lemma_ascii_is_utf8(bytes: Seq<u8>)
    requires
        all_ascii(bytes),
    ensures
        valid_utf8(bytes),
        decode_utf8(bytes) == bytes_as_chars(bytes),
        is_ascii_chars(decode_utf8(bytes)),
{
    let chars = bytes_as_chars(bytes);
    assert(is_ascii_chars(chars));
    is_ascii_chars_encode_utf8(chars);
    assert(encode_utf8(chars) =~= bytes);
    encode_utf8_valid_utf8(chars);
    encode_utf8_decode_utf8(chars);
}

/// Text whose encoding is all ASCII holds ASCII characters only.
pub proof fn lemma_ascii_encoding(chars: Seq<char>)
    requires
        all_ascii(encode_utf8(chars)),
    ensures
        is_ascii_chars(chars),
{
    lemma_ascii_is_utf8(encode_utf8(chars));
    encode_utf8_decode_utf8(chars);
}

/// Bytes that spell a number are ASCII.
pub proof fn lemma_decimal_is_ascii(text: Seq<u8>)
    requires
        decimal_int(text) is Some,
    ensures
        all_ascii(text),
{
    let signed = text.len() > 0 && is_sign(text[0]);
    let digits = if signed {
        text.drop_first()
    } else {
        text
    };
    assert forall|i: int| 0 <= i < text.len() implies #[trigger] text[i] < 0x80 by {
        if signed {
            if i > 0 {
                assert(is_digit(digits[i - 1]));
            }
        } else {
            assert(is_digit(digits[i]));
        }
    }
}

/// Ten to the power of `n`.
pub open spec fn pow10(n: nat) -> int
    decreases n,
{
    if n == 0 {
        1
    } else {
        10 * pow10((n - 1) as nat)
    }
}

/// The number that `n` digits spell is below ten to the power of `n`.
pub proof fn lemma_digits_value_bound(digits: Seq<u8>)
    requires
        all_digits(digits),
    ensures
        0 <= digits_value(digits) < pow10(digits.len()),
    decreases digits.len(),
{
    if digits.len() > 0 {
        let front = digits.drop_last();
        assert forall|i: int| 0 <= i < front.len() implies is_digit(#[trigger] front[i]) by {
            assert(front[i] == digits[i]);
        }
        lemma_digits_value_bound(front);
        assert(is_digit(digits.last()));
    }
}

/// Up to nine digits without a sign always spell a number that fits in
/// `i32`.
pub proof fn lemma_short_numbers_fit(digits: Seq<u8>)
    requires
        all_digits(digits),
        0 < digits.len() <= 9,
    ensures
        decimal_i32(digits) == Some(digits_value(digits) as i32),
{
    lemma_digits_value_bound(digits);
    reveal_with_fuel(pow10, 10);
    assert(pow10(digits.len()) <= pow10(9));
    assert(is_digit(digits[0]));
}

/// The number that `bytes` spell in ASCII decimal, where they spell one that
/// fits in `i32`. Malformed UTF-8 spells none.
pub fn parse_decimal(bytes: &[u8]) -> (res: Option<i32>)
    ensures
        res == decimal_i32(bytes@),
{
    let text = decode_text_lossy(bytes);
    let res = parse_i32(text.as_str());
    proof {
        if valid_utf8(bytes@) {
            decode_utf8_encode_utf8(bytes@);
        } else {
            if decimal_int(encode_utf8(text@)) is Some {
                lemma_decimal_is_ascii(encode_utf8(text@));
                lemma_ascii_encoding(text@);
            }
            if decimal_int(bytes@) is Some {
                lemma_decimal_is_ascii(bytes@);
                lemma_ascii_is_utf8(bytes@);
            }
        }
    }
    res
}

} // verus!
