//! Hexadecimal text: what it means, and the calls that produce and read it.

use vstd::prelude::*;
use vstd::utf8::{encode_utf8, is_ascii_chars, is_ascii_chars_encode_utf8};

verus! {

/// Why a text is not the hexadecimal form of a byte string.
#[derive(Clone, Copy, Debug, PartialEq, Eq, Structural)]
pub enum HexError {
    /// The byte at `index`, shown as `c`, is not a hexadecimal digit.
    InvalidHexCharacter { c: char, index: usize },
    /// The text has an odd number of bytes.
    OddLength,
    /// The text does not have the length that a fixed-size target asks for.
    InvalidStringLength,
}

/// The lower-case digit that stands for `n`, for `n` from 0 to 15.
pub open spec fn hex_digit(n: int) -> char {
    if n < 10 {
        (0x30 + n) as u8 as char
    } else {
        (0x61 + n - 10) as u8 as char
    }
}

/// The number that the digit `b` stands for, in either case.
pub open spec fn hex_value(b: u8) -> Option<int> {
    if 0x30 <= b <= 0x39 {
        Some(b - 0x30)
    } else if 0x61 <= b <= 0x66 {
        Some(b - 0x61 + 10)
    } else if 0x41 <= b <= 0x46 {
        Some(b - 0x41 + 10)
    } else {
        None
    }
}

/// Every byte of `text` is a hexadecimal digit.
pub open spec fn all_hex_digits(text: Seq<u8>) -> bool {
    forall|i: int| 0 <= i < text.len() ==> (#[trigger] hex_value(text[i])) is Some
}

/// `i` is the place of the first byte of `text` that is no hexadecimal digit.
pub open spec fn is_first_bad_digit(text: Seq<u8>, i: int) -> bool {
    &&& 0 <= i < text.len()
    &&& hex_value(text[i]) is None
    &&& forall|j: int| 0 <= j < i ==> (#[trigger] hex_value(text[j])) is Some
}

/// The lower-case hexadecimal text of `bytes`: two digits for each byte, the
/// high half first.
pub open spec fn hex_encoding(bytes: Seq<u8>) -> Seq<char> {
    Seq::new(
        2 * bytes.len(),
        |i: int|
            if i % 2 == 0 {
                hex_digit(bytes[i / 2] as int / 16)
            } else {
                hex_digit(bytes[i / 2] as int % 16)
            },
    )
}

/// The bytes that a text of hexadecimal digits of even length stands for.
pub open spec fn hex_bytes(text: Seq<u8>) -> Seq<u8> {
    Seq::new(
        text.len() / 2,
        |k: int| (hex_value(text[2 * k]).unwrap() * 16 + hex_value(text[2 * k + 1]).unwrap()) as u8,
    )
}

/// What decoding `text` gives: the bytes, or the first reason why there are none.
pub open spec fn hex_decoding(text: Seq<u8>) -> Result<Seq<u8>, HexError> {
    if text.len() % 2 != 0 {
        Err(HexError::OddLength)
    } else if all_hex_digits(text) {
        Ok(hex_bytes(text))
    } else {
        let i = choose|i: int| is_first_bad_digit(text, i);
        Err(HexError::InvalidHexCharacter { c: text[i] as char, index: i as usize })
    }
}

/// `text` consists of lower-case hexadecimal digits only.
pub open spec fn is_lower_hex(text: Seq<char>) -> bool {
    forall|i: int|
        0 <= i < text.len() ==> exists|n: int| 0 <= n < 16 && #[trigger] text[i] == hex_digit(n)
}

/// Calls `hex::encode`. The contract restates the crate's two-digit, lower-case
/// table lookup: the result is the hexadecimal text of `bytes`.
#[verifier::external_body]
pub(crate) fn encode_hex(bytes: &[u8]) -> (text: String)
    ensures
        text@ == hex_encoding(bytes@),
{
    hex::encode(bytes)
}

/// Calls `hex::decode`. The contract restates the crate's rules: a text of odd
/// length is refused as such, otherwise the first byte that is no digit is
/// reported with its place, otherwise each pair of digits gives one byte.
#[verifier::external_body]
pub(crate) fn decode_hex(text: &[u8]) -> (decoded: Result<Vec<u8>, HexError>)
    ensures
        match decoded {
            Ok(bytes) => hex_decoding(text@) == Ok::<Seq<u8>, HexError>(bytes@),
            Err(e) => hex_decoding(text@) == Err::<Seq<u8>, HexError>(e),
        },
{
    match hex::decode(text) {
        Ok(bytes) => Ok(bytes),
        Err(hex::FromHexError::InvalidHexCharacter { c, index }) => Err(
            HexError::InvalidHexCharacter { c, index },
        ),
        Err(hex::FromHexError::OddLength) => Err(HexError::OddLength),
        Err(hex::FromHexError::InvalidStringLength) => Err(HexError::InvalidStringLength),
    }
}

/// The text that `hex_encoding` gives has two digits for each byte, all of them
/// lower-case hexadecimal digits, and decodes to the bytes it was made from.
pub proof fn lemma_encoding_decodes(bytes: Seq<u8>)
    ensures
        hex_encoding(bytes).len() == 2 * bytes.len(),
        is_lower_hex(hex_encoding(bytes)),
        is_ascii_chars(hex_encoding(bytes)),
        hex_decoding(encode_utf8(hex_encoding(bytes))) == Ok::<Seq<u8>, HexError>(bytes),
{
    let text = hex_encoding(bytes);
    assert forall|i: int| 0 <= i < text.len() implies exists|n: int|
        0 <= n < 16 && #[trigger] text[i] == hex_digit(n) by {
        let n = if i % 2 == 0 {
            bytes[i / 2] as int / 16
        } else {
            bytes[i / 2] as int % 16
        };
        assert(0 <= n < 16 && text[i] == hex_digit(n));
    }
    assert(is_ascii_chars(text));
    is_ascii_chars_encode_utf8(text);
    let raw = encode_utf8(text);
    assert forall|i: int| 0 <= i < raw.len() implies (#[trigger] hex_value(raw[i])) is Some by {
        assert(raw[i] == text[i] as u8);
    }
    assert forall|k: int| 0 <= k < bytes.len() implies #[trigger] hex_bytes(raw)[k] == bytes[k] by {
        assert(raw[2 * k] == text[2 * k] as u8);
        assert(raw[2 * k + 1] == text[2 * k + 1] as u8);
        let hi = bytes[k] as int / 16;
        let lo = bytes[k] as int % 16;
        assert(hex_value(raw[2 * k]) == Some(hi));
        assert(hex_value(raw[2 * k + 1]) == Some(lo));
    }
    assert(hex_bytes(raw) =~= bytes);
}

/// Two texts of digits that agree everywhere but at one place, where their
/// digits stand for different numbers, stand for different byte strings.
pub proof fn lemma_altered_digit_alters_bytes(text: Seq<u8>, altered: Seq<u8>, at: int)
    requires
        text.len() % 2 == 0,
        altered.len() == text.len(),
        all_hex_digits(text),
        all_hex_digits(altered),
        0 <= at < text.len(),
        forall|i: int| 0 <= i < text.len() && i != at ==> text[i] == altered[i],
        hex_value(text[at]) != hex_value(altered[at]),
    ensures
        hex_decoding(text) is Ok,
        hex_decoding(altered) is Ok,
        hex_decoding(text) != hex_decoding(altered),
        hex_decoding(altered)->Ok_0.len() == hex_decoding(text)->Ok_0.len(),
{
    let k = at / 2;
    let a = hex_bytes(text);
    let b = hex_bytes(altered);
    assert(hex_value(text[2 * k]) is Some && hex_value(text[2 * k + 1]) is Some);
    assert(hex_value(altered[2 * k]) is Some && hex_value(altered[2 * k + 1]) is Some);
    assert(a[k] != b[k]) by {
        if at % 2 == 0 {
            assert(text[2 * k + 1] == altered[2 * k + 1]);
        } else {
            assert(text[2 * k] == altered[2 * k]);
        }
    }
}

} // verus!
