//! Utility functions: hex conversion and range validation.

use vstd::prelude::*;
use vstd::string::StrSliceExecFns;
use vstd::string::StringExecFns;
use crate::errors::LighterError;

verus! {

/// Whether a character is a hexadecimal digit.
pub open spec fn is_hex_digit(c: char) -> bool {
    ((48 <= c as int && c as int <= 57)  // '0'..'9'
     || (97 <= c as int && c as int <= 102)  // 'a'..'f'
     || (65 <= c as int && c as int <= 70))  // 'A'..'F'

}

/// The value of a hexadecimal digit.
pub open spec fn hex_digit_val(c: char) -> int {
    if 48 <= c as int && c as int <= 57 {
        c as int - 48
    } else if 97 <= c as int && c as int <= 102 {
        c as int - 97 + 10
    } else if 65 <= c as int && c as int <= 70 {
        c as int - 65 + 10
    } else {
        0
    }
}

/// A string decodes as hex: even length, hex digits only.
pub open spec fn hex_ok(s: Seq<char>) -> bool {
    s.len() % 2 == 0 && forall|i: int| 0 <= i < s.len() ==> is_hex_digit(#[trigger] s[i])
}

/// The bytes a hex string decodes to: one byte per digit pair.
pub open spec fn hex_decoded(s: Seq<char>) -> Seq<u8> {
    Seq::new((s.len() / 2) as nat, |i: int| (16 * hex_digit_val(s[2 * i]) + hex_digit_val(
        s[2 * i + 1],
    )) as u8)
}

/// The sixteen lowercase hexadecimal digit characters, in value order.
pub open spec fn hex_digit_chars() -> Seq<char> {
    seq!['0', '1', '2', '3', '4', '5', '6', '7', '8', '9', 'a', 'b', 'c', 'd', 'e', 'f']
}

/// The lowercase hex encoding of a byte sequence: two digits per byte,
/// high digit first.
pub open spec fn hex_encoding(b: Seq<u8>) -> Seq<char> {
    Seq::new(
        (2 * b.len()) as nat,
        |i: int|
            if i % 2 == 0 {
                hex_digit_chars()[b[i / 2] as int / 16]
            } else {
                hex_digit_chars()[b[i / 2] as int % 16]
            },
    )
}

/// The input with a leading `0x` or `0X` removed, if it carries one.
pub open spec fn strip_hex_prefix(s: Seq<char>) -> Seq<char> {
    if s.len() >= 2 && s[0] == '0' && (s[1] == 'x' || s[1] == 'X') {
        s.subrange(2, s.len() as int)
    } else {
        s
    }
}

/// Relies on `hex::decode`: one byte per pair of hex digits; it fails
/// exactly on an odd length or a character that is not a hex digit.
#[verifier::external_body]
fn hex_decode_str(s: &str) -> (r: Result<Vec<u8>, hex::FromHexError>)
    ensures
        r is Ok <==> hex_ok(s@),
        r matches Ok(v) ==> v@ == hex_decoded(s@),
{
    hex::decode(s)
}

/// Relies on `hex::encode`: two lowercase hex digits per byte.
#[verifier::external_body]
fn hex_encode_bytes(bytes: &[u8]) -> (r: String)
    ensures
        r@ == hex_encoding(bytes@),
{
    hex::encode(bytes)
}

/// Convert a hex string to bytes, accepting an optional `0x`/`0X`
/// prefix. Fails exactly when the remainder is not well-formed hex.
pub fn hex_to_bytes(hex_str: &str) -> (r: Result<Vec<u8>, LighterError>)
    ensures
        r is Ok <==> hex_ok(strip_hex_prefix(hex_str@)),
        r matches Ok(v) ==> v@ == hex_decoded(strip_hex_prefix(hex_str@)),
        r matches Err(e) ==> e is HexParseError,
{
    let n = hex_str.unicode_len();
    let stripped: &str = if n >= 2 {
        let c0 = hex_str.get_char(0);
        let c1 = hex_str.get_char(1);
        if c0 == '0' && (c1 == 'x' || c1 == 'X') {
            hex_str.substring_char(2, n)
        } else {
            hex_str
        }
    } else {
        hex_str
    };
    proof {
        assert(stripped@ == strip_hex_prefix(hex_str@));
    }
    match hex_decode_str(stripped) {
        Ok(v) => Ok(v),
        Err(e) => Err(LighterError::HexParseError(e)),
    }
}

/// Convert bytes to a lowercase hex string with a `0x` prefix.
pub fn bytes_to_hex(bytes: &[u8]) -> (r: String)
    ensures
        r@ == "0x"@ + hex_encoding(bytes@),
{
    let mut s = String::from_str("0x");
    let encoded = hex_encode_bytes(bytes);
    s.append(encoded.as_str());
    s
}

/// Convert bytes to a lowercase hex string without a prefix.
pub fn bytes_to_hex_no_prefix(bytes: &[u8]) -> (r: String)
    ensures
        r@ == hex_encoding(bytes@),
{
    hex_encode_bytes(bytes)
}

/// Validate that a value lies in a closed range; the error names the
/// offending field.
pub fn validate_range(value: i64, min: i64, max: i64, field_name: &str) -> (r: Result<
    (),
    LighterError,
>)
    ensures
        r is Ok <==> (min <= value <= max),
        r matches Err(e) ==> (e matches LighterError::Other(msg) && msg@ == field_name@),
{
    if value < min || value > max {
        return Err(LighterError::Other(field_name.to_owned()));
    }
    Ok(())
}

} // verus!
