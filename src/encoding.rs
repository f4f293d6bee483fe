//! Textual encodings of byte strings (hexadecimal, Base64) and digests.
use vstd::prelude::*;

verus! {

/// The sixteen lowercase hexadecimal digits, in order of value.
pub open spec fn lower_digits() -> Seq<char> {
    seq!['0', '1', '2', '3', '4', '5', '6', '7', '8', '9', 'a', 'b', 'c', 'd', 'e', 'f']
}

/// The sixteen uppercase hexadecimal digits, in order of value.
pub open spec fn upper_digits() -> Seq<char> {
    seq!['0', '1', '2', '3', '4', '5', '6', '7', '8', '9', 'A', 'B', 'C', 'D', 'E', 'F']
}

/// Two digits per byte, high nibble first, taken from `digits`.
pub open spec fn hex_with(digits: Seq<char>, b: Seq<u8>) -> Seq<char> {
    Seq::new(
        2 * b.len(),
        |i: int|
            if i % 2 == 0 {
                digits[b[i / 2] as int / 16]
            } else {
                digits[b[i / 2] as int % 16]
            },
    )
}

/// Lowercase hexadecimal text of a byte string.
pub open spec fn lower_hex(b: Seq<u8>) -> Seq<char> {
    hex_with(lower_digits(), b)
}

/// Uppercase hexadecimal text of a byte string.
pub open spec fn upper_hex(b: Seq<u8>) -> Seq<char> {
    hex_with(upper_digits(), b)
}

/// A hexadecimal digit of either case.
pub open spec fn is_hex_char(c: char) -> bool {
    let x = c as u32;
    (48 <= x <= 57) || (65 <= x <= 70) || (97 <= x <= 102)
}

/// Value of a hexadecimal digit of either case.
pub open spec fn hex_value(c: char) -> int {
    let x = c as u32;
    if x <= 57 {
        x - 48
    } else if x <= 70 {
        x - 55
    } else {
        x - 87
    }
}

/// Text that decodes as hexadecimal: an even number of hexadecimal digits.
pub open spec fn is_hex_text(s: Seq<char>) -> bool {
    s.len() % 2 == 0 && forall|i: int| 0 <= i < s.len() ==> is_hex_char(#[trigger] s[i])
}

/// The bytes that hexadecimal text stands for, two digits per byte.
pub open spec fn hex_decoded(s: Seq<char>) -> Seq<u8> {
    Seq::new(s.len() / 2, |i: int| (hex_value(s[2 * i]) * 16 + hex_value(s[2 * i + 1])) as u8)
}

/// What `md5::compute` returns on a byte string: its 16-byte MD5 digest.
pub uninterp spec fn md5_of(data: Seq<u8>) -> Seq<u8>;

/// What the standard Base64 engine decodes a text into, if it accepts it.
pub uninterp spec fn base64_decoded(s: Seq<char>) -> Option<Seq<u8>>;

/// Relies on `<Vec<u8> as hex::FromHex>::from_hex`: odd length and any byte
/// outside `0-9a-fA-F` are errors; otherwise each pair of digits is one byte.
#[verifier::external_body]
fn hex_to_bytes(s: &str) -> (r: Result<Vec<u8>, String>)
    ensures
        r is Ok <==> is_hex_text(s@),
        r matches Ok(v) ==> v@ == hex_decoded(s@),
{
    <Vec<u8> as hex::FromHex>::from_hex(s).map_err(|e| e.to_string())
}

/// Relies on `hex::encode`: two lowercase digits per byte, high nibble first.
#[verifier::external_body]
pub(crate) fn bytes_to_hex(b: &[u8]) -> (r: String)
    ensures
        r@ == lower_hex(b@),
{
    hex::encode(b)
}

/// Relies on `md5::compute` for the digest and on the `UpperHex` impl of
/// `md5::Digest`, which writes each of its 16 bytes as two uppercase digits.
#[verifier::external_body]
pub(crate) fn md5_upper_hex(data: &[u8]) -> (r: String)
    ensures
        r@ == upper_hex(md5_of(data@)),
        r@.len() == 32,
{
    format!("{:X}", md5::compute(data))
}

/// Relies on `base64::engine::general_purpose::STANDARD.decode`, which
/// accepts padded standard-alphabet Base64 and rejects anything else.
#[verifier::external_body]
fn base64_to_bytes(s: &str) -> (r: Result<Vec<u8>, String>)
    ensures
        r is Ok <==> base64_decoded(s@) is Some,
        r matches Ok(v) ==> base64_decoded(s@) == Some(v@),
{
    base64::Engine::decode(&base64::engine::general_purpose::STANDARD, s).map_err(|e| e.to_string())
}

/// Message prefix of a rejected hexadecimal text.
pub open spec fn invalid_hex_prefix() -> Seq<char> {
    "输入不是有效的十六进制编码："@
}

/// Message prefix of a rejected Base64 text.
pub open spec fn invalid_base64_prefix() -> Seq<char> {
    "输入不是有效的 Base64 编码："@
}

/// Decodes hexadecimal text (digits of either case) into bytes.
pub fn decode_hex(input: &str) -> (r: Result<Vec<u8>, String>)
    ensures
        r is Ok <==> is_hex_text(input@),
        r matches Ok(v) ==> v@ == hex_decoded(input@),
        r matches Err(m) ==> m@.len() >= invalid_hex_prefix().len()
            && m@.subrange(0, invalid_hex_prefix().len() as int) == invalid_hex_prefix(),
{
    match hex_to_bytes(input) {
        Ok(v) => Ok(v),
        Err(e) => {
            let m = String::from_str("输入不是有效的十六进制编码：").concat(e.as_str());
            assert(m@.subrange(0, invalid_hex_prefix().len() as int) =~= invalid_hex_prefix());
            Err(m)
        },
    }
}

/// Decodes standard padded Base64 text into bytes.
pub fn decode_base64(input: &str) -> (r: Result<Vec<u8>, String>)
    ensures
        r is Ok <==> base64_decoded(input@) is Some,
        r matches Ok(v) ==> base64_decoded(input@) == Some(v@),
        r matches Err(m) ==> m@.len() >= invalid_base64_prefix().len()
            && m@.subrange(0, invalid_base64_prefix().len() as int) == invalid_base64_prefix(),
{
    match base64_to_bytes(input) {
        Ok(v) => Ok(v),
        Err(e) => {
            let m = String::from_str("输入不是有效的 Base64 编码：").concat(e.as_str());
            assert(m@.subrange(0, invalid_base64_prefix().len() as int) =~= invalid_base64_prefix());
            Err(m)
        },
    }
}

} // verus!
