use vstd::prelude::*;
use vstd::utf8::*;

verus! {

/// The text that `String::from_utf8_lossy` makes of some bytes: valid UTF-8
/// decoded, each invalid sequence replaced by U+FFFD.
pub uninterp spec fn utf8_lossy(b: Seq<u8>) -> Seq<char>;

/// Relies on `String::from_utf8_lossy`: the text depends on the bytes alone.
#[verifier::external_body]
pub(crate) fn lossy_string(b: &[u8]) -> (r: String)
    ensures
        r@ == utf8_lossy(b@),
{
    String::from_utf8_lossy(b).to_string()
}

/// The text that well-formed UTF-16 code units encode: a unit outside the
/// surrogate range is one scalar; a high surrogate followed by a low one is
/// one scalar above 0xFFFF; anything else is malformed.
pub open spec fn utf16_text(u: Seq<u16>) -> Option<Seq<char>>
    decreases u.len(),
{
    if u.len() == 0 {
        Some(Seq::empty())
    } else if u[0] < 0xD800 || u[0] > 0xDFFF {
        match utf16_text(u.drop_first()) {
            Some(rest) => Some(seq![(u[0] as u32) as char] + rest),
            None => None,
        }
    } else if u[0] <= 0xDBFF && u.len() >= 2 && 0xDC00 <= u[1] <= 0xDFFF {
        match utf16_text(u.subrange(2, u.len() as int)) {
            Some(rest) => Some(
                seq![((0x10000 + (u[0] - 0xD800) * 0x400 + (u[1] - 0xDC00)) as u32) as char] + rest,
            ),
            None => None,
        }
    } else {
        None
    }
}

/// Relies on `String::from_utf16`: `Ok` exactly when the units are well
/// formed UTF-16, and the text is then what they encode.
#[verifier::external_body]
pub(crate) fn string_from_utf16(units: &[u16]) -> (r: Option<String>)
    ensures
        match r {
            Some(s) => utf16_text(units@) == Some(s@),
            None => utf16_text(units@) is None,
        },
{
    String::from_utf16(units).ok()
}

/// The little-endian 16-bit value of bytes `2 * i` and `2 * i + 1`.
pub open spec fn le16_at(src: Seq<u8>, i: int) -> u16 {
    (src[2 * i] as int + 256 * (src[2 * i + 1] as int)) as u16
}

/// Relies on byteorder's `LittleEndian::read_u16_into`: it reads each pair
/// of bytes of `src` as one little-endian value into `dst`, and panics unless
/// `src` holds exactly two bytes per value of `dst`.
#[verifier::external_body]
pub(crate) fn read_u16_le(src: &[u8], dst: &mut [u16])
    requires
        src@.len() == 2 * old(dst)@.len(),
    ensures
        final(dst)@.len() == old(dst)@.len(),
        forall|i: int| 0 <= i < final(dst)@.len() ==> #[trigger] final(dst)@[i] == le16_at(src@, i),
{
    <byteorder::LittleEndian as byteorder::ByteOrder>::read_u16_into(src, dst)
}

/// The lower-case hexadecimal digit of a value below 16.
pub open spec fn hex_digit(v: int) -> char {
    "0123456789abcdef"@[v]
}

/// Relies on `hex::encode`: two lower-case digits per byte, high half first.
#[verifier::external_body]
pub(crate) fn hex_encode(data: &[u8]) -> (r: String)
    ensures
        r@.len() == 2 * data@.len(),
        forall|i: int|
            0 <= i < data@.len() ==> r@[2 * i] == hex_digit(#[trigger] data@[i] as int / 16) && r@[2
                * i + 1] == hex_digit(data@[i] as int % 16),
{
    hex::encode(data)
}

/// Relies on `std::str::from_utf8`: it accepts exactly the valid UTF-8 byte
/// strings, and the text is then what the bytes encode.
#[verifier::external_body]
pub(crate) fn text_from_utf8(b: &[u8]) -> (r: Option<String>)
    ensures
        valid_utf8(b@) <==> r is Some,
        r matches Some(s) ==> s@ == decode_utf8(b@),
{
    std::str::from_utf8(b).ok().map(|s| s.to_string())
}

} // verus!
