//! Encodings the tool hands to the frontend: Base64, percent-encoding and
//! PNG, each computed by the crate that the tool relies on for it.

use vstd::prelude::*;
use vstd::string::StringSliceAdditionalSpecFns;

verus! {

/// Character of a 6-bit value in the standard Base64 alphabet.
pub open spec fn base64_char(v: int) -> char {
    if v < 26 {
        (65 + v) as char
    } else if v < 52 {
        (97 + v - 26) as char
    } else if v < 62 {
        (48 + v - 52) as char
    } else if v == 62 {
        '+'
    } else {
        '/'
    }
}

/// Standard Base64 (RFC 4648 alphabet, `=` padding) of a byte sequence:
/// each group of three bytes becomes four characters.
pub open spec fn base64_standard(s: Seq<u8>) -> Seq<char>
    decreases s.len(),
{
    if s.len() == 0 {
        Seq::empty()
    } else if s.len() == 1 {
        let a = s[0] as int;
        seq![base64_char(a / 4), base64_char((a % 4) * 16), '=', '=']
    } else if s.len() == 2 {
        let a = s[0] as int;
        let b = s[1] as int;
        seq![base64_char(a / 4), base64_char((a % 4) * 16 + b / 16), base64_char((b % 16) * 4), '=']
    } else {
        let a = s[0] as int;
        let b = s[1] as int;
        let c = s[2] as int;
        seq![
            base64_char(a / 4),
            base64_char((a % 4) * 16 + b / 16),
            base64_char((b % 16) * 4 + c / 64),
            base64_char(c % 64),
        ] + base64_standard(s.subrange(3, s.len() as int))
    }
}

/// Length of the padded Base64 text of `n` bytes.
pub open spec fn base64_len(n: nat) -> nat {
    4 * ((n + 2) / 3)
}

/// Whether the Base64 text of `n` bytes can be allocated: a buffer longer
/// than `isize::MAX` bytes cannot be.
pub open spec fn base64_fits(n: nat) -> bool {
    base64_len(n) <= isize::MAX
}

/// Whether the Base64 text of `n` bytes can be allocated.
pub fn base64_fits_len(n: usize) -> (r: bool)
    ensures
        r == base64_fits(n as nat),
{
    let chunks: usize = n / 3 + if n % 3 > 0 {
        1
    } else {
        0
    };
    chunks <= (isize::MAX as usize) / 4
}

/// Base64 of `data` with the standard alphabet and padding
/// (`base64::engine::general_purpose::STANDARD.encode`). The crate sizes
/// its output buffer first and panics when that size overflows or cannot
/// be allocated, which `requires` rules out.
#[verifier::external_body]
pub(crate) fn base64_encode(data: &[u8]) -> (r: String)
    requires
        base64_fits(data@.len()),
    ensures
        r@ == base64_standard(data@),
{
    base64::Engine::encode(&base64::engine::general_purpose::STANDARD, data)
}

/// Whether a byte is left as it is by percent-encoding: ASCII letters and
/// digits, `-`, `.`, `_` and `~`.
pub open spec fn url_safe_byte(b: u8) -> bool {
    (48 <= b <= 57) || (65 <= b <= 90) || (97 <= b <= 122) || b == 45 || b == 46 || b == 95
        || b == 126
}

/// Upper-case hexadecimal digit of a value below 16.
pub open spec fn hex_upper(d: int) -> char {
    if d < 10 {
        (48 + d) as char
    } else {
        (55 + d) as char
    }
}

/// Percent-encoding of bytes: safe bytes stay, each other byte becomes `%`
/// and two upper-case hexadecimal digits.
pub open spec fn percent_encode(s: Seq<u8>) -> Seq<char>
    decreases s.len(),
{
    if s.len() == 0 {
        Seq::empty()
    } else {
        let b = s[0];
        let head = if url_safe_byte(b) {
            seq![b as char]
        } else {
            seq!['%', hex_upper(b as int / 16), hex_upper(b as int % 16)]
        };
        head + percent_encode(s.drop_first())
    }
}

/// Percent-encodes a string's UTF-8 bytes (`urlencoding::encode`).
#[verifier::external_body]
pub(crate) fn url_encode(s: &str) -> (r: String)
    ensures
        r@ == percent_encode(s.spec_bytes()),
{
    urlencoding::encode(s).into_owned()
}

/// The PNG file that the `image` crate writes for an RGBA image of the
/// given size and bytes, or `None` when it refuses to write one.
pub uninterp spec fn png_rgba8(width: u32, height: u32, rgba: Seq<u8>) -> Option<Seq<u8>>;

/// Encodes an RGBA image as PNG (`DynamicImage::write_to` with
/// `ImageOutputFormat::Png`, on an `RgbaImage` made by
/// `ImageBuffer::from_raw`). What the bytes are is left to the name
/// `png_rgba8`; the error message is not stated.
#[verifier::external_body]
pub(crate) fn png_encode(width: u32, height: u32, rgba: &[u8]) -> (r: Result<Vec<u8>, String>)
    requires
        rgba@.len() == width as int * height as int * 4,
    ensures
        match r {
            Ok(b) => png_rgba8(width, height, rgba@) == Some(b@),
            Err(_) => png_rgba8(width, height, rgba@) is None,
        },
{
    match image::RgbaImage::from_raw(width, height, rgba.to_vec()) {
        Some(img) => {
            let mut out = std::io::Cursor::new(Vec::new());
            match image::DynamicImage::ImageRgba8(img).write_to(&mut out, image::ImageOutputFormat::Png) {
                Ok(()) => Ok(out.into_inner()),
                Err(e) => Err(e.to_string()),
            }
        },
        None => Err(String::from("buffer does not match the image size")),
    }
}

}
