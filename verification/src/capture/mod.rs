//! Screen capture: pixel buffers, capture geometry, GIF frame quantisation,
//! and what the capture commands hand back to the frontend.

pub mod gif;
pub mod pixels;
pub mod screen;

use vstd::prelude::*;
use crate::capture::pixels::PixelBuffer;
use crate::encode::{base64_encode, base64_fits, base64_fits_len, base64_standard, png_encode, png_rgba8};
use crate::error::JpixelError;
use vstd::string::StringSliceAdditionalSpecFns;
use crate::text::{decimal, ends_with, is_prefix, is_suffix, push_decimal, push_str, starts_with, string_of};

verus! {

/// RGB color returned by `get_pixel_color`.
#[derive(Debug, Clone, Copy, PartialEq, Eq, Structural)]
pub struct RgbColor {
    pub r: u8,
    pub g: u8,
    pub b: u8,
}

/// The colour of the pixel captured at the picked point (the first pixel of
/// the capture).
pub fn get_pixel_color(capture: &PixelBuffer) -> (c: RgbColor)
    requires
        capture.spec_width() >= 1,
        capture.spec_height() >= 1,
    ensures
        c.r == capture.bytes()[0],
        c.g == capture.bytes()[1],
        c.b == capture.bytes()[2],
{
    let p = capture.get_pixel(0, 0);
    RgbColor { r: p[0], g: p[1], b: p[2] }
}

/// A `data:` URL of the given MIME type holding `bytes` in Base64.
pub open spec fn spec_data_url(mime: Seq<char>, bytes: Seq<u8>) -> Seq<char> {
    "data:"@ + mime + ";base64,"@ + base64_standard(bytes)
}

/// A `data:` URL of the given MIME type holding `bytes` in Base64.
pub fn data_url(mime: &str, bytes: &[u8]) -> (r: String)
    requires
        base64_fits(bytes@.len()),
    ensures
        r@ == spec_data_url(mime@, bytes@),
{
    let mut r = string_of("data:");
    push_str(&mut r, mime);
    push_str(&mut r, ";base64,");
    let b64 = base64_encode(bytes);
    push_str(&mut r, b64.as_str());
    r
}

/// MIME type of an image file by its extension: BMP and JPEG by their
/// extensions, PNG for anything else.
pub open spec fn spec_image_mime(ext: Option<Seq<char>>) -> Seq<char> {
    match ext {
        Some(e) => if e == "bmp"@ {
            "image/bmp"@
        } else if e == "jpg"@ || e == "jpeg"@ {
            "image/jpeg"@
        } else {
            "image/png"@
        },
        None => "image/png"@,
    }
}

/// MIME type of an image file by its extension.
pub fn image_mime(ext: Option<&str>) -> (m: &'static str)
    ensures
        m@ == spec_image_mime(match ext {
            Some(e) => Some(e@),
            None => None,
        }),
{
    match ext {
        Some(e) => {
            if crate::text::str_eq(e, "bmp") {
                "image/bmp"
            } else if crate::text::str_eq(e, "jpg") || crate::text::str_eq(e, "jpeg") {
                "image/jpeg"
            } else {
                "image/png"
            }
        },
        None => "image/png",
    }
}

/// The MIME type names the file's format: `image/bmp` exactly for the
/// extension `bmp`, `image/jpeg` exactly for `jpg` and `jpeg`, and
/// `image/png` for `png`, for every other extension and for none.
pub proof fn law_mime_names_the_format(e: Seq<char>)
    ensures
        spec_image_mime(Some(e)) == "image/bmp"@ <==> e == "bmp"@,
        spec_image_mime(Some(e)) == "image/jpeg"@ <==> (e == "jpg"@ || e == "jpeg"@),
        spec_image_mime(Some(e)) == "image/png"@ <==> !(e == "bmp"@ || e == "jpg"@ || e
            == "jpeg"@),
        spec_image_mime(Some("png"@)) == "image/png"@,
        spec_image_mime(None) == "image/png"@,
{
    reveal_strlit("image/bmp");
    reveal_strlit("image/jpeg");
    reveal_strlit("image/png");
    reveal_strlit("bmp");
    reveal_strlit("jpg");
    reveal_strlit("jpeg");
    reveal_strlit("png");
    assert("image/bmp"@[6] == 'b');
    assert("image/jpeg"@[6] == 'j');
    assert("image/png"@[6] == 'p');
    assert("png"@[0] == 'p');
    assert("bmp"@[0] == 'b');
    assert("jpg"@[0] == 'j');
    assert("jpeg"@[0] == 'j');
}

/// The `data:` URL of an image file read for display, its MIME type taken
/// from the file's extension.
pub fn image_data_url(ext: Option<&str>, bytes: &[u8]) -> (r: String)
    requires
        base64_fits(bytes@.len()),
    ensures
        r@ == spec_data_url(
            spec_image_mime(
                match ext {
                    Some(e) => Some(e@),
                    None => None,
                },
            ),
            bytes@,
        ),
{
    let mime = image_mime(ext);
    data_url(mime, bytes)
}

/// One component of a file system path, as `std::path::Component` names
/// it, with its text.
#[derive(Debug, Clone)]
pub enum PathPart {
    /// A Windows prefix such as `C:`.
    Prefix(String),
    /// The root directory.
    RootDir,
    /// `.`
    CurDir,
    /// `..`
    ParentDir,
    /// A file or directory name.
    Normal(String),
}

/// A path component as a plain value: its kind and its text.
pub open spec fn part_view(p: PathPart) -> (int, Seq<char>) {
    match p {
        PathPart::Prefix(s) => (0, s@),
        PathPart::RootDir => (1, Seq::empty()),
        PathPart::CurDir => (2, Seq::empty()),
        PathPart::ParentDir => (3, Seq::empty()),
        PathPart::Normal(s) => (4, s@),
    }
}

/// The components of a path as plain values.
pub open spec fn parts_view(ps: Seq<PathPart>) -> Seq<(int, Seq<char>)> {
    ps.map_values(|p: PathPart| part_view(p))
}

/// Whether a path has a `..` component.
pub open spec fn has_parent_dir(ps: Seq<(int, Seq<char>)>) -> bool {
    exists|i: int| 0 <= i < ps.len() && (#[trigger] ps[i]).0 == 3
}

/// Whether a path lies under `base`, whole components at a time
/// (`Path::starts_with`).
pub open spec fn parts_start_with(path: Seq<(int, Seq<char>)>, base: Seq<(int, Seq<char>)>) -> bool {
    base.len() <= path.len() && path.subrange(0, base.len() as int) == base
}

fn same_part(a: &PathPart, b: &PathPart) -> (r: bool)
    ensures
        r == (part_view(*a) == part_view(*b)),
{
    match (a, b) {
        (PathPart::Prefix(x), PathPart::Prefix(y)) => crate::text::str_eq(x.as_str(), y.as_str()),
        (PathPart::Normal(x), PathPart::Normal(y)) => crate::text::str_eq(x.as_str(), y.as_str()),
        (PathPart::RootDir, PathPart::RootDir) => true,
        (PathPart::CurDir, PathPart::CurDir) => true,
        (PathPart::ParentDir, PathPart::ParentDir) => true,
        _ => false,
    }
}

/// Whether a path has a `..` component.
pub fn has_parent_component(parts: &Vec<PathPart>) -> (r: bool)
    ensures
        r == has_parent_dir(parts_view(parts@)),
{
    let mut i: usize = 0;
    while i < parts.len()
        invariant
            i <= parts.len(),
            forall|k: int| 0 <= k < i ==> (#[trigger] parts_view(parts@)[k]).0 != 3,
        decreases parts.len() - i,
    {
        if let PathPart::ParentDir = &parts[i] {
            assert(parts_view(parts@)[i as int].0 == 3);
            return true;
        }
        i = i + 1;
    }
    false
}

/// Whether `path` lies under `base`, whole components at a time
/// (`Path::starts_with`).
pub fn path_starts_with(path: &Vec<PathPart>, base: &Vec<PathPart>) -> (r: bool)
    ensures
        r == parts_start_with(parts_view(path@), parts_view(base@)),
{
    if base.len() > path.len() {
        return false;
    }
    let mut i: usize = 0;
    while i < base.len()
        invariant
            base.len() <= path.len(),
            i <= base.len(),
            forall|k: int| 0 <= k < i ==> parts_view(path@)[k] == parts_view(base@)[k],
        decreases base.len() - i,
    {
        if !same_part(&path[i], &base[i]) {
            assert(parts_view(path@).subrange(0, base.len() as int)[i as int] != parts_view(base@)[i as int]);
            return false;
        }
        i = i + 1;
    }
    assert(parts_view(path@).subrange(0, base.len() as int) =~= parts_view(base@));
    true
}

/// Checks the form of a path asked to be read as an image: a path with a
/// parent-directory component is refused first, then a relative one.
/// Whether the path is absolute is the platform's rule, handed in.
pub fn check_image_path_form(parts: &Vec<PathPart>, is_absolute: bool) -> (r: Result<
    (),
    JpixelError,
>)
    ensures
        has_parent_dir(parts_view(parts@)) ==> (r matches Err(JpixelError::Config(m)) && m@
            == "Path traversal not allowed"@),
        !has_parent_dir(parts_view(parts@)) && !is_absolute ==> (r matches Err(
            JpixelError::Config(m),
        ) && m@ == "Relative paths not allowed"@),
        !has_parent_dir(parts_view(parts@)) && is_absolute ==> r is Ok,
{
    if has_parent_component(parts) {
        return Err(JpixelError::Config(string_of("Path traversal not allowed")));
    }
    if !is_absolute {
        return Err(JpixelError::Config(string_of("Relative paths not allowed")));
    }
    Ok(())
}

/// Checks where a path asked to be read as an image lies, by its
/// canonical components: only files under the tool's temporary directory
/// or its pictures directory may be read.
pub fn check_image_path_location(
    canonical: &Vec<PathPart>,
    temp_dir: &Vec<PathPart>,
    pictures_dir: &Vec<PathPart>,
) -> (r: Result<(), JpixelError>)
    ensures
        ({
            let inside = parts_start_with(parts_view(canonical@), parts_view(temp_dir@))
                || parts_start_with(parts_view(canonical@), parts_view(pictures_dir@));
            &&& inside ==> r is Ok
            &&& !inside ==> (r matches Err(JpixelError::Config(m)) && m@
                == "Access denied: path outside allowed directories"@)
        }),
{
    let in_temp = path_starts_with(canonical, temp_dir);
    let in_pictures = path_starts_with(canonical, pictures_dir);
    if !(in_temp || in_pictures) {
        return Err(
            JpixelError::Config(string_of("Access denied: path outside allowed directories")),
        );
    }
    Ok(())
}

/// A magnifier preview as a PNG `data:` URL; refused with an `Image` error
/// when the PNG encoder refuses the image, or when the PNG is too large for
/// its Base64 text to be allocated.
pub fn get_magnifier_area(capture: &PixelBuffer) -> (r: Result<String, JpixelError>)
    ensures
        match png_rgba8(capture.spec_width(), capture.spec_height(), capture.bytes()) {
            Some(png) => if base64_fits(png.len()) {
                r matches Ok(s) && s@ == spec_data_url("image/png"@, png)
            } else {
                r matches Err(JpixelError::Image(m)) && m@ == "PNG encode failed: output too large"@
            },
            None => r matches Err(JpixelError::Image(m)) && is_prefix("PNG encode failed: "@, m@),
        },
{
    let raw = capture.as_raw();
    match png_encode(capture.width(), capture.height(), raw.as_slice()) {
        Ok(png) => {
            if !base64_fits_len(png.len()) {
                return Err(JpixelError::Image(string_of("PNG encode failed: output too large")));
            }
            Ok(data_url("image/png", png.as_slice()))
        },
        Err(e) => {
            let mut m = string_of("PNG encode failed: ");
            proof {
                assert(m@.subrange(0, "PNG encode failed: "@.len() as int) =~= "PNG encode failed: "@);
            }
            let ghost before = m@;
            push_str(&mut m, e.as_str());
            proof {
                assert(m@.subrange(0, "PNG encode failed: "@.len() as int) =~= before.subrange(
                    0,
                    "PNG encode failed: "@.len() as int,
                ));
            }
            Err(JpixelError::Image(m))
        },
    }
}

/// Name of a temporary pin file: the prefix, `-`, the timestamp in
/// nanoseconds, `.` and the extension.
pub open spec fn spec_timestamp_filename(prefix: Seq<char>, ext: Seq<char>, nanos: nat) -> Seq<
    char,
> {
    prefix + "-"@ + decimal(nanos) + "."@ + ext
}

/// Name of a file made at time `nanos` (nanoseconds since the Unix epoch).
pub fn timestamp_filename_at(prefix: &str, ext: &str, nanos: u128) -> (r: String)
    ensures
        r@ == spec_timestamp_filename(prefix@, ext@, nanos as nat),
{
    let mut r = string_of(prefix);
    push_str(&mut r, "-");
    push_decimal(&mut r, nanos);
    push_str(&mut r, ".");
    push_str(&mut r, ext);
    r
}

/// Nanoseconds since the Unix epoch by the system clock (0 if the clock is
/// set before the epoch). Nothing is stated of the value: it is read from
/// the clock.
#[verifier::external_body]
pub(crate) fn unix_time_nanos() -> u128 {
    std::time::SystemTime::now().duration_since(std::time::UNIX_EPOCH).unwrap_or_default().as_nanos()
}

/// Name of a file made now: the prefix, `-`, the current time in
/// nanoseconds, `.` and the extension.
pub fn timestamp_filename(prefix: &str, ext: &str) -> (r: String)
    ensures
        exists|n: nat| r@ == spec_timestamp_filename(prefix@, ext@, n),
{
    let nanos = unix_time_nanos();
    timestamp_filename_at(prefix, ext, nanos)
}

/// Whether a file name is one of the temporary pin images.
pub open spec fn spec_is_temp_pin_file(name: Seq<char>) -> bool {
    is_prefix("jpixel-pin-"@, name) && is_suffix(".bmp"@, name)
}

/// Whether a file name is one of the temporary pin images
/// (`jpixel-pin-*.bmp`), which cleanup removes.
pub fn is_temp_pin_file(name: &str) -> (r: bool)
    ensures
        r == spec_is_temp_pin_file(name@),
{
    starts_with(name, "jpixel-pin-") && ends_with(name, ".bmp")
}

/// Every pin image the tool names is one that cleanup removes.
pub proof fn law_pin_files_are_cleaned_up(nanos: nat)
    ensures
        spec_is_temp_pin_file(spec_timestamp_filename("jpixel-pin"@, "bmp"@, nanos)),
{
    reveal_strlit("jpixel-pin");
    reveal_strlit("jpixel-pin-");
    reveal_strlit("bmp");
    reveal_strlit(".bmp");
    reveal_strlit("-");
    reveal_strlit(".");
    let name = spec_timestamp_filename("jpixel-pin"@, "bmp"@, nanos);
    assert(name.subrange(0, 11) =~= "jpixel-pin-"@);
    assert(name.subrange(name.len() - 4, name.len() as int) =~= ".bmp"@);
}


/// `b` without its leading `'#'` bytes (`trim_start_matches('#')`).
pub open spec fn strip_hashes(b: Seq<u8>) -> Seq<u8>
    decreases b.len(),
{
    if b.len() > 0 && b[0] == 35 {
        strip_hashes(b.drop_first())
    } else {
        b
    }
}

/// Value of a hexadecimal digit byte, either case.
pub open spec fn hex_digit_value(c: u8) -> Option<int> {
    if 48 <= c <= 57 {
        Some(c - 48)
    } else if 97 <= c <= 102 {
        Some(c - 87)
    } else if 65 <= c <= 70 {
        Some(c - 55)
    } else {
        None
    }
}

/// What `u8::from_str_radix(s, 16)` gives for one or two bytes: an optional
/// leading `+` followed by hexadecimal digits only.
pub open spec fn radix16(s: Seq<u8>) -> Option<int> {
    if s.len() == 1 {
        hex_digit_value(s[0])
    } else if s.len() == 2 {
        if s[0] == 43 {
            hex_digit_value(s[1])
        } else {
            match (hex_digit_value(s[0]), hex_digit_value(s[1])) {
                (Some(a), Some(b)) => Some(16 * a + b),
                _ => None,
            }
        }
    } else {
        None
    }
}

/// Whether a byte continues a UTF-8 sequence (no character starts there).
pub open spec fn is_continuation(b: u8) -> bool {
    128 <= b < 192
}

/// Whether the colour text can be cut into its channels: the cuts fall on
/// character boundaries (a cut inside a character panics).
pub open spec fn hex_color_cuttable(b: Seq<u8>) -> bool {
    let h = strip_hashes(b);
    &&& h.len() == 3 ==> !is_continuation(h[1]) && !is_continuation(h[2])
    &&& h.len() == 6 ==> !is_continuation(h[2]) && !is_continuation(h[4])
}

/// The opaque colour written as `#RGB` or `#RRGGBB` (any number of leading
/// `#`, digits of either case), as RGBA bytes.
pub open spec fn spec_parse_hex_color(b: Seq<u8>) -> Option<Seq<u8>> {
    let h = strip_hashes(b);
    if h.len() == 3 {
        match (radix16(h.subrange(0, 1)), radix16(h.subrange(1, 2)), radix16(h.subrange(2, 3))) {
            (Some(r), Some(g), Some(bl)) => Some(seq![(r * 17) as u8, (g * 17) as u8, (bl * 17) as u8, 255u8]),
            _ => None,
        }
    } else if h.len() == 6 {
        match (radix16(h.subrange(0, 2)), radix16(h.subrange(2, 4)), radix16(h.subrange(4, 6))) {
            (Some(r), Some(g), Some(bl)) => Some(seq![r as u8, g as u8, bl as u8, 255u8]),
            _ => None,
        }
    } else {
        None
    }
}

/// Every hexadecimal digit has its value, in either case: `0`..`9` are 0 to
/// 9, `a`..`f` are 10 to 15, and each capital `A`..`F` has the value of its
/// small letter; no other byte is a digit.
pub proof fn law_hex_digits(c: u8)
    ensures
        48 <= c <= 57 ==> hex_digit_value(c) == Some(c - 48),
        97 <= c <= 102 ==> hex_digit_value(c) == Some(c - 97 + 10),
        65 <= c <= 70 ==> hex_digit_value(c) == hex_digit_value((c + 32) as u8),
        !(48 <= c <= 57 || 97 <= c <= 102 || 65 <= c <= 70) ==> hex_digit_value(c) is None,
{
}

/// A colour written `#RRGGBB` with hexadecimal digits of either case is the
/// opaque colour whose channels are the two-digit numbers, and one written
/// `#RGB` has each channel's digit doubled (`#0AF` is `#00AAFF`).
pub proof fn law_hex_colour_channels(d: Seq<u8>)
    requires
        d.len() == 6 || d.len() == 3,
        forall|i: int| 0 <= i < d.len() ==> (#[trigger] hex_digit_value(d[i])) is Some,
    ensures
        d.len() == 6 ==> spec_parse_hex_color(seq![35u8] + d) == Some(
            seq![
                (16 * hex_digit_value(d[0])->0 + hex_digit_value(d[1])->0) as u8,
                (16 * hex_digit_value(d[2])->0 + hex_digit_value(d[3])->0) as u8,
                (16 * hex_digit_value(d[4])->0 + hex_digit_value(d[5])->0) as u8,
                255u8,
            ],
        ),
        d.len() == 3 ==> spec_parse_hex_color(seq![35u8] + d) == Some(
            seq![
                (17 * hex_digit_value(d[0])->0) as u8,
                (17 * hex_digit_value(d[1])->0) as u8,
                (17 * hex_digit_value(d[2])->0) as u8,
                255u8,
            ],
        ),
{
    let b = seq![35u8] + d;
    assert(hex_digit_value(d[0]) is Some);
    assert(b.drop_first() =~= d);
    assert(b[0] == 35);
    assert(d[0] != 35);
    assert(strip_hashes(d) == d);
    assert(strip_hashes(b) == d);
    if d.len() == 6 {
        assert(hex_digit_value(d[2]) is Some);
        assert(hex_digit_value(d[4]) is Some);
        assert(hex_digit_value(d[1]) is Some);
        assert(hex_digit_value(d[3]) is Some);
        assert(hex_digit_value(d[5]) is Some);
        assert(d.subrange(0, 2) =~= seq![d[0], d[1]]);
        assert(d.subrange(2, 4) =~= seq![d[2], d[3]]);
        assert(d.subrange(4, 6) =~= seq![d[4], d[5]]);
    } else {
        assert(hex_digit_value(d[1]) is Some);
        assert(hex_digit_value(d[2]) is Some);
        assert(d.subrange(0, 1) =~= seq![d[0]]);
        assert(d.subrange(1, 2) =~= seq![d[1]]);
        assert(d.subrange(2, 3) =~= seq![d[2]]);
    }
}

fn hex_digit(c: u8) -> (r: Option<u8>)
    ensures
        match hex_digit_value(c) {
            Some(v) => r == Some(v as u8),
            None => r is None,
        },
{
    if 48 <= c && c <= 57 {
        Some(c - 48)
    } else if 97 <= c && c <= 102 {
        Some(c - 87)
    } else if 65 <= c && c <= 70 {
        Some(c - 55)
    } else {
        None
    }
}

fn parse_radix16(h: &[u8], lo: usize, hi: usize) -> (r: Option<u8>)
    requires
        lo < hi <= h@.len(),
        hi - lo <= 2,
    ensures
        match radix16(h@.subrange(lo as int, hi as int)) {
            Some(v) => r == Some(v as u8) && 0 <= v <= 255,
            None => r is None,
        },
{
    let ghost s = h@.subrange(lo as int, hi as int);
    if hi - lo == 1 {
        assert(s[0] == h@[lo as int]);
        hex_digit(h[lo])
    } else {
        assert(s[0] == h@[lo as int] && s[1] == h@[lo + 1]);
        if h[lo] == 43 {
            hex_digit(h[lo + 1])
        } else {
            match (hex_digit(h[lo]), hex_digit(h[lo + 1])) {
                (Some(a), Some(b)) => Some(16 * a + b),
                _ => None,
            }
        }
    }
}

proof fn lemma_strip_hashes_skip(b: Seq<u8>, i: int)
    requires
        0 <= i <= b.len(),
        forall|k: int| 0 <= k < i ==> b[k] == 35,
    ensures
        strip_hashes(b) == strip_hashes(b.subrange(i, b.len() as int)),
    decreases i,
{
    if i > 0 {
        lemma_strip_hashes_skip(b, i - 1);
        let t = b.subrange(i - 1, b.len() as int);
        assert(t[0] == 35);
        assert(t.drop_first() =~= b.subrange(i, b.len() as int));
    } else {
        assert(b.subrange(0, b.len() as int) =~= b);
    }
}

/// Parses a colour written as `#RGB` or `#RRGGBB` into opaque RGBA; `None`
/// for any other form.
pub fn parse_hex_color(hex: &str) -> (r: Option<[u8; 4]>)
    requires
        hex_color_cuttable(hex.spec_bytes()),
    ensures
        match spec_parse_hex_color(hex.spec_bytes()) {
            Some(c) => r matches Some(p) && p@ == c,
            None => r is None,
        },
{
    let b = hex.as_bytes();
    let mut i: usize = 0;
    while i < b.len() && b[i] == 35
        invariant
            i <= b@.len(),
            forall|k: int| 0 <= k < i ==> b@[k] == 35,
        decreases b.len() - i,
    {
        i = i + 1;
    }
    proof {
        lemma_strip_hashes_skip(b@, i as int);
        let t = b@.subrange(i as int, b@.len() as int);
        assert(t.len() == 0 || t[0] != 35);
        assert(strip_hashes(t) == t);
    }
    let ghost h = b@.subrange(i as int, b@.len() as int);
    let n = b.len() - i;
    if n == 3 {
        let r = parse_radix16(b, i, i + 1);
        let g = parse_radix16(b, i + 1, i + 2);
        let bl = parse_radix16(b, i + 2, i + 3);
        proof {
            assert(b@.subrange(i as int, i + 1) =~= h.subrange(0, 1));
            assert(b@.subrange(i + 1, i + 2) =~= h.subrange(1, 2));
            assert(b@.subrange(i + 2, i + 3) =~= h.subrange(2, 3));
        }
        match (r, g, bl) {
            (Some(r), Some(g), Some(bl)) => {
                let p = [r * 17, g * 17, bl * 17, 255u8];
                assert(p@ =~= spec_parse_hex_color(hex.spec_bytes())->0);
                Some(p)
            },
            _ => None,
        }
    } else if n == 6 {
        let r = parse_radix16(b, i, i + 2);
        let g = parse_radix16(b, i + 2, i + 4);
        let bl = parse_radix16(b, i + 4, i + 6);
        proof {
            assert(b@.subrange(i as int, i + 2) =~= h.subrange(0, 2));
            assert(b@.subrange(i + 2, i + 4) =~= h.subrange(2, 4));
            assert(b@.subrange(i + 4, i + 6) =~= h.subrange(4, 6));
        }
        match (r, g, bl) {
            (Some(r), Some(g), Some(bl)) => {
                let p = [r, g, bl, 255u8];
                assert(p@ =~= spec_parse_hex_color(hex.spec_bytes())->0);
                Some(p)
            },
            _ => None,
        }
    } else {
        None
    }
}


/// Whether `parse_hex_color` may be given this text: its channel cuts fall
/// on character boundaries.
pub fn hex_color_is_cuttable(hex: &str) -> (r: bool)
    ensures
        r == hex_color_cuttable(hex.spec_bytes()),
{
    let b = hex.as_bytes();
    let mut i: usize = 0;
    while i < b.len() && b[i] == 35
        invariant
            i <= b@.len(),
            forall|k: int| 0 <= k < i ==> b@[k] == 35,
        decreases b.len() - i,
    {
        i = i + 1;
    }
    proof {
        lemma_strip_hashes_skip(b@, i as int);
        let t = b@.subrange(i as int, b@.len() as int);
        assert(t.len() == 0 || t[0] != 35);
        assert(strip_hashes(t) == t);
    }
    let n = b.len() - i;
    if n == 3 {
        !(128 <= b[i + 1] && b[i + 1] < 192) && !(128 <= b[i + 2] && b[i + 2] < 192)
    } else if n == 6 {
        !(128 <= b[i + 2] && b[i + 2] < 192) && !(128 <= b[i + 4] && b[i + 4] < 192)
    } else {
        true
    }
}

}
