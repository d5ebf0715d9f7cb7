use base64::Engine;
use jpixel::capture::pixels::PixelBuffer;
use jpixel::capture::screen::{
    default_capture, fits_on_display, intersect, magnifier_rect, pixel_rect, stitch_region,
    Piece, Rect,
};
use jpixel::capture::{
    check_image_path_form, check_image_path_location, data_url, get_magnifier_area,
    get_pixel_color, hex_color_is_cuttable, image_data_url, image_mime, is_temp_pin_file,
    parse_hex_color, timestamp_filename, timestamp_filename_at, RgbColor,
    has_parent_component, path_starts_with, PathPart,
};
use jpixel::encode::base64_fits_len;
use jpixel::error::JpixelError;

fn b64(bytes: &[u8]) -> String {
    base64::engine::general_purpose::STANDARD.encode(bytes)
}

#[test]
fn hex_colors_in_both_forms() {
    assert_eq!(parse_hex_color("#FF0000"), Some([255, 0, 0, 255]));
    assert_eq!(parse_hex_color("#00ff7f"), Some([0, 255, 127, 255]));
    assert_eq!(parse_hex_color("#0F8"), Some([0, 255, 136, 255]));
    assert_eq!(parse_hex_color("abc"), Some([170, 187, 204, 255]));
    assert_eq!(parse_hex_color("##123456"), Some([0x12, 0x34, 0x56, 255]));
}

#[test]
fn hex_colors_refused() {
    assert_eq!(parse_hex_color("#12345"), None);
    assert_eq!(parse_hex_color("#GG0000"), None);
    assert_eq!(parse_hex_color(""), None);
    assert_eq!(parse_hex_color("#12"), None);
    assert_eq!(parse_hex_color("#-10000"), None);
}

#[test]
fn hex_color_plus_sign_is_accepted_like_from_str_radix() {
    assert_eq!(parse_hex_color("#+F0000"), Some([15, 0, 0, 255]));
    assert_eq!(u8::from_str_radix("+F", 16), Ok(15));
}

#[test]
fn hex_color_cuts_must_fall_on_characters() {
    assert!(hex_color_is_cuttable("#FF0000"));
    assert!(hex_color_is_cuttable("#éé12"));
    assert_eq!(parse_hex_color("#éé12"), None);
    assert!(!hex_color_is_cuttable("#aé"));
    assert!(!hex_color_is_cuttable("#€abc"));
}

#[test]
fn temp_pin_files() {
    assert!(is_temp_pin_file("jpixel-pin-123.bmp"));
    assert!(!is_temp_pin_file("jpixel-pin-123.png"));
    assert!(!is_temp_pin_file("jpixel-123.bmp"));
    assert!(!is_temp_pin_file("x-jpixel-pin-1.bmp"));
    let name = timestamp_filename("jpixel-pin", "bmp");
    assert!(is_temp_pin_file(&name), "{} is not recognised", name);
    assert_eq!(timestamp_filename_at("jpixel-pin", "bmp", 1700000000123456789), "jpixel-pin-1700000000123456789.bmp");
    assert_eq!(timestamp_filename_at("a", "b", 0), "a-0.b");
}

#[test]
fn data_urls() {
    assert_eq!(data_url("image/png", b"hello"), format!("data:image/png;base64,{}", b64(b"hello")));
    assert_eq!(data_url("image/png", b""), "data:image/png;base64,");
    assert_eq!(data_url("text/plain", b"ab"), "data:text/plain;base64,YWI=");
    assert_eq!(image_mime(Some("bmp")), "image/bmp");
    assert_eq!(image_mime(Some("jpg")), "image/jpeg");
    assert_eq!(image_mime(Some("jpeg")), "image/jpeg");
    assert_eq!(image_mime(Some("JPG")), "image/png");
    assert_eq!(image_mime(None), "image/png");
    assert_eq!(image_data_url(Some("bmp"), &[1, 2, 3]), format!("data:image/bmp;base64,{}", b64(&[1, 2, 3])));
}

fn parts(path: &str) -> Vec<PathPart> {
    path.split('/')
        .filter(|p| !p.is_empty())
        .map(|p| match p {
            ".." => PathPart::ParentDir,
            "." => PathPart::CurDir,
            n => PathPart::Normal(n.to_string()),
        })
        .fold(vec![PathPart::RootDir], |mut v, p| {
            v.push(p);
            v
        })
}

#[test]
fn image_path_checks() {
    match check_image_path_form(&parts("/tmp/jpixel/../etc/passwd"), true) {
        Err(JpixelError::Config(m)) => assert_eq!(m, "Path traversal not allowed"),
        other => panic!("{:?}", other),
    }
    // Traversal is refused before the relative-path rule.
    match check_image_path_form(&vec![PathPart::ParentDir, PathPart::Normal("a.png".into())], false) {
        Err(JpixelError::Config(m)) => assert_eq!(m, "Path traversal not allowed"),
        other => panic!("{:?}", other),
    }
    match check_image_path_form(&vec![PathPart::Normal("a.png".into())], false) {
        Err(JpixelError::Config(m)) => assert_eq!(m, "Relative paths not allowed"),
        other => panic!("{:?}", other),
    }
    assert!(check_image_path_form(&parts("/tmp/jpixel/a.png"), true).is_ok());

    let temp = parts("/tmp/jpixel");
    let pics = parts("/home/u/Pictures/Jpixel");
    assert!(check_image_path_location(&parts("/tmp/jpixel/pin.bmp"), &temp, &pics).is_ok());
    assert!(check_image_path_location(&parts("/home/u/Pictures/Jpixel/a.png"), &temp, &pics).is_ok());
    assert!(check_image_path_location(&parts("/tmp/jpixel"), &temp, &pics).is_ok());
    for outside in ["/tmp/jpixel-other/a.png", "/tmp/a.png", "/etc/passwd", "/home/u/Pictures/a.png"] {
        match check_image_path_location(&parts(outside), &temp, &pics) {
            Err(JpixelError::Config(m)) => {
                assert_eq!(m, "Access denied: path outside allowed directories")
            }
            other => panic!("{}: {:?}", outside, other),
        }
    }
}

#[test]
fn path_components_are_compared_whole() {
    assert!(has_parent_component(&parts("/a/../b")));
    assert!(!has_parent_component(&parts("/a/..b/c")));
    assert!(path_starts_with(&parts("/a/b/c"), &parts("/a/b")));
    assert!(!path_starts_with(&parts("/a/bc"), &parts("/a/b")));
    assert!(!path_starts_with(&parts("/a"), &parts("/a/b")));
    assert!(!path_starts_with(&vec![PathPart::Prefix("C:".into())], &vec![PathPart::Prefix("D:".into())]));
}

#[test]
fn pixel_color_is_the_first_pixel() {
    let img = PixelBuffer::from_raw(1, 1, vec![10, 20, 30, 255]).unwrap();
    assert_eq!(get_pixel_color(&img), RgbColor { r: 10, g: 20, b: 30 });
    assert_eq!(pixel_rect(5, -3), Rect { x: 5, y: -3, width: 1, height: 1 });
}

#[test]
fn magnifier_area_is_a_png_data_url() {
    let img = PixelBuffer::from_raw(2, 1, vec![255, 0, 0, 255, 0, 255, 0, 255]).unwrap();
    let url = get_magnifier_area(&img).unwrap();
    let prefix = "data:image/png;base64,";
    assert!(url.starts_with(prefix));
    let png = base64::engine::general_purpose::STANDARD.decode(&url[prefix.len()..]).unwrap();
    let decoded = image::load_from_memory(&png).unwrap().to_rgba8();
    assert_eq!(decoded.dimensions(), (2, 1));
    assert_eq!(decoded.into_raw(), vec![255, 0, 0, 255, 0, 255, 0, 255]);
}

#[test]
fn magnifier_rect_stays_on_screen() {
    assert_eq!(magnifier_rect(100, 100, 20), Rect { x: 90, y: 90, width: 20, height: 20 });
    assert_eq!(magnifier_rect(5, 3, 20), Rect { x: 0, y: 0, width: 20, height: 20 });
    assert_eq!(magnifier_rect(-50, 40, 21), Rect { x: 0, y: 30, width: 21, height: 21 });
}

#[test]
fn region_geometry() {
    let display = Rect { x: 0, y: 0, width: 1920, height: 1080 };
    assert!(fits_on_display(Rect { x: 10, y: 10, width: 100, height: 100 }, display));
    assert!(!fits_on_display(Rect { x: 1900, y: 10, width: 100, height: 100 }, display));
    let second = Rect { x: 1920, y: 0, width: 1280, height: 1024 };
    let rect = Rect { x: 1900, y: 1000, width: 100, height: 100 };
    assert_eq!(intersect(rect, display), Some(Rect { x: 1900, y: 1000, width: 20, height: 80 }));
    assert_eq!(intersect(rect, second), Some(Rect { x: 1920, y: 1000, width: 80, height: 24 }));
    assert_eq!(intersect(Rect { x: 0, y: 2000, width: 5, height: 5 }, display), None);
    let _ = default_capture();
}

#[test]
fn stitching_two_displays() {
    // A 3x2 region: the left column comes from one display, the top of the
    // two right columns from another; the bottom right stays blank.
    let rect = Rect { x: 10, y: 20, width: 3, height: 2 };
    let left = Piece {
        area: Rect { x: 10, y: 20, width: 1, height: 2 },
        image: PixelBuffer::from_raw(1, 2, vec![1, 1, 1, 1, 2, 2, 2, 2]).unwrap(),
    };
    let right = Piece {
        area: Rect { x: 11, y: 20, width: 2, height: 1 },
        image: PixelBuffer::from_raw(2, 1, vec![3, 3, 3, 3, 4, 4, 4, 4]).unwrap(),
    };
    let img = stitch_region(rect, &vec![left, right]);
    assert_eq!((img.width(), img.height()), (3, 2));
    assert_eq!(
        img.into_raw(),
        vec![1, 1, 1, 1, 3, 3, 3, 3, 4, 4, 4, 4, 2, 2, 2, 2, 0, 0, 0, 0, 0, 0, 0, 0]
    );
}

#[test]
fn stitching_one_piece_is_that_piece() {
    let rect = Rect { x: 0, y: 0, width: 2, height: 2 };
    let bytes: Vec<u8> = (0..16).collect();
    let piece = Piece { area: rect, image: PixelBuffer::from_raw(2, 2, bytes.clone()).unwrap() };
    assert_eq!(stitch_region(rect, &vec![piece]).into_raw(), bytes);
}

#[test]
fn pixel_buffer_shape() {
    assert!(PixelBuffer::from_raw(2, 2, vec![0; 15]).is_none());
    let b = PixelBuffer::new(3, 2);
    assert_eq!(b.as_raw().len(), 24);
    assert_eq!(b.get_pixel(2, 1), [0, 0, 0, 0]);
}

#[test]
fn base64_buffer_bound() {
    assert!(base64_fits_len(0));
    assert!(base64_fits_len(1_000_000));
    assert!(!base64_fits_len(usize::MAX));
    assert!(!base64_fits_len(isize::MAX as usize));
}
