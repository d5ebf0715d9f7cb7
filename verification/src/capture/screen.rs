//! Capture geometry: rectangles on the virtual screen, the areas a capture
//! reads from each display, and the stitching of those areas into one
//! image.

use vstd::prelude::*;
use crate::capture::pixels::{rgba_len, PixelBuffer};

verus! {

/// A rectangle in screen coordinates.
#[derive(Debug, Clone, Copy, PartialEq, Eq, Structural)]
pub struct Rect {
    pub x: i32,
    pub y: i32,
    pub width: u32,
    pub height: u32,
}

/// Whether a rectangle's size and far edges are representable screen
/// coordinates (`width`, `height`, `x + width` and `y + height` fit in an
/// `i32`).
pub open spec fn edges_fit(r: Rect) -> bool {
    r.width <= i32::MAX && r.height <= i32::MAX && r.x + r.width <= i32::MAX && r.y + r.height
        <= i32::MAX
}

/// Whether a rectangle's size and far edges are representable screen
/// coordinates.
pub fn rect_edges_fit(r: Rect) -> (b: bool)
    ensures
        b == edges_fit(r),
{
    r.width <= 0x7FFF_FFFFu32 && r.height <= 0x7FFF_FFFFu32 && (r.x as i64) + (r.width as i64)
        <= 0x7FFF_FFFFi64 && (r.y as i64) + (r.height as i64) <= 0x7FFF_FFFFi64
}

/// Whether point `(px, py)` lies inside `r`.
pub open spec fn covers(r: Rect, px: int, py: int) -> bool {
    r.x <= px < r.x + r.width && r.y <= py < r.y + r.height
}

/// Whether `inner` lies inside `outer`.
pub open spec fn contains_rect(outer: Rect, inner: Rect) -> bool {
    outer.x <= inner.x && outer.y <= inner.y && inner.x + inner.width <= outer.x + outer.width
        && inner.y + inner.height <= outer.y + outer.height
}

/// Screen capture backed by the system's displays.
#[derive(Debug, Clone, Copy)]
pub struct ScreenshotsCapture;

/// The default screen capture backend.
pub fn default_capture() -> (c: ScreenshotsCapture) {
    ScreenshotsCapture
}

/// The 1x1 area read for a single pixel's colour.
pub fn pixel_rect(x: i32, y: i32) -> (r: Rect)
    ensures
        r == (Rect { x, y, width: 1, height: 1 }),
{
    Rect { x, y, width: 1, height: 1 }
}

/// The square of side `size` read for a magnifier preview around `(x, y)`:
/// centred on the point, but never starting left of or above 0.
pub open spec fn spec_magnifier_rect(x: i32, y: i32, size: u32) -> Rect {
    Rect {
        x: (if x - size / 2 < 0 { 0 } else { x - size / 2 }) as i32,
        y: (if y - size / 2 < 0 { 0 } else { y - size / 2 }) as i32,
        width: size,
        height: size,
    }
}

/// The square of side `size` read for a magnifier preview around `(x, y)`.
pub fn magnifier_rect(x: i32, y: i32, size: u32) -> (r: Rect)
    requires
        x - size / 2 >= i32::MIN,
        y - size / 2 >= i32::MIN,
    ensures
        r == spec_magnifier_rect(x, y, size),
{
    let half = (size / 2) as i32;
    let cx = if x - half < 0 {
        0
    } else {
        x - half
    };
    let cy = if y - half < 0 {
        0
    } else {
        y - half
    };
    Rect { x: cx, y: cy, width: size, height: size }
}

/// Whether a region lies wholly on one display, so that it can be read in
/// one piece.
pub fn fits_on_display(rect: Rect, display: Rect) -> (r: bool)
    ensures
        r == contains_rect(display, rect),
{
    let rx = rect.x as i64;
    let ry = rect.y as i64;
    let dx = display.x as i64;
    let dy = display.y as i64;
    rx >= dx && ry >= dy && rx + rect.width as i64 <= dx + display.width as i64 && ry
        + rect.height as i64 <= dy + display.height as i64
}

/// The part of `rect` that lies on `display`, if any.
pub open spec fn spec_intersect(rect: Rect, display: Rect) -> Option<Rect> {
    let ix = if rect.x >= display.x { rect.x as int } else { display.x as int };
    let iy = if rect.y >= display.y { rect.y as int } else { display.y as int };
    let ex = if rect.x + rect.width <= display.x + display.width {
        rect.x + rect.width
    } else {
        display.x + display.width
    };
    let ey = if rect.y + rect.height <= display.y + display.height {
        rect.y + rect.height
    } else {
        display.y + display.height
    };
    if ex - ix <= 0 || ey - iy <= 0 {
        None
    } else {
        Some(Rect { x: ix as i32, y: iy as i32, width: (ex - ix) as u32, height: (ey - iy) as u32 })
    }
}

/// The part of `rect` that lies on `display`, if any: the area to read from
/// that display when a region spans several displays.
pub fn intersect(rect: Rect, display: Rect) -> (r: Option<Rect>)
    requires
        edges_fit(rect),
        edges_fit(display),
    ensures
        r == spec_intersect(rect, display),
        r matches Some(a) ==> contains_rect(rect, a) && contains_rect(display, a) && a.width > 0
            && a.height > 0,
        r is None ==> forall|px: int, py: int| !(#[trigger] covers(rect, px, py) && covers(
            display,
            px,
            py,
        )),
{
    let ix: i64 = if rect.x >= display.x {
        rect.x as i64
    } else {
        display.x as i64
    };
    let iy: i64 = if rect.y >= display.y {
        rect.y as i64
    } else {
        display.y as i64
    };
    let rex = rect.x as i64 + rect.width as i64;
    let dex = display.x as i64 + display.width as i64;
    let rey = rect.y as i64 + rect.height as i64;
    let dey = display.y as i64 + display.height as i64;
    let ex = if rex <= dex {
        rex
    } else {
        dex
    };
    let ey = if rey <= dey {
        rey
    } else {
        dey
    };
    if ex - ix <= 0 || ey - iy <= 0 {
        None
    } else {
        Some(Rect { x: ix as i32, y: iy as i32, width: (ex - ix) as u32, height: (ey - iy) as u32 })
    }
}

/// An area of the region, read from one display.
pub struct Piece {
    pub area: Rect,
    pub image: PixelBuffer,
}

/// Index of byte `ch` of pixel `(px, py)` in a row-major RGBA buffer of
/// width `w`.
pub open spec fn byte_at(w: int, px: int, py: int, ch: int) -> int {
    (py * w + px) * 4 + ch
}

/// Whether a piece can be stitched into an image of `rect`: it lies inside
/// the region and its image has the size of its area.
pub open spec fn piece_fits(rect: Rect, p: Piece) -> bool {
    contains_rect(rect, p.area) && p.image.spec_width() == p.area.width && p.image.spec_height()
        == p.area.height
}

/// Byte `ch` of pixel `(px, py)` of the stitched image of `rect`: taken
/// from the last piece that covers the pixel, or 0 where none does.
pub open spec fn stitched_byte(rect: Rect, pieces: Seq<Piece>, px: int, py: int, ch: int) -> int
    decreases pieces.len(),
{
    if pieces.len() == 0 {
        0
    } else {
        let p = pieces.last();
        let ax = rect.x + px;
        let ay = rect.y + py;
        if covers(p.area, ax, ay) {
            p.image.bytes()[byte_at(p.area.width as int, ax - p.area.x, ay - p.area.y, ch)] as int
        } else {
            stitched_byte(rect, pieces.drop_last(), px, py, ch)
        }
    }
}

proof fn lemma_byte_at_bound(w: int, h: int, px: int, py: int, ch: int)
    requires
        0 <= px < w,
        0 <= py < h,
        0 <= ch < 4,
    ensures
        0 <= byte_at(w, px, py, ch) < w * h * 4,
{
    assert(0 <= py * w + px < w * h) by (nonlinear_arith)
        requires
            0 <= px < w,
            0 <= py < h,
    ;
}

proof fn lemma_byte_at_injective(w: int, px1: int, py1: int, ch1: int, px2: int, py2: int, ch2: int)
    requires
        0 <= px1 < w,
        0 <= px2 < w,
        0 <= py1,
        0 <= py2,
        0 <= ch1 < 4,
        0 <= ch2 < 4,
        byte_at(w, px1, py1, ch1) == byte_at(w, px2, py2, ch2),
    ensures
        px1 == px2 && py1 == py2 && ch1 == ch2,
{
    let q1 = py1 * w + px1;
    let q2 = py2 * w + px2;
    assert(q1 == q2 && ch1 == ch2);
    vstd::arithmetic::div_mod::lemma_fundamental_div_mod_converse(q1, w, py1, px1);
    vstd::arithmetic::div_mod::lemma_fundamental_div_mod_converse(q2, w, py2, px2);
}


/// Whether pixel `(px, py)` of the region (relative to the region's corner)
/// has been copied from the piece at offset `(dx, dy)` of size `iw` x `ih`
/// once rows before `cy`, and pixels before `col` of row `cy`, are done.
pub open spec fn copied(px: int, py: int, dx: int, dy: int, iw: int, ih: int, cy: int, col: int) -> bool {
    let ax = px - dx;
    let ay = py - dy;
    0 <= ax < iw && 0 <= ay < ih && (ay < cy || (ay == cy && ax < col))
}

fn blit(data: &mut Vec<u8>, rect: Rect, piece: &Piece, Ghost(before): Ghost<Seq<Piece>>)
    requires
        old(data).len() == rgba_len(rect.width, rect.height),
        piece_fits(rect, *piece),
        forall|px: int, py: int, ch: int|
            0 <= px < rect.width && 0 <= py < rect.height && 0 <= ch < 4 ==> #[trigger] old(data)@[byte_at(rect.width as int, px, py, ch)] == stitched_byte(rect, before, px, py, ch),
    ensures
        final(data).len() == old(data).len(),
        forall|px: int, py: int, ch: int|
            0 <= px < rect.width && 0 <= py < rect.height && 0 <= ch < 4 ==> #[trigger] final(data)@[byte_at(rect.width as int, px, py, ch)] == stitched_byte(
                rect,
                before.push(*piece),
                px,
                py,
                ch,
            ),
{
    let w = rect.width as usize;
    let hh = rect.height as usize;
    let dx = (piece.area.x as i64 - rect.x as i64) as usize;
    let dy = (piece.area.y as i64 - rect.y as i64) as usize;
    let iw = piece.area.width as usize;
    let ih = piece.area.height as usize;
    let src = piece.image.as_raw();
    let ghost base = data@;
    let ghost wi = w as int;
    proof {
        assert(before.push(*piece).drop_last() =~= before);
        assert(before.push(*piece).last() == *piece);
    }
    let mut cy: usize = 0;
    while cy < ih
        invariant
            w == rect.width,
            hh == rect.height,
            wi == w as int,
            dx == piece.area.x - rect.x,
            dy == piece.area.y - rect.y,
            iw == piece.area.width,
            ih == piece.area.height,
            dx + iw <= w,
            dy + ih <= hh,
            src@ == piece.image.bytes(),
            src.len() == rgba_len(piece.area.width, piece.area.height),
            data.len() == rgba_len(rect.width, rect.height),
            base.len() == data.len(),
            cy <= ih,
            forall|px: int, py: int, ch: int|
                0 <= px < w && 0 <= py < hh && 0 <= ch < 4 ==> #[trigger] data@[byte_at(
                    wi,
                    px,
                    py,
                    ch,
                )] == if copied(px, py, dx as int, dy as int, iw as int, ih as int, cy as int, 0) {
                    src@[byte_at(iw as int, px - dx, py - dy, ch)] as int
                } else {
                    base[byte_at(wi, px, py, ch)] as int
                },
        decreases ih - cy,
    {
        let mut col: usize = 0;
        while col < iw
            invariant
                w == rect.width,
                hh == rect.height,
                wi == w as int,
                dx + iw <= w,
                dy + ih <= hh,
                src.len() == iw as int * ih as int * 4,
                data.len() == wi * hh as int * 4,
                base.len() == data.len(),
                cy < ih,
                col <= iw,
                forall|px: int, py: int, ch: int|
                    0 <= px < w && 0 <= py < hh && 0 <= ch < 4 ==> #[trigger] data@[byte_at(
                        wi,
                        px,
                        py,
                        ch,
                    )] == if copied(
                        px,
                        py,
                        dx as int,
                        dy as int,
                        iw as int,
                        ih as int,
                        cy as int,
                        col as int,
                    ) {
                        src@[byte_at(iw as int, px - dx, py - dy, ch)] as int
                    } else {
                        base[byte_at(wi, px, py, ch)] as int
                    },
            decreases iw - col,
        {
            let tx = dx + col;
            let ty = dy + cy;
            proof {
                lemma_byte_at_bound(wi, hh as int, tx as int, ty as int, 3);
                lemma_byte_at_bound(iw as int, ih as int, col as int, cy as int, 3);
            }
            let d = (ty * w + tx) * 4;
            let s = (cy * iw + col) * 4;
            let ghost prev = data@;
            data.set(d, src[s]);
            data.set(d + 1, src[s + 1]);
            data.set(d + 2, src[s + 2]);
            data.set(d + 3, src[s + 3]);
            proof {
                assert forall|px: int, py: int, ch: int|
                    0 <= px < w && 0 <= py < hh && 0 <= ch < 4 implies #[trigger] data@[byte_at(
                    wi,
                    px,
                    py,
                    ch,
                )] == if copied(
                    px,
                    py,
                    dx as int,
                    dy as int,
                    iw as int,
                    ih as int,
                    cy as int,
                    col + 1,
                ) {
                    src@[byte_at(iw as int, px - dx, py - dy, ch)] as int
                } else {
                    base[byte_at(wi, px, py, ch)] as int
                } by {
                    let k = byte_at(wi, px, py, ch);
                    lemma_byte_at_bound(wi, hh as int, px, py, ch);
                    if px == tx && py == ty {
                        assert(k == d + ch);
                        assert(byte_at(iw as int, px - dx, py - dy, ch) == s + ch);
                    } else {
                        assert(prev[k] == data@[k]) by {
                            if k == d || k == d + 1 || k == d + 2 || k == d + 3 {
                                lemma_byte_at_injective(wi, px, py, ch, tx as int, ty as int, k - d);
                            }
                        }
                    }
                }
            }
            col = col + 1;
        }
        cy = cy + 1;
    }
    proof {
        assert forall|px: int, py: int, ch: int|
            0 <= px < rect.width && 0 <= py < rect.height && 0 <= ch < 4 implies #[trigger] data@[byte_at(
            rect.width as int,
            px,
            py,
            ch,
        )] == stitched_byte(rect, before.push(*piece), px, py, ch) by {
            let k = byte_at(wi, px, py, ch);
            assert(data@[k] == if copied(px, py, dx as int, dy as int, iw as int, ih as int, ih as int, 0) {
                src@[byte_at(iw as int, px - dx, py - dy, ch)] as int
            } else {
                base[k] as int
            });
        }
    }
}

/// Stitches the pieces read from the displays into one image of the
/// region; pixels no piece covers stay transparent black, and where pieces
/// overlap the later one wins.
pub fn stitch_region(rect: Rect, pieces: &Vec<Piece>) -> (img: PixelBuffer)
    requires
        rgba_len(rect.width, rect.height) <= usize::MAX,
        forall|i: int| 0 <= i < pieces.len() ==> piece_fits(rect, #[trigger] pieces@[i]),
    ensures
        img.spec_width() == rect.width,
        img.spec_height() == rect.height,
        forall|px: int, py: int, ch: int|
            0 <= px < rect.width && 0 <= py < rect.height && 0 <= ch < 4 ==> #[trigger] img.bytes()[byte_at(
                rect.width as int,
                px,
                py,
                ch,
            )] == stitched_byte(rect, pieces@, px, py, ch),
{
    let mut data = PixelBuffer::new(rect.width, rect.height).into_raw();
    proof {
        assert forall|px: int, py: int, ch: int|
            0 <= px < rect.width && 0 <= py < rect.height && 0 <= ch < 4 implies #[trigger] data@[byte_at(
            rect.width as int,
            px,
            py,
            ch,
        )] == stitched_byte(rect, pieces@.take(0), px, py, ch) by {
            lemma_byte_at_bound(rect.width as int, rect.height as int, px, py, ch);
        }
    }
    let mut i: usize = 0;
    while i < pieces.len()
        invariant
            i <= pieces.len(),
            data.len() == rgba_len(rect.width, rect.height),
            forall|j: int| 0 <= j < pieces.len() ==> piece_fits(rect, #[trigger] pieces@[j]),
            forall|px: int, py: int, ch: int|
                0 <= px < rect.width && 0 <= py < rect.height && 0 <= ch < 4 ==> #[trigger] data@[byte_at(
                    rect.width as int,
                    px,
                    py,
                    ch,
                )] == stitched_byte(rect, pieces@.take(i as int), px, py, ch),
        decreases pieces.len() - i,
    {
        blit(&mut data, rect, &pieces[i], Ghost(pieces@.take(i as int)));
        proof {
            assert(pieces@.take(i as int).push(pieces@[i as int]) =~= pieces@.take(i + 1));
        }
        i = i + 1;
    }
    proof {
        assert(pieces@.take(pieces.len() as int) =~= pieces@);
    }
    PixelBuffer::from_parts(rect.width, rect.height, data)
}


/// A region read in one piece from one display (the fast path) gives the
/// same image as stitching that single piece (the general path).
pub proof fn law_single_piece_is_the_image(rect: Rect, p: Piece, px: int, py: int, ch: int)
    requires
        p.area == rect,
        0 <= px < rect.width,
        0 <= py < rect.height,
        0 <= ch < 4,
    ensures
        stitched_byte(rect, seq![p], px, py, ch) == p.image.bytes()[byte_at(
            rect.width as int,
            px,
            py,
            ch,
        )] as int,
{
}

/// Where no display covers a pixel of the region, the stitched image is
/// transparent black there.
pub proof fn law_uncovered_pixels_are_blank(
    rect: Rect,
    pieces: Seq<Piece>,
    px: int,
    py: int,
    ch: int,
)
    requires
        forall|i: int| 0 <= i < pieces.len() ==> !covers(#[trigger] pieces[i].area, rect.x + px, rect.y + py),
    ensures
        stitched_byte(rect, pieces, px, py, ch) == 0,
    decreases pieces.len(),
{
    if pieces.len() > 0 {
        assert(!covers(pieces[pieces.len() - 1].area, rect.x + px, rect.y + py));
        law_uncovered_pixels_are_blank(rect, pieces.drop_last(), px, py, ch);
    }
}

/// The magnifier area always starts at non-negative coordinates and keeps
/// the requested size; away from the top-left edges it is centred on the
/// point.
pub proof fn law_magnifier_area(x: i32, y: i32, size: u32)
    requires
        x - size / 2 >= i32::MIN,
        y - size / 2 >= i32::MIN,
    ensures
        ({
            let r = spec_magnifier_rect(x, y, size);
            &&& r.x >= 0 && r.y >= 0
            &&& r.width == size && r.height == size
            &&& x >= size / 2 ==> r.x + size / 2 == x
            &&& y >= size / 2 ==> r.y + size / 2 == y
        }),
{
}

}
