//! GIF recording: the uniform colour palette, the mapping of pixels onto
//! it, frame timing, and the recorder's state machine.

use vstd::prelude::*;
use crate::capture::pixels::{rgba_len, PixelBuffer};
use crate::error::GifError;

verus! {

/// `x` limited to `lo..=hi`.
pub open spec fn clamp(x: int, lo: int, hi: int) -> int {
    if x < lo {
        lo
    } else if x > hi {
        hi
    } else {
        x
    }
}

/// The largest `k` with `k * k * k <= n`.
pub open spec fn cube_root_floor(n: nat) -> nat
    decreases n,
{
    if n == 0 {
        0
    } else {
        let k = cube_root_floor((n - 1) as nat);
        if (k + 1) * (k + 1) * (k + 1) <= n {
            k + 1
        } else {
            k
        }
    }
}

/// Number of colours a palette built for `max_colors` holds.
pub open spec fn palette_colors(max_colors: int) -> int {
    clamp(max_colors, 2, 256)
}

/// Number of levels per channel of the uniform grid for `colors` colours:
/// the cube root, rounded down, kept within `2..=6`.
pub open spec fn palette_side(colors: nat) -> int {
    clamp(cube_root_floor(colors) as int, 2, 6)
}

/// Value of the `k`-th of `side` evenly spaced levels from 0 to 255.
pub open spec fn level(k: int, side: int) -> int {
    k * 255 / (side - 1)
}

/// Channel `c` (0 red, 1 green, 2 blue) of grid colour number `i`, as a
/// level index: red varies slowest, blue fastest.
pub open spec fn grid_component(i: int, c: int, side: int) -> int {
    if c == 0 {
        i / (side * side)
    } else if c == 1 {
        (i / side) % side
    } else {
        i % side
    }
}

/// Byte `c` of colour `i` in the palette of `colors` colours: the grid
/// colours in order, then black for the entries past the grid.
pub open spec fn palette_byte(colors: int, i: int, c: int) -> int {
    let side = palette_side(colors as nat);
    if i < side * side * side {
        level(grid_component(i, c, side), side)
    } else {
        0
    }
}

proof fn lemma_cube_monotone(a: int, b: int)
    requires
        0 <= a <= b,
    ensures
        a * a * a <= b * b * b,
        a < b ==> a * a * a < b * b * b,
{
    assert(a * a <= b * b) by (nonlinear_arith)
        requires
            0 <= a <= b,
    ;
    assert(a * a * a <= b * b * b) by (nonlinear_arith)
        requires
            0 <= a <= b,
            a * a <= b * b,
    ;
    if a < b {
        assert(a * a * a < b * b * b) by (nonlinear_arith)
            requires
                0 <= a < b,
                a * a <= b * b,
        ;
    }
}

/// `cube_root_floor(n)` is the `k` with `k^3 <= n < (k+1)^3`.
pub proof fn lemma_cube_root_floor(n: nat)
    ensures
        cube_root_floor(n) * cube_root_floor(n) * cube_root_floor(n) <= n,
        n < (cube_root_floor(n) + 1) * (cube_root_floor(n) + 1) * (cube_root_floor(n) + 1),
    decreases n,
{
    if n > 0 {
        lemma_cube_root_floor((n - 1) as nat);
        let k = cube_root_floor((n - 1) as nat);
        let c0 = k * k * k;
        let c1 = (k + 1) * (k + 1) * (k + 1);
        let c2 = (k + 2) * (k + 2) * (k + 2);
        lemma_cube_monotone(k + 1 as int, k + 2 as int);
        assert(c0 <= n - 1 && n - 1 < c1);
        assert(c1 < c2);
        if c1 <= n {
            assert(cube_root_floor(n) == k + 1);
            assert(cube_root_floor(n) * cube_root_floor(n) * cube_root_floor(n) == c1);
            assert((cube_root_floor(n) + 1) * (cube_root_floor(n) + 1) * (cube_root_floor(n) + 1)
                == c2);
        } else {
            assert(cube_root_floor(n) == k);
            assert(cube_root_floor(n) * cube_root_floor(n) * cube_root_floor(n) == c0);
            assert((cube_root_floor(n) + 1) * (cube_root_floor(n) + 1) * (cube_root_floor(n) + 1)
                == c1);
        }
    } else {
        assert(cube_root_floor(0) == 0);
        assert((cube_root_floor(n) + 1) * (cube_root_floor(n) + 1) * (cube_root_floor(n) + 1) == 1)
            by (nonlinear_arith)
            requires
                cube_root_floor(n) == 0,
        ;
    }
}

proof fn lemma_cube_root_unique(n: nat, k: nat)
    requires
        k * k * k <= n,
        n < (k + 1) * (k + 1) * (k + 1),
    ensures
        cube_root_floor(n) == k,
{
    lemma_cube_root_floor(n);
    let r = cube_root_floor(n);
    if r < k {
        lemma_cube_monotone(r + 1 as int, k as int);
    } else if r > k {
        lemma_cube_monotone(k + 1 as int, r as int);
    }
}

fn cube(x: usize) -> (r: usize)
    requires
        x <= 8,
    ensures
        r == x * x * x,
        r <= 512,
{
    proof {
        lemma_cube_monotone(x as int, 8);
        assert(x * x <= 64) by (nonlinear_arith)
            requires
                x <= 8,
        ;
    }
    x * x * x
}

/// Levels per channel for a palette of `colors` colours.
pub fn palette_side_of(colors: usize) -> (s: usize)
    ensures
        s == palette_side(colors as nat),
        2 <= s <= 6,
{
    let mut k: usize = 0;
    while k < 7 && cube(k + 1) <= colors
        invariant
            k <= 7,
            k * k * k <= colors,
        decreases 7 - k,
    {
        k = k + 1;
    }
    proof {
        lemma_cube_root_floor(colors as nat);
        let r = cube_root_floor(colors as nat);
        if k < 7 {
            lemma_cube_root_unique(colors as nat, k as nat);
        } else if r < 7 {
            lemma_cube_monotone(r + 1 as int, 7 as int);
        }
    }
    if k < 2 {
        2
    } else if k > 6 {
        6
    } else {
        k
    }
}

proof fn lemma_grid(i: int, side: int)
    requires
        2 <= side <= 6,
        0 <= i < side * side * side,
    ensures
        0 <= grid_component(i, 0, side) < side,
        0 <= grid_component(i, 1, side) < side,
        0 <= grid_component(i, 2, side) < side,
        i == grid_component(i, 0, side) * side * side + grid_component(i, 1, side) * side
            + grid_component(i, 2, side),
{
    let s = side;
    let q = i / s;
    vstd::arithmetic::div_mod::lemma_fundamental_div_mod(i, s);
    vstd::arithmetic::div_mod::lemma_mod_pos_bound(i, s);
    vstd::arithmetic::div_mod::lemma_div_pos_is_pos(i, s);
    vstd::arithmetic::div_mod::lemma_fundamental_div_mod(q, s);
    vstd::arithmetic::div_mod::lemma_mod_pos_bound(q, s);
    vstd::arithmetic::div_mod::lemma_div_pos_is_pos(q, s);
    vstd::arithmetic::div_mod::lemma_div_denominator(i, s, s);
    assert(i < (s * s) * s) by (nonlinear_arith)
        requires
            i < s * s * s,
    ;
    assert(0 < s * s) by (nonlinear_arith)
        requires
            s >= 2,
    ;
    vstd::arithmetic::div_mod::lemma_multiply_divide_lt(i, s * s, s);
    let a0 = q / s;
    let b0 = q % s;
    let c0 = i % s;
    assert(i == a0 * s * s + b0 * s + c0) by (nonlinear_arith)
        requires
            i == s * q + c0,
            q == s * a0 + b0,
    ;
}

proof fn lemma_level_range(k: int, side: int)
    requires
        2 <= side <= 6,
        0 <= k < side,
    ensures
        0 <= level(k, side) <= 255,
{
    let d = side - 1;
    assert(0 <= k * 255 <= 255 * d) by (nonlinear_arith)
        requires
            0 <= k <= d,
    ;
    vstd::arithmetic::div_mod::lemma_div_pos_is_pos(k * 255, d);
    vstd::arithmetic::div_mod::lemma_div_is_ordered(k * 255, 255 * d, d);
    vstd::arithmetic::div_mod::lemma_fundamental_div_mod_converse(255 * d, d, 255, 0);
}

fn level_byte(k: usize, side: usize) -> (b: u8)
    requires
        2 <= side <= 6,
        k < side,
    ensures
        b == level(k as int, side as int),
{
    proof {
        lemma_level_range(k as int, side as int);
    }
    ((k * 255) / (side - 1)) as u8
}

/// Builds a uniform RGB palette of `max_colors` entries (kept within
/// `2..=256`), three bytes per entry.
pub fn build_uniform_palette(max_colors: usize) -> (palette: Vec<u8>)
    ensures
        palette.len() == 3 * palette_colors(max_colors as int),
        forall|j: int|
            0 <= j < palette.len() ==> palette[j] == palette_byte(
                palette_colors(max_colors as int),
                j / 3,
                j % 3,
            ),
{
    let n: usize = if max_colors < 2 {
        2
    } else if max_colors > 256 {
        256
    } else {
        max_colors
    };
    let side = palette_side_of(n);
    let side_cube = cube(side);
    let mut palette: Vec<u8> = Vec::new();
    let mut idx: usize = 0;
    while idx < n
        invariant
            n == palette_colors(max_colors as int),
            2 <= n <= 256,
            side == palette_side(n as nat),
            2 <= side <= 6,
            side_cube == side * side * side,
            idx <= n,
            palette.len() == 3 * idx,
            forall|j: int| 0 <= j < palette.len() ==> palette[j] == palette_byte(n as int, j / 3, j % 3),
        decreases n - idx,
    {
        if idx < side_cube {
            proof {
                lemma_grid(idx as int, side as int);
            }
            proof {
                assert(side * side <= 36) by (nonlinear_arith)
                    requires
                        side <= 6,
                ;
            }
            let r = idx / (side * side);
            let g = (idx / side) % side;
            let b = idx % side;
            palette.push(level_byte(r, side));
            palette.push(level_byte(g, side));
            palette.push(level_byte(b, side));
        } else {
            palette.push(0u8);
            palette.push(0u8);
            palette.push(0u8);
        }
        idx = idx + 1;
    }
    palette
}


/// How far channel value `c` is from the `k`-th level.
pub open spec fn channel_distance(c: int, k: int, side: int) -> int {
    let d = c - level(k, side);
    if d < 0 {
        -d
    } else {
        d
    }
}

/// The first of levels `0..m` closest to `c`.
pub open spec fn nearest_upto(c: int, side: int, m: nat) -> int
    decreases m,
{
    if m <= 1 {
        0
    } else {
        let b = nearest_upto(c, side, (m - 1) as nat);
        if channel_distance(c, m - 1, side) < channel_distance(c, b, side) {
            m - 1
        } else {
            b
        }
    }
}

/// The level index closest to channel value `c` (the first one on a tie).
pub open spec fn nearest_level(c: int, side: int) -> int {
    nearest_upto(c, side, side as nat)
}

/// Number of the grid colour with level indices `r`, `g`, `b`.
pub open spec fn grid_index(r: int, g: int, b: int, side: int) -> int {
    r * side * side + g * side + b
}

/// The first of colours `0..m` of the palette of `colors` colours that is
/// closest to `(r, g, b)`.
pub open spec fn nearest_entry_upto(r: int, g: int, b: int, colors: int, m: nat) -> int
    decreases m,
{
    if m <= 1 {
        0
    } else {
        let k = nearest_entry_upto(r, g, b, colors, (m - 1) as nat);
        if palette_distance(r, g, b, colors, m - 1) < palette_distance(r, g, b, colors, k) {
            m - 1
        } else {
            k
        }
    }
}

/// The palette index colour `(r, g, b)` is mapped to, in the palette of
/// `colors` colours. When the palette holds the whole grid, it is the grid
/// colour whose every channel is the level nearest to the pixel's; when it
/// holds only part of the grid (fewer than 8 colours), it is the first of
/// the palette's colours nearest to the pixel's.
pub open spec fn mapped_index(r: int, g: int, b: int, colors: int) -> int {
    let side = palette_side(colors as nat);
    if side * side * side <= colors {
        grid_index(nearest_level(r, side), nearest_level(g, side), nearest_level(b, side), side)
    } else {
        nearest_entry_upto(r, g, b, colors, colors as nat)
    }
}

/// Palette index of pixel `i` of an RGBA byte sequence, in the palette of
/// `colors` colours.
pub open spec fn pixel_index(bytes: Seq<u8>, i: int, colors: int) -> int {
    mapped_index(bytes[4 * i] as int, bytes[4 * i + 1] as int, bytes[4 * i + 2] as int, colors)
}

/// `nearest_entry_upto` picks one of the first `m` colours, and none of
/// them is closer.
proof fn lemma_nearest_entry_upto(r: int, g: int, b: int, colors: int, m: nat)
    requires
        m >= 1,
    ensures
        0 <= nearest_entry_upto(r, g, b, colors, m) < m,
        forall|j: int|
            0 <= j < m ==> palette_distance(r, g, b, colors, nearest_entry_upto(r, g, b, colors, m))
                <= #[trigger] palette_distance(r, g, b, colors, j),
    decreases m,
{
    if m > 1 {
        lemma_nearest_entry_upto(r, g, b, colors, (m - 1) as nat);
    }
}

/// `nearest_upto` picks one of the first `m` levels, and none of them is
/// closer.
pub proof fn lemma_nearest_upto(c: int, side: int, m: nat)
    requires
        m >= 1,
    ensures
        0 <= nearest_upto(c, side, m) < m,
        forall|j: int|
            0 <= j < m ==> channel_distance(c, nearest_upto(c, side, m), side)
                <= #[trigger] channel_distance(c, j, side),
    decreases m,
{
    if m > 1 {
        lemma_nearest_upto(c, side, (m - 1) as nat);
    }
}

fn distance_to_level(c: u8, k: usize, side: usize) -> (d: u8)
    requires
        2 <= side <= 6,
        k < side,
    ensures
        d == channel_distance(c as int, k as int, side as int),
{
    let l = level_byte(k, side);
    if c >= l {
        c - l
    } else {
        l - c
    }
}

fn nearest_level_of(c: u8, side: usize) -> (k: usize)
    requires
        2 <= side <= 6,
    ensures
        k == nearest_level(c as int, side as int),
        k < side,
{
    let mut best: usize = 0;
    let mut best_d = distance_to_level(c, 0, side);
    let mut j: usize = 1;
    while j < side
        invariant
            2 <= side <= 6,
            1 <= j <= side,
            best == nearest_upto(c as int, side as int, j as nat),
            best < j,
            best_d == channel_distance(c as int, best as int, side as int),
        decreases side - j,
    {
        let d = distance_to_level(c, j, side);
        if d < best_d {
            best = j;
            best_d = d;
        }
        j = j + 1;
    }
    best
}

fn abs_diff(a: u8, b: u8) -> (d: u32)
    ensures
        d as int * d as int == (a - b) * (a - b),
        d <= 255,
{
    let d: u8 = if a >= b {
        a - b
    } else {
        b - a
    };
    assert(d as int * d as int == (a - b) * (a - b)) by (nonlinear_arith)
        requires
            d == a - b || d == b - a,
    ;
    d as u32
}

/// Squared distance from `(r, g, b)` to colour `j` of the palette of
/// `colors` colours, for a colour of the grid.
fn entry_distance(r: u8, g: u8, b: u8, j: usize, colors: usize, side: usize) -> (d: u32)
    requires
        side == palette_side(colors as nat),
        2 <= side <= 6,
        j < side * side * side,
    ensures
        d == palette_distance(r as int, g as int, b as int, colors as int, j as int),
{
    proof {
        lemma_grid(j as int, side as int);
        assert(side * side <= 36) by (nonlinear_arith)
            requires
                side <= 6,
        ;
    }
    let lr = level_byte(j / (side * side), side);
    let lg = level_byte((j / side) % side, side);
    let lb = level_byte(j % side, side);
    let dr = abs_diff(r, lr);
    let dg = abs_diff(g, lg);
    let db = abs_diff(b, lb);
    assert(dr * dr <= 65025 && dg * dg <= 65025 && db * db <= 65025) by (nonlinear_arith)
        requires
            dr <= 255,
            dg <= 255,
            db <= 255,
    ;
    dr * dr + dg * dg + db * db
}

/// The first of the palette's colours nearest to `(r, g, b)`, for a palette
/// holding only part of the grid.
fn nearest_entry_of(r: u8, g: u8, b: u8, colors: usize, side: usize) -> (k: usize)
    requires
        side == palette_side(colors as nat),
        2 <= side <= 6,
        colors < side * side * side,
    ensures
        k == nearest_entry_upto(r as int, g as int, b as int, colors as int, colors as nat),
        k < side * side * side,
{
    if colors <= 1 {
        return 0;
    }
    let mut best: usize = 0;
    let mut best_d = entry_distance(r, g, b, 0, colors, side);
    let mut j: usize = 1;
    while j < colors
        invariant
            side == palette_side(colors as nat),
            2 <= side <= 6,
            colors < side * side * side,
            1 <= j <= colors,
            best == nearest_entry_upto(r as int, g as int, b as int, colors as int, j as nat),
            best < j,
            best_d == palette_distance(r as int, g as int, b as int, colors as int, best as int),
        decreases colors - j,
    {
        let d = entry_distance(r, g, b, j, colors, side);
        if d < best_d {
            best = j;
            best_d = d;
        }
        j = j + 1;
    }
    best
}

/// A mapped index always fits a byte: it is below the grid's size.
proof fn lemma_mapped_index_bound(r: int, g: int, b: int, colors: int)
    requires
        0 <= colors,
        0 <= r <= 255,
        0 <= g <= 255,
        0 <= b <= 255,
    ensures
        0 <= mapped_index(r, g, b, colors) < palette_side(colors as nat) * palette_side(colors as nat) * palette_side(colors as nat),
        palette_side(colors as nat) * palette_side(colors as nat) * palette_side(colors as nat) <= 216,
{
    let side = palette_side(colors as nat);
    lemma_cube_monotone(side, 6);
    assert(6 * 6 * 6 == 216int) by (nonlinear_arith);
    if side * side * side <= colors {
        lemma_nearest_upto(r, side, side as nat);
        lemma_nearest_upto(g, side, side as nat);
        lemma_nearest_upto(b, side, side as nat);
        lemma_grid_index(nearest_level(r, side), nearest_level(g, side), nearest_level(b, side), side);
    } else if colors >= 1 {
        lemma_nearest_entry_upto(r, g, b, colors, colors as nat);
    }
}

/// Maps each pixel to the nearest colour of the uniform palette of
/// `palette.len() / 3` colours, one index per pixel, row by row. With the
/// whole grid in the palette, each channel goes to its nearest level;
/// with only part of it, the pixel goes to the first nearest colour of the
/// palette. Every index names a colour of the palette (when it has one).
pub fn map_pixels_to_palette(image: &PixelBuffer, palette: &[u8]) -> (indices: Vec<u8>)
    ensures
        indices.len() == image.spec_width() as int * image.spec_height() as int,
        forall|i: int|
            0 <= i < indices.len() ==> indices[i] == pixel_index(
                image.bytes(),
                i,
                (palette@.len() / 3) as int,
            ),
        palette@.len() >= 3 ==> forall|i: int|
            0 <= i < indices.len() ==> #[trigger] indices[i] < palette@.len() / 3,
{
    let colors = palette.len() / 3;
    let side = palette_side_of(colors);
    let side_cube = cube(side);
    let data = image.as_raw();
    let count = data.len() / 4;
    proof {
        assert(side * side <= 36) by (nonlinear_arith)
            requires
                side <= 6,
        ;
    }
    let mut indices: Vec<u8> = Vec::new();
    let mut i: usize = 0;
    while i < count
        invariant
            colors == palette@.len() / 3,
            side == palette_side(colors as nat),
            2 <= side <= 6,
            side * side <= 36,
            side_cube == side * side * side,
            data@ == image.bytes(),
            data.len() == rgba_len(image.spec_width(), image.spec_height()),
            count == data.len() / 4,
            i <= count,
            indices.len() == i,
            forall|j: int| 0 <= j < i ==> indices[j] == pixel_index(data@, j, colors as int),
            colors >= 1 ==> forall|j: int| 0 <= j < i ==> #[trigger] indices[j] < colors,
        decreases count - i,
    {
        let pr = data[4 * i];
        let pg = data[4 * i + 1];
        let pb = data[4 * i + 2];
        proof {
            lemma_mapped_index_bound(pr as int, pg as int, pb as int, colors as int);
            if colors >= 1 {
                law_mapped_colour_is_nearest(colors as int, pr, pg, pb, 0);
            }
        }
        let idx: usize = if side_cube <= colors {
            let r = nearest_level_of(pr, side);
            let g = nearest_level_of(pg, side);
            let b = nearest_level_of(pb, side);
            proof {
                assert(r * (side * side) <= 5 * 36) by (nonlinear_arith)
                    requires
                        r < side,
                        side <= 6,
                        side * side <= 36,
                ;
                assert(g * side <= 30) by (nonlinear_arith)
                    requires
                        g < side,
                        side <= 6,
                ;
                assert(r * side * side == r * (side * side)) by (nonlinear_arith);
            }
            r * (side * side) + g * side + b
        } else {
            nearest_entry_of(pr, pg, pb, colors, side)
        };
        assert(idx == pixel_index(data@, i as int, colors as int));
        indices.push(idx as u8);
        i = i + 1;
    }
    proof {
        if palette@.len() >= 3 {
            assert(colors >= 1);
        }
    }
    indices
}

/// Quantises an image to a uniform palette of `max_colors` colours (kept
/// within `2..=256`): the index of each pixel, and the palette.
pub fn quantize_frame(image: &PixelBuffer, max_colors: usize) -> (r: (Vec<u8>, Vec<u8>))
    ensures
        r.1.len() == 3 * palette_colors(max_colors as int),
        forall|j: int|
            0 <= j < r.1.len() ==> r.1[j] == palette_byte(
                palette_colors(max_colors as int),
                j / 3,
                j % 3,
            ),
        r.0.len() == image.spec_width() as int * image.spec_height() as int,
        forall|i: int|
            0 <= i < r.0.len() ==> r.0[i] == pixel_index(
                image.bytes(),
                i,
                palette_colors(max_colors as int),
            ),
        forall|i: int|
            0 <= i < r.0.len() ==> #[trigger] r.0[i] < palette_colors(max_colors as int),
{
    let palette = build_uniform_palette(max_colors);
    let indices = map_pixels_to_palette(image, palette.as_slice());
    assert(palette@.len() / 3 == palette_colors(max_colors as int));
    (indices, palette)
}


/// Squared RGB distance from colour `(r, g, b)` to colour `i` of the
/// palette of `colors` colours.
pub open spec fn palette_distance(r: int, g: int, b: int, colors: int, i: int) -> int {
    let dr = r - palette_byte(colors, i, 0);
    let dg = g - palette_byte(colors, i, 1);
    let db = b - palette_byte(colors, i, 2);
    dr * dr + dg * dg + db * db
}

proof fn lemma_grid_index(r: int, g: int, b: int, side: int)
    requires
        2 <= side <= 6,
        0 <= r < side,
        0 <= g < side,
        0 <= b < side,
    ensures
        0 <= grid_index(r, g, b, side) < side * side * side,
        grid_component(grid_index(r, g, b, side), 0, side) == r,
        grid_component(grid_index(r, g, b, side), 1, side) == g,
        grid_component(grid_index(r, g, b, side), 2, side) == b,
{
    let s = side;
    let i = grid_index(r, g, b, s);
    let low = g * s + b;
    assert(g * s <= (s - 1) * s) by (nonlinear_arith)
        requires
            0 <= g < s,
    ;
    assert(0 <= low < s * s) by (nonlinear_arith)
        requires
            low == g * s + b,
            0 <= g,
            g * s <= (s - 1) * s,
            0 <= b < s,
    ;
    assert(0 <= i < s * s * s) by (nonlinear_arith)
        requires
            i == r * s * s + g * s + b,
            0 <= r < s,
            0 <= low < s * s,
            low == g * s + b,
    ;
    assert(i == (r * s + g) * s + b) by (nonlinear_arith)
        requires
            i == r * s * s + g * s + b,
    ;
    assert(i == r * (s * s) + low) by (nonlinear_arith)
        requires
            i == r * s * s + g * s + b,
            low == g * s + b,
    ;
    vstd::arithmetic::div_mod::lemma_fundamental_div_mod_converse(i, s, r * s + g, b);
    vstd::arithmetic::div_mod::lemma_fundamental_div_mod_converse(r * s + g, s, r, g);
    vstd::arithmetic::div_mod::lemma_fundamental_div_mod_converse(i, s * s, r, low);
}

proof fn lemma_square_monotone(x: int, y: int)
    requires
        (if x < 0 { -x } else { x }) <= (if y < 0 { -y } else { y }),
    ensures
        x * x <= y * y,
{
    let ax = if x < 0 { -x } else { x };
    let ay = if y < 0 { -y } else { y };
    assert(ax * ax <= ay * ay) by (nonlinear_arith)
        requires
            0 <= ax <= ay,
    ;
    assert(x * x == ax * ax) by (nonlinear_arith)
        requires
            ax == x || ax == -x,
    ;
    assert(y * y == ay * ay) by (nonlinear_arith)
        requires
            ay == y || ay == -y,
    ;
}

/// The index a pixel's colour is mapped to names a colour of the palette,
/// and no colour of the palette is closer to the pixel's colour.
pub proof fn law_mapped_colour_is_nearest(colors: int, r: u8, g: u8, b: u8, j: int)
    requires
        1 <= colors,
        0 <= j < colors,
    ensures
        ({
            let idx = mapped_index(r as int, g as int, b as int, colors);
            &&& 0 <= idx < colors
            &&& palette_distance(r as int, g as int, b as int, colors, idx) <= palette_distance(
                r as int,
                g as int,
                b as int,
                colors,
                j,
            )
        }),
{
    let side = palette_side(colors as nat);
    if side * side * side <= colors {
        let nr = nearest_level(r as int, side);
        let ng = nearest_level(g as int, side);
        let nb = nearest_level(b as int, side);
        lemma_nearest_upto(r as int, side, side as nat);
        lemma_nearest_upto(g as int, side, side as nat);
        lemma_nearest_upto(b as int, side, side as nat);
        lemma_grid_index(nr, ng, nb, side);
        let idx = grid_index(nr, ng, nb, side);
        assert(palette_byte(colors, idx, 0) == level(nr, side));
        assert(palette_byte(colors, idx, 1) == level(ng, side));
        assert(palette_byte(colors, idx, 2) == level(nb, side));
        let (a0, a1, a2) = if j < side * side * side {
            lemma_grid(j, side);
            (grid_component(j, 0, side), grid_component(j, 1, side), grid_component(j, 2, side))
        } else {
            (0int, 0int, 0int)
        };
        assert(palette_byte(colors, j, 0) == level(a0, side));
        assert(palette_byte(colors, j, 1) == level(a1, side));
        assert(palette_byte(colors, j, 2) == level(a2, side));
        assert(channel_distance(r as int, nr, side) <= channel_distance(r as int, a0, side));
        assert(channel_distance(g as int, ng, side) <= channel_distance(g as int, a1, side));
        assert(channel_distance(b as int, nb, side) <= channel_distance(b as int, a2, side));
        lemma_square_monotone(r - level(nr, side), r - level(a0, side));
        lemma_square_monotone(g - level(ng, side), g - level(a1, side));
        lemma_square_monotone(b - level(nb, side), b - level(a2, side));
    } else {
        lemma_nearest_entry_upto(r as int, g as int, b as int, colors, colors as nat);
    }
}


/// Maximum GIF recording duration in seconds.
pub const MAX_RECORDING_SECONDS: u16 = 30;

/// Where the recorder is in its life cycle.
#[derive(Debug, Clone, Copy, PartialEq, Eq, Structural)]
pub enum RecorderState {
    Idle,
    Recording,
    Encoding,
}

/// Starting is allowed only from `Idle`, and moves to `Recording`.
pub open spec fn start_step(s: RecorderState) -> Option<RecorderState> {
    if s == RecorderState::Idle {
        Some(RecorderState::Recording)
    } else {
        None
    }
}

/// Stopping is allowed only while `Recording`, and moves to `Encoding`
/// until the recording thread has written the file.
pub open spec fn stop_step(s: RecorderState) -> Option<RecorderState> {
    if s == RecorderState::Recording {
        Some(RecorderState::Encoding)
    } else {
        None
    }
}

/// Marks the recorder as recording; refused with `AlreadyRecording` unless
/// it was idle, the state then unchanged.
pub fn begin_recording(state: &mut RecorderState) -> (r: Result<(), GifError>)
    ensures
        match start_step(*old(state)) {
            Some(next) => r is Ok && *final(state) == next,
            None => r matches Err(GifError::AlreadyRecording) && *final(state) == *old(state),
        },
{
    if *state != RecorderState::Idle {
        return Err(GifError::AlreadyRecording);
    }
    *state = RecorderState::Recording;
    Ok(())
}

/// Marks the recorder as encoding; refused with `NotRecording` unless it
/// was recording, the state then unchanged.
pub fn begin_stopping(state: &mut RecorderState) -> (r: Result<(), GifError>)
    ensures
        match stop_step(*old(state)) {
            Some(next) => r is Ok && *final(state) == next,
            None => r matches Err(GifError::NotRecording) && *final(state) == *old(state),
        },
{
    if *state != RecorderState::Recording {
        return Err(GifError::NotRecording);
    }
    *state = RecorderState::Encoding;
    Ok(())
}

/// A recording that reached its maximum length leaves the recorder
/// encoding, whatever state it was in.
pub open spec fn recording_timeout_step(s: RecorderState) -> RecorderState {
    RecorderState::Encoding
}

/// Ends a recording that reached its maximum length: the recorder is
/// marked as encoding and the `Timeout` error is given back.
pub fn on_recording_timeout(state: &mut RecorderState) -> (e: GifError)
    ensures
        *final(state) == recording_timeout_step(*old(state)),
        e matches GifError::Timeout(s) && s == MAX_RECORDING_SECONDS,
{
    *state = RecorderState::Encoding;
    timeout_error()
}

/// Marks the recorder idle once the GIF has been written.
pub fn finish_stopping(state: &mut RecorderState)
    ensures
        *final(state) == RecorderState::Idle,
{
    *state = RecorderState::Idle;
}

/// A recording runs from idle through recording and encoding back to idle,
/// and a second start while recording, or a stop while idle, is refused.
/// A recording that times out is left encoding, where it can be neither
/// started again nor stopped.
pub proof fn law_recorder_cycle()
    ensures
        recording_timeout_step(RecorderState::Recording) == RecorderState::Encoding,
        start_step(recording_timeout_step(RecorderState::Recording)) is None,
        stop_step(recording_timeout_step(RecorderState::Recording)) is None,
        start_step(RecorderState::Idle) == Some(RecorderState::Recording),
        stop_step(RecorderState::Recording) == Some(RecorderState::Encoding),
        start_step(RecorderState::Recording) is None,
        start_step(RecorderState::Encoding) is None,
        stop_step(RecorderState::Idle) is None,
        stop_step(RecorderState::Encoding) is None,
{
}

/// Frame rate used for timing: at least one frame per second.
pub open spec fn timing_fps(fps: u8) -> int {
    if fps == 0 {
        1
    } else {
        fps as int
    }
}

/// Milliseconds between frames.
pub fn frame_duration_ms(fps: u8) -> (ms: u64)
    ensures
        ms == 1000int / timing_fps(fps),
{
    let f: u64 = if fps == 0 {
        1
    } else {
        fps as u64
    };
    1000 / f
}

/// Delay of each GIF frame, in hundredths of a second.
pub fn frame_delay_centiseconds(fps: u8) -> (cs: u16)
    ensures
        cs == 100int / timing_fps(fps),
{
    let f: u16 = if fps == 0 {
        1
    } else {
        fps as u16
    };
    100 / f
}

/// Most frames a recording may hold: `MAX_RECORDING_SECONDS` worth.
pub fn max_frames(fps: u8) -> (n: usize)
    ensures
        n == MAX_RECORDING_SECONDS as int * fps as int,
{
    let secs = MAX_RECORDING_SECONDS as usize;
    assert(secs == 30);
    secs * (fps as usize)
}

/// Nanoseconds to sleep until `target`, both counted from the same start:
/// none when the target has passed.
pub fn pause_until(target_ns: u64, now_ns: u64) -> (p: u64)
    ensures
        p == (if target_ns > now_ns {
            target_ns - now_ns
        } else {
            0
        }),
{
    if target_ns > now_ns {
        target_ns - now_ns
    } else {
        0
    }
}

/// Deadline of the next frame, in nanoseconds from the recording's start,
/// after a frame slot ending at `deadline_ns` was used: one frame later,
/// unless the capture that started at `capture_start_ns` and ended at
/// `now_ns` took longer than a frame; then one frame from now, so that an
/// overrun does not delay every frame after it.
pub fn next_frame_deadline(deadline_ns: u64, frame_ns: u64, capture_start_ns: u64, now_ns: u64) -> (d: u64)
    requires
        capture_start_ns <= now_ns,
        deadline_ns + frame_ns <= u64::MAX,
        now_ns + frame_ns <= u64::MAX,
    ensures
        d == (if now_ns - capture_start_ns > frame_ns {
            now_ns + frame_ns
        } else {
            deadline_ns + frame_ns
        }),
{
    if now_ns - capture_start_ns > frame_ns {
        now_ns + frame_ns
    } else {
        deadline_ns + frame_ns
    }
}

/// Number of palette colours for a quality setting, kept within `2..=256`.
pub fn colors_for_quality(quality: u8) -> (n: usize)
    ensures
        n == palette_colors(quality as int),
{
    if quality < 2 {
        2
    } else {
        quality as usize
    }
}

/// What the control channel held when the recording thread looked.
#[derive(Debug, Clone, PartialEq, Eq)]
pub enum StopCheck {
    /// Stop and save the GIF at this path.
    Stop(String),
    /// The recorder went away: drop the recording.
    Disconnected,
    /// Nothing yet: keep recording.
    Pending,
}

/// The recording thread's next move.
#[derive(Debug, Clone, PartialEq, Eq)]
pub enum RecordStep {
    /// Finish the GIF and move it to this path.
    Finish(String),
    /// Drop the temporary file and end.
    Abandon,
    /// The recording is as long as allowed: end with a timeout.
    TimedOut,
    /// Capture and encode the next frame.
    CaptureFrame,
}

/// Decides the recording thread's next move: a stop request or a closed
/// channel ends it, then the frame limit, else the next frame is captured.
pub fn next_record_step(check: StopCheck, frame_count: usize, max_frames: usize) -> (step:
    RecordStep)
    ensures
        match check {
            StopCheck::Stop(p) => step == RecordStep::Finish(p),
            StopCheck::Disconnected => step == RecordStep::Abandon,
            StopCheck::Pending => step == (if frame_count >= max_frames {
                RecordStep::TimedOut
            } else {
                RecordStep::CaptureFrame
            }),
        },
{
    match check {
        StopCheck::Stop(p) => RecordStep::Finish(p),
        StopCheck::Disconnected => RecordStep::Abandon,
        StopCheck::Pending => {
            if frame_count >= max_frames {
                RecordStep::TimedOut
            } else {
                RecordStep::CaptureFrame
            }
        },
    }
}

/// The error a recording that reached its maximum length ends with.
pub fn timeout_error() -> (e: GifError)
    ensures
        e matches GifError::Timeout(s) && s == MAX_RECORDING_SECONDS,
{
    GifError::Timeout(MAX_RECORDING_SECONDS)
}

/// Milliseconds since the Unix epoch by the system clock (0 if the clock
/// is set before the epoch). Nothing is stated of the value: it is read
/// from the clock.
#[verifier::external_body]
pub fn timestamp_ms() -> u128 {
    std::time::SystemTime::now().duration_since(std::time::UNIX_EPOCH).unwrap_or_default().as_millis()
}

}
