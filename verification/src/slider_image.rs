//! The slider picture and the scores of a candidate arrangement of its
//! tiles: how much the colours change across each seam between neighbouring
//! tiles once the tiles are placed as the candidate says.

use vstd::arithmetic::div_mod::{
    lemma_div_is_ordered, lemma_div_multiples_vanish, lemma_div_plus_one, lemma_div_pos_is_pos,
    lemma_fundamental_div_mod_converse, lemma_mod_pos_bound, lemma_multiply_divide_lt,
};
use vstd::prelude::*;

verus! {

/// An RGB picture of `width` x `height` pixels, stored row by row, three
/// bytes (red, green, blue) per pixel.
#[derive(Debug, Clone)]
pub struct RgbImage {
    pub width: u32,
    pub height: u32,
    pub data: Vec<u8>,
}

/// A pixel's red, green and blue.
pub type Rgb = (u8, u8, u8);

impl RgbImage {
    /// The buffer holds every pixel.
    pub open spec fn wf(&self) -> bool {
        self.data@.len() >= 3 * (self.width as int) * (self.height as int)
    }

    /// The pixel at column `x` and row `y`.
    pub open spec fn pixel(&self, x: int, y: int) -> Rgb {
        let i = (y * (self.width as int) + x) * 3;
        (self.data@[i], self.data@[i + 1], self.data@[i + 2])
    }

    /// A picture of the given size over a buffer, when the buffer holds every
    /// pixel.
    pub fn from_raw(width: u32, height: u32, data: Vec<u8>) -> (r: Option<RgbImage>)
        ensures
            data@.len() >= 3 * (width as int) * (height as int) ==> (r matches Some(img) && img.width == width
                && img.height == height && img.data@ == data@),
            data@.len() < 3 * (width as int) * (height as int) ==> r is None,
    {
        proof {
            assert((width as int) * (height as int) <= 0xffff_ffff_ffff_ffff) by (nonlinear_arith)
                requires
                    width <= 0xffff_ffff,
                    height <= 0xffff_ffff,
            ;
            assert(3 * (width as int) * (height as int) == (width as int) * (height as int) * 3) by (nonlinear_arith);
        }
        let need: u128 = (width as u128) * (height as u128) * 3;
        if (data.len() as u128) < need {
            None
        } else {
            Some(RgbImage { width, height, data })
        }
    }

    /// The width and height.
    pub fn dimensions(&self) -> (r: (u32, u32))
        ensures
            r == (self.width, self.height),
    {
        (self.width, self.height)
    }

    /// The pixel at column `x` and row `y`.
    pub fn get_pixel(&self, x: u32, y: u32) -> (p: Rgb)
        requires
            self.wf(),
            x < self.width,
            y < self.height,
        ensures
            p == self.pixel(x as int, y as int),
    {
        let n = self.data.len();
        proof {
            lemma_pixel_in_buffer(self.width as int, self.height as int, x as int, y as int);
            assert(n as int >= 3 * (self.width as int) * (self.height as int));
            assert((y as int) * (self.width as int) <= (y as int) * (self.width as int) + (x as int));
            assert((y as int) * (self.width as int) + (x as int) <= ((y as int) * (self.width as int) + (x as int))
                * 3);
        }
        let i = ((y as usize) * (self.width as usize) + (x as usize)) * 3;
        (self.data[i], self.data[i + 1], self.data[i + 2])
    }
}

/// The bytes of a pixel inside a `w` x `h` picture lie inside its buffer.
proof fn lemma_pixel_in_buffer(w: int, h: int, x: int, y: int)
    requires
        0 <= x < w,
        0 <= y < h,
    ensures
        (y * w + x) * 3 + 2 < 3 * w * h,
        0 <= y * w + x,
{
    assert(y * w <= (h - 1) * w) by (nonlinear_arith)
        requires
            0 <= y <= h - 1,
            0 <= w,
    ;
    assert((h - 1) * w + w == h * w) by (nonlinear_arith);
    assert(3 * w * h == 3 * (h * w)) by (nonlinear_arith);
    assert(0 <= y * w) by (nonlinear_arith)
        requires
            0 <= y,
            0 <= w,
    ;
}

/// `|a - b|`.
pub open spec fn abs_diff(a: int, b: int) -> int {
    if a < b {
        b - a
    } else {
        a - b
    }
}

/// The summed channel differences of two pixels.
pub open spec fn pixel_diff(a: Rgb, b: Rgb) -> int {
    abs_diff(a.0 as int, b.0 as int) + abs_diff(a.1 as int, b.1 as int) + abs_diff(a.2 as int, b.2 as int)
}

/// The summed channel differences of two pixels.
pub fn pixelDiff(a: Rgb, b: Rgb) -> (r: i64)
    ensures
        r == pixel_diff(a, b),
        0 <= r <= 765,
{
    let dr = if a.0 < b.0 { b.0 - a.0 } else { a.0 - b.0 };
    let dg = if a.1 < b.1 { b.1 - a.1 } else { a.1 - b.1 };
    let db = if a.2 < b.2 { b.2 - a.2 } else { a.2 - b.2 };
    dr as i64 + dg as i64 + db as i64
}

/// The luma of a pixel: (299 R + 587 G + 114 B) / 1000.
pub open spec fn luma(c: Rgb) -> int {
    (299 * (c.0 as int) + 587 * (c.1 as int) + 114 * (c.2 as int)) / 1000
}

/// The luma of a pixel.
pub fn luma_of(c: Rgb) -> (r: u8)
    ensures
        r as int == luma(c),
{
    let v: u32 = 299 * (c.0 as u32) + 587 * (c.1 as u32) + 114 * (c.2 as u32);
    (v / 1000) as u8
}

/// The rectangle (x1, y1, x2, y2) of tile `i` of a `g` x `g` grid laid over
/// `bounds`: tiles run row by row, and the edges fall at whole fractions of
/// the width and height, rounded down.
pub open spec fn tile_rect(bounds: (u32, u32, u32, u32), g: int, i: int) -> (int, int, int, int) {
    let w = bounds.2 - bounds.0;
    let h = bounds.3 - bounds.1;
    let col = i % g;
    let row = i / g;
    (bounds.0 + col * w / g, bounds.1 + row * h / g, bounds.0 + (col + 1) * w / g, bounds.1 + (row + 1) * h / g)
}

/// Where tile `i` of a `g` x `g` grid lies: inside the bounds, with its
/// edges in order, and at least one pixel wide (high) when the grid has no
/// more columns (rows) than the bounds have pixels.
proof fn lemma_tile_bounds(w: int, h: int, g: int, i: int)
    requires
        0 < g,
        0 <= i < g * g,
        0 <= w,
        0 <= h,
    ensures
        0 <= i % g < g,
        0 <= i / g < g,
        0 <= (i % g) * w / g <= (i % g + 1) * w / g <= w,
        0 <= (i / g) * h / g <= (i / g + 1) * h / g <= h,
        0 <= (i % g) * w <= (i % g + 1) * w <= g * w,
        0 <= (i / g) * h <= (i / g + 1) * h <= g * h,
        g <= w ==> (i % g) * w / g + 1 <= (i % g + 1) * w / g,
        g <= h ==> (i / g) * h / g + 1 <= (i / g + 1) * h / g,
{
    lemma_mod_pos_bound(i, g);
    lemma_div_pos_is_pos(i, g);
    lemma_multiply_divide_lt(i, g, g);
    let c = i % g;
    let r = i / g;
    lemma_span(c, g, w);
    lemma_span(r, g, h);
}

/// The fractions `c * n / g` and `(c + 1) * n / g` of a span `n`, for a
/// column `c` of `g`.
proof fn lemma_span(c: int, g: int, n: int)
    requires
        0 <= c < g,
        0 <= n,
    ensures
        0 <= c * n / g <= (c + 1) * n / g <= n,
        0 <= c * n <= (c + 1) * n <= g * n,
        g <= n ==> c * n / g + 1 <= (c + 1) * n / g,
{
    assert(0 <= c * n && c * n <= (c + 1) * n && (c + 1) * n <= g * n && (c + 1) * n == c * n + n) by (nonlinear_arith)
        requires
            0 <= c < g,
            0 <= n,
    ;
    lemma_div_pos_is_pos(c * n, g);
    lemma_div_is_ordered(c * n, (c + 1) * n, g);
    lemma_div_is_ordered((c + 1) * n, g * n, g);
    lemma_div_multiples_vanish(n, g);
    if g <= n {
        lemma_div_plus_one(c * n, g);
        lemma_div_is_ordered(g + c * n, (c + 1) * n, g);
    }
}

/// The rectangle of tile `index` of a `grid_size` x `grid_size` grid laid
/// over `bounds` (x1, y1, x2, y2).
pub fn sliderTileRect(bounds: (u32, u32, u32, u32), grid_size: usize, index: usize) -> (r: (u32, u32, u32, u32))
    requires
        0 < grid_size,
        index < grid_size * grid_size,
        bounds.0 <= bounds.2,
        bounds.1 <= bounds.3,
        grid_size * (bounds.2 - bounds.0) <= usize::MAX,
        grid_size * (bounds.3 - bounds.1) <= usize::MAX,
    ensures
        (r.0 as int, r.1 as int, r.2 as int, r.3 as int) == tile_rect(bounds, grid_size as int, index as int),
{
    let (min_x, min_y, max_x, max_y) = bounds;
    let width = max_x - min_x;
    let height = max_y - min_y;
    let col = index % grid_size;
    let row = index / grid_size;
    proof {
        lemma_tile_bounds(width as int, height as int, grid_size as int, index as int);
    }
    let x1 = min_x + (col * width as usize / grid_size) as u32;
    let y1 = min_y + (row * height as usize / grid_size) as u32;
    let x2 = min_x + ((col + 1) * width as usize / grid_size) as u32;
    let y2 = min_y + ((row + 1) * height as usize / grid_size) as u32;
    (x1, y1, x2, y2)
}

/// `max(n, 1)`.
pub open spec fn at_least_one(n: int) -> int {
    if n < 1 {
        1
    } else {
        n
    }
}

/// The source position that destination pixel (x, y) of rectangle `dst`
/// samples in rectangle `src`: the offset inside `dst` scaled to `src`'s
/// size, rounded down.
pub open spec fn sample_pos(dst: (int, int, int, int), src: (int, int, int, int), x: int, y: int) -> (int, int) {
    let dx = at_least_one(dst.2 - dst.0);
    let dy = at_least_one(dst.3 - dst.1);
    (src.0 + (x - dst.0) * (src.2 - src.0) / dx, src.1 + (y - dst.1) * (src.3 - src.1) / dy)
}

/// The rectangle of a tuple of `u32`s.
pub open spec fn rect_view(r: (u32, u32, u32, u32)) -> (int, int, int, int) {
    (r.0 as int, r.1 as int, r.2 as int, r.3 as int)
}

/// Whether destination pixel (x, y) of `dst` can be sampled from `src` in a
/// picture: both rectangles are ordered, the pixel is not before `dst`, the
/// scaling products fit in a `u32` and the source position is inside the
/// picture.
pub open spec fn sample_ok(img: &RgbImage, dst: (u32, u32, u32, u32), src: (u32, u32, u32, u32), x: u32, y: u32) -> bool {
    &&& dst.0 <= dst.2 && dst.1 <= dst.3
    &&& src.0 <= src.2 && src.1 <= src.3
    &&& dst.0 <= x && dst.1 <= y
    &&& (x - dst.0) * (src.2 - src.0) <= u32::MAX
    &&& (y - dst.1) * (src.3 - src.1) <= u32::MAX
    &&& sample_pos(rect_view(dst), rect_view(src), x as int, y as int).0 < img.width
    &&& sample_pos(rect_view(dst), rect_view(src), x as int, y as int).1 < img.height
}

/// The colour that destination pixel (x, y) of `dst` samples from `src`.
pub fn sampleColorMappedV2(
    img: &RgbImage,
    dst_rect: (u32, u32, u32, u32),
    src_rect: (u32, u32, u32, u32),
    dst_x: u32,
    dst_y: u32,
) -> (r: Rgb)
    requires
        img.wf(),
        sample_ok(img, dst_rect, src_rect, dst_x, dst_y),
    ensures
        ({
            let p = sample_pos(rect_view(dst_rect), rect_view(src_rect), dst_x as int, dst_y as int);
            r == img.pixel(p.0, p.1)
        }),
{
    let (dst_x1, dst_y1, dst_x2, dst_y2) = dst_rect;
    let (src_x1, src_y1, src_x2, src_y2) = src_rect;
    let dx = if dst_x2 - dst_x1 < 1 { 1 } else { dst_x2 - dst_x1 };
    let dy = if dst_y2 - dst_y1 < 1 { 1 } else { dst_y2 - dst_y1 };
    let sx = src_x1 + (dst_x - dst_x1) * (src_x2 - src_x1) / dx;
    let sy = src_y1 + (dst_y - dst_y1) * (src_y2 - src_y1) / dy;
    img.get_pixel(sx, sy)
}

/// The luma that destination pixel (x, y) of `dst` samples from `src`.
pub fn sampleLumaMappedV2(
    img: &RgbImage,
    dst_rect: (u32, u32, u32, u32),
    src_rect: (u32, u32, u32, u32),
    dst_x: u32,
    dst_y: u32,
) -> (r: u8)
    requires
        img.wf(),
        sample_ok(img, dst_rect, src_rect, dst_x, dst_y),
    ensures
        ({
            let p = sample_pos(rect_view(dst_rect), rect_view(src_rect), dst_x as int, dst_y as int);
            r as int == luma(img.pixel(p.0, p.1))
        }),
{
    let c = sampleColorMappedV2(img, dst_rect, src_rect, dst_x, dst_y);
    luma_of(c)
}


// ---------------------------------------------------------------------------
// Seam scores.

/// The rectangle of tile `i` of a `g` x `g` grid over the whole picture.
pub open spec fn rect_of(img: RgbImage, g: int, i: int) -> (int, int, int, int) {
    tile_rect((0, 0, img.width, img.height), g, i)
}

/// The difference of two pixels a seam score adds: the summed channel
/// differences (`rgb`), or the difference of their lumas.
pub open spec fn seam_diff(a: Rgb, b: Rgb, rgb: bool) -> int {
    if rgb {
        pixel_diff(a, b)
    } else {
        abs_diff(luma(a), luma(b))
    }
}

/// The smaller of two integers.
pub open spec fn min_int(a: int, b: int) -> int {
    if a < b {
        a
    } else {
        b
    }
}

/// The difference across the seam right of tile (row, col), `y` pixels down:
/// the last column of the left tile against the first column of the right
/// one, each sampled where the candidate arrangement `m` takes it from.
pub open spec fn h_term(img: RgbImage, g: int, m: Seq<usize>, row: int, col: int, y: int, rgb: bool) -> int {
    let li = row * g + col;
    let ld = rect_of(img, g, li);
    let rd = rect_of(img, g, li + 1);
    let ls = rect_of(img, g, m[li] as int);
    let rs = rect_of(img, g, m[li + 1] as int);
    let yy = ld.1 + y;
    let pa = sample_pos(ld, ls, ld.2 - 1, yy);
    let pb = sample_pos(rd, rs, rd.0, yy);
    seam_diff(img.pixel(pa.0, pa.1), img.pixel(pb.0, pb.1), rgb)
}

/// How many pixels the seam right of tile (row, col) runs: the smaller
/// height of the two tiles.
pub open spec fn h_len(img: RgbImage, g: int, row: int, col: int) -> int {
    let li = row * g + col;
    let ld = rect_of(img, g, li);
    let rd = rect_of(img, g, li + 1);
    min_int(ld.3 - ld.1, rd.3 - rd.1)
}

/// The first `n` differences across the seam right of tile (row, col).
pub open spec fn h_seam_sum(img: RgbImage, g: int, m: Seq<usize>, row: int, col: int, n: nat, rgb: bool) -> int
    decreases n,
{
    if n == 0 {
        0
    } else {
        h_seam_sum(img, g, m, row, col, (n - 1) as nat, rgb) + h_term(img, g, m, row, col, n - 1, rgb)
    }
}

/// The differences across the whole seam right of tile (row, col).
pub open spec fn h_seam(img: RgbImage, g: int, m: Seq<usize>, row: int, col: int, rgb: bool) -> int {
    let n = h_len(img, g, row, col);
    h_seam_sum(img, g, m, row, col, if n < 0 { 0 } else { n as nat }, rgb)
}

/// The seams right of the first `c` tiles of row `row`.
pub open spec fn h_row(img: RgbImage, g: int, m: Seq<usize>, row: int, c: nat, rgb: bool) -> int
    decreases c,
{
    if c == 0 {
        0
    } else {
        h_row(img, g, m, row, (c - 1) as nat, rgb) + h_seam(img, g, m, row, c - 1, rgb)
    }
}

/// The seams between horizontal neighbours in the first `r` rows.
pub open spec fn h_rows(img: RgbImage, g: int, m: Seq<usize>, r: nat, rgb: bool) -> int
    decreases r,
{
    if r == 0 {
        0
    } else {
        h_rows(img, g, m, (r - 1) as nat, rgb) + h_row(img, g, m, r - 1, (if g < 1 { 0 } else { g - 1 }) as nat, rgb)
    }
}

/// The difference across the seam below tile (row, col), `x` pixels
/// across: the last row of the upper tile against the first row of the
/// lower one.
pub open spec fn v_term(img: RgbImage, g: int, m: Seq<usize>, row: int, col: int, x: int, rgb: bool) -> int {
    let ti = row * g + col;
    let bi = (row + 1) * g + col;
    let td = rect_of(img, g, ti);
    let bd = rect_of(img, g, bi);
    let ts = rect_of(img, g, m[ti] as int);
    let bs = rect_of(img, g, m[bi] as int);
    let xx = td.0 + x;
    let pa = sample_pos(td, ts, xx, td.3 - 1);
    let pb = sample_pos(bd, bs, xx, bd.1);
    seam_diff(img.pixel(pa.0, pa.1), img.pixel(pb.0, pb.1), rgb)
}

/// How many pixels the seam below tile (row, col) runs: the smaller width
/// of the two tiles.
pub open spec fn v_len(img: RgbImage, g: int, row: int, col: int) -> int {
    let td = rect_of(img, g, row * g + col);
    let bd = rect_of(img, g, (row + 1) * g + col);
    min_int(td.2 - td.0, bd.2 - bd.0)
}

/// The first `n` differences across the seam below tile (row, col).
pub open spec fn v_seam_sum(img: RgbImage, g: int, m: Seq<usize>, row: int, col: int, n: nat, rgb: bool) -> int
    decreases n,
{
    if n == 0 {
        0
    } else {
        v_seam_sum(img, g, m, row, col, (n - 1) as nat, rgb) + v_term(img, g, m, row, col, n - 1, rgb)
    }
}

/// The differences across the whole seam below tile (row, col).
pub open spec fn v_seam(img: RgbImage, g: int, m: Seq<usize>, row: int, col: int, rgb: bool) -> int {
    let n = v_len(img, g, row, col);
    v_seam_sum(img, g, m, row, col, if n < 0 { 0 } else { n as nat }, rgb)
}

/// The seams below the first `c` tiles of row `row`.
pub open spec fn v_row(img: RgbImage, g: int, m: Seq<usize>, row: int, c: nat, rgb: bool) -> int
    decreases c,
{
    if c == 0 {
        0
    } else {
        v_row(img, g, m, row, (c - 1) as nat, rgb) + v_seam(img, g, m, row, c - 1, rgb)
    }
}

/// The seams between vertical neighbours below the first `r` rows.
pub open spec fn v_rows(img: RgbImage, g: int, m: Seq<usize>, r: nat, rgb: bool) -> int
    decreases r,
{
    if r == 0 {
        0
    } else {
        v_rows(img, g, m, (r - 1) as nat, rgb) + v_row(img, g, m, r - 1, (if g < 0 { 0 } else { g }) as nat, rgb)
    }
}

/// The seam score of arrangement `m` of a `g` x `g` grid: the differences
/// summed over every seam between horizontal neighbours, then over every
/// seam between vertical neighbours. A lower score means tiles that fit.
pub open spec fn seam_score(img: RgbImage, g: int, m: Seq<usize>, rgb: bool) -> int {
    h_rows(img, g, m, (if g < 0 { 0 } else { g }) as nat, rgb) + v_rows(img, g, m, (if g < 1 { 0 } else { g - 1 }) as nat, rgb)
}

/// When an arrangement can be scored on a picture: the picture is whole and
/// at most 65535 pixels wide and high; the grid has a tile per pixel at
/// least in each direction (or the picture is empty, or there is a single
/// tile); and, beyond a single tile, the arrangement places every tile of
/// the grid.
pub open spec fn seam_ok(img: RgbImage, g: int, m: Seq<usize>) -> bool {
    &&& img.wf()
    &&& 1 <= g
    &&& img.width <= 65535 && img.height <= 65535
    &&& (g == 1 || (g <= img.width && g <= img.height) || (img.width == 0 && img.height == 0))
    &&& (g == 1 || (g * g <= m.len() && forall|i: int| 0 <= i < g * g ==> #[trigger] m[i] < g * g))
}

/// A scaled offset inside a tile stays inside the source tile.
proof fn lemma_scaled(a: int, d: int, s: int)
    requires
        0 <= a < d,
        1 <= s,
        d <= 65535,
        s <= 65535,
    ensures
        0 <= a * s / d < s,
        0 <= a * s <= 0xffff_ffff,
        at_least_one(d) == d,
{
    assert(0 <= a * s && a * s < d * s && a * s <= 0xffff_ffff) by (nonlinear_arith)
        requires
            0 <= a < d,
            1 <= s,
            d <= 65535,
            s <= 65535,
    ;
    lemma_div_pos_is_pos(a * s, d);
    lemma_multiply_divide_lt(a * s, d, s);
}

/// Position `row * g + col` of a `g` x `g` grid lies in row `row` and
/// column `col`.
proof fn lemma_cell(g: int, row: int, col: int)
    requires
        0 <= row < g,
        0 <= col < g,
    ensures
        0 <= row * g + col < g * g,
        (row * g + col) % g == col,
        (row * g + col) / g == row,
{
    assert(0 <= row * g + col < g * g) by (nonlinear_arith)
        requires
            0 <= row < g,
            0 <= col < g,
    ;
    lemma_fundamental_div_mod_converse(row * g + col, g, row, col);
}

/// The geometry of the seam right of tile (row, col) at `y` pixels down,
/// when the seam runs that far: both samples are valid and land in the
/// picture.
proof fn lemma_h_sample(img: RgbImage, g: int, m: Seq<usize>, row: int, col: int, y: int)
    requires
        seam_ok(img, g, m),
        2 <= g,
        0 <= row < g,
        0 <= col,
        col + 1 < g,
        0 <= y < h_len(img, g, row, col),
    ensures
        ({
            let li = row * g + col;
            let ld = rect_of(img, g, li);
            let rd = rect_of(img, g, li + 1);
            let ls = rect_of(img, g, m[li] as int);
            let rs = rect_of(img, g, m[li + 1] as int);
            &&& 0 <= li && li + 1 < g * g
            &&& 0 <= ld.0 < ld.2 <= img.width && 0 <= ld.1 <= ld.1 + y < ld.3 <= img.height
            &&& rd.0 == ld.2 && rd.1 == ld.1 && rd.3 == ld.3 && rd.0 < rd.2 <= img.width
            &&& 0 <= ls.0 < ls.2 <= img.width && 0 <= ls.1 < ls.3 <= img.height
            &&& 0 <= rs.0 < rs.2 <= img.width && 0 <= rs.1 < rs.3 <= img.height
            &&& (ld.2 - 1 - ld.0) * (ls.2 - ls.0) <= 0xffff_ffff
            &&& y * (ls.3 - ls.1) <= 0xffff_ffff
            &&& y * (rs.3 - rs.1) <= 0xffff_ffff
            &&& sample_pos(ld, ls, ld.2 - 1, ld.1 + y).0 < img.width
            &&& sample_pos(ld, ls, ld.2 - 1, ld.1 + y).1 < img.height
            &&& sample_pos(rd, rs, rd.0, ld.1 + y).0 < img.width
            &&& sample_pos(rd, rs, rd.0, ld.1 + y).1 < img.height
        }),
{
    let w = img.width as int;
    let h = img.height as int;
    let li = row * g + col;
    lemma_cell(g, row, col);
    lemma_cell(g, row, col + 1);
    assert(row * g + (col + 1) == li + 1);
    let ld = rect_of(img, g, li);
    let rd = rect_of(img, g, li + 1);
    assert(g <= w && g <= h) by {
        if w == 0 && h == 0 {
            lemma_tile_bounds(w, h, g, li);
            lemma_tile_bounds(w, h, g, li + 1);
        }
    }
    lemma_tile_bounds(w, h, g, li);
    lemma_tile_bounds(w, h, g, li + 1);
    let a = m[li] as int;
    let b = m[li + 1] as int;
    lemma_tile_bounds(w, h, g, a);
    lemma_tile_bounds(w, h, g, b);
    let ls = rect_of(img, g, a);
    let rs = rect_of(img, g, b);
    lemma_scaled(ld.2 - 1 - ld.0, ld.2 - ld.0, ls.2 - ls.0);
    lemma_scaled(y, ld.3 - ld.1, ls.3 - ls.1);
    lemma_scaled(0, rd.2 - rd.0, rs.2 - rs.0);
    lemma_scaled(y, rd.3 - rd.1, rs.3 - rs.1);
}

/// The geometry of the seam below tile (row, col) at `x` pixels across,
/// when the seam runs that far: both samples are valid and land in the
/// picture.
proof fn lemma_v_sample(img: RgbImage, g: int, m: Seq<usize>, row: int, col: int, x: int)
    requires
        seam_ok(img, g, m),
        2 <= g,
        0 <= row,
        row + 1 < g,
        0 <= col < g,
        0 <= x < v_len(img, g, row, col),
    ensures
        ({
            let ti = row * g + col;
            let bi = (row + 1) * g + col;
            let td = rect_of(img, g, ti);
            let bd = rect_of(img, g, bi);
            let ts = rect_of(img, g, m[ti] as int);
            let bs = rect_of(img, g, m[bi] as int);
            &&& 0 <= ti < g * g && 0 <= bi < g * g
            &&& 0 <= td.0 <= td.0 + x < td.2 <= img.width && 0 <= td.1 < td.3 <= img.height
            &&& bd.0 == td.0 && bd.2 == td.2 && bd.1 == td.3 && bd.1 < bd.3 <= img.height
            &&& 0 <= ts.0 < ts.2 <= img.width && 0 <= ts.1 < ts.3 <= img.height
            &&& 0 <= bs.0 < bs.2 <= img.width && 0 <= bs.1 < bs.3 <= img.height
            &&& x * (ts.2 - ts.0) <= 0xffff_ffff
            &&& x * (bs.2 - bs.0) <= 0xffff_ffff
            &&& (td.3 - 1 - td.1) * (ts.3 - ts.1) <= 0xffff_ffff
            &&& sample_pos(td, ts, td.0 + x, td.3 - 1).0 < img.width
            &&& sample_pos(td, ts, td.0 + x, td.3 - 1).1 < img.height
            &&& sample_pos(bd, bs, td.0 + x, bd.1).0 < img.width
            &&& sample_pos(bd, bs, td.0 + x, bd.1).1 < img.height
        }),
{
    let w = img.width as int;
    let h = img.height as int;
    let ti = row * g + col;
    let bi = (row + 1) * g + col;
    lemma_cell(g, row, col);
    lemma_cell(g, row + 1, col);
    let td = rect_of(img, g, ti);
    let bd = rect_of(img, g, bi);
    assert(g <= w && g <= h) by {
        if w == 0 && h == 0 {
            lemma_tile_bounds(w, h, g, ti);
            lemma_tile_bounds(w, h, g, bi);
        }
    }
    lemma_tile_bounds(w, h, g, ti);
    lemma_tile_bounds(w, h, g, bi);
    let a = m[ti] as int;
    let b = m[bi] as int;
    lemma_tile_bounds(w, h, g, a);
    lemma_tile_bounds(w, h, g, b);
    let ts = rect_of(img, g, a);
    let bs = rect_of(img, g, b);
    lemma_scaled(x, td.2 - td.0, ts.2 - ts.0);
    lemma_scaled(td.3 - 1 - td.1, td.3 - td.1, ts.3 - ts.1);
    lemma_scaled(x, bd.2 - bd.0, bs.2 - bs.0);
    lemma_scaled(0, bd.3 - bd.1, bs.3 - bs.1);
}


/// The difference of two sampled pixels, as the score adds it.
fn term_of(img: &RgbImage, ld: (u32, u32, u32, u32), ls: (u32, u32, u32, u32), xa: u32, ya: u32,
    rd: (u32, u32, u32, u32), rs: (u32, u32, u32, u32), xb: u32, yb: u32, rgb: bool) -> (r: i64)
    requires
        img.wf(),
        sample_ok(img, ld, ls, xa, ya),
        sample_ok(img, rd, rs, xb, yb),
    ensures
        ({
            let pa = sample_pos(rect_view(ld), rect_view(ls), xa as int, ya as int);
            let pb = sample_pos(rect_view(rd), rect_view(rs), xb as int, yb as int);
            r == seam_diff(img.pixel(pa.0, pa.1), img.pixel(pb.0, pb.1), rgb)
        }),
        0 <= r <= 765,
{
    if rgb {
        let a = sampleColorMappedV2(img, ld, ls, xa, ya);
        let b = sampleColorMappedV2(img, rd, rs, xb, yb);
        pixelDiff(a, b)
    } else {
        let a = sampleLumaMappedV2(img, ld, ls, xa, ya);
        let b = sampleLumaMappedV2(img, rd, rs, xb, yb);
        let d = a as i64 - b as i64;
        if d < 0 {
            -d
        } else {
            d
        }
    }
}

/// The score of the seam right of tile (row, col).
fn h_seam_exec(img: &RgbImage, g: usize, mapping: &[usize], row: usize, col: usize, rgb: bool) -> (r: i64)
    requires
        seam_ok(*img, g as int, mapping@),
        2 <= g,
        g * g <= usize::MAX,
        row < g,
        col + 1 < g,
    ensures
        r == h_seam(*img, g as int, mapping@, row as int, col as int, rgb),
        0 <= r <= 765 * (img.height as int),
{
    let ghost gi = g as int;
    proof {
        lemma_cell(gi, row as int, col as int);
        lemma_cell(gi, row as int, col + 1);
        assert(gi <= img.width || img.width == 0);
    }
    let bounds: (u32, u32, u32, u32) = (0, 0, img.width, img.height);
    let li = row * g + col;
    let ri = li + 1;
    proof {
        assert(g as int * (img.width as int) <= usize::MAX && g as int * (img.height as int) <= usize::MAX) by {
            if img.width == 0 && img.height == 0 {
                assert(g as int * (img.width as int) == 0 && g as int * (img.height as int) == 0) by (nonlinear_arith)
                    requires
                        img.width == 0,
                        img.height == 0,
                ;
            } else {
                assert(g as int * (img.width as int) <= 65535 * 65535 && g as int * (img.height as int) <= 65535 * 65535)
                    by (nonlinear_arith)
                    requires
                        g <= img.width <= 65535,
                        g <= img.height <= 65535,
                ;
            }
        }
    }
    let ld = sliderTileRect(bounds, g, li);
    let rd = sliderTileRect(bounds, g, ri);
    let ls = sliderTileRect(bounds, g, mapping[li]);
    let rs = sliderTileRect(bounds, g, mapping[ri]);
    proof {
        lemma_tile_bounds(img.width as int, img.height as int, gi, li as int);
        lemma_tile_bounds(img.width as int, img.height as int, gi, ri as int);
    }
    let hl = ld.3 - ld.1;
    let hr = rd.3 - rd.1;
    let h = if hl < hr { hl } else { hr };
    assert(h as int == h_len(*img, gi, row as int, col as int));
    let mut score: i64 = 0;
    let mut y: u32 = 0;
    while y < h
        invariant
            seam_ok(*img, gi, mapping@),
            gi == g as int,
            2 <= g,
            row < g,
            col + 1 < g,
            li as int == row as int * gi + col as int,
            ri == li + 1,
            rect_view(ld) == rect_of(*img, gi, li as int),
            rect_view(rd) == rect_of(*img, gi, ri as int),
            rect_view(ls) == rect_of(*img, gi, mapping@[li as int] as int),
            rect_view(rs) == rect_of(*img, gi, mapping@[ri as int] as int),
            h as int == h_len(*img, gi, row as int, col as int),
            img.height <= 65535,
            y <= h,
            score == h_seam_sum(*img, gi, mapping@, row as int, col as int, y as nat, rgb),
            0 <= score <= 765 * (y as int),
        decreases h - y,
    {
        proof {
            lemma_h_sample(*img, gi, mapping@, row as int, col as int, y as int);
        }
        let yy = ld.1 + y;
        assert((rd.0 - rd.0) * (rs.2 - rs.0) == 0) by (nonlinear_arith);
        assert((yy - rd.1) * (rs.3 - rs.1) == (y as int) * (rs.3 - rs.1));
        let t = term_of(img, ld, ls, ld.2 - 1, yy, rd, rs, rd.0, yy, rgb);
        score = score + t;
        y = y + 1;
    }
    proof {
        if h > 0 {
            lemma_h_sample(*img, gi, mapping@, row as int, col as int, 0);
        }
    }
    score
}

/// The score of the seam below tile (row, col).
fn v_seam_exec(img: &RgbImage, g: usize, mapping: &[usize], row: usize, col: usize, rgb: bool) -> (r: i64)
    requires
        seam_ok(*img, g as int, mapping@),
        2 <= g,
        g * g <= usize::MAX,
        row + 1 < g,
        col < g,
    ensures
        r == v_seam(*img, g as int, mapping@, row as int, col as int, rgb),
        0 <= r <= 765 * (img.width as int),
{
    let ghost gi = g as int;
    proof {
        lemma_cell(gi, row as int, col as int);
        lemma_cell(gi, row + 1, col as int);
    }
    let bounds: (u32, u32, u32, u32) = (0, 0, img.width, img.height);
    let ti = row * g + col;
    let bi = (row + 1) * g + col;
    proof {
        assert(g as int * (img.width as int) <= usize::MAX && g as int * (img.height as int) <= usize::MAX) by {
            if img.width == 0 && img.height == 0 {
                assert(g as int * (img.width as int) == 0 && g as int * (img.height as int) == 0) by (nonlinear_arith)
                    requires
                        img.width == 0,
                        img.height == 0,
                ;
            } else {
                assert(g as int * (img.width as int) <= 65535 * 65535 && g as int * (img.height as int) <= 65535 * 65535)
                    by (nonlinear_arith)
                    requires
                        g <= img.width <= 65535,
                        g <= img.height <= 65535,
                ;
            }
        }
    }
    let td = sliderTileRect(bounds, g, ti);
    let bd = sliderTileRect(bounds, g, bi);
    let ts = sliderTileRect(bounds, g, mapping[ti]);
    let bs = sliderTileRect(bounds, g, mapping[bi]);
    proof {
        lemma_tile_bounds(img.width as int, img.height as int, gi, ti as int);
        lemma_tile_bounds(img.width as int, img.height as int, gi, bi as int);
    }
    let wt = td.2 - td.0;
    let wb = bd.2 - bd.0;
    let w = if wt < wb { wt } else { wb };
    assert(w as int == v_len(*img, gi, row as int, col as int));
    let mut score: i64 = 0;
    let mut x: u32 = 0;
    while x < w
        invariant
            seam_ok(*img, gi, mapping@),
            gi == g as int,
            2 <= g,
            row + 1 < g,
            col < g,
            ti as int == row as int * gi + col as int,
            bi as int == (row as int + 1) * gi + col as int,
            rect_view(td) == rect_of(*img, gi, ti as int),
            rect_view(bd) == rect_of(*img, gi, bi as int),
            rect_view(ts) == rect_of(*img, gi, mapping@[ti as int] as int),
            rect_view(bs) == rect_of(*img, gi, mapping@[bi as int] as int),
            w as int == v_len(*img, gi, row as int, col as int),
            img.width <= 65535,
            x <= w,
            score == v_seam_sum(*img, gi, mapping@, row as int, col as int, x as nat, rgb),
            0 <= score <= 765 * (x as int),
        decreases w - x,
    {
        proof {
            lemma_v_sample(*img, gi, mapping@, row as int, col as int, x as int);
        }
        let xx = td.0 + x;
        assert((bd.1 - bd.1) * (bs.3 - bs.1) == 0) by (nonlinear_arith);
        assert((xx - bd.0) * (bs.2 - bs.0) == (x as int) * (bs.2 - bs.0));
        let t = term_of(img, td, ts, xx, td.3 - 1, bd, bs, xx, bd.1, rgb);
        score = score + t;
        x = x + 1;
    }
    proof {
        if w > 0 {
            lemma_v_sample(*img, gi, mapping@, row as int, col as int, 0);
        }
    }
    score
}


/// One more seam keeps the running score within its bound.
proof fn lemma_acc(acc: int, t: int, k: int, d: int, g: int, cap: int)
    requires
        0 <= acc <= 765 * d * k,
        0 <= t <= 765 * d,
        0 <= k,
        k + 1 <= g * g,
        0 <= d,
        d * g * g <= cap,
    ensures
        0 <= acc + t <= 765 * d * (k + 1),
        765 * d * (k + 1) <= 765 * cap,
{
    assert(765 * d * k + 765 * d == 765 * d * (k + 1)) by (nonlinear_arith);
    assert(d * (k + 1) <= d * (g * g)) by (nonlinear_arith)
        requires
            0 <= d,
            k + 1 <= g * g,
    ;
    assert(d * (g * g) == d * g * g) by (nonlinear_arith);
    assert(765 * d * (k + 1) == 765 * (d * (k + 1))) by (nonlinear_arith);
}

/// A picture dimension times the number of tiles stays below 65535 cubed.
proof fn lemma_cap(d: int, g: int)
    requires
        0 <= d <= 65535,
        1 <= g,
        d == 0 || g <= d,
    ensures
        d * g * g <= 65535 * 65535 * 65535,
{
    if d == 0 {
        assert(d * g * g == 0) by (nonlinear_arith)
            requires
                d == 0,
        ;
    } else {
        assert(d * g * g <= 65535 * 65535 * 65535) by (nonlinear_arith)
            requires
                1 <= g <= d <= 65535,
        ;
    }
}

/// The seam score of an arrangement: over rows, then columns, the seams
/// between horizontal neighbours; then the seams between vertical
/// neighbours.
fn seam_score_exec(img: &RgbImage, g: usize, mapping: &[usize], rgb: bool) -> (r: i64)
    requires
        seam_ok(*img, g as int, mapping@),
    ensures
        r == seam_score(*img, g as int, mapping@, rgb),
{
    let ghost gi = g as int;
    if g == 1 {
        proof {
            reveal_with_fuel(h_rows, 2);
            reveal_with_fuel(h_row, 2);
        }
        return 0;
    }
    let n = mapping.len();
    let ghost hh = img.height as int;
    let ghost ww = img.width as int;
    proof {
        lemma_cap(hh, gi);
        lemma_cap(ww, gi);
    }
    let mut score: i64 = 0;
    let ghost mut k: int = 0;
    let mut row: usize = 0;
    while row < g
        invariant
            seam_ok(*img, gi, mapping@),
            gi == g as int,
            2 <= g,
            g * g <= n,
            n == mapping@.len(),
            hh == img.height as int,
            hh * gi * gi <= 65535 * 65535 * 65535,
            row <= g,
            k == row as int * (gi - 1),
            score == h_rows(*img, gi, mapping@, row as nat, rgb),
            0 <= score <= 765 * hh * k,
        decreases g - row,
    {
        let mut col: usize = 0;
        while col + 1 < g
            invariant
                seam_ok(*img, gi, mapping@),
                gi == g as int,
                2 <= g,
                g * g <= n,
                n == mapping@.len(),
                hh == img.height as int,
                hh * gi * gi <= 65535 * 65535 * 65535,
                row < g,
                col + 1 <= g,
                k == row as int * (gi - 1) + col as int,
                score == h_rows(*img, gi, mapping@, row as nat, rgb) + h_row(*img, gi, mapping@, row as int, col as nat, rgb),
                0 <= score <= 765 * hh * k,
            decreases g - col,
        {
            let t = h_seam_exec(img, g, mapping, row, col, rgb);
            proof {
                assert(k + 1 <= gi * gi) by (nonlinear_arith)
                    requires
                        k == row as int * (gi - 1) + col as int,
                        0 <= row < gi,
                        0 <= col,
                        col + 1 < gi,
                ;
                lemma_acc(score as int, t as int, k, hh, gi, 65535int * 65535 * 65535);
            }
            score = score + t;
            proof {
                k = k + 1;
            }
            col = col + 1;
        }
        proof {
            assert(k == (row as int + 1) * (gi - 1)) by (nonlinear_arith)
                requires
                    k == row as int * (gi - 1) + col as int,
                    col + 1 == gi,
            ;
        }
        row = row + 1;
    }
    let ghost k1 = k;
    proof {
        assert(765 * hh * k1 <= 765 * (65535 * 65535 * 65535)) by (nonlinear_arith)
            requires
                k1 == gi * (gi - 1),
                0 <= hh,
                hh * gi * gi <= 65535 * 65535 * 65535,
                2 <= gi,
        ;
    }
    let ghost hs = score as int;
    let ghost mut k2: int = 0;
    let mut row: usize = 0;
    while row + 1 < g
        invariant
            seam_ok(*img, gi, mapping@),
            gi == g as int,
            2 <= g,
            g * g <= n,
            n == mapping@.len(),
            ww == img.width as int,
            ww * gi * gi <= 65535 * 65535 * 65535,
            0 <= 765 * hh * k1 <= 765 * (65535 * 65535 * 65535),
            row + 1 <= g,
            k2 == row as int * gi,
            score == h_rows(*img, gi, mapping@, gi as nat, rgb) + v_rows(*img, gi, mapping@, row as nat, rgb),
            0 <= hs <= 765 * hh * k1,
            hs == h_rows(*img, gi, mapping@, gi as nat, rgb),
            0 <= score - hs <= 765 * ww * k2,
        decreases g - row,
    {
        let mut col: usize = 0;
        while col < g
            invariant
                seam_ok(*img, gi, mapping@),
                gi == g as int,
                2 <= g,
                g * g <= n,
                n == mapping@.len(),
                ww == img.width as int,
                ww * gi * gi <= 65535 * 65535 * 65535,
                0 <= 765 * hh * k1 <= 765 * (65535 * 65535 * 65535),
                row + 1 < g,
                col <= g,
                k2 == row as int * gi + col as int,
                score == h_rows(*img, gi, mapping@, gi as nat, rgb) + v_rows(*img, gi, mapping@, row as nat, rgb)
                    + v_row(*img, gi, mapping@, row as int, col as nat, rgb),
                0 <= hs <= 765 * hh * k1,
                hs == h_rows(*img, gi, mapping@, gi as nat, rgb),
                0 <= score - hs <= 765 * ww * k2,
            decreases g - col,
        {
            let t = v_seam_exec(img, g, mapping, row, col, rgb);
            proof {
                assert(k2 + 1 <= gi * gi) by (nonlinear_arith)
                    requires
                        k2 == row as int * gi + col as int,
                        0 <= row,
                        row + 1 < gi,
                        0 <= col < gi,
                ;
                lemma_acc(score - hs, t as int, k2, ww, gi, 65535int * 65535 * 65535);
            }
            score = score + t;
            proof {
                k2 = k2 + 1;
            }
            col = col + 1;
        }
        proof {
            assert(k2 == (row as int + 1) * gi) by (nonlinear_arith)
                requires
                    k2 == row as int * gi + col as int,
                    col == gi,
            ;
        }
        row = row + 1;
    }
    score
}

/// The luma seam score of an arrangement of the grid's tiles.
pub fn seamScoreLumaV2(img: &RgbImage, grid_size: usize, mapping: &[usize]) -> (r: i64)
    requires
        seam_ok(*img, grid_size as int, mapping@),
    ensures
        r == seam_score(*img, grid_size as int, mapping@, false),
{
    seam_score_exec(img, grid_size, mapping, false)
}

/// The colour seam score of an arrangement of the grid's tiles: the summed
/// channel differences across every seam.
pub fn seamScoreRGBV2(img: &RgbImage, grid_size: usize, mapping: &[usize]) -> (r: i64)
    requires
        seam_ok(*img, grid_size as int, mapping@),
    ensures
        r == seam_score(*img, grid_size as int, mapping@, true),
{
    seam_score_exec(img, grid_size, mapping, true)
}

} // verus!
