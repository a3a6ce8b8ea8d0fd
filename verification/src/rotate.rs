//! Nearest-neighbour rotation of a grey image with a square crop, stepping
//! through the source image in 16.16 fixed-point coordinates.
use vstd::prelude::*;
use vstd::arithmetic::div_mod::lemma_fundamental_div_mod_converse;

verus! {

/// The fixed-point walk through the source image: where the top-left output
/// pixel samples from, and how the source position moves per output column
/// (`dx_*`) and per output row (`dy_*`). All values are 16.16 fixed point.
#[derive(Clone, Copy, Debug)]
pub struct FixedPointWalk {
    pub start_x: i32,
    pub start_y: i32,
    pub dx_src_x: i32,
    pub dx_src_y: i32,
    pub dy_src_x: i32,
    pub dy_src_y: i32,
}

/// Source x coordinate (16.16) sampled by output pixel (`x`, `y`).
pub open spec fn walk_x(walk: FixedPointWalk, x: int, y: int) -> int {
    walk.start_x + y * walk.dy_src_x + x * walk.dx_src_x
}

/// Source y coordinate (16.16) sampled by output pixel (`x`, `y`).
pub open spec fn walk_y(walk: FixedPointWalk, x: int, y: int) -> int {
    walk.start_y + y * walk.dy_src_y + x * walk.dx_src_y
}

/// Rounds a 16.16 value to the nearest integer, halves rounding up.
pub open spec fn fixed_round(v: int) -> int {
    (v + 32768) / 65536
}

/// The pixel that output (`x`, `y`) takes: the nearest source pixel, or black
/// when that falls outside the source image.
pub open spec fn rotated_pixel(
    image: Seq<u8>,
    width: int,
    height: int,
    walk: FixedPointWalk,
    x: int,
    y: int,
) -> u8 {
    let px = fixed_round(walk_x(walk, x, y));
    let py = fixed_round(walk_y(walk, x, y));
    if 0 <= px < width && 0 <= py < height {
        image[py * width + px]
    } else {
        0
    }
}

pub open spec fn fits_i32(v: int) -> bool {
    i32::MIN <= v <= i32::MAX
}

/// Every coordinate the walk computes over a `size` x `size` output, including
/// the position one step past the last column and row, stays within `i32`.
pub open spec fn walk_fits(walk: FixedPointWalk, size: int) -> bool {
    forall|x: int, y: int|
        #![trigger walk_x(walk, x, y)]
        #![trigger walk_y(walk, x, y)]
        0 <= x <= size && 0 <= y <= size ==> {
            &&& fits_i32(walk_x(walk, x, y))
            &&& fits_i32(walk_y(walk, x, y))
            &&& (x < size && y < size) ==> fits_i32(walk_x(walk, x, y) + 32768) && fits_i32(
                walk_y(walk, x, y) + 32768,
            )
        }
}

/// Value at (`x`, `y`) of the affine map `a + y * b + x * c`.
pub open spec fn affine(a: int, b: int, c: int, x: int, y: int) -> int {
    a + y * b + x * c
}

/// Every value of the affine map over the square `[0, hi] x [0, hi]`, shifted
/// by `offset`, stays within `i32`.
pub open spec fn square_fits(a: int, b: int, c: int, hi: int, offset: int) -> bool {
    forall|x: int, y: int|
        0 <= x <= hi && 0 <= y <= hi ==> fits_i32(#[trigger] affine(a, b, c, x, y) + offset)
}

proof fn lemma_scaled_in_range(k: int, hi: int, b: int)
    requires
        0 <= k <= hi,
    ensures
        b >= 0 ==> 0 <= k * b <= hi * b,
        b < 0 ==> hi * b <= k * b <= 0,
{
    if b >= 0 {
        assert(0 <= k * b <= hi * b) by (nonlinear_arith)
            requires
                0 <= k <= hi,
                b >= 0,
        ;
    } else {
        assert(hi * b <= k * b <= 0) by (nonlinear_arith)
            requires
                0 <= k <= hi,
                b < 0,
        ;
    }
}

/// An affine map takes its extreme values over a square at the corners, so
/// the four corners decide whether the whole square fits.
proof fn lemma_corners_decide(a: int, b: int, c: int, hi: int, offset: int)
    requires
        hi >= 0,
        fits_i32(affine(a, b, c, 0, 0) + offset),
        fits_i32(affine(a, b, c, hi, 0) + offset),
        fits_i32(affine(a, b, c, 0, hi) + offset),
        fits_i32(affine(a, b, c, hi, hi) + offset),
    ensures
        square_fits(a, b, c, hi, offset),
{
    let ylo = if b >= 0 { 0 } else { hi };
    let yhi = if b >= 0 { hi } else { 0 };
    let xlo = if c >= 0 { 0 } else { hi };
    let xhi = if c >= 0 { hi } else { 0 };
    assert forall|x: int, y: int| 0 <= x <= hi && 0 <= y <= hi implies fits_i32(
        #[trigger] affine(a, b, c, x, y) + offset,
    ) by {
        lemma_scaled_in_range(y, hi, b);
        lemma_scaled_in_range(x, hi, c);
        assert(affine(a, b, c, xlo, ylo) <= affine(a, b, c, x, y));
        assert(affine(a, b, c, x, y) <= affine(a, b, c, xhi, yhi));
    }
}

/// `a + y * b + x * c` for one corner, computed without overflow.
fn corner_value(a: i32, b: i32, c: i32, x: u32, y: u32) -> (v: i128)
    ensures
        v == affine(a as int, b as int, c as int, x as int, y as int),
        -0x1_0000_0000_0000_0000_0000 <= v <= 0x1_0000_0000_0000_0000_0000,
{
    assert(-0x8000_0000_0000_0000 <= (y as int) * (b as int) <= 0x8000_0000_0000_0000)
        by (nonlinear_arith)
        requires
            0 <= y <= 0xffff_ffff,
            -0x8000_0000 <= b <= 0x7fff_ffff,
    ;
    assert(-0x8000_0000_0000_0000 <= (x as int) * (c as int) <= 0x8000_0000_0000_0000)
        by (nonlinear_arith)
        requires
            0 <= x <= 0xffff_ffff,
            -0x8000_0000 <= c <= 0x7fff_ffff,
    ;
    a as i128 + (y as i128) * (b as i128) + (x as i128) * (c as i128)
}

fn value_fits(v: i128, offset: i128) -> (r: bool)
    requires
        -0x1_0000_0000_0000_0000_0000 <= v <= 0x1_0000_0000_0000_0000_0000,
        0 <= offset <= 32768,
    ensures
        r == fits_i32(v + offset),
{
    let w = v + offset;
    -0x8000_0000 <= w && w <= 0x7fff_ffff
}

/// Whether the affine map fits `i32` over the whole square `[0, hi]^2`
/// once shifted by `offset`.
fn square_fits_check(a: i32, b: i32, c: i32, hi: u32, offset: i128) -> (r: bool)
    requires
        0 <= offset <= 32768,
    ensures
        r == square_fits(a as int, b as int, c as int, hi as int, offset as int),
{
    let v00 = corner_value(a, b, c, 0, 0);
    let v10 = corner_value(a, b, c, hi, 0);
    let v01 = corner_value(a, b, c, 0, hi);
    let v11 = corner_value(a, b, c, hi, hi);
    let r = value_fits(v00, offset) && value_fits(v10, offset) && value_fits(v01, offset)
        && value_fits(v11, offset);
    proof {
        if r {
            lemma_corners_decide(a as int, b as int, c as int, hi as int, offset as int);
        } else {
            assert(!fits_i32(affine(a as int, b as int, c as int, 0, 0) + offset) || !fits_i32(
                affine(a as int, b as int, c as int, hi as int, 0) + offset,
            ) || !fits_i32(affine(a as int, b as int, c as int, 0, hi as int) + offset)
                || !fits_i32(affine(a as int, b as int, c as int, hi as int, hi as int) + offset));
        }
    }
    r
}

/// Whether `rotate_and_crop_fixed_point` accepts a `width` x `height` image
/// and `walk`: the image is at least as wide as high, its pixel indices fit
/// `i32`, and the walk stays within `i32` over the square crop.
pub fn rotation_fits(width: u32, height: u32, walk: FixedPointWalk) -> (r: bool)
    ensures
        r == (width >= height && (height == 0 || (width <= i32::MAX && width * height
            <= i32::MAX + 1)) && walk_fits(walk, height as int)),
{
    if width < height {
        return false;
    }
    if height > 0 {
        if width > 0x7fff_ffff {
            return false;
        }
        assert((width as int) * (height as int) <= 0x7fff_ffff * 0xffff_ffff) by (nonlinear_arith)
            requires
                width <= 0x7fff_ffff,
                height <= 0xffff_ffff,
        ;
        if (width as u64) * (height as u64) > 0x8000_0000 {
            return false;
        }
    }
    let size = height;
    let xs = square_fits_check(walk.start_x, walk.dy_src_x, walk.dx_src_x, size, 0);
    let ys = square_fits_check(walk.start_y, walk.dy_src_y, walk.dx_src_y, size, 0);
    let inner = if size == 0 {
        true
    } else {
        square_fits_check(walk.start_x, walk.dy_src_x, walk.dx_src_x, size - 1, 32768)
            && square_fits_check(walk.start_y, walk.dy_src_y, walk.dx_src_y, size - 1, 32768)
    };
    let r = xs && ys && inner;
    proof {
        let (sx, bx, cx) = (walk.start_x as int, walk.dy_src_x as int, walk.dx_src_x as int);
        let (sy, by, cy) = (walk.start_y as int, walk.dy_src_y as int, walk.dx_src_y as int);
        let n = size as int;
        if r {
            assert forall|x: int, y: int| 0 <= x <= n && 0 <= y <= n implies {
                &&& fits_i32(#[trigger] walk_x(walk, x, y))
                &&& fits_i32(walk_y(walk, x, y))
                &&& (x < n && y < n) ==> fits_i32(walk_x(walk, x, y) + 32768) && fits_i32(
                    walk_y(walk, x, y) + 32768,
                )
            } by {
                assert(walk_x(walk, x, y) == affine(sx, bx, cx, x, y));
                assert(walk_y(walk, x, y) == affine(sy, by, cy, x, y));
            }
            assert forall|x: int, y: int| 0 <= x <= n && 0 <= y <= n implies fits_i32(
                #[trigger] walk_y(walk, x, y),
            ) by {
                assert(walk_y(walk, x, y) == affine(sy, by, cy, x, y));
            }
            assert(walk_fits(walk, n));
        } else {
            if !xs {
                let (x, y) = choose|x: int, y: int|
                    0 <= x <= n && 0 <= y <= n && !fits_i32(#[trigger] affine(sx, bx, cx, x, y) + 0);
                assert(walk_x(walk, x, y) == affine(sx, bx, cx, x, y));
            } else if !ys {
                let (x, y) = choose|x: int, y: int|
                    0 <= x <= n && 0 <= y <= n && !fits_i32(#[trigger] affine(sy, by, cy, x, y) + 0);
                assert(walk_y(walk, x, y) == affine(sy, by, cy, x, y));
            } else if !square_fits(sx, bx, cx, n - 1, 32768) {
                let (x, y) = choose|x: int, y: int|
                    0 <= x <= n - 1 && 0 <= y <= n - 1 && !fits_i32(
                        #[trigger] affine(sx, bx, cx, x, y) + 32768,
                    );
                assert(walk_x(walk, x, y) == affine(sx, bx, cx, x, y));
            } else {
                let (x, y) = choose|x: int, y: int|
                    0 <= x <= n - 1 && 0 <= y <= n - 1 && !fits_i32(
                        #[trigger] affine(sy, by, cy, x, y) + 32768,
                    );
                assert(walk_y(walk, x, y) == affine(sy, by, cy, x, y));
            }
        }
    }
    r
}

proof fn lemma_shift_is_floor_div(a: i32)
    ensures
        (a >> 16u32) as int == (a as int) / 65536,
{
    assert((a >> 16u32) as int == (a as int) / 65536) by (bit_vector);
}

/// Rotates and crops a `width` x `height` grey image (`width >= height`) to a
/// `height` x `height` square, row by row, sampling each output pixel from the
/// source pixel nearest to the fixed-point walk.
pub fn rotate_and_crop_fixed_point(
    image: &[u8],
    width: u32,
    height: u32,
    walk: FixedPointWalk,
) -> (out: Vec<u8>)
    requires
        width >= height,
        image@.len() == width * height,
        height == 0 || (width <= i32::MAX && width * height <= i32::MAX + 1),
        walk_fits(walk, height as int),
    ensures
        out@.len() == height * height,
        forall|k: int|
            0 <= k < out@.len() ==> #[trigger] out@[k] == rotated_pixel(
                image@,
                width as int,
                height as int,
                walk,
                k % height as int,
                k / height as int,
            ),
{
    let size = height;
    let in_w = width as i32;
    let in_h = height as i32;
    let mut out: Vec<u8> = Vec::new();
    let mut row_src_x = walk.start_x;
    let mut row_src_y = walk.start_y;
    let mut y: u32 = 0;
    while y < size
        invariant
            size == height,
            width >= height,
            image@.len() == width * height,
            height == 0 || (width <= i32::MAX && width * height <= i32::MAX + 1),
            height > 0 ==> in_w == width && in_h == height,
            walk_fits(walk, size as int),
            y <= size,
            row_src_x == walk_x(walk, 0, y as int),
            row_src_y == walk_y(walk, 0, y as int),
            out@.len() == y * size,
            forall|k: int|
                0 <= k < out@.len() ==> #[trigger] out@[k] == rotated_pixel(
                    image@,
                    width as int,
                    height as int,
                    walk,
                    k % height as int,
                    k / height as int,
                ),
        decreases size - y,
    {
        let mut src_x = row_src_x;
        let mut src_y = row_src_y;
        let mut x: u32 = 0;
        while x < size
            invariant
                size == height,
                height > 0,
                width >= height,
                image@.len() == width * height,
                width <= i32::MAX && width * height <= i32::MAX + 1,
                in_w == width && in_h == height,
                walk_fits(walk, size as int),
                y < size,
                x <= size,
                row_src_x == walk_x(walk, 0, y as int),
                row_src_y == walk_y(walk, 0, y as int),
                src_x == walk_x(walk, x as int, y as int),
                src_y == walk_y(walk, x as int, y as int),
                out@.len() == y * size + x,
                forall|k: int|
                    0 <= k < out@.len() ==> #[trigger] out@[k] == rotated_pixel(
                        image@,
                        width as int,
                        height as int,
                        walk,
                        k % height as int,
                        k / height as int,
                    ),
            decreases size - x,
        {
            assert(fits_i32(walk_x(walk, x as int, y as int) + 32768));
            assert(fits_i32(walk_y(walk, x as int, y as int) + 32768));
            assert(fits_i32(walk_x(walk, x as int + 1, y as int)));
            assert(fits_i32(walk_y(walk, x as int + 1, y as int)));
            let sx = src_x + 32768;
            let sy = src_y + 32768;
            let px = sx >> 16u32;
            let py = sy >> 16u32;
            proof {
                lemma_shift_is_floor_div(sx);
                lemma_shift_is_floor_div(sy);
            }
            let pixel: u8 = if px >= 0 && px < in_w && py >= 0 && py < in_h {
                assert(py * width + px < width * height) by (nonlinear_arith)
                    requires
                        0 <= px < width,
                        0 <= py < height,
                ;
                assert(0 <= py * width) by (nonlinear_arith)
                    requires
                        0 <= py,
                        0 <= width,
                ;
                let idx = py * in_w + px;
                image[idx as usize]
            } else {
                0
            };
            proof {
                let k = out@.len() as int;
                lemma_fundamental_div_mod_converse(k, height as int, y as int, x as int);
            }
            out.push(pixel);
            assert(walk_x(walk, x as int + 1, y as int) == walk_x(walk, x as int, y as int)
                + walk.dx_src_x) by (nonlinear_arith);
            assert(walk_y(walk, x as int + 1, y as int) == walk_y(walk, x as int, y as int)
                + walk.dx_src_y) by (nonlinear_arith);
            src_x = src_x + walk.dx_src_x;
            src_y = src_y + walk.dx_src_y;
            x += 1;
        }
        assert(fits_i32(walk_x(walk, 0, y as int + 1)));
        assert(fits_i32(walk_y(walk, 0, y as int + 1)));
        assert(walk_x(walk, 0, y as int + 1) == walk_x(walk, 0, y as int) + walk.dy_src_x)
            by (nonlinear_arith);
        assert(walk_y(walk, 0, y as int + 1) == walk_y(walk, 0, y as int) + walk.dy_src_y)
            by (nonlinear_arith);
        assert(y * size + size == (y + 1) * size) by (nonlinear_arith);
        row_src_x = row_src_x + walk.dy_src_x;
        row_src_y = row_src_y + walk.dy_src_y;
        y += 1;
    }
    out
}

} // verus!
