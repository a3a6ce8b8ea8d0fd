//! Conversion of raw camera frames (8-bit, packed RAW10, packed RAW12) into an
//! 8-bit luminance image plus a 2x2-binned copy of it.
use vstd::prelude::*;
use vstd::arithmetic::div_mod::lemma_fundamental_div_mod_converse;

verus! {

/// Pixels and bytes in one packing group: an 8-bit frame stores one pixel per
/// byte, packed RAW10 four pixels in five bytes, packed RAW12 two pixels in three
/// bytes. The first bytes of a group carry the high eight bits of each pixel.
pub open spec fn group_shape(is_10_bit: bool, is_12_bit: bool) -> (int, int) {
    if is_10_bit {
        (4, 5)
    } else if is_12_bit {
        (2, 3)
    } else {
        (1, 1)
    }
}

/// A frame whose rows follow each other with no padding.
pub open spec fn is_contiguous_layout(stride: int, width: int, gp: int, gb: int) -> bool {
    stride == (width * gb) / gp
}

/// Index of the source byte that image pixel `i` is taken from, or `None`
/// when the conversion leaves that pixel as it was.
pub open spec fn unpack_source(
    stride: int,
    width: int,
    height: int,
    is_10_bit: bool,
    is_12_bit: bool,
    i: int,
) -> Option<int> {
    let (gp, gb) = group_shape(is_10_bit, is_12_bit);
    if is_contiguous_layout(stride, width, gp, gb) {
        if 0 <= i < gp * ((width * height) / gp) {
            Some(gb * (i / gp) + i % gp)
        } else {
            None
        }
    } else {
        if 0 <= i < width * height && i % width < gp * (width / gp) {
            Some((i / width) * stride + gb * ((i % width) / gp) + (i % width) % gp)
        } else {
            None
        }
    }
}

/// The full-resolution 8-bit image after unpacking `buf` over `old`.
pub open spec fn unpacked_frame(
    old: Seq<u8>,
    buf: Seq<u8>,
    stride: int,
    width: int,
    height: int,
    is_10_bit: bool,
    is_12_bit: bool,
) -> Seq<u8> {
    Seq::new(
        old.len(),
        |i: int|
            match unpack_source(stride, width, height, is_10_bit, is_12_bit, i) {
                Some(j) => buf[j],
                None => old[i],
            },
    )
}

/// Rounded-down mean of the 2x2 block whose top-left pixel is at
/// row `2 * oy`, column `2 * ox`.
pub open spec fn block_average(img: Seq<u8>, width: int, oy: int, ox: int) -> u8 {
    let top = 2 * oy * width + 2 * ox;
    let bottom = (2 * oy + 1) * width + 2 * ox;
    ((img[top] + img[top + 1] + img[bottom] + img[bottom + 1]) / 4) as u8
}

/// The binned image: pixel `oy * (width / 2) + ox` is the mean of one 2x2 block.
pub open spec fn binned_frame(old: Seq<u8>, img: Seq<u8>, width: int, height: int) -> Seq<u8> {
    Seq::new(
        old.len(),
        |k: int|
            if 0 <= k < (height / 2) * (width / 2) {
                block_average(img, width, k / (width / 2), k % (width / 2))
            } else {
                old[k]
            },
    )
}

/// The input sizes for which the conversion reads and writes only inside its
/// buffers and its index arithmetic stays within `usize`.
pub open spec fn frame_fits(
    stride: int,
    buf_len: int,
    image_len: int,
    binned_len: int,
    width: int,
    height: int,
    is_10_bit: bool,
    is_12_bit: bool,
) -> bool {
    let (gp, gb) = group_shape(is_10_bit, is_12_bit);
    &&& width * height <= image_len
    &&& (height / 2) * (width / 2) <= binned_len
    &&& width * gb <= usize::MAX
    &&& if is_contiguous_layout(stride, width, gp, gb) {
        &&& width * height * gb <= usize::MAX
        &&& (width * height * gb) / gp <= buf_len
    } else {
        height == 0 || (height - 1) * stride + (width * gb) / gp <= buf_len
    }
}

proof fn lemma_group_index(i: int, start: int, gp: int, k: int, j: int)
    requires
        gp > 0,
        0 <= j < gp,
        i == start + gp * k + j,
    ensures
        (i - start) / gp == k,
        (i - start) % gp == j,
{
    assert(i - start == k * gp + j) by (nonlinear_arith)
        requires
            i == start + gp * k + j,
    ;
    lemma_fundamental_div_mod_converse(i - start, gp, k, j);
}

/// Copies `groups` packing groups from `src` to `dst`, keeping the first `gp`
/// bytes of every `gb`-byte group.
fn unpack_groups(
    src: &[u8],
    src_start: usize,
    dst: &mut [u8],
    dst_start: usize,
    groups: usize,
    gp: usize,
    gb: usize,
)
    requires
        1 <= gp <= gb,
        src_start + gb * groups <= src@.len(),
        dst_start + gp * groups <= old(dst)@.len(),
    ensures
        final(dst)@.len() == old(dst)@.len(),
        forall|i: int|
            0 <= i < final(dst)@.len() ==> #[trigger] final(dst)@[i] == (if dst_start <= i
                < dst_start + gp * groups {
                src@[src_start + gb * ((i - dst_start) / gp as int) + (i - dst_start) % gp as int]
            } else {
                old(dst)@[i]
            }),
{
    let ghost orig = dst@;
    let dst_len = dst.len();
    let src_len = src.len();
    let mut k: usize = 0;
    while k < groups
        invariant
            1 <= gp <= gb,
            k <= groups,
            src_start + gb * groups <= src@.len(),
            dst_start + gp * groups <= orig.len(),
            dst@.len() == orig.len(),
            dst_len == orig.len(),
            src_len == src@.len(),
            forall|i: int|
                0 <= i < dst@.len() ==> #[trigger] dst@[i] == (if dst_start <= i < dst_start + gp
                    * k {
                    src@[src_start + gb * ((i - dst_start) / gp as int) + (i - dst_start)
                        % gp as int]
                } else {
                    orig[i]
                }),
        decreases groups - k,
    {
        assert(gp * k + gp <= gp * groups && gb * k + gb <= gb * groups) by (nonlinear_arith)
            requires
                k < groups,
                gp >= 1,
                gb >= 1,
        ;
        let mut j: usize = 0;
        while j < gp
            invariant
                1 <= gp <= gb,
                k < groups,
                j <= gp,
                gp * k + gp <= gp * groups,
                gb * k + gb <= gb * groups,
                src_start + gb * groups <= src@.len(),
                dst_start + gp * groups <= orig.len(),
                dst@.len() == orig.len(),
                dst_len == orig.len(),
                src_len == src@.len(),
                forall|i: int|
                    0 <= i < dst@.len() ==> #[trigger] dst@[i] == (if dst_start <= i < dst_start
                        + gp * k + j {
                        src@[src_start + gb * ((i - dst_start) / gp as int) + (i - dst_start)
                            % gp as int]
                    } else {
                        orig[i]
                    }),
            decreases gp - j,
        {
            let di = dst_start + gp * k + j;
            let si = src_start + gb * k + j;
            proof {
                lemma_group_index(di as int, dst_start as int, gp as int, k as int, j as int);
            }
            dst[di] = src[si];
            j += 1;
        }
        assert(gp * (k + 1) == gp * k + gp) by (nonlinear_arith);
        k += 1;
    }
}


/// Where pixel `i` of a frame with padded rows is taken from: each row of
/// `width` pixels is unpacked from its own `stride`-byte row of the source.
pub open spec fn row_unpack_source(stride: int, width: int, height: int, gp: int, gb: int, i: int) -> Option<int> {
    if 0 <= i < width * height && i % width < gp * (width / gp) {
        Some((i / width) * stride + gb * ((i % width) / gp) + (i % width) % gp)
    } else {
        None
    }
}

proof fn lemma_groups_within_row_bytes(w: int, gp: int, gb: int)
    requires
        w >= 0,
        1 <= gp <= gb,
    ensures
        gp * (w / gp) <= w,
        gb * (w / gp) <= (w * gb) / gp,
{
    let q = w / gp;
    let r = w % gp;
    let qq = (w * gb) / gp;
    let rr = (w * gb) % gp;
    vstd::arithmetic::div_mod::lemma_fundamental_div_mod(w, gp);
    vstd::arithmetic::div_mod::lemma_fundamental_div_mod(w * gb, gp);
    vstd::arithmetic::div_mod::lemma_mod_bound(w, gp);
    vstd::arithmetic::div_mod::lemma_mod_bound(w * gb, gp);
    assert(gb * q <= qq) by (nonlinear_arith)
        requires
            w == gp * q + r,
            0 <= r < gp,
            w * gb == gp * qq + rr,
            0 <= rr < gp,
            1 <= gp <= gb,
            w >= 0,
    ;
    assert(gp * q <= w) by (nonlinear_arith)
        requires
            w == gp * q + r,
            0 <= r,
    ;
}

/// Unpacks `height` rows of `width` pixels; row `r` of the source starts at
/// byte `r * stride`, row `r` of the image at pixel `r * width`.
fn unpack_rows(
    buf: &[u8],
    image: &mut [u8],
    stride: usize,
    width: usize,
    height: usize,
    gp: usize,
    gb: usize,
)
    requires
        1 <= gp <= gb,
        width * height <= old(image)@.len(),
        width * gb <= usize::MAX,
        height == 0 || (height - 1) * stride + (width * gb) / (gp as int) <= buf@.len(),
    ensures
        final(image)@.len() == old(image)@.len(),
        forall|i: int|
            0 <= i < final(image)@.len() ==> #[trigger] final(image)@[i] == match row_unpack_source(
                stride as int,
                width as int,
                height as int,
                gp as int,
                gb as int,
                i,
            ) {
                Some(j) => buf@[j],
                None => old(image)@[i],
            },
{
    let ghost orig = image@;
    let image_len = image.len();
    let buf_len = buf.len();
    let groups = width / gp;
    proof {
        lemma_groups_within_row_bytes(width as int, gp as int, gb as int);
    }
    let mut row: usize = 0;
    while row < height
        invariant
            1 <= gp <= gb,
            row <= height,
            groups == width / gp,
            gp * groups <= width,
            gb * groups <= (width * gb) / (gp as int),
            width * height <= orig.len(),
            width * gb <= usize::MAX,
            height == 0 || (height - 1) * stride + (width * gb) / (gp as int) <= buf@.len(),
            image@.len() == orig.len(),
            image_len == orig.len(),
            buf_len == buf@.len(),
            forall|i: int|
                0 <= i < image@.len() ==> #[trigger] image@[i] == (if i < row * width {
                    match row_unpack_source(
                        stride as int,
                        width as int,
                        height as int,
                        gp as int,
                        gb as int,
                        i,
                    ) {
                        Some(j) => buf@[j],
                        None => orig[i],
                    }
                } else {
                    orig[i]
                }),
        decreases height - row,
    {
        assert(row * width + width <= width * height && row * stride <= (height - 1) * stride)
            by (nonlinear_arith)
            requires
                row < height,
        ;
        let src_start = row * stride;
        let dst_start = row * width;
        let ghost before = image@;
        unpack_groups(buf, src_start, image, dst_start, groups, gp, gb);
        assert forall|i: int| 0 <= i < image@.len() implies #[trigger] image@[i] == (if i < (row
            + 1) * width {
            match row_unpack_source(
                stride as int,
                width as int,
                height as int,
                gp as int,
                gb as int,
                i,
            ) {
                Some(j) => buf@[j],
                None => orig[i],
            }
        } else {
            orig[i]
        }) by {
            assert((row + 1) * width == row * width + width) by (nonlinear_arith);
            if row * width <= i < row * width + width {
                lemma_fundamental_div_mod_converse(i, width as int, row as int, i - row * width);
                assert(i < width * height) by (nonlinear_arith)
                    requires
                        i < row * width + width,
                        row * width + width <= width * height,
                ;
            }
        }
        row += 1;
    }
}

proof fn lemma_block_in_frame(oy: int, ox: int, width: int, height: int)
    requires
        0 <= oy < height / 2,
        0 <= ox < width / 2,
    ensures
        (2 * oy + 1) * width + 2 * ox + 1 < width * height,
        2 * oy * width + 2 * ox + 1 < (2 * oy + 1) * width,
        (2 * oy + 1) * width == 2 * oy * width + width,
{
    assert(2 * oy + 2 <= height && 2 * ox + 2 <= width) by {
        vstd::arithmetic::div_mod::lemma_fundamental_div_mod(height, 2);
        vstd::arithmetic::div_mod::lemma_fundamental_div_mod(width, 2);
    }
    assert((2 * oy + 1) * width + 2 * ox + 1 < width * height) by (nonlinear_arith)
        requires
            2 * oy + 2 <= height,
            2 * ox + 2 <= width,
            oy >= 0,
            ox >= 0,
    ;
    assert((2 * oy + 1) * width == 2 * oy * width + width) by (nonlinear_arith);
}

/// Bins the image 2x2 into `binned`, each output pixel the rounded-down mean
/// of four input pixels.
fn bin_2x2(image: &[u8], binned: &mut [u8], width: usize, height: usize)
    requires
        width * height <= image@.len(),
        (height / 2) * (width / 2) <= old(binned)@.len(),
    ensures
        final(binned)@ == binned_frame(old(binned)@, image@, width as int, height as int),
{
    let ghost orig = binned@;
    let binned_len = binned.len();
    let image_len = image.len();
    let out_width = width / 2;
    let out_height = height / 2;
    let mut oy: usize = 0;
    while oy < out_height
        invariant
            out_width == width / 2,
            out_height == height / 2,
            oy <= out_height,
            width * height <= image@.len(),
            image_len == image@.len(),
            out_height * out_width <= orig.len(),
            binned@.len() == orig.len(),
            binned_len == orig.len(),
            forall|k: int|
                0 <= k < binned@.len() ==> #[trigger] binned@[k] == (if k < oy * out_width {
                    block_average(image@, width as int, k / out_width as int, k % out_width as int)
                } else {
                    orig[k]
                }),
        decreases out_height - oy,
    {
        assert(oy * out_width + out_width <= out_height * out_width) by (nonlinear_arith)
            requires
                oy < out_height,
        ;
        let mut ox: usize = 0;
        while ox < out_width
            invariant
                out_width == width / 2,
                out_height == height / 2,
                oy < out_height,
                ox <= out_width,
                oy * out_width + out_width <= out_height * out_width,
                width * height <= image@.len(),
                image_len == image@.len(),
                out_height * out_width <= orig.len(),
                binned@.len() == orig.len(),
                binned_len == orig.len(),
                forall|k: int|
                    0 <= k < binned@.len() ==> #[trigger] binned@[k] == (if k < oy * out_width
                        + ox {
                        block_average(
                            image@,
                            width as int,
                            k / out_width as int,
                            k % out_width as int,
                        )
                    } else {
                        orig[k]
                    }),
            decreases out_width - ox,
        {
            proof {
                lemma_block_in_frame(oy as int, ox as int, width as int, height as int);
            }
            let top = 2 * oy * width + 2 * ox;
            let bottom = top + width;
            let total: u16 = image[top] as u16 + image[top + 1] as u16 + image[bottom] as u16
                + image[bottom + 1] as u16;
            let k = oy * out_width + ox;
            proof {
                lemma_fundamental_div_mod_converse(k as int, out_width as int, oy as int, ox as int);
            }
            binned[k] = (total / 4) as u8;
            ox += 1;
        }
        assert(oy * out_width + out_width == (oy + 1) * out_width) by (nonlinear_arith);
        oy += 1;
    }
    assert(binned@ =~= binned_frame(orig, image@, width as int, height as int));
}

/// Whether a frame of these sizes can be converted: `frame_fits`, decided
/// with checked arithmetic.
pub fn frame_fits_check(
    stride: usize,
    buf_len: usize,
    image_len: usize,
    binned_len: usize,
    width: usize,
    height: usize,
    is_10_bit: bool,
    is_12_bit: bool,
) -> (r: bool)
    ensures
        r == frame_fits(
            stride as int,
            buf_len as int,
            image_len as int,
            binned_len as int,
            width as int,
            height as int,
            is_10_bit,
            is_12_bit,
        ),
{
    let (gp, gb): (usize, usize) = if is_10_bit {
        (4, 5)
    } else if is_12_bit {
        (2, 3)
    } else {
        (1, 1)
    };
    let total = match width.checked_mul(height) {
        Some(t) => t,
        None => {
            assert(width * height > image_len);
            return false;
        },
    };
    if total > image_len {
        return false;
    }
    assert((height / 2) * (width / 2) <= width * height) by (nonlinear_arith)
        requires
            0 <= width,
            0 <= height,
    ;
    if (height / 2) * (width / 2) > binned_len {
        return false;
    }
    let row_full = match width.checked_mul(gb) {
        Some(t) => t,
        None => return false,
    };
    let row_bytes = row_full / gp;
    if stride == row_bytes {
        let packed_full = match total.checked_mul(gb) {
            Some(t) => t,
            None => return false,
        };
        packed_full / gp <= buf_len
    } else if height == 0 {
        true
    } else {
        match (height - 1).checked_mul(stride) {
            Some(rows) => match rows.checked_add(row_bytes) {
                Some(last) => last <= buf_len,
                None => false,
            },
            None => false,
        }
    }
}

/// Converts a raw camera frame into an 8-bit image and its 2x2-binned copy.
///
/// 8-bit frames are copied pixel for pixel; packed RAW10 and RAW12 frames keep
/// the high byte of each pixel (the first four bytes of every five, or the first
/// two of every three). Rows are `stride` bytes apart in `buf_data`; a frame
/// whose stride equals its packed row length is unpacked as one run. Pixels that
/// no whole packing group covers keep their previous value.
pub fn convert_to_8bit_optimized(
    stride: usize,
    buf_data: &[u8],
    image_data: &mut [u8],
    binned_data: &mut [u8],
    width: usize,
    height: usize,
    is_10_bit: bool,
    is_12_bit: bool,
    is_packed: bool,
)
    requires
        !(is_10_bit || is_12_bit) || is_packed,
        frame_fits(
            stride as int,
            buf_data@.len() as int,
            old(image_data)@.len() as int,
            old(binned_data)@.len() as int,
            width as int,
            height as int,
            is_10_bit,
            is_12_bit,
        ),
    ensures
        final(image_data)@ == unpacked_frame(
            old(image_data)@,
            buf_data@,
            stride as int,
            width as int,
            height as int,
            is_10_bit,
            is_12_bit,
        ),
        final(binned_data)@ == binned_frame(
            old(binned_data)@,
            final(image_data)@,
            width as int,
            height as int,
        ),
{
    let ghost orig = image_data@;
    let gp: usize = if is_10_bit {
        4
    } else if is_12_bit {
        2
    } else {
        1
    };
    let gb: usize = if is_10_bit {
        5
    } else if is_12_bit {
        3
    } else {
        1
    };
    let contiguous = stride == (width * gb) / gp;
    if contiguous {
        let total_pixels = width * height;
        proof {
            lemma_groups_within_row_bytes(total_pixels as int, gp as int, gb as int);
        }
        unpack_groups(buf_data, 0, image_data, 0, total_pixels / gp, gp, gb);
    } else {
        unpack_rows(buf_data, image_data, stride, width, height, gp, gb);
    }
    assert(image_data@ =~= unpacked_frame(
        orig,
        buf_data@,
        stride as int,
        width as int,
        height as int,
        is_10_bit,
        is_12_bit,
    ));
    bin_2x2(image_data, binned_data, width, height);
}

} // verus!
