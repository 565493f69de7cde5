//! Pixelation of a canvas region: the region is cut into square blocks from
//! its top-left corner, and each block is filled with the average color of
//! its own pixels.
use crate::raster::{covers, fill_rect, fill_rect_fits, filled_rect, lemma_index_of, painted};
use vstd::prelude::*;
use vstd::arithmetic::div_mod::{
    lemma_fundamental_div_mod, lemma_fundamental_div_mod_converse, lemma_mod_add_multiples_vanish,
};
use vstd::arithmetic::mul::lemma_mul_inequality;

verus! {

/// The smaller of two integers.
pub open spec fn smaller(a: int, b: int) -> int {
    if a < b {
        a
    } else {
        b
    }
}

/// The larger of two integers.
pub open spec fn larger(a: int, b: int) -> int {
    if a > b {
        a
    } else {
        b
    }
}

/// Side of the pixelation blocks: the requested size, at least 2.
pub open spec fn block_side(block: int) -> int {
    larger(block, 2)
}

/// One 8-bit channel of a 0RGB pixel: `shift` is 16 for red, 8 for green
/// and 0 for blue.
pub open spec fn channel(pixel: u32, shift: u32) -> int {
    ((pixel >> shift) & 0xffu32) as int
}

/// Sum of one channel over the columns `left..right` of row `row`.
pub open spec fn row_channel_sum(buffer: Seq<u32>, width: int, row: int, left: int, right: int, shift: u32) -> int
    decreases right - left,
{
    if right <= left {
        0
    } else {
        row_channel_sum(buffer, width, row, left, right - 1, shift) + channel(
            buffer[row * width + right - 1],
            shift,
        )
    }
}

/// Sum of one channel over the columns `left..right` of the rows
/// `top..bottom`.
pub open spec fn block_channel_sum(
    buffer: Seq<u32>,
    width: int,
    left: int,
    right: int,
    top: int,
    bottom: int,
    shift: u32,
) -> int
    decreases bottom - top,
{
    if bottom <= top {
        0
    } else {
        block_channel_sum(buffer, width, left, right, top, bottom - 1, shift) + row_channel_sum(
            buffer,
            width,
            bottom - 1,
            left,
            right,
            shift,
        )
    }
}

/// The average color of the columns `left..right` of the rows
/// `top..bottom`, each channel rounded down.
pub open spec fn block_average(buffer: Seq<u32>, width: int, left: int, right: int, top: int, bottom: int) -> u32 {
    let count = (right - left) * (bottom - top);
    let red = (block_channel_sum(buffer, width, left, right, top, bottom, 16) / count) as u32;
    let green = (block_channel_sum(buffer, width, left, right, top, bottom, 8) / count) as u32;
    let blue = (block_channel_sum(buffer, width, left, right, top, bottom, 0) / count) as u32;
    (red << 16u32) | (green << 8u32) | blue
}

/// Where the block that holds coordinate `value` starts, for blocks of
/// side `side` laid from `origin`.
pub open spec fn block_start(origin: int, side: int, value: int) -> int {
    origin + (value - origin) / side * side
}

/// What pixelation leaves in the canvas: each pixel of the region
/// `left..right` by `top..bottom`, clipped to the canvas, takes the average
/// color of its block in the original canvas; the others keep their value.
pub open spec fn pixelated(
    buffer: Seq<u32>,
    width: int,
    height: int,
    left: int,
    top: int,
    right: int,
    bottom: int,
    block: int,
) -> Seq<u32> {
    let l = larger(left, 0);
    let t = larger(top, 0);
    let r = smaller(right, width);
    let b = smaller(bottom, height);
    let side = block_side(block);
    Seq::new(
        buffer.len(),
        |i: int|
            if covers(width, l, t, r, b, i) {
                let x = block_start(l, side, i % width);
                let y = block_start(t, side, i / width);
                block_average(buffer, width, x, smaller(x + side, r), y, smaller(y + side, b))
            } else {
                buffer[i]
            },
    )
}

/// Pixelation can read every pixel of the clipped region: the region is
/// empty or its last row ends inside the buffer.
pub open spec fn pixelate_fits(
    buffer_len: int,
    width: int,
    height: int,
    left: int,
    top: int,
    right: int,
    bottom: int,
) -> bool {
    let l = larger(left, 0);
    let t = larger(top, 0);
    let r = smaller(right, width);
    let b = smaller(bottom, height);
    l >= r || t >= b || (b - 1) * width + r <= buffer_len
}

proof fn lemma_block_start(origin: int, side: int, start: int, value: int)
    requires
        side > 0,
        origin <= start <= value < start + side,
        (start - origin) % side == 0,
    ensures
        block_start(origin, side, value) == start,
{
    let n = (start - origin) / side;
    lemma_fundamental_div_mod(start - origin, side);
    assert(start - origin == n * side);
    assert(value - origin == n * side + (value - start));
    lemma_fundamental_div_mod_converse(value - origin, side, n, value - start);
}

proof fn lemma_channel_bound(pixel: u32, shift: u32)
    ensures
        0 <= channel(pixel, shift) <= 255,
{
    assert((pixel >> shift) & 0xffu32 <= 0xffu32) by (bit_vector);
}

/// Pixelates the region `left..right` by `top..bottom` of the canvas in
/// blocks of side `block` (at least 2).
pub fn pixelate_buffer_region(
    buffer: &mut [u32],
    width: u32,
    height: u32,
    left: i32,
    top: i32,
    right: i32,
    bottom: i32,
    block: i32,
)
    requires
        pixelate_fits(old(buffer)@.len() as int, width as int, height as int, left as int, top as int, right as int, bottom as int),
    ensures
        final(buffer)@ == pixelated(
            old(buffer)@,
            width as int,
            height as int,
            left as int,
            top as int,
            right as int,
            bottom as int,
            block as int,
        ),
{
    let ghost original = buffer@;
    let ghost target = pixelated(
        original,
        width as int,
        height as int,
        left as int,
        top as int,
        right as int,
        bottom as int,
        block as int,
    );
    let l: i64 = if left < 0 {
        0
    } else {
        left as i64
    };
    let t: i64 = if top < 0 {
        0
    } else {
        top as i64
    };
    let r: i64 = if (right as i64) < width as i64 {
        right as i64
    } else {
        width as i64
    };
    let b: i64 = if (bottom as i64) < height as i64 {
        bottom as i64
    } else {
        height as i64
    };
    let side: i64 = if block < 2 {
        2
    } else {
        block as i64
    };
    if l >= r || t >= b {
        proof {
            assert(buffer@ =~= target);
        }
        return;
    }
    let stride = width as usize;
    let mut block_y: i64 = t;
    while block_y < b
        invariant
            0 <= l < r <= width,
            0 <= t < b <= height,
            r <= i32::MAX,
            b <= i32::MAX,
            2 <= side <= i32::MAX,
            stride == width,
            (b - 1) * width + r <= original.len(),
            t <= block_y <= b + side,
            (block_y - t) % side as int == 0,
            buffer@.len() == original.len(),
            target == pixelated(
                original,
                width as int,
                height as int,
                left as int,
                top as int,
                right as int,
                bottom as int,
                block as int,
            ),
            l == larger(left as int, 0),
            t == larger(top as int, 0),
            r == smaller(right as int, width as int),
            b == smaller(bottom as int, height as int),
            side == block_side(block as int),
            forall|i: int|
                0 <= i < original.len() ==> #[trigger] buffer@[i] == if covers(width as int, l as int, t as int, r as int, b as int, i)
                    && i / (width as int) < block_y {
                    target[i]
                } else {
                    original[i]
                },
        decreases b + side - block_y,
    {
        let end_y: i64 = if block_y + side < b {
            block_y + side
        } else {
            b
        };
        let mut block_x: i64 = l;
        proof {
            assert((block_x - l) % (side as int) == 0) by (nonlinear_arith)
                requires
                    block_x == l,
                    side > 0,
            ;
        }
        while block_x < r
            invariant
                0 <= l < r <= width,
                0 <= t < b <= height,
                r <= i32::MAX,
                b <= i32::MAX,
                2 <= side <= i32::MAX,
                stride == width,
                (b - 1) * width + r <= original.len(),
                t <= block_y < b,
                (block_y - t) % side as int == 0,
                end_y == smaller(block_y + side, b as int),
                l <= block_x <= r + side,
                (block_x - l) % side as int == 0,
                buffer@.len() == original.len(),
                target == pixelated(
                    original,
                    width as int,
                    height as int,
                    left as int,
                    top as int,
                    right as int,
                    bottom as int,
                    block as int,
                ),
                l == larger(left as int, 0),
                t == larger(top as int, 0),
                r == smaller(right as int, width as int),
                b == smaller(bottom as int, height as int),
                side == block_side(block as int),
                forall|i: int|
                    0 <= i < original.len() ==> #[trigger] buffer@[i] == if covers(width as int, l as int, t as int, r as int, b as int, i)
                        && (i / (width as int) < block_y || (i / (width as int) < end_y && i % (width as int) < block_x)) {
                        target[i]
                    } else {
                        original[i]
                    },
            decreases r + side - block_x,
        {
            let end_x: i64 = if block_x + side < r {
                block_x + side
            } else {
                r
            };
            let color = block_color(buffer, stride, block_x, end_x, block_y, end_y, Ghost(original), Ghost(l), Ghost(t), Ghost(r), Ghost(b));
            let ghost before = buffer@;
            proof {
                lemma_mul_inequality(end_y - 1, b - 1, width as int);
                assert(fill_rect_fits(
                    buffer@.len() as int,
                    width as int,
                    height as int,
                    block_x as int,
                    block_y as int,
                    (end_x - block_x) as int,
                    (end_y - block_y) as int,
                ));
            }
            fill_rect(
                buffer,
                width,
                height,
                block_x as i32,
                block_y as i32,
                (end_x - block_x) as i32,
                (end_y - block_y) as i32,
                color,
            );
            proof {
                assert(buffer@ == painted(
                    before,
                    width as int,
                    block_x as int,
                    block_y as int,
                    end_x as int,
                    end_y as int,
                    color,
                ));
                assert forall|i: int| 0 <= i < original.len() implies #[trigger] buffer@[i] == if covers(width as int, l as int, t as int, r as int, b as int, i)
                    && (i / (width as int) < block_y || (i / (width as int) < end_y && i % (width as int) < end_x)) {
                    target[i]
                } else {
                    original[i]
                } by {
                    let x = i % (width as int);
                    let y = i / (width as int);
                    if covers(width as int, block_x as int, block_y as int, end_x as int, end_y as int, i) {
                        lemma_block_start(l as int, side as int, block_x as int, x);
                        lemma_block_start(t as int, side as int, block_y as int, y);
                    }
                }
            }
            proof {
                lemma_mod_add_multiples_vanish(block_x - l, side as int);
            }
            block_x = block_x + side;
        }
        proof {
            assert forall|i: int| 0 <= i < original.len() implies #[trigger] buffer@[i] == if covers(width as int, l as int, t as int, r as int, b as int, i)
                && i / (width as int) < end_y {
                target[i]
            } else {
                original[i]
            } by {}
        }
        proof {
            lemma_mod_add_multiples_vanish(block_y - t, side as int);
        }
        block_y = block_y + side;
    }
    proof {
        assert(buffer@ =~= target);
    }
}

/// The average color of one block, read from a canvas that still holds
/// the original pixels there.
fn block_color(
    buffer: &[u32],
    stride: usize,
    left: i64,
    right: i64,
    top: i64,
    bottom: i64,
    Ghost(original): Ghost<Seq<u32>>,
    Ghost(region_left): Ghost<i64>,
    Ghost(region_top): Ghost<i64>,
    Ghost(region_right): Ghost<i64>,
    Ghost(region_bottom): Ghost<i64>,
) -> (color: u32)
    requires
        0 <= region_left <= left < right <= region_right <= stride,
        0 <= region_top <= top < bottom <= region_bottom <= u32::MAX,
        stride <= u32::MAX,
        right - left <= i32::MAX,
        bottom - top <= i32::MAX,
        (region_bottom - 1) * stride + region_right <= original.len(),
        buffer@.len() == original.len(),
        forall|i: int|
            0 <= i < original.len() && covers(stride as int, left as int, top as int, right as int, bottom as int, i)
                ==> #[trigger] buffer@[i] == original[i],
    ensures
        color == block_average(original, stride as int, left as int, right as int, top as int, bottom as int),
{
    let length = buffer.len();
    let mut red: u128 = 0;
    let mut green: u128 = 0;
    let mut blue: u128 = 0;
    let mut count: u128 = 0;
    let mut y: i64 = top;
    let width = (right - left) as u128;
    while y < bottom
        invariant
            0 <= region_left <= left < right <= region_right <= stride,
            0 <= region_top <= top <= y <= bottom <= region_bottom <= u32::MAX,
            stride <= u32::MAX,
            right - left <= i32::MAX,
            bottom - top <= i32::MAX,
            width == right - left,
            length == original.len(),
            (region_bottom - 1) * stride + region_right <= original.len(),
            buffer@.len() == original.len(),
            forall|i: int|
                0 <= i < original.len() && covers(stride as int, left as int, top as int, right as int, bottom as int, i)
                    ==> #[trigger] buffer@[i] == original[i],
            count == (y - top) * width,
            red == block_channel_sum(original, stride as int, left as int, right as int, top as int, y as int, 16),
            green == block_channel_sum(original, stride as int, left as int, right as int, top as int, y as int, 8),
            blue == block_channel_sum(original, stride as int, left as int, right as int, top as int, y as int, 0),
            red <= 255 * count,
            green <= 255 * count,
            blue <= 255 * count,
        decreases bottom - y,
    {
        proof {
            lemma_mul_inequality(y as int, (region_bottom - 1) as int, stride as int);
            assert(y * stride + region_right <= original.len());
        }
        let base = (y as usize) * stride;
        let mut row_red: u128 = 0;
        let mut row_green: u128 = 0;
        let mut row_blue: u128 = 0;
        let mut x: i64 = left;
        while x < right
            invariant
                0 <= region_left <= left <= x <= right <= region_right <= stride,
                0 <= region_top <= top <= y < bottom <= region_bottom,
                base == y * stride,
                length == original.len(),
                base + region_right <= original.len(),
                buffer@.len() == original.len(),
                forall|i: int|
                    0 <= i < original.len() && covers(stride as int, left as int, top as int, right as int, bottom as int, i)
                        ==> #[trigger] buffer@[i] == original[i],
                row_red == row_channel_sum(original, stride as int, y as int, left as int, x as int, 16),
                row_green == row_channel_sum(original, stride as int, y as int, left as int, x as int, 8),
                row_blue == row_channel_sum(original, stride as int, y as int, left as int, x as int, 0),
                row_red <= 255 * (x - left),
                row_green <= 255 * (x - left),
                row_blue <= 255 * (x - left),
            decreases right - x,
        {
            let index = base + x as usize;
            proof {
                lemma_index_of(stride as int, y as int, x as int);
                assert(covers(stride as int, left as int, top as int, right as int, bottom as int, index as int));
                assert(buffer@[index as int] == original[index as int]);
                lemma_channel_bound(original[index as int], 16);
                lemma_channel_bound(original[index as int], 8);
                lemma_channel_bound(original[index as int], 0);
            }
            let pixel = buffer[index];
            row_red = row_red + ((pixel >> 16u32) & 0xffu32) as u128;
            row_green = row_green + ((pixel >> 8u32) & 0xffu32) as u128;
            row_blue = row_blue + (pixel & 0xffu32) as u128;
            proof {
                assert(pixel >> 0u32 == pixel) by (bit_vector);
            }
            x = x + 1;
        }
        proof {
            assert((y + 1 - top) * width == (y - top) * width + width) by (nonlinear_arith);
            assert((y - top) * width <= 0x7fff_ffff * 0x7fff_ffff) by (nonlinear_arith)
                requires
                    0 <= y - top <= 0x7fff_ffff,
                    0 <= width <= 0x7fff_ffff,
            ;
        }
        red = red + row_red;
        green = green + row_green;
        blue = blue + row_blue;
        count = count + width;
        y = y + 1;
    }
    proof {
        assert(count == (right - left) * (bottom - top)) by (nonlinear_arith)
            requires
                count == (bottom - top) * width,
                width == right - left,
        ;
        assert(count > 0) by (nonlinear_arith)
            requires
                count == (right - left) * (bottom - top),
                right - left > 0,
                bottom - top > 0,
        ;
        assert(red / count <= 255) by (nonlinear_arith)
            requires
                red <= 255 * count,
                count > 0,
        ;
        assert(green / count <= 255) by (nonlinear_arith)
            requires
                green <= 255 * count,
                count > 0,
        ;
        assert(blue / count <= 255) by (nonlinear_arith)
            requires
                blue <= 255 * count,
                count > 0,
        ;
    }
    let red_average = (red / count) as u32;
    let green_average = (green / count) as u32;
    let blue_average = (blue / count) as u32;
    (red_average << 16u32) | (green_average << 8u32) | blue_average
}

/// `rgba` with the four bytes of pixel `pixel` replaced by `value`.
pub open spec fn with_pixel(rgba: Seq<u8>, pixel: int, value: Seq<u8>) -> Seq<u8> {
    Seq::new(rgba.len(), |i: int| if i / 4 == pixel { value[i % 4] } else { rgba[i] })
}

fn write_pixel(rgba: &mut [u8], pixel: usize, value: [u8; 4])
    requires
        pixel * 4 + 4 <= old(rgba)@.len(),
    ensures
        final(rgba)@ == with_pixel(old(rgba)@, pixel as int, value@),
{
    let base = pixel * 4;
    rgba[base] = value[0];
    rgba[base + 1] = value[1];
    rgba[base + 2] = value[2];
    rgba[base + 3] = value[3];
    proof {
        assert forall|i: int| 0 <= i < rgba@.len() implies #[trigger] rgba@[i] == with_pixel(
            old(rgba)@,
            pixel as int,
            value@,
        )[i] by {
            if base <= i < base + 4 {
                assert(i / 4 == pixel as int);
                assert(i % 4 == i - base);
            } else {
                assert(i / 4 != pixel as int);
            }
        }
        assert(rgba@ =~= with_pixel(old(rgba)@, pixel as int, value@));
    }
}

/// An RGBA image with every pixel of the columns `left..right` of the rows
/// `top..bottom` set to `color`.
pub open spec fn filled_rgba(
    rgba: Seq<u8>,
    width: int,
    left: int,
    top: int,
    right: int,
    bottom: int,
    color: Seq<u8>,
) -> Seq<u8> {
    Seq::new(
        rgba.len(),
        |i: int|
            if covers(width, left, top, right, bottom, i / 4) {
                color[i % 4]
            } else {
                rgba[i]
            },
    )
}

/// Fills a rectangle of an RGBA image `width` pixels wide with `color`, as a
/// solid redaction does; the rectangle lies inside the image.
pub fn fill_rgba_region(
    rgba: &mut [u8],
    width: u32,
    left: usize,
    top: usize,
    right: usize,
    bottom: usize,
    color: [u8; 4],
)
    requires
        left <= right <= width,
        top <= bottom,
        bottom * width * 4 <= old(rgba)@.len(),
    ensures
        final(rgba)@ == filled_rgba(
            old(rgba)@,
            width as int,
            left as int,
            top as int,
            right as int,
            bottom as int,
            color@,
        ),
{
    let ghost before = rgba@;
    let length = rgba.len();
    let stride = width as usize;
    let mut y = top;
    while y < bottom
        invariant
            length == before.len(),
            left <= right <= stride,
            stride == width,
            top <= y <= bottom,
            bottom * stride * 4 <= before.len(),
            rgba@.len() == before.len(),
            forall|i: int|
                0 <= i < before.len() ==> #[trigger] rgba@[i] == if covers(
                    stride as int,
                    left as int,
                    top as int,
                    right as int,
                    y as int,
                    i / 4,
                ) {
                    color@[i % 4]
                } else {
                    before[i]
                },
        decreases bottom - y,
    {
        let mut x = left;
        while x < right
            invariant
                length == before.len(),
                left <= x <= right <= stride,
                stride == width,
                top <= y < bottom,
                bottom * stride * 4 <= before.len(),
                rgba@.len() == before.len(),
                forall|i: int|
                    0 <= i < before.len() ==> #[trigger] rgba@[i] == if covers(
                        stride as int,
                        left as int,
                        top as int,
                        right as int,
                        y as int,
                        i / 4,
                    ) || covers(stride as int, left as int, y as int, x as int, y + 1, i / 4) {
                        color@[i % 4]
                    } else {
                        before[i]
                    },
            decreases right - x,
        {
            proof {
                lemma_index_of(stride as int, y as int, x as int);
                lemma_mul_inequality(y + 1, bottom as int, stride as int);
                assert((y * stride + x) * 4 + 4 <= before.len()) by (nonlinear_arith)
                    requires
                        (y + 1) * stride <= bottom * stride,
                        x < stride,
                        bottom * stride * 4 <= before.len(),
                ;
            }
            let ghost previous = rgba@;
            write_pixel(rgba, y * stride + x, color);
            proof {
                assert forall|i: int| 0 <= i < before.len() implies #[trigger] rgba@[i] == if covers(
                    stride as int,
                    left as int,
                    top as int,
                    right as int,
                    y as int,
                    i / 4,
                ) || covers(stride as int, left as int, y as int, x + 1, y + 1, i / 4) {
                    color@[i % 4]
                } else {
                    before[i]
                } by {
                    let p = i / 4;
                    if p == y * stride + x {
                        assert(covers(stride as int, left as int, y as int, x + 1, y + 1, p));
                    } else {
                        assert(rgba@[i] == previous[i]);
                        lemma_fundamental_div_mod(p, stride as int);
                        if covers(stride as int, left as int, y as int, x + 1, y + 1, p) {
                            assert(p / (stride as int) == y);
                            assert((stride as int) * (y as int) == (y as int) * (stride as int))
                                by (nonlinear_arith);
                            assert(p % (stride as int) != x);
                        }
                    }
                }
            }
            x = x + 1;
        }
        proof {
            assert forall|i: int| 0 <= i < before.len() implies #[trigger] rgba@[i] == if covers(
                stride as int,
                left as int,
                top as int,
                right as int,
                y + 1,
                i / 4,
            ) {
                color@[i % 4]
            } else {
                before[i]
            } by {}
        }
        y = y + 1;
    }
    proof {
        assert(rgba@ =~= filled_rgba(before, width as int, left as int, top as int, right as int, bottom as int, color@));
    }
}

/// Sum of one channel (0 to 3) of the RGBA pixels in the columns
/// `left..right` of row `row`.
pub open spec fn rgba_row_sum(rgba: Seq<u8>, width: int, row: int, left: int, right: int, channel: int) -> int
    decreases right - left,
{
    if right <= left {
        0
    } else {
        rgba_row_sum(rgba, width, row, left, right - 1, channel) + rgba[(row * width + right - 1) * 4
            + channel] as int
    }
}

/// Sum of one channel of the RGBA pixels in the columns `left..right` of
/// the rows `top..bottom`.
pub open spec fn rgba_block_sum(
    rgba: Seq<u8>,
    width: int,
    left: int,
    right: int,
    top: int,
    bottom: int,
    channel: int,
) -> int
    decreases bottom - top,
{
    if bottom <= top {
        0
    } else {
        rgba_block_sum(rgba, width, left, right, top, bottom - 1, channel) + rgba_row_sum(
            rgba,
            width,
            bottom - 1,
            left,
            right,
            channel,
        )
    }
}

/// One channel of a block's average color, rounded down.
pub open spec fn rgba_block_average(
    rgba: Seq<u8>,
    width: int,
    left: int,
    right: int,
    top: int,
    bottom: int,
    channel: int,
) -> u8 {
    (rgba_block_sum(rgba, width, left, right, top, bottom, channel) / ((right - left) * (bottom - top))) as u8
}

/// Side of an effect's pixelation blocks: the effect's block size, at
/// least 12.
pub open spec fn effect_block_side(block_size: u8) -> int {
    if block_size < 12 {
        12
    } else {
        block_size as int
    }
}

/// What pixelating the rectangle `left..right` by `top..bottom` leaves in an
/// RGBA image: each pixel there takes, channel by channel, the average of
/// its block in the original image; blocks are laid from the rectangle's
/// top-left corner.
pub open spec fn pixelated_rgba(
    rgba: Seq<u8>,
    width: int,
    left: int,
    top: int,
    right: int,
    bottom: int,
    block_size: u8,
) -> Seq<u8> {
    let side = effect_block_side(block_size);
    Seq::new(
        rgba.len(),
        |i: int|
            {
                let p = i / 4;
                if covers(width, left, top, right, bottom, p) {
                    let x = block_start(left, side, p % width);
                    let y = block_start(top, side, p / width);
                    rgba_block_average(rgba, width, x, smaller(x + side, right), y, smaller(y + side, bottom), i % 4)
                } else {
                    rgba[i]
                }
            },
    )
}

fn rgba_block_total(
    rgba: &[u8],
    stride: usize,
    left: usize,
    right: usize,
    top: usize,
    bottom: usize,
    channel: usize,
    Ghost(original): Ghost<Seq<u8>>,
) -> (total: u128)
    requires
        left < right <= stride,
        top < bottom,
        channel < 4,
        bottom * stride * 4 <= original.len(),
        rgba@.len() == original.len(),
        forall|i: int|
            0 <= i < original.len() && covers(stride as int, left as int, top as int, right as int, bottom as int, i / 4)
                ==> #[trigger] rgba@[i] == original[i],
    ensures
        total == rgba_block_sum(original, stride as int, left as int, right as int, top as int, bottom as int, channel as int),
        total <= 255 * (right - left) * (bottom - top),
{
    let length = rgba.len();
    let mut total: u128 = 0;
    let mut y = top;
    while y < bottom
        invariant
            length == original.len(),
            left < right <= stride,
            top <= y <= bottom,
            channel < 4,
            bottom * stride * 4 <= original.len(),
            rgba@.len() == original.len(),
            forall|i: int|
                0 <= i < original.len() && covers(stride as int, left as int, top as int, right as int, bottom as int, i / 4)
                    ==> #[trigger] rgba@[i] == original[i],
            total == rgba_block_sum(original, stride as int, left as int, right as int, top as int, y as int, channel as int),
            total <= 255 * (right - left) * (y - top),
        decreases bottom - y,
    {
        let mut row_total: u128 = 0;
        let mut x = left;
        while x < right
            invariant
                length == original.len(),
                left <= x <= right <= stride,
                top <= y < bottom,
                channel < 4,
                bottom * stride * 4 <= original.len(),
                rgba@.len() == original.len(),
                forall|i: int|
                    0 <= i < original.len() && covers(stride as int, left as int, top as int, right as int, bottom as int, i / 4)
                        ==> #[trigger] rgba@[i] == original[i],
                row_total == rgba_row_sum(original, stride as int, y as int, left as int, x as int, channel as int),
                row_total <= 255 * (x - left),
            decreases right - x,
        {
            proof {
                lemma_index_of(stride as int, y as int, x as int);
                lemma_mul_inequality(y + 1, bottom as int, stride as int);
                assert((y * stride + x) * 4 + 4 <= original.len()) by (nonlinear_arith)
                    requires
                        (y + 1) * stride <= bottom * stride,
                        x < stride,
                        bottom * stride * 4 <= original.len(),
                ;
            }
            let index = (y * stride + x) * 4 + channel;
            proof {
                assert(index as int / 4 == y * stride + x);
                assert(covers(stride as int, left as int, top as int, right as int, bottom as int, index as int / 4));
            }
            row_total = row_total + rgba[index] as u128;
            x = x + 1;
        }
        proof {
            assert(255 * (right - left) * (y + 1 - top) == 255 * (right - left) * (y - top) + 255 * (right
                - left)) by (nonlinear_arith);
            assert(255 * (right - left) * (y + 1 - top) <= 255 * (stride * bottom)) by (nonlinear_arith)
                requires
                    0 <= right - left <= stride,
                    0 <= y + 1 - top <= bottom,
            ;
            assert(stride * bottom <= original.len()) by (nonlinear_arith)
                requires
                    bottom * stride * 4 <= original.len(),
            ;
        }
        total = total + row_total;
        y = y + 1;
    }
    total
}

/// Pixelates the rectangle `left..right` by `top..bottom`, which lies
/// inside an RGBA image `width` pixels wide, in blocks of the effect's block
/// size (at least 12) averaged channel by channel.
pub fn pixelate_rgba_region(
    rgba: &mut [u8],
    width: u32,
    left: usize,
    top: usize,
    right: usize,
    bottom: usize,
    block_size: u8,
)
    requires
        left <= right <= width,
        top <= bottom,
        bottom * width * 4 <= old(rgba)@.len(),
    ensures
        final(rgba)@ == pixelated_rgba(
            old(rgba)@,
            width as int,
            left as int,
            top as int,
            right as int,
            bottom as int,
            block_size,
        ),
{
    let ghost original = rgba@;
    let ghost target = pixelated_rgba(original, width as int, left as int, top as int, right as int, bottom as int, block_size);
    let length = rgba.len();
    let stride = width as usize;
    let side: usize = if block_size < 12 {
        12
    } else {
        block_size as usize
    };
    if left >= right {
        proof {
            assert(rgba@ =~= target);
        }
        return;
    }
    let mut block_y = top;
    proof {
        assert((block_y - top) % (side as int) == 0) by (nonlinear_arith)
            requires
                block_y == top,
                side > 0,
        ;
    }
    while block_y < bottom
        invariant
            length == original.len(),
            left < right <= stride,
            stride == width,
            top <= block_y <= bottom,
            block_y == bottom || (block_y - top) % side as int == 0,
            side == effect_block_side(block_size),
            bottom * stride * 4 <= original.len(),
            rgba@.len() == original.len(),
            target == pixelated_rgba(original, width as int, left as int, top as int, right as int, bottom as int, block_size),
            forall|i: int|
                0 <= i < original.len() ==> #[trigger] rgba@[i] == if covers(stride as int, left as int, top as int, right as int, bottom as int, i / 4)
                    && (i / 4) / (stride as int) < block_y {
                    target[i]
                } else {
                    original[i]
                },
        decreases bottom - block_y,
    {
        let end_y = if side < bottom - block_y {
            block_y + side
        } else {
            bottom
        };
        let mut block_x = left;
        proof {
            assert((block_x - left) % (side as int) == 0) by (nonlinear_arith)
                requires
                    block_x == left,
                    side > 0,
            ;
        }
        while block_x < right
            invariant
                length == original.len(),
                left < right <= stride,
                stride == width,
                top <= block_y < end_y <= bottom,
                (block_y - top) % side as int == 0,
                end_y == smaller(block_y + side, bottom as int),
                left <= block_x <= right,
                block_x == right || (block_x - left) % side as int == 0,
                side == effect_block_side(block_size),
                bottom * stride * 4 <= original.len(),
                rgba@.len() == original.len(),
                target == pixelated_rgba(original, width as int, left as int, top as int, right as int, bottom as int, block_size),
                forall|i: int|
                    0 <= i < original.len() ==> #[trigger] rgba@[i] == if covers(stride as int, left as int, top as int, right as int, bottom as int, i / 4)
                        && ((i / 4) / (stride as int) < block_y || ((i / 4) / (stride as int) < end_y && (i / 4) % (stride as int)
                        < block_x)) {
                        target[i]
                    } else {
                        original[i]
                    },
            decreases right - block_x,
        {
            let end_x = if side < right - block_x {
                block_x + side
            } else {
                right
            };
            proof {
                assert forall|i: int|
                    0 <= i < original.len() && covers(stride as int, block_x as int, block_y as int, end_x as int, end_y as int, i / 4)
                        implies #[trigger] rgba@[i] == original[i] by {
                    assert(covers(stride as int, left as int, top as int, right as int, bottom as int, i / 4));
                }
                lemma_mul_inequality(end_y as int, bottom as int, stride as int);
                assert(end_y * stride * 4 <= original.len()) by (nonlinear_arith)
                    requires
                        end_y * stride <= bottom * stride,
                        bottom * stride * 4 <= original.len(),
                ;
            }
            let red = rgba_block_total(rgba, stride, block_x, end_x, block_y, end_y, 0, Ghost(original));
            let green = rgba_block_total(rgba, stride, block_x, end_x, block_y, end_y, 1, Ghost(original));
            let blue = rgba_block_total(rgba, stride, block_x, end_x, block_y, end_y, 2, Ghost(original));
            let alpha = rgba_block_total(rgba, stride, block_x, end_x, block_y, end_y, 3, Ghost(original));
            proof {
                assert((end_x - block_x) * (end_y - block_y) <= stride * bottom) by (nonlinear_arith)
                    requires
                        0 <= end_x - block_x <= stride,
                        0 <= end_y - block_y <= bottom,
                ;
                assert(stride * bottom <= original.len()) by (nonlinear_arith)
                    requires
                        bottom * stride * 4 <= original.len(),
                ;
            }
            let count = ((end_x - block_x) as u128) * ((end_y - block_y) as u128);
            proof {
                assert(count > 0) by (nonlinear_arith)
                    requires
                        count == (end_x - block_x) * (end_y - block_y),
                        end_x > block_x,
                        end_y > block_y,
                ;
                assert(255 * (end_x - block_x) * (end_y - block_y) == 255 * count) by (nonlinear_arith)
                    requires
                        count == (end_x - block_x) * (end_y - block_y),
                ;
                assert(red / count <= 255) by (nonlinear_arith)
                    requires
                        red <= 255 * count,
                        count > 0,
                ;
                assert(green / count <= 255) by (nonlinear_arith)
                    requires
                        green <= 255 * count,
                        count > 0,
                ;
                assert(blue / count <= 255) by (nonlinear_arith)
                    requires
                        blue <= 255 * count,
                        count > 0,
                ;
                assert(alpha / count <= 255) by (nonlinear_arith)
                    requires
                        alpha <= 255 * count,
                        count > 0,
                ;
            }
            let average = [(red / count) as u8, (green / count) as u8, (blue / count) as u8, (alpha / count) as u8];
            let ghost before = rgba@;
            fill_rgba_region(rgba, width, block_x, block_y, end_x, end_y, average);
            proof {
                assert forall|i: int| 0 <= i < original.len() implies #[trigger] rgba@[i] == if covers(stride as int, left as int, top as int, right as int, bottom as int, i / 4)
                    && ((i / 4) / (stride as int) < block_y || ((i / 4) / (stride as int) < end_y && (i / 4) % (stride as int)
                    < end_x)) {
                    target[i]
                } else {
                    original[i]
                } by {
                    let p = i / 4;
                    if covers(stride as int, block_x as int, block_y as int, end_x as int, end_y as int, p) {
                        lemma_block_start(left as int, side as int, block_x as int, p % (stride as int));
                        lemma_block_start(top as int, side as int, block_y as int, p / (stride as int));
                        assert(0 <= i % 4 < 4);
                    }
                }
            }
            if end_x == right {
                block_x = right;
            } else {
                proof {
                    lemma_mod_add_multiples_vanish(block_x - left, side as int);
                }
                block_x = end_x;
            }
        }
        proof {
            assert forall|i: int| 0 <= i < original.len() implies #[trigger] rgba@[i] == if covers(stride as int, left as int, top as int, right as int, bottom as int, i / 4)
                && (i / 4) / (stride as int) < end_y {
                target[i]
            } else {
                original[i]
            } by {}
        }
        if end_y == bottom {
            block_y = bottom;
        } else {
            proof {
                lemma_mod_add_multiples_vanish(block_y - top, side as int);
            }
            block_y = end_y;
        }
    }
    proof {
        assert(rgba@ =~= target);
    }
}

} // verus!
