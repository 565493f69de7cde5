//! Drawing into the overlay's 0RGB pixel buffer: rectangles, lines, blended
//! brush strokes, frame blits, pixelation, and the bitmap font.
//!
//! A canvas is a `&mut [u32]` holding `height` rows of `width` pixels, row
//! after row; drawing clips to the canvas.
use crate::annotation::Color;
use crate::frame::{rgba_byte_count, Frame};
use crate::overlay::ToolbarButton;
use crate::text::{append_str, decimal_text, push_char, u64_to_decimal};
use vstd::prelude::*;
use vstd::arithmetic::div_mod::{lemma_fundamental_div_mod, lemma_fundamental_div_mod_converse};
use vstd::arithmetic::mul::lemma_mul_inequality;

verus! {

/// Pixel `index` of a canvas `width` pixels wide lies in the columns
/// `left..right` of the rows `top..bottom`.
pub open spec fn covers(width: int, left: int, top: int, right: int, bottom: int, index: int) -> bool {
    &&& width > 0
    &&& 0 <= index
    &&& top <= index / width < bottom
    &&& left <= index % width < right
}

/// `buffer` with the pixels of the columns `left..right` of the rows
/// `top..bottom` set to `color`.
pub open spec fn painted(
    buffer: Seq<u32>,
    width: int,
    left: int,
    top: int,
    right: int,
    bottom: int,
    color: u32,
) -> Seq<u32> {
    Seq::new(
        buffer.len(),
        |i: int|
            if covers(width, left, top, right, bottom, i) {
                color
            } else {
                buffer[i]
            },
    )
}

/// `start + extent` as `i32::saturating_add` computes it, for a positive
/// extent.
pub open spec fn saturating_end(start: int, extent: int) -> int {
    if start + extent > i32::MAX {
        i32::MAX as int
    } else {
        start + extent
    }
}

/// The first of the `extent` cells from `start` that lie at or after zero.
pub open spec fn clip_start(start: int) -> int {
    if start < 0 {
        0
    } else {
        start
    }
}

/// The end of the `extent` cells from `start`, clipped to `0..limit`.
pub open spec fn clip_end(start: int, extent: int, limit: int) -> int {
    let end = saturating_end(start, extent);
    let end = if end < 0 {
        0
    } else {
        end
    };
    if end < limit {
        end
    } else {
        limit
    }
}

/// `fill_rect` can run: it slices each touched row of the buffer, which
/// fails where the rectangle starts right of the canvas, or where a touched
/// row runs past the end of the buffer.
pub open spec fn fill_rect_fits(
    buffer_len: int,
    width: int,
    height: int,
    x: int,
    y: int,
    rect_width: int,
    rect_height: int,
) -> bool {
    rect_width <= 0 || rect_height <= 0 || clip_start(y) >= clip_end(y, rect_height, height) || (
    clip_start(x) <= clip_end(x, rect_width, width) && (clip_end(y, rect_height, height) - 1)
        * width + clip_end(x, rect_width, width) <= buffer_len)
}

/// What `fill_rect` leaves in the buffer.
pub open spec fn filled_rect(
    buffer: Seq<u32>,
    width: int,
    height: int,
    x: int,
    y: int,
    rect_width: int,
    rect_height: int,
    color: u32,
) -> Seq<u32> {
    if rect_width <= 0 || rect_height <= 0 {
        buffer
    } else {
        painted(
            buffer,
            width,
            clip_start(x),
            clip_start(y),
            clip_end(x, rect_width, width),
            clip_end(y, rect_height, height),
            color,
        )
    }
}

/// The row and column of a pixel index, and its index from them.
pub proof fn lemma_index_of(width: int, row: int, column: int)
    requires
        width > 0,
        0 <= column < width,
    ensures
        (row * width + column) / width == row,
        (row * width + column) % width == column,
{
    lemma_fundamental_div_mod_converse(row * width + column, width, row, column);
}

fn clipped_start(start: i32) -> (clipped: usize)
    ensures
        clipped == clip_start(start as int),
{
    if start < 0 {
        0
    } else {
        start as usize
    }
}

fn clipped_end(start: i32, extent: i32, limit: u32) -> (clipped: usize)
    requires
        extent > 0,
    ensures
        clipped == clip_end(start as int, extent as int, limit as int),
{
    let end: i64 = start as i64 + extent as i64;
    let end: i64 = if end > i32::MAX as i64 {
        i32::MAX as i64
    } else {
        end
    };
    let end: i64 = if end < 0 {
        0
    } else {
        end
    };
    if end < limit as i64 {
        end as usize
    } else {
        limit as usize
    }
}

/// Fills the part of a rectangle that lies on the canvas with `color`.
pub fn fill_rect(
    buffer: &mut [u32],
    width: u32,
    height: u32,
    x: i32,
    y: i32,
    rect_width: i32,
    rect_height: i32,
    color: u32,
)
    requires
        fill_rect_fits(old(buffer)@.len() as int, width as int, height as int, x as int, y as int, rect_width as int, rect_height as int),
    ensures
        final(buffer)@ == filled_rect(
            old(buffer)@,
            width as int,
            height as int,
            x as int,
            y as int,
            rect_width as int,
            rect_height as int,
            color,
        ),
{
    if rect_width <= 0 || rect_height <= 0 {
        return;
    }
    let ghost before = buffer@;
    let length = buffer.len();
    let stride = width as usize;
    let x_start = clipped_start(x);
    let y_start = clipped_start(y);
    let x_end = clipped_end(x, rect_width, width);
    let y_end = clipped_end(y, rect_height, height);
    if y_start >= y_end || x_start >= x_end {
        proof {
            assert(buffer@ =~= painted(
                before,
                width as int,
                x_start as int,
                y_start as int,
                x_end as int,
                y_end as int,
                color,
            ));
        }
        return;
    }
    let mut row = y_start;
    while row < y_end
        invariant
            stride == width,
            stride > 0,
            x_start < x_end <= stride,
            y_start <= row <= y_end,
            (y_end - 1) * stride + x_end <= before.len(),
            length == before.len(),
            buffer@.len() == before.len(),
            buffer@ == painted(
                before,
                stride as int,
                x_start as int,
                y_start as int,
                x_end as int,
                row as int,
                color,
            ),
        decreases y_end - row,
    {
        proof {
            lemma_mul_inequality(row as int, (y_end - 1) as int, stride as int);
        }
        let base = row * stride;
        let mut column = x_start;
        while column < x_end
            invariant
                stride == width,
                stride > 0,
                x_start <= column <= x_end <= stride,
                y_start <= row < y_end,
                base == row * stride,
                base + x_end <= before.len(),
                length == before.len(),
                buffer@.len() == before.len(),
                forall|i: int|
                    0 <= i < before.len() ==> #[trigger] buffer@[i] == if covers(
                        stride as int,
                        x_start as int,
                        y_start as int,
                        x_end as int,
                        row as int,
                        i,
                    ) || covers(stride as int, x_start as int, row as int, column as int, row + 1, i) {
                        color
                    } else {
                        before[i]
                    },
            decreases x_end - column,
        {
            proof {
                lemma_index_of(stride as int, row as int, column as int);
                assert(row * stride == stride * row) by (nonlinear_arith);
                assert forall|i: int| 0 <= i < before.len() && i != base + column implies !(
                    #[trigger] covers(stride as int, column as int, row as int, column + 1, row + 1, i)) by {
                    lemma_fundamental_div_mod(i, stride as int);
                }
            }
            let ghost previous = buffer@;
            buffer[base + column] = color;
            proof {
                assert forall|i: int| 0 <= i < before.len() implies #[trigger] buffer@[i] == if covers(
                    stride as int,
                    x_start as int,
                    y_start as int,
                    x_end as int,
                    row as int,
                    i,
                ) || covers(stride as int, x_start as int, row as int, column + 1, row + 1, i) {
                    color
                } else {
                    before[i]
                } by {
                    if i != base + column {
                        assert(buffer@[i] == previous[i]);
                        assert(!covers(stride as int, column as int, row as int, column + 1, row + 1, i));
                    }
                }
            }
            column += 1;
        }
        proof {
            assert(buffer@ =~= painted(
                before,
                stride as int,
                x_start as int,
                y_start as int,
                x_end as int,
                row + 1,
                color,
            ));
        }
        row += 1;
    }
}

/// The magnitude of `value`.
pub open spec fn magnitude(value: int) -> int {
    if value < 0 {
        -value
    } else {
        value
    }
}

/// The pixels that the integer line walk from `(x0, y0)` visits after it
/// has taken `steps_x` steps along x and `steps_y` along y, with the given
/// error term; `a` and `b` are the line's extents along x and y, and `fuel`
/// bounds the steps left.
pub open spec fn line_walk(
    x0: int,
    y0: int,
    step_x: int,
    step_y: int,
    a: int,
    b: int,
    steps_x: int,
    steps_y: int,
    error: int,
    fuel: nat,
) -> Seq<(int, int)>
    decreases fuel,
{
    let point = (x0 + step_x * steps_x, y0 + step_y * steps_y);
    if fuel == 0 || (steps_x == a && steps_y == b) {
        seq![point]
    } else {
        let moves_x = error * 2 >= -b;
        let moves_y = error * 2 <= a;
        seq![point] + line_walk(
            x0,
            y0,
            step_x,
            step_y,
            a,
            b,
            steps_x + if moves_x {
                1int
            } else {
                0int
            },
            steps_y + if moves_y {
                1int
            } else {
                0int
            },
            error + (if moves_x {
                -b
            } else {
                0
            }) + (if moves_y {
                a
            } else {
                0
            }),
            (fuel - 1) as nat,
        )
    }
}

/// The pixels of the integer (Bresenham) line from `(x0, y0)` to
/// `(x1, y1)`, in drawing order; both ends included.
pub open spec fn line_points(x0: int, y0: int, x1: int, y1: int) -> Seq<(int, int)> {
    let a = magnitude(x1 - x0);
    let b = magnitude(y1 - y0);
    line_walk(
        x0,
        y0,
        if x0 < x1 {
            1
        } else {
            -1
        },
        if y0 < y1 {
            1
        } else {
            -1
        },
        a,
        b,
        0,
        0,
        a - b,
        (a + b) as nat,
    )
}

/// Half the brush size, as the drawing functions derive it from a
/// thickness.
pub open spec fn brush_radius(thickness: int) -> int {
    ((if thickness < 1 {
        1
    } else {
        thickness
    }) - 1) / 2
}

/// `buffer` after a square of side `2 * radius + 1` was filled around each
/// of `points`, in order.
pub open spec fn stamped(
    buffer: Seq<u32>,
    width: int,
    height: int,
    points: Seq<(int, int)>,
    radius: int,
    color: u32,
) -> Seq<u32>
    decreases points.len(),
{
    if points.len() == 0 {
        buffer
    } else {
        let point = points.last();
        filled_rect(
            stamped(buffer, width, height, points.drop_last(), radius, color),
            width,
            height,
            point.0 - radius,
            point.1 - radius,
            radius * 2 + 1,
            radius * 2 + 1,
            color,
        )
    }
}

/// `draw_line` can run: its arithmetic stays within `i32`, and each square
/// it fills fits the buffer.
pub open spec fn line_fits(
    buffer_len: int,
    width: int,
    height: int,
    x0: int,
    y0: int,
    x1: int,
    y1: int,
    thickness: int,
) -> bool {
    let radius = brush_radius(thickness);
    &&& 3 * magnitude(x1 - x0) <= i32::MAX
    &&& 3 * magnitude(y1 - y0) <= i32::MAX
    &&& forall|k: int|
        0 <= k < line_points(x0, y0, x1, y1).len() ==> {
            let point = #[trigger] line_points(x0, y0, x1, y1)[k];
            &&& i32::MIN <= point.0 - radius
            &&& i32::MIN <= point.1 - radius
            &&& fill_rect_fits(
                buffer_len,
                width,
                height,
                point.0 - radius,
                point.1 - radius,
                radius * 2 + 1,
                radius * 2 + 1,
            )
        }
}

/// The walk's state after `steps_x` steps along x and `steps_y` along y.
pub open spec fn walk_state_valid(
    a: int,
    b: int,
    steps_x: int,
    steps_y: int,
    error: int,
) -> bool {
    &&& 0 <= steps_x <= a
    &&& 0 <= steps_y <= b
    &&& error == a * (1 + steps_y) - b * (1 + steps_x)
    &&& -3 * b <= 2 * error <= 3 * a
}

/// One step of the walk keeps its state valid, moves toward the target
/// without passing it, and moves at least once.
proof fn lemma_walk_step(a: int, b: int, steps_x: int, steps_y: int, error: int)
    requires
        a >= 0,
        b >= 0,
        walk_state_valid(a, b, steps_x, steps_y, error),
        !(steps_x == a && steps_y == b),
    ensures
        ({
            let doubled = error * 2;
            let moves_x = doubled >= -b;
            let moves_y = doubled <= a;
            let next_x = if moves_x {
                steps_x + 1
            } else {
                steps_x
            };
            let next_y = if moves_y {
                steps_y + 1
            } else {
                steps_y
            };
            let next_error = error + (if moves_x {
                -b
            } else {
                0
            }) + (if moves_y {
                a
            } else {
                0
            });
            &&& moves_x || moves_y
            &&& walk_state_valid(a, b, next_x, next_y, next_error)
        }),
{
    if steps_x == a {
        assert(steps_y <= b - 1);
        assert(a * steps_y <= a * (b - 1)) by (nonlinear_arith)
            requires
                a >= 0,
                steps_y <= b - 1,
        ;
        assert(2 * error < -b) by (nonlinear_arith)
            requires
                error == a * (1 + steps_y) - b * (1 + a),
                a * steps_y <= a * (b - 1),
                b >= 1,
        ;
    }
    if steps_y == b {
        assert(steps_x <= a - 1);
        assert(b * steps_x <= b * (a - 1)) by (nonlinear_arith)
            requires
                b >= 0,
                steps_x <= a - 1,
        ;
        assert(2 * error > a) by (nonlinear_arith)
            requires
                error == a * (1 + b) - b * (1 + steps_x),
                b * steps_x <= b * (a - 1),
                a >= 1,
        ;
    }
    let doubled = error * 2;
    if doubled >= -b {
        assert(error - b == a * (1 + steps_y) - b * (1 + (steps_x + 1))) by (nonlinear_arith)
            requires
                error == a * (1 + steps_y) - b * (1 + steps_x),
        ;
    }
    if doubled <= a {
        assert(error + a == a * (1 + (steps_y + 1)) - b * (1 + steps_x)) by (nonlinear_arith)
            requires
                error == a * (1 + steps_y) - b * (1 + steps_x),
        ;
        assert(error - b + a == a * (1 + (steps_y + 1)) - b * (1 + (steps_x + 1))) by (nonlinear_arith)
            requires
                error == a * (1 + steps_y) - b * (1 + steps_x),
        ;
    }
}

/// Fuel beyond the steps that remain does not change the walk.
proof fn lemma_walk_fuel(
    x0: int,
    y0: int,
    step_x: int,
    step_y: int,
    a: int,
    b: int,
    steps_x: int,
    steps_y: int,
    error: int,
    fuel: nat,
)
    requires
        a >= 0,
        b >= 0,
        walk_state_valid(a, b, steps_x, steps_y, error),
        fuel >= (a - steps_x) + (b - steps_y),
    ensures
        line_walk(x0, y0, step_x, step_y, a, b, steps_x, steps_y, error, fuel) == line_walk(
            x0,
            y0,
            step_x,
            step_y,
            a,
            b,
            steps_x,
            steps_y,
            error,
            ((a - steps_x) + (b - steps_y)) as nat,
        ),
    decreases fuel,
{
    if !(steps_x == a && steps_y == b) {
        lemma_walk_step(a, b, steps_x, steps_y, error);
        let moves_x = error * 2 >= -b;
        let moves_y = error * 2 <= a;
        let next_x = steps_x + if moves_x {
            1int
        } else {
            0int
        };
        let next_y = steps_y + if moves_y {
            1int
        } else {
            0int
        };
        let next_error = error + (if moves_x {
            -b
        } else {
            0
        }) + (if moves_y {
            a
        } else {
            0
        });
        let remaining = ((a - steps_x) + (b - steps_y)) as nat;
        lemma_walk_fuel(x0, y0, step_x, step_y, a, b, next_x, next_y, next_error, (fuel - 1) as nat);
        lemma_walk_fuel(
            x0,
            y0,
            step_x,
            step_y,
            a,
            b,
            next_x,
            next_y,
            next_error,
            (remaining - 1) as nat,
        );
    }
}

/// The pixels of the line from `(x0, y0)` to `(x1, y1)`, in drawing order.
#[verifier::spinoff_prover]
#[verifier::rlimit(40)]
pub fn line_pixels(x0: i32, y0: i32, x1: i32, y1: i32) -> (pixels: Vec<(i32, i32)>)
    requires
        3 * magnitude(x1 - x0) <= i32::MAX,
        3 * magnitude(y1 - y0) <= i32::MAX,
    ensures
        pixels@.len() == line_points(x0 as int, y0 as int, x1 as int, y1 as int).len(),
        forall|k: int|
            0 <= k < pixels@.len() ==> (pixels@[k].0 as int, pixels@[k].1 as int) == #[trigger] line_points(
                x0 as int,
                y0 as int,
                x1 as int,
                y1 as int,
            )[k],
{
    let ghost all_points = line_points(x0 as int, y0 as int, x1 as int, y1 as int);
    let ghost a = magnitude(x1 - x0);
    let ghost b = magnitude(y1 - y0);
    let dx: i32 = if x1 >= x0 {
        x1 - x0
    } else {
        x0 - x1
    };
    let step_x: i32 = if x0 < x1 {
        1
    } else {
        -1
    };
    let dy: i32 = if y1 >= y0 {
        y0 - y1
    } else {
        y1 - y0
    };
    let step_y: i32 = if y0 < y1 {
        1
    } else {
        -1
    };
    let mut error: i32 = dx + dy;
    let mut x = x0;
    let mut y = y0;
    let ghost mut steps_x: int = 0;
    let ghost mut steps_y: int = 0;
    let mut pixels: Vec<(i32, i32)> = Vec::new();
    proof {
        assert(walk_state_valid(a, b, 0, 0, error as int)) by (nonlinear_arith)
            requires
                error == a - b,
                a >= 0,
                b >= 0,
        ;
    }
    loop
        invariant_except_break
            walk_state_valid(a, b, steps_x, steps_y, error as int),
            all_points == pixel_points(pixels@) + line_walk(
                x0 as int,
                y0 as int,
                step_x as int,
                step_y as int,
                a,
                b,
                steps_x,
                steps_y,
                error as int,
                ((a - steps_x) + (b - steps_y)) as nat,
            ),
        invariant
            dx == a,
            dy == -b,
            a >= 0,
            b >= 0,
            3 * a <= i32::MAX,
            3 * b <= i32::MAX,
            step_x == (if x0 < x1 {
                1int
            } else {
                -1int
            }),
            step_y == (if y0 < y1 {
                1int
            } else {
                -1int
            }),
            x == x0 + step_x * steps_x,
            y == y0 + step_y * steps_y,
            x1 == x0 + step_x * a,
            y1 == y0 + step_y * b,
            all_points == line_points(x0 as int, y0 as int, x1 as int, y1 as int),
        ensures
            all_points == pixel_points(pixels@),
        decreases (a - steps_x) + (b - steps_y),
    {
        let ghost remaining = ((a - steps_x) + (b - steps_y)) as nat;
        let ghost rest = line_walk(
            x0 as int,
            y0 as int,
            step_x as int,
            step_y as int,
            a,
            b,
            steps_x,
            steps_y,
            error as int,
            remaining,
        );
        let ghost done = pixel_points(pixels@);
        pixels.push((x, y));
        proof {
            assert(rest[0] == (x as int, y as int));
            assert(pixel_points(pixels@) =~= done.push((x as int, y as int)));
        }
        if x == x1 && y == y1 {
            proof {
                assert(steps_x == a) by (nonlinear_arith)
                    requires
                        x0 + step_x * steps_x == x0 + step_x * a,
                        step_x == 1 || step_x == -1,
                ;
                assert(steps_y == b) by (nonlinear_arith)
                    requires
                        y0 + step_y * steps_y == y0 + step_y * b,
                        step_y == 1 || step_y == -1,
                ;
                assert(rest =~= seq![(x as int, y as int)]);
                assert(all_points =~= pixel_points(pixels@));
            }
            break;
        }
        proof {
            if steps_x == a && steps_y == b {
                assert(x == x1 && y == y1);
            }
            lemma_walk_step(a, b, steps_x, steps_y, error as int);
        }
        let ghost old_steps_x = steps_x;
        let ghost old_steps_y = steps_y;
        let doubled = error * 2;
        if doubled >= dy {
            proof {
                assert(steps_x + 1 <= a);
                assert(x0 + step_x * (steps_x + 1) == x + step_x) by (nonlinear_arith)
                    requires
                        x == x0 + step_x * steps_x,
                ;
                assert(step_x == 1 ==> x0 <= x + step_x <= x1) by (nonlinear_arith)
                    requires
                        x + step_x == x0 + step_x * (steps_x + 1),
                        x1 == x0 + step_x * a,
                        0 <= steps_x + 1 <= a,
                ;
                assert(step_x == -1 ==> x1 <= x + step_x <= x0) by (nonlinear_arith)
                    requires
                        x + step_x == x0 + step_x * (steps_x + 1),
                        x1 == x0 + step_x * a,
                        0 <= steps_x + 1 <= a,
                ;
            }
            error += dy;
            x += step_x;
            proof {
                steps_x = steps_x + 1;
            }
        }
        if doubled <= dx {
            proof {
                assert(steps_y + 1 <= b);
                assert(y0 + step_y * (steps_y + 1) == y + step_y) by (nonlinear_arith)
                    requires
                        y == y0 + step_y * steps_y,
                ;
                assert(step_y == 1 ==> y0 <= y + step_y <= y1) by (nonlinear_arith)
                    requires
                        y + step_y == y0 + step_y * (steps_y + 1),
                        y1 == y0 + step_y * b,
                        0 <= steps_y + 1 <= b,
                ;
                assert(step_y == -1 ==> y1 <= y + step_y <= y0) by (nonlinear_arith)
                    requires
                        y + step_y == y0 + step_y * (steps_y + 1),
                        y1 == y0 + step_y * b,
                        0 <= steps_y + 1 <= b,
                ;
            }
            error += dx;
            y += step_y;
            proof {
                steps_y = steps_y + 1;
            }
        }
        proof {
            lemma_walk_fuel(
                x0 as int,
                y0 as int,
                step_x as int,
                step_y as int,
                a,
                b,
                steps_x,
                steps_y,
                error as int,
                (remaining - 1) as nat,
            );
            assert(rest =~= seq![(x0 + step_x * old_steps_x, y0 + step_y * old_steps_y)] + line_walk(
                x0 as int,
                y0 as int,
                step_x as int,
                step_y as int,
                a,
                b,
                steps_x,
                steps_y,
                error as int,
                (remaining - 1) as nat,
            ));
            assert(all_points =~= pixel_points(pixels@) + line_walk(
                x0 as int,
                y0 as int,
                step_x as int,
                step_y as int,
                a,
                b,
                steps_x,
                steps_y,
                error as int,
                ((a - steps_x) + (b - steps_y)) as nat,
            ));
        }
    }
    pixels
}

/// Pixel coordinates as integers.
pub open spec fn pixel_points(pixels: Seq<(i32, i32)>) -> Seq<(int, int)> {
    pixels.map_values(|pixel: (i32, i32)| (pixel.0 as int, pixel.1 as int))
}

/// Draws a line of the given thickness: a filled square at each pixel of
/// [`line_points`].
pub fn draw_line(
    buffer: &mut [u32],
    width: u32,
    height: u32,
    x0: i32,
    y0: i32,
    x1: i32,
    y1: i32,
    color: u32,
    thickness: i32,
)
    requires
        line_fits(
            old(buffer)@.len() as int,
            width as int,
            height as int,
            x0 as int,
            y0 as int,
            x1 as int,
            y1 as int,
            thickness as int,
        ),
    ensures
        final(buffer)@ == stamped(
            old(buffer)@,
            width as int,
            height as int,
            line_points(x0 as int, y0 as int, x1 as int, y1 as int),
            brush_radius(thickness as int),
            color,
        ),
{
    let ghost before = buffer@;
    let ghost all_points = line_points(x0 as int, y0 as int, x1 as int, y1 as int);
    let pixels = line_pixels(x0, y0, x1, y1);
    let radius: i32 = (if thickness < 1 {
        1
    } else {
        thickness
    } - 1) / 2;
    let mut index: usize = 0;
    while index < pixels.len()
        invariant
            index <= pixels@.len(),
            pixels@.len() == all_points.len(),
            forall|k: int| 0 <= k < pixels@.len() ==> (pixels@[k].0 as int, pixels@[k].1 as int) == #[trigger] all_points[k],
            all_points == line_points(x0 as int, y0 as int, x1 as int, y1 as int),
            radius == brush_radius(thickness as int),
            line_fits(
                before.len() as int,
                width as int,
                height as int,
                x0 as int,
                y0 as int,
                x1 as int,
                y1 as int,
                thickness as int,
            ),
            buffer@.len() == before.len(),
            buffer@ == stamped(before, width as int, height as int, all_points.take(index as int), radius as int, color),
        decreases pixels@.len() - index,
    {
        let (x, y) = pixels[index];
        proof {
            assert(all_points[index as int] == (x as int, y as int));
        }
        fill_rect(buffer, width, height, x - radius, y - radius, radius * 2 + 1, radius * 2 + 1, color);
        proof {
            assert(all_points.take(index + 1).drop_last() =~= all_points.take(index as int));
            assert(all_points.take(index + 1).last() == (x as int, y as int));
        }
        index += 1;
    }
    proof {
        assert(all_points.take(all_points.len() as int) =~= all_points);
    }
}

/// Filling keeps the buffer's length.
pub proof fn lemma_stamped_len(
    buffer: Seq<u32>,
    width: int,
    height: int,
    points: Seq<(int, int)>,
    radius: int,
    color: u32,
)
    ensures
        stamped(buffer, width, height, points, radius, color).len() == buffer.len(),
    decreases points.len(),
{
    if points.len() > 0 {
        lemma_stamped_len(buffer, width, height, points.drop_last(), radius, color);
    }
}

/// Stamping two runs of points one after the other is stamping their
/// concatenation.
pub proof fn lemma_stamped_append(
    buffer: Seq<u32>,
    width: int,
    height: int,
    first: Seq<(int, int)>,
    second: Seq<(int, int)>,
    radius: int,
    color: u32,
)
    ensures
        stamped(buffer, width, height, first + second, radius, color) == stamped(
            stamped(buffer, width, height, first, radius, color),
            width,
            height,
            second,
            radius,
            color,
        ),
    decreases second.len(),
{
    if second.len() == 0 {
        assert(first + second =~= first);
    } else {
        assert((first + second).drop_last() =~= first + second.drop_last());
        assert((first + second).last() == second.last());
        lemma_stamped_append(buffer, width, height, first, second.drop_last(), radius, color);
    }
}

/// The outline of a rectangle: its four sides, clockwise from the top-left
/// corner, as lines.
pub open spec fn outline_points(left: int, top: int, right: int, bottom: int) -> Seq<(int, int)> {
    line_points(left, top, right, top) + line_points(right, top, right, bottom) + line_points(
        right,
        bottom,
        left,
        bottom,
    ) + line_points(left, bottom, left, top)
}

/// `draw_rect` can run: the corners are `i32`s and each side can be drawn.
pub open spec fn outline_fits(
    buffer_len: int,
    width: int,
    height: int,
    left: int,
    top: int,
    right: int,
    bottom: int,
    thickness: int,
) -> bool {
    &&& i32::MIN <= right <= i32::MAX
    &&& i32::MIN <= bottom <= i32::MAX
    &&& line_fits(buffer_len, width, height, left, top, right, top, thickness)
    &&& line_fits(buffer_len, width, height, right, top, right, bottom, thickness)
    &&& line_fits(buffer_len, width, height, right, bottom, left, bottom, thickness)
    &&& line_fits(buffer_len, width, height, left, bottom, left, top, thickness)
}

/// Draws the outline of a rectangle whose corners are `(x, y)` and
/// `(x + rect_width, y + rect_height)`.
pub fn draw_rect(
    buffer: &mut [u32],
    width: u32,
    height: u32,
    x: i32,
    y: i32,
    rect_width: i32,
    rect_height: i32,
    color: u32,
    thickness: i32,
)
    requires
        outline_fits(
            old(buffer)@.len() as int,
            width as int,
            height as int,
            x as int,
            y as int,
            x + rect_width,
            y + rect_height,
            thickness as int,
        ),
    ensures
        final(buffer)@ == stamped(
            old(buffer)@,
            width as int,
            height as int,
            outline_points(x as int, y as int, x + rect_width, y + rect_height),
            brush_radius(thickness as int),
            color,
        ),
{
    let right = x + rect_width;
    let bottom = y + rect_height;
    draw_outline(buffer, width, height, x, y, right, bottom, color, thickness);
}

/// Draws the outline of the rectangle with corners `(left, top)` and
/// `(right, bottom)`.
pub fn draw_outline(
    buffer: &mut [u32],
    width: u32,
    height: u32,
    left: i32,
    top: i32,
    right: i32,
    bottom: i32,
    color: u32,
    thickness: i32,
)
    requires
        outline_fits(
            old(buffer)@.len() as int,
            width as int,
            height as int,
            left as int,
            top as int,
            right as int,
            bottom as int,
            thickness as int,
        ),
    ensures
        final(buffer)@ == stamped(
            old(buffer)@,
            width as int,
            height as int,
            outline_points(left as int, top as int, right as int, bottom as int),
            brush_radius(thickness as int),
            color,
        ),
{
    let ghost before = buffer@;
    let ghost w = width as int;
    let ghost h = height as int;
    let ghost r = brush_radius(thickness as int);
    let ghost top_side = line_points(left as int, top as int, right as int, top as int);
    let ghost right_side = line_points(right as int, top as int, right as int, bottom as int);
    let ghost bottom_side = line_points(right as int, bottom as int, left as int, bottom as int);
    let ghost left_side = line_points(left as int, bottom as int, left as int, top as int);
    draw_line(buffer, width, height, left, top, right, top, color, thickness);
    proof {
        lemma_stamped_len(before, w, h, top_side, r, color);
    }
    draw_line(buffer, width, height, right, top, right, bottom, color, thickness);
    proof {
        lemma_stamped_append(before, w, h, top_side, right_side, r, color);
        lemma_stamped_len(before, w, h, top_side + right_side, r, color);
    }
    draw_line(buffer, width, height, right, bottom, left, bottom, color, thickness);
    proof {
        lemma_stamped_append(before, w, h, top_side + right_side, bottom_side, r, color);
        lemma_stamped_len(before, w, h, top_side + right_side + bottom_side, r, color);
    }
    draw_line(buffer, width, height, left, bottom, left, top, color, thickness);
    proof {
        lemma_stamped_append(before, w, h, top_side + right_side + bottom_side, left_side, r, color);
    }
}

/// Every pixel of the walk lies between its start and its target.
proof fn lemma_walk_in_box(
    x0: int,
    y0: int,
    step_x: int,
    step_y: int,
    a: int,
    b: int,
    steps_x: int,
    steps_y: int,
    error: int,
    fuel: nat,
)
    requires
        a >= 0,
        b >= 0,
        step_x == 1 || step_x == -1,
        step_y == 1 || step_y == -1,
        walk_state_valid(a, b, steps_x, steps_y, error),
    ensures
        forall|k: int|
            0 <= k < line_walk(x0, y0, step_x, step_y, a, b, steps_x, steps_y, error, fuel).len()
                ==> {
                let point = #[trigger] line_walk(
                    x0,
                    y0,
                    step_x,
                    step_y,
                    a,
                    b,
                    steps_x,
                    steps_y,
                    error,
                    fuel,
                )[k];
                &&& (step_x == 1 ==> x0 <= point.0 <= x0 + a)
                &&& (step_x == -1 ==> x0 - a <= point.0 <= x0)
                &&& (step_y == 1 ==> y0 <= point.1 <= y0 + b)
                &&& (step_y == -1 ==> y0 - b <= point.1 <= y0)
            },
    decreases fuel,
{
    let walk = line_walk(x0, y0, step_x, step_y, a, b, steps_x, steps_y, error, fuel);
    let point = (x0 + step_x * steps_x, y0 + step_y * steps_y);
    assert(step_x == 1 ==> x0 <= point.0 <= x0 + a);
    assert(step_x == -1 ==> x0 - a <= point.0 <= x0);
    assert(step_y == 1 ==> y0 <= point.1 <= y0 + b);
    assert(step_y == -1 ==> y0 - b <= point.1 <= y0);
    if !(fuel == 0 || (steps_x == a && steps_y == b)) {
        lemma_walk_step(a, b, steps_x, steps_y, error);
        let moves_x = error * 2 >= -b;
        let moves_y = error * 2 <= a;
        let next_x = steps_x + if moves_x {
            1int
        } else {
            0int
        };
        let next_y = steps_y + if moves_y {
            1int
        } else {
            0int
        };
        let next_error = error + (if moves_x {
            -b
        } else {
            0
        }) + (if moves_y {
            a
        } else {
            0
        });
        lemma_walk_in_box(x0, y0, step_x, step_y, a, b, next_x, next_y, next_error, (fuel - 1) as nat);
        let rest = line_walk(x0, y0, step_x, step_y, a, b, next_x, next_y, next_error, (fuel - 1) as nat);
        assert(walk == seq![point] + rest);
        assert forall|k: int| 0 <= k < walk.len() implies {
            let p = #[trigger] walk[k];
            &&& (step_x == 1 ==> x0 <= p.0 <= x0 + a)
            &&& (step_x == -1 ==> x0 - a <= p.0 <= x0)
            &&& (step_y == 1 ==> y0 <= p.1 <= y0 + b)
            &&& (step_y == -1 ==> y0 - b <= p.1 <= y0)
        } by {
            if k > 0 {
                assert(walk[k] == rest[k - 1]);
            }
        }
    }
}

/// Every pixel of a line lies in the box spanned by its ends.
pub proof fn lemma_line_points_in_box(x0: int, y0: int, x1: int, y1: int)
    ensures
        forall|k: int|
            0 <= k < line_points(x0, y0, x1, y1).len() ==> {
                let point = #[trigger] line_points(x0, y0, x1, y1)[k];
                &&& (if x0 < x1 { x0 } else { x1 }) <= point.0 <= (if x0 < x1 { x1 } else { x0 })
                &&& (if y0 < y1 { y0 } else { y1 }) <= point.1 <= (if y0 < y1 { y1 } else { y0 })
            },
{
    let a = magnitude(x1 - x0);
    let b = magnitude(y1 - y0);
    let step_x = if x0 < x1 { 1int } else { -1int };
    let step_y = if y0 < y1 { 1int } else { -1int };
    assert(walk_state_valid(a, b, 0, 0, a - b)) by (nonlinear_arith)
        requires
            a >= 0,
            b >= 0,
    ;
    lemma_walk_in_box(x0, y0, step_x, step_y, a, b, 0, 0, a - b, (a + b) as nat);
}

/// A square of the brush fits the buffer when it does not start right of
/// the canvas and the buffer holds the whole canvas.
pub proof fn lemma_square_fits(
    buffer_len: int,
    width: int,
    height: int,
    x: int,
    y: int,
    side: int,
)
    requires
        width >= 0,
        height >= 0,
        width * height <= buffer_len,
        x <= width,
        x <= i32::MAX,
        side >= 1,
    ensures
        fill_rect_fits(buffer_len, width, height, x, y, side, side),
{
    assert(clip_start(x) <= clip_end(x, side, width));
    let bottom = clip_end(y, side, height);
    let right = clip_end(x, side, width);
    if clip_start(y) < bottom {
        assert((bottom - 1) * width + right <= width * height) by (nonlinear_arith)
            requires
                1 <= bottom <= height,
                0 <= right <= width,
        ;
    }
}

/// A line can be drawn on a canvas that the buffer holds whole, when its
/// ends are not too far apart and its brush does not start right of the
/// canvas or below `i32::MIN`.
pub proof fn lemma_line_fits_canvas(
    buffer_len: int,
    width: int,
    height: int,
    x0: int,
    y0: int,
    x1: int,
    y1: int,
    thickness: int,
)
    requires
        width >= 0,
        height >= 0,
        width * height <= buffer_len,
        3 * magnitude(x1 - x0) <= i32::MAX,
        3 * magnitude(y1 - y0) <= i32::MAX,
        i32::MIN <= thickness <= i32::MAX,
        (if x0 < x1 { x1 } else { x0 }) - brush_radius(thickness) <= width,
        (if x0 < x1 { x1 } else { x0 }) - brush_radius(thickness) <= i32::MAX,
        i32::MIN <= (if x0 < x1 { x0 } else { x1 }) - brush_radius(thickness),
        i32::MIN <= (if y0 < y1 { y0 } else { y1 }) - brush_radius(thickness),
    ensures
        line_fits(buffer_len, width, height, x0, y0, x1, y1, thickness),
{
    let radius = brush_radius(thickness);
    lemma_line_points_in_box(x0, y0, x1, y1);
    assert(radius <= i32::MAX / 2);
    assert forall|k: int| 0 <= k < line_points(x0, y0, x1, y1).len() implies {
        let point = #[trigger] line_points(x0, y0, x1, y1)[k];
        &&& i32::MIN <= point.0 - radius
        &&& i32::MIN <= point.1 - radius
        &&& fill_rect_fits(
            buffer_len,
            width,
            height,
            point.0 - radius,
            point.1 - radius,
            radius * 2 + 1,
            radius * 2 + 1,
        )
    } by {
        let point = line_points(x0, y0, x1, y1)[k];
        lemma_square_fits(buffer_len, width, height, point.0 - radius, point.1 - radius, radius * 2 + 1);
    }
}

/// A 0RGB canvas pixel after blending `color` over it by the color's alpha,
/// rounding each channel to nearest.
pub open spec fn blended(destination: u32, color: Color) -> u32 {
    let alpha = color.alpha_spec() as u32;
    let inverse = (255 - alpha) as u32;
    let red = ((color.red_spec() as u32 * alpha + ((destination >> 16u32) & 0xffu32) * inverse + 127)
        / 255) as u32;
    let green = ((color.green_spec() as u32 * alpha + ((destination >> 8u32) & 0xffu32) * inverse
        + 127) / 255) as u32;
    let blue = ((color.blue_spec() as u32 * alpha + (destination & 0xffu32) * inverse + 127) / 255) as u32;
    (red << 16u32) | (green << 8u32) | blue
}

/// Blends `color` into the canvas pixel at `(x, y)`, where that pixel lies
/// on the canvas and in the buffer.
pub fn blend_preview_pixel(buffer: &mut [u32], width: u32, height: u32, x: i32, y: i32, color: Color)
    ensures
        ({
            let index = y * width + x;
            if 0 <= x < width && 0 <= y < height && index < old(buffer)@.len() {
                final(buffer)@ == old(buffer)@.update(index, blended(old(buffer)@[index], color))
            } else {
                final(buffer)@ == old(buffer)@
            }
        }),
{
    if x < 0 || y < 0 {
        return;
    }
    let column = x as u32;
    let row = y as u32;
    if column >= width || row >= height {
        return;
    }
    proof {
        assert(row as u64 * width as u64 <= 0xffff_ffff * 0xffff_ffff) by (nonlinear_arith)
            requires
                row <= 0xffff_ffff,
                width <= 0xffff_ffff,
        ;
    }
    let index = row as u64 * width as u64 + column as u64;
    if index >= buffer.len() as u64 {
        return;
    }
    let index = index as usize;
    let destination = buffer[index];
    let alpha = color.alpha() as u32;
    let inverse = 255 - alpha;
    let red_color = color.red() as u32;
    let green_color = color.green() as u32;
    let blue_color = color.blue() as u32;
    let red_in = (destination >> 16u32) & 0xffu32;
    let green_in = (destination >> 8u32) & 0xffu32;
    let blue_in = destination & 0xffu32;
    proof {
        assert(red_in <= 255 && green_in <= 255 && blue_in <= 255) by (bit_vector)
            requires
                red_in == (destination >> 16u32) & 0xffu32,
                green_in == (destination >> 8u32) & 0xffu32,
                blue_in == destination & 0xffu32,
        ;
        assert(red_color * alpha <= 255 * 255 && green_color * alpha <= 255 * 255 && blue_color
            * alpha <= 255 * 255) by (nonlinear_arith)
            requires
                red_color <= 255,
                green_color <= 255,
                blue_color <= 255,
                alpha <= 255,
        ;
        assert(red_in * inverse <= 255 * 255 && green_in * inverse <= 255 * 255 && blue_in * inverse
            <= 255 * 255) by (nonlinear_arith)
            requires
                red_in <= 255,
                green_in <= 255,
                blue_in <= 255,
                inverse <= 255,
        ;
    }
    let red = (red_color * alpha + red_in * inverse + 127) / 255;
    let green = (green_color * alpha + green_in * inverse + 127) / 255;
    let blue = (blue_color * alpha + blue_in * inverse + 127) / 255;
    buffer[index] = (red << 16u32) | (green << 8u32) | blue;
}

/// `start - amount` limited below by `i32::MIN`.
pub open spec fn saturating_below(start: int, amount: int) -> int {
    if start - amount < i32::MIN {
        i32::MIN as int
    } else {
        start - amount
    }
}

/// `buffer` after blending `color` into every pixel of the columns
/// `left..right` of the rows `top..bottom`.
pub open spec fn blended_region(
    buffer: Seq<u32>,
    width: int,
    left: int,
    top: int,
    right: int,
    bottom: int,
    color: Color,
) -> Seq<u32> {
    Seq::new(
        buffer.len(),
        |i: int|
            if covers(width, left, top, right, bottom, i) {
                blended(buffer[i], color)
            } else {
                buffer[i]
            },
    )
}

/// `buffer` after the brush of the given thickness was blended in at
/// `(x, y)`: a square running `thickness / 2` pixels before the point and
/// `(thickness - 1) / 2` after it, clipped to the canvas.
pub open spec fn brushed(
    buffer: Seq<u32>,
    width: int,
    height: int,
    x: int,
    y: int,
    thickness: int,
    color: Color,
) -> Seq<u32> {
    let size = if thickness < 1 {
        1
    } else {
        thickness
    };
    let before = size / 2;
    let after = (size - 1) / 2;
    blended_region(
        buffer,
        width,
        clip_start(saturating_below(x, before)),
        clip_start(saturating_below(y, before)),
        clip_end(x, after + 1, width),
        clip_end(y, after + 1, height),
        color,
    )
}

/// Blends the brush into the canvas around `(x, y)`.
pub fn blend_preview_brush(
    buffer: &mut [u32],
    width: u32,
    height: u32,
    x: i32,
    y: i32,
    color: Color,
    thickness: i32,
)
    ensures
        final(buffer)@ == brushed(old(buffer)@, width as int, height as int, x as int, y as int, thickness as int, color),
{
    let size: i32 = if thickness < 1 {
        1
    } else {
        thickness
    };
    let before = size / 2;
    let after = (size - 1) / 2;
    let first_x: i64 = if (x as i64) - (before as i64) < i32::MIN as i64 {
        i32::MIN as i64
    } else {
        x as i64 - before as i64
    };
    let first_y: i64 = if (y as i64) - (before as i64) < i32::MIN as i64 {
        i32::MIN as i64
    } else {
        y as i64 - before as i64
    };
    let left: i64 = if first_x < 0 {
        0
    } else {
        first_x
    };
    let top: i64 = if first_y < 0 {
        0
    } else {
        first_y
    };
    let right = clipped_end(x, after + 1, width) as i64;
    let bottom = clipped_end(y, after + 1, height) as i64;
    let ghost original = buffer@;
    proof {
        assert(brushed(original, width as int, height as int, x as int, y as int, thickness as int, color)
            == blended_region(original, width as int, left as int, top as int, right as int, bottom as int, color));
    }
    if width == 0 || top >= bottom || left >= right {
        proof {
            assert(buffer@ =~= blended_region(original, width as int, left as int, top as int, right as int, bottom as int, color));
        }
        return;
    }
    let mut row = top;
    while row < bottom
        invariant
            width > 0,
            0 <= top,
            0 <= left,
            bottom <= height,
            right <= width,
            bottom <= i32::MAX,
            right <= i32::MAX,
            top <= row <= bottom,
            left < right,
            buffer@.len() == original.len(),
            buffer@ == blended_region(original, width as int, left as int, top as int, right as int, row as int, color),
        decreases bottom - row,
    {
        let mut column = left;
        while column < right
            invariant
                width > 0,
                0 <= left <= column <= right,
                right <= width,
                bottom <= i32::MAX,
                right <= i32::MAX,
                0 <= top <= row < bottom <= height,
                buffer@.len() == original.len(),
                forall|i: int|
                    0 <= i < original.len() ==> #[trigger] buffer@[i] == if covers(width as int, left as int, top as int, right as int, row as int, i)
                        || covers(width as int, left as int, row as int, column as int, row + 1, i) {
                        blended(original[i], color)
                    } else {
                        original[i]
                    },
            decreases right - column,
        {
            let ghost previous = buffer@;
            let ghost index = row * width + column;
            proof {
                lemma_index_of(width as int, row as int, column as int);
                assert(row * width == width * row) by (nonlinear_arith);
                if index < original.len() {
                    assert(!covers(width as int, left as int, top as int, right as int, row as int, index));
                    assert(!covers(width as int, left as int, row as int, column as int, row + 1, index));
                    assert(previous[index] == original[index]);
                }
            }
            blend_preview_pixel(buffer, width, height, column as i32, row as i32, color);
            proof {
                assert forall|i: int| 0 <= i < original.len() implies #[trigger] buffer@[i] == if covers(
                    width as int,
                    left as int,
                    top as int,
                    right as int,
                    row as int,
                    i,
                ) || covers(width as int, left as int, row as int, column + 1, row + 1, i) {
                    blended(original[i], color)
                } else {
                    original[i]
                } by {
                    if i != index {
                        lemma_fundamental_div_mod(i, width as int);
                        assert(!covers(width as int, column as int, row as int, column + 1, row + 1, i));
                        assert(buffer@[i] == previous[i]);
                    }
                }
            }
            column += 1;
        }
        proof {
            assert(buffer@ =~= blended_region(original, width as int, left as int, top as int, right as int, row + 1, color));
        }
        row += 1;
    }
    proof {
        assert(buffer@ =~= brushed(original, width as int, height as int, x as int, y as int, thickness as int, color));
    }
}

/// `buffer` after the brush was blended in at each of `points`, in order.
pub open spec fn brushed_along(
    buffer: Seq<u32>,
    width: int,
    height: int,
    points: Seq<(int, int)>,
    thickness: int,
    color: Color,
) -> Seq<u32>
    decreases points.len(),
{
    if points.len() == 0 {
        buffer
    } else {
        let point = points.last();
        brushed(
            brushed_along(buffer, width, height, points.drop_last(), thickness, color),
            width,
            height,
            point.0,
            point.1,
            thickness,
            color,
        )
    }
}

/// Draws a translucent preview line: the brush blended in at each pixel of
/// [`line_points`].
pub fn draw_preview_line(
    buffer: &mut [u32],
    width: u32,
    height: u32,
    x0: i32,
    y0: i32,
    x1: i32,
    y1: i32,
    color: Color,
    thickness: i32,
)
    requires
        3 * magnitude(x1 - x0) <= i32::MAX,
        3 * magnitude(y1 - y0) <= i32::MAX,
    ensures
        final(buffer)@ == brushed_along(
            old(buffer)@,
            width as int,
            height as int,
            line_points(x0 as int, y0 as int, x1 as int, y1 as int),
            thickness as int,
            color,
        ),
{
    let ghost before = buffer@;
    let ghost all_points = line_points(x0 as int, y0 as int, x1 as int, y1 as int);
    let pixels = line_pixels(x0, y0, x1, y1);
    let mut index: usize = 0;
    while index < pixels.len()
        invariant
            index <= pixels@.len(),
            pixels@.len() == all_points.len(),
            forall|k: int| 0 <= k < pixels@.len() ==> (pixels@[k].0 as int, pixels@[k].1 as int) == #[trigger] all_points[k],
            buffer@ == brushed_along(before, width as int, height as int, all_points.take(index as int), thickness as int, color),
        decreases pixels@.len() - index,
    {
        let (x, y) = pixels[index];
        proof {
            assert(all_points[index as int] == (x as int, y as int));
        }
        blend_preview_brush(buffer, width, height, x, y, color, thickness);
        proof {
            assert(all_points.take(index + 1).drop_last() =~= all_points.take(index as int));
            assert(all_points.take(index + 1).last() == (x as int, y as int));
        }
        index += 1;
    }
    proof {
        assert(all_points.take(all_points.len() as int) =~= all_points);
    }
}

/// Pixel `pixel` of RGBA bytes as a 0RGB canvas pixel.
pub open spec fn packed_pixel(rgba: Seq<u8>, pixel: int) -> u32 {
    ((rgba[4 * pixel] as u32) << 16u32) | ((rgba[4 * pixel + 1] as u32) << 8u32) | (rgba[4 * pixel
        + 2] as u32)
}

fn pack(red: u8, green: u8, blue: u8) -> (pixel: u32)
    ensures
        pixel == ((red as u32) << 16u32) | ((green as u32) << 8u32) | (blue as u32),
{
    ((red as u32) << 16u32) | ((green as u32) << 8u32) | (blue as u32)
}

/// Pixel `pixel` of RGBA bytes, each channel scaled to `brightness`
/// percent, as a 0RGB canvas pixel.
pub open spec fn dimmed_pixel(rgba: Seq<u8>, pixel: int, brightness: u8) -> u32 {
    let red = (rgba[4 * pixel] as u32 * brightness as u32 / 100) as u32;
    let green = (rgba[4 * pixel + 1] as u32 * brightness as u32 / 100) as u32;
    let blue = (rgba[4 * pixel + 2] as u32 * brightness as u32 / 100) as u32;
    (red << 16u32) | (green << 8u32) | blue
}

/// Paints the source frame, dimmed to `brightness` percent, over the start
/// of the buffer, pixel for pixel, as far as both reach.
pub fn draw_source_dimmed(buffer: &mut [u32], source: &Frame, brightness: u8)
    ensures
        final(buffer)@ == Seq::new(
            old(buffer)@.len(),
            |i: int|
                if i < source.pixels().len() / 4 {
                    dimmed_pixel(source.pixels(), i, brightness)
                } else {
                    old(buffer)@[i]
                },
        ),
{
    let rgba = source.rgba();
    let ghost before = buffer@;
    let total = rgba.len();
    let pixel_count = total / 4;
    let count = if buffer.len() < pixel_count {
        buffer.len()
    } else {
        pixel_count
    };
    let mut index: usize = 0;
    while index < count
        invariant
            rgba@ == source.pixels(),
            total == rgba@.len(),
            pixel_count == rgba@.len() / 4,
            count <= pixel_count,
            count <= before.len(),
            index <= count,
            buffer@.len() == before.len(),
            forall|i: int|
                0 <= i < before.len() ==> #[trigger] buffer@[i] == if i < index {
                    dimmed_pixel(source.pixels(), i, brightness)
                } else {
                    before[i]
                },
        decreases count - index,
    {
        let base = index * 4;
        let red = rgba[base] as u32;
        let green = rgba[base + 1] as u32;
        let blue = rgba[base + 2] as u32;
        proof {
            assert(red * brightness <= 255 * 255 && green * brightness <= 255 * 255 && blue
                * brightness <= 255 * 255) by (nonlinear_arith)
                requires
                    red <= 255,
                    green <= 255,
                    blue <= 255,
                    brightness <= 255,
            ;
        }
        let scale = brightness as u32;
        buffer[index] = ((red * scale / 100) << 16u32) | ((green * scale / 100) << 8u32) | (blue
            * scale / 100);
        index += 1;
    }
    proof {
        assert(buffer@ =~= Seq::new(
            before.len(),
            |i: int|
                if i < source.pixels().len() / 4 {
                    dimmed_pixel(source.pixels(), i, brightness)
                } else {
                    before[i]
                },
        ));
    }
}

/// `buffer` with the pixels of the columns `left..right` of the rows
/// `top..bottom` taken from the same pixels of an RGBA source of the same
/// width.
pub open spec fn copied_region(
    buffer: Seq<u32>,
    rgba: Seq<u8>,
    width: int,
    left: int,
    top: int,
    right: int,
    bottom: int,
) -> Seq<u32> {
    Seq::new(
        buffer.len(),
        |i: int|
            if covers(width, left, top, right, bottom, i) {
                packed_pixel(rgba, i)
            } else {
                buffer[i]
            },
    )
}

/// The region that `blit_region_undimmed` copies: the rectangle clipped to
/// the source frame, as `(left, top, right, bottom)`.
pub open spec fn undimmed_region(
    region_x: int,
    region_y: int,
    region_right: int,
    region_bottom: int,
    source_width: int,
    source_height: int,
) -> (int, int, int, int) {
    (
        clip_start(region_x),
        clip_start(region_y),
        if region_right < 0 {
            0
        } else if region_right < source_width {
            region_right
        } else {
            source_width
        },
        if region_bottom < 0 {
            0
        } else if region_bottom < source_height {
            region_bottom
        } else {
            source_height
        },
    )
}

/// Copies a region of the source frame, undimmed, into the buffer at the
/// same pixel positions (the buffer has the source's width).
pub fn blit_region_undimmed(buffer: &mut [u32], source: &Frame, region: crate::overlay::PixelRect)
    requires
        ({
            let (left, top, right, bottom) = undimmed_region(
                region.x as int,
                region.y as int,
                region.right_spec(),
                region.bottom_spec(),
                source.width_spec() as int,
                source.height_spec() as int,
            );
            top >= bottom || left >= right || (bottom - 1) * source.width_spec() + right <= old(
                buffer,
            )@.len()
        }),
    ensures
        ({
            let (left, top, right, bottom) = undimmed_region(
                region.x as int,
                region.y as int,
                region.right_spec(),
                region.bottom_spec(),
                source.width_spec() as int,
                source.height_spec() as int,
            );
            final(buffer)@ == copied_region(
                old(buffer)@,
                source.pixels(),
                source.width_spec() as int,
                left,
                top,
                right,
                bottom,
            )
        }),
{
    let rgba = source.rgba();
    let width = source.width() as usize;
    let height = source.height() as usize;
    let ghost before = buffer@;
    let region_right = region.right();
    let region_bottom = region.bottom();
    let left: usize = if region.x < 0 {
        0
    } else {
        region.x as usize
    };
    let top: usize = if region.y < 0 {
        0
    } else {
        region.y as usize
    };
    let right: usize = if region_right < 0 {
        0
    } else if (region_right as usize) < width {
        region_right as usize
    } else {
        width
    };
    let bottom: usize = if region_bottom < 0 {
        0
    } else if (region_bottom as usize) < height {
        region_bottom as usize
    } else {
        height
    };
    if top >= bottom || left >= right {
        proof {
            assert(buffer@ =~= copied_region(before, rgba@, width as int, left as int, top as int, right as int, bottom as int));
        }
        return;
    }
    let length = buffer.len();
    let total = rgba.len();
    let mut row = top;
    while row < bottom
        invariant
            rgba@ == source.pixels(),
            total == rgba@.len(),
            rgba@.len() == width * height * 4,
            width > 0,
            left < right <= width,
            top <= row <= bottom <= height,
            (bottom - 1) * width + right <= before.len(),
            length == before.len(),
            buffer@.len() == before.len(),
            buffer@ == copied_region(before, rgba@, width as int, left as int, top as int, right as int, row as int),
        decreases bottom - row,
    {
        proof {
            lemma_mul_inequality(row as int, (bottom - 1) as int, width as int);
        }
        let base = row * width;
        let mut column = left;
        while column < right
            invariant
                rgba@ == source.pixels(),
                total == rgba@.len(),
                rgba@.len() == width * height * 4,
                width > 0,
                left <= column <= right <= width,
                top <= row < bottom <= height,
                base == row * width,
                base + right <= before.len(),
                length == before.len(),
                buffer@.len() == before.len(),
                forall|i: int|
                    0 <= i < before.len() ==> #[trigger] buffer@[i] == if covers(width as int, left as int, top as int, right as int, row as int, i)
                        || covers(width as int, left as int, row as int, column as int, row + 1, i) {
                        packed_pixel(rgba@, i)
                    } else {
                        before[i]
                    },
            decreases right - column,
        {
            let index = base + column;
            proof {
                lemma_index_of(width as int, row as int, column as int);
                assert(row * width == width * row) by (nonlinear_arith);
                assert(index * 4 + 3 < width * height * 4) by (nonlinear_arith)
                    requires
                        index == row * width + column,
                        row < height,
                        column < width,
                ;
            }
            let offset = index * 4;
            let pixel = pack(rgba[offset], rgba[offset + 1], rgba[offset + 2]);
            let ghost previous = buffer@;
            buffer[index] = pixel;
            proof {
                assert forall|i: int| 0 <= i < before.len() implies #[trigger] buffer@[i] == if covers(
                    width as int,
                    left as int,
                    top as int,
                    right as int,
                    row as int,
                    i,
                ) || covers(width as int, left as int, row as int, column + 1, row + 1, i) {
                    packed_pixel(rgba@, i)
                } else {
                    before[i]
                } by {
                    if i != index {
                        lemma_fundamental_div_mod(i, width as int);
                        assert(!covers(width as int, column as int, row as int, column + 1, row + 1, i));
                        assert(buffer@[i] == previous[i]);
                    }
                }
            }
            column += 1;
        }
        proof {
            assert(buffer@ =~= copied_region(before, rgba@, width as int, left as int, top as int, right as int, row + 1));
        }
        row += 1;
    }
}

/// `buffer` with the source frame copied in with its top-left pixel at
/// `(left, top)`, as far as `width_copied` columns and `height_copied` rows.
pub open spec fn blitted(
    buffer: Seq<u32>,
    target_width: int,
    rgba: Seq<u8>,
    source_width: int,
    left: int,
    top: int,
    width_copied: int,
    height_copied: int,
) -> Seq<u32> {
    Seq::new(
        buffer.len(),
        |i: int|
            if covers(target_width, left, top, left + width_copied, top + height_copied, i) {
                packed_pixel(rgba, (i / target_width - top) * source_width + (i % target_width - left))
            } else {
                buffer[i]
            },
    )
}

/// How much of a source `extent` long fits a target `limit` long from
/// `offset` on.
pub open spec fn copy_extent(extent: int, limit: int, offset: int) -> int {
    let room = if limit > offset {
        limit - offset
    } else {
        0
    };
    if extent < room {
        extent
    } else {
        room
    }
}

/// Copies the source frame into a target canvas with its top-left pixel at
/// `(target_x, target_y)` (negative offsets count as zero), clipped to the
/// canvas.
pub fn blit_frame(
    buffer: &mut [u32],
    target_width: u32,
    target_height: u32,
    source: &Frame,
    target_x: i32,
    target_y: i32,
)
    requires
        ({
            let left = clip_start(target_x as int);
            let top = clip_start(target_y as int);
            let columns = copy_extent(source.width_spec() as int, target_width as int, left);
            let rows = copy_extent(source.height_spec() as int, target_height as int, top);
            columns <= 0 || rows <= 0 || (top + rows - 1) * target_width + left + columns <= old(
                buffer,
            )@.len()
        }),
    ensures
        ({
            let left = clip_start(target_x as int);
            let top = clip_start(target_y as int);
            final(buffer)@ == blitted(
                old(buffer)@,
                target_width as int,
                source.pixels(),
                source.width_spec() as int,
                left,
                top,
                copy_extent(source.width_spec() as int, target_width as int, left),
                copy_extent(source.height_spec() as int, target_height as int, top),
            )
        }),
{
    let rgba = source.rgba();
    let total = rgba.len();
    let ghost before = buffer@;
    let length = buffer.len();
    let target_w = target_width as usize;
    let target_h = target_height as usize;
    let source_w = source.width() as usize;
    let source_h = source.height() as usize;
    let left: usize = if target_x < 0 {
        0
    } else {
        target_x as usize
    };
    let top: usize = if target_y < 0 {
        0
    } else {
        target_y as usize
    };
    let room_x = if target_w > left {
        target_w - left
    } else {
        0
    };
    let room_y = if target_h > top {
        target_h - top
    } else {
        0
    };
    let columns = if source_w < room_x {
        source_w
    } else {
        room_x
    };
    let rows = if source_h < room_y {
        source_h
    } else {
        room_y
    };
    if columns == 0 || rows == 0 {
        proof {
            assert(buffer@ =~= blitted(before, target_w as int, rgba@, source_w as int, left as int, top as int, columns as int, rows as int));
        }
        return;
    }
    let mut row: usize = 0;
    while row < rows
        invariant
            rgba@ == source.pixels(),
            total == rgba@.len(),
            rgba@.len() == source_w * source_h * 4,
            target_w > 0,
            0 < columns <= source_w,
            columns <= target_w - left,
            left < target_w,
            rows <= source_h,
            top < target_h,
            rows <= target_h - top,
            row <= rows,
            (top + rows - 1) * target_w + left + columns <= before.len(),
            length == before.len(),
            buffer@.len() == before.len(),
            buffer@ == blitted(before, target_w as int, rgba@, source_w as int, left as int, top as int, columns as int, row as int),
        decreases rows - row,
    {
        proof {
            lemma_mul_inequality((top + row) as int, (top + rows - 1) as int, target_w as int);
            assert(row * source_w + source_w <= source_w * source_h) by (nonlinear_arith)
                requires
                    row < source_h,
            ;
        }
        let base = (top + row) * target_w + left;
        let source_base = row * source_w;
        let mut column: usize = 0;
        while column < columns
            invariant
                rgba@ == source.pixels(),
                total == rgba@.len(),
                rgba@.len() == source_w * source_h * 4,
                target_w > 0,
                0 < columns <= source_w,
                columns <= target_w - left,
                left < target_w,
                row < rows <= source_h,
                row * source_w + source_w <= source_w * source_h,
                column <= columns,
                base == (top + row) * target_w + left,
                source_base == row * source_w,
                base + columns <= before.len(),
                length == before.len(),
                buffer@.len() == before.len(),
                forall|i: int|
                    0 <= i < before.len() ==> #[trigger] buffer@[i] == if covers(target_w as int, left as int, top as int, left + columns, top + row, i)
                        || covers(target_w as int, left as int, top + row, left + column, top + row + 1, i) {
                        packed_pixel(rgba@, (i / target_w as int - top) * source_w + (i % target_w as int - left))
                    } else {
                        before[i]
                    },
            decreases columns - column,
        {
            let index = base + column;
            let source_index = source_base + column;
            proof {
                lemma_index_of(target_w as int, (top + row) as int, (left + column) as int);
                assert((top + row) * target_w == target_w * (top + row)) by (nonlinear_arith);
                assert(source_index * 4 + 3 < source_w * source_h * 4) by (nonlinear_arith)
                    requires
                        source_index == row * source_w + column,
                        row < source_h,
                        column < source_w,
                ;
            }
            let offset = source_index * 4;
            let pixel = pack(rgba[offset], rgba[offset + 1], rgba[offset + 2]);
            let ghost previous = buffer@;
            buffer[index] = pixel;
            proof {
                assert forall|i: int| 0 <= i < before.len() implies #[trigger] buffer@[i] == if covers(
                    target_w as int,
                    left as int,
                    top as int,
                    left + columns,
                    top + row,
                    i,
                ) || covers(target_w as int, left as int, top + row, left + column + 1, top + row + 1, i) {
                    packed_pixel(rgba@, (i / target_w as int - top) * source_w + (i % target_w as int - left))
                } else {
                    before[i]
                } by {
                    if i != index {
                        lemma_fundamental_div_mod(i, target_w as int);
                        assert(!covers(target_w as int, left + column, top + row, left + column + 1, top + row + 1, i));
                        assert(buffer@[i] == previous[i]);
                    }
                }
            }
            column += 1;
        }
        proof {
            assert(buffer@ =~= blitted(before, target_w as int, rgba@, source_w as int, left as int, top as int, columns as int, row + 1));
        }
        row += 1;
    }
}

/// `buffer` after a square of side `side` was filled at each of the
/// top-left corners `cells`, in order.
pub open spec fn squares_filled(
    buffer: Seq<u32>,
    width: int,
    height: int,
    cells: Seq<(int, int)>,
    side: int,
    color: u32,
) -> Seq<u32>
    decreases cells.len(),
{
    if cells.len() == 0 {
        buffer
    } else {
        let cell = cells.last();
        filled_rect(
            squares_filled(buffer, width, height, cells.drop_last(), side, color),
            width,
            height,
            cell.0,
            cell.1,
            side,
            side,
            color,
        )
    }
}

/// The rows of the 5-by-7 bitmap font's glyph for an upper-case character;
/// the most significant of the five low bits is the leftmost column.
/// Characters without a glyph are blank.
pub open spec fn glyph_rows(character: char) -> Seq<u8> {
    match character {
        '0' => seq![0x0e, 0x11, 0x13, 0x15, 0x19, 0x11, 0x0e],
        '1' => seq![0x04, 0x0c, 0x04, 0x04, 0x04, 0x04, 0x0e],
        '2' => seq![0x0e, 0x11, 0x01, 0x02, 0x04, 0x08, 0x1f],
        '3' => seq![0x1e, 0x01, 0x01, 0x0e, 0x01, 0x01, 0x1e],
        '4' => seq![0x02, 0x06, 0x0a, 0x12, 0x1f, 0x02, 0x02],
        '5' => seq![0x1f, 0x10, 0x10, 0x1e, 0x01, 0x01, 0x1e],
        '6' => seq![0x0e, 0x10, 0x10, 0x1e, 0x11, 0x11, 0x0e],
        '7' => seq![0x1f, 0x01, 0x02, 0x04, 0x08, 0x08, 0x08],
        '8' => seq![0x0e, 0x11, 0x11, 0x0e, 0x11, 0x11, 0x0e],
        '9' => seq![0x0e, 0x11, 0x11, 0x0f, 0x01, 0x01, 0x0e],
        'U' => seq![0x11, 0x11, 0x11, 0x11, 0x11, 0x11, 0x0e],
        'Y' => seq![0x11, 0x11, 0x0a, 0x04, 0x04, 0x04, 0x04],
        'X' => seq![0x11, 0x11, 0x0a, 0x04, 0x0a, 0x11, 0x11],
        _ => seq![0u8, 0u8, 0u8, 0u8, 0u8, 0u8, 0u8],
    }
}

/// The glyph of a character, looked up in upper case.
pub fn glyph(character: char) -> (rows: [u8; 7])
    ensures
        rows@ == glyph_rows(crate::text::ascii_uppercase(character)),
{
    let upper = crate::text::upper_char(character);
    match upper {
        '0' => [0x0e, 0x11, 0x13, 0x15, 0x19, 0x11, 0x0e],
        '1' => [0x04, 0x0c, 0x04, 0x04, 0x04, 0x04, 0x0e],
        '2' => [0x0e, 0x11, 0x01, 0x02, 0x04, 0x08, 0x1f],
        '3' => [0x1e, 0x01, 0x01, 0x0e, 0x01, 0x01, 0x1e],
        '4' => [0x02, 0x06, 0x0a, 0x12, 0x1f, 0x02, 0x02],
        '5' => [0x1f, 0x10, 0x10, 0x1e, 0x01, 0x01, 0x1e],
        '6' => [0x0e, 0x10, 0x10, 0x1e, 0x11, 0x11, 0x0e],
        '7' => [0x1f, 0x01, 0x02, 0x04, 0x08, 0x08, 0x08],
        '8' => [0x0e, 0x11, 0x11, 0x0e, 0x11, 0x11, 0x0e],
        '9' => [0x0e, 0x11, 0x11, 0x0f, 0x01, 0x01, 0x0e],
        'U' => [0x11, 0x11, 0x11, 0x11, 0x11, 0x11, 0x0e],
        'Y' => [0x11, 0x11, 0x0a, 0x04, 0x04, 0x04, 0x04],
        'X' => [0x11, 0x11, 0x0a, 0x04, 0x0a, 0x11, 0x11],
        _ => [0; 7],
    }
}

/// Column `column` of a glyph row is lit.
pub open spec fn lit(bits: u8, column: int) -> bool {
    bits & (1u8 << ((4 - column) as u8)) != 0
}

/// The lit cells of the first `columns` columns of one glyph row, whose
/// top-left corner is `(x, y)`.
pub open spec fn row_cells(bits: u8, x: int, y: int, scale: int, columns: int) -> Seq<(int, int)>
    decreases columns,
{
    if columns <= 0 {
        Seq::empty()
    } else {
        row_cells(bits, x, y, scale, columns - 1) + if lit(bits, columns - 1) {
            seq![(x + (columns - 1) * scale, y)]
        } else {
            Seq::empty()
        }
    }
}

/// The lit cells of the first `rows` rows of a glyph drawn at `(x, y)`.
pub open spec fn glyph_cells(glyph: Seq<u8>, x: int, y: int, scale: int, rows: int) -> Seq<(int, int)>
    decreases rows,
{
    if rows <= 0 {
        Seq::empty()
    } else {
        glyph_cells(glyph, x, y, scale, rows - 1) + row_cells(
            glyph[rows - 1],
            x,
            y + (rows - 1) * scale,
            scale,
            5,
        )
    }
}

/// The lit cells of the first `count` characters of a text drawn at
/// `(x, y)`, each glyph six cells wide.
pub open spec fn text_cells(text: Seq<char>, x: int, y: int, scale: int, count: int) -> Seq<(int, int)>
    decreases count,
{
    if count <= 0 {
        Seq::empty()
    } else {
        text_cells(text, x, y, scale, count - 1) + glyph_cells(
            glyph_rows(crate::text::ascii_uppercase(text[count - 1])),
            x + 6 * scale * (count - 1),
            y,
            scale,
            7,
        )
    }
}

/// `draw_text` can run: the pen stays within `i32` and every cell can be
/// filled.
pub open spec fn text_fits(
    buffer_len: int,
    width: int,
    height: int,
    text: Seq<char>,
    x: int,
    y: int,
    scale: int,
) -> bool {
    &&& 0 <= scale <= 0x100
    &&& i32::MIN <= x
    &&& x + 6 * scale * text.len() <= i32::MAX
    &&& i32::MIN <= y
    &&& y + 7 * scale <= i32::MAX
    &&& forall|k: int|
        0 <= k < text_cells(text, x, y, scale, text.len() as int).len() ==> {
            let cell = #[trigger] text_cells(text, x, y, scale, text.len() as int)[k];
            fill_rect_fits(buffer_len, width, height, cell.0, cell.1, scale, scale)
        }
}

proof fn lemma_squares_filled_append(
    buffer: Seq<u32>,
    width: int,
    height: int,
    first: Seq<(int, int)>,
    second: Seq<(int, int)>,
    side: int,
    color: u32,
)
    ensures
        squares_filled(buffer, width, height, first + second, side, color) == squares_filled(
            squares_filled(buffer, width, height, first, side, color),
            width,
            height,
            second,
            side,
            color,
        ),
    decreases second.len(),
{
    if second.len() == 0 {
        assert(first + second =~= first);
    } else {
        assert((first + second).drop_last() =~= first + second.drop_last());
        assert((first + second).last() == second.last());
        lemma_squares_filled_append(buffer, width, height, first, second.drop_last(), side, color);
    }
}

proof fn lemma_prefix_after(first: Seq<(int, int)>, shorter: Seq<(int, int)>, longer: Seq<(int, int)>)
    requires
        shorter.is_prefix_of(longer),
    ensures
        (first + shorter).is_prefix_of(first + longer),
{
    assert((first + longer).subrange(0, (first + shorter).len() as int) =~= first + shorter);
}

proof fn lemma_prefix_transitive(a: Seq<(int, int)>, b: Seq<(int, int)>, c: Seq<(int, int)>)
    requires
        a.is_prefix_of(b),
        b.is_prefix_of(c),
    ensures
        a.is_prefix_of(c),
{
    assert(c.subrange(0, a.len() as int) =~= b.subrange(0, a.len() as int));
}

proof fn lemma_row_cells_prefix(bits: u8, x: int, y: int, scale: int, columns: int, more: int)
    requires
        0 <= columns <= more,
    ensures
        row_cells(bits, x, y, scale, columns).is_prefix_of(row_cells(bits, x, y, scale, more)),
    decreases more - columns,
{
    if columns < more {
        lemma_row_cells_prefix(bits, x, y, scale, columns, more - 1);
        assert(row_cells(bits, x, y, scale, more - 1).is_prefix_of(row_cells(bits, x, y, scale, more)));
    }
}

proof fn lemma_glyph_cells_prefix(glyph: Seq<u8>, x: int, y: int, scale: int, rows: int, more: int)
    requires
        0 <= rows <= more,
    ensures
        glyph_cells(glyph, x, y, scale, rows).is_prefix_of(glyph_cells(glyph, x, y, scale, more)),
    decreases more - rows,
{
    if rows < more {
        lemma_glyph_cells_prefix(glyph, x, y, scale, rows, more - 1);
        assert(glyph_cells(glyph, x, y, scale, more - 1).is_prefix_of(glyph_cells(glyph, x, y, scale, more)));
    }
}

proof fn lemma_text_cells_prefix(text: Seq<char>, x: int, y: int, scale: int, count: int, more: int)
    requires
        0 <= count <= more,
    ensures
        text_cells(text, x, y, scale, count).is_prefix_of(text_cells(text, x, y, scale, more)),
    decreases more - count,
{
    if count < more {
        lemma_text_cells_prefix(text, x, y, scale, count, more - 1);
        assert(text_cells(text, x, y, scale, more - 1).is_prefix_of(text_cells(text, x, y, scale, more)));
    }
}

/// Fills the lit cells of one glyph row whose first cell's top-left corner
/// is `(x, y)`.
pub fn draw_glyph_row(
    buffer: &mut [u32],
    width: u32,
    height: u32,
    bits: u8,
    x: i32,
    y: i32,
    scale: i32,
    color: u32,
)
    requires
        0 <= scale <= 0x100,
        x + 5 * scale <= i32::MAX,
        forall|k: int|
            0 <= k < row_cells(bits, x as int, y as int, scale as int, 5).len() ==> {
                let cell = #[trigger] row_cells(bits, x as int, y as int, scale as int, 5)[k];
                fill_rect_fits(old(buffer)@.len() as int, width as int, height as int, cell.0, cell.1, scale as int, scale as int)
            },
    ensures
        final(buffer)@ == squares_filled(
            old(buffer)@,
            width as int,
            height as int,
            row_cells(bits, x as int, y as int, scale as int, 5),
            scale as int,
            color,
        ),
{
    let ghost before = buffer@;
    let ghost all_cells = row_cells(bits, x as int, y as int, scale as int, 5);
    let mut column: u8 = 0;
    proof {
        assert(row_cells(bits, x as int, y as int, scale as int, 0) =~= Seq::<(int, int)>::empty());
    }
    while column < 5
        invariant
            0 <= scale <= 0x100,
            x + 5 * scale <= i32::MAX,
            column <= 5,
            all_cells == row_cells(bits, x as int, y as int, scale as int, 5),
            forall|k: int|
                0 <= k < all_cells.len() ==> {
                    let cell = #[trigger] all_cells[k];
                    fill_rect_fits(before.len() as int, width as int, height as int, cell.0, cell.1, scale as int, scale as int)
                },
            buffer@.len() == before.len(),
            buffer@ == squares_filled(
                before,
                width as int,
                height as int,
                row_cells(bits, x as int, y as int, scale as int, column as int),
                scale as int,
                color,
            ),
        decreases 5 - column,
    {
        let ghost done = row_cells(bits, x as int, y as int, scale as int, column as int);
        if bits & (1u8 << (4 - column)) != 0 {
            proof {
                assert(0 <= column as int * scale <= 5 * scale) by (nonlinear_arith)
                    requires
                        column <= 5,
                        0 <= scale,
                ;
            }
            let cell_x = x + column as i32 * scale;
            proof {
                let next = row_cells(bits, x as int, y as int, scale as int, column + 1);
                assert(next =~= done + seq![(cell_x as int, y as int)]);
                lemma_row_cells_prefix(bits, x as int, y as int, scale as int, column + 1, 5);
                assert(all_cells[done.len() as int] == next[done.len() as int]);
            }
            fill_rect(buffer, width, height, cell_x, y, scale, scale, color);
            proof {
                let next = row_cells(bits, x as int, y as int, scale as int, column + 1);
                assert(next.drop_last() =~= done);
                lemma_squares_filled_len(before, width as int, height as int, next, scale as int, color);
            }
        } else {
            proof {
                assert(row_cells(bits, x as int, y as int, scale as int, column + 1) =~= done);
            }
        }
        column += 1;
    }
}

proof fn lemma_squares_filled_len(
    buffer: Seq<u32>,
    width: int,
    height: int,
    cells: Seq<(int, int)>,
    side: int,
    color: u32,
)
    ensures
        squares_filled(buffer, width, height, cells, side, color).len() == buffer.len(),
    decreases cells.len(),
{
    if cells.len() > 0 {
        lemma_squares_filled_len(buffer, width, height, cells.drop_last(), side, color);
    }
}

/// Draws text in the 5-by-7 bitmap font, each font cell a `scale`-sized
/// square, advancing six cells per character.
pub fn draw_text(
    buffer: &mut [u32],
    width: u32,
    height: u32,
    x: i32,
    y: i32,
    text: &str,
    color: u32,
    scale: i32,
)
    requires
        text_fits(old(buffer)@.len() as int, width as int, height as int, text@, x as int, y as int, scale as int),
    ensures
        final(buffer)@ == squares_filled(
            old(buffer)@,
            width as int,
            height as int,
            text_cells(text@, x as int, y as int, scale as int, text@.len() as int),
            scale as int,
            color,
        ),
{
    let ghost before = buffer@;
    let ghost all_cells = text_cells(text@, x as int, y as int, scale as int, text@.len() as int);
    let characters = crate::text::chars_of(text);
    let mut pen_x = x;
    let mut index: usize = 0;
    proof {
        assert(text_cells(text@, x as int, y as int, scale as int, 0) =~= Seq::<(int, int)>::empty());
    }
    while index < characters.len()
        invariant
            characters@ == text@,
            index <= characters@.len(),
            pen_x == x + 6 * scale * index,
            text_fits(before.len() as int, width as int, height as int, text@, x as int, y as int, scale as int),
            all_cells == text_cells(text@, x as int, y as int, scale as int, text@.len() as int),
            buffer@.len() == before.len(),
            buffer@ == squares_filled(
                before,
                width as int,
                height as int,
                text_cells(text@, x as int, y as int, scale as int, index as int),
                scale as int,
                color,
            ),
        decreases characters@.len() - index,
    {
        let rows = glyph(characters[index]);
        let ghost done = text_cells(text@, x as int, y as int, scale as int, index as int);
        proof {
            lemma_text_cells_prefix(text@, x as int, y as int, scale as int, index + 1, text@.len() as int);
            assert(text_cells(text@, x as int, y as int, scale as int, index + 1) == done + glyph_cells(
                rows@,
                pen_x as int,
                y as int,
                scale as int,
                7,
            ));
            assert(done + glyph_cells(rows@, pen_x as int, y as int, scale as int, 0) =~= done);
            assert(6 * scale * index + 6 * scale <= 6 * scale * characters@.len()) by (nonlinear_arith)
                requires
                    index < characters@.len(),
                    scale >= 0,
            ;
        }
        let mut row: usize = 0;
        while row < 7
            invariant
                characters@ == text@,
                index < characters@.len(),
                row <= 7,
                rows@ == glyph_rows(crate::text::ascii_uppercase(text@[index as int])),
                pen_x == x + 6 * scale * index,
                6 * scale * index + 6 * scale <= 6 * scale * characters@.len(),
                text_fits(before.len() as int, width as int, height as int, text@, x as int, y as int, scale as int),
                all_cells == text_cells(text@, x as int, y as int, scale as int, text@.len() as int),
                done == text_cells(text@, x as int, y as int, scale as int, index as int),
                (done + glyph_cells(rows@, pen_x as int, y as int, scale as int, 7)).is_prefix_of(all_cells),
                buffer@.len() == before.len(),
                buffer@ == squares_filled(
                    before,
                    width as int,
                    height as int,
                    done + glyph_cells(rows@, pen_x as int, y as int, scale as int, row as int),
                    scale as int,
                    color,
                ),
            decreases 7 - row,
        {
            let bits = rows[row];
            proof {
                assert(0 <= row as int * scale <= 7 * scale) by (nonlinear_arith)
                    requires
                        row <= 7,
                        0 <= scale,
                ;
            }
            let row_y = y + row as i32 * scale;
            let ghost base = done + glyph_cells(rows@, pen_x as int, y as int, scale as int, row as int);
            let ghost cells = row_cells(bits, pen_x as int, row_y as int, scale as int, 5);
            proof {
                assert(glyph_cells(rows@, pen_x as int, y as int, scale as int, row + 1)
                    == glyph_cells(rows@, pen_x as int, y as int, scale as int, row as int) + cells);
                assert(base + cells =~= done + glyph_cells(rows@, pen_x as int, y as int, scale as int, row + 1));
                lemma_glyph_cells_prefix(rows@, pen_x as int, y as int, scale as int, row + 1, 7);
                lemma_prefix_after(
                    done,
                    glyph_cells(rows@, pen_x as int, y as int, scale as int, row + 1),
                    glyph_cells(rows@, pen_x as int, y as int, scale as int, 7),
                );
                lemma_prefix_transitive(
                    base + cells,
                    done + glyph_cells(rows@, pen_x as int, y as int, scale as int, 7),
                    all_cells,
                );
                assert forall|k: int| 0 <= k < cells.len() implies {
                    let cell = #[trigger] cells[k];
                    fill_rect_fits(buffer@.len() as int, width as int, height as int, cell.0, cell.1, scale as int, scale as int)
                } by {
                    assert(cells[k] == (base + cells)[base.len() + k]);
                    assert((base + cells)[base.len() + k] == all_cells[base.len() + k]);
                }
            }
            draw_glyph_row(buffer, width, height, bits, pen_x, row_y, scale, color);
            proof {
                lemma_squares_filled_append(before, width as int, height as int, base, cells, scale as int, color);
                lemma_squares_filled_len(before, width as int, height as int, base + cells, scale as int, color);
            }
            row += 1;
        }
        proof {
            assert(done + glyph_cells(rows@, pen_x as int, y as int, scale as int, 7)
                == text_cells(text@, x as int, y as int, scale as int, index + 1));
        }
        pen_x += 6 * scale;
        index += 1;
        proof {
            assert(6 * scale * index == 6 * scale * (index - 1) + 6 * scale) by (nonlinear_arith);
        }
    }
}

/// `value - 1`, limited below by `i32::MIN`.
pub open spec fn one_before(value: int) -> int {
    if value - 1 < i32::MIN {
        i32::MIN as int
    } else {
        value - 1
    }
}

/// Draws a one-pixel outline along the edge pixels of a rectangle.
pub fn draw_border(
    buffer: &mut [u32],
    width: u32,
    height: u32,
    rect: crate::overlay::PixelRect,
    color: u32,
)
    requires
        outline_fits(
            old(buffer)@.len() as int,
            width as int,
            height as int,
            rect.x as int,
            rect.y as int,
            one_before(rect.right_spec()),
            one_before(rect.bottom_spec()),
            1,
        ),
    ensures
        final(buffer)@ == stamped(
            old(buffer)@,
            width as int,
            height as int,
            outline_points(
                rect.x as int,
                rect.y as int,
                one_before(rect.right_spec()),
                one_before(rect.bottom_spec()),
            ),
            0,
            color,
        ),
{
    let right_edge = rect.right();
    let bottom_edge = rect.bottom();
    let right = if right_edge == i32::MIN {
        i32::MIN
    } else {
        right_edge - 1
    };
    let bottom = if bottom_edge == i32::MIN {
        i32::MIN
    } else {
        bottom_edge - 1
    };
    draw_outline(buffer, width, height, rect.x, rect.y, right, bottom, color, 1);
}

/// Width of the selection-size label.
pub const DIMENSION_LABEL_WIDTH: i32 = 82;

/// Height of the selection-size label.
pub const DIMENSION_LABEL_HEIGHT: i32 = 20;

/// Where the selection-size label goes: right-aligned with the selection,
/// but not left of it nor of the canvas; at the selection's top.
pub open spec fn dimension_label_origin(rect: crate::overlay::PixelRect) -> (int, int) {
    let right_aligned = saturating_below(rect.right_spec(), DIMENSION_LABEL_WIDTH as int);
    let x = if right_aligned < rect.x {
        rect.x as int
    } else {
        right_aligned
    };
    (if x < 0 {
        0
    } else {
        x
    }, if rect.y < 0 {
        0
    } else {
        rect.y as int
    })
}

/// The text of the selection-size label: width, `x`, height.
pub open spec fn dimension_text(rect: crate::overlay::PixelRect) -> Seq<char> {
    decimal_text(rect.width as nat) + seq!['x'] + decimal_text(rect.height as nat)
}

/// Draws the selection's size in a dark label at its top-right corner.
pub fn draw_dimensions(buffer: &mut [u32], width: u32, height: u32, rect: crate::overlay::PixelRect)
    requires
        ({
            let (x, y) = dimension_label_origin(rect);
            let text = dimension_text(rect);
            let filled = filled_rect(
                old(buffer)@,
                width as int,
                height as int,
                x,
                y,
                DIMENSION_LABEL_WIDTH as int,
                DIMENSION_LABEL_HEIGHT as int,
                0x0015171d,
            );
            &&& fill_rect_fits(
                old(buffer)@.len() as int,
                width as int,
                height as int,
                x,
                y,
                DIMENSION_LABEL_WIDTH as int,
                DIMENSION_LABEL_HEIGHT as int,
            )
            &&& x + 6 <= i32::MAX
            &&& y + 6 <= i32::MAX
            &&& text_fits(filled.len() as int, width as int, height as int, text, x + 6, y + 6, 1)
        }),
    ensures
        ({
            let (x, y) = dimension_label_origin(rect);
            let text = dimension_text(rect);
            let filled = filled_rect(
                old(buffer)@,
                width as int,
                height as int,
                x,
                y,
                DIMENSION_LABEL_WIDTH as int,
                DIMENSION_LABEL_HEIGHT as int,
                0x0015171d,
            );
            final(buffer)@ == squares_filled(
                filled,
                width as int,
                height as int,
                text_cells(text, x + 6, y + 6, 1, text.len() as int),
                1,
                0x00ffffff,
            )
        }),
{
    let right_edge = rect.right();
    let right_aligned = if (right_edge as i64) - (DIMENSION_LABEL_WIDTH as i64) < i32::MIN as i64 {
        i32::MIN
    } else {
        right_edge - DIMENSION_LABEL_WIDTH
    };
    let shifted = if right_aligned < rect.x {
        rect.x
    } else {
        right_aligned
    };
    let x = if shifted < 0 {
        0
    } else {
        shifted
    };
    let y = if rect.y < 0 {
        0
    } else {
        rect.y
    };
    fill_rect(buffer, width, height, x, y, DIMENSION_LABEL_WIDTH, DIMENSION_LABEL_HEIGHT, 0x0015_171d);
    proof {
        lemma_filled_rect_len(
            old(buffer)@,
            width as int,
            height as int,
            x as int,
            y as int,
            DIMENSION_LABEL_WIDTH as int,
            DIMENSION_LABEL_HEIGHT as int,
            0x0015171d,
        );
    }
    let mut text = u64_to_decimal(rect.width as u64);
    push_char(&mut text, 'x');
    append_str(&mut text, u64_to_decimal(rect.height as u64).as_str());
    proof {
        assert(text@ =~= dimension_text(rect));
    }
    draw_text(buffer, width, height, x + 6, y + 6, text.as_str(), 0x00ff_ffff, 1);
}

proof fn lemma_filled_rect_len(
    buffer: Seq<u32>,
    width: int,
    height: int,
    x: int,
    y: int,
    rect_width: int,
    rect_height: int,
    color: u32,
)
    ensures
        filled_rect(buffer, width, height, x, y, rect_width, rect_height, color).len() == buffer.len(),
{
}

/// How a 24-unit icon design maps onto the pixels of a toolbar button.
#[derive(Clone, Copy, Debug, PartialEq, Eq, Structural)]
pub struct IconFrame {
    pub origin_x: i32,
    pub origin_y: i32,
    pub extent: i32,
    pub stroke: i32,
}

/// `value` limited to `low..=high`.
pub open spec fn clamped(value: int, low: int, high: int) -> int {
    if value < low {
        low
    } else if value > high {
        high
    } else {
        value
    }
}

/// A design coordinate (`0..=24`) on a button: `origin` plus the share of
/// `extent`, rounded to nearest.
pub open spec fn icon_coordinate(origin: int, extent: int, value: int) -> int {
    origin + (clamped(value, 0, 24) * extent + 12) / 24
}

/// Half of `value`, rounded toward zero as integer division does.
pub open spec fn half_toward_zero(value: int) -> int {
    if value >= 0 {
        value / 2
    } else {
        -((-value) / 2)
    }
}

/// Largest toolbar button size that icon drawing accepts.
pub open spec fn largest_button() -> int {
    0x1_0000
}

impl IconFrame {
    /// The icon area of a button of side `size` at `(x, y)`: two thirds of
    /// the button (at least 4 and at most 4 less than the button, unless
    /// that is less than 4), centered, with strokes a nineteenth of the
    /// button thick (1 to 4 pixels).
    pub open spec fn for_button(x: int, y: int, size: int) -> IconFrame {
        let maximum_extent = if size - 4 > 4 {
            size - 4
        } else {
            4
        };
        let extent = clamped(size * 2 / 3, 4, maximum_extent);
        let margin = half_toward_zero(size - extent);
        IconFrame {
            origin_x: (x + margin) as i32,
            origin_y: (y + margin) as i32,
            extent: extent as i32,
            stroke: clamped(size / 19, 1, 4) as i32,
        }
    }

    pub fn new(x: i32, y: i32, size: i32) -> (frame: Self)
        requires
            0 <= size <= largest_button(),
            0 <= x <= 0x3fff_0000,
            0 <= y <= 0x3fff_0000,
        ensures
            frame == IconFrame::for_button(x as int, y as int, size as int),
    {
        let maximum_extent = if size - 4 > 4 {
            size - 4
        } else {
            4
        };
        let third = size * 2 / 3;
        let extent = if third < 4 {
            4
        } else if third > maximum_extent {
            maximum_extent
        } else {
            third
        };
        let nineteenth = size / 19;
        let stroke = if nineteenth < 1 {
            1
        } else if nineteenth > 4 {
            4
        } else {
            nineteenth
        };
        IconFrame {
            origin_x: x + (size - extent) / 2,
            origin_y: y + (size - extent) / 2,
            extent,
            stroke,
        }
    }

    /// A design coordinate on the button.
    pub fn coordinate(origin: i32, extent: i32, value: i32) -> (result: i32)
        requires
            0 <= extent <= largest_button(),
            0 <= origin <= 0x4000_0000,
        ensures
            result == icon_coordinate(origin as int, extent as int, value as int),
            origin <= result <= origin + extent,
    {
        let clamped_value = if value < 0 {
            0
        } else if value > 24 {
            24
        } else {
            value
        };
        proof {
            assert(0 <= clamped_value * extent <= 24 * extent) by (nonlinear_arith)
                requires
                    0 <= clamped_value <= 24,
                    0 <= extent,
            ;
        }
        origin + (clamped_value * extent + 12) / 24
    }

    /// A design point on the button.
    pub fn point(self, x: i32, y: i32) -> (point: (i32, i32))
        requires
            self.fits(),
        ensures
            point.0 == icon_coordinate(self.origin_x as int, self.extent as int, x as int),
            point.1 == icon_coordinate(self.origin_y as int, self.extent as int, y as int),
            self.origin_x <= point.0 <= self.origin_x + self.extent,
            self.origin_y <= point.1 <= self.origin_y + self.extent,
    {
        (
            IconFrame::coordinate(self.origin_x, self.extent, x),
            IconFrame::coordinate(self.origin_y, self.extent, y),
        )
    }

    /// The frame's numbers stay where icon drawing is exact.
    pub open spec fn fits(self) -> bool {
        &&& 0 <= self.extent <= largest_button()
        &&& 0 <= self.origin_x <= 0x4000_0000
        &&& 0 <= self.origin_y <= 0x4000_0000
        &&& 1 <= self.stroke <= 4
    }

    /// The frame lies on a canvas held whole by the buffer, with a pixel to
    /// spare at its right.
    pub open spec fn on_canvas(self, buffer_len: int, width: int, height: int) -> bool {
        &&& self.fits()
        &&& width * height <= buffer_len
        &&& self.origin_x + self.extent + 1 <= width
    }
}

proof fn lemma_icon_coordinate_bounds(origin: int, extent: int, value: int)
    requires
        0 <= extent,
    ensures
        origin <= icon_coordinate(origin, extent, value) <= origin + extent,
{
    let v = clamped(value, 0, 24);
    assert(0 <= (v * extent + 12) / 24 <= extent) by (nonlinear_arith)
        requires
            0 <= v <= 24,
            0 <= extent,
    ;
}

/// White, as a canvas pixel.
pub const WHITE_PIXEL: u32 = 0x00ff_ffff;

/// One drawing step of a toolbar icon, in design coordinates (`0..=24`).
#[derive(Clone, Copy, Debug, PartialEq, Eq, Structural)]
pub enum IconStroke {
    /// A white line of the frame's stroke thickness.
    Line { x0: i32, y0: i32, x1: i32, y1: i32 },
    /// A white line whose thickness is given in design units.
    WideLine { x0: i32, y0: i32, x1: i32, y1: i32, design_width: i32 },
    /// A white rectangle outline.
    Rect { left: i32, top: i32, right: i32, bottom: i32 },
    /// A white ellipse outline inside the given box.
    Ellipse { left: i32, top: i32, right: i32, bottom: i32 },
    /// A filled box, at least one pixel wide and high.
    FillBox { left: i32, top: i32, right: i32, bottom: i32, color: u32 },
    /// A filled disk whose radius is given in design units.
    Dot { x: i32, y: i32, radius: i32, color: u32 },
}

/// The lit cells `(center_x + dx, center_y + dy)` of a disk of radius
/// `radius`, for the first `count` offsets `dx` from `-radius` on, in row
/// `dy`.
pub open spec fn disk_row(center_x: int, center_y: int, radius: int, dy: int, count: int) -> Seq<(int, int)>
    decreases count,
{
    if count <= 0 {
        Seq::empty()
    } else {
        let dx = -radius + count - 1;
        disk_row(center_x, center_y, radius, dy, count - 1) + if dx * dx + dy * dy <= radius * radius {
            seq![(center_x + dx, center_y + dy)]
        } else {
            Seq::empty()
        }
    }
}

/// The lit cells of the first `count` rows of a disk, from `-radius` down.
pub open spec fn disk_rows(center_x: int, center_y: int, radius: int, count: int) -> Seq<(int, int)>
    decreases count,
{
    if count <= 0 {
        Seq::empty()
    } else {
        disk_rows(center_x, center_y, radius, count - 1) + disk_row(
            center_x,
            center_y,
            radius,
            -radius + count - 1,
            2 * radius + 1,
        )
    }
}

/// The pixels of a disk: every offset within `radius` of the center, row
/// by row.
pub open spec fn disk_cells(center_x: int, center_y: int, radius: int) -> Seq<(int, int)> {
    disk_rows(center_x, center_y, radius, 2 * radius + 1)
}

/// A design length on the button, at least one pixel.
pub open spec fn icon_length(extent: int, design: int) -> int {
    let length = (design * extent + 12) / 24;
    if length < 1 {
        1
    } else {
        length
    }
}

/// The stroke can be painted exactly: thicknesses and radii stay small and
/// dots stay inside the design area.
pub open spec fn stroke_fits(frame: IconFrame, stroke: IconStroke) -> bool {
    match stroke {
        IconStroke::WideLine { design_width, .. } => 0 <= design_width && design_width * frame.extent
            + 12 <= i32::MAX,
        IconStroke::Dot { x, y, radius, .. } => 1 <= radius && 0 <= x && x + radius <= 24,
        _ => true,
    }
}

/// The canvas after one icon stroke (ellipses are drawn elsewhere).
pub open spec fn stroke_painted(
    buffer: Seq<u32>,
    width: int,
    height: int,
    frame: IconFrame,
    stroke: IconStroke,
) -> Seq<u32> {
    let ox = frame.origin_x as int;
    let oy = frame.origin_y as int;
    let e = frame.extent as int;
    match stroke {
        IconStroke::Line { x0, y0, x1, y1 } => stamped(
            buffer,
            width,
            height,
            line_points(
                icon_coordinate(ox, e, x0 as int),
                icon_coordinate(oy, e, y0 as int),
                icon_coordinate(ox, e, x1 as int),
                icon_coordinate(oy, e, y1 as int),
            ),
            brush_radius(frame.stroke as int),
            WHITE_PIXEL,
        ),
        IconStroke::WideLine { x0, y0, x1, y1, design_width } => stamped(
            buffer,
            width,
            height,
            line_points(
                icon_coordinate(ox, e, x0 as int),
                icon_coordinate(oy, e, y0 as int),
                icon_coordinate(ox, e, x1 as int),
                icon_coordinate(oy, e, y1 as int),
            ),
            brush_radius(icon_length(e, design_width as int)),
            WHITE_PIXEL,
        ),
        IconStroke::Rect { left, top, right, bottom } => stamped(
            buffer,
            width,
            height,
            outline_points(
                icon_coordinate(ox, e, left as int),
                icon_coordinate(oy, e, top as int),
                icon_coordinate(ox, e, right as int),
                icon_coordinate(oy, e, bottom as int),
            ),
            brush_radius(frame.stroke as int),
            WHITE_PIXEL,
        ),
        IconStroke::Ellipse { .. } => buffer,
        IconStroke::FillBox { left, top, right, bottom, color } => {
            let l = icon_coordinate(ox, e, left as int);
            let t = icon_coordinate(oy, e, top as int);
            let r = icon_coordinate(ox, e, right as int);
            let b = icon_coordinate(oy, e, bottom as int);
            filled_rect(
                buffer,
                width,
                height,
                l,
                t,
                if r - l < 1 {
                    1
                } else {
                    r - l
                },
                if b - t < 1 {
                    1
                } else {
                    b - t
                },
                color,
            )
        },
        IconStroke::Dot { x, y, radius, color } => squares_filled(
            buffer,
            width,
            height,
            disk_cells(
                icon_coordinate(ox, e, x as int),
                icon_coordinate(oy, e, y as int),
                icon_length(e, radius as int),
            ),
            1,
            color,
        ),
    }
}

/// A rectangle fits the buffer when it does not start right of the canvas
/// and the buffer holds the whole canvas.
pub proof fn lemma_rect_fits(
    buffer_len: int,
    width: int,
    height: int,
    x: int,
    y: int,
    rect_width: int,
    rect_height: int,
)
    requires
        width >= 0,
        height >= 0,
        width * height <= buffer_len,
        x <= width,
        x <= i32::MAX,
        rect_width >= 1,
        rect_height >= 1,
    ensures
        fill_rect_fits(buffer_len, width, height, x, y, rect_width, rect_height),
{
    assert(clip_start(x) <= clip_end(x, rect_width, width));
    let bottom = clip_end(y, rect_height, height);
    let right = clip_end(x, rect_width, width);
    if clip_start(y) < bottom {
        assert((bottom - 1) * width + right <= width * height) by (nonlinear_arith)
            requires
                1 <= bottom <= height,
                0 <= right <= width,
        ;
    }
}

/// Paints one icon stroke; ellipses are left to the caller.
pub fn paint_icon_stroke(
    buffer: &mut [u32],
    width: u32,
    height: u32,
    frame: IconFrame,
    stroke: IconStroke,
)
    requires
        frame.on_canvas(old(buffer)@.len() as int, width as int, height as int),
        stroke_fits(frame, stroke),
    ensures
        final(buffer)@ == stroke_painted(old(buffer)@, width as int, height as int, frame, stroke),
{
    let ghost before = buffer@;
    let ghost len = before.len() as int;
    match stroke {
        IconStroke::Line { x0, y0, x1, y1 } => {
            let (ax, ay) = frame.point(x0, y0);
            let (bx, by) = frame.point(x1, y1);
            proof {
                lemma_line_fits_canvas(len, width as int, height as int, ax as int, ay as int, bx as int, by as int, frame.stroke as int);
            }
            draw_line(buffer, width, height, ax, ay, bx, by, WHITE_PIXEL, frame.stroke);
        },
        IconStroke::WideLine { x0, y0, x1, y1, design_width } => {
            let (ax, ay) = frame.point(x0, y0);
            let (bx, by) = frame.point(x1, y1);
            proof {
                assert(0 <= design_width * frame.extent) by (nonlinear_arith)
                    requires
                        0 <= design_width,
                        0 <= frame.extent,
                ;
            }
            let scaled = (design_width * frame.extent + 12) / 24;
            let thickness = if scaled < 1 {
                1
            } else {
                scaled
            };
            proof {
                lemma_line_fits_canvas(len, width as int, height as int, ax as int, ay as int, bx as int, by as int, thickness as int);
            }
            draw_line(buffer, width, height, ax, ay, bx, by, WHITE_PIXEL, thickness);
        },
        IconStroke::Rect { left, top, right, bottom } => {
            let (l, t) = frame.point(left, top);
            let (r, b) = frame.point(right, bottom);
            proof {
                let s = frame.stroke as int;
                lemma_line_fits_canvas(len, width as int, height as int, l as int, t as int, r as int, t as int, s);
                lemma_line_fits_canvas(len, width as int, height as int, r as int, t as int, r as int, b as int, s);
                lemma_line_fits_canvas(len, width as int, height as int, r as int, b as int, l as int, b as int, s);
                lemma_line_fits_canvas(len, width as int, height as int, l as int, b as int, l as int, t as int, s);
            }
            draw_outline(buffer, width, height, l, t, r, b, WHITE_PIXEL, frame.stroke);
        },
        IconStroke::Ellipse { .. } => {},
        IconStroke::FillBox { left, top, right, bottom, color } => {
            let (l, t) = frame.point(left, top);
            let (r, b) = frame.point(right, bottom);
            let box_width = if r - l < 1 {
                1
            } else {
                r - l
            };
            let box_height = if b - t < 1 {
                1
            } else {
                b - t
            };
            proof {
                lemma_rect_fits(len, width as int, height as int, l as int, t as int, box_width as int, box_height as int);
            }
            fill_rect(buffer, width, height, l, t, box_width, box_height, color);
        },
        IconStroke::Dot { x, y, radius, color } => {
            let (center_x, center_y) = frame.point(x, y);
            proof {
                assert(0 <= radius * frame.extent <= 24 * 0x1_0000) by (nonlinear_arith)
                    requires
                        1 <= radius <= 24,
                        0 <= frame.extent <= 0x1_0000,
                ;
                let e = frame.extent as int;
                let cx = (clamped(x as int, 0, 24) * e + 12) / 24;
                assert(cx + (radius * e + 12) / 24 <= e + 1) by (nonlinear_arith)
                    requires
                        cx == (x * e + 12) / 24,
                        0 <= x,
                        x + radius <= 24,
                        0 <= e,
                ;
            }
            let scaled = (radius * frame.extent + 12) / 24;
            let disk_radius = if scaled < 1 {
                1
            } else {
                scaled
            };
            draw_disk(buffer, width, height, center_x, center_y, disk_radius, color);
        },
    }
}

/// Fills the pixels of a disk, row by row.
fn draw_disk(
    buffer: &mut [u32],
    width: u32,
    height: u32,
    center_x: i32,
    center_y: i32,
    radius: i32,
    color: u32,
)
    requires
        1 <= radius <= 0x1_0000,
        i32::MIN <= center_x - radius,
        center_x + radius <= width,
        center_x + radius <= i32::MAX,
        i32::MIN <= center_y - radius,
        center_y + radius <= i32::MAX,
        width * height <= old(buffer)@.len(),
    ensures
        final(buffer)@ == squares_filled(old(buffer)@, width as int, height as int, disk_cells(center_x as int, center_y as int, radius as int), 1, color),
{
    let ghost before = buffer@;
    let mut dy: i32 = -radius;
    proof {
        assert(disk_rows(center_x as int, center_y as int, radius as int, 0) =~= Seq::<(int, int)>::empty());
    }
    while dy <= radius
        invariant
            1 <= radius <= 0x1_0000,
            -radius <= dy <= radius + 1,
            i32::MIN <= center_x - radius,
            center_x + radius <= width,
            center_x + radius <= i32::MAX,
            i32::MIN <= center_y - radius,
            center_y + radius <= i32::MAX,
            width * height <= before.len(),
            buffer@.len() == before.len(),
            buffer@ == squares_filled(before, width as int, height as int, disk_rows(center_x as int, center_y as int, radius as int, dy + radius), 1, color),
        decreases radius + 1 - dy,
    {
        let ghost rows_done = disk_rows(center_x as int, center_y as int, radius as int, dy + radius);
        let mut dx: i32 = -radius;
        proof {
            assert(disk_row(center_x as int, center_y as int, radius as int, dy as int, 0) =~= Seq::<(int, int)>::empty());
            assert(rows_done + disk_row(center_x as int, center_y as int, radius as int, dy as int, 0) =~= rows_done);
        }
        while dx <= radius
            invariant
                1 <= radius <= 0x1_0000,
                -radius <= dy <= radius,
                -radius <= dx <= radius + 1,
                i32::MIN <= center_x - radius,
                center_x + radius <= width,
                center_x + radius <= i32::MAX,
                i32::MIN <= center_y - radius,
                center_y + radius <= i32::MAX,
                width * height <= before.len(),
                buffer@.len() == before.len(),
                rows_done == disk_rows(center_x as int, center_y as int, radius as int, dy + radius),
                buffer@ == squares_filled(before, width as int, height as int, rows_done + disk_row(center_x as int, center_y as int, radius as int, dy as int, dx + radius), 1, color),
            decreases radius + 1 - dx,
        {
            let ghost cells = rows_done + disk_row(center_x as int, center_y as int, radius as int, dy as int, dx + radius);
            proof {
                assert(0 <= dx * dx <= radius * radius && 0 <= dy * dy <= radius * radius) by (nonlinear_arith)
                    requires
                        -radius <= dx <= radius,
                        -radius <= dy <= radius,
                ;
                assert(radius * radius <= 0x1_0000 * 0x1_0000) by (nonlinear_arith)
                    requires
                        1 <= radius <= 0x1_0000,
                ;
            }
            if dx as i64 * dx as i64 + dy as i64 * dy as i64 <= radius as i64 * radius as i64 {
                proof {
                    lemma_rect_fits(buffer@.len() as int, width as int, height as int, center_x + dx, center_y + dy, 1, 1);
                }
                fill_rect(buffer, width, height, center_x + dx, center_y + dy, 1, 1, color);
                proof {
                    let next = disk_row(center_x as int, center_y as int, radius as int, dy as int, dx + radius + 1);
                    assert(next =~= disk_row(center_x as int, center_y as int, radius as int, dy as int, dx + radius) + seq![(center_x + dx, center_y + dy)]);
                    assert((cells + seq![(center_x + dx, center_y + dy)]).drop_last() =~= cells);
                    assert(rows_done + next =~= cells + seq![(center_x + dx, center_y + dy)]);
                    lemma_squares_filled_len(before, width as int, height as int, rows_done + next, 1, color);
                }
            } else {
                proof {
                    assert(disk_row(center_x as int, center_y as int, radius as int, dy as int, dx + radius + 1)
                        =~= disk_row(center_x as int, center_y as int, radius as int, dy as int, dx + radius));
                }
            }
            dx += 1;
        }
        proof {
            assert(disk_rows(center_x as int, center_y as int, radius as int, dy + radius + 1)
                =~= rows_done + disk_row(center_x as int, center_y as int, radius as int, dy as int, 2 * radius + 1));
        }
        dy += 1;
    }
}

/// The strokes of a toolbar button's icon, in drawing order; `color_value`
/// is the editor color as a canvas pixel and `active_width` the design
/// width of the current stroke-width sample.
pub open spec fn icon_strokes_spec(button: ToolbarButton, color_value: u32, active_width: i32) -> Seq<IconStroke> {
    match button {
        ToolbarButton::Select => seq![
                IconStroke::Line { x0: 3, y0: 12, x1: 21, y1: 12 },
                IconStroke::Line { x0: 12, y0: 3, x1: 12, y1: 21 },
                IconStroke::Line { x0: 3, y0: 12, x1: 7, y1: 8 },
                IconStroke::Line { x0: 3, y0: 12, x1: 7, y1: 16 },
                IconStroke::Line { x0: 21, y0: 12, x1: 17, y1: 8 },
                IconStroke::Line { x0: 21, y0: 12, x1: 17, y1: 16 },
                IconStroke::Line { x0: 12, y0: 3, x1: 8, y1: 7 },
                IconStroke::Line { x0: 12, y0: 3, x1: 16, y1: 7 },
                IconStroke::Line { x0: 12, y0: 21, x1: 8, y1: 17 },
                IconStroke::Line { x0: 12, y0: 21, x1: 16, y1: 17 },
            ],
        ToolbarButton::Pen => seq![
                IconStroke::Line { x0: 4, y0: 20, x1: 6, y1: 15 },
                IconStroke::Line { x0: 6, y0: 15, x1: 16, y1: 5 },
                IconStroke::Line { x0: 16, y0: 5, x1: 20, y1: 9 },
                IconStroke::Line { x0: 20, y0: 9, x1: 10, y1: 19 },
                IconStroke::Line { x0: 10, y0: 19, x1: 4, y1: 20 },
                IconStroke::Line { x0: 14, y0: 7, x1: 18, y1: 11 },
                IconStroke::Line { x0: 6, y0: 15, x1: 10, y1: 19 },
            ],
        ToolbarButton::Highlighter => seq![
                IconStroke::Line { x0: 5, y0: 16, x1: 15, y1: 6 },
                IconStroke::Line { x0: 15, y0: 6, x1: 20, y1: 11 },
                IconStroke::Line { x0: 20, y0: 11, x1: 10, y1: 21 },
                IconStroke::Line { x0: 10, y0: 21, x1: 5, y1: 16 },
                IconStroke::Line { x0: 13, y0: 8, x1: 18, y1: 13 },
                IconStroke::WideLine { x0: 4, y0: 21, x1: 11, y1: 21, design_width: 3 },
            ],
        ToolbarButton::Line => seq![
                IconStroke::Line { x0: 5, y0: 19, x1: 19, y1: 5 },
                IconStroke::Dot { x: 5, y: 19, radius: 1, color: 0x00ff_ffff },
                IconStroke::Dot { x: 19, y: 5, radius: 1, color: 0x00ff_ffff },
            ],
        ToolbarButton::Arrow => seq![
                IconStroke::Line { x0: 5, y0: 19, x1: 19, y1: 5 },
                IconStroke::Line { x0: 12, y0: 5, x1: 19, y1: 5 },
                IconStroke::Line { x0: 19, y0: 5, x1: 19, y1: 12 },
            ],
        ToolbarButton::Rectangle => seq![
                IconStroke::Rect { left: 4, top: 6, right: 20, bottom: 18 },
            ],
        ToolbarButton::Ellipse => seq![
                IconStroke::Ellipse { left: 4, top: 5, right: 20, bottom: 19 },
            ],
        ToolbarButton::Text => seq![
                IconStroke::WideLine { x0: 5, y0: 5, x1: 19, y1: 5, design_width: 3 },
                IconStroke::WideLine { x0: 12, y0: 5, x1: 12, y1: 20, design_width: 3 },
                IconStroke::Line { x0: 8, y0: 20, x1: 16, y1: 20 },
            ],
        ToolbarButton::Callout => seq![
                IconStroke::Line { x0: 4, y0: 5, x1: 20, y1: 5 },
                IconStroke::Line { x0: 20, y0: 5, x1: 20, y1: 16 },
                IconStroke::Line { x0: 20, y0: 16, x1: 12, y1: 16 },
                IconStroke::Line { x0: 12, y0: 16, x1: 7, y1: 20 },
                IconStroke::Line { x0: 7, y0: 20, x1: 8, y1: 16 },
                IconStroke::Line { x0: 8, y0: 16, x1: 4, y1: 16 },
                IconStroke::Line { x0: 4, y0: 16, x1: 4, y1: 5 },
                IconStroke::Dot { x: 8, y: 11, radius: 1, color: 0x00ff_ffff },
                IconStroke::Dot { x: 12, y: 11, radius: 1, color: 0x00ff_ffff },
                IconStroke::Dot { x: 16, y: 11, radius: 1, color: 0x00ff_ffff },
            ],
        ToolbarButton::Redact => seq![
                IconStroke::Line { x0: 3, y0: 12, x1: 6, y1: 8 },
                IconStroke::Line { x0: 6, y0: 8, x1: 10, y1: 6 },
                IconStroke::Line { x0: 10, y0: 6, x1: 14, y1: 6 },
                IconStroke::Line { x0: 14, y0: 6, x1: 18, y1: 8 },
                IconStroke::Line { x0: 18, y0: 8, x1: 21, y1: 12 },
                IconStroke::Line { x0: 21, y0: 12, x1: 18, y1: 16 },
                IconStroke::Line { x0: 18, y0: 16, x1: 14, y1: 18 },
                IconStroke::Line { x0: 14, y0: 18, x1: 10, y1: 18 },
                IconStroke::Line { x0: 10, y0: 18, x1: 6, y1: 16 },
                IconStroke::Line { x0: 6, y0: 16, x1: 3, y1: 12 },
                IconStroke::Ellipse { left: 9, top: 9, right: 15, bottom: 15 },
                IconStroke::WideLine { x0: 4, y0: 4, x1: 20, y1: 20, design_width: 3 },
            ],
        ToolbarButton::Pixelate => seq![
                IconStroke::FillBox { left: 4, top: 4, right: 9, bottom: 9, color: 0x00ff_ffff },
                IconStroke::FillBox { left: 11, top: 4, right: 15, bottom: 8, color: 0x00ff_ffff },
                IconStroke::FillBox { left: 17, top: 5, right: 21, bottom: 10, color: 0x00ff_ffff },
                IconStroke::FillBox { left: 5, top: 11, right: 9, bottom: 15, color: 0x00ff_ffff },
                IconStroke::FillBox { left: 11, top: 10, right: 17, bottom: 16, color: 0x00ff_ffff },
                IconStroke::FillBox { left: 18, top: 12, right: 21, bottom: 16, color: 0x00ff_ffff },
                IconStroke::FillBox { left: 4, top: 18, right: 9, bottom: 21, color: 0x00ff_ffff },
                IconStroke::FillBox { left: 11, top: 18, right: 15, bottom: 21, color: 0x00ff_ffff },
                IconStroke::FillBox { left: 17, top: 18, right: 21, bottom: 21, color: 0x00ff_ffff },
            ],
        ToolbarButton::Eraser => seq![
                IconStroke::Line { x0: 5, y0: 15, x1: 14, y1: 6 },
                IconStroke::Line { x0: 14, y0: 6, x1: 20, y1: 12 },
                IconStroke::Line { x0: 20, y0: 12, x1: 12, y1: 20 },
                IconStroke::Line { x0: 12, y0: 20, x1: 8, y1: 20 },
                IconStroke::Line { x0: 8, y0: 20, x1: 5, y1: 17 },
                IconStroke::Line { x0: 5, y0: 17, x1: 5, y1: 15 },
                IconStroke::Line { x0: 10, y0: 10, x1: 16, y1: 16 },
                IconStroke::Line { x0: 8, y0: 20, x1: 21, y1: 20 },
            ],
        ToolbarButton::Crop => seq![
                IconStroke::Line { x0: 7, y0: 4, x1: 7, y1: 17 },
                IconStroke::Line { x0: 7, y0: 17, x1: 20, y1: 17 },
                IconStroke::Line { x0: 4, y0: 7, x1: 17, y1: 7 },
                IconStroke::Line { x0: 17, y0: 7, x1: 17, y1: 20 },
            ],
        ToolbarButton::Eyedropper => seq![
                IconStroke::Line { x0: 14, y0: 4, x1: 19, y1: 10 },
                IconStroke::Line { x0: 19, y0: 10, x1: 16, y1: 13 },
                IconStroke::Line { x0: 16, y0: 13, x1: 11, y1: 8 },
                IconStroke::Line { x0: 11, y0: 8, x1: 14, y1: 4 },
                IconStroke::Line { x0: 12, y0: 9, x1: 5, y1: 16 },
                IconStroke::Line { x0: 5, y0: 16, x1: 5, y1: 20 },
                IconStroke::Line { x0: 5, y0: 20, x1: 9, y1: 20 },
                IconStroke::Line { x0: 9, y0: 20, x1: 16, y1: 13 },
                IconStroke::Line { x0: 16, y0: 5, x1: 20, y1: 9 },
            ],
        ToolbarButton::Undo => seq![
                IconStroke::Line { x0: 10, y0: 5, x1: 5, y1: 10 },
                IconStroke::Line { x0: 5, y0: 10, x1: 10, y1: 15 },
                IconStroke::Line { x0: 5, y0: 10, x1: 12, y1: 10 },
                IconStroke::Line { x0: 12, y0: 10, x1: 16, y1: 12 },
                IconStroke::Line { x0: 16, y0: 12, x1: 19, y1: 16 },
                IconStroke::Line { x0: 19, y0: 16, x1: 19, y1: 20 },
            ],
        ToolbarButton::Redo => seq![
                IconStroke::Line { x0: 14, y0: 5, x1: 19, y1: 10 },
                IconStroke::Line { x0: 19, y0: 10, x1: 14, y1: 15 },
                IconStroke::Line { x0: 19, y0: 10, x1: 12, y1: 10 },
                IconStroke::Line { x0: 12, y0: 10, x1: 8, y1: 12 },
                IconStroke::Line { x0: 8, y0: 12, x1: 5, y1: 16 },
                IconStroke::Line { x0: 5, y0: 16, x1: 5, y1: 20 },
            ],
        ToolbarButton::Color => seq![
                IconStroke::Rect { left: 4, top: 4, right: 16, bottom: 16 },
                IconStroke::FillBox { left: 9, top: 9, right: 21, bottom: 21, color: color_value },
                IconStroke::Rect { left: 9, top: 9, right: 21, bottom: 21 },
            ],
        ToolbarButton::Width => seq![
                IconStroke::WideLine { x0: 5, y0: 6, x1: 19, y1: 6, design_width: 1 },
                IconStroke::WideLine { x0: 5, y0: 12, x1: 19, y1: 12, design_width: 2 },
                IconStroke::WideLine { x0: 5, y0: 19, x1: 19, y1: 19, design_width: active_width },
            ],
        ToolbarButton::Save => seq![
                IconStroke::Line { x0: 4, y0: 3, x1: 17, y1: 3 },
                IconStroke::Line { x0: 17, y0: 3, x1: 21, y1: 7 },
                IconStroke::Line { x0: 21, y0: 7, x1: 21, y1: 21 },
                IconStroke::Line { x0: 21, y0: 21, x1: 4, y1: 21 },
                IconStroke::Line { x0: 4, y0: 21, x1: 4, y1: 3 },
                IconStroke::Rect { left: 7, top: 3, right: 17, bottom: 9 },
                IconStroke::Rect { left: 7, top: 14, right: 18, bottom: 21 },
                IconStroke::Dot { x: 15, y: 6, radius: 1, color: 0x00ff_ffff },
            ],
        ToolbarButton::Copy => seq![
                IconStroke::Rect { left: 5, top: 4, right: 16, bottom: 17 },
                IconStroke::Rect { left: 8, top: 7, right: 20, bottom: 21 },
            ],
        ToolbarButton::Print => seq![
                IconStroke::Rect { left: 7, top: 3, right: 17, bottom: 9 },
                IconStroke::Rect { left: 4, top: 9, right: 20, bottom: 17 },
                IconStroke::Rect { left: 7, top: 15, right: 17, bottom: 21 },
                IconStroke::Dot { x: 17, y: 12, radius: 1, color: 0x00ff_ffff },
            ],
    }
}

/// The design width of the highlighted stroke-width sample: three more
/// than the width index (the index counts as one where it exceeds `i32`).
pub open spec fn active_width_of(width_index: usize) -> int {
    (if width_index <= i32::MAX {
        width_index as int
    } else {
        1
    }) + 3
}

/// The strokes of a toolbar button's icon, for the editor's current color
/// and stroke width.
pub fn icon_strokes(button: ToolbarButton, color: Color, width_index: usize) -> (strokes: Vec<IconStroke>)
    requires
        active_width_of(width_index) <= i32::MAX,
    ensures
        strokes@ == icon_strokes_spec(
            button,
            ((color.red_spec() as u32) << 16u32) | ((color.green_spec() as u32) << 8u32) | (color.blue_spec() as u32),
            active_width_of(width_index) as i32,
        ),
{
    let color_value = pack(color.red(), color.green(), color.blue());
    let active_width: i32 = (if width_index <= i32::MAX as usize {
        width_index as i32
    } else {
        1
    }) + 3;
    match button {
        ToolbarButton::Select => vec![
                IconStroke::Line { x0: 3, y0: 12, x1: 21, y1: 12 },
                IconStroke::Line { x0: 12, y0: 3, x1: 12, y1: 21 },
                IconStroke::Line { x0: 3, y0: 12, x1: 7, y1: 8 },
                IconStroke::Line { x0: 3, y0: 12, x1: 7, y1: 16 },
                IconStroke::Line { x0: 21, y0: 12, x1: 17, y1: 8 },
                IconStroke::Line { x0: 21, y0: 12, x1: 17, y1: 16 },
                IconStroke::Line { x0: 12, y0: 3, x1: 8, y1: 7 },
                IconStroke::Line { x0: 12, y0: 3, x1: 16, y1: 7 },
                IconStroke::Line { x0: 12, y0: 21, x1: 8, y1: 17 },
                IconStroke::Line { x0: 12, y0: 21, x1: 16, y1: 17 },
            ],
        ToolbarButton::Pen => vec![
                IconStroke::Line { x0: 4, y0: 20, x1: 6, y1: 15 },
                IconStroke::Line { x0: 6, y0: 15, x1: 16, y1: 5 },
                IconStroke::Line { x0: 16, y0: 5, x1: 20, y1: 9 },
                IconStroke::Line { x0: 20, y0: 9, x1: 10, y1: 19 },
                IconStroke::Line { x0: 10, y0: 19, x1: 4, y1: 20 },
                IconStroke::Line { x0: 14, y0: 7, x1: 18, y1: 11 },
                IconStroke::Line { x0: 6, y0: 15, x1: 10, y1: 19 },
            ],
        ToolbarButton::Highlighter => vec![
                IconStroke::Line { x0: 5, y0: 16, x1: 15, y1: 6 },
                IconStroke::Line { x0: 15, y0: 6, x1: 20, y1: 11 },
                IconStroke::Line { x0: 20, y0: 11, x1: 10, y1: 21 },
                IconStroke::Line { x0: 10, y0: 21, x1: 5, y1: 16 },
                IconStroke::Line { x0: 13, y0: 8, x1: 18, y1: 13 },
                IconStroke::WideLine { x0: 4, y0: 21, x1: 11, y1: 21, design_width: 3 },
            ],
        ToolbarButton::Line => vec![
                IconStroke::Line { x0: 5, y0: 19, x1: 19, y1: 5 },
                IconStroke::Dot { x: 5, y: 19, radius: 1, color: 0x00ff_ffff },
                IconStroke::Dot { x: 19, y: 5, radius: 1, color: 0x00ff_ffff },
            ],
        ToolbarButton::Arrow => vec![
                IconStroke::Line { x0: 5, y0: 19, x1: 19, y1: 5 },
                IconStroke::Line { x0: 12, y0: 5, x1: 19, y1: 5 },
                IconStroke::Line { x0: 19, y0: 5, x1: 19, y1: 12 },
            ],
        ToolbarButton::Rectangle => vec![
                IconStroke::Rect { left: 4, top: 6, right: 20, bottom: 18 },
            ],
        ToolbarButton::Ellipse => vec![
                IconStroke::Ellipse { left: 4, top: 5, right: 20, bottom: 19 },
            ],
        ToolbarButton::Text => vec![
                IconStroke::WideLine { x0: 5, y0: 5, x1: 19, y1: 5, design_width: 3 },
                IconStroke::WideLine { x0: 12, y0: 5, x1: 12, y1: 20, design_width: 3 },
                IconStroke::Line { x0: 8, y0: 20, x1: 16, y1: 20 },
            ],
        ToolbarButton::Callout => vec![
                IconStroke::Line { x0: 4, y0: 5, x1: 20, y1: 5 },
                IconStroke::Line { x0: 20, y0: 5, x1: 20, y1: 16 },
                IconStroke::Line { x0: 20, y0: 16, x1: 12, y1: 16 },
                IconStroke::Line { x0: 12, y0: 16, x1: 7, y1: 20 },
                IconStroke::Line { x0: 7, y0: 20, x1: 8, y1: 16 },
                IconStroke::Line { x0: 8, y0: 16, x1: 4, y1: 16 },
                IconStroke::Line { x0: 4, y0: 16, x1: 4, y1: 5 },
                IconStroke::Dot { x: 8, y: 11, radius: 1, color: 0x00ff_ffff },
                IconStroke::Dot { x: 12, y: 11, radius: 1, color: 0x00ff_ffff },
                IconStroke::Dot { x: 16, y: 11, radius: 1, color: 0x00ff_ffff },
            ],
        ToolbarButton::Redact => vec![
                IconStroke::Line { x0: 3, y0: 12, x1: 6, y1: 8 },
                IconStroke::Line { x0: 6, y0: 8, x1: 10, y1: 6 },
                IconStroke::Line { x0: 10, y0: 6, x1: 14, y1: 6 },
                IconStroke::Line { x0: 14, y0: 6, x1: 18, y1: 8 },
                IconStroke::Line { x0: 18, y0: 8, x1: 21, y1: 12 },
                IconStroke::Line { x0: 21, y0: 12, x1: 18, y1: 16 },
                IconStroke::Line { x0: 18, y0: 16, x1: 14, y1: 18 },
                IconStroke::Line { x0: 14, y0: 18, x1: 10, y1: 18 },
                IconStroke::Line { x0: 10, y0: 18, x1: 6, y1: 16 },
                IconStroke::Line { x0: 6, y0: 16, x1: 3, y1: 12 },
                IconStroke::Ellipse { left: 9, top: 9, right: 15, bottom: 15 },
                IconStroke::WideLine { x0: 4, y0: 4, x1: 20, y1: 20, design_width: 3 },
            ],
        ToolbarButton::Pixelate => vec![
                IconStroke::FillBox { left: 4, top: 4, right: 9, bottom: 9, color: 0x00ff_ffff },
                IconStroke::FillBox { left: 11, top: 4, right: 15, bottom: 8, color: 0x00ff_ffff },
                IconStroke::FillBox { left: 17, top: 5, right: 21, bottom: 10, color: 0x00ff_ffff },
                IconStroke::FillBox { left: 5, top: 11, right: 9, bottom: 15, color: 0x00ff_ffff },
                IconStroke::FillBox { left: 11, top: 10, right: 17, bottom: 16, color: 0x00ff_ffff },
                IconStroke::FillBox { left: 18, top: 12, right: 21, bottom: 16, color: 0x00ff_ffff },
                IconStroke::FillBox { left: 4, top: 18, right: 9, bottom: 21, color: 0x00ff_ffff },
                IconStroke::FillBox { left: 11, top: 18, right: 15, bottom: 21, color: 0x00ff_ffff },
                IconStroke::FillBox { left: 17, top: 18, right: 21, bottom: 21, color: 0x00ff_ffff },
            ],
        ToolbarButton::Eraser => vec![
                IconStroke::Line { x0: 5, y0: 15, x1: 14, y1: 6 },
                IconStroke::Line { x0: 14, y0: 6, x1: 20, y1: 12 },
                IconStroke::Line { x0: 20, y0: 12, x1: 12, y1: 20 },
                IconStroke::Line { x0: 12, y0: 20, x1: 8, y1: 20 },
                IconStroke::Line { x0: 8, y0: 20, x1: 5, y1: 17 },
                IconStroke::Line { x0: 5, y0: 17, x1: 5, y1: 15 },
                IconStroke::Line { x0: 10, y0: 10, x1: 16, y1: 16 },
                IconStroke::Line { x0: 8, y0: 20, x1: 21, y1: 20 },
            ],
        ToolbarButton::Crop => vec![
                IconStroke::Line { x0: 7, y0: 4, x1: 7, y1: 17 },
                IconStroke::Line { x0: 7, y0: 17, x1: 20, y1: 17 },
                IconStroke::Line { x0: 4, y0: 7, x1: 17, y1: 7 },
                IconStroke::Line { x0: 17, y0: 7, x1: 17, y1: 20 },
            ],
        ToolbarButton::Eyedropper => vec![
                IconStroke::Line { x0: 14, y0: 4, x1: 19, y1: 10 },
                IconStroke::Line { x0: 19, y0: 10, x1: 16, y1: 13 },
                IconStroke::Line { x0: 16, y0: 13, x1: 11, y1: 8 },
                IconStroke::Line { x0: 11, y0: 8, x1: 14, y1: 4 },
                IconStroke::Line { x0: 12, y0: 9, x1: 5, y1: 16 },
                IconStroke::Line { x0: 5, y0: 16, x1: 5, y1: 20 },
                IconStroke::Line { x0: 5, y0: 20, x1: 9, y1: 20 },
                IconStroke::Line { x0: 9, y0: 20, x1: 16, y1: 13 },
                IconStroke::Line { x0: 16, y0: 5, x1: 20, y1: 9 },
            ],
        ToolbarButton::Undo => vec![
                IconStroke::Line { x0: 10, y0: 5, x1: 5, y1: 10 },
                IconStroke::Line { x0: 5, y0: 10, x1: 10, y1: 15 },
                IconStroke::Line { x0: 5, y0: 10, x1: 12, y1: 10 },
                IconStroke::Line { x0: 12, y0: 10, x1: 16, y1: 12 },
                IconStroke::Line { x0: 16, y0: 12, x1: 19, y1: 16 },
                IconStroke::Line { x0: 19, y0: 16, x1: 19, y1: 20 },
            ],
        ToolbarButton::Redo => vec![
                IconStroke::Line { x0: 14, y0: 5, x1: 19, y1: 10 },
                IconStroke::Line { x0: 19, y0: 10, x1: 14, y1: 15 },
                IconStroke::Line { x0: 19, y0: 10, x1: 12, y1: 10 },
                IconStroke::Line { x0: 12, y0: 10, x1: 8, y1: 12 },
                IconStroke::Line { x0: 8, y0: 12, x1: 5, y1: 16 },
                IconStroke::Line { x0: 5, y0: 16, x1: 5, y1: 20 },
            ],
        ToolbarButton::Color => vec![
                IconStroke::Rect { left: 4, top: 4, right: 16, bottom: 16 },
                IconStroke::FillBox { left: 9, top: 9, right: 21, bottom: 21, color: color_value },
                IconStroke::Rect { left: 9, top: 9, right: 21, bottom: 21 },
            ],
        ToolbarButton::Width => vec![
                IconStroke::WideLine { x0: 5, y0: 6, x1: 19, y1: 6, design_width: 1 },
                IconStroke::WideLine { x0: 5, y0: 12, x1: 19, y1: 12, design_width: 2 },
                IconStroke::WideLine { x0: 5, y0: 19, x1: 19, y1: 19, design_width: active_width },
            ],
        ToolbarButton::Save => vec![
                IconStroke::Line { x0: 4, y0: 3, x1: 17, y1: 3 },
                IconStroke::Line { x0: 17, y0: 3, x1: 21, y1: 7 },
                IconStroke::Line { x0: 21, y0: 7, x1: 21, y1: 21 },
                IconStroke::Line { x0: 21, y0: 21, x1: 4, y1: 21 },
                IconStroke::Line { x0: 4, y0: 21, x1: 4, y1: 3 },
                IconStroke::Rect { left: 7, top: 3, right: 17, bottom: 9 },
                IconStroke::Rect { left: 7, top: 14, right: 18, bottom: 21 },
                IconStroke::Dot { x: 15, y: 6, radius: 1, color: 0x00ff_ffff },
            ],
        ToolbarButton::Copy => vec![
                IconStroke::Rect { left: 5, top: 4, right: 16, bottom: 17 },
                IconStroke::Rect { left: 8, top: 7, right: 20, bottom: 21 },
            ],
        ToolbarButton::Print => vec![
                IconStroke::Rect { left: 7, top: 3, right: 17, bottom: 9 },
                IconStroke::Rect { left: 4, top: 9, right: 20, bottom: 17 },
                IconStroke::Rect { left: 7, top: 15, right: 17, bottom: 21 },
                IconStroke::Dot { x: 17, y: 12, radius: 1, color: 0x00ff_ffff },
            ],
    }
}

/// The canvas after painting icon strokes in order.
pub open spec fn strokes_painted(
    buffer: Seq<u32>,
    width: int,
    height: int,
    frame: IconFrame,
    strokes: Seq<IconStroke>,
) -> Seq<u32>
    decreases strokes.len(),
{
    if strokes.len() == 0 {
        buffer
    } else {
        stroke_painted(
            strokes_painted(buffer, width, height, frame, strokes.drop_last()),
            width,
            height,
            frame,
            strokes.last(),
        )
    }
}

/// The boxes, in button pixels, of the ellipse strokes among `strokes`,
/// in order.
pub open spec fn ellipse_boxes(frame: IconFrame, strokes: Seq<IconStroke>) -> Seq<(int, int, int, int)>
    decreases strokes.len(),
{
    if strokes.len() == 0 {
        Seq::empty()
    } else {
        ellipse_boxes(frame, strokes.drop_last()) + match strokes.last() {
            IconStroke::Ellipse { left, top, right, bottom } => seq![
                (
                    icon_coordinate(frame.origin_x as int, frame.extent as int, left as int),
                    icon_coordinate(frame.origin_y as int, frame.extent as int, top as int),
                    icon_coordinate(frame.origin_x as int, frame.extent as int, right as int),
                    icon_coordinate(frame.origin_y as int, frame.extent as int, bottom as int),
                ),
            ],
            _ => Seq::empty(),
        }
    }
}

/// Boxes as integers.
pub open spec fn box_values(boxes: Seq<(i32, i32, i32, i32)>) -> Seq<(int, int, int, int)> {
    boxes.map_values(|b: (i32, i32, i32, i32)| (b.0 as int, b.1 as int, b.2 as int, b.3 as int))
}

/// Every stroke of every icon can be painted on a frame whose active
/// stroke-width sample fits.
#[verifier::rlimit(60)]
proof fn lemma_icon_strokes_fit(button: ToolbarButton, color_value: u32, active_width: i32, frame: IconFrame)
    requires
        0 <= active_width,
        active_width * frame.extent + 12 <= i32::MAX,
        0 <= frame.extent <= largest_button(),
    ensures
        forall|k: int|
            0 <= k < icon_strokes_spec(button, color_value, active_width).len() ==> stroke_fits(
                frame,
                #[trigger] icon_strokes_spec(button, color_value, active_width)[k],
            ),
{
    assert(3 * frame.extent + 12 <= i32::MAX);
    match button {
        ToolbarButton::Select => {
            let strokes = icon_strokes_spec(button, color_value, active_width);
            assert forall|k: int| 0 <= k < strokes.len() implies stroke_fits(frame, #[trigger] strokes[k]) by {
                assert(strokes[k] == icon_strokes_spec(button, color_value, active_width)[k]);
            }
        },
        ToolbarButton::Pen => {
            let strokes = icon_strokes_spec(button, color_value, active_width);
            assert forall|k: int| 0 <= k < strokes.len() implies stroke_fits(frame, #[trigger] strokes[k]) by {
                assert(strokes[k] == icon_strokes_spec(button, color_value, active_width)[k]);
            }
        },
        ToolbarButton::Highlighter => {
            let strokes = icon_strokes_spec(button, color_value, active_width);
            assert forall|k: int| 0 <= k < strokes.len() implies stroke_fits(frame, #[trigger] strokes[k]) by {
                assert(strokes[k] == icon_strokes_spec(button, color_value, active_width)[k]);
            }
        },
        ToolbarButton::Line => {
            let strokes = icon_strokes_spec(button, color_value, active_width);
            assert forall|k: int| 0 <= k < strokes.len() implies stroke_fits(frame, #[trigger] strokes[k]) by {
                assert(strokes[k] == icon_strokes_spec(button, color_value, active_width)[k]);
            }
        },
        ToolbarButton::Arrow => {
            let strokes = icon_strokes_spec(button, color_value, active_width);
            assert forall|k: int| 0 <= k < strokes.len() implies stroke_fits(frame, #[trigger] strokes[k]) by {
                assert(strokes[k] == icon_strokes_spec(button, color_value, active_width)[k]);
            }
        },
        ToolbarButton::Rectangle => {
            let strokes = icon_strokes_spec(button, color_value, active_width);
            assert forall|k: int| 0 <= k < strokes.len() implies stroke_fits(frame, #[trigger] strokes[k]) by {
                assert(strokes[k] == icon_strokes_spec(button, color_value, active_width)[k]);
            }
        },
        ToolbarButton::Ellipse => {
            let strokes = icon_strokes_spec(button, color_value, active_width);
            assert forall|k: int| 0 <= k < strokes.len() implies stroke_fits(frame, #[trigger] strokes[k]) by {
                assert(strokes[k] == icon_strokes_spec(button, color_value, active_width)[k]);
            }
        },
        ToolbarButton::Text => {
            let strokes = icon_strokes_spec(button, color_value, active_width);
            assert forall|k: int| 0 <= k < strokes.len() implies stroke_fits(frame, #[trigger] strokes[k]) by {
                assert(strokes[k] == icon_strokes_spec(button, color_value, active_width)[k]);
            }
        },
        ToolbarButton::Callout => {
            let strokes = icon_strokes_spec(button, color_value, active_width);
            assert forall|k: int| 0 <= k < strokes.len() implies stroke_fits(frame, #[trigger] strokes[k]) by {
                assert(strokes[k] == icon_strokes_spec(button, color_value, active_width)[k]);
            }
        },
        ToolbarButton::Redact => {
            let strokes = icon_strokes_spec(button, color_value, active_width);
            assert forall|k: int| 0 <= k < strokes.len() implies stroke_fits(frame, #[trigger] strokes[k]) by {
                assert(strokes[k] == icon_strokes_spec(button, color_value, active_width)[k]);
            }
        },
        ToolbarButton::Pixelate => {
            let strokes = icon_strokes_spec(button, color_value, active_width);
            assert forall|k: int| 0 <= k < strokes.len() implies stroke_fits(frame, #[trigger] strokes[k]) by {
                assert(strokes[k] == icon_strokes_spec(button, color_value, active_width)[k]);
            }
        },
        ToolbarButton::Eraser => {
            let strokes = icon_strokes_spec(button, color_value, active_width);
            assert forall|k: int| 0 <= k < strokes.len() implies stroke_fits(frame, #[trigger] strokes[k]) by {
                assert(strokes[k] == icon_strokes_spec(button, color_value, active_width)[k]);
            }
        },
        ToolbarButton::Crop => {
            let strokes = icon_strokes_spec(button, color_value, active_width);
            assert forall|k: int| 0 <= k < strokes.len() implies stroke_fits(frame, #[trigger] strokes[k]) by {
                assert(strokes[k] == icon_strokes_spec(button, color_value, active_width)[k]);
            }
        },
        ToolbarButton::Eyedropper => {
            let strokes = icon_strokes_spec(button, color_value, active_width);
            assert forall|k: int| 0 <= k < strokes.len() implies stroke_fits(frame, #[trigger] strokes[k]) by {
                assert(strokes[k] == icon_strokes_spec(button, color_value, active_width)[k]);
            }
        },
        ToolbarButton::Undo => {
            let strokes = icon_strokes_spec(button, color_value, active_width);
            assert forall|k: int| 0 <= k < strokes.len() implies stroke_fits(frame, #[trigger] strokes[k]) by {
                assert(strokes[k] == icon_strokes_spec(button, color_value, active_width)[k]);
            }
        },
        ToolbarButton::Redo => {
            let strokes = icon_strokes_spec(button, color_value, active_width);
            assert forall|k: int| 0 <= k < strokes.len() implies stroke_fits(frame, #[trigger] strokes[k]) by {
                assert(strokes[k] == icon_strokes_spec(button, color_value, active_width)[k]);
            }
        },
        ToolbarButton::Color => {
            let strokes = icon_strokes_spec(button, color_value, active_width);
            assert forall|k: int| 0 <= k < strokes.len() implies stroke_fits(frame, #[trigger] strokes[k]) by {
                assert(strokes[k] == icon_strokes_spec(button, color_value, active_width)[k]);
            }
        },
        ToolbarButton::Width => {
            let strokes = icon_strokes_spec(button, color_value, active_width);
            assert(strokes.len() == 3);
            assert(2 * frame.extent + 12 <= i32::MAX);
            assert(strokes[0] == IconStroke::WideLine { x0: 5, y0: 6, x1: 19, y1: 6, design_width: 1 });
            assert(1 * frame.extent + 12 <= i32::MAX);
            assert(stroke_fits(frame, strokes[0]));
            assert(stroke_fits(frame, strokes[1]));
            assert(stroke_fits(frame, strokes[2]));
            assert forall|k: int| 0 <= k < strokes.len() implies stroke_fits(frame, #[trigger] strokes[k]) by {
                assert(k == 0 || k == 1 || k == 2);
            }
        },
        ToolbarButton::Save => {
            let strokes = icon_strokes_spec(button, color_value, active_width);
            assert forall|k: int| 0 <= k < strokes.len() implies stroke_fits(frame, #[trigger] strokes[k]) by {
                assert(strokes[k] == icon_strokes_spec(button, color_value, active_width)[k]);
            }
        },
        ToolbarButton::Copy => {
            let strokes = icon_strokes_spec(button, color_value, active_width);
            assert forall|k: int| 0 <= k < strokes.len() implies stroke_fits(frame, #[trigger] strokes[k]) by {
                assert(strokes[k] == icon_strokes_spec(button, color_value, active_width)[k]);
            }
        },
        ToolbarButton::Print => {
            let strokes = icon_strokes_spec(button, color_value, active_width);
            assert forall|k: int| 0 <= k < strokes.len() implies stroke_fits(frame, #[trigger] strokes[k]) by {
                assert(strokes[k] == icon_strokes_spec(button, color_value, active_width)[k]);
            }
        },
    }
}

/// Paints a toolbar button's icon for the editor's current color and
/// stroke width, and returns the boxes of the ellipses that the icon also
/// holds, in button pixels, for the caller to outline.
pub fn draw_toolbar_icon(
    buffer: &mut [u32],
    width: u32,
    height: u32,
    button: ToolbarButton,
    x: i32,
    y: i32,
    size: i32,
    color: Color,
    width_index: usize,
) -> (ellipses: Vec<(i32, i32, i32, i32)>)
    requires
        0 <= size <= largest_button(),
        0 <= x <= 0x3fff_0000,
        0 <= y <= 0x3fff_0000,
        IconFrame::for_button(x as int, y as int, size as int).on_canvas(old(buffer)@.len() as int, width as int, height as int),
        active_width_of(width_index) * IconFrame::for_button(x as int, y as int, size as int).extent + 12 <= i32::MAX,
    ensures
        ({
            let frame = IconFrame::for_button(x as int, y as int, size as int);
            let strokes = icon_strokes_spec(
                button,
                ((color.red_spec() as u32) << 16u32) | ((color.green_spec() as u32) << 8u32) | (color.blue_spec() as u32),
                active_width_of(width_index) as i32,
            );
            &&& final(buffer)@ == strokes_painted(old(buffer)@, width as int, height as int, frame, strokes)
            &&& box_values(ellipses@) == ellipse_boxes(frame, strokes)
        }),
{
    let frame = IconFrame::new(x, y, size);
    proof {
        assert(frame.extent >= 4);
        assert(active_width_of(width_index) <= i32::MAX) by (nonlinear_arith)
            requires
                active_width_of(width_index) * frame.extent + 12 <= i32::MAX,
                frame.extent >= 4,
                active_width_of(width_index) >= 0,
        ;
    }
    let strokes = icon_strokes(button, color, width_index);
    let ghost before = buffer@;
    let ghost all = strokes@;
    proof {
        lemma_icon_strokes_fit(
            button,
            ((color.red_spec() as u32) << 16u32) | ((color.green_spec() as u32) << 8u32) | (color.blue_spec() as u32),
            active_width_of(width_index) as i32,
            frame,
        );
    }
    let mut ellipses: Vec<(i32, i32, i32, i32)> = Vec::new();
    let mut index: usize = 0;
    proof {
        assert(all.take(0) =~= Seq::<IconStroke>::empty());
        assert(box_values(ellipses@) =~= Seq::<(int, int, int, int)>::empty());
    }
    while index < strokes.len()
        invariant
            strokes@ == all,
            index <= all.len(),
            frame.on_canvas(before.len() as int, width as int, height as int),
            forall|k: int| 0 <= k < all.len() ==> stroke_fits(frame, #[trigger] all[k]),
            buffer@.len() == before.len(),
            buffer@ == strokes_painted(before, width as int, height as int, frame, all.take(index as int)),
            box_values(ellipses@) == ellipse_boxes(frame, all.take(index as int)),
        decreases all.len() - index,
    {
        let stroke = strokes[index];
        proof {
            assert(stroke_fits(frame, all[index as int]));
        }
        paint_icon_stroke(buffer, width, height, frame, stroke);
        match stroke {
            IconStroke::Ellipse { left, top, right, bottom } => {
                let (l, t) = frame.point(left, top);
                let (r, b) = frame.point(right, bottom);
                ellipses.push((l, t, r, b));
            },
            _ => {},
        }
        proof {
            assert(all.take(index + 1).drop_last() =~= all.take(index as int));
            assert(all.take(index + 1).last() == stroke);
            assert(box_values(ellipses@) =~= ellipse_boxes(frame, all.take(index + 1)));
            lemma_strokes_painted_len(before, width as int, height as int, frame, all.take(index + 1));
        }
        index += 1;
    }
    proof {
        assert(all.take(all.len() as int) =~= all);
    }
    ellipses
}

proof fn lemma_strokes_painted_len(
    buffer: Seq<u32>,
    width: int,
    height: int,
    frame: IconFrame,
    strokes: Seq<IconStroke>,
)
    ensures
        strokes_painted(buffer, width, height, frame, strokes).len() == buffer.len(),
    decreases strokes.len(),
{
    if strokes.len() > 0 {
        lemma_strokes_painted_len(buffer, width, height, frame, strokes.drop_last());
        let painted = strokes_painted(buffer, width, height, frame, strokes.drop_last());
        match strokes.last() {
            IconStroke::Line { x0, y0, x1, y1 } => {
                lemma_stamped_len(
                    painted,
                    width,
                    height,
                    line_points(
                        icon_coordinate(frame.origin_x as int, frame.extent as int, x0 as int),
                        icon_coordinate(frame.origin_y as int, frame.extent as int, y0 as int),
                        icon_coordinate(frame.origin_x as int, frame.extent as int, x1 as int),
                        icon_coordinate(frame.origin_y as int, frame.extent as int, y1 as int),
                    ),
                    brush_radius(frame.stroke as int),
                    WHITE_PIXEL,
                );
            },
            IconStroke::WideLine { x0, y0, x1, y1, design_width } => {
                lemma_stamped_len(
                    painted,
                    width,
                    height,
                    line_points(
                        icon_coordinate(frame.origin_x as int, frame.extent as int, x0 as int),
                        icon_coordinate(frame.origin_y as int, frame.extent as int, y0 as int),
                        icon_coordinate(frame.origin_x as int, frame.extent as int, x1 as int),
                        icon_coordinate(frame.origin_y as int, frame.extent as int, y1 as int),
                    ),
                    brush_radius(icon_length(frame.extent as int, design_width as int)),
                    WHITE_PIXEL,
                );
            },
            IconStroke::Rect { left, top, right, bottom } => {
                lemma_stamped_len(
                    painted,
                    width,
                    height,
                    outline_points(
                        icon_coordinate(frame.origin_x as int, frame.extent as int, left as int),
                        icon_coordinate(frame.origin_y as int, frame.extent as int, top as int),
                        icon_coordinate(frame.origin_x as int, frame.extent as int, right as int),
                        icon_coordinate(frame.origin_y as int, frame.extent as int, bottom as int),
                    ),
                    brush_radius(frame.stroke as int),
                    WHITE_PIXEL,
                );
            },
            IconStroke::Dot { x, y, radius, color } => {
                lemma_squares_filled_len(
                    painted,
                    width,
                    height,
                    disk_cells(
                        icon_coordinate(frame.origin_x as int, frame.extent as int, x as int),
                        icon_coordinate(frame.origin_y as int, frame.extent as int, y as int),
                        icon_length(frame.extent as int, radius as int),
                    ),
                    1,
                    color,
                );
            },
            _ => {},
        }
    }
}

} // verus!
