//! Rendering of the envelope history to an RGBA pixel buffer.
//!
//! Each envelope pair maps to one pixel column. All magnitudes are
//! normalized by the largest absolute value in the history (or 1 when all
//! values are zero, so nothing divides by zero). A white center baseline
//! row is drawn, then for each column a green vertical segment from the
//! center towards the scaled left value and a red one towards the scaled
//! right value, the red one on top, rows outside the canvas clipped. The
//! output is a pure function of the history and the canvas size.

use vstd::prelude::*;
use crate::pixels::Canvas;
use crate::pixels::canvas_bytes;
use crate::pixels::canvas_dims;
use crate::pixels::canvas_into_bytes;
use crate::pixels::canvas_new;
use crate::pixels::canvas_set;
use crate::pixels::channel_byte;
use crate::reduce::abs_val;

verus! {

/// The background: opaque black.
pub open spec fn background_color() -> (u8, u8, u8, u8) {
    (0, 0, 0, 255)
}

/// The center baseline row: opaque white.
pub open spec fn baseline_color() -> (u8, u8, u8, u8) {
    (255, 255, 255, 255)
}

/// The segment towards the left-channel value: opaque green.
pub open spec fn left_color() -> (u8, u8, u8, u8) {
    (0, 255, 0, 255)
}

/// The segment towards the right-channel value: opaque red.
pub open spec fn right_color() -> (u8, u8, u8, u8) {
    (255, 0, 0, 255)
}

/// The largest absolute value among all pair components of the history.
pub open spec fn max_amp(h: Seq<(i32, i32)>) -> int
    decreases h.len(),
{
    if h.len() == 0 {
        0
    } else {
        let rest = max_amp(h.drop_last());
        let l = abs_val(h.last().0);
        let r = abs_val(h.last().1);
        let m = if l > r {
            l
        } else {
            r
        };
        if m > rest {
            m
        } else {
            rest
        }
    }
}

/// The normalization divisor: the largest magnitude, or 1 when it is 0.
pub open spec fn norm_denom(h: Seq<(i32, i32)>) -> int {
    if max_amp(h) == 0 {
        1
    } else {
        max_amp(h)
    }
}

/// The canvas row a value scales to: the center row displaced by the
/// value's magnitude normalized to the half-height, downwards for
/// non-negative values and upwards for negative ones.
pub open spec fn scaled_row(v: i32, center: int, denom: int) -> int {
    if v >= 0 {
        center + (abs_val(v) * center) / denom
    } else {
        center - (abs_val(v) * center) / denom
    }
}

/// Whether row `y` lies on the vertical segment from the center row
/// (exclusive) to the end row (inclusive).
pub open spec fn on_segment(y: int, center: int, y_end: int) -> bool {
    (center < y && y <= y_end) || (y_end <= y && y < center)
}

/// The color of pixel `(x, y)` when only the first `cols` columns have
/// their segments drawn: red on the right-channel segment, else green on
/// the left-channel segment, else white on the center baseline row, else
/// the background.
pub open spec fn stage_color(h: Seq<(i32, i32)>, height: int, cols: int, x: int, y: int) -> (
    u8,
    u8,
    u8,
    u8,
) {
    let center = height / 2;
    let denom = norm_denom(h);
    if x < cols && x < h.len() && on_segment(y, center, scaled_row(h[x].1, center, denom)) {
        right_color()
    } else if x < cols && x < h.len() && on_segment(y, center, scaled_row(h[x].0, center, denom)) {
        left_color()
    } else if y == center {
        baseline_color()
    } else {
        background_color()
    }
}

/// The color of pixel `(x, y)` of the finished rendering.
pub open spec fn pixel_color(h: Seq<(i32, i32)>, width: int, height: int, x: int, y: int) -> (
    u8,
    u8,
    u8,
    u8,
) {
    stage_color(h, height, width, x, y)
}

/// The offset of channel `k` of pixel `(x, y)` in a row-major RGBA buffer.
pub open spec fn byte_index(width: int, x: int, y: int, k: int) -> int {
    4 * (y * width + x) + k
}

proof fn lemma_cell_distinct(w: int, x1: int, y1: int, x2: int, y2: int)
    by (nonlinear_arith)
    requires
        0 <= x1 < w,
        0 <= x2 < w,
        !(x1 == x2 && y1 == y2),
    ensures
        y1 * w + x1 != y2 * w + x2,
{
}

proof fn lemma_cell_bounds(w: int, h: int, x: int, y: int)
    by (nonlinear_arith)
    requires
        0 <= x < w,
        0 <= y < h,
    ensures
        0 <= y * w + x,
        4 * (y * w + x) + 3 < 4 * w * h,
{
}

proof fn lemma_max_amp_nonneg(h: Seq<(i32, i32)>)
    ensures
        max_amp(h) >= 0,
    decreases h.len(),
{
    if h.len() > 0 {
        lemma_max_amp_nonneg(h.drop_last());
    }
}

/// No component of the history exceeds the largest magnitude.
pub proof fn lemma_max_amp_bound(h: Seq<(i32, i32)>, i: int)
    requires
        0 <= i < h.len(),
    ensures
        abs_val(h[i].0) <= max_amp(h),
        abs_val(h[i].1) <= max_amp(h),
    decreases h.len(),
{
    if i == h.len() - 1 {
        lemma_max_amp_nonneg(h.drop_last());
    } else {
        lemma_max_amp_bound(h.drop_last(), i);
    }
}

proof fn lemma_max_amp_zero(h: Seq<(i32, i32)>)
    requires
        forall|i: int| 0 <= i < h.len() ==> h[i].0 == 0 && h[i].1 == 0,
    ensures
        max_amp(h) == 0,
    decreases h.len(),
{
    if h.len() > 0 {
        assert(forall|i: int|
            0 <= i < h.drop_last().len() ==> h.drop_last()[i].0 == 0 && h.drop_last()[i].1 == 0);
        lemma_max_amp_zero(h.drop_last());
        assert(h.last() == h[h.len() - 1]);
    }
}

/// A scaled row never leaves the band of twice the half-height.
pub proof fn lemma_scaled_row_range(v: i32, center: int, h: Seq<(i32, i32)>)
    requires
        center >= 0,
        abs_val(v) <= max_amp(h),
    ensures
        0 <= scaled_row(v, center, norm_denom(h)),
        scaled_row(v, center, norm_denom(h)) <= 2 * center,
        0 <= (abs_val(v) * center) / norm_denom(h) <= center,
{
    let a = abs_val(v);
    let d = norm_denom(h);
    lemma_max_amp_nonneg(h);
    assert(a <= d);
    vstd::arithmetic::mul::lemma_mul_nonnegative(a, center);
    vstd::arithmetic::div_mod::lemma_div_pos_is_pos(a * center, d);
    vstd::arithmetic::mul::lemma_mul_inequality(a, d, center);
    vstd::arithmetic::div_mod::lemma_div_is_ordered(a * center, d * center, d);
    vstd::arithmetic::div_mod::lemma_div_multiples_vanish(center, d);
}

/// Rendering an all-zero history divides by nothing and yields only the
/// center baseline on the background.
pub proof fn lemma_render_all_zero(h: Seq<(i32, i32)>, width: int, height: int, x: int, y: int)
    requires
        forall|i: int| 0 <= i < h.len() ==> h[i].0 == 0 && h[i].1 == 0,
        0 <= x < width,
        0 <= y < height,
    ensures
        pixel_color(h, width, height, x, y) == (if y == height / 2 {
            baseline_color()
        } else {
            background_color()
        }),
{
    lemma_max_amp_zero(h);
    assert(norm_denom(h) == 1);
    if x < h.len() {
        assert(h[x].0 == 0 && h[x].1 == 0);
        assert(abs_val(0i32) == 0);
        assert(scaled_row(h[x].0, height / 2, 1) == height / 2);
        assert(scaled_row(h[x].1, height / 2, 1) == height / 2);
    }
}

/// The largest absolute value among all pair components of the history.
fn max_amplitude(history: &Vec<(i32, i32)>) -> (m: i64)
    ensures
        m == max_amp(history@),
        m >= 0,
{
    let mut m: i64 = 0;
    let mut i: usize = 0;
    while i < history.len()
        invariant
            i <= history@.len(),
            m == max_amp(history@.subrange(0, i as int)),
            m >= 0,
        decreases history@.len() - i,
    {
        let p = history[i];
        let al: i64 = if p.0 < 0 { -(p.0 as i64) } else { p.0 as i64 };
        let ar: i64 = if p.1 < 0 { -(p.1 as i64) } else { p.1 as i64 };
        proof {
            assert(history@.subrange(0, i + 1).drop_last() =~= history@.subrange(0, i as int));
            assert(history@.subrange(0, i + 1).last() == history@[i as int]);
        }
        if al > m {
            m = al;
        }
        if ar > m {
            m = ar;
        }
        i = i + 1;
    }
    proof {
        assert(history@.subrange(0, history@.len() as int) =~= history@);
    }
    m
}

/// Paint the center baseline row across the canvas.
fn draw_baseline(canvas: &mut Canvas, width: u32, height: u32, center: u32)
    requires
        canvas_dims(*old(canvas)) == (width as int, height as int),
        (center as int) < height as int,
        canvas_bytes(*old(canvas)).len() == 4 * (width as int) * (height as int),
    ensures
        canvas_dims(*final(canvas)) == canvas_dims(*old(canvas)),
        canvas_bytes(*final(canvas)).len() == canvas_bytes(*old(canvas)).len(),
        forall|px: int, py: int, k: int|
            0 <= px < width as int && 0 <= py < height as int && 0 <= k < 4 ==> canvas_bytes(
                *final(canvas),
            )[byte_index(width as int, px, py, k)] == (if py == center as int {
                channel_byte(baseline_color(), k)
            } else {
                canvas_bytes(*old(canvas))[byte_index(width as int, px, py, k)]
            }),
{
    let ghost w = width as int;
    let ghost h = height as int;
    let mut xx: u32 = 0;
    while xx < width
        invariant
            xx <= width,
            w == width as int,
            h == height as int,
            (center as int) < h,
            canvas_dims(*canvas) == (w, h),
            canvas_bytes(*canvas).len() == 4 * w * h,
            canvas_bytes(*old(canvas)).len() == 4 * w * h,
            forall|px: int, py: int, k: int|
                0 <= px < w && 0 <= py < h && 0 <= k < 4 ==> canvas_bytes(
                    *canvas,
                )[byte_index(w, px, py, k)] == (if py == center as int && px < xx as int {
                    channel_byte(baseline_color(), k)
                } else {
                    canvas_bytes(*old(canvas))[byte_index(w, px, py, k)]
                }),
        decreases width as int - xx,
    {
        let ghost before = canvas_bytes(*canvas);
        canvas_set(canvas, xx, center, (255, 255, 255, 255));
        proof {
            let cell = (center as int) * w + (xx as int);
            lemma_cell_bounds(w, h, xx as int, center as int);
            assert forall|px: int, py: int, k: int|
                0 <= px < w && 0 <= py < h && 0 <= k < 4 implies canvas_bytes(
                *canvas,
            )[byte_index(w, px, py, k)] == (if py == center as int && px < xx as int + 1 {
                channel_byte(baseline_color(), k)
            } else {
                canvas_bytes(*old(canvas))[byte_index(w, px, py, k)]
            }) by {
                lemma_cell_bounds(w, h, px, py);
                if !(px == xx as int && py == center as int) {
                    lemma_cell_distinct(w, px, py, xx as int, center as int);
                }
            }
        }
        xx = xx + 1;
    }
}

/// Paint the vertical segment of one column from the center row
/// (exclusive) towards the end row (inclusive), clipped to the canvas.
fn draw_segment(canvas: &mut Canvas, x: u32, width: u32, height: u32, center: u32, y_end: i64, c: (u8, u8, u8, u8))
    requires
        canvas_dims(*old(canvas)) == (width as int, height as int),
        (x as int) < width as int,
        (center as int) < height as int,
        0 <= y_end as int <= 2 * (center as int),
        canvas_bytes(*old(canvas)).len() == 4 * (width as int) * (height as int),
    ensures
        canvas_dims(*final(canvas)) == canvas_dims(*old(canvas)),
        canvas_bytes(*final(canvas)).len() == canvas_bytes(*old(canvas)).len(),
        forall|px: int, py: int, k: int|
            0 <= px < width as int && 0 <= py < height as int && 0 <= k < 4 ==> canvas_bytes(
                *final(canvas),
            )[byte_index(width as int, px, py, k)] == (if px == x as int && on_segment(
                py,
                center as int,
                y_end as int,
            ) {
                channel_byte(c, k)
            } else {
                canvas_bytes(*old(canvas))[byte_index(width as int, px, py, k)]
            }),
{
    let ghost w = width as int;
    let ghost h = height as int;
    if y_end > center as i64 {
        let hi: i64 = if y_end < (height as i64) - 1 {
            y_end
        } else {
            (height as i64) - 1
        };
        let mut yy: i64 = (center as i64) + 1;
        while yy <= hi
            invariant
                (center as i64) < yy,
                w == width as int,
                h == height as int,
                yy <= hi + 1,
                0 <= hi < h,
                hi <= y_end,
                hi == (if (y_end as int) < h - 1 { y_end as int } else { h - 1 }),
                (center as int) < h,
                (x as int) < w,
                canvas_dims(*canvas) == (w, h),
                canvas_bytes(*canvas).len() == 4 * w * h,
                canvas_bytes(*old(canvas)).len() == 4 * w * h,
                forall|px: int, py: int, k: int|
                    0 <= px < w && 0 <= py < h && 0 <= k < 4 ==> canvas_bytes(
                        *canvas,
                    )[byte_index(w, px, py, k)] == (if px == x as int && (center as int) < py
                        < yy as int {
                        channel_byte(c, k)
                    } else {
                        canvas_bytes(*old(canvas))[byte_index(w, px, py, k)]
                    }),
            decreases hi + 1 - yy,
        {
            canvas_set(canvas, x, yy as u32, c);
            proof {
                lemma_cell_bounds(w, h, x as int, yy as int);
                assert forall|px: int, py: int, k: int|
                    0 <= px < w && 0 <= py < h && 0 <= k < 4 implies canvas_bytes(
                    *canvas,
                )[byte_index(w, px, py, k)] == (if px == x as int && (center as int) < py < yy as int
                    + 1 {
                    channel_byte(c, k)
                } else {
                    canvas_bytes(*old(canvas))[byte_index(w, px, py, k)]
                }) by {
                    lemma_cell_bounds(w, h, px, py);
                    if !(px == x as int && py == yy as int) {
                        lemma_cell_distinct(w, px, py, x as int, yy as int);
                    }
                }
            }
            yy = yy + 1;
        }
        proof {
            assert forall|py: int| 0 <= py < h implies (on_segment(py, center as int, y_end as int)
                == ((center as int) < py < yy as int)) by {}
        }
    } else if y_end < center as i64 {
        let mut yy: i64 = y_end;
        while yy < center as i64
            invariant
                y_end <= yy <= center as i64,
                w == width as int,
                h == height as int,
                0 <= y_end,
                (center as int) < h,
                (x as int) < w,
                canvas_dims(*canvas) == (w, h),
                canvas_bytes(*canvas).len() == 4 * w * h,
                canvas_bytes(*old(canvas)).len() == 4 * w * h,
                forall|px: int, py: int, k: int|
                    0 <= px < w && 0 <= py < h && 0 <= k < 4 ==> canvas_bytes(
                        *canvas,
                    )[byte_index(w, px, py, k)] == (if px == x as int && y_end as int <= py
                        < yy as int {
                        channel_byte(c, k)
                    } else {
                        canvas_bytes(*old(canvas))[byte_index(w, px, py, k)]
                    }),
            decreases center as i64 - yy,
        {
            canvas_set(canvas, x, yy as u32, c);
            proof {
                lemma_cell_bounds(w, h, x as int, yy as int);
                assert forall|px: int, py: int, k: int|
                    0 <= px < w && 0 <= py < h && 0 <= k < 4 implies canvas_bytes(
                    *canvas,
                )[byte_index(w, px, py, k)] == (if px == x as int && y_end as int <= py < yy as int
                    + 1 {
                    channel_byte(c, k)
                } else {
                    canvas_bytes(*old(canvas))[byte_index(w, px, py, k)]
                }) by {
                    lemma_cell_bounds(w, h, px, py);
                    if !(px == x as int && py == yy as int) {
                        lemma_cell_distinct(w, px, py, x as int, yy as int);
                    }
                }
            }
            yy = yy + 1;
        }
    }
}

/// Render the envelope history onto a width-by-height RGBA canvas.
///
/// The result holds exactly `4 * width * height` bytes, row-major, four
/// bytes red, green, blue, alpha per pixel, and every pixel has the color
/// [`pixel_color`] assigns it: background black, a white baseline row at
/// half height, and per column (one per envelope pair, left to right,
/// stopping at the canvas edge) a green segment from the center towards
/// the normalized left value and a red segment towards the normalized
/// right value, red drawn over green, out-of-canvas rows clipped.
pub fn render_plot(history: &Vec<(i32, i32)>, width: u32, height: u32) -> (r: Vec<u8>)
    requires
        4 * (width as int) * (height as int) <= usize::MAX as int,
    ensures
        r@.len() == 4 * (width as int) * (height as int),
        forall|x: int, y: int, k: int|
            0 <= x < width as int && 0 <= y < height as int && 0 <= k < 4 ==> r@[byte_index(
                width as int,
                x,
                y,
                k,
            )] == channel_byte(pixel_color(history@, width as int, height as int, x, y), k),
{
    let ghost w = width as int;
    let ghost h = height as int;
    let ghost hist = history@;
    let am: i64 = max_amplitude(history);
    let denom: i64 = if am == 0 {
        1
    } else {
        am
    };
    proof {
        assert(denom as int == norm_denom(hist));
    }
    let mut canvas = canvas_new(width, height, (0, 0, 0, 255));
    proof {
        assert forall|px: int, py: int, k: int|
            0 <= px < w && 0 <= py < h && 0 <= k < 4 implies canvas_bytes(
            canvas,
        )[byte_index(w, px, py, k)] == channel_byte(background_color(), k) by {
            lemma_cell_bounds(w, h, px, py);
            let cell = py * w + px;
            vstd::arithmetic::div_mod::lemma_mod_multiples_vanish(cell, k, 4);
        }
    }
    if height > 0 {
        let center: u32 = height / 2;
        draw_baseline(&mut canvas, width, height, center);
        let len = history.len();
        let cols: usize = if len < width as usize {
            len
        } else {
            width as usize
        };
        let mut xi: usize = 0;
        proof {
            assert forall|px: int, py: int, k: int|
                0 <= px < w && 0 <= py < h && 0 <= k < 4 implies canvas_bytes(
                canvas,
            )[byte_index(w, px, py, k)] == channel_byte(stage_color(hist, h, 0, px, py), k) by {}
        }
        while xi < cols
            invariant
                xi <= cols,
                w == width as int,
                h == height as int,
                cols <= hist.len(),
                cols <= w,
                cols == (if hist.len() < w { hist.len() as int } else { w }),
                am == max_amp(hist),
                am >= 0,
                denom as int == norm_denom(hist),
                center as int == h / 2,
                h >= 1,
                (center as int) < h,
                hist == history@,
                canvas_dims(canvas) == (w, h),
                canvas_bytes(canvas).len() == 4 * w * h,
                forall|px: int, py: int, k: int|
                    0 <= px < w && 0 <= py < h && 0 <= k < 4 ==> canvas_bytes(
                        canvas,
                    )[byte_index(w, px, py, k)] == channel_byte(
                        stage_color(hist, h, xi as int, px, py),
                        k,
                    ),
            decreases cols - xi,
        {
            let p = history[xi];
            proof {
                lemma_max_amp_bound(hist, xi as int);
                lemma_scaled_row_range(p.0, center as int, hist);
                lemma_scaled_row_range(p.1, center as int, hist);
            }
            let al: u64 = if p.0 < 0 {
                (-(p.0 as i64)) as u64
            } else {
                p.0 as u64
            };
            proof {
                vstd::arithmetic::mul::lemma_mul_upper_bound(
                    al as int,
                    0x8000_0000,
                    center as int,
                    0xFFFF_FFFF,
                );
            }
            let offl: u64 = al * (center as u64) / (denom as u64);
            let yl: i64 = if p.0 >= 0 {
                center as i64 + offl as i64
            } else {
                center as i64 - offl as i64
            };
            let ar: u64 = if p.1 < 0 {
                (-(p.1 as i64)) as u64
            } else {
                p.1 as u64
            };
            proof {
                vstd::arithmetic::mul::lemma_mul_upper_bound(
                    ar as int,
                    0x8000_0000,
                    center as int,
                    0xFFFF_FFFF,
                );
            }
            let offr: u64 = ar * (center as u64) / (denom as u64);
            let yr: i64 = if p.1 >= 0 {
                center as i64 + offr as i64
            } else {
                center as i64 - offr as i64
            };
            proof {
                assert(yl as int == scaled_row(p.0, center as int, norm_denom(hist)));
                assert(yr as int == scaled_row(p.1, center as int, norm_denom(hist)));
            }
            let ghost before_col = canvas_bytes(canvas);
            draw_segment(&mut canvas, xi as u32, width, height, center, yl, (0, 255, 0, 255));
            let ghost after_green = canvas_bytes(canvas);
            draw_segment(&mut canvas, xi as u32, width, height, center, yr, (255, 0, 0, 255));
            proof {
                assert forall|px: int, py: int, k: int|
                    0 <= px < w && 0 <= py < h && 0 <= k < 4 implies canvas_bytes(
                    canvas,
                )[byte_index(w, px, py, k)] == channel_byte(
                    stage_color(hist, h, xi as int + 1, px, py),
                    k,
                ) by {}
            }
            xi = xi + 1;
        }
        proof {
            assert forall|px: int, py: int, k: int|
                0 <= px < w && 0 <= py < h && 0 <= k < 4 implies canvas_bytes(
                canvas,
            )[byte_index(w, px, py, k)] == channel_byte(pixel_color(hist, w, h, px, py), k) by {}
        }
    }
    canvas_into_bytes(canvas)
}

} // verus!
