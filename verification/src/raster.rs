//! Colors and the pixel-writing primitives of raster mode.
//!
//! A canvas of `canvas_width * canvas_height` pixels is a byte buffer with
//! four bytes per pixel (red, green, blue, alpha), row after row from the top.
//! Every primitive paints the pixels of a shape that lie on the canvas and
//! leaves every other byte of the buffer as it was.

use vstd::prelude::*;
use crate::utils::{lemma_lerp_bounds, lerp, lerp_value, UNIT};

verus! {

/// A color with an alpha channel.
#[derive(Debug, Clone, Copy, PartialEq, Eq, Structural)]
pub struct Color {
    pub r: u8,
    pub g: u8,
    pub b: u8,
    pub a: u8,
}

impl Color {
    /// The color with the given channels.
    pub fn new(r: u8, g: u8, b: u8, a: u8) -> (c: Color)
        ensures
            c == (Color { r, g, b, a }),
    {
        Color { r, g, b, a }
    }

    /// The channel that is stored at byte `c` of a pixel.
    pub open spec fn channel(self, c: int) -> u8 {
        if c == 0 {
            self.r
        } else if c == 1 {
            self.g
        } else if c == 2 {
            self.b
        } else {
            self.a
        }
    }

    /// The color that lies the fraction `t / UNIT` of the way from `self` to
    /// `other`, channel by channel.
    pub open spec fn blend(self, other: Color, t: int) -> Color {
        Color {
            r: lerp_value(self.r as int, other.r as int, t) as u8,
            g: lerp_value(self.g as int, other.g as int, t) as u8,
            b: lerp_value(self.b as int, other.b as int, t) as u8,
            a: lerp_value(self.a as int, other.a as int, t) as u8,
        }
    }

    /// Blends `self` towards `other` by the fixed-point fraction `t`.
    pub fn lerp(&self, other: &Color, t: u32) -> (c: Color)
        requires
            t <= UNIT,
        ensures
            c == self.blend(*other, t as int),
    {
        proof {
            lemma_lerp_bounds(self.r as int, other.r as int, t as int);
            lemma_lerp_bounds(self.g as int, other.g as int, t as int);
            lemma_lerp_bounds(self.b as int, other.b as int, t as int);
            lemma_lerp_bounds(self.a as int, other.a as int, t as int);
        }
        Color {
            r: lerp(self.r as u32, other.r as u32, t) as u8,
            g: lerp(self.g as u32, other.g as u32, t) as u8,
            b: lerp(self.b as u32, other.b as u32, t) as u8,
            a: lerp(self.a as u32, other.a as u32, t) as u8,
        }
    }
}

/// Whether a buffer has room for a canvas of the given size.
pub open spec fn canvas_fits(pixels: Seq<u8>, canvas_width: int, canvas_height: int) -> bool {
    canvas_width * canvas_height * 4 <= pixels.len()
}

/// The column of the pixel that byte `i` of a buffer belongs to.
pub open spec fn column_of(i: int, canvas_width: int) -> int {
    (i / 4) % canvas_width
}

/// The row of the pixel that byte `i` of a buffer belongs to.
pub open spec fn row_of(i: int, canvas_width: int) -> int {
    (i / 4) / canvas_width
}

/// The buffer in which every pixel `(px, py)` that `cover` holds of shows
/// `color`, and every other byte is that of `pixels`.
pub open spec fn paint(
    pixels: Seq<u8>,
    canvas_width: int,
    cover: spec_fn(int, int) -> bool,
    color: Color,
) -> Seq<u8> {
    Seq::new(
        pixels.len(),
        |i: int|
            if canvas_width > 0 && cover(column_of(i, canvas_width), row_of(i, canvas_width)) {
                color.channel(i % 4)
            } else {
                pixels[i]
            },
    )
}

/// Whether pixel `(px, py)` lies in the rectangle with the corner `(x, y)`
/// and the given size, clipped to the first `canvas_height` rows.
pub open spec fn rect_covers(
    px: int,
    py: int,
    canvas_height: int,
    x: int,
    y: int,
    width: int,
    height: int,
) -> bool {
    py < canvas_height && x <= px < x + width && y <= py < y + height
}

/// Whether pixel `(px, py)` lies in the disc around `(x, y)`: within the
/// radius of the centre, inside the box that spans from `radius` before the
/// centre to just before `radius` after it, and in the first `canvas_height`
/// rows.
pub open spec fn circle_covers(
    px: int,
    py: int,
    canvas_height: int,
    x: int,
    y: int,
    radius: int,
) -> bool {
    py < canvas_height && x - radius <= px < x + radius && y - radius <= py < y + radius && (x
        - px) * (x - px) + (y - py) * (y - py) <= radius * radius
}

/// The buffer after a rectangle was filled.
pub open spec fn fill_rect(
    pixels: Seq<u8>,
    canvas_width: int,
    canvas_height: int,
    x: int,
    y: int,
    width: int,
    height: int,
    color: Color,
) -> Seq<u8> {
    paint(
        pixels,
        canvas_width,
        |px: int, py: int| rect_covers(px, py, canvas_height, x, y, width, height),
        color,
    )
}

/// The buffer after a disc was filled.
pub open spec fn fill_circle(
    pixels: Seq<u8>,
    canvas_width: int,
    canvas_height: int,
    x: int,
    y: int,
    radius: int,
    color: Color,
) -> Seq<u8> {
    paint(
        pixels,
        canvas_width,
        |px: int, py: int| circle_covers(px, py, canvas_height, x, y, radius),
        color,
    )
}

/// The buffer after the whole canvas was filled.
pub open spec fn fill_canvas(
    pixels: Seq<u8>,
    canvas_width: int,
    canvas_height: int,
    color: Color,
) -> Seq<u8> {
    paint(pixels, canvas_width, |px: int, py: int| py < canvas_height, color)
}

/// The bytes of pixel `(px, py)` are the four from `(py * width + px) * 4`
/// on, and no other byte belongs to it.
proof fn lemma_pixel_bytes(i: int, canvas_width: int, px: int, py: int)
    requires
        canvas_width > 0,
        0 <= px < canvas_width,
        0 <= py,
        0 <= i,
    ensures
        ((i / 4) % canvas_width == px && (i / 4) / canvas_width == py) <==> (py * canvas_width
            + px) * 4 <= i < (py * canvas_width + px) * 4 + 4,
{
    let p = i / 4;
    vstd::arithmetic::div_mod::lemma_fundamental_div_mod(p, canvas_width);
    if (py * canvas_width + px) * 4 <= i < (py * canvas_width + px) * 4 + 4 {
        assert(p == py * canvas_width + px);
        assert(p == canvas_width * py + px) by (nonlinear_arith)
            requires
                p == py * canvas_width + px,
        ;
        vstd::arithmetic::div_mod::lemma_fundamental_div_mod_converse(p, canvas_width, py, px);
    }
    if p % canvas_width == px && p / canvas_width == py {
        assert(p == py * canvas_width + px) by (nonlinear_arith)
            requires
                p == canvas_width * (p / canvas_width) + p % canvas_width,
                p % canvas_width == px,
                p / canvas_width == py,
        ;
    }
}

/// Pixel `(px, py)` of a canvas lies inside a buffer that has room for the
/// canvas.
proof fn lemma_pixel_in_canvas(canvas_width: int, canvas_height: int, px: int, py: int)
    requires
        0 <= px < canvas_width,
        0 <= py < canvas_height,
    ensures
        0 <= py * canvas_width + px,
        (py * canvas_width + px) * 4 + 4 <= canvas_width * canvas_height * 4,
{
    assert(py * canvas_width + px >= 0 && (py + 1) * canvas_width <= canvas_height * canvas_width
        && (py + 1) * canvas_width == py * canvas_width + canvas_width && canvas_height
        * canvas_width == canvas_width * canvas_height) by (nonlinear_arith)
        requires
            0 <= px < canvas_width,
            0 <= py < canvas_height,
    ;
}

/// Every byte of a buffer lies in a column of the canvas and in a row from
/// zero on.
proof fn lemma_columns_on_canvas(len: int, canvas_width: int)
    requires
        canvas_width > 0,
    ensures
        forall|i: int| 0 <= i < len ==> 0 <= #[trigger] column_of(i, canvas_width) < canvas_width,
        forall|i: int| 0 <= i < len ==> 0 <= #[trigger] row_of(i, canvas_width),
{
    assert forall|i: int| 0 <= i < len implies 0 <= #[trigger] column_of(i, canvas_width)
        < canvas_width by {
        vstd::arithmetic::div_mod::lemma_mod_pos_bound(i / 4, canvas_width);
    }
    assert forall|i: int| 0 <= i < len implies 0 <= #[trigger] row_of(i, canvas_width) by {
        vstd::arithmetic::div_mod::lemma_div_pos_is_pos(i / 4, canvas_width);
    }
}

/// Writes one pixel.
fn set_pixel(
    pixels: &mut Vec<u8>,
    canvas_width: u32,
    Ghost(canvas_height): Ghost<int>,
    px: u32,
    py: u32,
    color: &Color,
)
    requires
        canvas_fits(old(pixels)@, canvas_width as int, canvas_height),
        px < canvas_width,
        py < canvas_height,
    ensures
        final(pixels)@ == paint(
            old(pixels)@,
            canvas_width as int,
            |x: int, y: int| x == px && y == py,
            *color,
        ),
{
    let len = pixels.len();
    proof {
        lemma_pixel_in_canvas(canvas_width as int, canvas_height, px as int, py as int);
    }
    let i: usize = (py as usize * canvas_width as usize + px as usize) * 4;
    pixels[i] = color.r;
    pixels[i + 1] = color.g;
    pixels[i + 2] = color.b;
    pixels[i + 3] = color.a;
    proof {
        let target = paint(
            old(pixels)@,
            canvas_width as int,
            |x: int, y: int| x == px && y == py,
            *color,
        );
        assert forall|j: int| 0 <= j < pixels@.len() implies pixels@[j] == target[j] by {
            lemma_pixel_bytes(j, canvas_width as int, px as int, py as int);
        }
        assert(pixels@ =~= target);
    }
}

/// Fills the rectangle with the upper left corner `(x, y)` and the given
/// size, clipped to the canvas. All four channels of a covered pixel are
/// overwritten.
pub fn draw_rect(
    pixels: &mut Vec<u8>,
    canvas_width: u32,
    canvas_height: u32,
    x: u32,
    y: u32,
    width: u32,
    height: u32,
    color: &Color,
)
    requires
        canvas_fits(old(pixels)@, canvas_width as int, canvas_height as int),
    ensures
        final(pixels)@ == fill_rect(
            old(pixels)@,
            canvas_width as int,
            canvas_height as int,
            x as int,
            y as int,
            width as int,
            height as int,
            *color,
        ),
{
    let x_end: u64 = if x as u64 + width as u64 > canvas_width as u64 {
        canvas_width as u64
    } else {
        x as u64 + width as u64
    };
    let y_end: u64 = if y as u64 + height as u64 > canvas_height as u64 {
        canvas_height as u64
    } else {
        y as u64 + height as u64
    };
    let ghost before = pixels@;
    let ghost w = canvas_width as int;
    let ghost h = canvas_height as int;
    let mut curr_y: u64 = y as u64;
    assert(pixels@ =~= paint(
        before,
        w,
        |px: int, py: int| rect_covers(px, py, h, x as int, y as int, width as int, 0),
        *color,
    ));
    while curr_y < y_end
        invariant
            y <= curr_y,
            curr_y <= y_end || curr_y == y,
            y_end <= canvas_height,
            x_end <= canvas_width,
            x_end == x + width || (x_end == canvas_width && x_end < x + width),
            w == canvas_width,
            h == canvas_height,
            canvas_fits(before, w, h),
            pixels@ == paint(
                before,
                w,
                |px: int, py: int| rect_covers(px, py, h, x as int, y as int, width as int, curr_y - y),
                *color,
            ),
        decreases y_end - curr_y,
    {
        let mut curr_x: u64 = x as u64;
        let ghost rows = pixels@;
        assert(pixels@ =~= paint(
            rows,
            w,
            |px: int, py: int| py == curr_y && x <= px < curr_x,
            *color,
        ));
        while curr_x < x_end
            invariant
                x <= curr_x,
                curr_x <= x_end || curr_x == x,
                x_end <= canvas_width,
                curr_y < y_end,
                y_end <= canvas_height,
                w == canvas_width,
                h == canvas_height,
                rows.len() == before.len(),
                canvas_fits(before, w, h),
                pixels@ == paint(
                    rows,
                    w,
                    |px: int, py: int| py == curr_y && x <= px < curr_x,
                    *color,
                ),
            decreases x_end - curr_x,
        {
            set_pixel(pixels, canvas_width, Ghost(h), curr_x as u32, curr_y as u32, color);
            curr_x += 1;
            assert(pixels@ =~= paint(
                rows,
                w,
                |px: int, py: int| py == curr_y && x <= px < curr_x,
                *color,
            ));
        }
        curr_y += 1;
        proof {
            if w > 0 {
                lemma_columns_on_canvas(before.len() as int, w);
            }
            let target = paint(
                before,
                w,
                |px: int, py: int| rect_covers(px, py, h, x as int, y as int, width as int, curr_y - y),
                *color,
            );
            assert forall|i: int| 0 <= i < before.len() implies pixels@[i] == target[i] by {
                if w > 0 {
                    assert(0 <= column_of(i, w) < w);
                }
            }
            assert(pixels@ =~= target);
        }
    }
    proof {
        if w > 0 {
            lemma_columns_on_canvas(before.len() as int, w);
        }
        let target = fill_rect(before, w, h, x as int, y as int, width as int, height as int, *color);
        assert forall|i: int| 0 <= i < before.len() implies pixels@[i] == target[i] by {
            if w > 0 {
                assert(0 <= column_of(i, w) < w);
            }
        }
        assert(pixels@ =~= target);
    }
}

/// Fills the disc around `(x, y)`, clipped to the canvas: every pixel whose
/// squared distance from the centre is at most the squared radius, within
/// the box from `radius` before the centre to just before `radius` after it.
pub fn draw_circle(
    pixels: &mut Vec<u8>,
    canvas_width: u32,
    canvas_height: u32,
    x: u32,
    y: u32,
    radius: u32,
    color: &Color,
)
    requires
        canvas_fits(old(pixels)@, canvas_width as int, canvas_height as int),
    ensures
        final(pixels)@ == fill_circle(
            old(pixels)@,
            canvas_width as int,
            canvas_height as int,
            x as int,
            y as int,
            radius as int,
            *color,
        ),
{
    let start_x: u64 = if x >= radius { (x - radius) as u64 } else { 0 };
    let end_x: u64 = if x as u64 + radius as u64 > canvas_width as u64 {
        canvas_width as u64
    } else {
        x as u64 + radius as u64
    };
    let start_y: u64 = if y >= radius { (y - radius) as u64 } else { 0 };
    let end_y: u64 = if y as u64 + radius as u64 > canvas_height as u64 {
        canvas_height as u64
    } else {
        y as u64 + radius as u64
    };
    assert(radius * radius <= 0x1_0000_0000_0000_0000int) by (nonlinear_arith)
        requires
            radius <= 0x1_0000_0000int,
    ;
    let reach: i128 = radius as i128 * radius as i128;
    let ghost before = pixels@;
    let ghost w = canvas_width as int;
    let ghost h = canvas_height as int;
    let ghost r = radius as int;
    let mut curr_y: u64 = start_y;
    proof {
        if w > 0 {
            lemma_columns_on_canvas(before.len() as int, w);
        }
        assert(pixels@ =~= paint(
            before,
            w,
            |px: int, py: int| py < curr_y && circle_covers(px, py, h, x as int, y as int, r),
            *color,
        ));
    }
    while curr_y < end_y
        invariant
            start_y <= curr_y,
            curr_y <= end_y || curr_y == start_y,
            end_y <= canvas_height,
            end_y <= y + radius,
            y - radius <= start_y,
            start_x == x - radius || (start_x == 0 && x < radius),
            end_x == x + radius || (end_x == canvas_width && end_x < x + radius),
            end_x <= canvas_width,
            w == canvas_width,
            h == canvas_height,
            r == radius,
            reach == r * r,
            canvas_fits(before, w, h),
            pixels@ == paint(
                before,
                w,
                |px: int, py: int| py < curr_y && circle_covers(px, py, h, x as int, y as int, r),
                *color,
            ),
        decreases end_y - curr_y,
    {
        let mut curr_x: u64 = start_x;
        let ghost rows = pixels@;
        proof {
            if w > 0 {
                lemma_columns_on_canvas(rows.len() as int, w);
            }
            assert(pixels@ =~= paint(
                rows,
                w,
                |px: int, py: int|
                    py == curr_y && px < curr_x && circle_covers(px, py, h, x as int, y as int, r),
                *color,
            ));
        }
        while curr_x < end_x
            invariant
                start_x <= curr_x,
                curr_x <= end_x || curr_x == start_x,
                end_x <= canvas_width,
                end_x <= x + radius,
                x - radius <= start_x,
                start_y <= curr_y < end_y,
                end_y <= canvas_height,
                end_y <= y + radius,
                y - radius <= start_y,
                w == canvas_width,
                h == canvas_height,
                r == radius,
                reach == r * r,
                rows.len() == before.len(),
                canvas_fits(before, w, h),
                pixels@ == paint(
                    rows,
                    w,
                    |px: int, py: int|
                        py == curr_y && px < curr_x && circle_covers(
                            px,
                            py,
                            h,
                            x as int,
                            y as int,
                            r,
                        ),
                    *color,
                ),
            decreases end_x - curr_x,
        {
            let x_dist: i128 = x as i128 - curr_x as i128;
            let y_dist: i128 = y as i128 - curr_y as i128;
            assert(0 <= x_dist * x_dist <= 0x1_0000_0000_0000_0000int && 0 <= y_dist * y_dist
                <= 0x1_0000_0000_0000_0000int) by (nonlinear_arith)
                requires
                    -0x1_0000_0000int <= x_dist <= 0x1_0000_0000int,
                    -0x1_0000_0000int <= y_dist <= 0x1_0000_0000int,
            ;
            if x_dist * x_dist + y_dist * y_dist <= reach {
                set_pixel(pixels, canvas_width, Ghost(h), curr_x as u32, curr_y as u32, color);
            }
            curr_x += 1;
            assert(pixels@ =~= paint(
                rows,
                w,
                |px: int, py: int|
                    py == curr_y && px < curr_x && circle_covers(px, py, h, x as int, y as int, r),
                *color,
            ));
        }
        curr_y += 1;
        proof {
            let target = paint(
                before,
                w,
                |px: int, py: int| py < curr_y && circle_covers(px, py, h, x as int, y as int, r),
                *color,
            );
            assert forall|i: int| 0 <= i < before.len() implies pixels@[i] == target[i] by {
                if w > 0 {
                    assert(0 <= column_of(i, w) < w);
                    assert(0 <= row_of(i, w));
                }
            }
            assert(pixels@ =~= target);
        }
    }
    proof {
        let target = fill_circle(before, w, h, x as int, y as int, r, *color);
        assert forall|i: int| 0 <= i < before.len() implies pixels@[i] == target[i] by {
            if w > 0 {
                assert(0 <= column_of(i, w) < w);
                assert(0 <= row_of(i, w));
            }
        }
        assert(pixels@ =~= target);
    }
}

/// Fills the whole canvas with one color.
pub fn clear_background(
    pixels: &mut Vec<u8>,
    canvas_width: u32,
    canvas_height: u32,
    color: &Color,
)
    requires
        canvas_fits(old(pixels)@, canvas_width as int, canvas_height as int),
    ensures
        final(pixels)@ == fill_canvas(
            old(pixels)@,
            canvas_width as int,
            canvas_height as int,
            *color,
        ),
{
    let ghost before = pixels@;
    let ghost w = canvas_width as int;
    let ghost h = canvas_height as int;
    let mut y: u32 = 0;
    proof {
        if w > 0 {
            lemma_columns_on_canvas(before.len() as int, w);
        }
        assert(pixels@ =~= paint(before, w, |px: int, py: int| py < y, *color));
    }
    while y < canvas_height
        invariant
            y <= canvas_height,
            w == canvas_width,
            h == canvas_height,
            canvas_fits(before, w, h),
            pixels@ == paint(before, w, |px: int, py: int| py < y, *color),
        decreases canvas_height - y,
    {
        let mut x: u32 = 0;
        let ghost rows = pixels@;
        proof {
            if w > 0 {
                lemma_columns_on_canvas(rows.len() as int, w);
            }
            assert(pixels@ =~= paint(rows, w, |px: int, py: int| py == y && px < x, *color));
        }
        while x < canvas_width
            invariant
                x <= canvas_width,
                y < canvas_height,
                w == canvas_width,
                h == canvas_height,
                rows.len() == before.len(),
                canvas_fits(before, w, h),
                pixels@ == paint(rows, w, |px: int, py: int| py == y && px < x, *color),
            decreases canvas_width - x,
        {
            set_pixel(pixels, canvas_width, Ghost(h), x, y, color);
            x += 1;
            assert(pixels@ =~= paint(rows, w, |px: int, py: int| py == y && px < x, *color));
        }
        y += 1;
        proof {
            let target = paint(before, w, |px: int, py: int| py < y, *color);
            assert forall|i: int| 0 <= i < before.len() implies pixels@[i] == target[i] by {
                if w > 0 {
                    assert(0 <= column_of(i, w) < w);
                }
            }
            assert(pixels@ =~= target);
        }
    }
    assert(pixels@ =~= fill_canvas(before, w, h, *color));
}

} // verus!
