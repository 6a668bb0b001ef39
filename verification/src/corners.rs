//! Corner rounding: overwrite, in place, the pixels of the four corner
//! squares that fall outside an inscribed quarter circle with a fill
//! color, so the frame appears to have rounded corners.

use vstd::prelude::*;
use crate::buffer::{CHANNELS, Color, Error, PixelBuffer};

verus! {

/// The radius fits the buffer: `2 * radius` is at most both dimensions, so
/// the four corner squares stay inside the buffer and opposite squares do
/// not overlap.
pub open spec fn radius_fits(buf: PixelBuffer, radius: int) -> bool {
    0 <= radius && 2 * radius <= buf.width && 2 * radius <= buf.height
}

/// `(x, y)` lies in one of the four `radius`-by-`radius` corner squares of
/// the buffer.
pub open spec fn in_corner_square(buf: PixelBuffer, radius: int, x: int, y: int) -> bool {
    (x < radius || x >= buf.width - radius) && (y < radius || y >= buf.height - radius)
}

/// Horizontal coordinate of the interior reference point of the corner
/// square that contains column `x`: one radius inward from the buffer's
/// nearer vertical edge.
pub open spec fn ref_x(buf: PixelBuffer, radius: int, x: int) -> int {
    if x < radius {
        radius
    } else {
        buf.width - radius
    }
}

/// Vertical coordinate of the interior reference point of the corner
/// square that contains row `y`: one radius inward from the buffer's
/// nearer horizontal edge.
pub open spec fn ref_y(buf: PixelBuffer, radius: int, y: int) -> int {
    if y < radius {
        radius
    } else {
        buf.height - radius
    }
}

/// `(x, y)` lies in a corner square and at squared distance at least
/// `radius^2` from that square's interior reference point: outside the
/// inscribed quarter circle, so it gets painted.
pub open spec fn outside_corner_circle(buf: PixelBuffer, radius: int, x: int, y: int) -> bool {
    in_corner_square(buf, radius, x, y) && (x - ref_x(buf, radius, x)) * (x - ref_x(
        buf,
        radius,
        x,
    )) + (y - ref_y(buf, radius, y)) * (y - ref_y(buf, radius, y)) >= radius * radius
}

/// Channel `c` of the pixel at `(x, y)` after rounding: the fill's channel
/// where the pixel is outside its corner's quarter circle, the original
/// channel everywhere else.
pub open spec fn rounded_channel(
    orig: PixelBuffer,
    fill: Color,
    radius: int,
    x: int,
    y: int,
    c: int,
) -> u8 {
    if outside_corner_circle(orig, radius, x, y) {
        fill.channel(c)
    } else {
        orig.channel(x, y, c)
    }
}

/// Law: rounding never touches a pixel that lies outside all four corner
/// squares; such a pixel keeps every channel.
pub proof fn lemma_rounding_preserves_outside_squares(
    orig: PixelBuffer,
    fill: Color,
    radius: int,
    x: int,
    y: int,
    c: int,
)
    requires
        orig.in_bounds(x, y),
        0 <= c < CHANNELS,
        !in_corner_square(orig, radius, x, y),
    ensures
        rounded_channel(orig, fill, radius, x, y, c) == orig.channel(x, y, c),
{
}

/// Law: within a corner square, a pixel at squared distance at least
/// `radius^2` from the square's interior reference point takes every
/// channel from the fill.
pub proof fn lemma_rounding_paints_outside_circle(
    orig: PixelBuffer,
    fill: Color,
    radius: int,
    x: int,
    y: int,
    c: int,
)
    requires
        orig.in_bounds(x, y),
        0 <= c < CHANNELS,
        in_corner_square(orig, radius, x, y),
        (x - ref_x(orig, radius, x)) * (x - ref_x(orig, radius, x)) + (y - ref_y(orig, radius, y))
            * (y - ref_y(orig, radius, y)) >= radius * radius,
    ensures
        rounded_channel(orig, fill, radius, x, y, c) == fill.channel(c),
{
}

/// Law: within a corner square, a pixel strictly inside the quarter
/// circle — squared distance below `radius^2` — keeps every channel.
pub proof fn lemma_rounding_keeps_inside_circle(
    orig: PixelBuffer,
    fill: Color,
    radius: int,
    x: int,
    y: int,
    c: int,
)
    requires
        orig.in_bounds(x, y),
        0 <= c < CHANNELS,
        in_corner_square(orig, radius, x, y),
        (x - ref_x(orig, radius, x)) * (x - ref_x(orig, radius, x)) + (y - ref_y(orig, radius, y))
            * (y - ref_y(orig, radius, y)) < radius * radius,
    ensures
        rounded_channel(orig, fill, radius, x, y, c) == orig.channel(x, y, c),
{
}

/// `(x, y)` lies in the `radius`-by-`radius` square whose lowest
/// coordinates are `(x0, y0)`.
pub open spec fn in_square(x0: int, y0: int, radius: int, x: int, y: int) -> bool {
    x0 <= x < x0 + radius && y0 <= y < y0 + radius
}

/// `cur` is `orig` with the corner square at `(x0, y0)` rounded on the
/// full rows `y0..y_done` and, in row `y_done`, on the columns
/// `x0..x_done`.
spec fn square_rounded_upto(
    orig: PixelBuffer,
    cur: PixelBuffer,
    fill: Color,
    radius: int,
    x0: int,
    y0: int,
    y_done: int,
    x_done: int,
) -> bool {
    forall|x: int, y: int, c: int|
        orig.in_bounds(x, y) && 0 <= c < CHANNELS ==> cur.channel(x, y, c) == (if x0 <= x < x0
            + radius && (y0 <= y < y_done || (y == y_done && x0 <= x < x_done))
            && outside_corner_circle(orig, radius, x, y) {
            fill.channel(c)
        } else {
            orig.channel(x, y, c)
        })
}

/// The squared radius and the squared distances within a corner square fit
/// in `usize` arithmetic, because the sample array itself fits.
proof fn lemma_radius_sq_fits(w: int, h: int, r: int)
    requires
        0 <= r,
        2 * r <= w,
        2 * r <= h,
        w * h * (CHANNELS as int) <= usize::MAX,
    ensures
        r * r + r * r <= usize::MAX,
{
    assert(4 * (r * r) <= w * h) by (nonlinear_arith)
        requires
            0 <= r,
            2 * r <= w,
            2 * r <= h,
    ;
}

/// Overwrite every channel of the pixel at `(x, y)` with the channels of
/// `color`; every other pixel keeps its channels.
pub fn paint(image: &mut PixelBuffer, x: usize, y: usize, color: &Color)
    requires
        old(image).wf(),
        old(image).in_bounds(x as int, y as int),
    ensures
        final(image).wf(),
        final(image).width == old(image).width,
        final(image).height == old(image).height,
        forall|c: int|
            #![trigger color.channel(c)]
            #![trigger final(image).channel(x as int, y as int, c)]
            0 <= c < CHANNELS ==> final(image).channel(x as int, y as int, c) == color.channel(c),
        forall|xx: int, yy: int, cc: int|
            old(image).in_bounds(xx, yy) && 0 <= cc < CHANNELS && !(xx == x && yy == y)
                ==> final(image).channel(xx, yy, cc) == old(image).channel(xx, yy, cc),
{
    image.put_pixel(x, y, *color)
}

/// Round one corner square: paint every pixel of the square at
/// `(x0, y0)` whose squared distance from the corner's interior reference
/// point is at least `radius^2`; leave every other pixel of the buffer
/// unchanged.
fn round_corner_square(image: &mut PixelBuffer, fill: &Color, radius: usize, x0: usize, y0: usize)
    requires
        old(image).wf(),
        radius_fits(*old(image), radius as int),
        x0 == 0 || x0 == old(image).width - radius,
        y0 == 0 || y0 == old(image).height - radius,
    ensures
        final(image).wf(),
        final(image).width == old(image).width,
        final(image).height == old(image).height,
        forall|x: int, y: int, c: int|
            old(image).in_bounds(x, y) && 0 <= c < CHANNELS ==> final(image).channel(x, y, c) == (
            if in_square(x0 as int, y0 as int, radius as int, x, y) && outside_corner_circle(
                *old(image),
                radius as int,
                x,
                y,
            ) {
                fill.channel(c)
            } else {
                old(image).channel(x, y, c)
            }),
{
    let ghost orig = *old(image);
    proof {
        assert(image.data.len() == image.data@.len());
        lemma_radius_sq_fits(orig.width as int, orig.height as int, radius as int);
    }
    let mut y: usize = y0;
    while y < y0 + radius
        invariant
            image.wf(),
            image.width == orig.width,
            image.height == orig.height,
            orig.wf(),
            radius_fits(orig, radius as int),
            radius * radius + radius * radius <= usize::MAX,
            x0 == 0 || x0 == orig.width - radius,
            y0 == 0 || y0 == orig.height - radius,
            y0 <= y <= y0 + radius,
            y0 + radius <= orig.height,
            x0 + radius <= orig.width,
            square_rounded_upto(
                orig,
                *image,
                *fill,
                radius as int,
                x0 as int,
                y0 as int,
                y as int,
                x0 as int,
            ),
        decreases y0 + radius - y,
    {
        let mut x: usize = x0;
        while x < x0 + radius
            invariant
                image.wf(),
                image.width == orig.width,
                image.height == orig.height,
                orig.wf(),
                radius_fits(orig, radius as int),
                radius * radius + radius * radius <= usize::MAX,
                x0 == 0 || x0 == orig.width - radius,
                y0 == 0 || y0 == orig.height - radius,
                y0 <= y < y0 + radius,
                x0 <= x <= x0 + radius,
                y0 + radius <= orig.height,
                x0 + radius <= orig.width,
                square_rounded_upto(
                    orig,
                    *image,
                    *fill,
                    radius as int,
                    x0 as int,
                    y0 as int,
                    y as int,
                    x as int,
                ),
            decreases x0 + radius - x,
        {
            let dx: usize = if x0 == 0 {
                radius - x
            } else {
                x - x0
            };
            let dy: usize = if y0 == 0 {
                radius - y
            } else {
                y - y0
            };
            proof {
                assert(dx <= radius);
                assert(dy <= radius);
                assert(dx * dx <= radius * radius) by (nonlinear_arith)
                    requires
                        0 <= dx <= radius,
                ;
                assert(dy * dy <= radius * radius) by (nonlinear_arith)
                    requires
                        0 <= dy <= radius,
                ;
                assert(in_corner_square(orig, radius as int, x as int, y as int));
                let gx = (x as int) - ref_x(orig, radius as int, x as int);
                let gy = (y as int) - ref_y(orig, radius as int, y as int);
                assert(gx == dx || gx == -(dx as int));
                assert(gy == dy || gy == -(dy as int));
                assert(gx * gx == dx * dx) by (nonlinear_arith)
                    requires
                        gx == dx || gx == -(dx as int),
                ;
                assert(gy * gy == dy * dy) by (nonlinear_arith)
                    requires
                        gy == dy || gy == -(dy as int),
                ;
            }
            let ghost prev = *image;
            if dx * dx + dy * dy >= radius * radius {
                paint(image, x, y, fill);
                proof {
                    assert(outside_corner_circle(orig, radius as int, x as int, y as int));
                }
            } else {
                proof {
                    assert(!outside_corner_circle(orig, radius as int, x as int, y as int));
                }
            }
            proof {
                assert forall|xx: int, yy: int, cc: int|
                    orig.in_bounds(xx, yy) && 0 <= cc < CHANNELS implies image.channel(xx, yy, cc)
                    == (if x0 <= xx < x0 + radius && (y0 <= yy < y || (yy == y && x0 <= xx < x + 1))
                    && outside_corner_circle(orig, radius as int, xx, yy) {
                    fill.channel(cc)
                } else {
                    orig.channel(xx, yy, cc)
                }) by {
                    if xx == x && yy == y {
                        assert(prev.channel(xx, yy, cc) == orig.channel(xx, yy, cc));
                    } else {
                        assert(image.channel(xx, yy, cc) == prev.channel(xx, yy, cc));
                    }
                }
                assert(square_rounded_upto(
                    orig,
                    *image,
                    *fill,
                    radius as int,
                    x0 as int,
                    y0 as int,
                    y as int,
                    x as int + 1,
                ));
            }
            x += 1;
        }
        proof {
            assert forall|xx: int, yy: int, cc: int|
                orig.in_bounds(xx, yy) && 0 <= cc < CHANNELS implies image.channel(xx, yy, cc) == (
            if x0 <= xx < x0 + radius && (y0 <= yy < y + 1 || (yy == y + 1 && x0 <= xx < x0))
                && outside_corner_circle(orig, radius as int, xx, yy) {
                fill.channel(cc)
            } else {
                orig.channel(xx, yy, cc)
            }) by {
                assert(image.channel(xx, yy, cc) == (if x0 <= xx < x0 + radius && (y0 <= yy < y || (
                yy == y && x0 <= xx < x0 + radius)) && outside_corner_circle(
                    orig,
                    radius as int,
                    xx,
                    yy,
                ) {
                    fill.channel(cc)
                } else {
                    orig.channel(xx, yy, cc)
                }));
            }
        }
        y += 1;
    }
}

/// Round all four corners of the buffer in place: in each corner square,
/// every pixel at squared distance at least `radius^2` from the corner's
/// interior reference point takes every channel from `fill_color`; every
/// other pixel of the buffer is unchanged. A radius with
/// `2 * radius` above either dimension is rejected with `InvalidRadius`
/// and the buffer is left untouched.
pub fn draw_round_corners(image: &mut PixelBuffer, fill_color: &Color, radius: usize) -> (res:
    Result<(), Error>)
    requires
        old(image).wf(),
    ensures
        final(image).wf(),
        final(image).width == old(image).width,
        final(image).height == old(image).height,
        match res {
            Ok(u) => radius_fits(*old(image), radius as int) && forall|x: int, y: int, c: int|
                old(image).in_bounds(x, y) && 0 <= c < CHANNELS ==> final(image).channel(x, y, c)
                    == rounded_channel(*old(image), *fill_color, radius as int, x, y, c),
            Err(e) => e == Error::InvalidRadius && !radius_fits(*old(image), radius as int)
                && *final(image) == *old(image),
        },
{
    if radius > image.width / 2 || radius > image.height / 2 {
        return Err(Error::InvalidRadius);
    }
    let ghost orig = *old(image);
    let w = image.width;
    let h = image.height;
    let ghost s0 = *image;
    round_corner_square(image, fill_color, radius, 0, 0);
    let ghost s1 = *image;
    round_corner_square(image, fill_color, radius, w - radius, 0);
    let ghost s2 = *image;
    round_corner_square(image, fill_color, radius, 0, h - radius);
    let ghost s3 = *image;
    round_corner_square(image, fill_color, radius, w - radius, h - radius);
    proof {
        let r = radius as int;
        assert forall|x: int, y: int, c: int|
            orig.in_bounds(x, y) && 0 <= c < CHANNELS implies image.channel(x, y, c)
            == rounded_channel(orig, *fill_color, r, x, y, c) by {
            if in_square(0, 0, r, x, y) {
                assert(s2.channel(x, y, c) == s1.channel(x, y, c));
                assert(s3.channel(x, y, c) == s2.channel(x, y, c));
                assert(image.channel(x, y, c) == s3.channel(x, y, c));
            } else if in_square(w - r, 0, r, x, y) {
                assert(s1.channel(x, y, c) == s0.channel(x, y, c));
                assert(s3.channel(x, y, c) == s2.channel(x, y, c));
                assert(image.channel(x, y, c) == s3.channel(x, y, c));
            } else if in_square(0, h - r, r, x, y) {
                assert(s1.channel(x, y, c) == s0.channel(x, y, c));
                assert(s2.channel(x, y, c) == s1.channel(x, y, c));
                assert(image.channel(x, y, c) == s3.channel(x, y, c));
            } else if in_square(w - r, h - r, r, x, y) {
                assert(s1.channel(x, y, c) == s0.channel(x, y, c));
                assert(s2.channel(x, y, c) == s1.channel(x, y, c));
                assert(s3.channel(x, y, c) == s2.channel(x, y, c));
            } else {
                assert(!in_corner_square(orig, r, x, y));
                assert(s1.channel(x, y, c) == s0.channel(x, y, c));
                assert(s2.channel(x, y, c) == s1.channel(x, y, c));
                assert(s3.channel(x, y, c) == s2.channel(x, y, c));
                assert(image.channel(x, y, c) == s3.channel(x, y, c));
            }
        }
    }
    Ok(())
}

} // verus!
