//! Rectangular cropping: strip a margin from every edge of a frame and
//! return the interior region as a fresh, independently owned buffer.

use vstd::prelude::*;
use crate::buffer::{CHANNELS, Error, Margin, PixelBuffer};

verus! {

/// A margin is valid for a source buffer when it leaves at least one pixel
/// column and one pixel row: `left + right < width` and
/// `top + bottom < height`.
pub open spec fn margin_fits(m: Margin, src: PixelBuffer) -> bool {
    m.left + m.right < src.width && m.top + m.bottom < src.height
}

/// Crop `image` to its interior region: the result keeps, for each of its
/// coordinates `(x, y)`, the source pixel at `(x + left, y + top)`,
/// channel for channel. The source is consumed; a margin that equals or
/// exceeds a source dimension on either axis is rejected with
/// `InvalidMargin`.
pub fn crop(image: PixelBuffer, margin: &Margin) -> (r: Result<PixelBuffer, Error>)
    requires
        image.wf(),
    ensures
        match r {
            Ok(out) => margin_fits(*margin, image) && out.wf() && out.width == image.width
                - margin.left - margin.right && out.height == image.height - margin.top
                - margin.bottom && forall|x: int, y: int, c: int|
                out.in_bounds(x, y) && 0 <= c < CHANNELS ==> out.channel(x, y, c)
                    == image.channel(x + margin.left, y + margin.top, c),
            Err(e) => e == Error::InvalidMargin && !margin_fits(*margin, image),
        },
{
    if !(margin.left < image.width && margin.right < image.width - margin.left && margin.top
        < image.height && margin.bottom < image.height - margin.top) {
        return Err(Error::InvalidMargin);
    }
    let new_width: usize = image.width - margin.left - margin.right;
    let new_height: usize = image.height - margin.top - margin.bottom;
    let total: usize = image.data.len();
    proof {
        assert(new_width * new_height * (CHANNELS as int) <= image.width * image.height * (
        CHANNELS as int)) by (nonlinear_arith)
            requires
                0 <= new_width <= image.width,
                0 <= new_height <= image.height,
        ;
    }
    let mut out = PixelBuffer::new(new_width, new_height);
    let mut y: usize = 0;
    while y < new_height
        invariant
            image.wf(),
            margin_fits(*margin, image),
            new_width == image.width - margin.left - margin.right,
            new_height == image.height - margin.top - margin.bottom,
            out.wf(),
            out.width == new_width,
            out.height == new_height,
            y <= new_height,
            forall|xx: int, yy: int, cc: int|
                0 <= xx < new_width && 0 <= yy < y && 0 <= cc < CHANNELS ==> out.channel(xx, yy, cc)
                    == image.channel(xx + margin.left, yy + margin.top, cc),
        decreases new_height - y,
    {
        let mut x: usize = 0;
        while x < new_width
            invariant
                image.wf(),
                margin_fits(*margin, image),
                new_width == image.width - margin.left - margin.right,
                new_height == image.height - margin.top - margin.bottom,
                out.wf(),
                out.width == new_width,
                out.height == new_height,
                y < new_height,
                x <= new_width,
                forall|xx: int, yy: int, cc: int|
                    0 <= xx < new_width && 0 <= yy < y && 0 <= cc < CHANNELS ==> out.channel(
                        xx,
                        yy,
                        cc,
                    ) == image.channel(xx + margin.left, yy + margin.top, cc),
                forall|xx: int, cc: int|
                    0 <= xx < x && 0 <= cc < CHANNELS ==> out.channel(xx, y as int, cc)
                        == image.channel(xx + margin.left, y + margin.top, cc),
            decreases new_width - x,
        {
            let col = image.get_pixel(x + margin.left, y + margin.top);
            let ghost prev = out;
            out.put_pixel(x, y, col);
            proof {
                assert forall|xx: int, cc: int|
                    0 <= xx <= x && 0 <= cc < CHANNELS implies out.channel(xx, y as int, cc)
                    == image.channel(xx + margin.left, y + margin.top, cc) by {
                    if xx < x {
                        assert(out.channel(xx, y as int, cc) == prev.channel(xx, y as int, cc));
                        assert(prev.channel(xx, y as int, cc) == image.channel(
                            xx + margin.left,
                            y + margin.top,
                            cc,
                        ));
                    } else {
                        assert(out.channel(x as int, y as int, cc) == col.channel(cc));
                        assert(col.channel(cc) == image.channel(
                            x + margin.left,
                            y + margin.top,
                            cc,
                        ));
                    }
                }
            }
            x += 1;
        }
        y += 1;
    }
    Ok(out)
}

} // verus!
