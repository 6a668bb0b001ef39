//! The owned pixel buffer that both transforms operate on, together with
//! the small value types they take as inputs: margins, fill colors and the
//! error kinds.

use vstd::prelude::*;

verus! {

/// Number of channel samples per pixel: a fixed four-channel,
/// byte-per-channel layout, channel order `channel0..channel3`.
pub const CHANNELS: usize = 4;

/// Pixel counts to strip from each of the four edges of a buffer during a
/// crop.
#[derive(Clone, Copy, Debug, PartialEq, Eq, Structural)]
pub struct Margin {
    pub left: usize,
    pub top: usize,
    pub right: usize,
    pub bottom: usize,
}

impl Margin {
    pub fn new(left: usize, top: usize, right: usize, bottom: usize) -> (m: Margin)
        ensures
            m == (Margin { left, top, right, bottom }),
    {
        Margin { left, top, right, bottom }
    }
}

/// An ordered tuple of four channel values, one per channel of the pixel
/// format; used as the corner-rounding fill.
#[derive(Clone, Copy, Debug, PartialEq, Eq, Structural)]
pub struct Color {
    pub channel0: u8,
    pub channel1: u8,
    pub channel2: u8,
    pub channel3: u8,
}

impl Color {
    /// Channel `c` of this color, in the fixed channel order.
    pub open spec fn channel(self, c: int) -> u8 {
        if c == 0 {
            self.channel0
        } else if c == 1 {
            self.channel1
        } else if c == 2 {
            self.channel2
        } else {
            self.channel3
        }
    }

    pub fn new(channel0: u8, channel1: u8, channel2: u8, channel3: u8) -> (col: Color)
        ensures
            col == (Color { channel0, channel1, channel2, channel3 }),
    {
        Color { channel0, channel1, channel2, channel3 }
    }
}

/// The ways a transform can reject its inputs.
#[derive(Clone, Copy, Debug, PartialEq, Eq, Structural)]
pub enum Error {
    /// A margin equals or exceeds the buffer dimension on its axis.
    InvalidMargin,
    /// A corner radius too large for the buffer: the corner squares would
    /// overlap or leave the buffer.
    InvalidRadius,
}

/// An owned, contiguous pixel buffer: `width * height` pixels stored
/// row-major, four byte-sized channel samples per pixel.
pub struct PixelBuffer {
    pub width: usize,
    pub height: usize,
    pub data: Vec<u8>,
}

impl PixelBuffer {
    /// The sample array holds exactly one byte per channel sample.
    pub open spec fn wf(self) -> bool {
        self.data@.len() == self.width * self.height * (CHANNELS as int)
    }

    /// Position of channel `c` of the pixel at `(x, y)` in the sample array.
    pub open spec fn sample_index(self, x: int, y: int, c: int) -> int {
        (y * self.width + x) * (CHANNELS as int) + c
    }

    /// Channel `c` of the pixel at `(x, y)`.
    pub open spec fn channel(self, x: int, y: int, c: int) -> u8 {
        self.data@[self.sample_index(x, y, c)]
    }

    pub open spec fn in_bounds(self, x: int, y: int) -> bool {
        0 <= x < self.width && 0 <= y < self.height
    }

    /// A fresh buffer with every channel sample zero.
    pub fn new(width: usize, height: usize) -> (buf: PixelBuffer)
        requires
            width * height * (CHANNELS as int) <= usize::MAX,
        ensures
            buf.wf(),
            buf.width == width,
            buf.height == height,
            forall|x: int, y: int, c: int|
                buf.in_bounds(x, y) && 0 <= c < CHANNELS ==> buf.channel(x, y, c) == 0u8,
    {
        proof {
            lemma_buffer_size_parts(width as int, height as int);
        }
        let pixels: usize = width * height;
        let len: usize = pixels * CHANNELS;
        let data: Vec<u8> = vec![0u8; len];
        let buf = PixelBuffer { width, height, data };
        proof {
            assert forall|x: int, y: int, c: int|
                buf.in_bounds(x, y) && 0 <= c < CHANNELS implies buf.channel(x, y, c) == 0u8 by {
                lemma_sample_index_in_range(buf, x, y, c);
            }
        }
        buf
    }

    /// The sample-array position of channel `c` of pixel `(x, y)`.
    fn sample_pos(&self, x: usize, y: usize, c: usize) -> (i: usize)
        requires
            self.wf(),
            self.in_bounds(x as int, y as int),
            c < CHANNELS,
        ensures
            i == self.sample_index(x as int, y as int, c as int),
            i < self.data@.len(),
    {
        proof {
            lemma_sample_index_in_range(*self, x as int, y as int, c as int);
            assert(self.data.len() == self.data@.len());
        }
        (y * self.width + x) * CHANNELS + c
    }

    /// Channel `c` of the pixel at `(x, y)`.
    pub fn get_channel(&self, x: usize, y: usize, c: usize) -> (v: u8)
        requires
            self.wf(),
            self.in_bounds(x as int, y as int),
            c < CHANNELS,
        ensures
            v == self.channel(x as int, y as int, c as int),
    {
        let i = self.sample_pos(x, y, c);
        self.data[i]
    }

    /// All four channels of the pixel at `(x, y)`, as a color.
    pub fn get_pixel(&self, x: usize, y: usize) -> (col: Color)
        requires
            self.wf(),
            self.in_bounds(x as int, y as int),
        ensures
            forall|c: int|
                #![trigger col.channel(c)]
                #![trigger self.channel(x as int, y as int, c)]
                0 <= c < CHANNELS ==> col.channel(c) == self.channel(x as int, y as int, c),
    {
        Color {
            channel0: self.get_channel(x, y, 0),
            channel1: self.get_channel(x, y, 1),
            channel2: self.get_channel(x, y, 2),
            channel3: self.get_channel(x, y, 3),
        }
    }

    /// Overwrite channel `c` of the pixel at `(x, y)`; every other sample
    /// keeps its value.
    pub fn set_channel(&mut self, x: usize, y: usize, c: usize, v: u8)
        requires
            old(self).wf(),
            old(self).in_bounds(x as int, y as int),
            c < CHANNELS,
        ensures
            final(self).wf(),
            final(self).width == old(self).width,
            final(self).height == old(self).height,
            final(self).channel(x as int, y as int, c as int) == v,
            forall|xx: int, yy: int, cc: int|
                old(self).in_bounds(xx, yy) && 0 <= cc < CHANNELS && !(xx == x && yy == y && cc
                    == c) ==> final(self).channel(xx, yy, cc) == old(self).channel(xx, yy, cc),
    {
        let i = self.sample_pos(x, y, c);
        self.data[i] = v;
        proof {
            assert forall|xx: int, yy: int, cc: int|
                old(self).in_bounds(xx, yy) && 0 <= cc < CHANNELS && !(xx == x as int && yy
                    == y as int && cc == c as int) implies final(self).channel(xx, yy, cc) == old(
                self,
            ).channel(xx, yy, cc) by {
                lemma_sample_index_in_range(*old(self), xx, yy, cc);
                lemma_sample_index_injective(
                    *old(self),
                    x as int,
                    y as int,
                    c as int,
                    xx,
                    yy,
                    cc,
                );
            }
        }
    }

    /// Overwrite all four channels of the pixel at `(x, y)` with `col`;
    /// every other pixel keeps its channels.
    pub fn put_pixel(&mut self, x: usize, y: usize, col: Color)
        requires
            old(self).wf(),
            old(self).in_bounds(x as int, y as int),
        ensures
            final(self).wf(),
            final(self).width == old(self).width,
            final(self).height == old(self).height,
            forall|c: int|
                #![trigger col.channel(c)]
                #![trigger final(self).channel(x as int, y as int, c)]
                0 <= c < CHANNELS ==> final(self).channel(x as int, y as int, c) == col.channel(
                    c,
                ),
            forall|xx: int, yy: int, cc: int|
                old(self).in_bounds(xx, yy) && 0 <= cc < CHANNELS && !(xx == x && yy == y)
                    ==> final(self).channel(xx, yy, cc) == old(self).channel(xx, yy, cc),
    {
        self.set_channel(x, y, 0, col.channel0);
        self.set_channel(x, y, 1, col.channel1);
        self.set_channel(x, y, 2, col.channel2);
        self.set_channel(x, y, 3, col.channel3);
    }
}

/// Each factor of the sample-array size is bounded by the size itself, so
/// the partial products in an index computation stay in range.
proof fn lemma_buffer_size_parts(width: int, height: int)
    requires
        0 <= width,
        0 <= height,
        width * height * (CHANNELS as int) <= usize::MAX,
    ensures
        width * height <= usize::MAX,
        (width * height) * (CHANNELS as int) == width * height * (CHANNELS as int),
{
    assert(width * height <= width * height * (CHANNELS as int)) by (nonlinear_arith)
        requires
            0 <= width,
            0 <= height,
    ;
}

/// A sample index of an in-bounds pixel lies within the sample array.
proof fn lemma_sample_index_in_range(buf: PixelBuffer, x: int, y: int, c: int)
    requires
        buf.wf(),
        buf.in_bounds(x, y),
        0 <= c < CHANNELS,
    ensures
        0 <= buf.sample_index(x, y, c) < buf.data@.len(),
        y * buf.width + x < buf.width * buf.height,
{
    assert(0 <= y * buf.width + x < buf.width * buf.height) by (nonlinear_arith)
        requires
            0 <= x < buf.width,
            0 <= y < buf.height,
    ;
    assert((y * buf.width + x) * (CHANNELS as int) + c < buf.width * buf.height * (
    CHANNELS as int)) by (nonlinear_arith)
        requires
            0 <= c < CHANNELS,
            0 <= y * buf.width + x < buf.width * buf.height,
    ;
}

/// Distinct channel samples of distinct in-bounds coordinates occupy
/// distinct positions in the sample array.
proof fn lemma_sample_index_injective(
    buf: PixelBuffer,
    x1: int,
    y1: int,
    c1: int,
    x2: int,
    y2: int,
    c2: int,
)
    requires
        buf.in_bounds(x1, y1),
        buf.in_bounds(x2, y2),
        0 <= c1 < CHANNELS,
        0 <= c2 < CHANNELS,
        !(x1 == x2 && y1 == y2 && c1 == c2),
    ensures
        buf.sample_index(x1, y1, c1) != buf.sample_index(x2, y2, c2),
{
    let p1 = y1 * buf.width + x1;
    let p2 = y2 * buf.width + x2;
    if x1 == x2 && y1 == y2 {
        assert(p1 == p2);
        assert(p1 * (CHANNELS as int) + c1 != p2 * (CHANNELS as int) + c2);
    } else {
        assert(p1 != p2) by (nonlinear_arith)
            requires
                0 <= x1 < buf.width,
                0 <= x2 < buf.width,
                0 <= y1,
                0 <= y2,
                !(x1 == x2 && y1 == y2),
                p1 == y1 * buf.width + x1,
                p2 == y2 * buf.width + x2,
        ;
        assert(p1 * (CHANNELS as int) + c1 != p2 * (CHANNELS as int) + c2) by (nonlinear_arith)
            requires
                p1 != p2,
                0 <= c1 < CHANNELS,
                0 <= c2 < CHANNELS,
        ;
    }
}

} // verus!
