//! Device-independent bitmaps: how large the capture buffer of a window is,
//! and how its rows become a frame.

use crate::frame::{Frame, FrameView};
use crate::win32::Rect;
use vstd::prelude::*;

verus! {

/// The shape of a capture bitmap: its size in pixels, its planes and the
/// bits of one pixel.
#[derive(Debug, Clone, Copy, PartialEq, Eq, Structural)]
pub struct Bitmap {
    pub width: i32,
    pub height: i32,
    pub planes: u16,
    pub bit_count: u16,
}

/// Where the four bytes of pixel `(x, y)` start in the buffer of a bitmap of
/// `w` by `h` pixels. The buffer holds the rows from the bottom up.
pub open spec fn dib_offset(w: int, h: int, x: int, y: int) -> int {
    4 * (x + (h - 1 - y) * w)
}

/// The red, green and blue samples of pixel `(x, y)`. The buffer holds blue
/// first, then green, then red, then a byte that is not used.
pub open spec fn dib_pixel(buf: Seq<u8>, w: int, h: int, x: int, y: int) -> (u8, u8, u8) {
    let at = dib_offset(w, h, x, y);
    (buf[at + 2], buf[at + 1], buf[at])
}

/// The frame `f` shows the bitmap of `w` by `h` pixels in `buf`.
pub open spec fn shows_bitmap(f: FrameView, w: int, h: int, buf: Seq<u8>) -> bool {
    &&& f.width == w
    &&& f.height == h
    &&& f.samples.len() == 3 * (w * h)
    &&& forall|x: int, y: int|
        0 <= x < w && 0 <= y < h ==> #[trigger] f.pixel(x, y) == dib_pixel(buf, w, h, x, y)
}

impl Bitmap {
    /// The bitmap that holds a capture of `rect`: as wide and as high as the
    /// rectangle, one plane, 32 bits for each pixel.
    pub fn new(rect: Rect) -> (bitmap: Self)
        requires
            rect.measurable(),
        ensures
            bitmap.width == rect.right - rect.left,
            bitmap.height == rect.bottom - rect.top,
            bitmap.planes == 1,
            bitmap.bit_count == 32,
    {
        Self {
            width: rect.right - rect.left,
            height: rect.bottom - rect.top,
            planes: 1,
            bit_count: 32,
        }
    }

    /// The bitmap's width in pixels.
    pub fn width(&self) -> (w: i32)
        ensures
            w == self.width,
    {
        self.width
    }

    /// The bitmap's height in pixels.
    pub fn height(&self) -> (h: i32)
        ensures
            h == self.height,
    {
        self.height
    }

    /// Tells whether the bitmap still has the size of the window at `rect`.
    /// A bitmap that has not is replaced before the next capture.
    pub fn fits(&self, rect: Rect) -> (same: bool)
        ensures
            same == (rect.bottom - rect.top == self.height && rect.right - rect.left
                == self.width),
    {
        rect.bottom as i64 - rect.top as i64 == self.height as i64 && rect.right as i64
            - rect.left as i64 == self.width as i64
    }

    /// The number of bytes that a capture of the bitmap fills: four for each
    /// pixel. `None` for a bitmap of negative size, and where the number does
    /// not fit.
    pub fn buffer_len(&self) -> (len: Option<usize>)
        ensures
            len is Some <==> self.width >= 0 && self.height >= 0 && 4 * (self.width * self.height)
                <= usize::MAX,
            len matches Some(n) ==> n == 4 * (self.width * self.height),
    {
        if self.width < 0 || self.height < 0 {
            return None;
        }
        assert(0 <= self.width * self.height <= 0x7fff_ffff * 0x7fff_ffff) by (nonlinear_arith)
            requires
                0 <= self.width <= 0x7fff_ffff,
                0 <= self.height <= 0x7fff_ffff,
        ;
        let bytes: u64 = 4 * (self.width as u64 * self.height as u64);
        if bytes > usize::MAX as u64 {
            None
        } else {
            Some(bytes as usize)
        }
    }

    /// Turns a capture of the bitmap into a frame: the rows from the top
    /// down, each pixel as red, green and blue. `None` where the buffer is
    /// too short for the bitmap, the bitmap has a negative size, or the
    /// samples of one row are more than a `usize` can count.
    pub fn to_image(&self, buf: &[u8]) -> (made: Option<Frame>)
        ensures
            made is Some <==> self.width >= 0 && self.height >= 0 && 4 * (self.width
                * self.height) <= buf@.len() && 3 * self.width <= usize::MAX,
            made matches Some(frame) ==> shows_bitmap(
                frame@,
                self.width as int,
                self.height as int,
                buf@,
            ),
    {
        let have: usize = buf.len();
        let needed: usize = match self.buffer_len() {
            Some(n) => n,
            None => {
                return None;
            },
        };
        if have < needed {
            return None;
        }
        let w: usize = self.width as usize;
        let h: usize = self.height as usize;
        let mut samples: Vec<u8> = Vec::new();
        let mut y: usize = 0;
        while y < h
            invariant
                w == self.width,
                h == self.height,
                4 * (w * h) <= buf@.len(),
                buf@.len() == have,
                y <= h,
                samples@.len() == 3 * (y * w),
                forall|xx: int, yy: int|
                    0 <= xx < w && 0 <= yy < y ==> (
                        samples@[3 * (yy * w + xx)],
                        samples@[3 * (yy * w + xx) + 1],
                        samples@[3 * (yy * w + xx) + 2],
                    ) == #[trigger] dib_pixel(buf@, w as int, h as int, xx, yy),
            decreases h - y,
        {
            assert(h * w == w * h) by (nonlinear_arith);
            assert((h - 1 - y) * w + w <= h * w) by (nonlinear_arith)
                requires
                    0 <= y < h,
                    0 <= w,
            ;
            assert(0 <= (h - 1 - y) * w) by (nonlinear_arith)
                requires
                    0 <= y < h,
                    0 <= w,
            ;
            let row: usize = (h - 1 - y) * w;
            let mut x: usize = 0;
            while x < w
                invariant
                    w == self.width,
                    h == self.height,
                    4 * (w * h) <= buf@.len(),
                    buf@.len() == have,
                    y < h,
                    x <= w,
                    row == (h - 1 - y) * w,
                    row + w <= w * h,
                    samples@.len() == 3 * (y * w + x),
                    forall|xx: int, yy: int|
                        0 <= xx < w && 0 <= yy < y ==> (
                            samples@[3 * (yy * w + xx)],
                            samples@[3 * (yy * w + xx) + 1],
                            samples@[3 * (yy * w + xx) + 2],
                        ) == #[trigger] dib_pixel(buf@, w as int, h as int, xx, yy),
                    forall|xx: int|
                        0 <= xx < x ==> (
                            samples@[3 * (y * w + xx)],
                            samples@[3 * (y * w + xx) + 1],
                            samples@[3 * (y * w + xx) + 2],
                        ) == #[trigger] dib_pixel(buf@, w as int, h as int, xx, y as int),
                decreases w - x,
            {
                let at: usize = 4 * (x + row);
                let ghost before = samples@;
                samples.push(buf[at + 2]);
                samples.push(buf[at + 1]);
                samples.push(buf[at]);
                proof {
                    assert forall|xx: int, yy: int| 0 <= xx < w && 0 <= yy < y implies (
                        samples@[3 * (yy * w + xx)],
                        samples@[3 * (yy * w + xx) + 1],
                        samples@[3 * (yy * w + xx) + 2],
                    ) == #[trigger] dib_pixel(buf@, w as int, h as int, xx, yy) by {
                        assert(yy * w + xx < y * w) by (nonlinear_arith)
                            requires
                                0 <= xx < w,
                                0 <= yy < y,
                        ;
                        assert(0 <= yy * w + xx) by (nonlinear_arith)
                            requires
                                0 <= xx,
                                0 <= yy,
                                0 <= w,
                        ;
                        assert(samples@[3 * (yy * w + xx)] == before[3 * (yy * w + xx)]);
                        assert(samples@[3 * (yy * w + xx) + 1] == before[3 * (yy * w + xx) + 1]);
                        assert(samples@[3 * (yy * w + xx) + 2] == before[3 * (yy * w + xx) + 2]);
                    }
                    assert(0 <= y * w) by (nonlinear_arith)
                        requires
                            0 <= y,
                            0 <= w,
                    ;
                    assert forall|xx: int| 0 <= xx < x + 1 implies (
                        samples@[3 * (y * w + xx)],
                        samples@[3 * (y * w + xx) + 1],
                        samples@[3 * (y * w + xx) + 2],
                    ) == #[trigger] dib_pixel(buf@, w as int, h as int, xx, y as int) by {
                        if xx < x {
                            assert(samples@[3 * (y * w + xx)] == before[3 * (y * w + xx)]);
                            assert(samples@[3 * (y * w + xx) + 1] == before[3 * (y * w + xx)
                                + 1]);
                            assert(samples@[3 * (y * w + xx) + 2] == before[3 * (y * w + xx)
                                + 2]);
                        }
                    }
                }
                x = x + 1;
            }
            assert(y * w + w == (y + 1) * w) by (nonlinear_arith);
            y = y + 1;
        }
        let made = Frame::from_raw(self.width as u32, self.height as u32, samples);
        proof {
            assert(h * w == w * h) by (nonlinear_arith);
            if made is Some {
                let f = made->0@;
                assert forall|x: int, y: int| 0 <= x < w && 0 <= y < h implies #[trigger] f.pixel(
                    x,
                    y,
                ) == dib_pixel(buf@, w as int, h as int, x, y) by {}
            }
        }
        made
    }
}

} // verus!
