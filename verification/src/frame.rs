//! Frames: grids of RGB pixels, stored in an image buffer of the `image`
//! crate and described to the verifier by their size and samples.

use vstd::prelude::*;

verus! {

/// What a frame holds: its size in pixels and its samples, one byte per
/// channel, three per pixel, rows from the top, each row from the left.
pub struct FrameView {
    pub width: nat,
    pub height: nat,
    pub samples: Seq<u8>,
}

impl FrameView {
    /// There are three samples for every pixel, and no others.
    pub open spec fn wf(self) -> bool {
        self.samples.len() == 3 * (self.width * self.height)
    }

    /// The place of the first sample of pixel `(x, y)`.
    pub open spec fn offset(self, x: int, y: int) -> int {
        3 * (y * self.width + x)
    }

    /// The red, green and blue samples of pixel `(x, y)`.
    pub open spec fn pixel(self, x: int, y: int) -> (u8, u8, u8) {
        let at = self.offset(x, y);
        (self.samples[at], self.samples[at + 1], self.samples[at + 2])
    }

    /// `(x, y)` names a pixel of the frame.
    pub open spec fn contains(self, x: int, y: int) -> bool {
        0 <= x < self.width && 0 <= y < self.height
    }
}

/// The samples of every pixel of a well-formed frame lie inside its buffer.
pub proof fn lemma_offset_in_bounds(f: FrameView, x: int, y: int)
    requires
        f.wf(),
        f.contains(x, y),
    ensures
        0 <= f.offset(x, y),
        f.offset(x, y) + 3 <= f.samples.len(),
{
    assert(0 <= y * f.width + x < f.width * f.height) by (nonlinear_arith)
        requires
            0 <= x < f.width,
            0 <= y < f.height,
    ;
}

/// An image buffer of 8-bit RGB pixels: an `image::RgbImage`. The verifier
/// does not look into it: what it holds is named by [`picture_dimensions`]
/// and [`picture_samples`].
#[verifier::external_body]
pub struct Picture {
    inner: image::RgbImage,
}

/// The width and height that the image buffer reports.
pub uninterp spec fn picture_dimensions(picture: Picture) -> (u32, u32);

/// The samples in the image buffer's container, in the container's order.
pub uninterp spec fn picture_samples(picture: Picture) -> Seq<u8>;

/// What decoding an encoded image yields as 8-bit RGB: the dimensions and
/// samples of the result, or `None` where the bytes are refused.
pub uninterp spec fn decoded_rgb8(bytes: Seq<u8>) -> Option<((u32, u32), Seq<u8>)>;

/// `image::ImageError`: why an image could not be decoded. Nothing is known
/// of what it holds.
#[verifier::external_type_specification]
#[verifier::external_body]
pub struct ExImageError(image::ImageError);

/// `image::ImageBuffer::from_raw`: the buffer is accepted exactly when the
/// number of samples of one row and that of the whole image fit a `usize`
/// and the buffer holds at least three samples per pixel. The image then has
/// the dimensions and the container that were handed in.
#[verifier::external_body]
fn image_from_raw(width: u32, height: u32, samples: Vec<u8>) -> (made: Option<Picture>)
    ensures
        made is Some <==> (3 * width <= usize::MAX && 3 * (width * height) <= samples@.len()),
        made matches Some(picture) ==> picture_dimensions(picture) == (width, height)
            && picture_samples(picture) == samples@,
{
    match image::RgbImage::from_raw(width, height, samples) {
        Some(inner) => Some(Picture { inner }),
        None => None,
    }
}

/// `image::ImageBuffer::dimensions`: the width and height of the image.
#[verifier::external_body]
fn image_dimensions(picture: &Picture) -> (dims: (u32, u32))
    ensures
        dims == picture_dimensions(*picture),
{
    picture.inner.dimensions()
}

/// `image::ImageBuffer::as_raw`: the image's container.
#[verifier::external_body]
fn image_as_raw(picture: &Picture) -> (raw: &Vec<u8>)
    ensures
        raw@ == picture_samples(*picture),
{
    picture.inner.as_raw()
}

/// `image::load_from_memory` followed by `image::DynamicImage::to_rgb8`: the
/// format is guessed from the bytes, the image decoded and converted to 8-bit
/// RGB. The outcome depends on the bytes alone, and the converted image has
/// three samples for every pixel and no others.
#[verifier::external_body]
fn image_decode(bytes: &[u8]) -> (out: Result<Picture, image::ImageError>)
    ensures
        match out {
            Ok(picture) => decoded_rgb8(bytes@) == Some(
                (picture_dimensions(picture), picture_samples(picture)),
            ) && picture_samples(picture).len() == 3 * (picture_dimensions(picture).0
                * picture_dimensions(picture).1),
            Err(_) => decoded_rgb8(bytes@) is None,
        },
{
    match image::load_from_memory(bytes) {
        Ok(picture) => Ok(Picture { inner: picture.to_rgb8() }),
        Err(e) => Err(e),
    }
}

/// The bytes handed to [`Frame::decode`] were not an image that can be read.
#[derive(Clone, Copy, Debug, PartialEq, Eq, Structural)]
pub struct Undecodable;

/// One captured frame: an image buffer with exactly three samples for every
/// pixel.
pub struct Frame {
    picture: Picture,
}

impl View for Frame {
    type V = FrameView;

    closed spec fn view(&self) -> FrameView {
        FrameView {
            width: picture_dimensions(self.picture).0 as nat,
            height: picture_dimensions(self.picture).1 as nat,
            samples: picture_samples(self.picture),
        }
    }
}

impl Frame {
    #[verifier::type_invariant]
    spec fn exact(self) -> bool {
        self@.wf()
    }

    /// Makes a frame of `width` by `height` pixels from its samples. The
    /// buffer is refused unless it holds three samples for every pixel and
    /// no others, and when the samples of one row are more than a `usize`
    /// can count.
    pub fn from_raw(width: u32, height: u32, samples: Vec<u8>) -> (made: Option<Frame>)
        ensures
            made is Some <==> (samples@.len() == 3 * (width * height) && 3 * width
                <= usize::MAX),
            made matches Some(frame) ==> frame@ == (FrameView {
                width: width as nat,
                height: height as nat,
                samples: samples@,
            }),
    {
        assert(width * height <= 0xffff_ffff * 0xffff_ffff) by (nonlinear_arith)
            requires
                0 <= width <= 0xffff_ffff,
                0 <= height <= 0xffff_ffff,
        ;
        let wanted: u128 = 3 * (width as u128 * height as u128);
        if samples.len() as u128 != wanted {
            return None;
        }
        match image_from_raw(width, height, samples) {
            Some(picture) => Some(Frame { picture }),
            None => None,
        }
    }

    /// The frame's width in pixels.
    pub fn width(&self) -> (w: u32)
        ensures
            w == self@.width,
    {
        image_dimensions(&self.picture).0
    }

    /// The frame's height in pixels.
    pub fn height(&self) -> (h: u32)
        ensures
            h == self@.height,
    {
        image_dimensions(&self.picture).1
    }

    /// The frame's samples.
    pub fn samples(&self) -> (raw: &Vec<u8>)
        ensures
            raw@ == self@.samples,
            self@.wf(),
    {
        proof {
            use_type_invariant(self);
        }
        image_as_raw(&self.picture)
    }

    /// The red, green and blue samples of the pixel at `(x, y)`.
    pub fn pixel(&self, x: u32, y: u32) -> (rgb: (u8, u8, u8))
        requires
            self@.contains(x as int, y as int),
        ensures
            rgb == self@.pixel(x as int, y as int),
    {
        let raw = self.samples();
        let width: u32 = self.width();
        // reading the length tells the verifier that it is a `usize`
        let _: usize = raw.len();
        proof {
            lemma_offset_in_bounds(self@, x as int, y as int);
            assert(0 <= y * width <= y * width + x) by (nonlinear_arith)
                requires
                    0 <= x,
                    0 <= y,
                    0 <= width,
            ;
        }
        let at: usize = 3 * (y as usize * width as usize + x as usize);
        (raw[at], raw[at + 1], raw[at + 2])
    }

    /// Decodes an encoded image, such as a PNG file held in memory, into a
    /// frame of 8-bit RGB pixels.
    pub fn decode(bytes: &[u8]) -> (out: Result<Frame, Undecodable>)
        ensures
            match out {
                Ok(frame) => decoded_rgb8(bytes@) == Some(
                    ((frame@.width as u32, frame@.height as u32), frame@.samples),
                ),
                Err(_) => decoded_rgb8(bytes@) is None,
            },
    {
        match image_decode(bytes) {
            Ok(picture) => Ok(Frame { picture }),
            Err(_) => Err(Undecodable),
        }
    }
}

} // verus!
