//! The backend that talks to an X display: which window it looks for, how
//! the display's pixels become a frame, and which requests perform an action.

use crate::control::{Failure, ToController};
use crate::frame::{Frame, FrameView};
use crate::text::{chars_of, parse_u64, parsed_u64, trim, trimmed};
use vstd::prelude::*;
use vstd::slice::slice_subrange;

verus! {

/// The program that looks windows up by their title.
pub const SEARCH_TOOL: &'static str = "xdotool";

/// The pointer button that clicks.
pub const LEFT_BUTTON: u32 = 1;

/// The code of the key that starts a cycle.
pub const CAST_KEYCODE: u32 = 49;

/// What the backend found out at its start: the window's identifier.
#[derive(Debug, Clone, Copy, PartialEq, Eq, Structural)]
pub struct XContext {
    pub window: u64,
}

/// One request to the display.
#[derive(Debug, Clone, Copy, PartialEq, Eq, Structural)]
pub enum XRequest {
    /// Put the pointer at a position of the window.
    WarpPointer { x: i32, y: i32 },
    /// Tell the window that a pointer button went down or up at a position.
    Button { pressed: bool, x: i32, y: i32, button: u32 },
    /// Tell the window that a key went down or up.
    Key { pressed: bool, keycode: u32 },
}

/// The arguments of the search tool that look for the windows whose title
/// ends in `name`.
pub open spec fn search_args(name: Seq<char>) -> Seq<Seq<char>> {
    seq!["search"@, "--name"@, name + seq!['$']]
}

/// The window identifier that the search tool printed: the text without
/// surrounding white space, read as a decimal number. `None` where that is no
/// single number, as when no window or several were found.
pub open spec fn window_id_of(text: Seq<char>) -> Option<u64> {
    parsed_u64(trimmed(text))
}

/// The red, green and blue samples packed in a pixel of the display: bits 16
/// to 23, 8 to 15 and 0 to 7.
pub open spec fn unpacked(pixel: u64) -> (u8, u8, u8) {
    (((pixel >> 16) & 0xff) as u8, ((pixel >> 8) & 0xff) as u8, (pixel & 0xff) as u8)
}

/// The requests that click the left button at a position: the button goes
/// down, then up.
pub open spec fn click_requests(x: i32, y: i32) -> Seq<XRequest> {
    seq![
        XRequest::Button { pressed: true, x, y, button: LEFT_BUTTON },
        XRequest::Button { pressed: false, x, y, button: LEFT_BUTTON },
    ]
}

/// The requests that start a cycle: the key goes down, then up, once.
pub open spec fn cast_requests() -> Seq<XRequest> {
    seq![
        XRequest::Key { pressed: true, keycode: CAST_KEYCODE },
        XRequest::Key { pressed: false, keycode: CAST_KEYCODE },
    ]
}

/// The requests that perform an action, in order.
pub open spec fn requests_of(action: ToController) -> Seq<XRequest> {
    match action {
        ToController::MoveMouse(at) => seq![XRequest::WarpPointer { x: at[0], y: at[1] }],
        ToController::PerformClick(at) => click_requests(at[0], at[1]),
        ToController::CastHook => cast_requests(),
    }
}

/// The arguments of the search tool that look for the windows whose title
/// ends in `name`.
pub fn window_search_args(name: &str) -> (args: Vec<String>)
    ensures
        args.deep_view() == search_args(name@),
{
    proof {
        reveal_strlit("$");
    }
    let mut pattern = String::from_str(name);
    pattern.append("$");
    assert(pattern@ =~= name@ + seq!['$']);
    let mut args: Vec<String> = Vec::new();
    args.push(String::from_str("search"));
    args.push(String::from_str("--name"));
    args.push(pattern);
    assert(args.deep_view() =~= search_args(name@));
    args
}

/// Reads the window identifier that the search tool printed.
pub fn parse_window_id(text: &str) -> (id: Option<u64>)
    ensures
        id == window_id_of(text@),
{
    let chars = chars_of(text);
    let span = trim(chars.as_slice());
    parse_u64(slice_subrange(chars.as_slice(), span.0, span.1))
}

impl XContext {
    /// Makes the context from what the search tool printed. A text that
    /// names no window is a construction failure.
    pub fn from_search_output(text: &str) -> (made: Result<Self, Failure>)
        ensures
            match made {
                Ok(context) => window_id_of(text@) == Some(context.window),
                Err(e) => e == Failure::Construction && window_id_of(text@) is None,
            },
    {
        match parse_window_id(text) {
            Some(window) => Ok(XContext { window }),
            None => Err(Failure::Construction),
        }
    }

    /// An action sink for the window.
    pub fn controller(&self) -> (made: Result<XController, Failure>)
        ensures
            made == Ok::<XController, Failure>(XController { window: self.window }),
    {
        XController::new(self.window)
    }

    /// A frame source for the window.
    pub fn eyes(&self) -> (made: Result<XEyes, Failure>)
        ensures
            made == Ok::<XEyes, Failure>(XEyes { window: self.window }),
    {
        XEyes::new(self.window)
    }
}

/// Unpacks the red, green and blue samples of a pixel of the display.
pub fn unpack_pixel(pixel: u64) -> (rgb: (u8, u8, u8))
    ensures
        rgb == unpacked(pixel),
{
    assert((pixel >> 16) & 0xff < 0x100) by (bit_vector);
    assert((pixel >> 8) & 0xff < 0x100) by (bit_vector);
    assert(pixel & 0xff < 0x100) by (bit_vector);
    (((pixel >> 16) & 0xff) as u8, ((pixel >> 8) & 0xff) as u8, (pixel & 0xff) as u8)
}

/// The samples are the bytes of the pixel: the lowest is blue, the next
/// green, the third red.
pub proof fn lemma_unpacked_bytes(pixel: u64)
    ensures
        unpacked(pixel).0 == (pixel / 0x1_0000) % 0x100,
        unpacked(pixel).1 == (pixel / 0x100) % 0x100,
        unpacked(pixel).2 == pixel % 0x100,
{
    assert((pixel >> 16) & 0xff == (pixel / 0x1_0000) % 0x100) by (bit_vector);
    assert((pixel >> 8) & 0xff == (pixel / 0x100) % 0x100) by (bit_vector);
    assert(pixel & 0xff == pixel % 0x100) by (bit_vector);
}

/// The frame `f` shows the pixels `pixels`, given row by row.
pub open spec fn shows(f: FrameView, width: u32, height: u32, pixels: Seq<u64>) -> bool {
    &&& f.width == width
    &&& f.height == height
    &&& f.samples.len() == 3 * pixels.len()
    &&& pixels.len() == width * height
    &&& forall|i: int|
        0 <= i < pixels.len() ==> (f.samples[3 * i], f.samples[3 * i + 1], f.samples[3 * i + 2])
            == unpacked(#[trigger] pixels[i])
}

/// In a frame that shows `pixels`, the pixel at `(x, y)` is the one at place
/// `y * width + x`.
pub proof fn lemma_shows_pixel(f: FrameView, width: u32, height: u32, pixels: Seq<u64>, x: int, y: int)
    requires
        shows(f, width, height, pixels),
        f.contains(x, y),
    ensures
        0 <= y * width + x < pixels.len(),
        f.pixel(x, y) == unpacked(pixels[y * width + x]),
{
    assert(0 <= y * width + x < width * height) by (nonlinear_arith)
        requires
            0 <= x < width,
            0 <= y < height,
    ;
    let i = y * width + x;
    assert(f.offset(x, y) == 3 * i);
    assert((f.samples[3 * i], f.samples[3 * i + 1], f.samples[3 * i + 2]) == unpacked(pixels[i]));
}

/// Makes a frame of the pixels of a window, given row by row from the top.
/// `None` where the number of pixels is not `width * height`, or where the
/// samples of the frame or of one row are more than a `usize` can count.
pub fn frame_of_pixels(width: u32, height: u32, pixels: &[u64]) -> (made: Option<Frame>)
    ensures
        made is Some <==> pixels@.len() == width * height && 3 * pixels@.len() <= usize::MAX && 3
            * width <= usize::MAX,
        made matches Some(frame) ==> shows(frame@, width, height, pixels@),
{
    assert(width * height <= 0xffff_ffff * 0xffff_ffff) by (nonlinear_arith)
        requires
            0 <= width <= 0xffff_ffff,
            0 <= height <= 0xffff_ffff,
    ;
    let wanted: u64 = width as u64 * height as u64;
    if pixels.len() as u64 != wanted || pixels.len() > usize::MAX / 3 {
        return None;
    }
    let mut samples: Vec<u8> = Vec::new();
    let mut i: usize = 0;
    while i < pixels.len()
        invariant
            i <= pixels@.len(),
            samples@.len() == 3 * i,
            forall|j: int|
                0 <= j < i ==> (samples@[3 * j], samples@[3 * j + 1], samples@[3 * j + 2])
                    == unpacked(#[trigger] pixels@[j]),
        decreases pixels@.len() - i,
    {
        let rgb = unpack_pixel(pixels[i]);
        samples.push(rgb.0);
        samples.push(rgb.1);
        samples.push(rgb.2);
        i = i + 1;
    }
    Frame::from_raw(width, height, samples)
}

/// The action sink of this backend: it speaks to one window.
#[derive(Debug, Clone, Copy, PartialEq, Eq, Structural)]
pub struct XController {
    pub window: u64,
}

/// The frame source of this backend: it looks at one window.
#[derive(Debug, Clone, Copy, PartialEq, Eq, Structural)]
pub struct XEyes {
    pub window: u64,
}

impl XEyes {
    /// A frame source for a window.
    pub fn new(window: u64) -> (made: Result<Self, Failure>)
        ensures
            made == Ok::<XEyes, Failure>(XEyes { window }),
    {
        Ok(Self { window })
    }

    /// Makes a frame of the pixels that the display handed out for the
    /// window, row by row from the top.
    pub fn get_image(&self, width: u32, height: u32, pixels: &[u64]) -> (made: Option<Frame>)
        ensures
            made is Some <==> pixels@.len() == width * height && 3 * pixels@.len() <= usize::MAX
                && 3 * width <= usize::MAX,
            made matches Some(frame) ==> shows(frame@, width, height, pixels@),
    {
        frame_of_pixels(width, height, pixels)
    }
}

impl XController {
    /// An action sink for a window.
    pub fn new(window: u64) -> (made: Result<Self, Failure>)
        ensures
            made == Ok::<XController, Failure>(XController { window }),
    {
        Ok(Self { window })
    }

    /// The request that moves the pointer to a position of the window.
    pub fn move_mouse_to_coordinate(&self, x: i32, y: i32) -> (request: XRequest)
        ensures
            request == (XRequest::WarpPointer { x, y }),
    {
        XRequest::WarpPointer { x, y }
    }

    /// The requests that click the left button at a position of the window.
    pub fn left_click(&self, x: i32, y: i32) -> (requests: Vec<XRequest>)
        ensures
            requests@ == click_requests(x, y),
    {
        let mut requests: Vec<XRequest> = Vec::new();
        requests.push(XRequest::Button { pressed: true, x, y, button: LEFT_BUTTON });
        requests.push(XRequest::Button { pressed: false, x, y, button: LEFT_BUTTON });
        requests
    }

    /// The requests that press and release the key which starts a cycle.
    pub fn cast_hook(&self) -> (requests: Vec<XRequest>)
        ensures
            requests@ == cast_requests(),
    {
        let mut requests: Vec<XRequest> = Vec::new();
        requests.push(XRequest::Key { pressed: true, keycode: CAST_KEYCODE });
        requests.push(XRequest::Key { pressed: false, keycode: CAST_KEYCODE });
        requests
    }

    /// The requests that perform an action, in order.
    pub fn requests_for(&self, action: ToController) -> (requests: Vec<XRequest>)
        ensures
            requests@ == requests_of(action),
    {
        match action {
            ToController::MoveMouse(at) => {
                let mut requests: Vec<XRequest> = Vec::new();
                requests.push(self.move_mouse_to_coordinate(at[0], at[1]));
                requests
            },
            ToController::PerformClick(at) => self.left_click(at[0], at[1]),
            ToController::CastHook => self.cast_hook(),
        }
    }
}

} // verus!
