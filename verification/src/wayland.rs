//! The backend that leaves selecting, capturing and input to helper
//! programs: it says how to call them and reads what they print.

use crate::control::{Failure, ToBrain, ToController};
use crate::frame::{decoded_rgb8, Frame};
use crate::text::{
    chars_of, cut, decimal, decimal_text, fields, parse_i32, parsed_i32, push_decimal, split,
    split_words, words, Separator,
};
use vstd::prelude::*;
use vstd::slice::slice_subrange;

verus! {

/// The program that lets the user select a part of the screen. It prints the
/// selection as `x,y width,height`.
pub const SELECT_TOOL: &'static str = "slurp";

/// The program that synthesises pointer and keyboard input.
pub const INPUT_TOOL: &'static str = "ydotool";

/// The program that captures a part of the screen as an encoded image.
pub const CAPTURE_TOOL: &'static str = "grim";

/// The watched part of the screen: its top left corner and its size.
#[derive(Debug, Clone, Copy, PartialEq, Eq)]
pub struct Selection {
    pub tl: [i32; 2],
    pub dim: [i32; 2],
}

/// The number in one comma-separated field; zero where the field holds no
/// number that an `i32` can hold.
pub open spec fn number_or_zero(field: Seq<char>) -> i32 {
    match parsed_i32(field) {
        Some(v) => v,
        None => 0,
    }
}

/// The two numbers at the start of a word of comma-separated fields; `None`
/// where the word has no comma.
pub open spec fn pair_of(word: Seq<char>) -> Option<[i32; 2]> {
    let parts = fields(word, Separator::Comma);
    if parts.len() < 2 {
        None
    } else {
        Some([number_or_zero(parts[0]), number_or_zero(parts[1])])
    }
}

/// The selection that a text of the form `x,y width,height` names. The first
/// two words count, and the first two fields of each. `None` where a word or
/// a field is missing.
pub open spec fn selection_of(text: Seq<char>) -> Option<Selection> {
    let parts = words(text);
    if parts.len() < 2 {
        None
    } else {
        match (pair_of(parts[0]), pair_of(parts[1])) {
            (Some(tl), Some(dim)) => Some(Selection { tl, dim }),
            _ => None,
        }
    }
}

/// A position of the watched part, as a position of the screen.
pub open spec fn on_screen(selection: Selection, coords: [i32; 2]) -> (int, int) {
    (coords[0] + selection.tl[0], coords[1] + selection.tl[1])
}

/// Both screen coordinates of a position fit an `i32`.
pub open spec fn reachable(selection: Selection, coords: [i32; 2]) -> bool {
    i32::MIN <= on_screen(selection, coords).0 <= i32::MAX && i32::MIN <= on_screen(
        selection,
        coords,
    ).1 <= i32::MAX
}

/// The arguments that move the pointer to a screen position.
pub open spec fn move_args(x: int, y: int) -> Seq<Seq<char>> {
    seq!["mousemove"@, decimal_text(x), decimal_text(y)]
}

/// The arguments that click the left button.
pub open spec fn click_args() -> Seq<Seq<char>> {
    seq!["click"@, "1"@]
}

/// The arguments that press and release the key which starts a cycle.
pub open spec fn key_args() -> Seq<Seq<char>> {
    seq!["key"@, "`"@]
}

/// The calls of the input tool that perform an action, each call given by
/// its arguments.
pub open spec fn input_calls(selection: Selection, action: ToController) -> Seq<Seq<Seq<char>>> {
    match action {
        ToController::MoveMouse(coords) => seq![
            move_args(on_screen(selection, coords).0, on_screen(selection, coords).1),
        ],
        ToController::PerformClick(coords) => seq![
            move_args(on_screen(selection, coords).0, on_screen(selection, coords).1),
            click_args(),
        ],
        ToController::CastHook => seq![key_args()],
    }
}

/// The geometry of a selection as the capture tool takes it:
/// `<width>x<height>+<x>+<y>`.
pub open spec fn geometry_text(selection: Selection) -> Seq<char> {
    decimal_text(selection.dim[0] as int) + seq!['x'] + decimal_text(selection.dim[1] as int)
        + seq!['+'] + decimal_text(selection.tl[0] as int) + seq!['+'] + decimal_text(
        selection.tl[1] as int,
    )
}

/// The arguments that make the capture tool write the selection to its
/// output.
pub open spec fn capture_args(selection: Selection) -> Seq<Seq<char>> {
    seq!["-g"@, geometry_text(selection), "-"@]
}

fn number_in(word: &[char], span: (usize, usize)) -> (v: i32)
    requires
        span.0 <= span.1 <= word@.len(),
    ensures
        v == number_or_zero(word@.subrange(span.0 as int, span.1 as int)),
{
    match parse_i32(slice_subrange(word, span.0, span.1)) {
        Some(v) => v,
        None => 0,
    }
}

fn pair_in(chars: &[char], span: (usize, usize)) -> (pair: Option<[i32; 2]>)
    requires
        span.0 <= span.1 <= chars@.len(),
    ensures
        pair == pair_of(chars@.subrange(span.0 as int, span.1 as int)),
{
    let word = slice_subrange(chars, span.0, span.1);
    let parts = split(word, Separator::Comma);
    assert(cut(word@, parts@).len() == parts@.len());
    if parts.len() < 2 {
        None
    } else {
        assert(cut(word@, parts@)[0] == word@.subrange(parts@[0].0 as int, parts@[0].1 as int));
        assert(cut(word@, parts@)[1] == word@.subrange(parts@[1].0 as int, parts@[1].1 as int));
        let first: i32 = number_in(word, parts[0]);
        let second: i32 = number_in(word, parts[1]);
        Some([first, second])
    }
}

/// Reads a selection from a text of the form `x,y width,height`.
pub fn parse_selection(text: &str) -> (selection: Option<Selection>)
    ensures
        selection == selection_of(text@),
{
    let chars = chars_of(text);
    let parts = split_words(chars.as_slice());
    assert(cut(chars@, parts@).len() == parts@.len());
    if parts.len() < 2 {
        return None;
    }
    assert(cut(chars@, parts@)[0] == chars@.subrange(parts@[0].0 as int, parts@[0].1 as int));
    assert(cut(chars@, parts@)[1] == chars@.subrange(parts@[1].0 as int, parts@[1].1 as int));
    let tl = pair_in(chars.as_slice(), parts[0]);
    let dim = pair_in(chars.as_slice(), parts[1]);
    match (tl, dim) {
        (Some(tl), Some(dim)) => Some(Selection { tl, dim }),
        _ => None,
    }
}

/// What the backend found out at its start: the selection.
pub struct WaylandContext {
    selection: Selection,
}

/// The action sink of this backend.
pub struct WaylandController {
    selection: Selection,
}

/// The frame source of this backend.
pub struct WaylandEyes {
    selection: Selection,
}

impl WaylandContext {
    /// The selection that source and sink share.
    pub closed spec fn region(&self) -> Selection {
        self.selection
    }

    /// Makes the context from what the selecting tool printed. `None` where
    /// the text names no selection.
    pub fn from_selection_text(text: &str) -> (made: Option<Self>)
        ensures
            match made {
                Some(context) => selection_of(text@) == Some(context.region()),
                None => selection_of(text@) is None,
            },
    {
        match parse_selection(text) {
            Some(selection) => Some(WaylandContext { selection }),
            None => None,
        }
    }

    /// The selection that source and sink share.
    pub fn selection(&self) -> (selection: Selection)
        ensures
            selection == self.region(),
    {
        self.selection
    }

    /// An action sink for the selection.
    pub fn controller(&self) -> (made: Result<WaylandController, Failure>)
        ensures
            made matches Ok(sink) && sink.region() == self.region(),
    {
        Ok(WaylandController { selection: self.selection })
    }

    /// A frame source for the selection.
    pub fn eyes(&self) -> (made: Result<WaylandEyes, Failure>)
        ensures
            made matches Ok(source) && source.region() == self.region(),
    {
        Ok(WaylandEyes { selection: self.selection })
    }
}

impl WaylandController {
    /// The selection whose corner positions are counted from.
    pub closed spec fn region(&self) -> Selection {
        self.selection
    }

    /// Turns a position of the watched part into a position of the screen.
    pub fn adjust_coords(&self, coords: [i32; 2]) -> (adjusted: [i32; 2])
        requires
            reachable(self.region(), coords),
        ensures
            (adjusted[0] as int, adjusted[1] as int) == on_screen(self.region(), coords),
    {
        [coords[0] + self.selection.tl[0], coords[1] + self.selection.tl[1]]
    }

    /// The arguments of the input tool that move the pointer to a screen
    /// position.
    pub fn move_mouse(&self, adjusted_coords: [i32; 2]) -> (args: Vec<String>)
        ensures
            args.deep_view() == move_args(adjusted_coords[0] as int, adjusted_coords[1] as int),
    {
        let mut args: Vec<String> = Vec::new();
        args.push(String::from_str("mousemove"));
        args.push(decimal(adjusted_coords[0]));
        args.push(decimal(adjusted_coords[1]));
        assert(args.deep_view() =~= move_args(
            adjusted_coords[0] as int,
            adjusted_coords[1] as int,
        ));
        args
    }

    /// The arguments of the input tool that click the left button.
    pub fn perform_click(&self) -> (args: Vec<String>)
        ensures
            args.deep_view() == click_args(),
    {
        let mut args: Vec<String> = Vec::new();
        args.push(String::from_str("click"));
        args.push(String::from_str("1"));
        assert(args.deep_view() =~= click_args());
        args
    }

    /// The arguments of the input tool that press and release the key which
    /// starts a cycle.
    pub fn cast_hook(&self) -> (args: Vec<String>)
        ensures
            args.deep_view() == key_args(),
    {
        let mut args: Vec<String> = Vec::new();
        args.push(String::from_str("key"));
        args.push(String::from_str("`"));
        assert(args.deep_view() =~= key_args());
        args
    }

    /// The calls of the input tool that perform an action, in order: a move
    /// for a move, a move and a click for a click, one key stroke for the
    /// trigger.
    pub fn input_calls(&self, action: ToController) -> (calls: Vec<Vec<String>>)
        requires
            action matches ToController::MoveMouse(coords) ==> reachable(self.region(), coords),
            action matches ToController::PerformClick(coords) ==> reachable(
                self.region(),
                coords,
            ),
        ensures
            calls.deep_view() == input_calls(self.region(), action),
    {
        let mut calls: Vec<Vec<String>> = Vec::new();
        match action {
            ToController::MoveMouse(coords) => {
                let adjusted = self.adjust_coords(coords);
                calls.push(self.move_mouse(adjusted));
            },
            ToController::PerformClick(coords) => {
                let adjusted = self.adjust_coords(coords);
                calls.push(self.move_mouse(adjusted));
                calls.push(self.perform_click());
            },
            ToController::CastHook => {
                calls.push(self.cast_hook());
            },
        }
        assert(calls.deep_view() =~= input_calls(self.region(), action));
        calls
    }
}

impl WaylandEyes {
    /// The selection that is captured.
    pub closed spec fn region(&self) -> Selection {
        self.selection
    }

    /// The arguments that make the capture tool write the selection, as an
    /// encoded image, to its output.
    pub fn capture_args(&self) -> (args: Vec<String>)
        ensures
            args.deep_view() == capture_args(self.region()),
    {
        let mut geometry = String::new();
        proof {
            reveal_strlit("x");
            reveal_strlit("+");
        }
        push_decimal(&mut geometry, self.selection.dim[0]);
        geometry.append("x");
        push_decimal(&mut geometry, self.selection.dim[1]);
        geometry.append("+");
        push_decimal(&mut geometry, self.selection.tl[0]);
        geometry.append("+");
        push_decimal(&mut geometry, self.selection.tl[1]);
        assert(geometry@ =~= geometry_text(self.selection));
        let mut args: Vec<String> = Vec::new();
        args.push(String::from_str("-g"));
        args.push(geometry);
        args.push(String::from_str("-"));
        assert(args.deep_view() =~= capture_args(self.region()));
        args
    }

    /// Turns what the capture tool wrote into the message for the engine.
    /// Bytes that are no image give a capture failure.
    pub fn next_frame(&self, capture: &[u8]) -> (message: Result<ToBrain, Failure>)
        ensures
            match message {
                Ok(ToBrain::NextFrame(frame)) => decoded_rgb8(capture@) == Some(
                    ((frame@.width as u32, frame@.height as u32), frame@.samples),
                ),
                Err(e) => e == Failure::Capture && decoded_rgb8(capture@) is None,
            },
    {
        match Frame::decode(capture) {
            Ok(frame) => Ok(ToBrain::NextFrame(frame)),
            Err(_) => Err(Failure::Capture),
        }
    }
}

} // verus!
