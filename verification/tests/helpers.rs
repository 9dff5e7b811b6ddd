use angler::control::{Failure, ToBrain, ToController};
use angler::frame::{Frame, Undecodable};
use angler::wayland::{
    parse_selection, Selection, WaylandContext, CAPTURE_TOOL, INPUT_TOOL, SELECT_TOOL,
};
use std::io::Cursor;

fn reference(text: &str) -> Option<Selection> {
    let parts: Vec<&str> = text.trim().split_whitespace().collect();
    if parts.len() < 2 {
        return None;
    }
    let tl: Vec<i32> = parts[0].split(',').map(|s| s.parse().unwrap_or(0)).collect();
    let dim: Vec<i32> = parts[1].split(',').map(|s| s.parse().unwrap_or(0)).collect();
    if tl.len() < 2 || dim.len() < 2 {
        return None;
    }
    Some(Selection { tl: [tl[0], tl[1]], dim: [dim[0], dim[1]] })
}

fn context(text: &str) -> WaylandContext {
    WaylandContext::from_selection_text(text).unwrap()
}

fn owned(args: &[&str]) -> Vec<String> {
    args.iter().map(|s| s.to_string()).collect()
}

fn png(picture: &image::RgbImage) -> Vec<u8> {
    let mut bytes = Vec::new();
    image::DynamicImage::ImageRgb8(picture.clone())
        .write_to(&mut Cursor::new(&mut bytes), image::ImageOutputFormat::Png)
        .unwrap();
    bytes
}

#[test]
fn tools_are_named() {
    assert_eq!(SELECT_TOOL, "slurp");
    assert_eq!(INPUT_TOOL, "ydotool");
    assert_eq!(CAPTURE_TOOL, "grim");
}

#[test]
fn selection_is_read() {
    let expected = Selection { tl: [10, 20], dim: [300, 400] };
    assert_eq!(parse_selection("10,20 300,400"), Some(expected));
    assert_eq!(parse_selection("  10,20\t300,400\n"), Some(expected));
    assert_eq!(parse_selection("10,20,9 300,400,8 more"), Some(expected));
    assert_eq!(context("10,20 300,400\n").selection(), expected);
}

#[test]
fn selection_with_signs_and_gaps() {
    assert_eq!(
        parse_selection("-5,+7 0,-0"),
        Some(Selection { tl: [-5, 7], dim: [0, 0] })
    );
    assert_eq!(parse_selection(", ,"), Some(Selection { tl: [0, 0], dim: [0, 0] }));
    assert_eq!(
        parse_selection("x,3 4,99999999999"),
        Some(Selection { tl: [0, 3], dim: [4, 0] })
    );
    assert_eq!(
        parse_selection("2147483647,-2147483648 1,1"),
        Some(Selection { tl: [i32::MAX, i32::MIN], dim: [1, 1] })
    );
}

#[test]
fn selection_needs_two_pairs() {
    for text in ["", "   ", "10,20", "10,20 300x400", "10 20 30 40", "10,20 300", "1020 300,400"] {
        assert_eq!(parse_selection(text), None, "{:?}", text);
        assert!(WaylandContext::from_selection_text(text).is_none());
    }
}

#[test]
fn selection_is_read_as_by_the_standard_library() {
    for text in [
        "1,2 3,4",
        "\u{a0}1,2\u{2003}3,4",
        "1,2\u{200b}3,4",
        " 1 , 2 3 , 4 ",
        "a,b c,d",
        "1,,2 ,3,",
        "+1,-2 +3,-4",
        "١,٢ ٣,٤",
        "1,2",
        "",
    ] {
        assert_eq!(parse_selection(text), reference(text), "{:?}", text);
    }
}

#[test]
fn source_and_sink_share_the_selection() {
    let made = context("100,200 50,60");
    let sink = made.controller().unwrap();
    let source = made.eyes().unwrap();
    assert_eq!(sink.adjust_coords([0, 0]), [100, 200]);
    assert_eq!(source.capture_args(), owned(&["-g", "50x60+100+200", "-"]));
}

#[test]
fn positions_are_moved_by_the_corner() {
    let sink = context("100,200 50,60").controller().unwrap();
    assert_eq!(sink.adjust_coords([7, 9]), [107, 209]);
    assert_eq!(sink.adjust_coords([-150, -250]), [-50, -50]);
    let sink = context("-30,-40 50,60").controller().unwrap();
    assert_eq!(sink.adjust_coords([30, 40]), [0, 0]);
    assert_eq!(sink.adjust_coords([i32::MAX, i32::MIN + 40]), [i32::MAX - 30, i32::MIN]);
}

#[test]
fn arguments_of_the_input_tool() {
    let sink = context("100,200 50,60").controller().unwrap();
    assert_eq!(sink.move_mouse([107, -9]), owned(&["mousemove", "107", "-9"]));
    assert_eq!(sink.perform_click(), owned(&["click", "1"]));
    assert_eq!(sink.cast_hook(), owned(&["key", "`"]));
}

#[test]
fn calls_for_each_action() {
    let sink = context("100,200 50,60").controller().unwrap();
    assert_eq!(
        sink.input_calls(ToController::MoveMouse([1, 2])),
        vec![owned(&["mousemove", "101", "202"])]
    );
    assert_eq!(
        sink.input_calls(ToController::PerformClick([3, 4])),
        vec![owned(&["mousemove", "103", "204"]), owned(&["click", "1"])]
    );
    assert_eq!(sink.input_calls(ToController::CastHook), vec![owned(&["key", "`"])]);
}

#[test]
fn arguments_of_the_capture_tool() {
    let source = context("0,0 1920,1080").eyes().unwrap();
    assert_eq!(source.capture_args(), owned(&["-g", "1920x1080+0+0", "-"]));
    let source = context("-5,-6 7,8").eyes().unwrap();
    assert_eq!(source.capture_args(), owned(&["-g", "7x8+-5+-6", "-"]));
}

#[test]
fn capture_becomes_a_frame() {
    let mut picture = image::RgbImage::new(6, 4);
    for (x, y, pixel) in picture.enumerate_pixels_mut() {
        *pixel = image::Rgb([(40 * x) as u8, (60 * y) as u8, (x + y) as u8]);
    }
    let source = context("0,0 6,4").eyes().unwrap();
    match source.next_frame(&png(&picture)) {
        Ok(ToBrain::NextFrame(frame)) => {
            assert_eq!(frame.width(), 6);
            assert_eq!(frame.height(), 4);
            assert_eq!(frame.samples(), picture.as_raw());
        }
        Err(_) => panic!("the capture was refused"),
    }
}

#[test]
fn capture_of_another_kind_is_converted() {
    let grey = image::GrayImage::from_fn(3, 2, |x, y| image::Luma([(10 * x + y) as u8]));
    let mut bytes = Vec::new();
    image::DynamicImage::ImageLuma8(grey)
        .write_to(&mut Cursor::new(&mut bytes), image::ImageOutputFormat::Png)
        .unwrap();
    let frame = Frame::decode(&bytes).unwrap();
    assert_eq!((frame.width(), frame.height()), (3, 2));
    assert_eq!(frame.pixel(2, 1), (21, 21, 21));
    assert_eq!(frame.samples().len(), 18);
}

#[test]
fn capture_that_is_no_image_fails() {
    let source = context("0,0 6,4").eyes().unwrap();
    assert!(matches!(source.next_frame(b"not an image"), Err(Failure::Capture)));
    assert!(matches!(source.next_frame(&[]), Err(Failure::Capture)));
    assert!(matches!(Frame::decode(b"\x89PNG\r\n\x1a\ncut"), Err(Undecodable)));
}
