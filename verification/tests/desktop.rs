use angler::control::{Failure, ToController};
use angler::win32::bitmap::Bitmap;
use angler::win32::keycodes::{VK_F24, VK_LBUTTON, VK_OEM_3, VK_OEM_CLEAR, VK_RETURN};
use angler::win32::{
    convert_kb, convert_mouse, create_mouse_input, kb_input, mouse_input, mouse_input_list, Input,
    KeyEvent, KeyEventFlags, KeyInput, MouseEvent, MouseEventFlags, MouseInput, Rect,
    Win32Controller, Win32Eyes, INPUT_KEYBOARD, INPUT_MOUSE, SIZE,
};

const WINDOW: Rect = Rect { left: 100, top: 50, right: 900, bottom: 650 };
const SCREEN: SIZE = SIZE { width: 1920, height: 1080 };

fn hands() -> Win32Controller {
    Win32Eyes::new(0x1234).unwrap().make_hands()
}

fn mouse(dx: i32, dy: i32, bits: u32) -> Input {
    Input::Mouse(MouseInput {
        dx,
        dy,
        mouse_data: 0,
        flags: MouseEventFlags { bits },
        time: 0,
        extra_info: 0,
    })
}

fn key(vk: u16, bits: u32) -> Input {
    Input::Keyboard(KeyInput { vk, scan: 0, flags: KeyEventFlags { bits }, time: 0, extra_info: 0 })
}

#[test]
fn size_of_a_rectangle() {
    assert_eq!(SIZE::of(WINDOW), SIZE { width: 800, height: 600 });
    assert_eq!(
        SIZE::of(Rect { left: 5, top: 9, right: 2, bottom: 9 }),
        SIZE { width: -3, height: 0 }
    );
    assert_eq!(
        SIZE::of(Rect { left: -1, top: 0, right: i32::MAX - 1, bottom: i32::MAX }),
        SIZE { width: i32::MAX, height: i32::MAX }
    );
}

#[test]
fn key_codes() {
    assert_eq!(VK_LBUTTON, 0x01);
    assert_eq!(VK_RETURN, 0x0d);
    assert_eq!(VK_F24, 0x87);
    assert_eq!(VK_OEM_3, 0xc0);
    assert_eq!(VK_OEM_CLEAR, 0xfe);
}

#[test]
fn mouse_event_bits() {
    let all = [
        (MouseEvent::Move, 0x0001),
        (MouseEvent::LeftDown, 0x0002),
        (MouseEvent::LeftUp, 0x0004),
        (MouseEvent::RightDown, 0x0008),
        (MouseEvent::RightUp, 0x0010),
        (MouseEvent::MiddleDown, 0x0020),
        (MouseEvent::MiddleUp, 0x0040),
        (MouseEvent::XDown, 0x0080),
        (MouseEvent::XUp, 0x0100),
        (MouseEvent::Wheel, 0x0800),
        (MouseEvent::HWheel, 0x1000),
        (MouseEvent::MoveNoCoalesce, 0x2000),
        (MouseEvent::VirtualDesk, 0x4000),
        (MouseEvent::Absolute, 0x8000),
    ];
    for (event, bit) in all {
        assert_eq!(event.bit(), bit);
        assert_eq!(MouseEventFlags::only(event).bits(), bit);
        for (other, _) in all {
            assert_eq!(MouseEventFlags::only(event).contains(other), other == event);
        }
    }
    let both = MouseEventFlags::only(MouseEvent::Move).with(MouseEvent::Absolute);
    assert_eq!(both.bits(), 0x8001);
    assert!(both.contains(MouseEvent::Move));
    assert!(both.contains(MouseEvent::Absolute));
    assert!(!both.contains(MouseEvent::LeftDown));
    assert_eq!(both.with(MouseEvent::Move), both);
}

#[test]
fn key_event_bits() {
    assert_eq!(KeyEvent::ExtendedKey.bit(), 0x0001);
    assert_eq!(KeyEvent::KeyUp.bit(), 0x0002);
    assert_eq!(KeyEvent::Unicode.bit(), 0x0004);
    assert_eq!(KeyEvent::ScanCode.bit(), 0x0008);
    assert_eq!(KeyEventFlags::empty().bits(), 0);
    assert_eq!(KeyEventFlags::only(KeyEvent::KeyUp).bits(), 2);
    assert_eq!(KeyEventFlags::empty().with(KeyEvent::KeyUp).with(KeyEvent::ScanCode).bits(), 10);
}

#[test]
fn records_are_marked_with_their_kind() {
    let mi = MouseInput {
        dx: 1,
        dy: 2,
        mouse_data: 3,
        flags: MouseEventFlags { bits: 4 },
        time: 5,
        extra_info: 6,
    };
    let ki = KeyInput { vk: 1, scan: 2, flags: KeyEventFlags { bits: 3 }, time: 4, extra_info: 5 };
    assert_eq!(convert_mouse(mi), Input::Mouse(mi));
    assert_eq!(convert_kb(ki), Input::Keyboard(ki));
    assert_eq!(convert_mouse(mi).kind(), 0);
    assert_eq!(convert_kb(ki).kind(), 1);
    assert_eq!(INPUT_MOUSE, 0);
    assert_eq!(INPUT_KEYBOARD, 1);
}

#[test]
fn plain_records() {
    assert_eq!(
        create_mouse_input(-3, 4, MouseEventFlags::only(MouseEvent::Wheel)),
        mouse(-3, 4, 0x0800)
    );
    assert_eq!(kb_input(VK_RETURN, KeyEventFlags::empty()), key(0x0d, 0));
    assert_eq!(kb_input(VK_OEM_3, KeyEventFlags::only(KeyEvent::KeyUp)), key(0xc0, 2));
}

#[test]
fn position_is_given_in_units_of_the_screen() {
    let flags = MouseEventFlags::only(MouseEvent::Move);
    // (100 + 860) * 65535 / 1920 = 32767, (50 + 490) * 65535 / 1080 = 32767
    assert_eq!(mouse_input(860, 490, WINDOW, SCREEN, flags), mouse(32767, 32767, 0x8001));
    assert_eq!(mouse_input(-100, -50, WINDOW, SCREEN, flags), mouse(0, 0, 0x8001));
    // 101 * 65535 / 1920 = 3447.4, 51 * 65535 / 1080 = 3094.7
    assert_eq!(mouse_input(1, 1, WINDOW, SCREEN, flags), mouse(3447, 3094, 0x8001));
    assert_eq!(mouse_input(1820, 1030, WINDOW, SCREEN, flags), mouse(65535, 65535, 0x8001));
}

#[test]
fn quotient_is_rounded_towards_zero() {
    let flags = MouseEventFlags::only(MouseEvent::Move);
    // -1 * 65535 / 1920 = -34.1, -2 * 65535 / 1080 = -121.4
    assert_eq!(mouse_input(-101, -52, WINDOW, SCREEN, flags), mouse(-34, -121, 0x8001));
    let mirrored = SIZE { width: -1920, height: -1080 };
    assert_eq!(mouse_input(1, 1, WINDOW, mirrored, flags), mouse(-3447, -3094, 0x8001));
    assert_eq!(mouse_input(-101, -52, WINDOW, mirrored, flags), mouse(34, 121, 0x8001));
    let origin = Rect { left: 0, top: 0, right: 1, bottom: 1 };
    let unit = SIZE { width: -1, height: 1 };
    assert_eq!(mouse_input(32768, -32768, origin, unit, flags), mouse(
        -2147450880,
        -2147450880,
        0x8001
    ));
}

#[test]
fn one_record_for_each_set_of_events() {
    let sets = [
        MouseEventFlags::only(MouseEvent::RightDown),
        MouseEventFlags::only(MouseEvent::RightUp).with(MouseEvent::Absolute),
        MouseEventFlags { bits: 0 },
    ];
    assert_eq!(mouse_input_list(860, 490, WINDOW, SCREEN, &sets), vec![
        mouse(32767, 32767, 0x8008),
        mouse(32767, 32767, 0x8010),
        mouse(32767, 32767, 0x8000),
    ]);
    assert_eq!(mouse_input_list(860, 490, WINDOW, SCREEN, &[]), vec![]);
}

#[test]
fn records_of_the_sink() {
    assert_eq!(hands().move_mouse(860, 490, WINDOW, SCREEN), vec![mouse(32767, 32767, 0x8001)]);
    assert_eq!(hands().click_mouse(860, 490, WINDOW, SCREEN), vec![
        mouse(32767, 32767, 0x8002),
        mouse(32767, 32767, 0x8004),
    ]);
    assert_eq!(hands().cast(), vec![key(0xc0, 0), key(0xc0, 2)]);
}

#[test]
fn window_that_was_not_found() {
    assert_eq!(Win32Eyes::new(0), Err(Failure::Construction));
    assert_eq!(Win32Controller::new(0), Err(Failure::Construction));
    assert_eq!(Win32Eyes::new(-1), Ok(Win32Eyes { hwnd: -1 }));
    assert_eq!(Win32Controller::new(99), Ok(Win32Controller { hwnd: 99 }));
    assert_eq!(Win32Eyes::new(99).unwrap().make_hands(), Win32Controller { hwnd: 99 });
}

#[test]
fn records_for_each_action() {
    let mut sink = hands();
    assert_eq!(
        sink.inputs_for(ToController::MoveMouse([860, 490]), WINDOW, SCREEN),
        vec![mouse(32767, 32767, 0x8001)]
    );
    assert_eq!(
        sink.inputs_for(ToController::PerformClick([1, 1]), WINDOW, SCREEN),
        vec![mouse(3447, 3094, 0x8002), mouse(3447, 3094, 0x8004)]
    );
    assert_eq!(
        sink.inputs_for(ToController::CastHook, WINDOW, SCREEN),
        vec![key(0xc0, 0), key(0xc0, 2)]
    );
    assert_eq!(sink, hands());
}

#[test]
fn bitmap_for_a_window() {
    let bitmap = Bitmap::new(WINDOW);
    assert_eq!(bitmap, Bitmap { width: 800, height: 600, planes: 1, bit_count: 32 });
    assert_eq!(bitmap.width(), 800);
    assert_eq!(bitmap.height(), 600);
    assert_eq!(bitmap.buffer_len(), Some(800 * 600 * 4));
    assert!(bitmap.fits(WINDOW));
    assert!(bitmap.fits(Rect { left: 0, top: 0, right: 800, bottom: 600 }));
    assert!(!bitmap.fits(Rect { left: 100, top: 50, right: 901, bottom: 650 }));
    assert!(!bitmap.fits(Rect { left: 100, top: 50, right: 900, bottom: 649 }));
    assert!(!bitmap.fits(Rect { left: i32::MIN, top: i32::MIN, right: i32::MAX, bottom: i32::MAX }));
    let turned = Bitmap { width: -1, height: -1, planes: 1, bit_count: 32 };
    assert!(turned.fits(Rect { left: 3, top: 3, right: 2, bottom: 2 }));
    assert!(!turned.fits(Rect { left: i32::MIN, top: i32::MIN, right: i32::MAX, bottom: i32::MAX }));
}

#[test]
fn bitmap_of_negative_size_has_no_buffer() {
    let bitmap = Bitmap::new(Rect { left: 5, top: 0, right: 2, bottom: 4 });
    assert_eq!(bitmap.buffer_len(), None);
    assert!(bitmap.to_image(&[0; 64]).is_none());
    let empty = Bitmap::new(Rect { left: 5, top: 0, right: 5, bottom: 4 });
    assert_eq!(empty.buffer_len(), Some(0));
    assert!(empty.to_image(&[]).is_some());
}

#[test]
fn bitmap_rows_are_turned_and_channels_swapped() {
    let bitmap = Bitmap { width: 2, height: 3, planes: 1, bit_count: 32 };
    // rows from the bottom up, each pixel blue, green, red, unused
    let buf: Vec<u8> = vec![
        31, 32, 33, 0, 34, 35, 36, 0, // bottom row
        21, 22, 23, 0, 24, 25, 26, 0, // middle row
        11, 12, 13, 0, 14, 15, 16, 0, // top row
    ];
    let frame = bitmap.to_image(&buf).unwrap();
    assert_eq!((frame.width(), frame.height()), (2, 3));
    assert_eq!(frame.samples(), &vec![
        13, 12, 11, 16, 15, 14, // top row
        23, 22, 21, 26, 25, 24, // middle row
        33, 32, 31, 36, 35, 34, // bottom row
    ]);
    assert_eq!(frame.pixel(1, 0), (16, 15, 14));
    assert_eq!(frame.pixel(0, 2), (33, 32, 31));
}

#[test]
fn bitmap_needs_its_whole_buffer() {
    let bitmap = Bitmap { width: 2, height: 3, planes: 1, bit_count: 32 };
    assert!(bitmap.to_image(&[0; 23]).is_none());
    assert!(bitmap.to_image(&[0; 24]).is_some());
    assert!(bitmap.to_image(&[0; 30]).is_some());
}
