//! The backend for the Windows desktop: the input records that perform an
//! action, and where on the screen they point.

pub mod bitmap;
pub mod keycodes;

use crate::control::{Failure, ToController};
use vstd::prelude::*;

verus! {

/// A rectangle of the screen, by its edges.
#[derive(Debug, Clone, Copy, PartialEq, Eq, Structural)]
pub struct Rect {
    pub left: i32,
    pub top: i32,
    pub right: i32,
    pub bottom: i32,
}

impl Rect {
    /// The rectangle's width and height fit an `i32`.
    pub open spec fn measurable(self) -> bool {
        i32::MIN <= self.right - self.left <= i32::MAX && i32::MIN <= self.bottom - self.top
            <= i32::MAX
    }
}

/// A width and a height.
#[derive(Debug, Clone, Copy, PartialEq, Eq, Structural)]
pub struct SIZE {
    pub width: i32,
    pub height: i32,
}

impl SIZE {
    /// The size of a rectangle.
    pub fn of(r: Rect) -> (size: Self)
        requires
            r.measurable(),
        ensures
            size.width == r.right - r.left,
            size.height == r.bottom - r.top,
    {
        Self { width: r.right - r.left, height: r.bottom - r.top }
    }
}

/// What a mouse input record can report or ask for.
#[derive(Debug, Clone, Copy, PartialEq, Eq, Structural)]
pub enum MouseEvent {
    /// Movement occurred.
    Move,
    /// The left button was pressed.
    LeftDown,
    /// The left button was released.
    LeftUp,
    /// The right button was pressed.
    RightDown,
    /// The right button was released.
    RightUp,
    /// The middle button was pressed.
    MiddleDown,
    /// The middle button was released.
    MiddleUp,
    /// An X button was pressed.
    XDown,
    /// An X button was released.
    XUp,
    /// The wheel was moved, if the mouse has a wheel.
    Wheel,
    /// The wheel was moved horizontally, if the mouse has a wheel.
    HWheel,
    /// The WM_MOUSEMOVE messages will not be coalesced.
    MoveNoCoalesce,
    /// Maps coordinates to the entire desktop.
    VirtualDesk,
    /// The dx and dy members contain normalized absolute coordinates.
    Absolute,
}

impl MouseEvent {
    /// The bit that stands for the event in a record's flags.
    pub open spec fn mask(self) -> u32 {
        match self {
            MouseEvent::Move => 0x0001,
            MouseEvent::LeftDown => 0x0002,
            MouseEvent::LeftUp => 0x0004,
            MouseEvent::RightDown => 0x0008,
            MouseEvent::RightUp => 0x0010,
            MouseEvent::MiddleDown => 0x0020,
            MouseEvent::MiddleUp => 0x0040,
            MouseEvent::XDown => 0x0080,
            MouseEvent::XUp => 0x0100,
            MouseEvent::Wheel => 0x0800,
            MouseEvent::HWheel => 0x1000,
            MouseEvent::MoveNoCoalesce => 0x2000,
            MouseEvent::VirtualDesk => 0x4000,
            MouseEvent::Absolute => 0x8000,
        }
    }

    /// The bit that stands for the event in a record's flags.
    pub fn bit(self) -> (bit: u32)
        ensures
            bit == self.mask(),
    {
        match self {
            MouseEvent::Move => 0x0001,
            MouseEvent::LeftDown => 0x0002,
            MouseEvent::LeftUp => 0x0004,
            MouseEvent::RightDown => 0x0008,
            MouseEvent::RightUp => 0x0010,
            MouseEvent::MiddleDown => 0x0020,
            MouseEvent::MiddleUp => 0x0040,
            MouseEvent::XDown => 0x0080,
            MouseEvent::XUp => 0x0100,
            MouseEvent::Wheel => 0x0800,
            MouseEvent::HWheel => 0x1000,
            MouseEvent::MoveNoCoalesce => 0x2000,
            MouseEvent::VirtualDesk => 0x4000,
            MouseEvent::Absolute => 0x8000,
        }
    }
}

/// The flags of a mouse input record: a set of events.
#[derive(Debug, Clone, Copy, PartialEq, Eq, Structural)]
pub struct MouseEventFlags {
    pub bits: u32,
}

impl MouseEventFlags {
    /// The set that holds `event` alone.
    pub fn only(event: MouseEvent) -> (flags: Self)
        ensures
            flags.bits == event.mask(),
    {
        Self { bits: event.bit() }
    }

    /// The set with `event` added.
    pub fn with(self, event: MouseEvent) -> (flags: Self)
        ensures
            flags.bits == self.bits | event.mask(),
    {
        Self { bits: self.bits | event.bit() }
    }

    /// The flags as the number that the record holds.
    pub fn bits(&self) -> (bits: u32)
        ensures
            bits == self.bits,
    {
        self.bits
    }

    /// `event` is in the set.
    pub open spec fn has(self, event: MouseEvent) -> bool {
        self.bits & event.mask() == event.mask()
    }

    /// Tells whether `event` is in the set.
    pub fn contains(&self, event: MouseEvent) -> (found: bool)
        ensures
            found == self.has(event),
    {
        let bit: u32 = event.bit();
        self.bits & bit == bit
    }
}

/// What a keyboard input record can say of its key.
#[derive(Debug, Clone, Copy, PartialEq, Eq, Structural)]
pub enum KeyEvent {
    /// If specified, the wScan scan code consists of a sequence of two bytes,
    /// where the first byte has a value of 0xE0.
    ExtendedKey,
    /// If specified, the key is being released. If not specified, the key is
    /// being pressed.
    KeyUp,
    /// If specified, wScan identifies the key and wVk is ignored.
    ScanCode,
    /// If specified, the system synthesizes a VK_PACKET keystroke.
    Unicode,
}

impl KeyEvent {
    /// The bit that stands for the event in a record's flags.
    pub open spec fn mask(self) -> u32 {
        match self {
            KeyEvent::ExtendedKey => 0x0001,
            KeyEvent::KeyUp => 0x0002,
            KeyEvent::ScanCode => 0x0008,
            KeyEvent::Unicode => 0x0004,
        }
    }

    /// The bit that stands for the event in a record's flags.
    pub fn bit(self) -> (bit: u32)
        ensures
            bit == self.mask(),
    {
        match self {
            KeyEvent::ExtendedKey => 0x0001,
            KeyEvent::KeyUp => 0x0002,
            KeyEvent::ScanCode => 0x0008,
            KeyEvent::Unicode => 0x0004,
        }
    }
}

/// The flags of a keyboard input record: a set of events.
#[derive(Debug, Clone, Copy, PartialEq, Eq, Structural)]
pub struct KeyEventFlags {
    pub bits: u32,
}

impl KeyEventFlags {
    /// The empty set: the key is pressed.
    pub fn empty() -> (flags: Self)
        ensures
            flags.bits == 0,
    {
        Self { bits: 0 }
    }

    /// The set that holds `event` alone.
    pub fn only(event: KeyEvent) -> (flags: Self)
        ensures
            flags.bits == event.mask(),
    {
        Self { bits: event.bit() }
    }

    /// The set with `event` added.
    pub fn with(self, event: KeyEvent) -> (flags: Self)
        ensures
            flags.bits == self.bits | event.mask(),
    {
        Self { bits: self.bits | event.bit() }
    }

    /// The flags as the number that the record holds.
    pub fn bits(&self) -> (bits: u32)
        ensures
            bits == self.bits,
    {
        self.bits
    }
}

/// A mouse input record.
#[derive(Debug, Clone, Copy, PartialEq, Eq, Structural)]
pub struct MouseInput {
    pub dx: i32,
    pub dy: i32,
    pub mouse_data: u32,
    pub flags: MouseEventFlags,
    pub time: u32,
    pub extra_info: usize,
}

/// A keyboard input record.
#[derive(Debug, Clone, Copy, PartialEq, Eq, Structural)]
pub struct KeyInput {
    pub vk: u16,
    pub scan: u16,
    pub flags: KeyEventFlags,
    pub time: u32,
    pub extra_info: usize,
}

/// An input record with its kind.
#[derive(Debug, Clone, Copy, PartialEq, Eq, Structural)]
pub enum Input {
    Mouse(MouseInput),
    Keyboard(KeyInput),
}

/// The number that marks a mouse record.
pub const INPUT_MOUSE: u32 = 0;

/// The number that marks a keyboard record.
pub const INPUT_KEYBOARD: u32 = 1;

impl Input {
    /// The number that marks the record's kind.
    pub fn kind(&self) -> (kind: u32)
        ensures
            kind == (match *self {
                Input::Mouse(_) => INPUT_MOUSE,
                Input::Keyboard(_) => INPUT_KEYBOARD,
            }),
    {
        match self {
            Input::Mouse(_) => INPUT_MOUSE,
            Input::Keyboard(_) => INPUT_KEYBOARD,
        }
    }
}

/// The quotient of `a` by `b`, rounded towards zero.
pub open spec fn quotient(a: int, b: int) -> int {
    if a >= 0 {
        a / b
    } else {
        -((-a) / b)
    }
}

/// A coordinate `v` of a screen that is `extent` wide or high, in the units
/// of an absolute mouse record: the screen spans 0 to 65535.
pub open spec fn normalized(v: int, extent: int) -> int {
    quotient(v * 65535, extent)
}

/// Position `(x, y)` of a window can be given in the units of an absolute
/// mouse record: the screen has a width and a height, and nothing on the way
/// is too large for an `i32`.
pub open spec fn addressable(x: i32, y: i32, rect: Rect, screen: SIZE) -> bool {
    &&& screen.width != 0 && screen.height != 0
    &&& i32::MIN <= rect.left + x <= i32::MAX
    &&& i32::MIN <= rect.top + y <= i32::MAX
    &&& i32::MIN <= (rect.left + x) * 65535 <= i32::MAX
    &&& i32::MIN <= (rect.top + y) * 65535 <= i32::MAX
}

/// A quotient is no farther from zero than what was divided.
pub proof fn lemma_quotient_bound(a: int, b: int)
    requires
        b != 0,
    ensures
        a >= 0 ==> -a <= quotient(a, b) <= a,
        a < 0 ==> a <= quotient(a, b) <= -a,
{
    if a >= 0 {
        assert(-a <= a / b <= a) by (nonlinear_arith)
            requires
                a >= 0,
                b != 0,
        ;
    } else {
        let c = -a;
        assert(-c <= c / b <= c) by (nonlinear_arith)
            requires
                c >= 0,
                b != 0,
        ;
    }
}

/// The mouse record for position `(x, y)` of the window at `rect`, with the
/// events `m`: the position in absolute units, and the events of `m`
/// together with `Absolute`.
pub open spec fn mouse_record(x: i32, y: i32, rect: Rect, screen: SIZE, m: MouseEventFlags) -> Input {
    Input::Mouse(
        MouseInput {
            dx: normalized(rect.left + x, screen.width as int) as i32,
            dy: normalized(rect.top + y, screen.height as int) as i32,
            mouse_data: 0,
            flags: MouseEventFlags { bits: m.bits | MouseEvent::Absolute.mask() },
            time: 0,
            extra_info: 0,
        },
    )
}

/// The keyboard record for the key `vk` with the events `flags`.
pub open spec fn key_record(vk: u16, flags: KeyEventFlags) -> Input {
    Input::Keyboard(KeyInput { vk, scan: 0, flags, time: 0, extra_info: 0 })
}

/// Marks a keyboard record with its kind.
pub fn convert_kb(ki: KeyInput) -> (input: Input)
    ensures
        input == Input::Keyboard(ki),
{
    Input::Keyboard(ki)
}

/// Marks a mouse record with its kind.
pub fn convert_mouse(mi: MouseInput) -> (input: Input)
    ensures
        input == Input::Mouse(mi),
{
    Input::Mouse(mi)
}

/// A mouse record with the given coordinates and events.
pub fn create_mouse_input(x: i32, y: i32, m: MouseEventFlags) -> (input: Input)
    ensures
        input == Input::Mouse(
            MouseInput { dx: x, dy: y, mouse_data: 0, flags: m, time: 0, extra_info: 0 },
        ),
{
    convert_mouse(MouseInput { dx: x, dy: y, mouse_data: 0, flags: m, time: 0, extra_info: 0 })
}

/// A keyboard record for the key `vk`.
pub fn kb_input(vk: u16, flags: KeyEventFlags) -> (input: Input)
    ensures
        input == key_record(vk, flags),
{
    convert_kb(KeyInput { vk, scan: 0, flags, time: 0, extra_info: 0 })
}

/// The mouse record for position `(x, y)` of the window at `rect`, on a
/// screen of size `screen`.
pub fn mouse_input(x: i32, y: i32, rect: Rect, screen: SIZE, m: MouseEventFlags) -> (input: Input)
    requires
        addressable(x, y, rect, screen),
    ensures
        input == mouse_record(x, y, rect, screen, m),
{
    let x: i32 = rect.left + x;
    let y: i32 = rect.top + y;
    proof {
        lemma_quotient_bound(x * 65535, screen.width as int);
        lemma_quotient_bound(y * 65535, screen.height as int);
    }
    create_mouse_input(
        x * 65535 / screen.width,
        y * 65535 / screen.height,
        m.with(MouseEvent::Absolute),
    )
}

/// The mouse records for one position, one for each set of events in `m`.
pub fn mouse_input_list(x: i32, y: i32, rect: Rect, screen: SIZE, m: &[MouseEventFlags]) -> (inputs:
    Vec<Input>)
    requires
        addressable(x, y, rect, screen),
    ensures
        inputs@ == m@.map_values(|flags: MouseEventFlags| mouse_record(x, y, rect, screen, flags)),
{
    let mut inputs: Vec<Input> = Vec::new();
    let mut i: usize = 0;
    while i < m.len()
        invariant
            i <= m@.len(),
            addressable(x, y, rect, screen),
            inputs@ == m@.take(i as int).map_values(
                |flags: MouseEventFlags| mouse_record(x, y, rect, screen, flags),
            ),
        decreases m@.len() - i,
    {
        inputs.push(mouse_input(x, y, rect, screen, m[i]));
        i = i + 1;
        assert(inputs@ =~= m@.take(i as int).map_values(
            |flags: MouseEventFlags| mouse_record(x, y, rect, screen, flags),
        ));
    }
    assert(m@.take(i as int) == m@);
    inputs
}

/// The records that move the pointer to a position of the window.
pub open spec fn move_records(x: i32, y: i32, rect: Rect, screen: SIZE) -> Seq<Input> {
    seq![mouse_record(x, y, rect, screen, MouseEventFlags { bits: MouseEvent::Move.mask() })]
}

/// The records that click the left button at a position of the window: the
/// button goes down, then up.
pub open spec fn click_records(x: i32, y: i32, rect: Rect, screen: SIZE) -> Seq<Input> {
    seq![
        mouse_record(x, y, rect, screen, MouseEventFlags { bits: MouseEvent::LeftDown.mask() }),
        mouse_record(x, y, rect, screen, MouseEventFlags { bits: MouseEvent::LeftUp.mask() }),
    ]
}

/// The records that start a cycle: the key goes down, then up, once.
pub open spec fn cast_records() -> Seq<Input> {
    seq![
        key_record(keycodes::VK_OEM_3, KeyEventFlags { bits: 0 }),
        key_record(keycodes::VK_OEM_3, KeyEventFlags { bits: KeyEvent::KeyUp.mask() }),
    ]
}

/// The records that perform an action, in order.
pub open spec fn records_of(action: ToController, rect: Rect, screen: SIZE) -> Seq<Input> {
    match action {
        ToController::MoveMouse(at) => move_records(at[0], at[1], rect, screen),
        ToController::PerformClick(at) => click_records(at[0], at[1], rect, screen),
        ToController::CastHook => cast_records(),
    }
}

/// The frame source of this backend: it looks at one window, known by its
/// handle.
#[derive(Debug, Clone, Copy, PartialEq, Eq, Structural)]
pub struct Win32Eyes {
    pub hwnd: isize,
}

/// The action sink of this backend: it speaks to one window, known by its
/// handle.
#[derive(Debug, Clone, Copy, PartialEq, Eq, Structural)]
pub struct Win32Controller {
    pub hwnd: isize,
}

impl Win32Eyes {
    /// A frame source for the window that the desktop found under a name.
    /// The handle zero says that it found none: a construction failure.
    pub fn new(found: isize) -> (made: Result<Self, Failure>)
        ensures
            found != 0 ==> made == Ok::<Win32Eyes, Failure>(Win32Eyes { hwnd: found }),
            found == 0 ==> made == Err::<Win32Eyes, Failure>(Failure::Construction),
    {
        if found == 0 {
            Err(Failure::Construction)
        } else {
            Ok(Self { hwnd: found })
        }
    }

    /// An action sink for the same window.
    pub fn make_hands(&self) -> (hands: Win32Controller)
        ensures
            hands.hwnd == self.hwnd,
    {
        Win32Controller { hwnd: self.hwnd }
    }
}

impl Win32Controller {
    /// An action sink for the window that the desktop found under a name.
    /// The handle zero says that it found none: a construction failure.
    pub fn new(found: isize) -> (made: Result<Self, Failure>)
        ensures
            found != 0 ==> made == Ok::<Win32Controller, Failure>(Win32Controller { hwnd: found }),
            found == 0 ==> made == Err::<Win32Controller, Failure>(Failure::Construction),
    {
        match Win32Eyes::new(found) {
            Ok(eyes) => Ok(Self { hwnd: eyes.hwnd }),
            Err(e) => Err(e),
        }
    }

    /// The records that move the pointer to a position of the window, which
    /// lies at `rect` on a screen of size `screen`.
    pub fn move_mouse(&self, x: i32, y: i32, rect: Rect, screen: SIZE) -> (inputs: Vec<Input>)
        requires
            addressable(x, y, rect, screen),
        ensures
            inputs@ == move_records(x, y, rect, screen),
    {
        let events = [MouseEventFlags::only(MouseEvent::Move)];
        let inputs = mouse_input_list(x, y, rect, screen, events.as_slice());
        assert(inputs@ =~= move_records(x, y, rect, screen));
        inputs
    }

    /// The records that click the left button at a position of the window.
    pub fn click_mouse(&self, x: i32, y: i32, rect: Rect, screen: SIZE) -> (inputs: Vec<Input>)
        requires
            addressable(x, y, rect, screen),
        ensures
            inputs@ == click_records(x, y, rect, screen),
    {
        let events = [
            MouseEventFlags::only(MouseEvent::LeftDown),
            MouseEventFlags::only(MouseEvent::LeftUp),
        ];
        let inputs = mouse_input_list(x, y, rect, screen, events.as_slice());
        assert(inputs@ =~= click_records(x, y, rect, screen));
        inputs
    }

    /// The records that press and release the key which starts a cycle.
    pub fn cast(&mut self) -> (inputs: Vec<Input>)
        ensures
            inputs@ == cast_records(),
            *final(self) == *old(self),
    {
        let mut inputs: Vec<Input> = Vec::new();
        inputs.push(kb_input(keycodes::VK_OEM_3, KeyEventFlags::empty()));
        inputs.push(kb_input(keycodes::VK_OEM_3, KeyEventFlags::only(KeyEvent::KeyUp)));
        inputs
    }

    /// The records that perform an action, in order.
    pub fn inputs_for(&mut self, action: ToController, rect: Rect, screen: SIZE) -> (inputs: Vec<
        Input,
    >)
        requires
            action matches ToController::MoveMouse(at) ==> addressable(at[0], at[1], rect, screen),
            action matches ToController::PerformClick(at) ==> addressable(
                at[0],
                at[1],
                rect,
                screen,
            ),
        ensures
            inputs@ == records_of(action, rect, screen),
            *final(self) == *old(self),
    {
        match action {
            ToController::MoveMouse(at) => self.move_mouse(at[0], at[1], rect, screen),
            ToController::PerformClick(at) => self.click_mouse(at[0], at[1], rect, screen),
            ToController::CastHook => self.cast(),
        }
    }
}

} // verus!
