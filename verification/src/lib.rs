//! Watches a region of a window for a small coloured marker and answers its
//! appearance and drift with synthetic input.
//!
//! Three stages work in a line. A frame source captures the watched region,
//! the decision engine finds the marker in each frame and follows it over
//! time, and an action sink performs what the engine decides. The library
//! holds what the stages compute and decide:
//!
//! - [`color`] and [`frame`]: pixels, their colours, and frames of them;
//! - [`recog`]: marker detection and the engine's cycle of trigger, follow
//!   and click;
//! - [`control`]: the messages between the stages, their queues, and what a
//!   backend has to offer;
//! - [`wayland`], [`xserver`] and [`win32`]: for each backend, how a frame is
//!   made of what the platform hands out, and which calls, requests or
//!   records perform an action;
//! - [`text`]: words, fields and decimal numbers, as the helper programs of
//!   the backends print and take them;
//! - [`util`] and [`chan`]: links between threads, and the channels and the
//!   clock of the standard library.
//!
//! Capturing, injecting and running threads is left to the program around
//! the library.

pub mod chan;
pub mod color;
pub mod control;
pub mod frame;
pub mod recog;
pub mod text;
pub mod util;
pub mod wayland;
pub mod win32;
pub mod xserver;
