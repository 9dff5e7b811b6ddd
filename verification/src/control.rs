//! What the three stages of the pipeline say to each other, and what a
//! backend has to offer.

use crate::frame::Frame;
use std::sync::mpsc::{Receiver, SyncSender};
use vstd::prelude::*;

verus! {

/// What the frame source tells the decision engine.
pub enum ToBrain {
    NextFrame(Frame),
}

/// What the decision engine tells the action sink. Positions are relative to
/// the watched window.
#[derive(Clone, Copy, Debug, PartialEq, Eq)]
pub enum ToController {
    /// Move the mouse to a position relative to the target window
    MoveMouse([i32; 2]),
    /// Perform a mouse click at a position relative to the target window
    PerformClick([i32; 2]),
    /// Press and release the key that starts a cycle
    CastHook,
}

/// Why a stage of the pipeline gave up.
#[derive(Clone, Copy, Debug, PartialEq, Eq, Structural)]
pub enum Failure {
    /// The window, display or region could not be found.
    Construction,
    /// A frame could not be captured or read.
    Capture,
    /// An input event could not be delivered.
    Injection,
    /// The stage at the other end of a queue is gone.
    Disconnected,
}

/// How many messages each queue between two stages holds.
pub const QUEUE_CAPACITY: usize = 2;

/// The ends of the two queues of a pipeline.
pub struct Queues {
    pub frames_in: SyncSender<ToBrain>,
    pub frames_out: Receiver<ToBrain>,
    pub actions_in: SyncSender<ToController>,
    pub actions_out: Receiver<ToController>,
}

/// The number of frames that a frame queue was made to hold.
pub uninterp spec fn frame_queue_bound(queue: SyncSender<ToBrain>) -> nat;

/// The number of actions that an action queue was made to hold.
pub uninterp spec fn action_queue_bound(queue: SyncSender<ToController>) -> nat;

/// `std::sync::mpsc::sync_channel`, for frames: a queue that holds at most
/// `bound` messages, and its two ends. A sender waits while the queue is
/// full.
#[verifier::external_body]
fn frame_queue(bound: usize) -> (ends: (SyncSender<ToBrain>, Receiver<ToBrain>))
    ensures
        frame_queue_bound(ends.0) == bound,
{
    std::sync::mpsc::sync_channel(bound)
}

/// `std::sync::mpsc::sync_channel`, for actions: a queue that holds at most
/// `bound` messages, and its two ends. A sender waits while the queue is
/// full.
#[verifier::external_body]
fn action_queue(bound: usize) -> (ends: (SyncSender<ToController>, Receiver<ToController>))
    ensures
        action_queue_bound(ends.0) == bound,
{
    std::sync::mpsc::sync_channel(bound)
}

/// Makes the two bounded queues of a pipeline: frames flow from the source to
/// the engine, actions from the engine to the sink. Each queue holds
/// `QUEUE_CAPACITY` messages.
pub fn pipeline_queues() -> (queues: Queues)
    ensures
        frame_queue_bound(queues.frames_in) == QUEUE_CAPACITY,
        action_queue_bound(queues.actions_in) == QUEUE_CAPACITY,
{
    let (frames_in, frames_out) = frame_queue(QUEUE_CAPACITY);
    let (actions_in, actions_out) = action_queue(QUEUE_CAPACITY);
    Queues { frames_in, frames_out, actions_in, actions_out }
}

/// Builds a frame source and an action sink that share what the backend
/// found out about the window.
pub trait GuiContext: Sized + Send + Sync {
    type Controller: Controller;

    type Eyes: Eyes;

    fn from_window_name(name: &str) -> Result<Self, Failure>;

    fn controller(&self) -> Result<Self::Controller, Failure>;

    fn eyes(&self) -> Result<Self::Eyes, Failure>;
}

/// An action sink: takes actions from its queue and performs them, until
/// something fails.
pub trait Controller: Sized + Send + Sync {
    fn run(self, recv: Receiver<ToController>) -> Result<(), Failure>;
}

/// A frame source: captures frames and puts them into its queue, until
/// something fails.
pub trait Eyes: Sized + Send + Sync {
    fn run(self, send: SyncSender<ToBrain>) -> Result<(), Failure>;
}

} // verus!
