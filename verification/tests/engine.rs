use angler::control::{pipeline_queues, Failure, ToBrain, ToController, QUEUE_CAPACITY};
use angler::frame::Frame;
use angler::recog::{
    delivered, find_bobber, received, Brain, HookCast, CAST_TIMEOUT_NANOS, SETTLE_MILLIS,
};
use std::sync::mpsc::{RecvError, SendError, TrySendError};
use std::time::{Duration, Instant};

const MILLI: u128 = 1_000_000;
const SECOND: u128 = 1_000_000_000;

fn scene(cx: u32, cy: u32) -> Frame {
    let mut picture = image::RgbImage::from_pixel(90, 90, image::Rgb([20, 60, 120]));
    for y in cy - 2..=cy + 2 {
        for x in cx - 2..=cx + 2 {
            picture.put_pixel(x, y, image::Rgb([255, 40, 40]));
        }
    }
    Frame::from_raw(90, 90, picture.into_raw()).unwrap()
}

fn tracking() -> Brain {
    let mut brain = Brain::new();
    assert_eq!(brain.cast(), Ok(ToController::CastHook));
    brain
}

#[test]
fn limits_are_those_of_the_engine() {
    assert_eq!(SETTLE_MILLIS, 3000);
    assert_eq!(CAST_TIMEOUT_NANOS, 30 * SECOND);
    assert_eq!(QUEUE_CAPACITY, 2);
}

#[test]
fn idle_engine_is_due_whatever_the_clock_reads() {
    let brain = Brain::new();
    assert!(brain.is_due());
    assert!(brain.is_due_after(0));
    assert!(brain.is_due_after(u128::MAX));
    assert_eq!(brain.elapsed_nanos(), None);
    let brain = Brain::default();
    assert!(brain.is_due());
}

#[test]
fn cast_starts_a_cycle() {
    let mut brain = Brain::new();
    assert_eq!(brain.cast(), Ok(ToController::CastHook));
    assert!(!brain.is_due());
    assert!(!brain.is_due_after(0));
    assert!(brain.elapsed_nanos().is_some());
}

#[test]
fn cycle_times_out_after_thirty_seconds() {
    let brain = tracking();
    assert!(!brain.is_due_after(29 * SECOND));
    assert!(!brain.is_due_after(30 * SECOND));
    assert!(brain.is_due_after(30 * SECOND + 1));
    assert!(brain.is_due_after(31 * SECOND));
}

#[test]
fn timeout_discards_the_anchor() {
    let mut brain = tracking();
    assert_eq!(brain.react_after(SECOND, Some((40, 40))), vec![ToController::MoveMouse([40, 40])]);
    assert_eq!(
        brain.react_after(4 * SECOND, Some((41, 40))),
        vec![ToController::MoveMouse([41, 40])]
    );
    assert!(brain.is_due_after(30 * SECOND + 1));
    assert_eq!(brain.cast(), Ok(ToController::CastHook));
    // the new cycle has no anchor: a far position is a first observation again
    assert_eq!(
        brain.react_after(4 * SECOND, Some((80, 80))),
        vec![ToController::MoveMouse([80, 80])]
    );
    assert!(!brain.is_due_after(0));
}

#[test]
fn frame_without_marker_triggers_nothing() {
    let mut brain = tracking();
    assert_eq!(brain.react_after(5 * SECOND, None), vec![]);
    assert!(!brain.is_due_after(5 * SECOND));
}

#[test]
fn no_click_before_the_settle_delay() {
    let mut brain = tracking();
    assert_eq!(brain.react_after(0, Some((45, 45))), vec![ToController::MoveMouse([45, 45])]);
    for (age, x, y) in [
        (MILLI, 0, 0),
        (SECOND, 89, 89),
        (2 * SECOND, i32::MAX, i32::MIN),
        (3000 * MILLI, 10, 80),
        (3000 * MILLI + MILLI - 1, 80, 10),
    ] {
        assert_eq!(
            brain.react_after(age, Some((x, y))),
            vec![ToController::MoveMouse([x, y])]
        );
        assert!(!brain.is_due_after(age));
    }
}

#[test]
fn first_observation_never_clicks() {
    let mut brain = tracking();
    assert_eq!(
        brain.react_after(10 * SECOND, Some((45, 45))),
        vec![ToController::MoveMouse([45, 45])]
    );
    assert!(!brain.is_due_after(10 * SECOND));
}

#[test]
fn small_drift_does_not_click() {
    let mut brain = tracking();
    brain.react_after(0, Some((45, 45)));
    for (x, y) in [(45, 45), (50, 45), (45, 40), (48, 49), (42, 41), (41, 48)] {
        assert_eq!(
            brain.react_after(4 * SECOND, Some((x, y))),
            vec![ToController::MoveMouse([x, y])]
        );
        assert!(!brain.is_due_after(4 * SECOND));
    }
}

#[test]
fn large_drift_clicks_once_and_ends_the_cycle() {
    for (x, y) in [(51, 45), (45, 39), (49, 49), (41, 41), (0, 0)] {
        let mut brain = tracking();
        brain.react_after(0, Some((45, 45)));
        assert_eq!(
            brain.react_after(3001 * MILLI, Some((x, y))),
            vec![ToController::MoveMouse([x, y]), ToController::PerformClick([x, y])]
        );
        assert!(brain.is_due_after(0));
        assert_eq!(brain.elapsed_nanos(), None);
    }
}

#[test]
fn anchor_stays_where_the_marker_was_first_seen() {
    let mut brain = tracking();
    brain.react_after(0, Some((45, 45)));
    brain.react_after(4 * SECOND, Some((48, 45)));
    brain.react_after(5 * SECOND, Some((50, 45)));
    // six pixels from the anchor, one from the last position
    assert_eq!(
        brain.react_after(6 * SECOND, Some((51, 45))),
        vec![ToController::MoveMouse([51, 45]), ToController::PerformClick([51, 45])]
    );
}

#[test]
fn distance_is_computed_without_overflow() {
    let mut brain = tracking();
    brain.react_after(0, Some((i32::MIN, i32::MIN)));
    assert_eq!(
        brain.react_after(4 * SECOND, Some((i32::MAX, i32::MAX))),
        vec![
            ToController::MoveMouse([i32::MAX, i32::MAX]),
            ToController::PerformClick([i32::MAX, i32::MAX])
        ]
    );
}

#[test]
fn hook_cast_registers_positions() {
    let mut cast = HookCast::new();
    assert!(!cast.register_pos_after(10 * SECOND, [10, 10]));
    assert!(!cast.register_pos_after(10 * SECOND, [13, 14]));
    assert!(cast.register_pos_after(10 * SECOND, [13, 15]));
    assert!(!cast.register_pos_after(3 * SECOND, [13, 15]));
    assert!(cast.register_pos_after(3001 * MILLI, [4, 10]));
    assert!(!cast.register_pos_after(3001 * MILLI, [5, 10]));
}

#[test]
fn hook_cast_by_the_clock() {
    let mut cast = HookCast::new();
    assert!(cast.elapsed_nanos() < 20 * SECOND);
    assert!(!cast.register_pos([10, 10]));
    // the cycle is younger than the settle delay
    assert!(!cast.register_pos([90, 90]));
}

#[test]
fn observe_by_the_clock() {
    let mut brain = tracking();
    assert_eq!(brain.observe(&scene(45, 45)), vec![ToController::MoveMouse([45, 45])]);
    assert_eq!(brain.observe(&scene(55, 52)), vec![ToController::MoveMouse([55, 52])]);
    // a block that leaves the watched part is seen in part
    assert_eq!(brain.observe(&scene(60, 60)), vec![ToController::MoveMouse([58, 58])]);
    let blank = Frame::from_raw(90, 90, vec![0u8; 90 * 90 * 3]).unwrap();
    assert_eq!(brain.observe(&blank), vec![]);
}

#[test]
fn block_in_frame_of_ninety_is_followed_then_clicked() {
    let still = scene(45, 45);
    let jumped = scene(52, 45);
    let mut brain = Brain::new();
    let mut sent = Vec::new();
    assert!(brain.is_due_after(0));
    sent.push(brain.cast().unwrap());
    let mut clicks = 0;
    for tick in 0..3300u128 {
        let age = tick * MILLI;
        assert!(!brain.is_due_after(age));
        let frame = if tick < 3200 { &still } else { &jumped };
        let actions = brain.react_after(age, find_bobber(frame));
        if tick < 3200 {
            assert_eq!(actions, vec![ToController::MoveMouse([45, 45])]);
        } else {
            assert_eq!(
                actions,
                vec![ToController::MoveMouse([52, 45]), ToController::PerformClick([52, 45])]
            );
            clicks += 1;
        }
        sent.extend(actions);
        if clicks > 0 {
            break;
        }
    }
    assert_eq!(clicks, 1);
    assert_eq!(sent.len(), 1 + 3200 + 2);
    assert_eq!(sent[0], ToController::CastHook);
    assert!(brain.is_due());
}

#[test]
fn turn_of_an_idle_engine_casts_without_a_frame() {
    let queues = pipeline_queues();
    let mut brain = Brain::new();
    assert_eq!(brain.turn(&queues.frames_out, &queues.actions_in), Ok(()));
    assert_eq!(queues.actions_out.try_recv(), Ok(ToController::CastHook));
    assert!(queues.actions_out.try_recv().is_err());
    assert!(!brain.is_due());
}

#[test]
fn turn_answers_the_next_frame() {
    let queues = pipeline_queues();
    let mut brain = tracking();
    queues.frames_in.send(ToBrain::NextFrame(scene(40, 50))).unwrap();
    assert_eq!(brain.turn(&queues.frames_out, &queues.actions_in), Ok(()));
    assert_eq!(queues.actions_out.try_recv(), Ok(ToController::MoveMouse([40, 50])));
    assert!(queues.actions_out.try_recv().is_err());
}

#[test]
fn turn_fails_when_the_source_is_gone() {
    let queues = pipeline_queues();
    let mut brain = tracking();
    drop(queues.frames_in);
    assert_eq!(brain.turn(&queues.frames_out, &queues.actions_in), Err(Failure::Disconnected));
}

#[test]
fn turn_fails_when_the_sink_is_gone() {
    let queues = pipeline_queues();
    let mut brain = Brain::new();
    drop(queues.actions_out);
    assert_eq!(brain.turn(&queues.frames_out, &queues.actions_in), Err(Failure::Disconnected));
}

#[test]
fn full_queue_takes_no_third_message() {
    let queues = pipeline_queues();
    queues.actions_in.try_send(ToController::CastHook).unwrap();
    queues.actions_in.try_send(ToController::MoveMouse([1, 2])).unwrap();
    match queues.actions_in.try_send(ToController::PerformClick([1, 2])) {
        Err(TrySendError::Full(kept)) => assert_eq!(kept, ToController::PerformClick([1, 2])),
        _ => panic!("a third message was taken"),
    }
    assert_eq!(queues.actions_out.recv(), Ok(ToController::CastHook));
    queues.actions_in.try_send(ToController::PerformClick([1, 2])).unwrap();
    assert_eq!(queues.actions_out.recv(), Ok(ToController::MoveMouse([1, 2])));
    assert_eq!(queues.actions_out.recv(), Ok(ToController::PerformClick([1, 2])));
    assert!(queues.actions_out.try_recv().is_err());
}

#[test]
fn cycle_that_started_earlier_is_as_old_as_the_clock_says() {
    let now = Instant::now();
    if let Some(start) = now.checked_sub(Duration::from_secs(10)) {
        let mut cast = HookCast::starting_at(start);
        assert!(cast.elapsed_nanos() >= 10 * SECOND);
        assert!(cast.elapsed_nanos() < 30 * SECOND);
        // the cycle is older than the settle delay
        assert!(!cast.register_pos([10, 10]));
        assert!(!cast.register_pos([13, 14]));
        assert!(cast.register_pos([90, 90]));
    }
    let mut cast = HookCast::starting_at(now);
    assert!(cast.elapsed_nanos() < 20 * SECOND);
    assert!(!cast.register_pos([10, 10]));
    assert!(!cast.register_pos([90, 90]));
}

#[test]
fn message_that_was_not_taken_means_disconnection() {
    assert_eq!(delivered::<u8>(Ok(())), Ok(()));
    assert_eq!(delivered(Err(SendError(7u8))), Err(Failure::Disconnected));
    assert_eq!(
        delivered(Err(SendError(ToController::CastHook))),
        Err(Failure::Disconnected)
    );
}

#[test]
fn frame_that_came_is_handed_on() {
    match received(Ok(ToBrain::NextFrame(scene(40, 50)))) {
        Ok(frame) => assert_eq!(find_bobber(&frame), Some((40, 50))),
        Err(_) => panic!("the frame was lost"),
    }
    assert!(matches!(received(Err(RecvError)), Err(Failure::Disconnected)));
}

#[test]
fn step_of_an_idle_engine_casts_whatever_is_seen() {
    for seen in [None, Some((0, None)), Some((5 * SECOND, Some((45, 45))))] {
        let mut brain = Brain::new();
        assert_eq!(brain.step(0, seen), vec![ToController::CastHook]);
        assert!(!brain.is_due_after(0));
        // the cycle that was started has no anchor
        assert_eq!(
            brain.step(0, Some((10 * SECOND, Some((80, 80))))),
            vec![ToController::MoveMouse([80, 80])]
        );
    }
}

#[test]
fn step_after_the_timeout_casts_and_forgets_the_anchor() {
    let mut brain = tracking();
    assert_eq!(brain.step(SECOND, Some((SECOND, Some((45, 45))))), vec![ToController::MoveMouse(
        [45, 45]
    )]);
    assert_eq!(
        brain.step(30 * SECOND + 1, Some((31 * SECOND, Some((80, 80))))),
        vec![ToController::CastHook]
    );
    assert_eq!(
        brain.step(4 * SECOND, Some((4 * SECOND, Some((80, 80))))),
        vec![ToController::MoveMouse([80, 80])]
    );
}

#[test]
fn step_without_a_frame_or_a_marker_sends_nothing() {
    let mut brain = tracking();
    assert_eq!(brain.step(SECOND, None), vec![]);
    assert_eq!(brain.step(SECOND, Some((2 * SECOND, None))), vec![]);
    assert_eq!(brain.step(30 * SECOND, Some((40 * SECOND, None))), vec![]);
    assert!(!brain.is_due_after(30 * SECOND));
}

#[test]
fn step_follows_then_clicks_then_casts() {
    let mut brain = Brain::new();
    let mut sent = brain.step(0, None);
    sent.extend(brain.step(MILLI, Some((2 * MILLI, Some((45, 45))))));
    sent.extend(brain.step(SECOND, Some((SECOND, Some((80, 45))))));
    sent.extend(brain.step(4 * SECOND, Some((4 * SECOND, Some((47, 45))))));
    sent.extend(brain.step(5 * SECOND, Some((5 * SECOND, Some((51, 45))))));
    sent.extend(brain.step(0, Some((9 * SECOND, Some((51, 45))))));
    assert_eq!(sent, vec![
        ToController::CastHook,
        ToController::MoveMouse([45, 45]),
        ToController::MoveMouse([80, 45]),
        ToController::MoveMouse([47, 45]),
        ToController::MoveMouse([51, 45]),
        ToController::PerformClick([51, 45]),
        ToController::CastHook,
    ]);
}

#[test]
fn frame_without_marker_is_taken_and_changes_nothing() {
    let queues = pipeline_queues();
    let mut brain = tracking();
    brain.react_after(0, Some((45, 45)));
    let blank = Frame::from_raw(90, 90, vec![0u8; 90 * 90 * 3]).unwrap();
    queues.frames_in.send(ToBrain::NextFrame(blank)).unwrap();
    assert_eq!(brain.turn(&queues.frames_out, &queues.actions_in), Ok(()));
    assert!(queues.frames_out.try_recv().is_err());
    assert!(queues.actions_out.try_recv().is_err());
    // the anchor is still (45, 45)
    assert_eq!(
        brain.react_after(4 * SECOND, Some((51, 45))),
        vec![ToController::MoveMouse([51, 45]), ToController::PerformClick([51, 45])]
    );
}

#[test]
fn both_queues_hold_two_messages() {
    let queues = pipeline_queues();
    queues.frames_in.try_send(ToBrain::NextFrame(scene(40, 50))).unwrap();
    queues.frames_in.try_send(ToBrain::NextFrame(scene(40, 50))).unwrap();
    assert!(matches!(
        queues.frames_in.try_send(ToBrain::NextFrame(scene(40, 50))),
        Err(TrySendError::Full(_))
    ));
    queues.actions_in.try_send(ToController::CastHook).unwrap();
    queues.actions_in.try_send(ToController::CastHook).unwrap();
    assert!(matches!(
        queues.actions_in.try_send(ToController::CastHook),
        Err(TrySendError::Full(_))
    ));
}
