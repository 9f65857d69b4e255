//! The decisions of the command's display loops: when a loop ends, when it
//! redraws for a new terminal size, which logo frame comes next, and how
//! long it waits for a key. Times are whole nanoseconds; durations asked
//! for on the command line are whole seconds.

use crate::kitty_frames::{min_nat, sat_sub};
use crate::welcome::{centered_card, centered_vertically, logo_frames, views_of, welcome_spec_for};
use vstd::prelude::*;

verus! {

/// What a display loop does once a frame has been shown and input polled.
#[derive(Debug, Clone, Copy, PartialEq, Eq)]
pub enum ScreenLoopStep {
    /// A key was pressed: the loop ends.
    Stop,
    /// The terminal now has another size: redraw for it.
    Resize { width: usize, height: usize },
    /// Nothing changed: go on to the next frame.
    Advance,
}

/// A key ends the loop; otherwise a terminal size that differs from the one
/// drawn for asks for a redraw; otherwise the loop advances.
pub open spec fn screen_loop_step_spec(
    key_pressed: bool,
    shown_width: usize,
    shown_height: usize,
    current_width: usize,
    current_height: usize,
) -> ScreenLoopStep {
    if key_pressed {
        ScreenLoopStep::Stop
    } else if current_width != shown_width || current_height != shown_height {
        ScreenLoopStep::Resize { width: current_width, height: current_height }
    } else {
        ScreenLoopStep::Advance
    }
}

/// The next step of a display loop drawn for `shown_width` x `shown_height`,
/// given whether a key was pressed and the terminal's current size.
pub fn screen_loop_step(
    key_pressed: bool,
    shown_width: usize,
    shown_height: usize,
    current_width: usize,
    current_height: usize,
) -> (step: ScreenLoopStep)
    ensures
        step == screen_loop_step_spec(key_pressed, shown_width, shown_height, current_width, current_height),
{
    if key_pressed {
        ScreenLoopStep::Stop
    } else if current_width != shown_width || current_height != shown_height {
        ScreenLoopStep::Resize { width: current_width, height: current_height }
    } else {
        ScreenLoopStep::Advance
    }
}

// ---------------------------------------------------------------------------
// requested durations
// ---------------------------------------------------------------------------

/// Nanoseconds in a millisecond.
pub const NANOS_PER_MILLI: u128 = 1_000_000;

/// Nanoseconds in a second.
pub const NANOS_PER_SECOND: u128 = 1_000_000_000;

/// A duration of whole seconds, in nanoseconds.
pub open spec fn seconds_ns(seconds: u64) -> nat {
    seconds as nat * 1_000_000_000
}

/// Whether `elapsed_ns` has reached a duration of `duration_seconds`.
pub fn duration_reached(elapsed_ns: u128, duration_seconds: u64) -> (reached: bool)
    ensures
        reached == (elapsed_ns >= seconds_ns(duration_seconds)),
{
    elapsed_ns >= duration_seconds as u128 * NANOS_PER_SECOND
}

/// What is left of a duration of `duration_seconds` after `elapsed_ns`, in
/// nanoseconds, and none once it has run out.
pub open spec fn remaining_ns(elapsed_ns: u128, duration_seconds: u64) -> nat {
    sat_sub(seconds_ns(duration_seconds), elapsed_ns as nat)
}

fn remaining_duration_ns(elapsed_ns: u128, duration_seconds: u64) -> (remaining: u128)
    ensures
        remaining == remaining_ns(elapsed_ns, duration_seconds),
{
    let total = duration_seconds as u128 * NANOS_PER_SECOND;
    if total > elapsed_ns {
        total - elapsed_ns
    } else {
        0
    }
}

/// How long an animation waits for a key after a frame, in nanoseconds:
/// its frame delay, cut to what is left of a requested duration.
pub open spec fn animation_poll_delay_spec(
    frame_delay_ms: u64,
    elapsed_ns: u128,
    duration_seconds: Option<u64>,
) -> nat {
    match duration_seconds {
        None => frame_delay_ms as nat * 1_000_000,
        Some(seconds) => min_nat(frame_delay_ms as nat * 1_000_000, remaining_ns(elapsed_ns, seconds)),
    }
}

/// The time an animation waits for a key after showing a frame, in
/// nanoseconds.
pub fn animation_poll_delay_ns(frame_delay_ms: u64, elapsed_ns: u128, duration_seconds: Option<u64>) -> (delay_ns:
    u128)
    ensures
        delay_ns == animation_poll_delay_spec(frame_delay_ms, elapsed_ns, duration_seconds),
{
    let frame_delay_ns = frame_delay_ms as u128 * NANOS_PER_MILLI;
    match duration_seconds {
        None => frame_delay_ns,
        Some(seconds) => {
            let remaining = remaining_duration_ns(elapsed_ns, seconds);
            if remaining < frame_delay_ns {
                remaining
            } else {
                frame_delay_ns
            }
        },
    }
}

/// The longest single wait while a static card waits out its duration, in
/// milliseconds.
pub const WAIT_POLL_SLICE_MS: u64 = 100;

/// While a static card waits out a duration: `None` once it has run out,
/// else the next wait for a key in nanoseconds, at most `WAIT_POLL_SLICE_MS`
/// and no longer than what is left.
pub open spec fn wait_poll_delay_spec(elapsed_ns: u128, duration_seconds: u64) -> Option<nat> {
    if elapsed_ns >= seconds_ns(duration_seconds) {
        None
    } else {
        Some(min_nat(WAIT_POLL_SLICE_MS as nat * 1_000_000, remaining_ns(elapsed_ns, duration_seconds)))
    }
}

/// The next wait for a key while a static card waits out its duration, in
/// nanoseconds.
pub fn wait_poll_delay_ns(elapsed_ns: u128, duration_seconds: u64) -> (delay_ns: Option<u128>)
    ensures
        match wait_poll_delay_spec(elapsed_ns, duration_seconds) {
            None => delay_ns is None,
            Some(d) => delay_ns matches Some(ns) && ns == d,
        },
{
    if duration_reached(elapsed_ns, duration_seconds) {
        return None;
    }
    let remaining = remaining_duration_ns(elapsed_ns, duration_seconds);
    let slice = WAIT_POLL_SLICE_MS as u128 * NANOS_PER_MILLI;
    if remaining < slice {
        Some(remaining)
    } else {
        Some(slice)
    }
}

/// The share of a duration of `duration_seconds` that each of
/// `frame_count` frames is shown, in nanoseconds (rounded down).
pub fn frame_share_ns(duration_seconds: u64, frame_count: usize) -> (share_ns: u128)
    requires
        frame_count > 0,
    ensures
        share_ns == seconds_ns(duration_seconds) / (frame_count as nat),
{
    duration_seconds as u128 * NANOS_PER_SECOND / frame_count as u128
}

// ---------------------------------------------------------------------------
// the looping logo
// ---------------------------------------------------------------------------

/// The three frames of the logo reveal for a terminal size, as text.
pub open spec fn logo_frame_views(width: nat, height: nat) -> Seq<Seq<Seq<char>>> {
    seq![
        centered_vertically(centered_card(width, 0, false), height),
        centered_vertically(centered_card(width, 1, true), height),
        centered_vertically(centered_card(width, welcome_spec_for(width).2.len(), true), height),
    ]
}

/// The logo loop one frame on, for the same terminal size: the last frame
/// is followed by the first.
pub open spec fn logo_advanced(view: LogoLoopView) -> LogoLoopView {
    LogoLoopView { width: view.width, height: view.height, index: (view.index + 1) % 3 }
}

/// The logo reveal shown in a loop until a key is pressed, redrawn from its
/// first frame whenever the terminal changes size.
pub struct LogoLoop {
    width: usize,
    height: usize,
    frames: Vec<Vec<String>>,
    index: usize,
}

/// What a logo loop stands for: the terminal size it was drawn for and the
/// frame it shows.
pub struct LogoLoopView {
    pub width: usize,
    pub height: usize,
    pub index: nat,
}

impl View for LogoLoop {
    type V = LogoLoopView;

    closed spec fn view(&self) -> LogoLoopView {
        LogoLoopView { width: self.width, height: self.height, index: self.index as nat }
    }
}

impl LogoLoop {
    /// The frames held are those of the logo for the size drawn for, and the
    /// frame shown is one of them.
    pub closed spec fn well_formed(&self) -> bool {
        &&& self.frames@.len() == 3
        &&& self.index < 3
        &&& forall|k: int|
            0 <= k < 3 ==> #[trigger] views_of(self.frames@[k]@) == logo_frame_views(
                self.width as nat,
                self.height as nat,
            )[k]
    }

    /// A logo loop for a terminal size, showing the first frame.
    pub fn new(width: usize, height: usize) -> (logo: Self)
        ensures
            logo.well_formed(),
            logo@ == (LogoLoopView { width, height, index: 0 }),
    {
        LogoLoop { width, height, frames: logo_frames(width, height), index: 0 }
    }

    /// The lines of the frame shown now.
    pub fn current_frame(&self) -> (frame: &Vec<String>)
        requires
            self.well_formed(),
        ensures
            self@.index < 3,
            views_of(frame@) == logo_frame_views(self@.width as nat, self@.height as nat)[self@.index as int],
    {
        &self.frames[self.index]
    }

    /// Moves on after a frame was shown: a key ends the loop (`false`,
    /// nothing changes); a new terminal size redraws from the first frame for
    /// it; otherwise the next frame is shown, the last one followed by the
    /// first.
    pub fn step(&mut self, key_pressed: bool, current_width: usize, current_height: usize) -> (running: bool)
        requires
            old(self).well_formed(),
        ensures
            final(self).well_formed(),
            running == !key_pressed,
            match screen_loop_step_spec(
                key_pressed,
                old(self)@.width,
                old(self)@.height,
                current_width,
                current_height,
            ) {
                ScreenLoopStep::Stop => final(self)@ == old(self)@,
                ScreenLoopStep::Resize { width, height } => final(self)@ == (LogoLoopView {
                    width,
                    height,
                    index: 0,
                }),
                ScreenLoopStep::Advance => final(self)@ == logo_advanced(old(self)@),
            },
    {
        match screen_loop_step(key_pressed, self.width, self.height, current_width, current_height) {
            ScreenLoopStep::Stop => false,
            ScreenLoopStep::Resize { width, height } => {
                self.width = width;
                self.height = height;
                self.frames = logo_frames(width, height);
                self.index = 0;
                true
            },
            ScreenLoopStep::Advance => {
                self.index = (self.index + 1) % 3;
                true
            },
        }
    }
}

/// Left alone, the looping logo shows its three frames in turn and comes
/// back to the frame it started from after three steps.
pub proof fn lemma_logo_loop_cycles(view: LogoLoopView)
    requires
        view.index < 3,
    ensures
        logo_advanced(view).index != view.index,
        logo_advanced(logo_advanced(view)).index != view.index,
        logo_advanced(logo_advanced(view)).index != logo_advanced(view).index,
        logo_advanced(logo_advanced(logo_advanced(view))) == view,
{
}

} // verus!
