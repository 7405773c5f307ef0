//! The mode-cycling LED demo's decision logic: the mode cycle, each
//! mode's blink interval, and the edge-triggered button debouncer.
//!
//! The task loops around these — sampling the pin, waiting out the
//! intervals, listening for the change signal — live with the
//! hardware; they hand in the pin level and a timestamp and act on
//! what comes back.

use vstd::prelude::*;

verus! {

/// A release is ignored unless this many milliseconds have passed
/// since the previous accepted release.
pub const DEBOUNCE_MS: u64 = 50;

/// A press held at least this many milliseconds no longer counts as a
/// short press.
pub const LONG_PRESS_MS: u64 = 1000;

/// The blink modes the button cycles through.
#[derive(Clone, Copy, Debug, PartialEq, Eq, Structural)]
pub enum LedMode {
    Slow,
    Medium,
    Fast,
    Off,
}

/// The mode after one short press.
pub open spec fn next_mode(m: LedMode) -> LedMode {
    match m {
        LedMode::Slow => LedMode::Medium,
        LedMode::Medium => LedMode::Fast,
        LedMode::Fast => LedMode::Off,
        LedMode::Off => LedMode::Slow,
    }
}

/// A mode's timing interval in milliseconds.
pub open spec fn mode_duration_ms(m: LedMode) -> u64 {
    match m {
        LedMode::Slow => 1000,
        LedMode::Medium => 500,
        LedMode::Fast => 200,
        LedMode::Off => 100,
    }
}

impl LedMode {
    /// Advance to the next mode of the cycle.
    pub fn next(self) -> (r: LedMode)
        ensures
            r == next_mode(self),
    {
        match self {
            LedMode::Slow => LedMode::Medium,
            LedMode::Medium => LedMode::Fast,
            LedMode::Fast => LedMode::Off,
            LedMode::Off => LedMode::Slow,
        }
    }

    /// This mode's timing interval in milliseconds.
    pub fn duration_ms(&self) -> (r: u64)
        ensures
            r == mode_duration_ms(*self),
    {
        match self {
            LedMode::Slow => 1000,
            LedMode::Medium => 500,
            LedMode::Fast => 200,
            LedMode::Off => 100,
        }
    }

    /// How long the LED stays in each half of a blink cycle, or
    /// nothing when the LED is off and the task should wait for the
    /// next mode-change signal instead.
    pub fn blink_interval(&self) -> (r: Option<u64>)
        ensures
            *self is Off ==> r is None,
            !(*self is Off) ==> r == Some(mode_duration_ms(*self)),
    {
        match self {
            LedMode::Off => None,
            _ => Some(self.duration_ms()),
        }
    }
}

/// What one sample of the button pin amounts to.
#[derive(Clone, Copy, Debug, PartialEq, Eq, Structural)]
pub enum ButtonEvent {
    /// No accepted release on this sample.
    Nothing,
    /// A debounced short press completed: cycle the mode.
    ShortPress,
}

/// Debouncer state: the level at the previous sample, when the last
/// accepted release edge was seen, and when the current press began.
#[derive(Clone, Copy, Debug, PartialEq, Eq, Structural)]
pub struct ButtonTracker {
    pub level: bool,
    pub last_release_ms: u64,
    pub press_start_ms: u64,
}

/// The event one sample produces: a short press exactly on a rising
/// edge that is both debounced (far enough from the last accepted
/// release) and short (the press began recently enough).
pub open spec fn sample_event(t: ButtonTracker, level: bool, now_ms: u64) -> ButtonEvent {
    if !t.level && level && now_ms - t.last_release_ms > DEBOUNCE_MS && now_ms - t.press_start_ms
        < LONG_PRESS_MS {
        ButtonEvent::ShortPress
    } else {
        ButtonEvent::Nothing
    }
}

/// The tracker after one sample: a falling edge marks the start of a
/// press, a rising edge marks a release, and the stored level always
/// follows the pin.
pub open spec fn sample_next(t: ButtonTracker, level: bool, now_ms: u64) -> ButtonTracker {
    ButtonTracker {
        level: level,
        last_release_ms: if !t.level && level {
            now_ms
        } else {
            t.last_release_ms
        },
        press_start_ms: if t.level && !level {
            now_ms
        } else {
            t.press_start_ms
        },
    }
}

impl ButtonTracker {
    /// A tracker that has just seen the pin at `level` at time
    /// `now_ms`, with no press or release in its past.
    pub fn new(level: bool, now_ms: u64) -> (r: ButtonTracker)
        ensures
            r == (ButtonTracker { level, last_release_ms: now_ms, press_start_ms: now_ms }),
    {
        ButtonTracker { level, last_release_ms: now_ms, press_start_ms: now_ms }
    }

    /// Take one sample of the pin.  Timestamps come from a monotonic
    /// clock, so the current time is never before a stored one.
    pub fn on_sample(&mut self, level: bool, now_ms: u64) -> (ev: ButtonEvent)
        requires
            old(self).last_release_ms <= now_ms,
            old(self).press_start_ms <= now_ms,
        ensures
            *final(self) == sample_next(*old(self), level, now_ms),
            ev == sample_event(*old(self), level, now_ms),
    {
        let mut ev = ButtonEvent::Nothing;
        if self.level && !level {
            self.press_start_ms = now_ms;
        }
        if !self.level && level {
            if now_ms - self.last_release_ms > DEBOUNCE_MS && now_ms - self.press_start_ms
                < LONG_PRESS_MS {
                ev = ButtonEvent::ShortPress;
            }
            self.last_release_ms = now_ms;
        }
        self.level = level;
        ev
    }
}

} // verus!
