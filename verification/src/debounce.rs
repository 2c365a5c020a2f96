//! Tick-driven debounce state machine for a mechanical button.
//!
//! A periodic timer interrupt samples the input pin once per tick
//! (active-low wiring: a low read means "pressed") and feeds the sample to
//! [`DebounceController::tick`]. On a confirmed press the controller
//! toggles a shared blink-rate value between two fixed presets; the
//! foreground loop reads that value every iteration to pace an output.

use vstd::prelude::*;

verus! {

/// Ticks the press must survive before it counts: with a 1 ms timer, a
/// 20 ms debounce window.
pub const DEBOUNCE_TICKS: u16 = 20;

/// The slower blink cadence (larger delay threshold), also the preset the
/// first confirmed press selects.
pub const BLINK_RATE_SLOW: u32 = 0xFF_FF;

/// The faster blink cadence (smaller delay threshold).
pub const BLINK_RATE_FAST: u32 = 0x0F_FF;

/// Debounce state. A press first enters `Debouncing` for a fixed window;
/// the decision taken when the window elapses confirms or discards it.
#[derive(Clone, Copy, PartialEq, Eq, Structural, Debug)]
pub enum ButtonState {
    Unpressed,
    Debouncing,
    Pressed,
}

/// The debounce state machine together with the shared blink-rate value
/// its confirmed presses toggle.
///
/// `countdown` is the number of ticks still to wait before the next state
/// decision; transitions are evaluated only when it is zero, and it is
/// reset (to [`DEBOUNCE_TICKS`]) only on the `Unpressed` to `Debouncing`
/// transition.
pub struct DebounceController {
    pub state: ButtonState,
    pub countdown: u16,
    pub blink_rate: u32,
}

/// The preset the blink rate moves to when a confirmed press toggles it.
pub open spec fn toggled_rate(rate: u32) -> u32 {
    if rate == BLINK_RATE_SLOW {
        BLINK_RATE_FAST
    } else {
        BLINK_RATE_SLOW
    }
}

impl DebounceController {
    /// The full transition table of one tick on sample `pressed`: evaluated
    /// only when the countdown is zero, and afterwards a positive countdown
    /// is decremented by one whether or not a transition fired.
    pub open spec fn spec_tick(self, pressed: bool) -> DebounceController {
        let evaluated = if self.countdown == 0 {
            match self.state {
                ButtonState::Unpressed => if pressed {
                    DebounceController {
                        state: ButtonState::Debouncing,
                        countdown: DEBOUNCE_TICKS,
                        ..self
                    }
                } else {
                    self
                },
                ButtonState::Debouncing => (DebounceController {
                    state: ButtonState::Pressed,
                    blink_rate: if pressed {
                        toggled_rate(self.blink_rate)
                    } else {
                        self.blink_rate
                    },
                    ..self
                }),
                ButtonState::Pressed => if pressed {
                    self
                } else {
                    DebounceController { state: ButtonState::Unpressed, ..self }
                },
            }
        } else {
            self
        };
        if evaluated.countdown > 0 {
            DebounceController { countdown: (evaluated.countdown - 1) as u16, ..evaluated }
        } else {
            evaluated
        }
    }

    /// The initial controller: button unpressed, no window pending, blink
    /// rate at its startup value.
    pub fn new() -> (r: Self)
        ensures
            r.state == ButtonState::Unpressed,
            r.countdown == 0,
            r.blink_rate == 0,
    {
        DebounceController { state: ButtonState::Unpressed, countdown: 0, blink_rate: 0 }
    }

    /// One timer tick on sample `pressed`. Returns whether this tick
    /// confirmed a press and toggled the blink rate — which happens exactly
    /// when the debounce window has elapsed, the machine is in
    /// `Debouncing`, and the sample still reads pressed, so at most once
    /// per press episode.
    pub fn tick(&mut self, pressed: bool) -> (toggled: bool)
        ensures
            *final(self) == old(self).spec_tick(pressed),
            toggled == (old(self).countdown == 0 && old(self).state == ButtonState::Debouncing
                && pressed),
            final(self).blink_rate == if toggled {
                toggled_rate(old(self).blink_rate)
            } else {
                old(self).blink_rate
            },
            old(self).countdown > 0 ==> final(self).state == old(self).state
                && final(self).countdown == old(self).countdown - 1,
            final(self).countdown >= old(self).countdown - 1,
    {
        let mut toggled = false;
        if self.countdown == 0 {
            match self.state {
                ButtonState::Unpressed => {
                    if pressed {
                        self.state = ButtonState::Debouncing;
                        self.countdown = DEBOUNCE_TICKS;
                    }
                },
                ButtonState::Debouncing => {
                    if pressed {
                        self.change_blinking_ratio();
                        toggled = true;
                    }
                    self.state = ButtonState::Pressed;
                },
                ButtonState::Pressed => {
                    if !pressed {
                        self.state = ButtonState::Unpressed;
                    }
                },
            }
        }
        if self.countdown > 0 {
            self.countdown = self.countdown - 1;
        }
        toggled
    }

    /// Toggles the shared blink rate between the two fixed presets; any
    /// other startup value moves to the slow preset and stays on the two
    /// presets from then on.
    pub fn change_blinking_ratio(&mut self)
        ensures
            *final(self) == (DebounceController {
                blink_rate: toggled_rate(old(self).blink_rate),
                ..*old(self)
            }),
    {
        if self.blink_rate == BLINK_RATE_SLOW {
            self.blink_rate = BLINK_RATE_FAST;
        } else {
            self.blink_rate = BLINK_RATE_SLOW;
        }
    }
}

/// One iteration of the foreground blink pacing on the shared blink rate:
/// counts delay ticks up to the rate, then asks for one output toggle and
/// restarts the count. Returns the new delay count and whether the output
/// should toggle now.
pub fn blink_step(delay_cnt: u32, blink_rate: u32) -> (r: (u32, bool))
    ensures
        r.0 == if delay_cnt < blink_rate {
            delay_cnt + 1
        } else {
            0
        },
        r.1 == !(delay_cnt < blink_rate),
{
    if delay_cnt < blink_rate {
        (delay_cnt + 1, false)
    } else {
        (0, true)
    }
}

} // verus!
