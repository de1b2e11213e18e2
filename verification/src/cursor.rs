//! The blinking cursor's phases: when it fades out and in, when it stops for lack of focus or
//! while Neovim is busy, and how many times it blinks. How far it has faded is kept by the
//! caller, which reports when a fade is complete.

use vstd::prelude::*;

use crate::nvim::redraw_handler::RedrawMode;

verus! {

/// Where the cursor is in its blink.
#[derive(Debug, Clone, Copy, PartialEq, Eq, Structural)]
pub enum AnimPhase {
    Shown,
    Hide,
    Hidden,
    Show,
    NoFocus,
    Busy,
}

/// How many times the cursor blinked and may blink.
#[derive(Debug, Clone, Copy, PartialEq, Eq, Structural)]
pub struct BlinkCount {
    pub count: u32,
    pub max: u32,
}

/// The blink state: the phase, the blink limit if there is one, and whether the drawing area
/// and the window have the focus.
#[derive(Debug, Clone, Copy, PartialEq, Eq, Structural)]
pub struct BlinkState {
    pub anim_phase: AnimPhase,
    pub counter: Option<BlinkCount>,
    pub widget_focus: bool,
    pub toplevel_focus: bool,
}

/// What the caller does with the fading and the animation timer.
#[derive(Debug, Clone, Copy, PartialEq, Eq, Structural)]
pub enum TimerAction {
    /// Nothing changes.
    Keep,
    /// The cursor is drawn fully again and the animation stops.
    Stop,
    /// The cursor is drawn fully again and the animation restarts after this many
    /// milliseconds.
    Restart(u64),
}

/// The cursor has the focus when both the drawing area and the window have it.
pub open spec fn has_focus(s: BlinkState) -> bool {
    s.toplevel_focus && s.widget_focus
}

/// How long the cursor stays shown before it first fades: the mode's `blinkwait` where it is
/// positive, else 500 ms.
pub open spec fn blink_wait(blinkwait: Option<u64>) -> u64 {
    match blinkwait {
        Some(w) => if w > 0 {
            w
        } else {
            500
        },
        None => 500,
    }
}

/// `s` restarted: shown, with no blink counted yet.
pub open spec fn started(s: BlinkState) -> BlinkState {
    BlinkState {
        anim_phase: AnimPhase::Shown,
        counter: match s.counter {
            Some(c) => Some(BlinkCount { count: 0, ..c }),
            None => None,
        },
        ..s
    }
}

/// `s` after the focus became `focus`: outside a busy spell, restarted on gaining it and
/// stopped without focus on losing it.
pub open spec fn refocused(s: BlinkState, focus: bool, blinkwait: Option<u64>) -> (BlinkState, TimerAction) {
    if s.anim_phase == AnimPhase::Busy {
        (s, TimerAction::Keep)
    } else if focus {
        (started(s), TimerAction::Restart(blink_wait(blinkwait)))
    } else {
        (BlinkState { anim_phase: AnimPhase::NoFocus, ..s }, TimerAction::Stop)
    }
}

/// One tick of the animation from `s`, where `fade_done` tells whether the fade that the phase
/// runs is complete: the next state and, where the next tick comes after another delay, that
/// delay in milliseconds (else the ticks go on as they were).
pub open spec fn tick(s: BlinkState, fade_done: bool) -> (BlinkState, Option<u64>) {
    match s.anim_phase {
        AnimPhase::Shown => match s.counter {
            Some(c) => if c.count < c.max {
                (
                    BlinkState {
                        anim_phase: AnimPhase::Hide,
                        counter: Some(BlinkCount { count: (c.count + 1) as u32, ..c }),
                        ..s
                    },
                    Some(60),
                )
            } else {
                (s, None)
            },
            None => (BlinkState { anim_phase: AnimPhase::Hide, ..s }, Some(60)),
        },
        AnimPhase::Hide => if fade_done {
            (BlinkState { anim_phase: AnimPhase::Hidden, ..s }, Some(300))
        } else {
            (s, None)
        },
        AnimPhase::Hidden => (BlinkState { anim_phase: AnimPhase::Show, ..s }, Some(60)),
        AnimPhase::Show => if fade_done {
            (BlinkState { anim_phase: AnimPhase::Shown, ..s }, Some(500))
        } else {
            (s, None)
        },
        AnimPhase::NoFocus => (s, None),
        AnimPhase::Busy => (s, None),
    }
}

impl BlinkState {
    /// A cursor shown, blinking without limit, without focus.
    pub fn new() -> (r: Self)
        ensures
            r == (BlinkState { anim_phase: AnimPhase::Shown, counter: None, widget_focus: false, toplevel_focus: false }),
    {
        BlinkState { anim_phase: AnimPhase::Shown, counter: None, widget_focus: false, toplevel_focus: false }
    }

    pub fn focus(&self) -> (r: bool)
        ensures
            r == has_focus(*self),
    {
        self.toplevel_focus && self.widget_focus
    }

    /// Sets how many times the cursor blinks: without limit for a negative `val`.
    pub fn set_cursor_blink(&mut self, val: i32)
        ensures
            *final(self) == (BlinkState {
                counter: if val < 0 {
                    None
                } else {
                    Some(BlinkCount { count: 0, max: val as u32 })
                },
                ..*old(self)
            }),
    {
        self.counter = if val < 0 {
            None
        } else {
            Some(BlinkCount { count: 0, max: val as u32 })
        };
    }

    /// Restarts the blinking: the cursor shown fully, no blink counted, the first fade after
    /// the mode's `blinkwait`.
    pub fn start(&mut self, blinkwait: Option<u64>) -> (r: TimerAction)
        ensures
            *final(self) == started(*old(self)),
            r == TimerAction::Restart(blink_wait(blinkwait)),
    {
        self.anim_phase = AnimPhase::Shown;
        match self.counter {
            Some(c) => {
                self.counter = Some(BlinkCount { count: 0, max: c.max });
            },
            None => {},
        }
        let wait = match blinkwait {
            Some(w) => if w > 0 {
                w
            } else {
                500
            },
            None => 500,
        };
        TimerAction::Restart(wait)
    }

    /// Restarts the blinking unless Neovim is busy.
    pub fn reset_state(&mut self, blinkwait: Option<u64>) -> (r: TimerAction)
        ensures
            old(self).anim_phase == AnimPhase::Busy ==> *final(self) == *old(self) && r == TimerAction::Keep,
            old(self).anim_phase != AnimPhase::Busy ==> *final(self) == started(*old(self)) && r == TimerAction::Restart(
                blink_wait(blinkwait),
            ),
    {
        if self.anim_phase != AnimPhase::Busy {
            self.start(blinkwait)
        } else {
            TimerAction::Keep
        }
    }

    fn update_focus(&mut self, focus: bool, blinkwait: Option<u64>) -> (r: TimerAction)
        ensures
            (*final(self), r) == refocused(*old(self), focus, blinkwait),
    {
        if self.anim_phase != AnimPhase::Busy {
            if focus {
                self.start(blinkwait)
            } else {
                self.anim_phase = AnimPhase::NoFocus;
                TimerAction::Stop
            }
        } else {
            TimerAction::Keep
        }
    }

    /// Records whether the window has the focus; where the cursor's focus changes, the blinking
    /// follows it and the cursor is redrawn.
    pub fn set_toplevel_focus(&mut self, focus: bool, blinkwait: Option<u64>) -> (r: (RedrawMode, TimerAction))
        ensures
            ({
                let s = BlinkState { toplevel_focus: focus, ..*old(self) };
                if has_focus(*old(self)) != has_focus(s) {
                    (*final(self), r.1) == refocused(s, focus, blinkwait) && r.0 == RedrawMode::Cursor
                } else {
                    *final(self) == s && r == (RedrawMode::Nothing, TimerAction::Keep)
                }
            }),
    {
        let prev_focus = self.focus();
        self.toplevel_focus = focus;
        if prev_focus != self.focus() {
            let action = self.update_focus(focus, blinkwait);
            (RedrawMode::Cursor, action)
        } else {
            (RedrawMode::Nothing, TimerAction::Keep)
        }
    }

    /// Records whether the drawing area has the focus; where the cursor's focus changes, the
    /// blinking follows it and the cursor is redrawn.
    pub fn set_widget_focus(&mut self, focus: bool, blinkwait: Option<u64>) -> (r: (RedrawMode, TimerAction))
        ensures
            ({
                let s = BlinkState { widget_focus: focus, ..*old(self) };
                if has_focus(*old(self)) != has_focus(s) {
                    (*final(self), r.1) == refocused(s, focus, blinkwait) && r.0 == RedrawMode::Cursor
                } else {
                    *final(self) == s && r == (RedrawMode::Nothing, TimerAction::Keep)
                }
            }),
    {
        let prev_focus = self.focus();
        self.widget_focus = focus;
        if prev_focus != self.focus() {
            let action = self.update_focus(focus, blinkwait);
            (RedrawMode::Cursor, action)
        } else {
            (RedrawMode::Nothing, TimerAction::Keep)
        }
    }

    /// Neovim is busy: the cursor stops blinking and is drawn fully.
    pub fn busy_on(&mut self) -> (r: TimerAction)
        ensures
            *final(self) == (BlinkState { anim_phase: AnimPhase::Busy, ..*old(self) }),
            r == TimerAction::Stop,
    {
        self.anim_phase = AnimPhase::Busy;
        TimerAction::Stop
    }

    /// Neovim is no longer busy: the blinking restarts.
    pub fn busy_off(&mut self, blinkwait: Option<u64>) -> (r: TimerAction)
        ensures
            *final(self) == started(*old(self)),
            r == TimerAction::Restart(blink_wait(blinkwait)),
    {
        self.start(blinkwait)
    }

    /// One tick of the animation; `fade_done` tells whether the fade that the phase runs (out
    /// while hiding, in while showing) is complete. Gives the delay before the next tick where
    /// it changes.
    pub fn anim_step(&mut self, fade_done: bool) -> (r: Option<u64>)
        ensures
            (*final(self), r) == tick(*old(self), fade_done),
    {
        match self.anim_phase {
            AnimPhase::Shown => match self.counter {
                Some(c) => if c.count < c.max {
                    self.counter = Some(BlinkCount { count: c.count + 1, max: c.max });
                    self.anim_phase = AnimPhase::Hide;
                    Some(60)
                } else {
                    None
                },
                None => {
                    self.anim_phase = AnimPhase::Hide;
                    Some(60)
                },
            },
            AnimPhase::Hide => if fade_done {
                self.anim_phase = AnimPhase::Hidden;
                Some(300)
            } else {
                None
            },
            AnimPhase::Hidden => {
                self.anim_phase = AnimPhase::Show;
                Some(60)
            },
            AnimPhase::Show => if fade_done {
                self.anim_phase = AnimPhase::Shown;
                Some(500)
            } else {
                None
            },
            AnimPhase::NoFocus => None,
            AnimPhase::Busy => None,
        }
    }
}


/// The state after a tick for each fade report of `fades`, in order.
pub open spec fn ticks(s: BlinkState, fades: Seq<bool>) -> BlinkState
    decreases fades.len(),
{
    if fades.len() == 0 {
        s
    } else {
        tick(ticks(s, fades.drop_last()), fades.last()).0
    }
}

/// The blink limit holds however the animation runs: the count of blinks only grows, never past
/// the limit, and the limit stays.
pub proof fn law_blink_count_stays_within_limit(s: BlinkState, fades: Seq<bool>)
    requires
        s.counter matches Some(c) && c.count <= c.max,
    ensures
        ticks(s, fades).counter matches Some(c2) && c2.max == s.counter->0.max && s.counter->0.count <= c2.count <= c2.max,
    decreases fades.len(),
{
    if fades.len() > 0 {
        law_blink_count_stays_within_limit(s, fades.drop_last());
    }
}

/// A shown cursor that has blinked as often as it may stays shown for good.
pub proof fn law_blinking_ends_at_limit(s: BlinkState, fades: Seq<bool>)
    requires
        s.anim_phase == AnimPhase::Shown,
        s.counter matches Some(c) && c.count == c.max,
    ensures
        ticks(s, fades) == s,
    decreases fades.len(),
{
    if fades.len() > 0 {
        law_blinking_ends_at_limit(s, fades.drop_last());
    }
}

/// While Neovim is busy, focus changes leave the cursor and its animation as they are.
pub proof fn law_busy_cursor_ignores_focus(s: BlinkState, focus: bool, blinkwait: Option<u64>)
    requires
        s.anim_phase == AnimPhase::Busy,
    ensures
        refocused(s, focus, blinkwait) == (s, TimerAction::Keep),
{
}

} // verus!
