//! The decisions of one scan tick: custom actions reached through the
//! function layer, the LED mode switch they ask for, and the media key that
//! the consumer-control report carries.

use vstd::prelude::*;
use crate::debounce::KeyEvent;
use crate::led_state::{LedMode, LedState, set_mode_spec};

verus! {

/// Actions of the function layer that are not key codes.
#[derive(Clone, Copy, Debug, PartialEq, Eq, Structural)]
pub enum CustomActions {
    SetModeRainbow,
    SetModeLightning,
    SetModeChase,
    SetModeChase2,
    RestartToUf2,
}

/// Row of the key that holds the function layer.
pub const FN_ROW: usize = 4;

/// Column of the key that holds the function layer.
pub const FN_COL: usize = 15;

/// The custom action at a matrix position of the function layer.
pub open spec fn action_at(row: usize, col: usize) -> Option<CustomActions> {
    if row == 0 && col == 1 {
        Some(CustomActions::SetModeRainbow)
    } else if row == 0 && col == 2 {
        Some(CustomActions::SetModeLightning)
    } else if row == 0 && col == 3 {
        Some(CustomActions::SetModeChase)
    } else if row == 0 && col == 4 {
        Some(CustomActions::SetModeChase2)
    } else if row == 0 && col == 15 {
        Some(CustomActions::RestartToUf2)
    } else {
        None
    }
}

/// The custom action at a matrix position of the function layer.
pub fn custom_action_at(row: usize, col: usize) -> (r: Option<CustomActions>)
    ensures
        r == action_at(row, col),
{
    if row != 0 {
        None
    } else if col == 1 {
        Some(CustomActions::SetModeRainbow)
    } else if col == 2 {
        Some(CustomActions::SetModeLightning)
    } else if col == 3 {
        Some(CustomActions::SetModeChase)
    } else if col == 4 {
        Some(CustomActions::SetModeChase2)
    } else if col == 15 {
        Some(CustomActions::RestartToUf2)
    } else {
        None
    }
}

/// The LED mode that an action selects, if it selects one.
pub open spec fn mode_of(a: CustomActions) -> Option<LedMode> {
    match a {
        CustomActions::SetModeRainbow => Some(LedMode::Rainbow),
        CustomActions::SetModeLightning => Some(LedMode::Lightning),
        CustomActions::SetModeChase => Some(LedMode::Chase),
        CustomActions::SetModeChase2 => Some(LedMode::Chase2),
        CustomActions::RestartToUf2 => None,
    }
}

/// The LED mode that an action selects, if it selects one.
pub fn led_mode_for(a: CustomActions) -> (r: Option<LedMode>)
    ensures
        r == mode_of(a),
{
    match a {
        CustomActions::SetModeRainbow => Some(LedMode::Rainbow),
        CustomActions::SetModeLightning => Some(LedMode::Lightning),
        CustomActions::SetModeChase => Some(LedMode::Chase),
        CustomActions::SetModeChase2 => Some(LedMode::Chase2),
        CustomActions::RestartToUf2 => None,
    }
}

/// What the custom-action latch holds: whether the function layer is held,
/// and the action latched since it was last read.
pub struct LatchView {
    pub fn_held: bool,
    pub latched: Option<CustomActions>,
}

/// The latch after a key event: the function key holds and releases the
/// layer; a press on the layer's custom keys latches its action, replacing
/// one not yet read.
pub open spec fn latch_event_spec(v: LatchView, e: KeyEvent) -> LatchView {
    match e {
        KeyEvent::Press(r, c) => if r == FN_ROW && c == FN_COL {
            LatchView { fn_held: true, ..v }
        } else if v.fn_held && action_at(r, c) is Some {
            LatchView { latched: action_at(r, c), ..v }
        } else {
            v
        },
        KeyEvent::Release(r, c) => if r == FN_ROW && c == FN_COL {
            LatchView { fn_held: false, ..v }
        } else {
            v
        },
    }
}

/// Latches the custom action of the function layer, to be read once per tick.
pub struct ActionLatch {
    fn_held: bool,
    latched: Option<CustomActions>,
}

impl View for ActionLatch {
    type V = LatchView;

    closed spec fn view(&self) -> LatchView {
        LatchView { fn_held: self.fn_held, latched: self.latched }
    }
}

impl ActionLatch {
    /// No layer held, nothing latched.
    pub fn new() -> (r: Self)
        ensures
            r@ == (LatchView { fn_held: false, latched: None }),
    {
        ActionLatch { fn_held: false, latched: None }
    }

    /// Takes in one key event.
    pub fn event(&mut self, e: KeyEvent)
        ensures
            final(self)@ == latch_event_spec(old(self)@, e),
    {
        match e {
            KeyEvent::Press(r, c) => {
                if r == FN_ROW && c == FN_COL {
                    self.fn_held = true;
                } else if self.fn_held {
                    let a = custom_action_at(r, c);
                    if a.is_some() {
                        self.latched = a;
                    }
                }
            },
            KeyEvent::Release(r, c) => {
                if r == FN_ROW && c == FN_COL {
                    self.fn_held = false;
                }
            },
        }
    }

    /// Whether the function layer is held.
    pub fn fn_held(&self) -> (r: bool)
        ensures
            r == self@.fn_held,
    {
        self.fn_held
    }

    /// Returns the latched action and clears it.
    pub fn tick(&mut self) -> (r: Option<CustomActions>)
        ensures
            r == old(self)@.latched,
            final(self)@ == (LatchView { latched: None, ..old(self)@ }),
    {
        let r = self.latched;
        self.latched = None;
        r
    }
}

/// Applies the action read at a tick to the LED animator: a mode action
/// switches the mode; returns whether a restart into the bootloader was asked
/// for.
pub fn apply_action<const NUM_LEDS: usize>(leds: &mut LedState<NUM_LEDS>, a: Option<CustomActions>) -> (restart: bool)
    requires
        NUM_LEDS > 0,
        old(leds).wf(),
    ensures
        final(leds).wf(),
        restart == (a == Some(CustomActions::RestartToUf2)),
        a is Some && mode_of(a->Some_0) is Some ==> final(leds)@ == set_mode_spec(
            old(leds)@,
            mode_of(a->Some_0)->Some_0,
        ),
        !(a is Some && mode_of(a->Some_0) is Some) ==> final(leds)@ == old(leds)@,
{
    match a {
        Some(action) => match led_mode_for(action) {
            Some(mode) => {
                leds.set_mode(mode);
                false
            },
            None => true,
        },
        None => false,
    }
}

} // verus!
