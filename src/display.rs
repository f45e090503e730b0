//! The display animator: which sprite the display shows, alternating tap
//! sprites on key presses and going back to the idle sprite once no key has
//! been pressed for a timeout.

use vstd::prelude::*;

verus! {

/// The sprites that the display can show.
#[derive(Clone, Copy, Debug, PartialEq, Eq, Structural)]
pub enum Sprite {
    Idle,
    Tap1,
    Tap2,
}

/// Ticks without a key press after which the display goes back to idle.
pub const DISPLAY_TIMEOUT: u32 = 400;

/// What the display animator holds.
pub struct DisplayView {
    pub sprite: Sprite,
    /// Whether the next key press shows the second tap sprite.
    pub second_next: bool,
    pub last_keypress: u32,
    pub tick_cnt: u32,
    pub timeout: u32,
}

/// Ticks since the last key press, counted around the 32-bit counter.
pub open spec fn elapsed(v: DisplayView) -> int {
    (v.tick_cnt - v.last_keypress) % 0x1_0000_0000
}

/// The state after a key press: the next tap sprite shows, the other one
/// comes next, and the press is dated by the tick counter.
pub open spec fn press_spec(v: DisplayView) -> DisplayView {
    DisplayView {
        sprite: if v.second_next { Sprite::Tap2 } else { Sprite::Tap1 },
        second_next: !v.second_next,
        last_keypress: v.tick_cnt,
        ..v
    }
}

/// The counter after one more tick, wrapping around.
pub open spec fn next_count(c: u32) -> u32 {
    ((c + 1) % 0x1_0000_0000) as u32
}

/// Whether a tick from `v` brings the display back to idle.
pub open spec fn tick_reverts(v: DisplayView) -> bool {
    let w = DisplayView { tick_cnt: next_count(v.tick_cnt), ..v };
    v.sprite != Sprite::Idle && elapsed(w) >= v.timeout
}

/// The state after one tick.
pub open spec fn tick_spec(v: DisplayView) -> DisplayView {
    DisplayView {
        tick_cnt: next_count(v.tick_cnt),
        sprite: if tick_reverts(v) { Sprite::Idle } else { v.sprite },
        ..v
    }
}

/// The state after `n` ticks.
pub open spec fn ticks(v: DisplayView, n: nat) -> DisplayView
    decreases n,
{
    if n == 0 {
        v
    } else {
        tick_spec(ticks(v, (n - 1) as nat))
    }
}

/// With no key press in between, the display goes back to idle exactly
/// `timeout` ticks after a key press, and shows the tap sprite until then.
pub proof fn lemma_idle_after_timeout(v: DisplayView, n: nat)
    requires
        v.timeout > 0,
    ensures
        ticks(press_spec(v), n).sprite == if n >= v.timeout {
            Sprite::Idle
        } else {
            press_spec(v).sprite
        },
        n == v.timeout ==> tick_reverts(ticks(press_spec(v), (n - 1) as nat)),
    decreases n,
{
    let p = press_spec(v);
    if n > 0 {
        lemma_idle_after_timeout(v, (n - 1) as nat);
        lemma_ticks_count(p, (n - 1) as nat);
        let prev = ticks(p, (n - 1) as nat);
        assert(next_count(prev.tick_cnt) == (p.tick_cnt + n) % 0x1_0000_0000) by {
            vstd::arithmetic::div_mod::lemma_add_mod_noop(
                p.tick_cnt + n - 1,
                1,
                0x1_0000_0000,
            );
            vstd::arithmetic::div_mod::lemma_small_mod(1, 0x1_0000_0000);
        }
        if n <= v.timeout {
            assert(elapsed(tick_spec(prev)) == n) by {
                vstd::arithmetic::div_mod::lemma_add_mod_noop(
                    p.tick_cnt + n,
                    -(p.last_keypress as int),
                    0x1_0000_0000,
                );
                vstd::arithmetic::div_mod::lemma_mod_twice(p.tick_cnt + n, 0x1_0000_0000);
                vstd::arithmetic::div_mod::lemma_add_mod_noop(
                    p.tick_cnt + n,
                    -(p.last_keypress as int),
                    0x1_0000_0000,
                );
                vstd::arithmetic::div_mod::lemma_small_mod(n, 0x1_0000_0000);
            }
        }
    }
}

/// The display animator's state. The display itself is drawn by whoever
/// holds this: at creation it shows the idle sprite, and afterwards the sprite
/// that each method returns.
pub struct CaeDisplay {
    sprite: Sprite,
    bongo_cnt: usize,
    last_keypress: u32,
    tick_cnt: u32,
    timeout: u32,
}

impl View for CaeDisplay {
    type V = DisplayView;

    closed spec fn view(&self) -> DisplayView {
        DisplayView {
            sprite: self.sprite,
            second_next: self.bongo_cnt != 0,
            last_keypress: self.last_keypress,
            tick_cnt: self.tick_cnt,
            timeout: self.timeout,
        }
    }
}

impl CaeDisplay {
    /// The tap sprite counter stays within the two tap sprites.
    pub closed spec fn wf(&self) -> bool {
        self.bongo_cnt < 2
    }

    /// An idle display with the usual timeout.
    pub fn new() -> (r: Self)
        ensures
            r.wf(),
            r@ == (DisplayView {
                sprite: Sprite::Idle,
                second_next: false,
                last_keypress: 0,
                tick_cnt: 0,
                timeout: DISPLAY_TIMEOUT,
            }),
    {
        Self::with_timeout(DISPLAY_TIMEOUT)
    }

    /// An idle display that goes back to idle `timeout` ticks after a key
    /// press.
    pub fn with_timeout(timeout: u32) -> (r: Self)
        ensures
            r.wf(),
            r@ == (DisplayView {
                sprite: Sprite::Idle,
                second_next: false,
                last_keypress: 0,
                tick_cnt: 0,
                timeout,
            }),
    {
        CaeDisplay { sprite: Sprite::Idle, bongo_cnt: 0, last_keypress: 0, tick_cnt: 0, timeout }
    }

    /// The sprite on show.
    pub fn sprite(&self) -> (r: Sprite)
        ensures
            r == self@.sprite,
    {
        self.sprite
    }

    /// The tick counter.
    pub fn tick_count(&self) -> (r: u32)
        ensures
            r == self@.tick_cnt,
    {
        self.tick_cnt
    }

    /// The tick counter's value at the last key press.
    pub fn last_keypress(&self) -> (r: u32)
        ensures
            r == self@.last_keypress,
    {
        self.last_keypress
    }

    /// Records a key press and returns the tap sprite to draw: the two tap
    /// sprites alternate from one press to the next.
    pub fn handle_keypress(&mut self) -> (s: Sprite)
        requires
            old(self).wf(),
        ensures
            final(self).wf(),
            final(self)@ == press_spec(old(self)@),
            s == final(self)@.sprite,
    {
        let s = if self.bongo_cnt == 0 {
            Sprite::Tap1
        } else {
            Sprite::Tap2
        };
        self.sprite = s;
        self.last_keypress = self.tick_cnt;
        self.bongo_cnt += 1;
        if self.bongo_cnt >= 2 {
            self.bongo_cnt = 0;
        }
        s
    }

    /// Counts one tick; returns the idle sprite when the display has to go
    /// back to it now, else nothing to draw.
    pub fn tick(&mut self) -> (r: Option<Sprite>)
        requires
            old(self).wf(),
        ensures
            final(self).wf(),
            final(self)@ == tick_spec(old(self)@),
            r == if tick_reverts(old(self)@) {
                Some(Sprite::Idle)
            } else {
                None
            },
    {
        self.tick_cnt = self.tick_cnt.wrapping_add(1);
        let since = self.tick_cnt.wrapping_sub(self.last_keypress);
        if self.sprite != Sprite::Idle && since >= self.timeout {
            self.sprite = Sprite::Idle;
            Some(Sprite::Idle)
        } else {
            None
        }
    }
}

/// Ticks keep the date of the last key press and move the counter on by
/// one each, around the 32-bit counter.
proof fn lemma_ticks_count(v: DisplayView, n: nat)
    ensures
        ticks(v, n).last_keypress == v.last_keypress,
        ticks(v, n).timeout == v.timeout,
        ticks(v, n).tick_cnt == (v.tick_cnt + n) % 0x1_0000_0000,
    decreases n,
{
    if n == 0 {
        vstd::arithmetic::div_mod::lemma_small_mod(v.tick_cnt as nat, 0x1_0000_0000);
    } else {
        lemma_ticks_count(v, (n - 1) as nat);
        vstd::arithmetic::div_mod::lemma_add_mod_noop(v.tick_cnt + n - 1, 1, 0x1_0000_0000);
        vstd::arithmetic::div_mod::lemma_small_mod(1, 0x1_0000_0000);
        vstd::arithmetic::div_mod::lemma_mod_twice(v.tick_cnt + n - 1, 0x1_0000_0000);
    }
}

} // verus!
