//! The LED strip animator: a colour buffer with per-LED wheel positions,
//! driven by a periodic tick and by key presses.

use vstd::prelude::*;

verus! {

/// One LED colour, stored in red, green, blue order.
#[derive(Clone, Copy, Debug, PartialEq, Eq, Structural)]
pub struct Rgb {
    pub r: u8,
    pub g: u8,
    pub b: u8,
}

/// The colour with every channel off.
pub open spec fn black() -> Rgb {
    Rgb { r: 0, g: 0, b: 0 }
}

/// The animation patterns of the strip.
#[derive(Clone, Copy, Debug, PartialEq, Eq, Structural)]
pub enum LedMode {
    Rainbow,
    Lightning,
    Chase,
    Chase2,
}

/// Position on the colour wheel: 0 to 255 traces one full hue cycle through
/// three segments of 85 positions, each a linear ramp on two channels.
pub open spec fn wheel_spec(pos: u8) -> Rgb {
    let w = 255 - pos;
    if w < 85 {
        Rgb { r: (255 - 3 * w) as u8, g: 0, b: (3 * w) as u8 }
    } else if w < 170 {
        Rgb { r: 0, g: (3 * (w - 85)) as u8, b: (255 - 3 * (w - 85)) as u8 }
    } else {
        Rgb { r: (3 * (w - 170)) as u8, g: (255 - 3 * (w - 170)) as u8, b: 0 }
    }
}

/// The sum of a colour's three channels.
pub open spec fn brightness(c: Rgb) -> int {
    c.r + c.g + c.b
}

/// Every wheel colour has at least one channel off and its channels sum to
/// 255 (the two ramping channels always add up to full scale), so no wheel
/// colour is black.
pub proof fn lemma_wheel_channels_sum(pos: u8)
    ensures
        brightness(wheel_spec(pos)) == 255,
        wheel_spec(pos) != black(),
        wheel_spec(pos).r == 0 || wheel_spec(pos).g == 0 || wheel_spec(pos).b == 0,
{
}

/// The colour of a wheel position.
pub fn wheel_rgb(wheel_pos: u8) -> (r: Rgb)
    ensures
        r == wheel_spec(wheel_pos),
{
    let w: u8 = 255 - wheel_pos;
    if w < 85 {
        Rgb { r: 255 - w * 3, g: 0, b: w * 3 }
    } else if w < 170 {
        let s: u8 = w - 85;
        Rgb { r: 0, g: s * 3, b: 255 - s * 3 }
    } else {
        let s: u8 = w - 170;
        Rgb { r: s * 3, g: 255 - s * 3, b: 0 }
    }
}


/// Ticks between two updates of the rainbow pattern.
pub const RAINBOW_PERIOD: u32 = 10;

/// Ticks between two updates of the lightning pattern.
pub const LIGHTNING_PERIOD: u32 = 10;

/// Ticks between two updates of the chase pattern.
pub const CHASE_PERIOD: u32 = 10;

/// Ticks between two updates of the double chase pattern.
pub const CHASE2_PERIOD: u32 = 100;

/// A lightning update flashes an LED with odds of one in this many.
pub const LIGHTNING_ODDS: u32 = 20;

/// A lightning update flashes only an LED whose red channel is below this.
pub const DIM_RED_LIMIT: u8 = 100;

/// Amount taken from every channel of every LED by a lightning update.
pub const LIGHTNING_FADE: u8 = 2;

/// Amount taken from every channel of every LED by a chase update.
pub const CHASE_FADE: u8 = 1;

/// Amount taken from every channel of every LED by a double chase update.
pub const CHASE2_FADE: u8 = 20;

/// Advance of the shared chase phase for each step of a chase.
pub const CHASE_PHASE_STEP: u8 = 10;

/// The update period of a mode, in ticks.
pub open spec fn period(mode: LedMode) -> u32 {
    match mode {
        LedMode::Rainbow => RAINBOW_PERIOD,
        LedMode::Lightning => LIGHTNING_PERIOD,
        LedMode::Chase => CHASE_PERIOD,
        LedMode::Chase2 => CHASE2_PERIOD,
    }
}

/// A colour with `d` taken from each channel, stopping at zero.
pub open spec fn fade(c: Rgb, d: u8) -> Rgb {
    Rgb {
        r: if c.r >= d { (c.r - d) as u8 } else { 0 },
        g: if c.g >= d { (c.g - d) as u8 } else { 0 },
        b: if c.b >= d { (c.b - d) as u8 } else { 0 },
    }
}

/// Every colour of `leds` faded by `d`.
pub open spec fn faded(leds: Seq<Rgb>, d: u8) -> Seq<Rgb> {
    Seq::new(leds.len(), |i: int| fade(leds[i], d))
}

/// `n` black LEDs.
pub open spec fn all_black(n: nat) -> Seq<Rgb> {
    Seq::new(n, |i: int| black())
}

/// The wheel position that the rainbow gives LED `i` of `n`: evenly spaced
/// over 0 to 255.
pub open spec fn rainbow_seed(i: int, n: int) -> u8 {
    ((i * 255) / n) as u8
}

/// The chase index after `c` on a strip of `n` LEDs.
pub open spec fn next_chase(c: int, n: int) -> int {
    if c + 1 >= n { 0 } else { c + 1 }
}

/// The LED half a strip of `n` away from `i`.
pub open spec fn opposite(i: int, n: int) -> int {
    (i + n / 2) % n
}

/// The wheel positions with the shared chase phase (the first one) advanced.
pub open spec fn step_phase(wheel: Seq<u8>) -> Seq<u8> {
    wheel.update(0, ((wheel[0] + CHASE_PHASE_STEP) % 256) as u8)
}

/// The colour that a key press flashes in lightning mode.
pub open spec fn press_flash(colour_draw: u32) -> Rgb {
    if colour_draw % 2 == 0 {
        Rgb { r: 255, g: 255, b: 0 }
    } else {
        Rgb { r: 255, g: 255, b: 125 }
    }
}

/// The colour that a lightning update flashes.
pub open spec fn tick_flash(colour_draw: u32) -> Rgb {
    if colour_draw % 2 == 0 {
        Rgb { r: 200, g: 200, b: 0 }
    } else {
        Rgb { r: 200, g: 200, b: 70 }
    }
}

/// What the animator holds: the colours, the wheel positions (the first one
/// doubles as the chase phase), the tick counter, the mode and the chase
/// index.
pub struct LedView {
    pub leds: Seq<Rgb>,
    pub wheel: Seq<u8>,
    pub tick_count: u32,
    pub mode: LedMode,
    pub chase: int,
}

/// The invariant of the animator's state.
pub open spec fn well_formed(v: LedView) -> bool {
    &&& v.leds.len() > 0
    &&& v.wheel.len() == v.leds.len()
    &&& 0 <= v.chase < v.leds.len()
    &&& v.tick_count < period(v.mode)
}

/// The state after switching to `mode`: counters reset; the rainbow seeds the
/// wheel positions, every other mode blanks the strip.
pub open spec fn set_mode_spec(v: LedView, mode: LedMode) -> LedView {
    let n = v.leds.len();
    if mode == LedMode::Rainbow {
        LedView {
            wheel: Seq::new(n, |i: int| rainbow_seed(i, n as int)),
            tick_count: 0,
            mode,
            chase: 0,
            ..v
        }
    } else {
        LedView { leds: all_black(n), tick_count: 0, mode, chase: 0, ..v }
    }
}

/// The state after a key press, with the two random draws it consumes.
pub open spec fn keypress_spec(v: LedView, index_draw: u32, colour_draw: u32) -> LedView {
    let n = v.leds.len() as int;
    match v.mode {
        LedMode::Lightning => LedView {
            leds: v.leds.update((index_draw as int) % n, press_flash(colour_draw)),
            ..v
        },
        LedMode::Chase => {
            let c = next_chase(v.chase, n);
            let w = step_phase(v.wheel);
            LedView { leds: v.leds.update(c, wheel_spec(w[0])), wheel: w, chase: c, ..v }
        },
        _ => v,
    }
}

/// The pattern update that a mode makes once per period.
pub open spec fn update_spec(v: LedView, chance_draw: u32, index_draw: u32, colour_draw: u32) -> LedView {
    let n = v.leds.len() as int;
    match v.mode {
        LedMode::Rainbow => LedView {
            leds: Seq::new(n as nat, |i: int| wheel_spec(v.wheel[i])),
            wheel: Seq::new(n as nat, |i: int| ((v.wheel[i] + 1) % 256) as u8),
            ..v
        },
        LedMode::Lightning => {
            let k = (index_draw as int) % n;
            let lit = if chance_draw % LIGHTNING_ODDS == 0 && v.leds[k].r < DIM_RED_LIMIT {
                v.leds.update(k, tick_flash(colour_draw))
            } else {
                v.leds
            };
            LedView { leds: faded(lit, LIGHTNING_FADE), ..v }
        },
        LedMode::Chase => {
            let c = next_chase(v.chase, n);
            let w = step_phase(v.wheel);
            LedView {
                leds: faded(v.leds.update(c, wheel_spec(w[0])), CHASE_FADE),
                wheel: w,
                chase: c,
                ..v
            }
        },
        LedMode::Chase2 => {
            let c = next_chase(v.chase, n);
            let w = step_phase(v.wheel);
            let lit = v.leds.update(c, wheel_spec(w[0])).update(opposite(c, n), wheel_spec(w[0]));
            LedView { leds: faded(lit, CHASE2_FADE), wheel: w, chase: c, ..v }
        },
    }
}

/// The state after one tick: the counter advances, and on the last tick of
/// the mode's period it restarts and the pattern updates.
pub open spec fn tick_spec(v: LedView, chance_draw: u32, index_draw: u32, colour_draw: u32) -> LedView {
    if v.tick_count + 1 < period(v.mode) {
        LedView { tick_count: (v.tick_count + 1) as u32, ..v }
    } else {
        update_spec(LedView { tick_count: 0, ..v }, chance_draw, index_draw, colour_draw)
    }
}


/// The colour wheel repeats every 256 positions: a position and the same
/// position a full turn later give the same colour.
pub proof fn lemma_wheel_periodic(p: int)
    ensures
        wheel_spec((p % 256) as u8) == wheel_spec(((p + 256) % 256) as u8),
{
    assert((p + 256) % 256 == p % 256) by {
        vstd::arithmetic::div_mod::lemma_mod_add_multiples_vanish(p, 256);
    }
}

/// The two LEDs that the double chase lights at once, `i` and the one half a
/// strip away, are distinct and both on a strip of more than one LED.
pub proof fn lemma_chase2_pair_distinct(i: int, n: int)
    requires
        n > 1,
        0 <= i < n,
    ensures
        0 <= opposite(i, n) < n,
        opposite(i, n) != i,
{
    let h = n / 2;
    assert(1 <= h < n);
    if i + h >= n {
        vstd::arithmetic::div_mod::lemma_mod_sub_multiples_vanish(i + h, n);
        vstd::arithmetic::div_mod::lemma_small_mod((i + h - n) as nat, n as nat);
    } else {
        vstd::arithmetic::div_mod::lemma_small_mod((i + h) as nat, n as nat);
    }
}

/// Two key presses in chase mode move the chase index two LEDs on (around
/// the strip), and after each press the LED it moved to is lit; after the
/// second press both LEDs are lit.
pub proof fn lemma_two_chase_presses(v: LedView, d0: u32, d1: u32, d2: u32, d3: u32)
    requires
        well_formed(v),
        v.mode == LedMode::Chase,
    ensures
        ({
            let n = v.leds.len() as int;
            let v1 = keypress_spec(v, d0, d1);
            let v2 = keypress_spec(v1, d2, d3);
            &&& v2.chase == (v.chase + 2) % n
            &&& v1.leds[v1.chase] != black()
            &&& v2.leds[v2.chase] != black()
            &&& v2.leds[v1.chase] != black()
            &&& well_formed(v1)
            &&& well_formed(v2)
        }),
{
    let n = v.leds.len() as int;
    let v1 = keypress_spec(v, d0, d1);
    let v2 = keypress_spec(v1, d2, d3);
    lemma_wheel_channels_sum(step_phase(v.wheel)[0]);
    lemma_wheel_channels_sum(step_phase(v1.wheel)[0]);
    if v.chase + 2 < n {
        vstd::arithmetic::div_mod::lemma_small_mod((v.chase + 2) as nat, n as nat);
    } else if v.chase + 2 == n {
        vstd::arithmetic::div_mod::lemma_mod_self_0(n);
    } else if n == 1 {
        assert((v.chase + 2) % 1 == 0);
    } else {
        vstd::arithmetic::div_mod::lemma_mod_sub_multiples_vanish(v.chase + 2, n);
        vstd::arithmetic::div_mod::lemma_small_mod((v.chase + 2 - n) as nat, n as nat);
    }
}

/// The LED animator for a strip of `NUM_LEDS` LEDs.
pub struct LedState<const NUM_LEDS: usize> {
    leds: [Rgb; NUM_LEDS],
    wheel_positions: [u8; NUM_LEDS],
    tick_count: u32,
    led_mode: LedMode,
    chase_count: usize,
}

impl<const NUM_LEDS: usize> View for LedState<NUM_LEDS> {
    type V = LedView;

    closed spec fn view(&self) -> LedView {
        LedView {
            leds: self.leds@,
            wheel: self.wheel_positions@,
            tick_count: self.tick_count,
            mode: self.led_mode,
            chase: self.chase_count as int,
        }
    }
}

/// Takes `d` from every channel of every LED, stopping at zero.
fn fade_all<const N: usize>(leds: &mut [Rgb; N], d: u8)
    ensures
        final(leds)@ == faded(old(leds)@, d),
{
    let ghost start = leds@;
    let mut i: usize = 0;
    while i < N
        invariant
            i <= N,
            start.len() == N,
            leds@.len() == N,
            forall|j: int| 0 <= j < i ==> leds@[j] == fade(start[j], d),
            forall|j: int| i <= j < N ==> leds@[j] == start[j],
        decreases N - i,
    {
        let c = leds[i];
        leds[i] = Rgb { r: c.r.saturating_sub(d), g: c.g.saturating_sub(d), b: c.b.saturating_sub(d) };
        i += 1;
    }
    assert(leds@ =~= faded(start, d));
}

/// Sets every LED to black.
fn blank<const N: usize>(leds: &mut [Rgb; N])
    ensures
        final(leds)@ == all_black(N as nat),
{
    let mut i: usize = 0;
    while i < N
        invariant
            i <= N,
            leds@.len() == N,
            forall|j: int| 0 <= j < i ==> leds@[j] == black(),
        decreases N - i,
    {
        leds[i] = Rgb { r: 0, g: 0, b: 0 };
        i += 1;
    }
    assert(leds@ =~= all_black(N as nat));
}

/// A random draw reduced to an index below `len`.
fn rand_index(draw: u32, len: usize) -> (r: usize)
    requires
        len > 0,
    ensures
        r as int == (draw as int) % (len as int),
        r < len,
{
    draw as usize % len
}

/// Whether a random draw hits odds of one in `chance`.
fn one_in_chance(draw: u32, chance: u32) -> (r: bool)
    requires
        chance > 0,
    ensures
        r == (draw % chance == 0),
{
    rand_index(draw, chance as usize) == 0
}

/// The LED half a strip of `n` away from `i`, computed without overflow.
fn opposite_index(i: usize, n: usize) -> (r: usize)
    requires
        i < n,
    ensures
        r as int == opposite(i as int, n as int),
        r < n,
{
    let half = n / 2;
    if i >= n - half {
        let r = i - (n - half);
        assert((i + half) % (n as int) == r) by {
            vstd::arithmetic::div_mod::lemma_mod_sub_multiples_vanish((i + half) as int, n as int);
            vstd::arithmetic::div_mod::lemma_small_mod(r as nat, n as nat);
        }
        r
    } else {
        let r = i + half;
        assert((i + half) % (n as int) == r) by {
            vstd::arithmetic::div_mod::lemma_small_mod(r as nat, n as nat);
        }
        r
    }
}

impl<const NUM_LEDS: usize> LedState<NUM_LEDS> {
    /// The invariant: a non-empty strip, the chase index on it, the tick
    /// counter within the mode's period.
    pub open spec fn wf(&self) -> bool {
        well_formed(self@)
    }

    /// A black strip in double chase mode.
    pub fn new() -> (r: Self)
        requires
            NUM_LEDS > 0,
        ensures
            r.wf(),
            r@.mode == LedMode::Chase2,
            r@.leds == all_black(NUM_LEDS as nat),
            r@.wheel == Seq::new(NUM_LEDS as nat, |i: int| 0u8),
            r@.tick_count == 0,
            r@.chase == 0,
    {
        let mut ret = LedState {
            leds: [Rgb { r: 0, g: 0, b: 0 }; NUM_LEDS],
            wheel_positions: [0u8; NUM_LEDS],
            tick_count: 0,
            led_mode: LedMode::Rainbow,
            chase_count: 0,
        };
        assert(ret@.leds =~= all_black(NUM_LEDS as nat));
        assert(ret@.wheel =~= Seq::new(NUM_LEDS as nat, |i: int| 0u8));
        ret.set_mode(LedMode::Chase2);
        ret
    }

    /// Sets every LED to black; nothing else changes.
    pub fn clear(&mut self)
        ensures
            final(self)@ == (LedView { leds: all_black(NUM_LEDS as nat), ..old(self)@ }),
    {
        blank(&mut self.leds);
    }

    /// Switches the animation to `mode` and restarts its counters. Every mode
    /// but the rainbow starts from a black strip; the rainbow re-seeds the
    /// wheel positions evenly around the wheel and keeps the colours.
    pub fn set_mode(&mut self, mode: LedMode)
        requires
            NUM_LEDS > 0,
        ensures
            final(self).wf(),
            final(self)@ == set_mode_spec(old(self)@, mode),
            final(self)@.mode == mode,
            mode != LedMode::Rainbow ==> forall|i: int|
                0 <= i < NUM_LEDS ==> #[trigger] final(self)@.leds[i] == black(),
            mode == LedMode::Rainbow ==> forall|i: int|
                0 <= i < NUM_LEDS ==> #[trigger] final(self)@.wheel[i] == rainbow_seed(
                    i,
                    NUM_LEDS as int,
                ),
    {
        self.tick_count = 0;
        self.chase_count = 0;
        self.led_mode = mode;
        match mode {
            LedMode::Rainbow => self.init_rainbow(),
            _ => self.clear(),
        }
        assert(self@ =~= set_mode_spec(old(self)@, mode));
    }

    /// Spreads the wheel positions evenly over the wheel.
    fn init_rainbow(&mut self)
        requires
            NUM_LEDS > 0,
        ensures
            final(self)@ == (LedView {
                wheel: Seq::new(NUM_LEDS as nat, |i: int| rainbow_seed(i, NUM_LEDS as int)),
                ..old(self)@
            }),
    {
        let ghost start = self@;
        let n: u128 = NUM_LEDS as u128;
        let mut i: usize = 0;
        while i < NUM_LEDS
            invariant
                i <= NUM_LEDS,
                n == NUM_LEDS,
                NUM_LEDS > 0,
                self.leds@ == start.leds,
                self.tick_count == start.tick_count,
                self.led_mode == start.mode,
                self.chase_count == start.chase,
                self.wheel_positions@.len() == NUM_LEDS,
                forall|j: int| 0 <= j < i ==> self.wheel_positions@[j] == rainbow_seed(j, NUM_LEDS as int),
            decreases NUM_LEDS - i,
        {
            let k: u128 = i as u128;
            assert((k as int) * 255 / (n as int) < 256 && (k as int) * 255 < 0x1_0000_0000_0000_0000_0000)
                by (nonlinear_arith)
                requires k < n, n > 0, n <= 0x1_0000_0000_0000_0000;
            self.wheel_positions[i] = (k * 255 / n) as u8;
            i += 1;
        }
        assert(self@.wheel =~= Seq::new(NUM_LEDS as nat, |i: int| rainbow_seed(i, NUM_LEDS as int)));
    }

    /// The update period of the current mode, in ticks.
    fn mode_period(&self) -> (r: u32)
        ensures
            r == period(self@.mode),
    {
        match self.led_mode {
            LedMode::Rainbow => RAINBOW_PERIOD,
            LedMode::Lightning => LIGHTNING_PERIOD,
            LedMode::Chase => CHASE_PERIOD,
            LedMode::Chase2 => CHASE2_PERIOD,
        }
    }

    /// Counts one tick; returns whether the period is over, in which case the
    /// counter restarts.
    fn count_tick(&mut self) -> (due: bool)
        requires
            old(self).wf(),
        ensures
            due == (old(self)@.tick_count + 1 >= period(old(self)@.mode)),
            final(self)@ == (LedView {
                tick_count: if due { 0 } else { (old(self)@.tick_count + 1) as u32 },
                ..old(self)@
            }),
    {
        if self.tick_count + 1 < self.mode_period() {
            self.tick_count += 1;
            false
        } else {
            self.tick_count = 0;
            true
        }
    }

    /// Moves the chase index one LED on and advances the shared phase;
    /// returns the colour of the new phase.
    fn advance_chase(&mut self) -> (c: Rgb)
        requires
            old(self).wf(),
        ensures
            final(self)@ == (LedView {
                chase: next_chase(old(self)@.chase, NUM_LEDS as int),
                wheel: step_phase(old(self)@.wheel),
                ..old(self)@
            }),
            c == wheel_spec(step_phase(old(self)@.wheel)[0]),
    {
        self.chase_count += 1;
        if self.chase_count >= NUM_LEDS {
            self.chase_count = 0;
        }
        self.wheel_positions[0] = self.wheel_positions[0].wrapping_add(CHASE_PHASE_STEP);
        assert(self@.wheel =~= step_phase(old(self)@.wheel));
        wheel_rgb(self.wheel_positions[0])
    }

    fn tick_rainbow(&mut self)
        requires
            old(self).wf(),
            old(self)@.mode == LedMode::Rainbow,
        ensures
            final(self)@ == tick_spec(old(self)@, 0, 0, 0),
    {
        if !self.count_tick() {
            return;
        }
        let ghost start = self@;
        let mut i: usize = 0;
        while i < NUM_LEDS
            invariant
                i <= NUM_LEDS,
                start.leds.len() == NUM_LEDS,
                start.wheel.len() == NUM_LEDS,
                self.leds@.len() == NUM_LEDS,
                self.wheel_positions@.len() == NUM_LEDS,
                self.tick_count == start.tick_count,
                self.led_mode == start.mode,
                self.chase_count == start.chase,
                forall|j: int| 0 <= j < i ==> self.leds@[j] == wheel_spec(start.wheel[j]),
                forall|j: int|
                    0 <= j < i ==> self.wheel_positions@[j] == ((start.wheel[j] + 1) % 256) as u8,
                forall|j: int| i <= j < NUM_LEDS ==> self.wheel_positions@[j] == start.wheel[j],
            decreases NUM_LEDS - i,
        {
            self.leds[i] = wheel_rgb(self.wheel_positions[i]);
            self.wheel_positions[i] = self.wheel_positions[i].wrapping_add(1);
            i += 1;
        }
        assert(self@.leds =~= update_spec(start, 0, 0, 0).leds);
        assert(self@.wheel =~= update_spec(start, 0, 0, 0).wheel);
    }

    fn tick_lightning(&mut self, chance_draw: u32, index_draw: u32, colour_draw: u32)
        requires
            old(self).wf(),
            old(self)@.mode == LedMode::Lightning,
        ensures
            final(self)@ == tick_spec(old(self)@, chance_draw, index_draw, colour_draw),
    {
        if !self.count_tick() {
            return;
        }
        if one_in_chance(chance_draw, LIGHTNING_ODDS) {
            let k = rand_index(index_draw, NUM_LEDS);
            if self.leds[k].r < DIM_RED_LIMIT {
                self.leds[k] = if one_in_chance(colour_draw, 2) {
                    Rgb { r: 200, g: 200, b: 0 }
                } else {
                    Rgb { r: 200, g: 200, b: 70 }
                };
            }
        }
        fade_all(&mut self.leds, LIGHTNING_FADE);
    }

    fn tick_chase(&mut self)
        requires
            old(self).wf(),
            old(self)@.mode == LedMode::Chase,
        ensures
            final(self)@ == tick_spec(old(self)@, 0, 0, 0),
    {
        if !self.count_tick() {
            return;
        }
        let c = self.advance_chase();
        self.leds[self.chase_count] = c;
        fade_all(&mut self.leds, CHASE_FADE);
    }

    fn tick_chase_2(&mut self)
        requires
            old(self).wf(),
            old(self)@.mode == LedMode::Chase2,
        ensures
            final(self)@ == tick_spec(old(self)@, 0, 0, 0),
    {
        if !self.count_tick() {
            return;
        }
        let c = self.advance_chase();
        let second = opposite_index(self.chase_count, NUM_LEDS);
        self.leds[self.chase_count] = c;
        self.leds[second] = c;
        fade_all(&mut self.leds, CHASE2_FADE);
    }

    /// Advances the animation by one tick. The three draws are random
    /// numbers; only the lightning mode reads them: the first decides whether
    /// an LED flashes (odds of one in twenty), the second which one, the
    /// third its colour.
    pub fn tick(&mut self, chance_draw: u32, index_draw: u32, colour_draw: u32)
        requires
            old(self).wf(),
        ensures
            final(self).wf(),
            final(self)@ == tick_spec(old(self)@, chance_draw, index_draw, colour_draw),
    {
        match self.led_mode {
            LedMode::Rainbow => self.tick_rainbow(),
            LedMode::Lightning => self.tick_lightning(chance_draw, index_draw, colour_draw),
            LedMode::Chase => self.tick_chase(),
            LedMode::Chase2 => self.tick_chase_2(),
        }
    }

    fn handle_keypress_lightning(&mut self, index_draw: u32, colour_draw: u32)
        requires
            old(self).wf(),
            old(self)@.mode == LedMode::Lightning,
        ensures
            final(self)@ == keypress_spec(old(self)@, index_draw, colour_draw),
    {
        let k = rand_index(index_draw, NUM_LEDS);
        if one_in_chance(colour_draw, 2) {
            self.leds[k] = Rgb { r: 255, g: 255, b: 0 };
        } else {
            self.leds[k] = Rgb { r: 255, g: 255, b: 125 };
        }
    }

    fn handle_keypress_chase(&mut self)
        requires
            old(self).wf(),
            old(self)@.mode == LedMode::Chase,
        ensures
            final(self)@ == keypress_spec(old(self)@, 0, 0),
    {
        let c = self.advance_chase();
        self.leds[self.chase_count] = c;
    }

    /// Reacts to a key press at once. Lightning flashes the LED that the
    /// first draw picks at full brightness, in one of two colours that the
    /// second draw picks; chase moves one LED on and lights it; the other
    /// modes ignore key presses.
    pub fn handle_keypress(&mut self, index_draw: u32, colour_draw: u32)
        requires
            old(self).wf(),
        ensures
            final(self).wf(),
            final(self)@ == keypress_spec(old(self)@, index_draw, colour_draw),
    {
        match self.led_mode {
            LedMode::Lightning => self.handle_keypress_lightning(index_draw, colour_draw),
            LedMode::Chase => self.handle_keypress_chase(),
            _ => {},
        }
    }

    /// The current mode.
    pub fn mode(&self) -> (r: LedMode)
        ensures
            r == self@.mode,
    {
        self.led_mode
    }

    /// The current chase index.
    pub fn chase_index(&self) -> (r: usize)
        ensures
            r == self@.chase,
    {
        self.chase_count
    }

    /// The colours, in red, green, blue order.
    pub fn leds(&self) -> (r: [Rgb; NUM_LEDS])
        ensures
            r@ == self@.leds,
    {
        self.leds
    }

    /// The wheel positions.
    pub fn wheel_positions(&self) -> (r: [u8; NUM_LEDS])
        ensures
            r@ == self@.wheel,
    {
        self.wheel_positions
    }

    /// Ticks counted since the last update of the pattern.
    pub fn tick_count(&self) -> (r: u32)
        ensures
            r == self@.tick_count,
    {
        self.tick_count
    }

    /// The colours in the strip's wire order: green, red, blue. Each entry
    /// holds the green channel in `r` and the red channel in `g`.
    pub fn get_grb(&self) -> (r: [Rgb; NUM_LEDS])
        ensures
            r@ == Seq::new(
                NUM_LEDS as nat,
                |i: int| Rgb { r: self@.leds[i].g, g: self@.leds[i].r, b: self@.leds[i].b },
            ),
    {
        let mut ret = self.leds;
        let mut i: usize = 0;
        while i < NUM_LEDS
            invariant
                i <= NUM_LEDS,
                ret@.len() == NUM_LEDS,
                self.leds@.len() == NUM_LEDS,
                forall|j: int|
                    0 <= j < i ==> ret@[j] == (Rgb {
                        r: self.leds@[j].g,
                        g: self.leds@[j].r,
                        b: self.leds@[j].b,
                    }),
                forall|j: int| i <= j < NUM_LEDS ==> ret@[j] == self.leds@[j],
            decreases NUM_LEDS - i,
        {
            let c = ret[i];
            ret[i] = Rgb { r: c.g, g: c.r, b: c.b };
            i += 1;
        }
        assert(ret@ =~= Seq::new(
            NUM_LEDS as nat,
            |i: int| Rgb { r: self@.leds[i].g, g: self@.leds[i].r, b: self@.leds[i].b },
        ));
        ret
    }
}

} // verus!
