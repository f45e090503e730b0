use cae_keyboard::led_state::{wheel_rgb, LedMode, LedState, Rgb};

const BLACK: Rgb = Rgb { r: 0, g: 0, b: 0 };

fn tick_n<const N: usize>(s: &mut LedState<N>, n: usize) {
    for _ in 0..n {
        s.tick(1, 0, 0);
    }
}

#[test]
fn wheel_rgb_exact_values() {
    assert_eq!(wheel_rgb(0), Rgb { r: 255, g: 0, b: 0 });
    assert_eq!(wheel_rgb(85), Rgb { r: 0, g: 255, b: 0 });
    assert_eq!(wheel_rgb(170), Rgb { r: 0, g: 0, b: 255 });
    assert_eq!(wheel_rgb(255), Rgb { r: 255, g: 0, b: 0 });
    assert_eq!(wheel_rgb(128), Rgb { r: 0, g: 126, b: 129 });
    assert_eq!(wheel_rgb(10), Rgb { r: 225, g: 30, b: 0 });
}

#[test]
fn wheel_rgb_is_pure_and_channels_sum_to_255() {
    for p in 0..=255u8 {
        let c = wheel_rgb(p);
        assert_eq!(c, wheel_rgb(p));
        assert_eq!(c.r as u32 + c.g as u32 + c.b as u32, 255);
        assert!(c.r == 0 || c.g == 0 || c.b == 0);
    }
    for p in [0u8, 85, 170, 255] {
        let c = wheel_rgb(p);
        assert_eq!(c.r as u32 + c.g as u32 + c.b as u32, 255);
    }
}

#[test]
fn new_strip_is_black_in_double_chase() {
    let s: LedState<17> = LedState::new();
    assert_eq!(s.mode(), LedMode::Chase2);
    assert_eq!(s.chase_index(), 0);
    assert!(s.leds().iter().all(|c| *c == BLACK));
}

#[test]
fn switching_mode_blanks_the_strip() {
    for mode in [LedMode::Lightning, LedMode::Chase, LedMode::Chase2] {
        let mut s: LedState<17> = LedState::new();
        s.set_mode(LedMode::Rainbow);
        tick_n(&mut s, 10);
        assert!(s.leds().iter().any(|c| *c != BLACK));
        s.set_mode(mode);
        assert_eq!(s.mode(), mode);
        assert_eq!(s.tick_count(), 0);
        assert_eq!(s.chase_index(), 0);
        assert!(s.leds().iter().all(|c| *c == BLACK));
    }
}

#[test]
fn rainbow_seeds_even_wheel_positions() {
    let mut s: LedState<17> = LedState::new();
    s.set_mode(LedMode::Rainbow);
    let w = s.wheel_positions();
    for i in 0..17 {
        assert_eq!(w[i] as usize, i * 15);
    }
    let mut t: LedState<4> = LedState::new();
    t.set_mode(LedMode::Rainbow);
    assert_eq!(t.wheel_positions(), [0, 63, 127, 191]);
    assert!(t.leds().iter().all(|c| *c == BLACK));
}

#[test]
fn rainbow_updates_every_period() {
    let mut s: LedState<4> = LedState::new();
    s.set_mode(LedMode::Rainbow);
    tick_n(&mut s, 9);
    assert!(s.leds().iter().all(|c| *c == BLACK));
    tick_n(&mut s, 1);
    assert_eq!(s.leds(), [wheel_rgb(0), wheel_rgb(63), wheel_rgb(127), wheel_rgb(191)]);
    assert_eq!(s.wheel_positions(), [1, 64, 128, 192]);
    assert_eq!(s.tick_count(), 0);
}

#[test]
fn rainbow_wheel_positions_wrap() {
    let mut s: LedState<1> = LedState::new();
    s.set_mode(LedMode::Rainbow);
    tick_n(&mut s, 10 * 256);
    assert_eq!(s.wheel_positions(), [0]);
}

#[test]
fn double_chase_lights_two_opposite_leds() {
    let mut s: LedState<17> = LedState::new();
    tick_n(&mut s, 99);
    assert!(s.leds().iter().all(|c| *c == BLACK));
    tick_n(&mut s, 1);
    assert_eq!(s.chase_index(), 1);
    let leds = s.leds();
    let lit: Vec<usize> = (0..17).filter(|i| leds[*i] != BLACK).collect();
    assert_eq!(lit, vec![1, 9]);
    let w = wheel_rgb(10);
    let faded = Rgb { r: w.r.saturating_sub(20), g: w.g.saturating_sub(20), b: w.b.saturating_sub(20) };
    assert_eq!(leds[1], faded);
    assert_eq!(leds[9], faded);
}

#[test]
fn double_chase_pair_on_two_leds_and_wraps() {
    let mut s: LedState<2> = LedState::new();
    tick_n(&mut s, 100);
    assert_eq!(s.chase_index(), 1);
    assert!(s.leds().iter().all(|c| *c != BLACK));
    tick_n(&mut s, 100);
    assert_eq!(s.chase_index(), 0);
}

#[test]
fn double_chase_ignores_key_presses() {
    let mut s: LedState<17> = LedState::new();
    s.handle_keypress(3, 0);
    assert_eq!(s.chase_index(), 0);
    assert!(s.leds().iter().all(|c| *c == BLACK));
}

#[test]
fn two_chase_presses_advance_by_two() {
    let mut s: LedState<17> = LedState::new();
    s.set_mode(LedMode::Chase);
    s.handle_keypress(0, 0);
    assert_eq!(s.chase_index(), 1);
    assert_ne!(s.leds()[1], BLACK);
    assert_eq!(s.leds()[1], wheel_rgb(10));
    s.handle_keypress(0, 0);
    assert_eq!(s.chase_index(), 2);
    assert_ne!(s.leds()[2], BLACK);
    assert_ne!(s.leds()[1], BLACK);
    assert_eq!(s.leds()[2], wheel_rgb(20));
}

#[test]
fn chase_presses_wrap_around_the_strip() {
    let mut s: LedState<3> = LedState::new();
    s.set_mode(LedMode::Chase);
    s.handle_keypress(0, 0);
    s.handle_keypress(0, 0);
    assert_eq!(s.chase_index(), 2);
    s.handle_keypress(0, 0);
    assert_eq!(s.chase_index(), 0);
    assert_ne!(s.leds()[0], BLACK);
}

#[test]
fn chase_tick_moves_lights_and_fades() {
    let mut s: LedState<5> = LedState::new();
    s.set_mode(LedMode::Chase);
    tick_n(&mut s, 10);
    assert_eq!(s.chase_index(), 1);
    let w = wheel_rgb(10);
    assert_eq!(s.leds()[1], Rgb { r: w.r.saturating_sub(1), g: w.g.saturating_sub(1), b: w.b.saturating_sub(1) });
}

#[test]
fn lightning_press_flashes_picked_led() {
    let mut s: LedState<17> = LedState::new();
    s.set_mode(LedMode::Lightning);
    s.handle_keypress(20, 0);
    assert_eq!(s.leds()[3], Rgb { r: 255, g: 255, b: 0 });
    s.handle_keypress(5, 1);
    assert_eq!(s.leds()[5], Rgb { r: 255, g: 255, b: 125 });
}

#[test]
fn lightning_tick_flashes_then_fades() {
    let mut s: LedState<17> = LedState::new();
    s.set_mode(LedMode::Lightning);
    for _ in 0..10 {
        s.tick(40, 4, 1);
    }
    assert_eq!(s.leds()[4], Rgb { r: 198, g: 198, b: 68 });
    for _ in 0..10 {
        s.tick(40, 4, 0);
    }
    // Not dim any more: no new flash, only the fade.
    assert_eq!(s.leds()[4], Rgb { r: 196, g: 196, b: 66 });
}

#[test]
fn lightning_tick_misses_odds() {
    let mut s: LedState<17> = LedState::new();
    s.set_mode(LedMode::Lightning);
    for _ in 0..10 {
        s.tick(1, 4, 0);
    }
    assert!(s.leds().iter().all(|c| *c == BLACK));
}

#[test]
fn fade_saturates_at_zero() {
    let mut s: LedState<17> = LedState::new();
    s.set_mode(LedMode::Lightning);
    s.handle_keypress(0, 0);
    for _ in 0..(10 * 200) {
        s.tick(1, 0, 0);
    }
    assert_eq!(s.leds()[0], BLACK);
}

#[test]
fn get_grb_swaps_red_and_green() {
    let mut s: LedState<17> = LedState::new();
    s.set_mode(LedMode::Lightning);
    s.handle_keypress(2, 1);
    let grb = s.get_grb();
    assert_eq!(grb[2], Rgb { r: 255, g: 255, b: 125 });
    s.set_mode(LedMode::Chase);
    s.handle_keypress(0, 0);
    let c = wheel_rgb(10);
    assert_eq!(s.get_grb()[1], Rgb { r: c.g, g: c.r, b: c.b });
}
