use cae_keyboard::display::{CaeDisplay, Sprite, DISPLAY_TIMEOUT};

#[test]
fn new_display_is_idle() {
    let d = CaeDisplay::new();
    assert_eq!(d.sprite(), Sprite::Idle);
    assert_eq!(d.tick_count(), 0);
    assert_eq!(DISPLAY_TIMEOUT, 400);
}

#[test]
fn presses_alternate_tap_sprites() {
    let mut d = CaeDisplay::new();
    assert_eq!(d.handle_keypress(), Sprite::Tap1);
    assert_eq!(d.handle_keypress(), Sprite::Tap2);
    assert_eq!(d.handle_keypress(), Sprite::Tap1);
    assert_eq!(d.sprite(), Sprite::Tap1);
}

#[test]
fn reverts_to_idle_exactly_after_timeout() {
    let mut d = CaeDisplay::new();
    for _ in 0..37 {
        assert_eq!(d.tick(), None);
    }
    d.handle_keypress();
    assert_eq!(d.last_keypress(), 37);
    for _ in 0..399 {
        assert_eq!(d.tick(), None);
        assert_eq!(d.sprite(), Sprite::Tap1);
    }
    assert_eq!(d.tick(), Some(Sprite::Idle));
    assert_eq!(d.sprite(), Sprite::Idle);
    for _ in 0..1000 {
        assert_eq!(d.tick(), None);
    }
}

#[test]
fn press_restarts_the_timeout() {
    let mut d = CaeDisplay::new();
    d.handle_keypress();
    for _ in 0..300 {
        d.tick();
    }
    assert_eq!(d.handle_keypress(), Sprite::Tap2);
    for _ in 0..399 {
        assert_eq!(d.tick(), None);
    }
    assert_eq!(d.tick(), Some(Sprite::Idle));
}

#[test]
fn configured_timeout_is_used() {
    let mut d = CaeDisplay::with_timeout(3);
    d.handle_keypress();
    assert_eq!(d.tick(), None);
    assert_eq!(d.tick(), None);
    assert_eq!(d.tick(), Some(Sprite::Idle));
}

#[test]
fn idle_display_never_redraws() {
    let mut d = CaeDisplay::with_timeout(1);
    for _ in 0..10 {
        assert_eq!(d.tick(), None);
    }
}
