use cae_keyboard::debounce::{Debouncer, KeyEvent, DEBOUNCE_THRESHOLD};
use keyberon::action::Action;
use keyberon::key_code::{KbHidReport, KeyCode};
use keyberon::layout::{Event, Layout};

static ONE_KEY: &[&[&[Action]]] = &[&[&[Action::KeyCode(KeyCode::A)]]];

#[test]
fn press_after_threshold_scans() {
    let mut d: Debouncer<1, 1> = Debouncer::new(DEBOUNCE_THRESHOLD);
    for _ in 0..14 {
        assert!(d.events(&[[true]]).is_empty());
    }
    assert_eq!(d.events(&[[true]]), vec![KeyEvent::Press(0, 0)]);
    for _ in 0..100 {
        assert!(d.events(&[[true]]).is_empty());
    }
    assert!(d.is_pressed(0, 0));
}

#[test]
fn bounce_restarts_the_count() {
    let mut d: Debouncer<1, 1> = Debouncer::new(3);
    assert!(d.events(&[[true]]).is_empty());
    assert!(d.events(&[[true]]).is_empty());
    assert!(d.events(&[[false]]).is_empty());
    assert!(d.events(&[[true]]).is_empty());
    assert!(d.events(&[[true]]).is_empty());
    assert_eq!(d.events(&[[true]]), vec![KeyEvent::Press(0, 0)]);
}

#[test]
fn keys_are_debounced_independently_in_row_major_order() {
    let mut d: Debouncer<3, 2> = Debouncer::new(2);
    assert!(d.events(&[[false, true, false], [true, false, false]]).is_empty());
    assert_eq!(
        d.events(&[[false, false, true], [true, false, false]]),
        vec![KeyEvent::Press(1, 0)]
    );
    assert_eq!(
        d.events(&[[false, false, true], [true, false, false]]),
        vec![KeyEvent::Press(0, 2)]
    );
    assert!(!d.is_pressed(0, 1));
    assert!(d.events(&[[false, false, false], [false, false, false]]).is_empty());
    let ev = d.events(&[[false, false, false], [false, false, false]]);
    assert_eq!(ev, vec![KeyEvent::Release(0, 2), KeyEvent::Release(1, 0)]);
    assert!(!ev[0].is_press());
}

#[test]
fn threshold_of_one_reports_at_once() {
    let mut d: Debouncer<2, 1> = Debouncer::new(1);
    assert_eq!(d.events(&[[false, true]]), vec![KeyEvent::Press(0, 1)]);
    assert!(d.events(&[[false, true]])[..].is_empty());
    assert_eq!(d.threshold(), 1);
}

fn scan(d: &mut Debouncer<1, 1>, layout: &mut Layout, pressed: bool, log: &mut Vec<KeyEvent>) -> Vec<u8> {
    for e in d.events(&[[pressed]]) {
        log.push(e);
        let ev = match e {
            KeyEvent::Press(r, c) => Event::Press(r as u8, c as u8),
            KeyEvent::Release(r, c) => Event::Release(r as u8, c as u8),
        };
        layout.event(ev).for_each(drop);
    }
    layout.tick().for_each(drop);
    let report: KbHidReport = layout.keycodes().collect();
    report.as_bytes().to_vec()
}

#[test]
fn one_key_matrix_press_then_release() {
    let mut d: Debouncer<1, 1> = Debouncer::new(DEBOUNCE_THRESHOLD);
    let mut layout = Layout::new(ONE_KEY);
    let mut log = Vec::new();
    let mut held = Vec::new();
    for _ in 0..20 {
        let before = log.len();
        let r = scan(&mut d, &mut layout, true, &mut log);
        held.push((before, r));
    }
    for _ in 0..20 {
        let before = log.len();
        let r = scan(&mut d, &mut layout, false, &mut log);
        held.push((before, r));
    }
    assert_eq!(log, vec![KeyEvent::Press(0, 0), KeyEvent::Release(0, 0)]);
    let a = KeyCode::A as u8;
    for (i, (_, report)) in held.iter().enumerate() {
        let has_a = report[2..].contains(&a);
        // Press confirmed at scan 15 (index 14), release at scan 35 (index 34).
        assert_eq!(has_a, (14..34).contains(&i), "scan {}", i);
    }
}
