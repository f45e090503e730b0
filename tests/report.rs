use cae_keyboard::report::{media_key_of, media_report, media_usage, select_media_key, MediaKey};
use keyberon::key_code::KeyCode;

#[test]
fn media_codes_match_the_layout_key_codes() {
    assert_eq!(media_key_of(KeyCode::MediaVolUp as u8), Some(MediaKey::VolUp));
    assert_eq!(media_key_of(KeyCode::MediaVolDown as u8), Some(MediaKey::VolDown));
    assert_eq!(media_key_of(KeyCode::MediaPlayPause as u8), Some(MediaKey::PlayPause));
    assert_eq!(media_key_of(KeyCode::MediaNextSong as u8), Some(MediaKey::NextTrack));
    assert_eq!(media_key_of(KeyCode::MediaPreviousSong as u8), Some(MediaKey::PrevTrack));
    assert_eq!(media_key_of(KeyCode::A as u8), None);
}

#[test]
fn first_media_key_wins() {
    let codes = vec![KeyCode::A as u8, KeyCode::MediaNextSong as u8, KeyCode::MediaVolUp as u8];
    assert_eq!(select_media_key(&codes), Some(MediaKey::NextTrack));
    assert_eq!(select_media_key(&[KeyCode::B as u8]), None);
    assert_eq!(select_media_key(&[]), None);
}

#[test]
fn media_report_bytes() {
    assert_eq!(media_usage(MediaKey::PlayPause), 0xCD);
    assert_eq!(media_report(Some(MediaKey::VolUp)), [0xE9, 0x00]);
    assert_eq!(media_report(Some(MediaKey::NextTrack)), [0xB5, 0x00]);
    assert_eq!(media_report(None), [0, 0]);
}
