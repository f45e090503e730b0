//! The consumer-control (media key) report: at most one media action per
//! tick, the first media key code of the layout's key codes.

use vstd::prelude::*;

verus! {

/// The media actions that the consumer-control report can carry.
#[derive(Clone, Copy, Debug, PartialEq, Eq, Structural)]
pub enum MediaKey {
    VolUp,
    VolDown,
    PlayPause,
    NextTrack,
    PrevTrack,
}

/// Keyboard usage code of the layout's play/pause key.
pub const KEY_MEDIA_PLAY_PAUSE: u8 = 0xE8;

/// Keyboard usage code of the layout's previous-track key.
pub const KEY_MEDIA_PREVIOUS_SONG: u8 = 0xEA;

/// Keyboard usage code of the layout's next-track key.
pub const KEY_MEDIA_NEXT_SONG: u8 = 0xEB;

/// Keyboard usage code of the layout's volume-up key.
pub const KEY_MEDIA_VOL_UP: u8 = 0xED;

/// Keyboard usage code of the layout's volume-down key.
pub const KEY_MEDIA_VOL_DOWN: u8 = 0xEE;

/// The media action of a key code, if it is a media key.
pub open spec fn media_of(code: u8) -> Option<MediaKey> {
    if code == KEY_MEDIA_VOL_UP {
        Some(MediaKey::VolUp)
    } else if code == KEY_MEDIA_VOL_DOWN {
        Some(MediaKey::VolDown)
    } else if code == KEY_MEDIA_PLAY_PAUSE {
        Some(MediaKey::PlayPause)
    } else if code == KEY_MEDIA_NEXT_SONG {
        Some(MediaKey::NextTrack)
    } else if code == KEY_MEDIA_PREVIOUS_SONG {
        Some(MediaKey::PrevTrack)
    } else {
        None
    }
}

/// The media action of the first media key code in `codes`, if any.
pub open spec fn first_media(codes: Seq<u8>) -> Option<MediaKey>
    decreases codes.len(),
{
    if codes.len() == 0 {
        None
    } else if media_of(codes[0]) is Some {
        media_of(codes[0])
    } else {
        first_media(codes.drop_first())
    }
}

/// The consumer-control usage of a media action.
pub open spec fn usage_of(k: MediaKey) -> u16 {
    match k {
        MediaKey::VolUp => 0xE9,
        MediaKey::VolDown => 0xEA,
        MediaKey::PlayPause => 0xCD,
        MediaKey::NextTrack => 0xB5,
        MediaKey::PrevTrack => 0xB6,
    }
}

/// The media action of a key code, if it is a media key.
pub fn media_key_of(code: u8) -> (r: Option<MediaKey>)
    ensures
        r == media_of(code),
{
    if code == KEY_MEDIA_VOL_UP {
        Some(MediaKey::VolUp)
    } else if code == KEY_MEDIA_VOL_DOWN {
        Some(MediaKey::VolDown)
    } else if code == KEY_MEDIA_PLAY_PAUSE {
        Some(MediaKey::PlayPause)
    } else if code == KEY_MEDIA_NEXT_SONG {
        Some(MediaKey::NextTrack)
    } else if code == KEY_MEDIA_PREVIOUS_SONG {
        Some(MediaKey::PrevTrack)
    } else {
        None
    }
}

/// The consumer-control usage of a media action.
pub fn media_usage(k: MediaKey) -> (r: u16)
    ensures
        r == usage_of(k),
{
    match k {
        MediaKey::VolUp => 0xE9,
        MediaKey::VolDown => 0xEA,
        MediaKey::PlayPause => 0xCD,
        MediaKey::NextTrack => 0xB5,
        MediaKey::PrevTrack => 0xB6,
    }
}

/// The media action that the report carries for the given key codes: the
/// first media key in their order; the others are ignored.
pub fn select_media_key(codes: &[u8]) -> (r: Option<MediaKey>)
    ensures
        r == first_media(codes@),
{
    let mut i: usize = 0;
    assert(codes@.skip(0) =~= codes@);
    while i < codes.len()
        invariant
            i <= codes@.len(),
            first_media(codes@) == first_media(codes@.skip(i as int)),
        decreases codes@.len() - i,
    {
        let m = media_key_of(codes[i]);
        assert(codes@.skip(i as int)[0] == codes@[i as int]);
        assert(codes@.skip(i as int).drop_first() =~= codes@.skip(i + 1));
        if m.is_some() {
            return m;
        }
        i += 1;
    }
    assert(codes@.skip(i as int).len() == 0);
    None
}

/// The consumer-control report: the usage of the media action, low byte
/// first, or zero for none.
pub fn media_report(k: Option<MediaKey>) -> (r: [u8; 2])
    ensures
        r@ == match k {
            Some(m) => seq![(usage_of(m) % 256) as u8, (usage_of(m) / 256) as u8],
            None => seq![0u8, 0u8],
        },
{
    let usage: u16 = match k {
        Some(m) => media_usage(m),
        None => 0,
    };
    let r = [(usage % 256) as u8, (usage / 256) as u8];
    assert(r@ =~= seq![(usage % 256) as u8, (usage / 256) as u8]);
    r
}

} // verus!
