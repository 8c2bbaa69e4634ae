//! What the desktop is shown.

use vstd::prelude::*;

use crate::model::{QueueEntry, Song};
use crate::number;
use crate::number::Real;
use crate::player::PlayState;
use crate::text;

verus! {

/// Whether the player plays, as the desktop names it.
#[derive(Clone, Copy, Debug, PartialEq, Eq, Structural)]
pub enum PlaybackStatus {
    /// It plays.
    Playing,
    /// It holds its position.
    Paused,
    /// It holds nothing.
    Stopped,
}

/// The name that the desktop has for a play state.
pub open spec fn status_of(state: PlayState) -> PlaybackStatus {
    match state {
        PlayState::Playing => PlaybackStatus::Playing,
        PlayState::Paused => PlaybackStatus::Paused,
        PlayState::Stopped => PlaybackStatus::Stopped,
    }
}

/// The name that the desktop has for a play state.
pub fn state_to_status(state: PlayState) -> (r: PlaybackStatus)
    ensures
        r == status_of(state),
{
    match state {
        PlayState::Playing => PlaybackStatus::Playing,
        PlayState::Paused => PlaybackStatus::Paused,
        PlayState::Stopped => PlaybackStatus::Stopped,
    }
}

/// The entry that plays.
#[derive(Debug)]
pub struct CurrentItem {
    /// Its id.
    pub mpd_id: u64,
    /// The entry.
    pub entry: QueueEntry,
}

/// What the desktop is shown of a track.
#[derive(Debug, PartialEq, Eq)]
pub struct TrackMetadata {
    /// Its path on the bus, or `None` for no track.
    pub trackid: Option<String>,
    /// The title.
    pub title: Option<String>,
    /// Who plays.
    pub artist: Option<String>,
    /// The album.
    pub album: Option<String>,
    /// The length in seconds.
    pub length_secs: Option<u32>,
    /// Where the cover is.
    pub art_url: Option<String>,
    /// Where the track is.
    pub url: Option<String>,
}

/// The path of a track on the bus.
pub fn track_id(mpd_id: u64) -> (r: String)
    ensures
        r@ == "/blue/skyisnt/hypodj/track/"@ + number::dec(mpd_id as nat),
{
    let mut s = "/blue/skyisnt/hypodj/track/".to_owned();
    s.append(number::dec_u64(mpd_id).as_str());
    s
}

/// The id under which the cover of a song is asked for: its own, or the song's.
pub open spec fn cover_of(song: Song) -> Seq<char> {
    match song.cover_art {
        Some(c) => c@,
        None => song.id.0@,
    }
}

/// The id under which the cover of an entry is asked for. A raw stream has no cover.
pub fn cover_id(item: &CurrentItem) -> (r: Option<String>)
    ensures
        match item.entry {
            QueueEntry::Song(song) => text::opt(r) == Some(cover_of(song)),
            QueueEntry::Stream { .. } => r is None,
        },
{
    match &item.entry {
        QueueEntry::Song(song) => Some(
            match &song.cover_art {
                Some(c) => c.clone(),
                None => song.id.0.clone(),
            },
        ),
        QueueEntry::Stream { .. } => None,
    }
}

/// What the desktop is shown of the entry that plays. `art_url` is the address under
/// which the cover of a song can be had, where there is one.
pub fn item_metadata(item: &CurrentItem, art_url: Option<String>) -> (r: TrackMetadata)
    ensures
        text::opt(r.trackid) == Some(
            "/blue/skyisnt/hypodj/track/"@ + number::dec(item.mpd_id as nat),
        ),
        match item.entry {
            QueueEntry::Song(song) => {
                &&& text::opt(r.title) == Some(song.title@)
                &&& text::opt(r.artist) == text::opt(song.artist)
                &&& text::opt(r.album) == text::opt(song.album)
                &&& r.length_secs == song.duration_secs
                &&& r.art_url == art_url
                &&& r.url is None
            },
            QueueEntry::Stream { url, title } => {
                &&& text::opt(r.title) == Some(
                    if title@.len() == 0 {
                        url@
                    } else {
                        title@
                    },
                )
                &&& text::opt(r.url) == Some(url@)
                &&& r.artist is None
                &&& r.album is None
                &&& r.length_secs is None
                &&& r.art_url is None
            },
        },
{
    let trackid = Some(track_id(item.mpd_id));
    match &item.entry {
        QueueEntry::Song(song) => TrackMetadata {
            trackid,
            title: Some(song.title.clone()),
            artist: text::copy_opt(&song.artist),
            album: text::copy_opt(&song.album),
            length_secs: song.duration_secs,
            art_url,
            url: None,
        },
        QueueEntry::Stream { url, title } => {
            let n: usize = text::chars(title.as_str()).len();
            TrackMetadata {
                trackid,
                title: Some(
                    if n == 0 {
                        url.clone()
                    } else {
                        title.clone()
                    },
                ),
                artist: None,
                album: None,
                length_secs: None,
                art_url: None,
                url: Some(url.clone()),
            }
        },
    }
}

/// What the desktop is shown where nothing plays.
pub fn no_metadata() -> (r: TrackMetadata)
    ensures
        r == (TrackMetadata {
            trackid: None,
            title: None,
            artist: None,
            album: None,
            length_secs: None,
            art_url: None,
            url: None,
        }),
{
    TrackMetadata {
        trackid: None,
        title: None,
        artist: None,
        album: None,
        length_secs: None,
        art_url: None,
        url: None,
    }
}

/// The setting that goes with the desktop's volume, in billionths of full volume.
pub open spec fn setting_of(volume: Real) -> int {
    let held = match volume {
        Real::Finite(n) => number::clamped(n as int, 0, 1_000_000_000),
        Real::PosInf => 1_000_000_000,
        Real::NegInf => 0,
        Real::Nan => 0,
    };
    (held + 5_000_000) / 10_000_000
}

/// The setting that goes with the desktop's volume: its nearest hundredth.
pub fn volume_setting(volume: Real) -> (r: u8)
    ensures
        r == setting_of(volume),
        r <= 100,
{
    let held: i128 = match volume {
        Real::Finite(n) => number::clamp_i128(n, 0, 1_000_000_000),
        Real::PosInf => 1_000_000_000,
        Real::NegInf => 0,
        Real::Nan => 0,
    };
    ((held + 5_000_000) / 10_000_000) as u8
}

/// The position in seconds that goes with the desktop's microseconds: no position lies
/// before the start.
pub fn seek_target(micros: i64) -> (r: Real)
    ensures
        r == Real::Finite(
            (if micros > 0 {
                micros * 1_000
            } else {
                0
            }) as i128,
        ),
{
    if micros > 0 {
        Real::Finite((micros as i128) * 1_000)
    } else {
        Real::Finite(0)
    }
}

/// Whether the desktop's one button pauses the player rather than resuming it.
pub fn play_pause_pauses(state: PlayState) -> (r: bool)
    ensures
        r <==> state == PlayState::Playing,
{
    match state {
        PlayState::Playing => true,
        _ => false,
    }
}

/// A setting that the desktop is shown is the setting that it sets.
pub proof fn a_shown_setting_is_set(v: u8)
    requires
        v <= 100,
    ensures
        setting_of(Real::Finite((v * 10_000_000) as i128)) == v,
{
}

/// The setting is the hundredth of full volume that is nearest, no setting lies further
/// than full, and none below nothing.
pub proof fn a_setting_is_the_nearest_hundredth(n: i128)
    ensures
        0 <= n <= 1_000_000_000 ==> -5_000_000 <= 10_000_000 * setting_of(Real::Finite(n)) - n
            <= 5_000_000,
        n < 0 ==> setting_of(Real::Finite(n)) == 0,
        n > 1_000_000_000 ==> setting_of(Real::Finite(n)) == 100,
        setting_of(Real::PosInf) == 100,
        setting_of(Real::NegInf) == 0,
        setting_of(Real::Nan) == 0,
{
}

/// Each play state is shown as what it is.
pub proof fn a_state_is_shown_as_it_is(state: PlayState)
    ensures
        status_of(state) is Playing <==> state is Playing,
        status_of(state) is Paused <==> state is Paused,
        status_of(state) is Stopped <==> state is Stopped,
{
}

/// The cover of a song is asked for under its own id where it has one, and else under the
/// song's.
pub proof fn a_cover_is_its_own(song: Song)
    ensures
        song.cover_art matches Some(c) ==> cover_of(song) == c@,
        song.cover_art is None ==> cover_of(song) == song.id.0@,
{
}

} // verus!
