use hypodj::model::{QueueEntry, Song, SongId};
use hypodj::mpris::{
    cover_id, item_metadata, no_metadata, play_pause_pauses, seek_target, state_to_status, volume_setting,
    CurrentItem, PlaybackStatus,
};
use hypodj::number::Real;
use hypodj::player::PlayState;

fn cover_url(item: &CurrentItem) -> Option<String> {
    cover_id(item).map(|id| format!("http://127.0.0.1:1/rest/getCoverArt?id={id}&t=token"))
}

fn a_song() -> Song {
    Song {
        id: SongId("so-1".into()),
        title: "Independent Us".into(),
        album: Some("Let Love Rumpel".into()),
        album_id: None,
        artist: Some("Kalabrese".into()),
        track: Some(4),
        duration_secs: Some(372),
        cover_art: Some("ca-1".into()),
        starred: false,
        musicbrainz_id: None,
        disc: None,
        year: None,
        genre: None,
        bitrate: None,
        comment: None,
        user_rating: None,
        composer: None,
        performer: None,
    }
}

#[test]
fn state_maps_to_playback_status() {
    assert_eq!(state_to_status(PlayState::Playing), PlaybackStatus::Playing);
    assert_eq!(state_to_status(PlayState::Paused), PlaybackStatus::Paused);
    assert_eq!(state_to_status(PlayState::Stopped), PlaybackStatus::Stopped);
}

#[test]
fn song_metadata_carries_title_artist_album_and_art_url() {
    let item = CurrentItem {
        mpd_id: 7,
        entry: QueueEntry::Song(a_song()),
    };
    let m = item_metadata(&item, cover_url(&item));
    assert_eq!(m.title.as_deref(), Some("Independent Us"));
    assert_eq!(m.album.as_deref(), Some("Let Love Rumpel"));
    assert_eq!(m.artist, Some("Kalabrese".to_string()));
    assert_eq!(m.length_secs, Some(372));
    let tid = m.trackid.expect("trackid present");
    assert!(tid.as_str().contains("/hypodj/track/7"));
    let art = m.art_url.expect("artUrl present for a library song");
    assert!(art.contains("getCoverArt"), "artUrl must be getCoverArt: {art}");
    assert!(art.contains("id=ca-1"), "artUrl must carry the cover id: {art}");
    assert!(art.contains("t=") || art.contains("p="), "artUrl must carry auth: {art}");
}

#[test]
fn song_metadata_falls_back_to_song_id_for_cover() {
    let mut song = a_song();
    song.cover_art = None; // no explicit cover id -> fall back to song id
    let item = CurrentItem {
        mpd_id: 1,
        entry: QueueEntry::Song(song),
    };
    let m = item_metadata(&item, cover_url(&item));
    let art = m.art_url.expect("artUrl present via song-id fallback");
    assert!(art.contains("id=so-1"), "artUrl must fall back to song id: {art}");
}

#[test]
fn raw_stream_metadata_titles_the_url_and_has_no_art() {
    let url = "https://stream-mixtape-geo.ntslive.net/mixtape5";
    let item = CurrentItem {
        mpd_id: 3,
        entry: QueueEntry::Stream {
            url: url.to_string(),
            title: url.to_string(),
        },
    };
    let m = item_metadata(&item, cover_url(&item));
    assert_eq!(m.title.as_deref(), Some(url));
    assert!(m.art_url.is_none(), "a raw stream must carry no artUrl");
    assert!(m.length_secs.is_none(), "a raw stream has unknown length");
}

#[test]
fn every_shown_setting_is_the_one_set() {
    for v in 0..=100u8 {
        assert_eq!(volume_setting(Real::Finite(v as i128 * 10_000_000)), v);
    }
    assert_eq!(volume_setting(Real::PosInf), 100);
    assert_eq!(volume_setting(Real::Nan), 0);
    assert_eq!(volume_setting(Real::Finite(-1)), 0);
    assert_eq!(volume_setting(Real::Finite(505_000_000)), 51);
}

#[test]
fn no_position_lies_before_the_start() {
    assert_eq!(seek_target(-5), Real::Finite(0));
    assert_eq!(seek_target(1_500_000), Real::Finite(1_500_000_000));
}

#[test]
fn the_button_pauses_what_plays() {
    assert!(play_pause_pauses(PlayState::Playing));
    assert!(!play_pause_pauses(PlayState::Paused));
    assert!(!play_pause_pauses(PlayState::Stopped));
    assert_eq!(no_metadata().trackid, None);
}
