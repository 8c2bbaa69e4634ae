use hypodj::client::model::{
    fmt_remaining, now_playing, parse_queue, ArmedFeatures, FieldPull, FieldState, Hint, QueueItem,
};
use hypodj::number::Real;

fn exact(x: f64) -> Real {
    if x.is_nan() {
        Real::Nan
    } else if x == f64::INFINITY {
        Real::PosInf
    } else if x == f64::NEG_INFINITY {
        Real::NegInf
    } else {
        Real::Finite((x * 1e9).round() as i128)
    }
}

fn p(pairs: &[(&str, &str)]) -> Vec<(String, String)> {
    pairs.iter().map(|(k, v)| (k.to_string(), v.to_string())).collect()
}

#[test]
fn nowplaying_playing() {
    let status = p(&[
        ("volume", "70"),
        ("playlistlength", "12"),
        ("state", "play"),
        ("song", "2"),
        ("duration", "215.000"),
    ]);
    let current = p(&[
        ("file", "song/42"),
        ("Title", "Blue in Green"),
        ("Artist", "Miles Davis"),
        ("Album", "Kind of Blue"),
        ("Pos", "2"),
        ("Id", "42"),
    ]);
    let np = now_playing(&status, &current);
    assert_eq!(np.state.as_deref(), Some("play"));
    assert_eq!(np.volume, Some(70));
    assert_eq!(np.playlistlength, Some(12));
    assert_eq!(np.song, Some(2));
    assert_eq!(np.duration, Some(exact(215.0)));
    assert_eq!(np.title.as_deref(), Some("Blue in Green"));
    assert_eq!(np.artist.as_deref(), Some("Miles Davis"));
    assert_eq!(np.album.as_deref(), Some("Kind of Blue"));
    assert_eq!(np.file.as_deref(), Some("song/42"));
    assert!(!np.armed.any());
    assert!(!np.starred);
}

#[test]
fn nowplaying_parses_x_starred_coexisting_with_armed() {
    let status = p(&[
        ("state", "play"),
        ("X-hypodj-sleep-remaining", "600"),
    ]);
    let current = p(&[
        ("file", "song/42"),
        ("Title", "Blue in Green"),
        ("X-Starred", "1"),
    ]);
    let np = now_playing(&status, &current);
    assert!(np.starred);
    assert!(np.armed.any());
    assert_eq!(np.armed.sleep_remaining, Some(600));
    let np2 = now_playing(&status, &p(&[("file", "song/7"), ("Title", "X")]));
    assert!(!np2.starred);
    assert!(np2.armed.any());
}

#[test]
fn nowplaying_parses_armed_feature_pairs() {
    let status = p(&[
        ("volume", "70"),
        ("state", "play"),
        ("X-hypodj-sleep-remaining", "720"),
        ("X-hypodj-winddown-active", "1"),
        ("X-hypodj-wake-remaining", "25200"),
        ("X-hypodj-wake-at", "1750000000"),
    ]);
    let np = now_playing(&status, &[]);
    assert!(np.armed.any());
    assert_eq!(np.armed.sleep_remaining, Some(720));
    assert!(np.armed.winddown_active);
    assert_eq!(np.armed.winddown_remaining, None);
    assert_eq!(np.armed.wake_remaining, Some(25200));
    assert_eq!(np.armed.wake_at, Some(1750000000));
}

#[test]
fn armed_absent_when_no_pairs() {
    let np = now_playing(&p(&[("state", "play")]), &[]);
    assert_eq!(np.armed, ArmedFeatures::default());
}

#[test]
fn nowplaying_parses_field_pull_pairs() {
    let status = p(&[
        ("state", "play"),
        ("X-hypodj-field-count", "2"),
        ("X-hypodj-field-0-label", "calmer"),
        ("X-hypodj-field-0-strength", "58"),
        ("X-hypodj-field-0-age", "3"),
        ("X-hypodj-field-1-label", "warmer"),
        ("X-hypodj-field-1-strength", "41"),
        ("X-hypodj-field-1-age", "1"),
    ]);
    let np = now_playing(&status, &[]);
    assert!(np.field.active());
    assert_eq!(np.field.pulls.len(), 2);
    assert_eq!(np.field.pulls[0], FieldPull { label: "calmer".into(), strength: 58, age_mins: 3 });
    assert_eq!(np.field.pulls[1], FieldPull { label: "warmer".into(), strength: 41, age_mins: 1 });
}

#[test]
fn field_absent_when_no_pairs() {
    let np = now_playing(&p(&[("state", "play")]), &[]);
    assert!(!np.field.active());
    assert_eq!(np.field, FieldState::default());
}

#[test]
fn field_skips_torn_index_missing_key() {
    let status = p(&[
        ("X-hypodj-field-count", "2"),
        ("X-hypodj-field-0-label", "calmer"),
        ("X-hypodj-field-0-strength", "58"),
        ("X-hypodj-field-0-age", "3"),
        ("X-hypodj-field-1-label", "warmer"),
        ("X-hypodj-field-1-age", "1"),
    ]);
    let np = now_playing(&status, &[]);
    assert_eq!(np.field.pulls.len(), 1);
    assert_eq!(np.field.pulls[0].label, "calmer");
}

#[test]
fn fmt_remaining_reads_human() {
    assert_eq!(fmt_remaining(45), "45s");
    assert_eq!(fmt_remaining(720), "12m");
    assert_eq!(fmt_remaining(25200), "7h 00m");
}

#[test]
fn nowplaying_stopped_empty_current() {
    let status = p(&[("volume", "50"), ("playlistlength", "3"), ("state", "stop")]);
    let np = now_playing(&status, &[]);
    assert_eq!(np.state.as_deref(), Some("stop"));
    assert_eq!(np.title, None);
}

#[test]
fn nowplaying_unknown_volume() {
    let status = p(&[("volume", "-1"), ("playlistlength", "1"), ("state", "play"), ("song", "0")]);
    let np = now_playing(&status, &[]);
    assert_eq!(np.volume, Some(-1));
}

#[test]
fn parse_queue_pos_title_artist() {
    let pairs = p(&[
        ("file", "song/1"),
        ("Title", "One"),
        ("Artist", "A"),
        ("Pos", "0"),
        ("Id", "1"),
        ("file", "song/2"),
        ("Title", "Two"),
        ("Pos", "1"),
        ("Id", "2"),
    ]);
    let q = parse_queue(&pairs);
    assert_eq!(q.len(), 2);
    assert_eq!(
        q[0],
        QueueItem {
            pos: 0,
            title: "One".into(),
            artist: Some("A".into()),
            uri: Some("song/1".into()),
            album_uri: None,
        }
    );
    assert_eq!(
        q[1],
        QueueItem {
            pos: 1,
            title: "Two".into(),
            artist: None,
            uri: Some("song/2".into()),
            album_uri: None,
        }
    );
}

#[test]
fn parse_queue_reads_album_uri() {
    let pairs = p(&[
        ("file", "song/1"),
        ("Title", "One"),
        ("X-AlbumUri", "album/al-9"),
        ("Pos", "0"),
        ("Id", "1"),
        ("file", "http://stream.example/live"),
        ("Title", "Live"),
        ("Pos", "1"),
        ("Id", "2"),
    ]);
    let q = parse_queue(&pairs);
    assert_eq!(q[0].album_uri.as_deref(), Some("album/al-9"));
    assert_eq!(q[1].album_uri, None);
}

#[test]
fn parse_queue_empty() {
    assert!(parse_queue(&[]).is_empty());
}

#[test]
fn hints_are_told_apart() {
    let np = now_playing(
        &p(&[("X-hypodj-hint-kind", "up-next"), ("X-hypodj-hint-title", "T")]),
        &[],
    );
    assert_eq!(np.hint, Some(Hint::UpNext("T".to_string())));
    assert_eq!(np.hint.unwrap().phrase(), "up next T");
    let np = now_playing(
        &p(&[("X-hypodj-hint-kind", "just-finished"), ("X-hypodj-hint-title", "T")]),
        &[],
    );
    assert_eq!(np.hint.unwrap().phrase(), "just finished T");
}

#[test]
fn a_pair_before_the_first_file_belongs_to_no_entry() {
    let q = parse_queue(&p(&[("Title", "None"), ("file", "a"), ("Title", "A"), ("file", "b")]));
    assert_eq!(q.len(), 2);
    assert_eq!(q[0].title, "A");
    assert_eq!(q[1].pos, 1);
}
