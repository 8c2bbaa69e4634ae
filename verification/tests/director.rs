use hypodj::director::{track_ref, Post, Publisher, SpineTodo};
use hypodj::event::{
    Cursor, DjEventKind, EntrySnapshot, Moment, QueueId, QueueSnapshot, TimerId,
};
use hypodj::model::{AlbumId, SongId};
use hypodj::number::{Real, Span};
use hypodj::player::{PlayState, PlayerEvent};

fn exact(x: f64) -> Real {
    if x.is_nan() {
        Real::Nan
    } else if x == f64::INFINITY {
        Real::PosInf
    } else if x == f64::NEG_INFINITY {
        Real::NegInf
    } else {
        Real::Finite((x * 1e9).round() as i128)
    }
}

fn entry(id: u64, song: &str, dur: Option<u64>, album: Option<&str>) -> EntrySnapshot {
    EntrySnapshot {
        queue_id: QueueId(id),
        song: Some(SongId(song.into())),
        album_id: album.map(|a| AlbumId(format!("al-{a}"))),
        duration: dur.map(Span::from_secs),
    }
}

fn queue(current: usize, entries: Vec<EntrySnapshot>) -> QueueSnapshot {
    QueueSnapshot {
        playlist_version: 0,
        current: Some(Cursor { index: current, queue_id: entries[current].queue_id }),
        entries,
    }
}

fn two(current: usize) -> QueueSnapshot {
    queue(current, vec![entry(0, "s0", Some(100), Some("A")), entry(1, "s1", Some(200), Some("B"))])
}

fn now() -> Moment {
    Moment { nanos: 5_000_000_000 }
}

fn playing(song: &str, id: u64) -> PlayerEvent {
    PlayerEvent::StateChanged(PlayState::Playing, Some(SongId(song.into())), Some(QueueId(id)))
}

fn stopped() -> PlayerEvent {
    PlayerEvent::StateChanged(PlayState::Stopped, None, None)
}

fn eof(song: Option<&str>, id: u64) -> PlayerEvent {
    PlayerEvent::Eof { song: song.map(|s| SongId(s.into())), queue_id: Some(QueueId(id)) }
}

fn edges(todos: &[SpineTodo]) -> Vec<String> {
    let mut out = Vec::new();
    for t in todos {
        if let SpineTodo::Publish(posts) = t {
            for p in posts {
                if let Post::Edge(ev) = p {
                    out.push(match &ev.kind {
                        DjEventKind::TrackStart(t) => format!("start {}", t.queue_id.0),
                        DjEventKind::TrackEnd(t) => format!("end {}", t.queue_id.0),
                        DjEventKind::StateChanged(s, _) => format!("{s:?}"),
                        DjEventKind::WallClock(id) => format!("timer {}", id.0),
                        other => format!("{other:?}"),
                    });
                }
            }
        }
    }
    out
}

fn songs(todos: &[SpineTodo]) -> Vec<Option<SongId>> {
    let mut out = Vec::new();
    for t in todos {
        if let SpineTodo::Publish(posts) = t {
            for p in posts {
                if let Post::Edge(ev) = p {
                    if let DjEventKind::TrackStart(t) | DjEventKind::TrackEnd(t) = &ev.kind {
                        out.push(t.song.clone());
                    }
                }
            }
        }
    }
    out
}

fn stamps(todos: &[SpineTodo]) -> Vec<u64> {
    let mut out = Vec::new();
    for t in todos {
        if let SpineTodo::Publish(posts) = t {
            for p in posts {
                match p {
                    Post::Edge(ev) | Post::Observe(ev) => out.push(ev.seq),
                    Post::Snapshot => {}
                }
            }
        }
    }
    out
}

#[test]
fn eof_lossless_under_lagged() {
    let mut p = Publisher::new();
    assert_eq!(edges(&p.on_player_event(playing("s0", 0), &two(0), now())), vec!["start 0"]);
    let todos = p.on_player_event(eof(Some("s0"), 0), &two(0), now());
    assert_eq!(edges(&todos), vec!["end 0"]);
    assert_eq!(todos.iter().filter(|t| matches!(t, SpineTodo::Advance)).count(), 1);
    let publish = todos.iter().position(|t| matches!(t, SpineTodo::Publish(_))).unwrap();
    let advance = todos.iter().position(|t| matches!(t, SpineTodo::Advance)).unwrap();
    assert!(publish < advance);
    p.after_advance(Some(QueueId(0)), &two(1));
    assert_eq!(edges(&p.on_player_event(playing("s1", 1), &two(1), now())), vec!["start 1"]);
}

fn remaining(todos: &[SpineTodo]) -> Option<Option<Span>> {
    for t in todos {
        if let SpineTodo::Publish(posts) = t {
            for p in posts {
                if let Post::Observe(ev) = p {
                    if let DjEventKind::Tick { time_remaining, .. } = &ev.kind {
                        return Some(*time_remaining);
                    }
                }
            }
        }
    }
    None
}

#[test]
fn time_remaining_and_identity_join() {
    let snap = queue(0, vec![entry(0, "s0", Some(100), Some("A")), entry(1, "s1", None, None)]);
    let mut p = Publisher::new();
    p.on_player_event(playing("s0", 0), &snap, now());
    let at = |secs: f64, id: u64| PlayerEvent::TimePos { pos: exact(secs), queue_id: Some(QueueId(id)) };
    let tick = remaining(&p.on_player_event(at(40.0, 0), &snap, now())).unwrap();
    assert_eq!(tick, Some(Span::from_secs(60)), "100 - 40 = 60 remaining");
    assert_eq!(remaining(&p.on_player_event(at(40.0, 1), &snap, now())), None);
    p.on_player_event(playing("s1", 1), &snap, now());
    let tick2 = remaining(&p.on_player_event(at(5.0, 1), &snap, now())).unwrap();
    assert_eq!(tick2, None, "duration-less song -> honest None remaining");
}

#[test]
fn a_track_of_no_length_has_nothing_left_to_tell() {
    let snap = queue(0, vec![entry(0, "s0", Some(0), None), entry(1, "s1", Some(3), None)]);
    let mut p = Publisher::new();
    p.on_player_event(playing("s0", 0), &snap, now());
    let at = |secs: f64, id: u64| PlayerEvent::TimePos { pos: exact(secs), queue_id: Some(QueueId(id)) };
    assert_eq!(remaining(&p.on_player_event(at(1.0, 0), &snap, now())), Some(None));
    p.on_player_event(playing("s1", 1), &snap, now());
    assert_eq!(remaining(&p.on_player_event(at(5.0, 1), &snap, now())), Some(Some(Span::zero())));
}

#[test]
fn identity_join_survives_off_spine_next_and_delete() {
    let snap = two(1);
    let a = track_ref(&snap, QueueId(0), None);
    assert_eq!(a.queue_index, Some(0));
    assert_eq!(a.duration, Some(Span::from_secs(100)));
    let b = track_ref(&snap, QueueId(1), None);
    assert_eq!(b.queue_index, Some(1));
    assert_eq!(b.duration, Some(Span::from_secs(200)));
    let shorter = queue(0, vec![entry(1, "s1", Some(200), Some("B"))]);
    assert_eq!(track_ref(&shorter, QueueId(0), None).queue_index, None);
    assert_eq!(track_ref(&shorter, QueueId(1), None).queue_index, Some(0));
}

#[test]
fn duplicate_song_id_disambiguated_by_queue_id() {
    let snap =
        queue(0, vec![entry(0, "dup", Some(100), Some("A")), entry(1, "dup", Some(100), Some("A"))]);
    assert_eq!(snap.find(QueueId(0)).unwrap().0, 0);
    assert_eq!(snap.find(QueueId(1)).unwrap().0, 1);
}

#[test]
fn stream_end_mid_queue_advances() {
    let mut snap = two(0);
    snap.entries[0].song = None;
    snap.entries[0].album_id = None;
    let mut p = Publisher::new();
    p.on_player_event(PlayerEvent::StateChanged(PlayState::Playing, None, Some(QueueId(0))), &snap, now());
    let todos = p.on_player_event(eof(None, 0), &snap, now());
    assert_eq!(edges(&todos), vec!["end 0"]);
    assert_eq!(songs(&todos), vec![None]);
    assert!(todos.iter().any(|t| matches!(t, SpineTodo::Advance)));
}

#[test]
fn timer_fires_on_lossless_path() {
    let mut p = Publisher::new();
    let todos = p.on_fire(TimerId(9));
    assert!(matches!(
        todos[..],
        [SpineTodo::Warm(TimerId(9)), SpineTodo::Identify(TimerId(9)), SpineTodo::Tell(TimerId(9))]
    ));
    let told = SpineTodo::Publish(p.on_timer(TimerId(9), &two(0), now()));
    assert_eq!(edges(&[told]), vec!["timer 9"]);
}

#[test]
fn pause_resume_no_track_start_and_paused_carries_song() {
    let snap = two(0);
    let mut p = Publisher::new();
    p.on_player_event(playing("s0", 0), &snap, now());
    let paused =
        PlayerEvent::StateChanged(PlayState::Paused, Some(SongId("s0".into())), Some(QueueId(0)));
    let todos = p.on_player_event(paused, &snap, now());
    assert_eq!(edges(&todos), vec!["Paused"]);
    let mut carried = false;
    for t in &todos {
        if let SpineTodo::Publish(posts) = t {
            for post in posts {
                if let Post::Edge(ev) = post {
                    if let DjEventKind::StateChanged(_, Some(t)) = &ev.kind {
                        assert_eq!(t.song, Some(SongId("s0".into())), "Paused carries its song");
                        assert_eq!(t.queue_id, QueueId(0));
                        assert_eq!(t.duration, Some(Span::from_secs(100)));
                        carried = true;
                    }
                }
            }
        }
    }
    assert!(carried);
    assert_eq!(edges(&p.on_player_event(playing("s0", 0), &snap, now())), vec!["Playing"]);
}

#[test]
fn gapless_advance_has_no_intervening_stopped() {
    let mut p = Publisher::new();
    p.on_player_event(playing("s0", 0), &two(0), now());
    p.on_player_event(eof(Some("s0"), 0), &two(0), now());
    p.after_advance(Some(QueueId(0)), &two(1));
    assert!(edges(&p.on_player_event(stopped(), &two(1), now())).is_empty());
    assert_eq!(edges(&p.on_player_event(playing("s1", 1), &two(1), now())), vec!["start 1"]);
}

#[test]
fn exhausted_advance_surfaces_real_stop() {
    let mut p = Publisher::new();
    p.on_player_event(playing("s0", 0), &two(0), now());
    p.on_player_event(eof(Some("s0"), 0), &two(0), now());
    p.after_advance(Some(QueueId(0)), &two(0));
    assert_eq!(edges(&p.on_player_event(stopped(), &two(0), now())), vec!["Stopped"]);
}

#[test]
fn off_spine_next_is_end_then_start() {
    let mut p = Publisher::new();
    p.on_player_event(playing("s0", 0), &two(0), now());
    let todos = p.on_player_event(playing("s1", 1), &two(1), now());
    assert_eq!(edges(&todos), vec!["end 0", "start 1"]);
    assert_eq!(
        songs(&todos),
        vec![Some(SongId("s0".into())), Some(SongId("s1".into()))],
        "the end names the outgoing song, the start the new one"
    );
}

#[test]
fn playing_edge_clears_suppress_next_stopped() {
    let mut p = Publisher::new();
    p.on_player_event(playing("s0", 0), &two(0), now());
    p.on_player_event(eof(Some("s0"), 0), &two(0), now());
    p.after_advance(Some(QueueId(0)), &two(1));
    assert!(p.suppress_next_stopped);
    p.on_playing(QueueId(1), Some(SongId("s1".into())), &two(1), now());
    assert!(!p.suppress_next_stopped);
    assert_eq!(edges(&p.on_player_event(stopped(), &two(1), now())), vec!["Stopped"]);
}

#[test]
fn stamps_rise_one_by_one() {
    let mut p = Publisher::new();
    let mut all = Vec::new();
    all.extend(stamps(&p.on_player_event(playing("s0", 0), &two(0), now())));
    all.extend(stamps(&p.on_player_event(playing("s1", 1), &two(1), now())));
    all.extend(stamps(&[SpineTodo::Publish(p.on_timer(TimerId(1), &two(1), now()))]));
    all.extend(stamps(&p.on_player_event(stopped(), &two(1), now())));
    let first = all[0];
    for (i, s) in all.iter().enumerate() {
        assert_eq!(*s, first + i as u64);
    }
}
