use hypodj::civil::CivilTime;
use hypodj::config::FadeConfig;
use hypodj::event::{
    Cursor, DjEvent, DjEventKind, EntrySnapshot, Moment, QueueId, QueueSnapshot, TimerId, TrackRef,
};
use hypodj::model::{AlbumId, SongId};
use hypodj::number::{Real, Span};
use hypodj::plan::{
    clamp_action, clamp_raw, fires, resolve_selector, validate, Action, ArmedPlan, FadeIntentIr, Fire,
    PlanBounds, PlanError, PlanId, PosBase, QueueSelector, RawPlan, RawTrigger, Resolved, Selector, TrackSel,
    MAX_ENQUEUE,
};

fn exact(x: f64) -> Real {
    if x.is_nan() {
        Real::Nan
    } else if x == f64::INFINITY {
        Real::PosInf
    } else if x == f64::NEG_INFINITY {
        Real::NegInf
    } else {
        Real::Finite((x * 1e9).round() as i128)
    }
}

fn entry(id: u64, album: Option<&str>, dur: Option<u64>) -> EntrySnapshot {
    EntrySnapshot {
        queue_id: QueueId(id),
        song: Some(SongId(format!("s{id}"))),
        album_id: album.map(|a| AlbumId(a.into())),
        duration: dur.map(Span::from_secs),
    }
}

fn snap5(cur: usize) -> QueueSnapshot {
    let entries: Vec<_> = (0..5)
        .map(|i| entry(10 + i as u64, Some("A"), Some(200)))
        .collect();
    QueueSnapshot {
        playlist_version: 1,
        current: Some(Cursor {
            index: cur,
            queue_id: entries[cur].queue_id,
        }),
        entries,
    }
}

fn bounds() -> PlanBounds {
    PlanBounds::from_fade_config(&FadeConfig::default())
}

fn now() -> Moment {
    Moment { nanos: 1_000_000_000_000 }
}

fn civil_of(t: chrono::DateTime<chrono::Utc>) -> CivilTime {
    CivilTime { secs: t.timestamp(), nanos: t.timestamp_subsec_nanos() }
}

fn civil() -> CivilTime {
    civil_of(chrono::Utc::now())
}

fn value(r: Real) -> i128 {
    match r {
        Real::Finite(n) => n,
        other => panic!("not finite: {other:?}"),
    }
}

fn raw(trigger: RawTrigger) -> RawPlan {
    RawPlan {
        version: 1,
        trigger,
        action: Action::Stop,
        once: true,
        origin: "test".into(),
    }
}

#[test]
fn position_mapping_resolves_intended_entry() {
    let snap = snap5(0);
    let r = validate(
        &raw(RawTrigger::QueuePosition { n: 3, base: PosBase::CurrentIsOne }),
        &snap,
        now(),
        civil(),
        &bounds(),
    )
    .unwrap();
    assert_eq!(r, Resolved::OnTrackStart(QueueId(12)));

    let r = validate(
        &raw(RawTrigger::QueuePosition { n: 4, base: PosBase::Absolute }),
        &snap,
        now(),
        civil(),
        &bounds(),
    )
    .unwrap();
    assert_eq!(r, Resolved::OnTrackStart(QueueId(13)));

    let r = validate(&raw(RawTrigger::TrackAfterCurrent), &snap, now(), civil(), &bounds()).unwrap();
    assert_eq!(r, Resolved::OnTrackStart(QueueId(11)));
}

#[test]
fn classify_immediate_passed_oob() {
    let snap = snap5(2);
    let r = validate(
        &raw(RawTrigger::QueuePosition { n: 1, base: PosBase::CurrentIsOne }),
        &snap,
        now(),
        civil(),
        &bounds(),
    )
    .unwrap();
    assert_eq!(r, Resolved::Immediate);

    let e = validate(
        &raw(RawTrigger::QueuePosition { n: 1, base: PosBase::Absolute }),
        &snap,
        now(),
        civil(),
        &bounds(),
    )
    .unwrap_err();
    assert_eq!(e, PlanError::AlreadyPassed);

    let e = validate(
        &raw(RawTrigger::QueuePosition { n: 99, base: PosBase::Absolute }),
        &snap,
        now(),
        civil(),
        &bounds(),
    )
    .unwrap_err();
    assert!(matches!(e, PlanError::OutOfBounds { .. }));
}

#[test]
fn reject_no_duration_and_no_album() {
    let mut snap = snap5(0);
    snap.entries[0].duration = None;
    snap.entries[0].album_id = None;
    let e = validate(
        &raw(RawTrigger::TimeRemaining { track: TrackSel::Current, secs: exact(10.0) }),
        &snap,
        now(),
        civil(),
        &bounds(),
    )
    .unwrap_err();
    assert_eq!(e, PlanError::NoDuration);

    let e = validate(
        &raw(RawTrigger::AlbumBoundary { track: TrackSel::Current }),
        &snap,
        now(),
        civil(),
        &bounds(),
    )
    .unwrap_err();
    assert_eq!(e, PlanError::NoAlbum);
}

#[test]
fn wallclock_past_and_future() {
    let snap = snap5(0);
    let n = now();
    let c = chrono::Utc::now();
    let past = civil_of(c - chrono::Duration::seconds(60));
    let c0 = civil_of(c);
    let e = validate(&raw(RawTrigger::WallClock { at: past }), &snap, n, c0, &bounds()).unwrap_err();
    assert_eq!(e, PlanError::PastDeadline);

    let future = civil_of(c + chrono::Duration::seconds(120));
    let r = validate(&raw(RawTrigger::WallClock { at: future }), &snap, n, c0, &bounds()).unwrap();
    match r {
        Resolved::OnDeadline(inst) => {
            let delay = Span { nanos: inst.nanos - n.nanos };
            assert!(delay.nanos >= Span::from_secs(119).nanos && delay.nanos <= Span::from_secs(121).nanos);
        }
        other => panic!("expected OnDeadline, got {other:?}"),
    }
}

#[test]
fn clamps_every_numeric() {
    let b = bounds();
    let a = clamp_action(
        &Action::Fade(FadeIntentIr::To { target_db: exact(999.0), vol: 250, secs: exact(1e9) }),
        &b,
    );
    match a {
        Action::Fade(FadeIntentIr::To { target_db, vol, secs }) => {
            let target_db = value(target_db);
            assert!(target_db <= b.wake_ceiling_db && target_db >= b.synth_floor_db);
            assert_eq!(vol, 100);
            assert!(value(secs) <= b.max_dur.nanos as i128);
        }
        other => panic!("got {other:?}"),
    }
    assert!(matches!(clamp_action(&Action::SetVolume(200), &b), Action::SetVolume(100)));
    match clamp_action(&Action::Enqueue { selector: Selector::Radio, count: 9999 }, &b) {
        Action::Enqueue { count, .. } => assert_eq!(count, MAX_ENQUEUE),
        other => panic!("got {other:?}"),
    }
    match clamp_action(
        &Action::PlayNow { selector: Selector::Query("x".into()), count: 9999 },
        &b,
    ) {
        Action::PlayNow { count, .. } => assert_eq!(count, MAX_ENQUEUE),
        other => panic!("got {other:?}"),
    }
    let snap = snap5(0);
    let r = validate(
        &clamp_raw(&raw(RawTrigger::SpanElapsed { secs: exact(1e9) }), &b),
        &snap,
        now(),
        civil(),
        &b,
    )
    .unwrap();
    match r {
        Resolved::OnDeadline(_) => {}
        other => panic!("expected OnDeadline, got {other:?}"),
    }
}

#[test]
fn clamp_convenience_fade_and_wake_variants() {
    let b = bounds();
    match clamp_action(&Action::Fade(FadeIntentIr::ToFloor { secs: exact(1e9) }), &b) {
        Action::Fade(FadeIntentIr::ToFloor { secs }) => {
            let secs = value(secs);
            assert!(secs >= b.min_dur.nanos as i128 && secs <= b.max_dur.nanos as i128);
        }
        other => panic!("got {other:?}"),
    }
    match clamp_action(
        &Action::Fade(FadeIntentIr::WakeTo { target_db: exact(999.0), vol: 250, secs: exact(1e9) }),
        &b,
    ) {
        Action::Fade(FadeIntentIr::WakeTo { target_db, vol, secs }) => {
            let target_db = value(target_db);
            assert!(target_db >= b.synth_floor_db && target_db <= b.wake_ceiling_db);
            assert_eq!(vol, 100);
            assert!(value(secs) <= b.max_dur.nanos as i128);
        }
        other => panic!("got {other:?}"),
    }
    match clamp_action(
        &Action::Wake { selector: Some(Selector::Query("x".into())), count: 9999 },
        &b,
    ) {
        Action::Wake { count, .. } => assert_eq!(count, MAX_ENQUEUE),
        other => panic!("got {other:?}"),
    }
}

#[test]
fn wallclock_horizon_unclamped_beyond_max_dur() {
    let snap = snap5(0);
    let n = now();
    let c = chrono::Utc::now();
    let c0 = civil_of(c);
    let future = civil_of(c + chrono::Duration::seconds(3600)); // 1h, well past max_dur
    let r = validate(&raw(RawTrigger::WallClock { at: future }), &snap, n, c0, &bounds()).unwrap();
    match r {
        Resolved::OnDeadline(inst) => {
            let delay = Span { nanos: inst.nanos - n.nanos };
            assert!(
                delay.nanos >= Span::from_secs(3599).nanos && delay.nanos <= Span::from_secs(3601).nanos,
                "horizon not capped at max_dur, got {delay:?}"
            );
        }
        other => panic!("expected OnDeadline, got {other:?}"),
    }
}

fn ev(kind: DjEventKind, snap: &QueueSnapshot) -> DjEvent {
    DjEvent {
        kind,
        now: now(),
        seq: 1,
        playlist_version: snap.playlist_version,
        cursor: snap.current.as_ref().map(|c| c.queue_id),
    }
}

fn tref(id: u64) -> TrackRef {
    TrackRef {
        queue_id: QueueId(id),
        queue_index: None,
        song: None,
        album_id: None,
        duration: None,
    }
}

fn armed(resolved: Resolved) -> ArmedPlan {
    ArmedPlan {
        id: PlanId(1),
        raw: raw(RawTrigger::Immediate),
        resolved,
        armed_at: now(),
        once: true,
        timer_id: None,
    }
}

#[test]
fn fires_happy_track_start() {
    let snap = snap5(0);
    let a = armed(Resolved::OnTrackStart(QueueId(12)));
    let e = ev(DjEventKind::TrackStart(tref(12)), &snap);
    assert_eq!(fires(&a, &e, &snap), Fire::Yes);
    let e2 = ev(DjEventKind::TrackStart(tref(11)), &snap);
    assert_eq!(fires(&a, &e2, &snap), Fire::No);
}

#[test]
fn fires_stale_never_yes() {
    let mut snap = snap5(0);
    snap.entries.retain(|e| e.queue_id != QueueId(12));
    let a = armed(Resolved::OnTrackStart(QueueId(12)));
    let e = ev(DjEventKind::TrackStart(tref(12)), &snap);
    assert_eq!(fires(&a, &e, &snap), Fire::Stale);

    let snap = snap5(3);
    let a = armed(Resolved::OnTrackStart(QueueId(11)));
    let e = ev(DjEventKind::TrackStart(tref(11)), &snap);
    assert_eq!(fires(&a, &e, &snap), Fire::Stale);
}

#[test]
fn fires_album_boundary_defined() {
    let mut snap = snap5(0);
    snap.entries[2].album_id = Some(AlbumId("B".into()));
    let a = armed(Resolved::OnAlbumBoundary { last: QueueId(11), album: AlbumId("A".into()) });
    let mut snap_b = snap.clone();
    snap_b.current = Some(Cursor { index: 1, queue_id: QueueId(11) });
    let e = ev(DjEventKind::TrackEnd(tref(11)), &snap_b);
    assert_eq!(fires(&a, &e, &snap_b), Fire::Yes);

    let a2 = armed(Resolved::OnAlbumBoundary { last: QueueId(10), album: AlbumId("A".into()) });
    let snap_c = snap5(0); // all album A
    let e2 = ev(DjEventKind::TrackEnd(tref(10)), &snap_c);
    assert_eq!(fires(&a2, &e2, &snap_c), Fire::No);

    let mut snap_d = snap5(0);
    for en in &mut snap_d.entries {
        en.album_id = None;
    }
    let a3 = armed(Resolved::OnAlbumBoundary { last: QueueId(10), album: AlbumId("A".into()) });
    let e3 = ev(DjEventKind::TrackEnd(tref(10)), &snap_d);
    assert_eq!(fires(&a3, &e3, &snap_d), Fire::Yes);
}

#[test]
fn a_plan_for_a_track_that_left_is_stale_on_any_event() {
    let mut snap = snap5(0);
    snap.entries.retain(|e| e.queue_id != QueueId(12));
    let other = ev(DjEventKind::TrackStart(tref(11)), &snap);
    let own = ev(DjEventKind::TrackEnd(tref(12)), &snap);
    let timer = ev(DjEventKind::WallClock(TimerId(7)), &snap);
    let boundary = armed(Resolved::OnAlbumBoundary {
        last: QueueId(12),
        album: AlbumId("A".into()),
    });
    let start = armed(Resolved::OnTrackStart(QueueId(12)));
    let remaining = armed(Resolved::OnTrackRemaining { track: QueueId(12), lead: Span::zero() });
    for e in [&other, &own, &timer] {
        assert_eq!(fires(&boundary, e, &snap), Fire::Stale);
        assert_eq!(fires(&start, e, &snap), Fire::Stale);
        assert_eq!(fires(&remaining, e, &snap), Fire::Stale);
    }
    let here = armed(Resolved::OnAlbumBoundary { last: QueueId(13), album: AlbumId("A".into()) });
    assert_eq!(fires(&here, &timer, &snap), Fire::No);
}

#[test]
fn fires_album_boundary_survives_eof_advance() {
    let mut snap = snap5(0);
    snap.entries[1].album_id = Some(AlbumId("B".into())); // successor differs
    snap.current = Some(Cursor { index: 1, queue_id: QueueId(11) });
    let a = armed(Resolved::OnAlbumBoundary { last: QueueId(10), album: AlbumId("A".into()) });
    let e = ev(DjEventKind::TrackEnd(tref(10)), &snap);
    assert_eq!(fires(&a, &e, &snap), Fire::Yes, "boundary not lost to the advance");
}

#[test]
fn fires_track_remaining_stale_when_not_current() {
    let snap = snap5(0); // cursor at index 0 (QueueId 10)
    let mut a = armed(Resolved::OnTrackRemaining { track: QueueId(11), lead: Span::zero() });
    a.timer_id = Some(TimerId(7));
    let e = ev(DjEventKind::WallClock(TimerId(7)), &snap);
    assert_eq!(fires(&a, &e, &snap), Fire::Stale, "never fires on the wrong track");

    let snap_cur = snap5(1); // cursor at index 1 (QueueId 11)
    let e2 = ev(DjEventKind::WallClock(TimerId(7)), &snap_cur);
    assert_eq!(fires(&a, &e2, &snap_cur), Fire::Yes);
}

#[test]
fn queue_position_huge_n_fails_loud_no_panic() {
    let snap = snap5(2); // cursor at index 2
    let e = validate(
        &raw(RawTrigger::QueuePosition { n: usize::MAX, base: PosBase::CurrentIsOne }),
        &snap,
        now(),
        civil(),
        &bounds(),
    )
    .unwrap_err();
    assert!(matches!(e, PlanError::OutOfBounds { .. }), "got {e:?}");

    let e = validate(
        &raw(RawTrigger::QueuePosition { n: usize::MAX, base: PosBase::Absolute }),
        &snap,
        now(),
        civil(),
        &bounds(),
    )
    .unwrap_err();
    assert!(matches!(e, PlanError::OutOfBounds { .. }), "got {e:?}");
}

#[test]
fn resolve_selector_variants_and_no_match() {
    let texts: Vec<String> = vec![
        "Miles Davis - So What".into(),
        "Bill Evans - Peace Piece".into(),
        "Miles Davis - Blue in Green".into(),
        "Aphex Twin - Rhubarb".into(),
    ];
    let cur = Some(1usize);

    assert_eq!(resolve_selector(&QueueSelector::Position(1), &texts, cur), vec![0]);
    assert_eq!(resolve_selector(&QueueSelector::Position(4), &texts, cur), vec![3]);
    assert!(resolve_selector(&QueueSelector::Position(9), &texts, cur).is_empty());
    assert!(resolve_selector(&QueueSelector::Position(0), &texts, cur).is_empty());

    assert_eq!(
        resolve_selector(&QueueSelector::Range { start: 2, end: 3 }, &texts, cur),
        vec![1, 2]
    );
    assert_eq!(
        resolve_selector(&QueueSelector::Range { start: 3, end: 2 }, &texts, cur),
        vec![1, 2]
    );
    assert_eq!(
        resolve_selector(&QueueSelector::Range { start: 3, end: 99 }, &texts, cur),
        vec![2, 3]
    );

    assert_eq!(
        resolve_selector(&QueueSelector::QueryMatch("miles".into()), &texts, cur),
        vec![0, 2]
    );
    assert_eq!(
        resolve_selector(&QueueSelector::QueryMatch("rhubarb".into()), &texts, cur),
        vec![3]
    );
    assert!(resolve_selector(&QueueSelector::QueryMatch("nonesuch".into()), &texts, cur).is_empty());
    assert!(resolve_selector(&QueueSelector::QueryMatch("   ".into()), &texts, cur).is_empty());

    assert_eq!(resolve_selector(&QueueSelector::Current, &texts, cur), vec![1]);
    assert!(resolve_selector(&QueueSelector::Current, &texts, None).is_empty());
    assert!(resolve_selector(&QueueSelector::Current, &texts, Some(99)).is_empty());

    assert_eq!(resolve_selector(&QueueSelector::Last(2), &texts, cur), vec![2, 3]);
    assert_eq!(resolve_selector(&QueueSelector::Last(99), &texts, cur), vec![0, 1, 2, 3]);
    assert!(resolve_selector(&QueueSelector::Last(0), &texts, cur).is_empty());
    assert!(resolve_selector(&QueueSelector::Position(1), &[], None).is_empty());
}
