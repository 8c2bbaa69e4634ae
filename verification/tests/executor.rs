use hypodj::event::{
    Cursor, DjEvent, DjEventKind, EntrySnapshot, Moment, QueueId, QueueSnapshot, TimerId, TrackRef,
};
use hypodj::civil::CivilTime;
use hypodj::config::FadeConfig;
use hypodj::executor::{
    abs_diff_instant, map_fade, run_action, Effect, Executor, FadeIntent, PendingPlan, TimerTodo,
};
use hypodj::model::{AlbumId, SongId};
use hypodj::mpd::command::MpdCommand;
use hypodj::number::{Real, Span};
use hypodj::plan::{
    validate, Action, ArmedPlan, FadeIntentIr, PlanBounds, PlanId, PosBase, RawPlan, RawTrigger, Resolved,
    Selector, TrackSel,
};
use hypodj::player::PlayState;

fn exact(x: f64) -> Real {
    if x.is_nan() {
        Real::Nan
    } else if x == f64::INFINITY {
        Real::PosInf
    } else if x == f64::NEG_INFINITY {
        Real::NegInf
    } else {
        Real::Finite((x * 1e9).round() as i128)
    }
}

fn at(secs: u128) -> Moment {
    Moment { nanos: (1_000 + secs) * 1_000_000_000 }
}

fn queue(current: usize, version: u64, albums: &[(u64, &str)]) -> QueueSnapshot {
    let entries: Vec<EntrySnapshot> = albums
        .iter()
        .map(|(id, album)| EntrySnapshot {
            queue_id: QueueId(*id),
            song: Some(SongId(format!("s{id}"))),
            album_id: Some(AlbumId(format!("al-{album}"))),
            duration: Some(Span::from_secs(200)),
        })
        .collect();
    QueueSnapshot {
        playlist_version: version,
        current: Some(Cursor { index: current, queue_id: entries[current].queue_id }),
        entries,
    }
}

fn tref(id: u64) -> TrackRef {
    TrackRef { queue_id: QueueId(id), queue_index: None, song: None, album_id: None, duration: None }
}

fn event(kind: DjEventKind, now: Moment, snap: &QueueSnapshot) -> DjEvent {
    DjEvent {
        kind,
        now,
        seq: 0,
        playlist_version: snap.playlist_version,
        cursor: snap.current.as_ref().map(|c| c.queue_id),
    }
}

fn fade_out(secs: f64) -> Action {
    Action::Fade(FadeIntentIr::Out { secs: exact(secs) })
}

fn raw(trigger: RawTrigger, action: Action, once: bool) -> RawPlan {
    RawPlan { version: 1, trigger, action, once, origin: "mpd".into() }
}

fn add(ex: &mut Executor, id: u64, raw: RawPlan, snap: &QueueSnapshot, now: Moment) -> Resolved {
    let bounds = PlanBounds::from_fade_config(&FadeConfig::default());
    let civil = CivilTime { secs: 1_750_000_000, nanos: 0 };
    let resolved = validate(&raw, snap, now, civil, &bounds).unwrap();
    let once = raw.once;
    ex.pending.push(PendingPlan {
        armed: ArmedPlan {
            id: PlanId(id),
            raw,
            resolved: resolved.clone(),
            armed_at: now,
            once,
            timer_id: None,
        },
        remaining_deadline: None,
    });
    resolved
}

fn third() -> RawTrigger {
    RawTrigger::QueuePosition { n: 3, base: PosBase::CurrentIsOne }
}

fn second() -> RawTrigger {
    RawTrigger::QueuePosition { n: 2, base: PosBase::CurrentIsOne }
}

#[test]
fn fixture_track3_fade_out_on_track_start() {
    let snap = queue(0, 1, &[(0, "A"), (1, "A"), (2, "A"), (3, "A"), (4, "A")]);
    let mut ex = Executor::new();
    add(&mut ex, 1, raw(third(), fade_out(30.0), true), &snap, at(0));
    let work = ex.on_event(&event(DjEventKind::TrackStart(tref(2)), at(1), &snap), &snap);
    assert_eq!(work.fired.len(), 1);
    assert_eq!(work.fired[0].0, PlanId(1));
    match &work.fired[0].1 {
        Action::Fade(ir) => assert_eq!(map_fade(ir).dur, Span::from_secs(30)),
        other => panic!("got {other:?}"),
    }
    assert!(ex.pending.is_empty(), "once plan removed after firing");
}

#[test]
fn negative_delete_target_expires_no_neighbor_fire() {
    let snap = queue(0, 1, &[(0, "A"), (1, "A"), (2, "A")]);
    let mut ex = Executor::new();
    add(&mut ex, 1, raw(third(), fade_out(30.0), true), &snap, at(0));
    let shorter = queue(0, 2, &[(0, "A"), (1, "A")]);
    let work = ex.on_event(&event(DjEventKind::TrackStart(tref(0)), at(1), &shorter), &shorter);
    assert_eq!(work.expired, vec![PlanId(1)], "orphaned plan expired on reconcile");
    assert!(work.fired.is_empty(), "never faded a neighbor");
    assert!(ex.pending.is_empty());
}

#[test]
fn span_elapsed_fires_after_advance() {
    let snap = queue(0, 1, &[(0, "A")]);
    let mut ex = Executor::new();
    let r = add(
        &mut ex,
        1,
        raw(RawTrigger::SpanElapsed { secs: exact(300.0) }, fade_out(30.0), true),
        &snap,
        at(0),
    );
    assert_eq!(r, Resolved::OnDeadline(at(300)));
    ex.timer_armed(PlanId(1), TimerId(5));
    let other = ex.on_event(&event(DjEventKind::WallClock(TimerId(4)), at(299), &snap), &snap);
    assert!(other.fired.is_empty());
    let work = ex.on_event(&event(DjEventKind::WallClock(TimerId(5)), at(300), &snap), &snap);
    assert_eq!(work.fired.len(), 1);
    assert!(ex.pending.is_empty(), "once plan removed");
}

#[test]
fn deterministic_order_fade_then_stop() {
    let snap = queue(0, 1, &[(0, "A"), (1, "A")]);
    let mut ex = Executor::new();
    add(&mut ex, 2, raw(second(), Action::Stop, true), &snap, at(0));
    add(&mut ex, 1, raw(second(), fade_out(30.0), true), &snap, at(0));
    let work = ex.on_event(&event(DjEventKind::TrackStart(tref(1)), at(1), &snap), &snap);
    let ids: Vec<u64> = work.fired.iter().map(|f| f.0 .0).collect();
    assert_eq!(ids, vec![1, 2]);
    assert!(matches!(work.fired[1].1, Action::Stop), "Stop (higher id) applied last");
    assert!(ex.pending.is_empty());
}

fn tick(rem: u64) -> DjEventKind {
    DjEventKind::Tick {
        time_pos: Span::from_secs(200 - rem),
        time_remaining: Some(Span::from_secs(rem)),
    }
}

fn remaining_plan(snap: &QueueSnapshot) -> Executor {
    let mut ex = Executor::new();
    add(
        &mut ex,
        1,
        raw(
            RawTrigger::TimeRemaining { track: TrackSel::Current, secs: exact(30.0) },
            fade_out(10.0),
            true,
        ),
        snap,
        at(0),
    );
    ex
}

#[test]
fn time_remaining_paused_then_resume_fires() {
    let snap = queue(0, 1, &[(0, "A")]);
    let mut ex = remaining_plan(&snap);
    let todo = ex.on_tick(&event(tick(100), at(0), &snap), &snap);
    assert_eq!(todo.last(), Some(&TimerTodo::Arm(PlanId(1), at(70))));
    ex.timer_armed(PlanId(1), TimerId(1));
    let paused = event(DjEventKind::StateChanged(PlayState::Paused, None), at(10), &snap);
    assert_eq!(ex.on_tick(&paused, &snap), vec![TimerTodo::Disarm(PlanId(1))]);
    let stale = ex.on_event(&event(DjEventKind::WallClock(TimerId(1)), at(70), &snap), &snap);
    assert!(stale.fired.is_empty(), "no fire while paused");
    let todo = ex.on_tick(&event(tick(100), at(130), &snap), &snap);
    assert_eq!(todo.last(), Some(&TimerTodo::Arm(PlanId(1), at(200))));
    ex.timer_armed(PlanId(1), TimerId(2));
    let work = ex.on_event(&event(DjEventKind::WallClock(TimerId(2)), at(200), &snap), &snap);
    assert_eq!(work.fired.len(), 1, "fired after resume + re-arm");
}

#[test]
fn once_plan_fires_exactly_once() {
    let snap = queue(0, 1, &[(0, "A"), (1, "A")]);
    let mut ex = Executor::new();
    add(&mut ex, 1, raw(second(), fade_out(30.0), true), &snap, at(0));
    let ev = event(DjEventKind::TrackStart(tref(1)), at(1), &snap);
    assert_eq!(ex.on_event(&ev, &snap).fired.len(), 1);
    assert!(ex.pending.is_empty(), "removed at selection");
    assert!(ex.on_event(&ev, &snap).fired.is_empty());
}

#[test]
fn time_remaining_skip_does_not_fire_wrong_track() {
    let snap = queue(0, 1, &[(0, "A"), (1, "A")]);
    let mut ex = remaining_plan(&snap);
    ex.on_tick(&event(tick(100), at(0), &snap), &snap);
    ex.timer_armed(PlanId(1), TimerId(1));
    let skipped = queue(1, 1, &[(0, "A"), (1, "A")]);
    let work = ex.on_event(&event(DjEventKind::TrackStart(tref(1)), at(5), &skipped), &skipped);
    assert!(work.timers.contains(&TimerTodo::Disarm(PlanId(1))));
    let late = ex.on_event(&event(DjEventKind::WallClock(TimerId(1)), at(70), &skipped), &skipped);
    assert!(late.fired.is_empty(), "never fired on the wrong track");
}

#[test]
fn time_remaining_seek_rearms_deadline() {
    let snap = queue(0, 1, &[(0, "A")]);
    let mut ex = remaining_plan(&snap);
    ex.on_tick(&event(tick(100), at(0), &snap), &snap);
    ex.timer_armed(PlanId(1), TimerId(1));
    let drift = ex.on_tick(&event(tick(99), at(1), &snap), &snap);
    assert!(drift.is_empty(), "steady playback leaves the deadline");
    let todo = ex.on_tick(&event(tick(190), at(1), &snap), &snap);
    assert_eq!(todo, vec![TimerTodo::Arm(PlanId(1), at(161))]);
}

#[test]
fn non_once_immediate_removed_no_zombie() {
    let snap = queue(0, 1, &[(0, "A")]);
    let mut ex = Executor::new();
    add(&mut ex, 1, raw(RawTrigger::Immediate, fade_out(10.0), false), &snap, at(0));
    let fired = ex.on_immediate(PlanId(1)).unwrap();
    assert_eq!(fired.0, PlanId(1));
    assert!(ex.pending.is_empty(), "non-once immediate plan removed; no zombie in the list");
    assert!(ex.on_immediate(PlanId(1)).is_none());
}

#[test]
fn album_boundary_fires_across_eof_advance() {
    let snap = queue(0, 1, &[(0, "A"), (1, "B")]);
    let mut ex = Executor::new();
    add(
        &mut ex,
        1,
        raw(RawTrigger::AlbumBoundary { track: TrackSel::Current }, fade_out(10.0), true),
        &snap,
        at(0),
    );
    let advanced = queue(1, 1, &[(0, "A"), (1, "B")]);
    let work = ex.on_event(&event(DjEventKind::TrackEnd(tref(0)), at(1), &advanced), &advanced);
    assert_eq!(work.fired.len(), 1, "album boundary fired across the advance");
    assert!(ex.pending.is_empty(), "fired boundary removed");
}

#[test]
fn every_action_has_its_effect() {
    assert!(matches!(run_action(Action::Stop), Effect::Request(MpdCommand::Stop)));
    assert!(matches!(run_action(Action::Pause), Effect::Request(MpdCommand::Pause(Some(true)))));
    assert!(matches!(run_action(Action::SetVolume(40)), Effect::Request(MpdCommand::SetVol(40))));
    assert!(matches!(
        run_action(Action::Enqueue { selector: Selector::Radio, count: 3 }),
        Effect::Enqueue(Selector::Radio, 3)
    ));
    assert!(matches!(run_action(Action::Noop), Effect::Nothing));
    match run_action(fade_out(30.0)) {
        Effect::Fade(f) => {
            assert_eq!(f.intent, FadeIntent::Out);
            assert_eq!(f.dur, Span::from_secs(30));
        }
        other => panic!("got {other:?}"),
    }
}

#[test]
fn a_distance_has_no_direction() {
    assert_eq!(abs_diff_instant(at(3), at(5)), 2_000_000_000);
    assert_eq!(abs_diff_instant(at(5), at(3)), 2_000_000_000);
}
