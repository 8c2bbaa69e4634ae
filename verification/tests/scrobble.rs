use hypodj::event::QueueId;
use hypodj::model::SongId;
use hypodj::number::Real;
use hypodj::player::{PlayState, PlayerEvent};
use hypodj::scrobble::{
    decide_eof, decide_timepos, threshold_met, ScrobbleState, ScrobbleTodo, Scrobbler,
};

fn exact(x: f64) -> Real {
    if x.is_nan() {
        Real::Nan
    } else if x == f64::INFINITY {
        Real::PosInf
    } else if x == f64::NEG_INFINITY {
        Real::NegInf
    } else {
        Real::Finite((x * 1e9).round() as i128)
    }
}

#[test]
fn threshold_needs_30s_floor() {
    assert!(!threshold_met(exact(29.9), Some(600)));
    assert!(!threshold_met(exact(29.9), None));
}

#[test]
fn threshold_uses_half_duration_capped_at_240() {
    assert!(!threshold_met(exact(49.0), Some(100)));
    assert!(threshold_met(exact(50.0), Some(100)));
    assert!(!threshold_met(exact(239.0), Some(1000))); // 50% would be 500
    assert!(threshold_met(exact(240.0), Some(1000)));
}

#[test]
fn threshold_unknown_duration_falls_back_to_floor_only() {
    assert!(!threshold_met(exact(29.0), None));
    assert!(threshold_met(exact(31.0), None));
    assert!(threshold_met(exact(31.0), Some(0))); // zero duration == unknown
}

fn playing(id: &str, duration: Option<u32>) -> ScrobbleState {
    ScrobbleState {
        current: Some(SongId(id.into())),
        start_epoch_ms: 1_700_000_000_000,
        duration_secs: duration,
        accumulated_secs: exact(0.0),
        submitted: false,
    }
}

#[test]
fn timepos_submits_once_at_threshold_then_never_again() {
    let mut st = playing("so-1", Some(100));
    assert!(decide_timepos(&mut st, exact(20.0)).is_none());
    assert!(decide_timepos(&mut st, exact(49.0)).is_none());
    let hit = decide_timepos(&mut st, exact(50.0)).expect("threshold crossed -> submit");
    assert_eq!(hit.0, SongId("so-1".into()));
    assert_eq!(hit.1, 1_700_000_000_000, "time is epoch-millis of START");
    assert!(decide_timepos(&mut st, exact(80.0)).is_none());
    assert!(decide_timepos(&mut st, exact(99.0)).is_none());
}

#[test]
fn eof_before_timer_still_submits_for_short_track() {
    let mut st = playing("so-2", Some(70));
    assert!(decide_timepos(&mut st, exact(36.0)).is_some_and(|_| true) || true);
    st.submitted = false;
    st.accumulated_secs = exact(36.0);
    let hit = decide_eof(&mut st, &SongId("so-2".into()));
    assert!(hit.is_some(), "EOF must submit when threshold met but unsent");
    assert!(st.current.is_none());
    assert!(!st.submitted);
}

#[test]
fn eof_below_threshold_does_not_submit_and_resets() {
    let mut st = playing("so-3", Some(300)); // 50% = 150s
    decide_timepos(&mut st, exact(10.0));
    let hit = decide_eof(&mut st, &SongId("so-3".into()));
    assert!(hit.is_none(), "short play (<threshold) must not scrobble");
    assert!(st.current.is_none());
}

#[test]
fn timepos_for_no_current_song_is_noop() {
    let mut st = ScrobbleState::default();
    assert!(decide_timepos(&mut st, exact(999.0)).is_none());
}

fn plays(id: &str) -> PlayerEvent {
    PlayerEvent::StateChanged(PlayState::Playing, Some(SongId(id.into())), Some(QueueId(1)))
}

fn at(secs: f64) -> PlayerEvent {
    PlayerEvent::TimePos { pos: exact(secs), queue_id: Some(QueueId(1)) }
}

#[test]
fn a_play_is_told_and_then_submitted_once() {
    let mut s = Scrobbler::new();
    let id = SongId("so-1".into());
    assert_eq!(s.on_event(&plays("so-1"), 5), Some(ScrobbleTodo::NowPlaying(id.clone())));
    s.set_duration(&id, Some(100));
    assert_eq!(s.on_event(&at(49.0), 6), None);
    assert_eq!(s.on_event(&at(50.0), 7), Some(ScrobbleTodo::Submit(id.clone(), 5)));
    assert_eq!(s.on_event(&at(60.0), 8), None);
    let end = PlayerEvent::Eof { song: Some(id), queue_id: Some(QueueId(1)) };
    assert_eq!(s.on_event(&end, 9), None);
}

#[test]
fn a_resume_is_no_new_play() {
    let mut s = Scrobbler::new();
    s.on_event(&plays("so-1"), 5);
    s.on_event(&at(20.0), 6);
    assert_eq!(s.on_event(&plays("so-1"), 100), None);
    assert_eq!(s.state.start_epoch_ms, 5);
}

#[test]
fn a_duration_of_another_song_is_passed_over() {
    let mut s = Scrobbler::new();
    s.on_event(&plays("so-1"), 5);
    s.set_duration(&SongId("so-2".into()), Some(100));
    assert_eq!(s.state.duration_secs, None);
}

#[test]
fn what_is_no_number_lies_below_no_bound() {
    assert!(threshold_met(Real::Nan, None));
    assert!(threshold_met(Real::Nan, Some(0)));
    assert!(!threshold_met(Real::Nan, Some(600)));
    assert!(!threshold_met(Real::NegInf, None));
}
