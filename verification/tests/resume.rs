use hypodj::config::FadeConfig;
use hypodj::fade::Gain;
use hypodj::number::{Real, Span};
use hypodj::resume::{
    accept, build_shutdown_fade, ResumeItem, ResumePlayState, ResumeState, RESUME_SCHEMA_VERSION,
};
use hypodj::softvol::SYNTH_FLOOR_DB;

fn exact(x: f64) -> Real {
    if x.is_nan() {
        Real::Nan
    } else if x == f64::INFINITY {
        Real::PosInf
    } else if x == f64::NEG_INFINITY {
        Real::NegInf
    } else {
        Real::Finite((x * 1e9).round() as i128)
    }
}

fn sample_state() -> ResumeState {
    ResumeState {
        schema_version: RESUME_SCHEMA_VERSION,
        queue: vec![
            ResumeItem::Song { id: "song-1".into() },
            ResumeItem::Stream {
                url: "http://radio.example/stream".into(),
                title: "Radio".into(),
            },
            ResumeItem::Song { id: "song-2".into() },
        ],
        current: Some(2),
        elapsed_secs: exact(42.5),
        volume: 73,
        play_state: ResumePlayState::Playing,
        playlist_version: 9,
        saved_at_unix: 1_700_000_000,
        continuation: true,
    }
}

#[test]
fn only_a_state_of_this_version_is_taken() {
    let s = accept(Some(sample_state())).expect("this version");
    assert_eq!(s.queue.len(), 3);
    assert_eq!(s.current, Some(2));
    assert_eq!(s.elapsed_secs, exact(42.5));
    assert_eq!(s.play_state, ResumePlayState::Playing);
    let mut s0 = sample_state();
    s0.schema_version = 0;
    assert!(accept(Some(s0)).is_none());
    let mut s999 = sample_state();
    s999.schema_version = 999;
    assert!(accept(Some(s999)).is_none());
    assert!(accept(None).is_none());
}

#[test]
fn build_shutdown_fade_default_is_short_and_click_free() {
    let cfg = FadeConfig::default();
    let budget = Span::from_secs(10);
    let sf = build_shutdown_fade(&cfg, exact(0.0), budget).expect("builds from 0 dB");
    assert!(sf.real_dur.nanos <= budget.nanos, "real_dur {:?} within budget", sf.real_dur);
    let lower = build_shutdown_fade(&cfg, exact(-30.0), budget).expect("builds from -30 dB");
    assert!(lower.real_dur.nanos <= sf.real_dur.nanos);
    assert!(build_shutdown_fade(&cfg, exact(0.0), Span::from_millis(100)).is_none());
}

#[test]
fn build_shutdown_fade_is_deliberate_not_sub_jnd() {
    let mut cfg = FadeConfig::default();
    cfg.shutdown_fade_secs = 5; // 5s / 250ms = 20 nominal steps at exactly 3 dB.
    cfg.normalize();
    let budget = Span::from_secs(15);
    let sf = build_shutdown_fade(&cfg, exact(0.0), budget).expect("builds");
    let steps = sf.spec.step_count();
    assert!(
        steps <= (60.0f64 / 3.0).ceil() as usize + 1,
        "steps {steps} must be the deliberate 3 dB/step count (<= 21), not the sub-JND ~80"
    );
}

#[test]
fn build_shutdown_fade_reaches_synth_floor_domain() {
    let cfg = FadeConfig::default();
    let sf = build_shutdown_fade(&cfg, exact(0.0), Span::from_secs(30)).unwrap();
    assert!(sf.spec.step_count() >= 1);
    assert_eq!(cfg.synth_floor_db, Real::Finite(SYNTH_FLOOR_DB));
}

#[test]
fn the_fade_before_the_exit_ends_mute() {
    let sf = build_shutdown_fade(&FadeConfig::default(), exact(-10.0), Span::from_secs(30)).unwrap();
    let last = sf.spec.step(sf.spec.step_count() - 1);
    assert_eq!(last.gain, Gain::Mute);
    assert_eq!(sf.real_dur.nanos, last.at.nanos);
}
