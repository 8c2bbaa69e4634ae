use hypodj::fade::{
    begin_fade, continue_fade, Curve, FadeError, FadeMove, FadeOutcome, FadeProgress, FadeSpec, FadeTarget,
    Gain, StartleBounds, Step, MAX_SCHEDULE_STEPS,
};
use hypodj::number::{Real, Span};
use hypodj::player::PlayerError;
use hypodj::softvol::SYNTH_FLOOR_DB;

fn exact(x: f64) -> Real {
    if x.is_nan() {
        Real::Nan
    } else if x == f64::INFINITY {
        Real::PosInf
    } else if x == f64::NEG_INFINITY {
        Real::NegInf
    } else {
        Real::Finite((x * 1e9).round() as i128)
    }
}

fn db(g: Gain) -> f64 {
    match g {
        Gain::Db(n) => n as f64 / 1e9,
        Gain::Mute => f64::NEG_INFINITY,
    }
}

fn steps_of(spec: &FadeSpec) -> Vec<Step> {
    (0..spec.step_count()).map(|i| spec.step(i)).collect()
}

fn bounds(sub_jnd: bool) -> StartleBounds {
    StartleBounds {
        min_slew: Span::from_millis(250),
        step_size_db: exact(0.75),
        synth_floor_db: SYNTH_FLOOR_DB,
        sub_jnd,
    }
}

#[test]
fn huge_tick_does_not_overflow_or_panic() {
    let huge = Span::from_millis(20_000_000_000_000_000);
    let b = StartleBounds {
        min_slew: huge,
        step_size_db: exact(0.75),
        synth_floor_db: SYNTH_FLOOR_DB,
        sub_jnd: true,
    };
    let _ = FadeSpec::new(exact(0.0), FadeTarget::Silence, huge, huge, Curve::DbLinear, b);
}

struct Sink {
    gains: Vec<f64>,
    fail_on: Option<usize>,
}

impl Sink {
    fn new() -> Sink {
        Sink { gains: Vec::new(), fail_on: None }
    }

    fn failing_on(n: usize) -> Sink {
        Sink { gains: Vec::new(), fail_on: Some(n) }
    }

    fn gains(&self) -> Vec<f64> {
        self.gains.clone()
    }

    fn set_gain_db(&mut self, g: Gain) -> Result<(), PlayerError> {
        if self.fail_on == Some(self.gains.len() + 1) {
            return Err(PlayerError::Backend("injected sink failure".into()));
        }
        self.gains.push(db(g));
        Ok(())
    }
}

fn drive(spec: &FadeSpec, sink: &mut Sink) -> (FadeOutcome, Vec<FadeProgress>) {
    let mut prog = Vec::new();
    let (told, mut next) = begin_fade(spec);
    prog.extend(told);
    let mut i = 0;
    loop {
        match next {
            FadeMove::Apply(step) => {
                let answer = sink.set_gain_db(step.gain);
                let (told, then_do) = continue_fade(spec, i, answer);
                prog.extend(told);
                next = then_do;
                i += 1;
            }
            FadeMove::Finish(outcome) => return (outcome, prog),
        }
    }
}

#[test]
fn monotone_non_increasing_and_sub_jnd() {
    let spec = FadeSpec::new(
        exact(0.0),
        FadeTarget::Db(exact(-45.0)),
        Span::from_secs(60),
        Span::from_millis(250),
        Curve::DbLinear,
        bounds(true),
    )
    .unwrap();
    let steps = steps_of(&spec);
    assert!(!steps.is_empty());
    for w in steps.windows(2) {
        assert!(db(w[1].gain) <= db(w[0].gain) + 1e-9, "must not re-brighten");
        let d = (db(w[0].gain) - db(w[1].gain)).abs();
        assert!(d <= 0.75 + 1e-9, "per-step delta {d} exceeds sub-JND cap");
    }
    assert!(db(steps.last().unwrap().gain) >= -45.0 - 1e-9);
}

#[test]
fn every_interval_ge_min_slew() {
    let spec = FadeSpec::new(
        exact(0.0),
        FadeTarget::Db(exact(-30.0)),
        Span::from_secs(10),
        Span::from_millis(100),
        Curve::DbLinear,
        bounds(true),
    )
    .unwrap();
    let steps = steps_of(&spec);
    assert_eq!(steps[0].at, Span::from_millis(250));
    for w in steps.windows(2) {
        assert!(w[1].at.nanos - w[0].at.nanos >= Span::from_millis(250).nanos);
    }
}

#[test]
fn total_duration_extends_not_violates() {
    let spec = FadeSpec::new(
        exact(0.0),
        FadeTarget::Db(exact(-45.0)),
        Span::from_secs(5),
        Span::from_millis(250),
        Curve::DbLinear,
        bounds(true),
    )
    .unwrap();
    let steps = steps_of(&spec);
    assert_eq!(steps.len(), 60);
    for w in steps.windows(2) {
        assert!((db(w[0].gain) - db(w[1].gain)).abs() <= 0.75 + 1e-9);
    }
}

#[test]
fn fade_in_from_silence_finite() {
    let spec = FadeSpec::new(
        exact(-60.0),
        FadeTarget::Db(exact(-6.0)),
        Span::from_secs(30),
        Span::from_millis(250),
        Curve::DbLinear,
        bounds(true),
    )
    .unwrap();
    let mut sink = Sink::new();
    let (outcome, prog) = drive(&spec, &mut sink);
    assert!(matches!(outcome, FadeOutcome::Completed));
    let gains = sink.gains();
    assert!(gains.iter().all(|g| g.is_finite()), "no NaN/inf on a ramp-in");
    for w in gains.windows(2) {
        assert!(w[1] >= w[0] - 1e-9);
        assert!((w[1] - w[0]).abs() <= 0.75 + 1e-9);
    }
    assert!(gains.last().unwrap() <= &(-6.0 + 1e-9));
    assert!(prog.last().unwrap().done);
}

#[test]
fn silence_final_mute_step() {
    let spec = FadeSpec::new(
        exact(-6.0),
        FadeTarget::Silence,
        Span::from_secs(20),
        Span::from_millis(250),
        Curve::DbLinear,
        bounds(true),
    )
    .unwrap();
    let steps = steps_of(&spec);
    let last = steps.last().unwrap();
    let penult = steps[steps.len() - 2];
    assert!(db(last.gain).is_infinite() && db(last.gain) < 0.0);
    assert!((db(penult.gain) - SYNTH_FLOOR_DB as f64 / 1e9).abs() < 1e-6);
    assert!(last.at.nanos - penult.at.nanos >= Span::from_millis(250).nanos);
    assert_eq!(steps.iter().filter(|s| db(s.gain).is_infinite()).count(), 1);
}

#[test]
fn degenerate_from_eq_to() {
    let spec = FadeSpec::new(
        exact(-12.0),
        FadeTarget::Db(exact(-12.0)),
        Span::from_secs(10),
        Span::from_millis(250),
        Curve::DbLinear,
        bounds(true),
    )
    .unwrap();
    assert!(steps_of(&spec).is_empty());
    let mut sink = Sink::new();
    let (outcome, prog) = drive(&spec, &mut sink);
    assert!(matches!(outcome, FadeOutcome::Completed));
    assert_eq!(prog.len(), 1);
    assert!(prog[0].done);
    assert!(sink.gains().is_empty());
}

#[test]
fn dur_below_min_slew_is_one_slewed_step() {
    let spec = FadeSpec::new(
        exact(0.0),
        FadeTarget::Db(exact(-2.0)),
        Span::from_millis(50),
        Span::from_millis(50),
        Curve::DbLinear,
        bounds(false),
    )
    .unwrap();
    let steps = steps_of(&spec);
    assert_eq!(steps.len(), 1);
    assert_eq!(steps[0].at, Span::from_millis(250));
    assert!((db(steps[0].gain) - (-2.0)).abs() < 1e-9);
}

#[test]
fn sink_error_terminates_with_last_good() {
    let spec = FadeSpec::new(
        exact(0.0),
        FadeTarget::Db(exact(-30.0)),
        Span::from_secs(20),
        Span::from_millis(250),
        Curve::DbLinear,
        bounds(true),
    )
    .unwrap();
    let mut sink = Sink::failing_on(5);
    let (outcome, prog) = drive(&spec, &mut sink);
    assert!(matches!(outcome, FadeOutcome::SinkError(_)));
    assert_eq!(sink.gains().len(), 4);
    assert_eq!(prog.len(), 4);
    assert!(!prog.last().unwrap().done, "aborted mid-fade, not done");
}

#[test]
fn absolute_deadline_no_drift() {
    let spec = FadeSpec::new(
        exact(0.0),
        FadeTarget::Db(exact(-3.0)),
        Span::from_secs(1),
        Span::from_millis(250),
        Curve::DbLinear,
        bounds(false),
    )
    .unwrap();
    let n = spec.step_count();
    for (i, step) in steps_of(&spec).iter().enumerate() {
        assert_eq!(step.at, Span::from_millis(250 * (i as u64 + 1)));
    }
    assert_eq!(spec.step(n - 1).at.nanos, Span::from_millis(250).nanos * n as u128);
}

#[test]
fn zero_step_size_does_not_panic() {
    let bad = StartleBounds { step_size_db: exact(0.0), ..bounds(true) };
    let spec = FadeSpec::new(
        exact(0.0),
        FadeTarget::Db(exact(-45.0)),
        Span::from_secs(60),
        Span::from_millis(250),
        Curve::DbLinear,
        bad,
    )
    .expect("zero step_size must build, not panic");
    assert!(!steps_of(&spec).is_empty());
    assert!(spec.step_count() as u128 <= MAX_SCHEDULE_STEPS);
    let neg = StartleBounds { step_size_db: exact(-1.0), ..bounds(true) };
    assert!(FadeSpec::new(
        exact(0.0),
        FadeTarget::Silence,
        Span::from_secs(30),
        Span::from_millis(250),
        Curve::DbLinear,
        neg,
    )
    .is_ok());
}

#[test]
fn rejects_non_finite_and_bad_bounds() {
    assert_eq!(
        FadeSpec::new(exact(f64::NAN), FadeTarget::Db(exact(-6.0)), Span::from_secs(5),
            Span::from_millis(250), Curve::DbLinear, bounds(true)).unwrap_err(),
        FadeError::NonFinite
    );
    assert_eq!(
        FadeSpec::new(exact(0.0), FadeTarget::Db(exact(f64::INFINITY)), Span::from_secs(5),
            Span::from_millis(250), Curve::DbLinear, bounds(true)).unwrap_err(),
        FadeError::NonFinite
    );
    let bad = StartleBounds { min_slew: Span::from_millis(100), ..bounds(true) };
    assert_eq!(
        FadeSpec::new(exact(0.0), FadeTarget::Db(exact(-6.0)), Span::from_secs(5),
            Span::from_millis(250), Curve::DbLinear, bad).unwrap_err(),
        FadeError::SlewTooShort
    );
    assert_eq!(
        FadeSpec::new(exact(0.0), FadeTarget::Db(exact(-45.0)), Span::from_millis(250),
            Span::from_millis(250), Curve::DbLinear, bounds(false)).unwrap_err(),
        FadeError::StepTooLarge
    );
}

#[test]
fn every_refusal_has_its_sentence() {
    assert_eq!(
        FadeError::SlewTooShort.message(),
        "min_slew below the startle hard floor of 200ms"
    );
    assert_eq!(
        FadeError::StepTooLarge.message(),
        "per-step dB delta exceeds the 3dB deliberate-cue cap"
    );
    assert_eq!(FadeError::NonFinite.message(), "non-finite dB input");
}
