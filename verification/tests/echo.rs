use hypodj::civil::CivilTime;
use hypodj::client::nl::split_echo;
use hypodj::echo::{describe_batch, describe_plan, dsl_value, human_dur, ordinal, render_dsl};
use hypodj::mpd::command::{parse, MpdCommand, PlanCmd};
use hypodj::nl::NlSource;
use hypodj::number::Real;
use hypodj::plan::{
    Action, FadeIntentIr, MoveDest, PosBase, QueueSelector, RawPlan, RawTrigger, Selector, TrackSel,
};

fn assert_round_trip(raw: &RawPlan) {
    let dsl = render_dsl(raw).expect("this plan is keyword-DSL-expressible");
    let parsed = match parse(&format!("plan add {dsl}")) {
        MpdCommand::Plan(PlanCmd::Add(r)) => r,
        other => panic!("re-parse of `{dsl}` failed: {other:?}"),
    };
    assert_eq!(
        render_dsl(&parsed).as_deref(),
        Some(dsl.as_str()),
        "round-trip mismatch for `{dsl}`",
    );
}

#[test]
fn render_dsl_round_trips_multiword_selectors() {
    assert_round_trip(&RawPlan {
        version: 1,
        trigger: RawTrigger::TrackAfterCurrent,
        action: Action::Enqueue {
            selector: Selector::Query("good vibes only".into()),
            count: 5,
        },
        once: true,
        origin: String::new(),
    });
    assert_round_trip(&RawPlan {
        version: 1,
        trigger: RawTrigger::Immediate,
        action: Action::Enqueue {
            selector: Selector::Genre("drum and bass".into()),
            count: 3,
        },
        once: false,
        origin: String::new(),
    });
    assert_round_trip(&RawPlan {
        version: 1,
        trigger: RawTrigger::Immediate,
        action: Action::Enqueue {
            selector: Selector::Query("a \"b\" \\c".into()),
            count: 1,
        },
        once: false,
        origin: String::new(),
    });
    assert_round_trip(&RawPlan {
        version: 1,
        trigger: RawTrigger::Immediate,
        action: Action::Enqueue { selector: Selector::Genre("jazz".into()), count: 2 },
        once: true,
        origin: String::new(),
    });
}

#[test]
fn render_dsl_refuses_control_chars_in_selector() {
    let plan = RawPlan {
        version: 1,
        trigger: RawTrigger::Immediate,
        action: Action::Enqueue {
            selector: Selector::Query("chill\nclear\nnext".into()),
            count: 5,
        },
        once: false,
        origin: String::new(),
    };
    assert_eq!(render_dsl(&plan), None, "a newline-bearing selector must not render");
    let plan = RawPlan {
        action: Action::Enqueue {
            selector: Selector::Genre("jazz\rvol\t100".into()),
            count: 1,
        },
        ..plan
    };
    assert_eq!(render_dsl(&plan), None);
}

fn plan(trigger: RawTrigger, action: Action, once: bool) -> RawPlan {
    RawPlan { version: 1, trigger, action, once, origin: String::new() }
}

fn secs(n: i128) -> Real {
    Real::Finite(n * 1_000_000_000)
}

#[test]
fn plans_are_said_in_keywords() {
    let p = plan(
        RawTrigger::QueuePosition { n: 3, base: PosBase::CurrentIsOne },
        Action::Fade(FadeIntentIr::Out { secs: Real::Finite(30_500_000_000) }),
        true,
    );
    assert_eq!(
        render_dsl(&p).as_deref(),
        Some("trigger track 3 base current action fade out 30.5 once")
    );
    assert_round_trip(&p);
    let at = CivilTime { secs: 1_750_000_000, nanos: 0 };
    let p = plan(RawTrigger::WallClock { at }, Action::SetVolume(40), false);
    assert_eq!(
        render_dsl(&p).as_deref(),
        Some("trigger at 2025-06-15T15:06:40+00:00 action setvol 40")
    );
    assert_round_trip(&p);
    let p = plan(
        RawTrigger::TimeRemaining { track: TrackSel::Current, secs: secs(10) },
        Action::Stop,
        false,
    );
    assert_eq!(render_dsl(&p), None);
    let p = plan(RawTrigger::Immediate, Action::Wake { selector: None, count: 0 }, false);
    assert_eq!(render_dsl(&p), None);
}

#[test]
fn plans_are_said_in_words() {
    let p = plan(
        RawTrigger::QueuePosition { n: 22, base: PosBase::Absolute },
        Action::Enqueue { selector: Selector::Query("x y".into()), count: 5 },
        true,
    );
    assert_eq!(
        describe_plan(&p),
        "add 5 tracks matching \"x y\" to the END of the queue (append-only) when the 22nd track in the queue starts"
    );
    let p = plan(
        RawTrigger::SpanElapsed { secs: secs(1200) },
        Action::Fade(FadeIntentIr::To { target_db: secs(0), vol: 40, secs: secs(90) }),
        true,
    );
    assert_eq!(describe_plan(&p), "fade to volume 40 over 90s in 20 min");
    let at = CivilTime { secs: 1_750_000_000, nanos: 0 };
    let p = plan(RawTrigger::WallClock { at }, Action::Wake { selector: None, count: 0 }, true);
    assert_eq!(
        describe_plan(&p),
        "wake: ramp up from silence to the saved comfort level at 2025-06-15 15:06 UTC"
    );
}

#[test]
fn a_batch_is_read_back_by_the_client() {
    let at = CivilTime { secs: 1_750_000_000, nanos: 0 };
    let plans = vec![
        plan(
            RawTrigger::WallClock { at },
            Action::Enqueue { selector: Selector::Genre("jazz".into()), count: 5 },
            true,
        ),
        plan(RawTrigger::WallClock { at }, Action::Fade(FadeIntentIr::In { secs: secs(60) }), true),
    ];
    let parts = split_echo(&describe_batch(&plans, NlSource::Llm));
    assert_eq!(parts.trust.as_deref(), Some("via local model"));
    assert_eq!(parts.steps.len(), 2);
    assert_eq!(parts.steps[1], "[2] fade IN over 1 min at 2025-06-15 15:06 UTC");
    assert!(parts.note.unwrap().starts_with("NOTE: "));
    let parts = split_echo(&describe_batch(&plans[1..], NlSource::Rules));
    assert_eq!(parts.trust.as_deref(), Some("via rules"));
    assert_eq!(parts.note, None);
}

#[test]
fn places_and_lengths_in_words() {
    let said: Vec<String> = [1, 2, 3, 4, 11, 12, 13, 21, 102, 111].iter().map(|n| ordinal(*n)).collect();
    assert_eq!(
        said,
        vec!["1st", "2nd", "3rd", "4th", "11th", "12th", "13th", "21st", "102nd", "111th"]
    );
    assert_eq!(human_dur(secs(120)), "2 min");
    assert_eq!(human_dur(secs(90)), "90s");
    assert_eq!(human_dur(Real::Finite(500_000_000)), "0.5s");
}

#[test]
fn a_value_is_quoted_where_it_must_be() {
    assert_eq!(dsl_value("jazz").as_deref(), Some("jazz"));
    assert_eq!(dsl_value("").as_deref(), Some("\"\""));
    assert_eq!(dsl_value("a \"b\" \\c").as_deref(), Some("\"a \\\"b\\\" \\\\c\""));
    assert_eq!(dsl_value("a\nb"), None);
}

#[test]
fn texts_that_look_like_keywords_read_back() {
    for word in ["origin", "once", "to", "ACTION x", "5"] {
        for once in [false, true] {
            for action in [
                Action::Enqueue { selector: Selector::Query(word.into()), count: 5 },
                Action::Enqueue { selector: Selector::Genre(word.into()), count: 1 },
                Action::Remove { sel: QueueSelector::QueryMatch(word.into()) },
                Action::Play { sel: QueueSelector::QueryMatch(word.into()) },
                Action::Move {
                    sel: QueueSelector::QueryMatch(word.into()),
                    dest: MoveDest::Relative(-1),
                },
            ] {
                let p = plan(RawTrigger::Immediate, action, once);
                assert_round_trip(&p);
                match parse(&format!("plan add {} origin me", render_dsl(&p).unwrap())) {
                    MpdCommand::Plan(PlanCmd::Add(r)) => {
                        assert_eq!(r.once, once);
                        assert_eq!(r.origin, "me");
                        assert_eq!(format!("{:?}", r.action), format!("{:?}", p.action));
                    }
                    other => panic!("got {other:?}"),
                }
            }
        }
    }
}

#[test]
fn what_would_not_read_back_is_not_said() {
    for bad in [Real::PosInf, Real::Nan, Real::Finite(-1)] {
        let p = plan(RawTrigger::SpanElapsed { secs: bad }, Action::Stop, false);
        assert_eq!(render_dsl(&p), None);
        let p = plan(RawTrigger::Immediate, Action::Fade(FadeIntentIr::In { secs: bad }), false);
        assert_eq!(render_dsl(&p), None);
    }
    let far = CivilTime { secs: 253_402_300_800, nanos: 0 };
    let p = plan(RawTrigger::WallClock { at: far }, Action::Stop, false);
    assert_eq!(render_dsl(&p), None);
    let leap = CivilTime { secs: 1_483_228_799, nanos: 1_500_000_000 };
    assert_round_trip(&plan(RawTrigger::WallClock { at: leap }, Action::Stop, false));
}
