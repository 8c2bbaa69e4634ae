use hypodj::mpd::command::{
    parse, stamp_nl_owner, FadeArgs, FadeKind, KnobDir, MpdCommand, NlCmd, PlanCmd, SleepCmd, StickerCmd,
    WakeCmd, WakeWhen, WinddownCmd,
};
use hypodj::mpd::response::{write_response, MpdResponse};
use hypodj::mpd::tokens::tokenize;
use hypodj::number::{Real, Span};
use hypodj::plan::{Action, FadeIntentIr, PlanId, PosBase, RawTrigger};

fn exact(x: f64) -> Real {
    if x.is_nan() {
        Real::Nan
    } else if x == f64::INFINITY {
        Real::PosInf
    } else if x == f64::NEG_INFINITY {
        Real::NegInf
    } else {
        Real::Finite((x * 1e9).round() as i128)
    }
}

#[test]
fn tokenizes_quoted_args() {
    let (name, args) = tokenize(r#"add "song/al 1/track 2""#).unwrap();
    assert_eq!(name, "add");
    assert_eq!(args, vec!["song/al 1/track 2".to_string()]);
}

#[test]
fn parses_playback_mode_toggles() {
    assert!(matches!(parse("random 1"), MpdCommand::Random(true)));
    assert!(matches!(parse("random 0"), MpdCommand::Random(false)));
    assert!(matches!(parse("repeat 1"), MpdCommand::Repeat(true)));
    assert!(matches!(parse("repeat 0"), MpdCommand::Repeat(false)));
    assert!(matches!(parse("single 1"), MpdCommand::Single(true)));
    assert!(matches!(parse("single 0"), MpdCommand::Single(false)));
    assert!(matches!(parse("single oneshot"), MpdCommand::Single(true)));
    assert!(matches!(parse("consume 1"), MpdCommand::Consume(true)));
    assert!(matches!(parse("consume 0"), MpdCommand::Consume(false)));
    assert!(matches!(parse("random"), MpdCommand::Unsupported(_)));
    assert!(matches!(parse("repeat blah"), MpdCommand::Unsupported(_)));
}

#[test]
fn parses_core_commands() {
    assert!(matches!(parse("status"), MpdCommand::Status));
    assert!(matches!(parse("ping"), MpdCommand::Ping));
    assert!(matches!(parse("play 3"), MpdCommand::Play(Some(3))));
    assert!(matches!(parse("play"), MpdCommand::Play(None)));
    assert!(matches!(parse("setvol 42"), MpdCommand::SetVol(42)));
    assert!(matches!(parse("pause 1"), MpdCommand::Pause(Some(true))));
    assert!(matches!(parse("playid 7"), MpdCommand::PlayId(Some(7))));
}

#[test]
fn parses_lsinfo_and_add() {
    match parse(r#"lsinfo "artist/ar-9""#) {
        MpdCommand::LsInfo(Some(p)) => assert_eq!(p, "artist/ar-9"),
        other => panic!("got {other:?}"),
    }
    match parse("addid song/so-1") {
        MpdCommand::AddId(uri, None) => assert_eq!(uri, "song/so-1"),
        other => panic!("got {other:?}"),
    }
}

#[test]
fn unknown_command_is_unsupported_not_panic() {
    assert!(matches!(parse("frobnicate x y"), MpdCommand::Unsupported(_)));
    assert!(matches!(parse(""), MpdCommand::Unsupported(_)));
}

#[test]
fn nl_confirm_only_on_a_token_shaped_argument() {
    match parse("nl confirm nl-1a2b3c") {
        MpdCommand::Nl(NlCmd::Confirm { token, owner }) => {
            assert_eq!(token, "nl-1a2b3c");
            assert_eq!(owner, 0, "owner is unstamped until the serve loop");
        }
        other => panic!("got {other:?}"),
    }
    match parse("nl cancel nl-deadbeef") {
        MpdCommand::Nl(NlCmd::Cancel { token, .. }) => assert_eq!(token, "nl-deadbeef"),
        other => panic!("got {other:?}"),
    }
    match parse("nl confirm the good vibes only") {
        MpdCommand::Nl(NlCmd::Translate { req, .. }) => {
            assert_eq!(req, "confirm the good vibes only");
        }
        other => panic!("expected a translate, got {other:?}"),
    }
    match parse("nl confirm please") {
        MpdCommand::Nl(NlCmd::Translate { req, .. }) => assert_eq!(req, "confirm please"),
        other => panic!("expected a translate, got {other:?}"),
    }
    match parse("nl cancel that one") {
        MpdCommand::Nl(NlCmd::Translate { req, .. }) => assert_eq!(req, "cancel that one"),
        other => panic!("expected a translate, got {other:?}"),
    }
}

#[test]
fn stamp_nl_owner_sets_the_connection_key() {
    let mut cmd = parse("nl confirm nl-abc");
    stamp_nl_owner(&mut cmd, 0xDEAD);
    match cmd {
        MpdCommand::Nl(NlCmd::Confirm { owner, .. }) => assert_eq!(owner, 0xDEAD),
        other => panic!("got {other:?}"),
    }
    let mut other = parse("status");
    stamp_nl_owner(&mut other, 0xBEEF);
    assert!(matches!(other, MpdCommand::Status));
}

#[test]
fn search_filter_keeps_tag_value_pairs() {
    match parse("search Title foo Artist bar") {
        MpdCommand::Search(pairs) => {
            assert_eq!(
                pairs,
                vec![
                    ("title".to_string(), "foo".to_string()),
                    ("artist".to_string(), "bar".to_string()),
                ]
            );
        }
        other => panic!("got {other:?}"),
    }
}

#[test]
fn bare_search_value_files_under_any() {
    match parse("search kalabrese") {
        MpdCommand::Search(pairs) => {
            assert_eq!(pairs, vec![("any".to_string(), "kalabrese".to_string())]);
        }
        other => panic!("got {other:?}"),
    }
}

#[test]
fn findadd_searchadd_keep_tag_value_pairs() {
    match parse("findadd Artist bar Album baz") {
        MpdCommand::FindAdd(pairs) => assert_eq!(
            pairs,
            vec![
                ("artist".to_string(), "bar".to_string()),
                ("album".to_string(), "baz".to_string()),
            ]
        ),
        other => panic!("got {other:?}"),
    }
    match parse("searchadd kalabrese") {
        MpdCommand::SearchAdd(pairs) => {
            assert_eq!(pairs, vec![("any".to_string(), "kalabrese".to_string())]);
        }
        other => panic!("got {other:?}"),
    }
}

#[test]
fn count_keeps_tag_value_pairs() {
    match parse("count Artist bar Album baz") {
        MpdCommand::Count(pairs) => assert_eq!(
            pairs,
            vec![
                ("artist".to_string(), "bar".to_string()),
                ("album".to_string(), "baz".to_string()),
            ]
        ),
        other => panic!("got {other:?}"),
    }
}

#[test]
fn seekcur_sign_marks_relative() {
    match parse("seekcur 30") {
        MpdCommand::SeekCur { secs, relative } => {
            assert_eq!(secs, exact(30.0));
            assert!(!relative);
        }
        other => panic!("got {other:?}"),
    }
    match parse("seekcur +10") {
        MpdCommand::SeekCur { secs, relative } => {
            assert_eq!(secs, exact(10.0));
            assert!(relative);
        }
        other => panic!("got {other:?}"),
    }
    match parse("seekcur -10") {
        MpdCommand::SeekCur { secs, relative } => {
            assert_eq!(secs, exact(-10.0));
            assert!(relative);
        }
        other => panic!("got {other:?}"),
    }
}

#[test]
fn parses_knob_up_down() {
    assert!(matches!(parse("knob up"), MpdCommand::Knob(KnobDir::Up)));
    assert!(matches!(parse("knob down"), MpdCommand::Knob(KnobDir::Down)));
    assert!(matches!(parse("knob"), MpdCommand::Unsupported(_)));
    assert!(matches!(parse("knob sideways"), MpdCommand::Unsupported(_)));
}

#[test]
fn count_drops_trailing_group_clause() {
    match parse("count Artist bar group album") {
        MpdCommand::Count(pairs) => {
            assert_eq!(pairs, vec![("artist".to_string(), "bar".to_string())]);
        }
        other => panic!("got {other:?}"),
    }
}

#[test]
fn count_keeps_group_valued_filter() {
    match parse("count Artist group") {
        MpdCommand::Count(pairs) => {
            assert_eq!(pairs, vec![("artist".to_string(), "group".to_string())]);
        }
        other => panic!("got {other:?}"),
    }
}

#[test]
fn count_parses_expression_form() {
    match parse(r#"count "(Artist == \"Tosca\")""#) {
        MpdCommand::Count(pairs) => {
            assert_eq!(pairs, vec![("artist".to_string(), "Tosca".to_string())]);
        }
        other => panic!("got {other:?}"),
    }
}

#[test]
fn count_strips_group_after_a_bare_value() {
    match parse("count foo group album") {
        MpdCommand::Count(pairs) => {
            assert_eq!(pairs, vec![("any".to_string(), "foo".to_string())]);
        }
        other => panic!("got {other:?}"),
    }
}

#[test]
fn list_parses_tag_only() {
    match parse("list album") {
        MpdCommand::List { tag, filter } => {
            assert_eq!(tag, "album");
            assert!(filter.is_empty());
        }
        other => panic!("got {other:?}"),
    }
}

#[test]
fn list_parses_positional_filter() {
    match parse(r#"list album artist "Tosca""#) {
        MpdCommand::List { tag, filter } => {
            assert_eq!(tag, "album");
            assert_eq!(filter, vec![("artist".to_string(), "Tosca".to_string())]);
        }
        other => panic!("got {other:?}"),
    }
}

#[test]
fn list_strips_group_suffix() {
    match parse("list album group albumartist") {
        MpdCommand::List { tag, filter } => {
            assert_eq!(tag, "album");
            assert!(filter.is_empty(), "group clause must be stripped, got {filter:?}");
        }
        other => panic!("got {other:?}"),
    }
    match parse(r#"list album artist "X" group albumartist"#) {
        MpdCommand::List { tag, filter } => {
            assert_eq!(tag, "album");
            assert_eq!(filter, vec![("artist".to_string(), "X".to_string())]);
        }
        other => panic!("got {other:?}"),
    }
    match parse("list album artist group") {
        MpdCommand::List { tag, filter } => {
            assert_eq!(tag, "album");
            assert_eq!(filter, vec![("artist".to_string(), "group".to_string())]);
        }
        other => panic!("got {other:?}"),
    }
}

#[test]
fn list_bare_positional_album_files_under_any() {
    match parse("list album Tosca") {
        MpdCommand::List { tag, filter } => {
            assert_eq!(tag, "album");
            assert_eq!(filter, vec![("any".to_string(), "Tosca".to_string())]);
        }
        other => panic!("got {other:?}"),
    }
}

#[test]
fn list_parses_expression_filter() {
    match parse(r#"list album "(artist == \"Tosca\")""#) {
        MpdCommand::List { tag, filter } => {
            assert_eq!(tag, "album");
            assert_eq!(filter, vec![("artist".to_string(), "Tosca".to_string())]);
        }
        other => panic!("got {other:?}"),
    }
}

#[test]
fn parses_binarylimit_and_playlistadd() {
    assert!(matches!(parse("binarylimit 4096"), MpdCommand::BinaryLimit(4096)));
    match parse("playlistadd Starred song/so-1") {
        MpdCommand::PlaylistAdd(name, uri) => {
            assert_eq!(name, "Starred");
            assert_eq!(uri, "song/so-1");
        }
        other => panic!("got {other:?}"),
    }
}

#[test]
fn parses_save_and_rejects_empty_name() {
    match parse("save \"Warm Room\"") {
        MpdCommand::Save(name) => assert_eq!(name, "Warm Room"),
        other => panic!("got {other:?}"),
    }
    match parse("save Set1") {
        MpdCommand::Save(name) => assert_eq!(name, "Set1"),
        other => panic!("got {other:?}"),
    }
    assert!(matches!(parse("save"), MpdCommand::Unsupported(_)));
}

#[test]
fn parses_sticker_rating_verbs() {
    match parse("sticker set song song/so-1 rating 4") {
        MpdCommand::Sticker(StickerCmd::Rate { uri, value }) => {
            assert_eq!(uri, "song/so-1");
            assert_eq!(value, 4);
        }
        other => panic!("got {other:?}"),
    }
    match parse("sticker get song song/so-1 rating") {
        MpdCommand::Sticker(StickerCmd::Get { uri }) => assert_eq!(uri, "song/so-1"),
        other => panic!("got {other:?}"),
    }
    match parse("sticker delete song song/so-1 rating") {
        MpdCommand::Sticker(StickerCmd::Delete { uri }) => assert_eq!(uri, "song/so-1"),
        other => panic!("got {other:?}"),
    }
    match parse("sticker list song song/so-1") {
        MpdCommand::Sticker(StickerCmd::List { uri }) => assert_eq!(uri, "song/so-1"),
        other => panic!("got {other:?}"),
    }
    assert!(matches!(
        parse("sticker set song song/so-1 rating 9"),
        MpdCommand::Sticker(StickerCmd::Rate { value: 5, .. })
    ));
    assert!(matches!(
        parse("sticker set song song/so-1 mood happy"),
        MpdCommand::Sticker(StickerCmd::Unsupported)
    ));
    assert!(matches!(
        parse("sticker get playlist foo rating"),
        MpdCommand::Sticker(StickerCmd::Unsupported)
    ));
}

#[test]
fn parses_fade_commands() {
    match parse("fade out") {
        MpdCommand::Fade(FadeArgs { kind: FadeKind::Out, dur }) => assert_eq!(dur, None),
        other => panic!("got {other:?}"),
    }
    match parse("fade in") {
        MpdCommand::Fade(FadeArgs { kind: FadeKind::In, dur }) => assert_eq!(dur, None),
        other => panic!("got {other:?}"),
    }
    match parse("fade out 30") {
        MpdCommand::Fade(FadeArgs { kind: FadeKind::Out, dur }) => {
            assert_eq!(dur, Some(Span::from_secs(30)));
        }
        other => panic!("got {other:?}"),
    }
    match parse("fade out 30s") {
        MpdCommand::Fade(FadeArgs { kind: FadeKind::Out, dur }) => {
            assert_eq!(dur, Some(Span::from_secs(30)));
        }
        other => panic!("got {other:?}"),
    }
    match parse("fade in 300") {
        MpdCommand::Fade(FadeArgs { kind: FadeKind::In, dur }) => {
            assert_eq!(dur, Some(Span::from_secs(300)));
        }
        other => panic!("got {other:?}"),
    }
    match parse("fade to 40 20") {
        MpdCommand::Fade(FadeArgs { kind: FadeKind::To(40), dur }) => {
            assert_eq!(dur, Some(Span::from_secs(20)));
        }
        other => panic!("got {other:?}"),
    }
    match parse("fade to floor") {
        MpdCommand::Fade(FadeArgs { kind: FadeKind::ToFloor, dur }) => assert_eq!(dur, None),
        other => panic!("got {other:?}"),
    }
    match parse("fade to floor 45") {
        MpdCommand::Fade(FadeArgs { kind: FadeKind::ToFloor, dur }) => {
            assert_eq!(dur, Some(Span::from_secs(45)));
        }
        other => panic!("got {other:?}"),
    }
}

#[test]
fn fade_raw_dur_unclamped_and_rejects() {
    match parse("fade to 50 999999") {
        MpdCommand::Fade(FadeArgs { kind: FadeKind::To(50), dur }) => {
            assert_eq!(dur, Some(Span::from_secs(999999)));
        }
        other => panic!("got {other:?}"),
    }
    assert!(matches!(
        parse("fade to 250 10"),
        MpdCommand::Fade(FadeArgs { kind: FadeKind::To(100), .. })
    ));
    match parse("fade out 0") {
        MpdCommand::Fade(FadeArgs { dur, .. }) => assert_eq!(dur, Some(Span::zero())),
        other => panic!("got {other:?}"),
    }
    assert!(matches!(parse("fade out nan"), MpdCommand::Unsupported(_)));
    assert!(matches!(parse("fade out inf"), MpdCommand::Unsupported(_)));
    assert!(matches!(parse("fade out -5"), MpdCommand::Unsupported(_)));
    assert!(matches!(parse("fade out 1e20"), MpdCommand::Unsupported(_)));
    assert!(matches!(parse("fade to 40 1e30"), MpdCommand::Unsupported(_)));
    assert!(matches!(parse("fade sideways"), MpdCommand::Unsupported(_)));
    assert!(matches!(parse("fade to"), MpdCommand::Unsupported(_)));
    assert!(matches!(parse("fade"), MpdCommand::Unsupported(_)));
}

#[test]
fn parses_plan_worked_example() {
    match parse("plan add trigger track 3 base current action fade out 30s") {
        MpdCommand::Plan(PlanCmd::Add(raw)) => {
            assert!(matches!(
                raw.trigger,
                RawTrigger::QueuePosition { n: 3, base: PosBase::CurrentIsOne }
            ));
            match raw.action {
                Action::Fade(FadeIntentIr::Out { secs }) => assert_eq!(secs, exact(30.0)),
                other => panic!("got {other:?}"),
            }
        }
        other => panic!("got {other:?}"),
    }
}

#[test]
fn parses_sleep_winddown_wake_verbs() {
    assert!(matches!(parse("sleep"), MpdCommand::Sleep(SleepCmd::Status)));
    assert!(matches!(parse("sleep off"), MpdCommand::Sleep(SleepCmd::Cancel)));
    assert!(matches!(parse("sleep cancel"), MpdCommand::Sleep(SleepCmd::Cancel)));
    assert!(matches!(
        parse("sleep 30m"),
        MpdCommand::Sleep(SleepCmd::Arm(d)) if d == Span::from_secs(1800)
    ));
    assert!(matches!(
        parse("sleep 1h"),
        MpdCommand::Sleep(SleepCmd::Arm(d)) if d == Span::from_secs(3600)
    ));
    assert!(matches!(parse("sleep banana"), MpdCommand::Unsupported(_)));

    assert!(matches!(parse("winddown"), MpdCommand::Winddown(WinddownCmd::Arm(None))));
    assert!(matches!(
        parse("winddown 20m"),
        MpdCommand::Winddown(WinddownCmd::Arm(Some(d))) if d == Span::from_secs(1200)
    ));
    assert!(matches!(parse("winddown cancel"), MpdCommand::Winddown(WinddownCmd::Cancel)));

    assert!(matches!(parse("wake"), MpdCommand::Wake(WakeCmd::Status)));
    assert!(matches!(parse("wake list"), MpdCommand::Wake(WakeCmd::Status)));
    assert!(matches!(parse("wake cancel"), MpdCommand::Wake(WakeCmd::Cancel)));
    match parse("wake at 7 with jazz") {
        MpdCommand::Wake(WakeCmd::Arm { when, selector, .. }) => {
            assert_eq!(when, WakeWhen::At { h: 7, m: 0 });
            assert_eq!(selector.as_deref(), Some("jazz"));
        }
        other => panic!("got {other:?}"),
    }
    match parse("wake at 7:30pm") {
        MpdCommand::Wake(WakeCmd::Arm { when, selector, .. }) => {
            assert_eq!(when, WakeWhen::At { h: 19, m: 30 });
            assert!(selector.is_none());
        }
        other => panic!("got {other:?}"),
    }
    match parse("wake in 2h with deep house") {
        MpdCommand::Wake(WakeCmd::Arm { when, selector, .. }) => {
            assert_eq!(when, WakeWhen::In(Span::from_secs(7200)));
            assert_eq!(selector.as_deref(), Some("deep house"));
        }
        other => panic!("got {other:?}"),
    }
    assert!(matches!(parse("wake at bogus"), MpdCommand::Unsupported(_)));
    assert!(matches!(parse("wake in nope"), MpdCommand::Unsupported(_)));
}

#[test]
fn parses_plan_list_cancel_and_once() {
    assert!(matches!(parse("plan list"), MpdCommand::Plan(PlanCmd::List)));
    match parse("plan cancel 7") {
        MpdCommand::Plan(PlanCmd::Cancel(PlanId(7))) => {}
        other => panic!("got {other:?}"),
    }
    match parse("plan add trigger after action stop once") {
        MpdCommand::Plan(PlanCmd::Add(raw)) => {
            assert!(raw.once);
            assert!(matches!(raw.trigger, RawTrigger::TrackAfterCurrent));
            assert!(matches!(raw.action, Action::Stop));
        }
        other => panic!("got {other:?}"),
    }
    assert!(matches!(parse("plan add trigger track"), MpdCommand::Unsupported(_)));
    assert!(matches!(parse("plan frobnicate"), MpdCommand::Unsupported(_)));
}

#[test]
fn parses_nl_commands() {
    match parse(r#"nl "fade out in 20 minutes""#) {
        MpdCommand::Nl(NlCmd::Translate { req, .. }) => {
            assert_eq!(req, "fade out in 20 minutes")
        }
        other => panic!("got {other:?}"),
    }
    match parse("nl fade out") {
        MpdCommand::Nl(NlCmd::Translate { req, .. }) => assert_eq!(req, "fade out"),
        other => panic!("got {other:?}"),
    }
    assert!(matches!(parse("nl confirm nl-abc123"), MpdCommand::Nl(NlCmd::Confirm { token, .. }) if token == "nl-abc123"));
    assert!(matches!(parse("nl cancel nl-abc123"), MpdCommand::Nl(NlCmd::Cancel { token, .. }) if token == "nl-abc123"));
    assert!(matches!(parse("nl confirm abc123"), MpdCommand::Nl(NlCmd::Translate { .. })));
    assert!(matches!(parse("nl"), MpdCommand::Unsupported(_)));
    assert!(matches!(parse("nl confirm"), MpdCommand::Nl(NlCmd::Translate { .. })));
}

#[test]
fn ack_serialization_shape() {
    let mut buf = Vec::new();
    let ok = write_response(
        &mut buf,
        &MpdResponse::Ack {
            code: 5,
            command: "frob".into(),
            message: "unknown command \"frob\"".into(),
        },
        false,
        0,
    );
    assert!(!ok);
    assert_eq!(
        String::from_utf8(buf).unwrap(),
        "ACK [5@0] {frob} unknown command \"frob\"\n"
    );
}

#[test]
fn pairs_serialization_appends_no_ok_here() {
    let mut buf = Vec::new();
    let ok = write_response(
        &mut buf,
        &MpdResponse::pairs().pair("volume", "50").build(),
        false,
        0,
    );
    assert!(ok);
    assert_eq!(String::from_utf8(buf).unwrap(), "volume: 50\n");
}

#[test]
fn malformed_arguments_are_refused() {
    for line in [
        "play abc",
        "play -1",
        "playid x",
        "pause maybe",
        "addid song/1 x",
        "playlistid x",
        "playlistdelete list x",
        "albumart song/1 x",
        "readpicture song/1 x",
        "binarylimit x",
    ] {
        match parse(line) {
            MpdCommand::Unsupported(l) => assert_eq!(l, line),
            other => panic!("{line}: got {other:?}"),
        }
    }
    assert!(matches!(parse("play"), MpdCommand::Play(None)));
    assert!(matches!(parse("pause"), MpdCommand::Pause(None)));
    assert!(matches!(parse("plchanges"), MpdCommand::PlChanges(0)));
    assert!(matches!(parse("plchanges x"), MpdCommand::PlChanges(0)));
    assert!(matches!(parse("plchanges -1"), MpdCommand::PlChanges(0)));
    assert!(matches!(parse("plchanges 7"), MpdCommand::PlChanges(7)));
    assert!(matches!(parse("binarylimit"), MpdCommand::BinaryLimit(8192)));
    match parse("addid song/1 3") {
        MpdCommand::AddId(uri, Some(3)) => assert_eq!(uri, "song/1"),
        other => panic!("got {other:?}"),
    }
}

#[test]
fn malformed_plans_are_refused() {
    for line in [
        "plan add trigger track 3 base sideways action stop",
        "plan add trigger track 3 base action stop",
        "plan add trigger remaining 5 sideways action stop",
        "plan add trigger album track id x action stop",
        "plan add trigger immediate action enqueue radio many",
        "plan add trigger immediate action enqueue query x many",
    ] {
        match parse(line) {
            MpdCommand::Unsupported(l) => assert_eq!(l, line),
            other => panic!("{line}: got {other:?}"),
        }
    }
    match parse("plan add trigger track 3 base Current action stop") {
        MpdCommand::Plan(PlanCmd::Add(r)) => {
            assert_eq!(r.trigger, RawTrigger::QueuePosition { n: 3, base: PosBase::CurrentIsOne })
        }
        other => panic!("got {other:?}"),
    }
    match parse("plan add trigger album track current action stop origin me") {
        MpdCommand::Plan(PlanCmd::Add(r)) => assert_eq!(r.origin, "me"),
        other => panic!("got {other:?}"),
    }
}

#[test]
fn what_is_near_zero_keeps_its_sign() {
    for line in ["fade out -0.0000000001", "fade to -0.0000000001", "fade in -1e-300s", "sleep -0.0000000001m"] {
        assert!(matches!(parse(line), MpdCommand::Unsupported(_)), "{line}");
    }
    assert!(matches!(parse("fade out -0"), MpdCommand::Fade(FadeArgs { kind: FadeKind::Out, dur: Some(_) })));
    assert!(matches!(
        parse("fade to 99.9999999999"),
        MpdCommand::Fade(FadeArgs { kind: FadeKind::To(99), dur: None })
    ));
    assert!(matches!(parse("fade to 100.2"), MpdCommand::Fade(FadeArgs { kind: FadeKind::To(100), .. })));
}

#[test]
fn long_fractions_of_an_hour_keep_their_nanoseconds() {
    for (line, nanos) in [
        ("sleep 0.33333333333333h", 1_200_000_000_000u128),
        ("sleep 0.1234567890123h", 444_444_440_444),
        ("sleep 0.0166666666666667m", 1_000_000_000),
        ("sleep -1e-324h", 0),
        ("sleep 1.5h", 5_400_000_000_000),
    ] {
        match parse(line) {
            MpdCommand::Sleep(SleepCmd::Arm(d)) => assert_eq!(d.nanos, nanos, "{line}"),
            other => panic!("{line}: got {other:?}"),
        }
    }
    assert!(matches!(parse("sleep -3e-324h"), MpdCommand::Unsupported(_)));
}
