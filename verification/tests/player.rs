use hypodj::event::QueueId;
use hypodj::model::SongId;
use hypodj::number::Real;
use hypodj::player::{
    effective_play_state, end_reason, output_calls, output_properties, parse_astats_levels, quote, AudioOut,
    Deck, EndReason, MeterValue, NullPlayer, OutputCall, PlayState, PlayerCommand, PlayerError, PlayerEvent,
    PlayerTodo, MPV_END_FILE_REASON_EOF, MPV_END_FILE_REASON_ERROR, MPV_END_FILE_REASON_QUIT,
    MPV_END_FILE_REASON_REDIRECT, MPV_END_FILE_REASON_STOP, VIZ_FLOOR_DBFS,
};
use hypodj::softvol::{mpv_volume_to_db, SYNTH_FLOOR_DB};

fn exact(x: f64) -> Real {
    if x.is_nan() {
        Real::Nan
    } else if x == f64::INFINITY {
        Real::PosInf
    } else if x == f64::NEG_INFINITY {
        Real::NegInf
    } else {
        Real::Finite((x * 1e9).round() as i128)
    }
}

fn play(song: &str, id: u64, url: &str) -> PlayerCommand {
    PlayerCommand::PlayUrl {
        song: Some(SongId(song.into())),
        queue_id: Some(QueueId(id)),
        url: url.into(),
    }
}

#[test]
fn effective_state_forces_stop_without_current() {
    assert_eq!(effective_play_state(PlayState::Playing, false), PlayState::Stopped);
    assert_eq!(effective_play_state(PlayState::Paused, false), PlayState::Stopped);
    assert_eq!(effective_play_state(PlayState::Stopped, false), PlayState::Stopped);
    assert_eq!(effective_play_state(PlayState::Playing, true), PlayState::Playing);
    assert_eq!(effective_play_state(PlayState::Paused, true), PlayState::Paused);
    assert_eq!(effective_play_state(PlayState::Stopped, true), PlayState::Stopped);
}

#[test]
fn end_reason_advances_on_eof_and_error_only() {
    let advances = |raw: u32| matches!(end_reason(raw), EndReason::Eof | EndReason::Error);
    assert!(advances(MPV_END_FILE_REASON_EOF));
    assert!(advances(MPV_END_FILE_REASON_ERROR));
    assert!(!advances(MPV_END_FILE_REASON_STOP));
    assert!(!advances(MPV_END_FILE_REASON_QUIT));
    assert!(!advances(MPV_END_FILE_REASON_REDIRECT));
    assert!(!advances(999));
}

#[test]
fn null_player_transitions_via_handle() {
    let mut player = NullPlayer::new();
    assert_eq!(player.state, PlayState::Stopped);

    let todo = player.handle_cmd(play("42", 0, "http://example/stream"));
    assert!(todo.contains(&PlayerTodo::Reply(Ok(()))));
    assert_eq!(player.state, PlayState::Playing);

    player.handle_cmd(PlayerCommand::Pause);
    assert_eq!(player.state, PlayState::Paused);

    player.handle_cmd(PlayerCommand::Resume);
    assert_eq!(player.state, PlayState::Playing);

    player.handle_cmd(PlayerCommand::SetVolume { vol: 80 });
    player.handle_cmd(PlayerCommand::SetVolumeF64 { vol: exact(63.5), gain_db: exact(-11.8) });
    player.handle_cmd(PlayerCommand::Seek { secs: exact(12.5) });
    assert_eq!(player.state, PlayState::Playing);

    player.handle_cmd(PlayerCommand::Stop);
    assert_eq!(player.state, PlayState::Stopped);
}

#[test]
fn an_end_names_what_ended() {
    let mut player = NullPlayer::new();
    player.handle_cmd(play("1", 7, "http://x"));
    let todo = player.test_emit_eof();
    assert!(todo.contains(&PlayerTodo::Send(PlayerEvent::Eof {
        song: Some(SongId("1".into())),
        queue_id: Some(QueueId(7)),
    })));
    assert_eq!(player.current, None);
}

#[test]
fn a_refused_load_leaves_the_deck() {
    let mut deck = Deck::new();
    deck.handle_cmd(play("1", 7, "http://x"), Ok(()));
    let before = Deck {
        current: deck.current.clone(),
        current_qid: deck.current_qid,
        gain_db: deck.gain_db,
        playing: deck.playing,
    };
    let todo = deck.handle_cmd(play("2", 8, "http://y"), Err("no".to_string()));
    assert_eq!(deck, before);
    assert_eq!(todo, vec![PlayerTodo::Reply(Err(PlayerError::Backend("no".to_string())))]);
    assert_eq!(PlayerError::Backend("no".to_string()).message(), "player backend: no");
    assert_eq!(PlayerError::Gone.message(), "player actor is gone");
}

#[test]
fn a_replaced_file_is_not_told_as_an_end() {
    let mut deck = Deck::new();
    deck.handle_cmd(play("1", 7, "http://x"), Ok(()));
    assert!(deck.on_end_file(MPV_END_FILE_REASON_STOP).is_empty());
    let todo = deck.on_end_file(MPV_END_FILE_REASON_EOF);
    assert!(todo.contains(&PlayerTodo::Send(PlayerEvent::Eof {
        song: Some(SongId("1".into())),
        queue_id: Some(QueueId(7)),
    })));
    let again = deck.on_end_file(MPV_END_FILE_REASON_EOF);
    assert!(!again.iter().any(|t| matches!(t, PlayerTodo::Send(PlayerEvent::Eof { .. }))));
}

#[test]
fn levels_are_read_from_the_meter() {
    let rows = vec![
        ("lavfi.astats.Overall.RMS_level".to_string(), MeterValue::Text("-20.5".to_string())),
        ("lavfi.astats.Overall.Peak_level".to_string(), MeterValue::Number(exact(-12.0))),
    ];
    assert_eq!(parse_astats_levels(&rows), Some((exact(-20.5), exact(-12.0))));
    let silent = vec![
        ("a.RMS_level".to_string(), MeterValue::Text("-inf".to_string())),
        ("a.Peak_level".to_string(), MeterValue::Text("-inf".to_string())),
    ];
    assert_eq!(
        parse_astats_levels(&silent),
        Some((Real::Finite(VIZ_FLOOR_DBFS), Real::Finite(VIZ_FLOOR_DBFS)))
    );
    assert_eq!(parse_astats_levels(&[]), None);
}

#[test]
fn an_address_is_quoted_for_the_output() {
    let q = quote("http://x/a");
    assert!(q.starts_with('"') && q.ends_with('"') && q.contains("http://x/a"));
    let calls = output_calls(&play("1", 7, "http://x/a"));
    assert!(calls.iter().any(|c| matches!(c, OutputCall::Command(name, _) if name == "loadfile")));
}

#[test]
fn only_a_device_sounds() {
    let null = output_properties(&AudioOut::Null);
    assert!(null.contains(&("ao".to_string(), "null".to_string())));
    assert!(output_properties(&AudioOut::Device).iter().all(|(k, v)| !(k == "ao" && v == "null")));
    let file = output_properties(&AudioOut::File("/tmp/a.wav".to_string()));
    assert!(file.iter().any(|(_, v)| v == "/tmp/a.wav"));
}

#[test]
fn settings_have_their_levels() {
    assert_eq!(mpv_volume_to_db(0), Real::Finite(SYNTH_FLOOR_DB));
    assert_eq!(mpv_volume_to_db(100), exact(0.0));
    for v in 1..=100u8 {
        let exact = 60.0 * (v as f64 / 100.0).log10();
        match mpv_volume_to_db(v) {
            Real::Finite(n) => assert!((n as f64 / 1e9 - exact).abs() < 1e-6, "vol {v}: {n}"),
            other => panic!("got {other:?}"),
        }
    }
}
