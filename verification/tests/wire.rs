use hypodj::cli::handshake::{favorite_request, on_answer};
use hypodj::client::grounding::search_line;
use hypodj::client::mpd::{is_greeting, parse_changed, parse_pairs, MpdError, Progress, Reply};
use hypodj::client::nl::{nl_request, split_echo};
use hypodj::client::route::{route, Action};
use hypodj::echo::describe_batch;
use hypodj::mpd::command::{parse, MpdCommand, NlCmd};
use hypodj::mpd::response::MpdResponse;
use hypodj::mpd::session::{Conn, Todo};
use hypodj::nl::NlSource;
use hypodj::number::Real;
use hypodj::plan::{Action as Deed, FadeIntentIr, RawPlan, RawTrigger, Selector};

/// What a client reads of the bytes that a server sent.
fn read(todo: Todo) -> Result<Vec<String>, MpdError> {
    let bytes = match todo {
        Todo::Send(b) => b,
        other => panic!("got {other:?}"),
    };
    let mut reply = Reply::begin();
    for line in String::from_utf8(bytes).unwrap().lines() {
        match reply.on_line(line.to_string()) {
            Progress::More => {}
            Progress::Done => return Ok(reply.body),
            Progress::Refused(e) => return Err(e),
        }
    }
    panic!("the answer did not end")
}

fn answered(request: &str, resp: MpdResponse) -> Result<Vec<String>, MpdError> {
    let (conn, _) = Conn::open(1);
    let (conn, _) = conn.on_line(request);
    let (_, todo) = conn.on_response(&resp);
    read(todo)
}

fn command(words: &str) -> MpdCommand {
    let args: Vec<String> = words.split_whitespace().map(str::to_string).collect();
    match route(&args) {
        Action::Command(line) => parse(&line),
        other => panic!("got {other:?}"),
    }
}

#[test]
fn pairs_cross_the_wire() {
    let body = answered(
        "currentsong\n",
        MpdResponse::pairs()
            .pair("Title", "Side A: The Élan")
            .pair("Artist", "OK")
            .pair("Album", "")
            .build(),
    )
    .unwrap();
    assert_eq!(
        parse_pairs(&body),
        vec![
            ("Title".to_string(), "Side A: The Élan".to_string()),
            ("Artist".to_string(), "OK".to_string()),
            ("Album".to_string(), String::new()),
        ]
    );
}

#[test]
fn an_empty_answer_crosses_the_wire() {
    assert!(answered("play\n", MpdResponse::ok()).unwrap().is_empty());
}

#[test]
fn reasons_cross_the_wire() {
    let refused = answered(
        "nl x\n",
        MpdResponse::Ack { code: 50, command: "{nl}".into(), message: " not understood ".into() },
    );
    assert_eq!(refused.unwrap_err(), MpdError::Ack("not understood".into()));
}

#[test]
fn changes_cross_the_wire() {
    let (conn, hello) = Conn::open(1);
    assert!(is_greeting(String::from_utf8(hello).unwrap().trim_end()));
    let (conn, _) = conn.on_line("idle\n");
    let (_, todo) = conn.on_change(Some("stored_playlist"));
    assert_eq!(parse_changed(&read(todo).unwrap()), vec!["stored_playlist".to_string()]);
}

#[test]
fn no_phrase_is_taken_for_an_answer() {
    for phrase in ["confirm nl-1a", "cancel nl-1a", "fade\nout"] {
        match parse(&nl_request(phrase)) {
            MpdCommand::Nl(NlCmd::Translate { req, owner }) => {
                assert_eq!(req, phrase.replace('\n', " "));
                assert_eq!(owner, 0);
            }
            other => panic!("got {other:?}"),
        }
    }
}

#[test]
fn answers_to_plans_cross_the_wire() {
    match parse(&on_answer(true, "nl-0aF")) {
        MpdCommand::Nl(NlCmd::Confirm { token, .. }) => assert_eq!(token, "nl-0aF"),
        other => panic!("got {other:?}"),
    }
    match parse(&on_answer(false, "nl-0aF")) {
        MpdCommand::Nl(NlCmd::Cancel { token, .. }) => assert_eq!(token, "nl-0aF"),
        other => panic!("got {other:?}"),
    }
}

#[test]
fn favorites_cross_the_wire() {
    match parse(&favorite_request(Some("song/a \"b\" c")).unwrap()) {
        MpdCommand::PlaylistAdd(list, track) => {
            assert_eq!(list, "Starred");
            assert_eq!(track, "song/a \"b\" c");
        }
        other => panic!("got {other:?}"),
    }
}

#[test]
fn searches_cross_the_wire() {
    match parse(&search_line("title \\ x")) {
        MpdCommand::Search(f) => {
            assert_eq!(f, vec![("any".to_string(), "title \\ x".to_string())])
        }
        other => panic!("got {other:?}"),
    }
}

#[test]
fn controls_cross_the_wire() {
    assert!(matches!(command("play"), MpdCommand::Play(None)));
    assert!(matches!(command("pause"), MpdCommand::Pause(None)));
    assert!(matches!(command("resume the music"), MpdCommand::Pause(Some(false))));
    assert!(matches!(command("stop"), MpdCommand::Stop));
    assert!(matches!(command("skip this"), MpdCommand::Next));
    assert!(matches!(command("back"), MpdCommand::Previous));
    assert!(matches!(command("vol 070"), MpdCommand::SetVol(70)));
    assert!(matches!(command("volume 100"), MpdCommand::SetVol(100)));
}

#[test]
fn plans_are_shown_as_they_were_said() {
    let plan = |action| RawPlan {
        version: 1,
        trigger: RawTrigger::Immediate,
        action,
        once: true,
        origin: String::new(),
    };
    let plans = vec![
        plan(Deed::Fade(FadeIntentIr::Out { secs: Real::Finite(600_000_000_000) })),
        plan(Deed::Enqueue { selector: Selector::Genre("jazz".into()), count: 3 }),
    ];
    let parts = split_echo(&describe_batch(&plans, NlSource::Llm));
    assert_eq!(parts.trust.as_deref(), Some("via local model"));
    assert_eq!(parts.steps.len(), 2);
    assert_eq!(parts.steps[0], "[1] fade OUT over 10 min now");
    assert!(parts.steps[1].starts_with("[2] add 3 "));
    assert_eq!(parts.note, None);
}

#[test]
fn a_key_may_hold_a_colon_or_a_space() {
    let body = answered(
        "status\n",
        MpdResponse::pairs().pair("a:b c:", " x: y").pair("", "ACK").build(),
    )
    .unwrap();
    assert_eq!(
        parse_pairs(&body),
        vec![("a:b c:".to_string(), " x: y".to_string()), (String::new(), "ACK".to_string())]
    );
}
