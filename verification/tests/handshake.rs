use hypodj::cli::args::{confirms, parse_args};
use hypodj::cli::handshake::{
    favorite_request, on_answer, on_confirmation, on_translation, Confirmed, Heard,
};
use hypodj::client::mpd::MpdError;

fn p(pairs: &[(&str, &str)]) -> Vec<(String, String)> {
    pairs.iter().map(|(k, v)| (k.to_string(), v.to_string())).collect()
}

fn args(words: &[&str]) -> Vec<String> {
    words.iter().map(|s| s.to_string()).collect()
}

#[test]
fn flags_come_before_words() {
    let a = parse_args(args(&["--host", "h", "--port", "6601", "play", "--help"])).unwrap();
    assert_eq!(a.host.as_deref(), Some("h"));
    assert_eq!(a.port, Some(6601));
    assert!(!a.help);
    assert_eq!(a.words, args(&["play", "--help"]));
    assert!(parse_args(args(&["-h"])).unwrap().help);
    assert!(parse_args(args(&[])).unwrap().words.is_empty());
}

#[test]
fn bad_flags_are_refused() {
    assert_eq!(parse_args(args(&["--host"])).unwrap_err(), "--host needs a value");
    assert_eq!(parse_args(args(&["--port"])).unwrap_err(), "--port needs a value");
    assert_eq!(parse_args(args(&["--port", "66000"])).unwrap_err(), "bad port: 66000");
}

#[test]
fn only_a_yes_confirms() {
    assert!(confirms(Some(" Y \n")));
    assert!(confirms(Some("yes\n")));
    assert!(!confirms(Some("\n")));
    assert!(!confirms(Some("yeah")));
    assert!(!confirms(None));
}

#[test]
fn a_plan_is_shown_and_asked_about() {
    let reply = Ok(p(&[
        ("nl_echo", "via rules | [1] fade out over 10s | NOTE: this appends tracks and fades in"),
        ("nl_token", "nl-1a2b3c"),
    ]));
    match on_translation(reply) {
        Heard::Ask { lines, token } => {
            assert_eq!(token, "nl-1a2b3c");
            assert_eq!(
                lines,
                args(&[
                    "(via rules)",
                    "[1] fade out over 10s",
                    "\n! NOTE: this appends tracks and fades in",
                ])
            );
        }
        other => panic!("got {other:?}"),
    }
}

#[test]
fn without_a_plan_nothing_is_asked() {
    assert!(matches!(
        on_translation(Ok(p(&[]))),
        Heard::Say(s) if s == "the server did not return a plan to confirm"
    ));
    assert!(matches!(
        on_translation(Err(MpdError::Ack("no such nl token".to_string()))),
        Heard::Say(s) if s == "that plan expired, run the phrase again"
    ));
    assert!(matches!(
        on_translation(Err(MpdError::Io("gone".to_string()))),
        Heard::Fail(MpdError::Io(_))
    ));
}

#[test]
fn the_answer_decides() {
    assert_eq!(on_answer(true, "nl-1"), "nl confirm nl-1");
    assert_eq!(on_answer(false, "nl-1"), "nl cancel nl-1");
    match on_confirmation(Ok(p(&[("plan_id", "3"), ("x", "y"), ("plan_id", "4")]))) {
        Confirmed::Armed(lines) => assert_eq!(lines, args(&["armed (plan 3)", "armed (plan 4)"])),
        other => panic!("got {other:?}"),
    }
    assert!(matches!(
        on_confirmation(Err(MpdError::Ack("no such nl token".to_string()))),
        Confirmed::Say(_)
    ));
}

#[test]
fn a_stream_is_no_favorite() {
    assert_eq!(
        favorite_request(Some("song/a b")).as_deref(),
        Some("playlistadd Starred \"song/a b\"")
    );
    assert_eq!(favorite_request(Some("http://radio.example/stream")), None);
    assert_eq!(favorite_request(None), None);
}
