use hypodj::client::nl::{
    armed_line, map_ack_reason, nl_request, not_understood_hint, quote_arg, split_echo, token_from_pairs,
};
use hypodj::mpd::command::{parse, MpdCommand, NlCmd};
use hypodj::mpd::tokens::tokenize;

#[test]
fn nl_request_escapes_backslash_then_quote() {
    let got = nl_request("a\\b\"c");
    assert_eq!(got, "nl \"a\\\\b\\\"c\"");
}

#[test]
fn quote_arg_wraps_spaces_and_escapes() {
    assert_eq!(quote_arg("song/al 1/track 2"), "\"song/al 1/track 2\"");
    assert_eq!(quote_arg("Chill Vibes"), "\"Chill Vibes\"");
    assert_eq!(quote_arg("a\\b\"c"), "\"a\\\\b\\\"c\"");
}

#[test]
fn nl_request_plain() {
    assert_eq!(nl_request("stop after this album"), "nl \"stop after this album\"");
}

#[test]
fn token_parse() {
    let pairs = vec![
        ("nl_echo".to_string(), "via rules | [1] fade out".to_string()),
        ("nl_token".to_string(), "nl-1a2b3c".to_string()),
    ];
    assert_eq!(token_from_pairs(&pairs), Some("nl-1a2b3c".to_string()));
}

#[test]
fn echo_split_trust_steps_note() {
    let echo = "via rules | [1] fade out over 10s | [2] stop after this track | NOTE: this appends tracks and fades in";
    let parts = split_echo(echo);
    assert_eq!(parts.trust, Some("via rules".to_string()));
    assert_eq!(
        parts.steps,
        vec!["[1] fade out over 10s".to_string(), "[2] stop after this track".to_string()]
    );
    assert_eq!(parts.note, Some("NOTE: this appends tracks and fades in".to_string()));
}

#[test]
fn echo_split_local_model_no_note() {
    let parts = split_echo("via local model | [1] wake at 07:00");
    assert_eq!(parts.trust, Some("via local model".to_string()));
    assert_eq!(parts.steps, vec!["[1] wake at 07:00".to_string()]);
    assert_eq!(parts.note, None);
}

#[test]
fn confirm_plan_id_map() {
    assert_eq!(armed_line("3"), "armed (plan 3)");
}

#[test]
fn ack_reason_map() {
    assert_eq!(
        map_ack_reason("nl translator not available"),
        "natural language is not enabled on this server (configure a translator in the daemon)"
    );
    assert!(map_ack_reason("not understood").contains("fade out"));
    assert!(map_ack_reason("ambiguous: which track").contains("ambiguous"));
    assert!(map_ack_reason("nothing to act on: nothing playing to match")
        .contains("nothing playing to match"));
    assert_eq!(
        map_ack_reason("no such nl token"),
        "that plan expired, run the phrase again"
    );
    assert!(map_ack_reason("plan no longer valid: queue changed").contains("queue changed"));
}

#[test]
fn a_quoted_argument_is_read_as_it_was() {
    for s in ["a\\b\"c", "", " ", "plain", "\\"] {
        let (_, args) = tokenize(&format!("playlistadd {}", quote_arg(s))).unwrap();
        assert_eq!(args, vec![s.to_string()]);
    }
}

#[test]
fn a_phrase_reaches_the_translator_whole() {
    match parse(&nl_request("say \"hi\" \\ twice")) {
        MpdCommand::Nl(NlCmd::Translate { req, .. }) => assert_eq!(req, "say \"hi\" \\ twice"),
        other => panic!("got {other:?}"),
    }
}

#[test]
fn an_unknown_reason_is_shown_as_it_is() {
    assert_eq!(map_ack_reason("not understood"), not_understood_hint());
    assert!(map_ack_reason("something else").contains("something else"));
}
