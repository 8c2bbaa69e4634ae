use hypodj::client::mpd::{
    ack_message, is_greeting, parse_changed, parse_pairs, reply_line, MpdError, Progress, Reply, ReplyLine,
};

fn v(lines: &[&str]) -> Vec<String> {
    lines.iter().map(|s| s.to_string()).collect()
}

#[test]
fn framing_split_on_first_colon_space_only() {
    let p = parse_pairs(&v(&["file: http://host:8000/stream", "Title: A: B: C"]));
    assert_eq!(p[0], ("file".into(), "http://host:8000/stream".into()));
    assert_eq!(p[1], ("Title".into(), "A: B: C".into()));
}

#[test]
fn framing_ack_message_after_last_brace() {
    assert_eq!(ack_message("ACK [50@0] {nl} no such nl token"), "no such nl token");
    assert_eq!(
        ack_message("ACK [5@0] {nl} plan no longer valid: queue changed"),
        "plan no longer valid: queue changed"
    );
}

#[test]
fn parse_changed_tolerates_zero_n_and_unknown() {
    assert_eq!(parse_changed(&v(&["changed: player"])), vec!["player".to_string()]);
    assert_eq!(
        parse_changed(&v(&["changed: playlist", "changed: mixer"])),
        vec!["playlist".to_string(), "mixer".to_string()]
    );
    assert!(parse_changed(&v(&["OK"])).is_empty());
    assert!(parse_changed(&v(&[])).is_empty());
    assert_eq!(parse_changed(&v(&["changed: foo"])), vec!["foo".to_string()]);
    assert!(parse_changed(&v(&["OK MPD 0.23.0", "list_OK"])).is_empty());
}

#[test]
fn bare_colon_is_not_a_separator() {
    assert!(parse_pairs(&v(&["notapair:value"])).is_empty());
}

#[test]
fn a_reply_is_read_to_its_end() {
    let mut r = Reply::begin();
    assert!(matches!(r.on_line("volume: 50".to_string()), Progress::More));
    assert!(matches!(r.on_line("OK".to_string()), Progress::Done));
    assert_eq!(parse_pairs(&r.body), vec![("volume".to_string(), "50".to_string())]);

    let mut r = Reply::begin();
    match r.on_line("ACK [5@0] {frob} unknown command".to_string()) {
        Progress::Refused(MpdError::Ack(why)) => assert_eq!(why, "unknown command"),
        other => panic!("got {other:?}"),
    }
}

#[test]
fn greetings_and_replies_are_told_apart() {
    assert!(is_greeting("OK MPD 0.23.0"));
    assert!(!is_greeting("HTTP/1.1 400"));
    assert_eq!(reply_line("OK"), ReplyLine::Done);
    assert_eq!(reply_line("Title: OK"), ReplyLine::Body);
    assert_eq!(reply_line("ACK [5@0] {x} no"), ReplyLine::Refused("no".to_string()));
}

#[test]
fn every_error_has_its_words() {
    assert_eq!(MpdError::Ack("no such nl token".to_string()).message(), "no such nl token");
    assert!(MpdError::ConnectionRefused("127.0.0.1:6600".to_string()).message().contains("127.0.0.1:6600"));
    assert!(MpdError::BadGreeting("HTTP".to_string()).message().contains("HTTP"));
    assert!(MpdError::Io("broken pipe".to_string()).message().contains("broken pipe"));
}

#[test]
fn a_refusal_without_a_brace_is_shown_whole() {
    assert_eq!(ack_message("ACK boom"), "ACK boom");
    assert_eq!(ack_message("ACK"), "ACK");
    assert_eq!(ack_message("ACK {x}  y "), "y");
}
