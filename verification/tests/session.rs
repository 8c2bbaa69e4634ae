use hypodj::mpd::command::{MpdCommand, NlCmd};
use hypodj::mpd::response::{write_response, MpdResponse};
use hypodj::mpd::session::{Conn, Phase, Todo};

fn sent(t: Todo) -> String {
    match t {
        Todo::Send(b) => String::from_utf8(b).unwrap(),
        other => panic!("got {other:?}"),
    }
}

#[test]
fn a_connection_is_greeted() {
    let (conn, bytes) = Conn::open(7);
    assert_eq!(String::from_utf8(bytes).unwrap(), "OK MPD 0.23.0\n");
    assert!(matches!(conn.phase, Phase::Ready));
}

#[test]
fn a_request_is_answered_with_ok() {
    let (conn, _) = Conn::open(7);
    let (conn, todo) = conn.on_line("status\n");
    assert!(matches!(todo, Todo::Handle(MpdCommand::Status)));
    let (conn, todo) = conn.on_response(&MpdResponse::pairs().pair("volume", "50").build());
    assert_eq!(sent(todo), "volume: 50\nOK\n");
    assert!(matches!(conn.phase, Phase::Ready));
}

#[test]
fn a_refused_request_is_answered_with_its_reason_alone() {
    let (conn, _) = Conn::open(7);
    let (conn, _) = conn.on_line("frob\n");
    let (_, todo) = conn.on_response(&MpdResponse::Ack {
        code: 5,
        command: "frob".into(),
        message: "unknown command \"frob\"".into(),
    });
    assert_eq!(sent(todo), "ACK [5@0] {frob} unknown command \"frob\"\n");
}

#[test]
fn a_list_is_answered_as_a_whole() {
    let (conn, _) = Conn::open(7);
    let (conn, todo) = conn.on_line("command_list_ok_begin\n");
    assert!(matches!(todo, Todo::Read));
    let (conn, _) = conn.on_line("ping\n");
    let (conn, _) = conn.on_line("stop\n");
    let (conn, todo) = conn.on_line("command_list_end\n");
    assert!(matches!(todo, Todo::Handle(MpdCommand::Ping)));
    let (conn, todo) = conn.on_response(&MpdResponse::ok());
    assert!(matches!(todo, Todo::Handle(MpdCommand::Stop)));
    let (conn, todo) = conn.on_response(&MpdResponse::ok());
    assert_eq!(sent(todo), "list_OK\nlist_OK\nOK\n");
    assert!(matches!(conn.phase, Phase::Ready));
}

#[test]
fn a_list_ends_at_the_first_refusal() {
    let (conn, _) = Conn::open(7);
    let (conn, _) = conn.on_line("command_list_begin\n");
    let (conn, _) = conn.on_line("ping\n");
    let (conn, _) = conn.on_line("frob\n");
    let (conn, _) = conn.on_line("stop\n");
    let (conn, _) = conn.on_line("command_list_end\n");
    let (conn, _) = conn.on_response(&MpdResponse::ok());
    let (conn, todo) = conn.on_response(&MpdResponse::Ack {
        code: 5,
        command: "frob".into(),
        message: "no".into(),
    });
    assert_eq!(sent(todo), "ACK [5@1] {frob} no\n");
    assert!(matches!(conn.phase, Phase::Ready));
}

#[test]
fn waiting_ends_with_a_change_or_a_line() {
    let (conn, _) = Conn::open(7);
    let (conn, todo) = conn.on_line("idle player mixer\n");
    match todo {
        Todo::Wait(subsystems) => {
            assert_eq!(subsystems, vec!["player".to_string(), "mixer".to_string()])
        }
        other => panic!("got {other:?}"),
    }
    let (conn, todo) = conn.on_change(Some("player"));
    assert_eq!(sent(todo), "changed: player\nOK\n");
    let (conn, _) = conn.on_line("idle\n");
    let (conn, todo) = conn.on_line("noidle\n");
    assert_eq!(sent(todo), "OK\n");
    let (conn, todo) = conn.on_end();
    assert!(matches!(todo, Todo::Close));
    assert!(matches!(conn.phase, Phase::Closed));
}

#[test]
fn natural_language_is_stamped_with_the_connection() {
    let (conn, _) = Conn::open(0xDEAD);
    let (_, todo) = conn.on_line("nl confirm nl-abc\n");
    match todo {
        Todo::Handle(MpdCommand::Nl(NlCmd::Confirm { owner, token })) => {
            assert_eq!(owner, 0xDEAD);
            assert_eq!(token, "nl-abc");
        }
        other => panic!("got {other:?}"),
    }
}

#[test]
fn bytes_are_framed_by_their_length() {
    let mut buf = Vec::new();
    assert!(write_response(
        &mut buf,
        &MpdResponse::Binary { total: 10, chunk: vec![0xff, 0x00] },
        false,
        0
    ));
    assert_eq!(buf, b"size: 10\nbinary: 2\n\xff\x00\n".to_vec());
}

#[test]
fn text_beyond_ascii_is_written_whole() {
    let mut buf = Vec::new();
    let title = "\u{e9}\u{2665}\u{1f3b5}";
    write_response(&mut buf, &MpdResponse::pairs().pair("Title", title).build(), false, 0);
    assert_eq!(String::from_utf8(buf).unwrap(), format!("Title: {title}\n"));
}
