//! One connection: request lines, lists of commands, and waiting for changes.
//!
//! A connection is a state. It is told what arrived (a line, the answer of the handler,
//! a change, the end of the stream) and says what is to be done next.

use vstd::prelude::*;

use crate::mpd::command;
use crate::mpd::command::{MpdCommand, ADVERTISED_MPD_VERSION};
use crate::mpd::response;
use crate::mpd::response::MpdResponse;
use crate::text;

verus! {

/// What a connection waits for.
#[derive(Debug)]
pub enum Phase {
    /// A request line.
    Ready,
    /// The answer to a command of its own.
    Single,
    /// The rest of a list of commands.
    Collecting {
        /// Whether each answer of the list is marked.
        list_ok: bool,
        /// The lines so far.
        lines: Vec<String>,
    },
    /// The answer to a command of a list.
    Running {
        /// Whether each answer of the list is marked.
        list_ok: bool,
        /// The lines of the list.
        lines: Vec<String>,
        /// Which line is answered next.
        next: usize,
        /// The answers so far, as they are written.
        buf: Vec<u8>,
    },
    /// A change, or a line that ends the waiting.
    Idling,
    /// Nothing: the connection has ended.
    Closed,
}

/// A connection.
#[derive(Debug)]
pub struct Conn {
    /// The key that its requests in natural language are stamped with.
    pub owner_key: u64,
    /// What it waits for.
    pub phase: Phase,
}

/// What is to be done next.
#[derive(Debug)]
pub enum Todo {
    /// Read the next line.
    Read,
    /// Have the command handled.
    Handle(MpdCommand),
    /// Wait for a change in one of these, or for a line.
    Wait(Vec<String>),
    /// Write these bytes, and read the next line.
    Send(Vec<u8>),
    /// End the connection.
    Close,
}

/// These bytes are to be written.
pub open spec fn sends(todo: Todo, b: Seq<u8>) -> bool {
    todo matches Todo::Send(v) && v@ == b
}

/// The greeting of a connection.
pub open spec fn greeting_bytes() -> Seq<u8> {
    response::bytes("OK MPD "@ + ADVERTISED_MPD_VERSION@ + "\n"@)
}

/// The line that ends a successful answer.
pub open spec fn ok_bytes() -> Seq<u8> {
    response::bytes("OK\n"@)
}

/// A command that a line reads as, stamped with the key of the connection.
pub open spec fn reads_stamped(line: Seq<char>, key: u64, cmd: MpdCommand) -> bool {
    exists|c: MpdCommand| #[trigger] command::reads_line(line, c) && cmd == command::stamped(c, key)
}

/// A request line without its end.
pub open spec fn request(line: Seq<char>) -> Seq<char> {
    text::trim_end_in(line, text::line_ends())
}

/// What a line does to a connection that is ready for a request.
pub open spec fn ready_line(key: u64, line: Seq<char>, phase: Phase, todo: Todo) -> bool {
    let t = request(line);
    if t == "command_list_begin"@ || t == "command_list_ok_begin"@ {
        &&& phase matches Phase::Collecting { list_ok, lines }
        &&& list_ok == (t == "command_list_ok_begin"@)
        &&& lines@.len() == 0
        &&& todo is Read
    } else {
        exists|c: MpdCommand| #[trigger]
            command::reads_line(t, c) && match c {
                MpdCommand::Idle(subsystems) => phase is Idling && todo == Todo::Wait(subsystems),
                MpdCommand::NoIdle => phase is Ready && sends(todo, ok_bytes()),
                _ => phase is Single && todo == Todo::Handle(command::stamped(c, key)),
            }
    }
}

/// What a line does to a connection that collects a list of commands.
pub open spec fn collected_line(
    key: u64,
    list_ok: bool,
    lines: Seq<String>,
    line: Seq<char>,
    phase: Phase,
    todo: Todo,
) -> bool {
    let t = request(line);
    if t != "command_list_end"@ {
        &&& phase matches Phase::Collecting { list_ok: l, lines: v }
        &&& l == list_ok
        &&& text::texts(v@) == text::texts(lines).push(t)
        &&& todo is Read
    } else if lines.len() == 0 {
        phase is Ready && sends(todo, ok_bytes())
    } else {
        &&& phase matches Phase::Running { list_ok: l, lines: v, next, buf }
        &&& l == list_ok
        &&& v@ == lines
        &&& next == 0
        &&& buf@.len() == 0
        &&& todo matches Todo::Handle(cmd)
        &&& reads_stamped(lines[0]@, key, cmd)
    }
}

/// What the answer to the command at `next` does to a connection that runs a list.
pub open spec fn list_answer(
    key: u64,
    list_ok: bool,
    lines: Seq<String>,
    next: nat,
    buf: Seq<u8>,
    resp: MpdResponse,
    phase: Phase,
    todo: Todo,
) -> bool {
    let written = buf + response::wire(resp, list_ok, next);
    if resp is Ack {
        phase is Ready && sends(todo, written)
    } else if next + 1 == lines.len() {
        phase is Ready && sends(todo, written + ok_bytes())
    } else {
        &&& phase matches Phase::Running { list_ok: l, lines: v, next: n, buf: b }
        &&& l == list_ok
        &&& v@ == lines
        &&& n == next + 1
        &&& b@ == written
        &&& todo matches Todo::Handle(cmd)
        &&& reads_stamped(lines[next as int + 1]@, key, cmd)
    }
}

impl Conn {
    /// A list that runs still has a line to answer.
    pub open spec fn wf(self) -> bool {
        self.phase matches Phase::Running { list_ok, lines, next, buf } ==> next < lines@.len()
    }

    /// The connection reads a line next.
    pub open spec fn wants_line(self) -> bool {
        self.phase is Ready || self.phase is Collecting || self.phase is Idling
    }

    /// The connection awaits an answer of the handler.
    pub open spec fn wants_answer(self) -> bool {
        self.phase is Single || self.phase is Running
    }

    /// A new connection, and its greeting.
    pub fn open(owner_key: u64) -> (r: (Conn, Vec<u8>))
        ensures
            r.0.owner_key == owner_key,
            r.0.phase is Ready,
            r.0.wf(),
            r.1@ == greeting_bytes(),
    {
        let mut t = "OK MPD ".to_owned();
        t.append(ADVERTISED_MPD_VERSION);
        t.append("\n");
        let mut buf: Vec<u8> = Vec::new();
        response::push_text(&mut buf, t.as_str());
        assert(buf@ =~= greeting_bytes());
        (Conn { owner_key, phase: Phase::Ready }, buf)
    }

    /// A line arrived.
    pub fn on_line(self, line: &str) -> (r: (Conn, Todo))
        requires
            self.wf(),
            self.wants_line(),
        ensures
            r.0.wf(),
            r.0.owner_key == self.owner_key,
            match self.phase {
                Phase::Ready => ready_line(self.owner_key, line@, r.0.phase, r.1),
                Phase::Collecting { list_ok, lines } => collected_line(
                    self.owner_key,
                    list_ok,
                    lines@,
                    line@,
                    r.0.phase,
                    r.1,
                ),
                _ => r.0.phase is Ready && sends(r.1, ok_bytes()),
            },
    {
        let key: u64 = self.owner_key;
        match self.phase {
            Phase::Ready => {
                let t = text::trim_line_end(line);
                let (phase, todo) = ready_request(key, t.as_str());
                (Conn { owner_key: key, phase }, todo)
            },
            Phase::Collecting { list_ok, lines } => {
                let t = text::trim_line_end(line);
                if text::same(t.as_str(), "command_list_end") {
                    if lines.len() == 0 {
                        (Conn { owner_key: key, phase: Phase::Ready }, send_ok())
                    } else {
                        let cmd = stamped_command(lines[0].as_str(), key);
                        let buf: Vec<u8> = Vec::new();
                        let phase = Phase::Running { list_ok, lines, next: 0, buf };
                        (Conn { owner_key: key, phase }, Todo::Handle(cmd))
                    }
                } else {
                    broadcast use text::texts_push;

                    let mut lines = lines;
                    lines.push(t);
                    (Conn { owner_key: key, phase: Phase::Collecting { list_ok, lines } }, Todo::Read)
                }
            },
            _ => (Conn { owner_key: key, phase: Phase::Ready }, send_ok()),
        }
    }

    /// The handler answered.
    pub fn on_response(self, resp: &MpdResponse) -> (r: (Conn, Todo))
        requires
            self.wf(),
            self.wants_answer(),
        ensures
            r.0.wf(),
            r.0.owner_key == self.owner_key,
            match self.phase {
                Phase::Running { list_ok, lines, next, buf } => list_answer(
                    self.owner_key,
                    list_ok,
                    lines@,
                    next as nat,
                    buf@,
                    *resp,
                    r.0.phase,
                    r.1,
                ),
                _ => {
                    &&& r.0.phase is Ready
                    &&& r.1 matches Todo::Send(b)
                    &&& b@ == response::wire(*resp, false, 0) + (if resp is Ack {
                        Seq::empty()
                    } else {
                        ok_bytes()
                    })
                },
            },
    {
        let key: u64 = self.owner_key;
        match self.phase {
            Phase::Running { list_ok, lines, next, buf } => {
                let mut buf = buf;
                if !response::write_response(&mut buf, resp, list_ok, next) {
                    return (Conn { owner_key: key, phase: Phase::Ready }, Todo::Send(buf));
                }
                let n: usize = lines.len();
                if next == n - 1 {
                    response::push_text(&mut buf, "OK\n");
                    (Conn { owner_key: key, phase: Phase::Ready }, Todo::Send(buf))
                } else {
                    let cmd = stamped_command(lines[next + 1].as_str(), key);
                    let phase = Phase::Running { list_ok, lines, next: next + 1, buf };
                    (Conn { owner_key: key, phase }, Todo::Handle(cmd))
                }
            },
            _ => {
                let mut buf: Vec<u8> = Vec::new();
                if response::write_response(&mut buf, resp, false, 0) {
                    response::push_text(&mut buf, "OK\n");
                }
                assert(buf@ =~= response::wire(*resp, false, 0) + (if resp is Ack {
                    Seq::empty()
                } else {
                    ok_bytes()
                }));
                (Conn { owner_key: key, phase: Phase::Ready }, Todo::Send(buf))
            },
        }
    }

    /// The waiting ended: with a change, or with none.
    pub fn on_change(self, changed: Option<&str>) -> (r: (Conn, Todo))
        requires
            self.phase is Idling,
        ensures
            r.0.wf(),
            r.0.owner_key == self.owner_key,
            r.0.phase is Ready,
            r.1 matches Todo::Send(b) && b@ == (match changed {
                Some(s) => response::bytes("changed: "@ + s@ + "\n"@) + ok_bytes(),
                None => ok_bytes(),
            }),
    {
        let mut buf: Vec<u8> = Vec::new();
        if let Some(s) = changed {
            let mut t = "changed: ".to_owned();
            t.append(s);
            t.append("\n");
            response::push_text(&mut buf, t.as_str());
        }
        response::push_text(&mut buf, "OK\n");
        assert(buf@ =~= (match changed {
            Some(s) => response::bytes("changed: "@ + s@ + "\n"@) + ok_bytes(),
            None => ok_bytes(),
        }));
        (Conn { owner_key: self.owner_key, phase: Phase::Ready }, Todo::Send(buf))
    }

    /// The stream ended. Nothing more is written, and a list that was not complete is
    /// not run.
    pub fn on_end(self) -> (r: (Conn, Todo))
        ensures
            r.0.wf(),
            r.0.owner_key == self.owner_key,
            r.0.phase is Closed,
            r.1 is Close,
    {
        (Conn { owner_key: self.owner_key, phase: Phase::Closed }, Todo::Close)
    }
}

fn send_ok() -> (r: Todo)
    ensures
        r matches Todo::Send(b) && b@ == ok_bytes(),
{
    let mut buf: Vec<u8> = Vec::new();
    response::push_text(&mut buf, "OK\n");
    assert(buf@ =~= ok_bytes());
    Todo::Send(buf)
}

fn stamped_command(line: &str, key: u64) -> (r: MpdCommand)
    ensures
        reads_stamped(line@, key, r),
{
    let mut cmd = command::parse(line);
    let ghost c = cmd;
    command::stamp_nl_owner(&mut cmd, key);
    assert(command::reads_line(line@, c));
    cmd
}

fn ready_request(key: u64, t: &str) -> (r: (Phase, Todo))
    ensures
        forall|line: Seq<char>| #[trigger] request(line) == t@ ==> ready_line(key, line, r.0, r.1),
        r.0 !is Running,
{
    if text::same(t, "command_list_begin") {
        proof {
            reveal_strlit("command_list_begin");
            reveal_strlit("command_list_ok_begin");
            assert("command_list_begin"@.len() != "command_list_ok_begin"@.len());
        }
        return (Phase::Collecting { list_ok: false, lines: Vec::new() }, Todo::Read);
    }
    if text::same(t, "command_list_ok_begin") {
        return (Phase::Collecting { list_ok: true, lines: Vec::new() }, Todo::Read);
    }
    let cmd = command::parse(t);
    let ghost c = cmd;
    assert(command::reads_line(t@, c));
    match cmd {
        MpdCommand::Idle(subsystems) => (Phase::Idling, Todo::Wait(subsystems)),
        MpdCommand::NoIdle => (Phase::Ready, send_ok()),
        other => {
            let mut cmd = other;
            command::stamp_nl_owner(&mut cmd, key);
            (Phase::Single, Todo::Handle(cmd))
        },
    }
}

// ---------------------------------------------------------------------------
// What connections keep
// ---------------------------------------------------------------------------

/// The answers of a list of commands as they are written: in order, up to and with the
/// first error, and `OK` behind them where there is no error.
pub open spec fn list_reply(resps: Seq<MpdResponse>, list_ok: bool, next: nat, buf: Seq<u8>) -> Seq<
    u8,
>
    decreases resps.len() - next,
{
    if next >= resps.len() {
        buf + ok_bytes()
    } else {
        let written = buf + response::wire(resps[next as int], list_ok, next);
        if resps[next as int] is Ack {
            written
        } else {
            list_reply(resps, list_ok, next + 1, written)
        }
    }
}

/// The answers to the commands before `n`, as they are written.
pub open spec fn answers(resps: Seq<MpdResponse>, list_ok: bool, n: nat) -> Seq<u8>
    decreases n,
{
    if n == 0 {
        Seq::empty()
    } else {
        answers(resps, list_ok, (n - 1) as nat) + response::wire(
            resps[n as int - 1],
            list_ok,
            (n - 1) as nat,
        )
    }
}

/// The first error ends a list: what was answered up to it is written, it is the last,
/// and no `OK` follows.
pub proof fn a_list_ends_at_its_first_error(
    resps: Seq<MpdResponse>,
    list_ok: bool,
    k: nat,
    next: nat,
)
    requires
        next <= k < resps.len(),
        resps[k as int] is Ack,
        forall|i: int| 0 <= i < k ==> !(#[trigger] resps[i] is Ack),
    ensures
        list_reply(resps, list_ok, next, answers(resps, list_ok, next)) == answers(
            resps,
            list_ok,
            k + 1,
        ),
    decreases k - next,
{
    if next < k {
        assert(!(resps[next as int] is Ack));
        a_list_ends_at_its_first_error(resps, list_ok, k, next + 1);
    }
}

/// A list without an error is answered in full, and `OK` follows.
pub proof fn a_list_without_errors_is_answered(
    resps: Seq<MpdResponse>,
    list_ok: bool,
    next: nat,
)
    requires
        next <= resps.len(),
        forall|i: int| 0 <= i < resps.len() ==> !(#[trigger] resps[i] is Ack),
    ensures
        list_reply(resps, list_ok, next, answers(resps, list_ok, next)) == answers(
            resps,
            list_ok,
            resps.len(),
        ) + ok_bytes(),
    decreases resps.len() - next,
{
    if next < resps.len() {
        assert(!(resps[next as int] is Ack));
        a_list_without_errors_is_answered(resps, list_ok, next + 1);
    }
}

/// The step that a connection takes on an answer is the step that the reply of the whole
/// list takes: what it sends at the end is that reply.
pub proof fn list_steps_make_the_reply(
    key: u64,
    list_ok: bool,
    lines: Seq<String>,
    next: nat,
    buf: Seq<u8>,
    resps: Seq<MpdResponse>,
    phase: Phase,
    todo: Todo,
)
    requires
        next < lines.len() == resps.len(),
        list_answer(key, list_ok, lines, next, buf, resps[next as int], phase, todo),
    ensures
        todo matches Todo::Send(b) ==> b@ == list_reply(resps, list_ok, next, buf),
        phase matches Phase::Running { list_ok: l, lines: v, next: n, buf: b } ==> list_reply(
            resps,
            list_ok,
            n as nat,
            b@,
        ) == list_reply(resps, list_ok, next, buf),
{
    reveal_with_fuel(list_reply, 2);
}

/// Stamping touches nothing but the owner of a request in natural language.
pub proof fn stamping_leaves_other_commands(cmd: MpdCommand, key: u64)
    requires
        !(cmd is Nl),
    ensures
        command::stamped(cmd, key) == cmd,
{
}

/// A request in natural language carries the key of its connection, and is what it was
/// otherwise.
pub proof fn a_request_carries_its_owner(req: String, token: String, owner: u64, key: u64)
    ensures
        command::stamped(MpdCommand::Nl(command::NlCmd::Translate { req, owner }), key)
            == MpdCommand::Nl(command::NlCmd::Translate { req, owner: key }),
        command::stamped(MpdCommand::Nl(command::NlCmd::Confirm { token, owner }), key)
            == MpdCommand::Nl(command::NlCmd::Confirm { token, owner: key }),
        command::stamped(MpdCommand::Nl(command::NlCmd::Cancel { token, owner }), key)
            == MpdCommand::Nl(command::NlCmd::Cancel { token, owner: key }),
{
}

/// What ends a line is no part of the request, and nothing else is cut off.
pub proof fn a_request_is_its_line(t: Seq<char>)
    requires
        t.len() > 0 ==> t.last() != '\n' && t.last() != '\r',
    ensures
        request(t) == t,
        request(t + seq!['\n']) == t,
        request(t + seq!['\r', '\n']) == t,
{
    let a = t + seq!['\n'];
    assert(a.drop_last() =~= t);
    let b = t + seq!['\r', '\n'];
    assert(b.drop_last() =~= t + seq!['\r']);
    assert((t + seq!['\r']).drop_last() =~= t);
    reveal_with_fuel(text::trim_end_in, 4);
}

/// A connection that is ready begins a list where one is begun, and marks its answers just
/// where that was asked for; it waits where it is told to, is not stirred by the end of a
/// waiting that never began, and has every other command handled as it was read.
pub proof fn a_ready_connection_does_what_it_is_told(
    key: u64,
    line: Seq<char>,
    phase: Phase,
    todo: Todo,
)
    requires
        ready_line(key, line, phase, todo),
    ensures
        request(line) == "command_list_begin"@ ==> todo is Read
            && (phase matches Phase::Collecting { list_ok, lines } && !list_ok
                && lines@.len() == 0),
        request(line) == "command_list_ok_begin"@ ==> todo is Read
            && (phase matches Phase::Collecting { list_ok, lines } && list_ok && lines@.len() == 0),
        todo matches Todo::Handle(cmd) ==> phase is Single && exists|c: MpdCommand| #[trigger]
            command::reads_line(request(line), c) && cmd == command::stamped(c, key) && !(
            c is Idle) && !(c is NoIdle),
        todo matches Todo::Wait(subs) ==> phase is Idling && command::reads_line(
            request(line),
            MpdCommand::Idle(subs),
        ),
        todo matches Todo::Send(b) ==> phase is Ready && b@ == response::bytes("OK\n"@)
            && command::reads_line(request(line), MpdCommand::NoIdle),
{
    reveal_strlit("command_list_begin");
    reveal_strlit("command_list_ok_begin");
    assert("command_list_begin"@.len() != "command_list_ok_begin"@.len());
}

/// A list keeps its lines in order until it ends; an empty one is answered at once, and any
/// other begins with its first line.
pub proof fn a_list_is_run_in_order(
    key: u64,
    list_ok: bool,
    lines: Seq<String>,
    line: Seq<char>,
    phase: Phase,
    todo: Todo,
)
    requires
        collected_line(key, list_ok, lines, line, phase, todo),
    ensures
        request(line) != "command_list_end"@ ==> todo is Read
            && (phase matches Phase::Collecting { list_ok: l, lines: v } && l == list_ok
            && text::texts(v@) == text::texts(lines).push(request(line))),
        request(line) == "command_list_end"@ && lines.len() == 0 ==> phase is Ready
            && (todo matches Todo::Send(b) && b@ == response::bytes("OK\n"@)),
        request(line) == "command_list_end"@ && lines.len() > 0 ==> (
        phase matches Phase::Running { list_ok: l, lines: v, next, buf } && l == list_ok && v@
            == lines && next == 0 && buf@.len() == 0) && (todo matches Todo::Handle(cmd)
            && reads_stamped(lines[0]@, key, cmd)),
{
}

} // verus!
