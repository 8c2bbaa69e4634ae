//! Responses, and how they are written to the wire.

use vstd::prelude::*;

use crate::number;
use crate::text;

verus! {

/// The answer to a command.
#[derive(Debug)]
pub enum MpdResponse {
    /// Keys and values.
    Pairs(Vec<(String, String)>),
    /// A part of a binary object.
    Binary {
        /// The size of the whole.
        total: usize,
        /// The part.
        chunk: Vec<u8>,
    },
    /// An error.
    Ack {
        /// Its code.
        code: u32,
        /// The command that failed.
        command: String,
        /// What went wrong.
        message: String,
    },
}

impl MpdResponse {
    /// Starts an answer of keys and values.
    pub fn pairs() -> (r: PairsBuilder)
        ensures
            r@ == Seq::<(Seq<char>, Seq<char>)>::empty(),
    {
        let v: Vec<(String, String)> = Vec::new();
        assert(text::pairs(v@) =~= Seq::<(Seq<char>, Seq<char>)>::empty());
        PairsBuilder(v)
    }

    /// The answer that says nothing but that all is well.
    pub fn ok() -> (r: MpdResponse)
        ensures
            r matches MpdResponse::Pairs(p) && p@.len() == 0,
    {
        MpdResponse::Pairs(Vec::new())
    }
}

/// An answer of keys and values in the making.
#[derive(Debug)]
pub struct PairsBuilder(Vec<(String, String)>);

impl View for PairsBuilder {
    type V = Seq<(Seq<char>, Seq<char>)>;

    closed spec fn view(&self) -> Seq<(Seq<char>, Seq<char>)> {
        text::pairs(self.0@)
    }
}

impl Default for PairsBuilder {
    fn default() -> (r: Self)
        ensures
            r@ == Seq::<(Seq<char>, Seq<char>)>::empty(),
    {
        MpdResponse::pairs()
    }
}

impl PairsBuilder {
    /// Adds a key and its value.
    pub fn pair(self, k: &str, v: &str) -> (r: PairsBuilder)
        ensures
            r@ == self@.push((k@, v@)),
    {
        broadcast use text::pairs_push;

        let mut p = self.0;
        p.push((k.to_owned(), v.to_owned()));
        PairsBuilder(p)
    }

    /// The answer.
    pub fn build(self) -> (r: MpdResponse)
        ensures
            r matches MpdResponse::Pairs(p) && text::pairs(p@) == self@,
    {
        MpdResponse::Pairs(self.0)
    }
}

/// A key and its value on a line.
pub open spec fn pair_line(p: (Seq<char>, Seq<char>)) -> Seq<char> {
    p.0 + ": "@ + p.1 + "\n"@
}

/// Keys and values, each on a line.
pub open spec fn pair_lines(p: Seq<(Seq<char>, Seq<char>)>) -> Seq<char>
    decreases p.len(),
{
    if p.len() == 0 {
        Seq::empty()
    } else {
        pair_lines(p.drop_last()) + pair_line(p.last())
    }
}

/// A text in bytes.
pub open spec fn bytes(s: Seq<char>) -> Seq<u8> {
    vstd::utf8::encode_utf8(s)
}

/// What ends an answer within a list of commands.
pub open spec fn list_mark(list_ok: bool) -> Seq<u8> {
    if list_ok {
        bytes("list_OK\n"@)
    } else {
        Seq::empty()
    }
}

/// The line that reports an error.
pub open spec fn ack_line(code: nat, idx: nat, command: Seq<char>, message: Seq<char>) -> Seq<
    char,
> {
    "ACK ["@ + number::dec(code) + "@"@ + number::dec(idx) + "] {"@ + command + "} "@ + message
        + "\n"@
}

/// The header of a part of a binary object.
pub open spec fn binary_header(total: nat, len: nat) -> Seq<char> {
    "size: "@ + number::dec(total) + "\nbinary: "@ + number::dec(len) + "\n"@
}

/// An answer as it is written, where it is the answer to the command at `idx`.
pub open spec fn wire(resp: MpdResponse, list_ok: bool, idx: nat) -> Seq<u8> {
    match resp {
        MpdResponse::Pairs(p) => bytes(pair_lines(text::pairs(p@))) + list_mark(list_ok),
        MpdResponse::Binary { total, chunk } => bytes(
            binary_header(total as nat, chunk@.len()),
        ) + chunk@ + bytes("\n"@) + list_mark(list_ok),
        MpdResponse::Ack { code, command, message } => bytes(
            ack_line(code as nat, idx, command@, message@),
        ),
    }
}

/// Appends a text in bytes.
pub fn push_text(buf: &mut Vec<u8>, s: &str)
    ensures
        final(buf)@ == old(buf)@ + bytes(s@),
{
    push_bytes(buf, s.as_bytes());
}

/// Appends bytes.
pub fn push_bytes(buf: &mut Vec<u8>, b: &[u8])
    ensures
        final(buf)@ == old(buf)@ + b@,
{
    let n: usize = b.len();
    let mut i: usize = 0;
    let ghost start = buf@;
    assert(start + b@.take(0) =~= start);
    while i < n
        invariant
            i <= n == b@.len(),
            buf@ == start + b@.take(i as int),
        decreases n - i,
    {
        buf.push(b[i]);
        i += 1;
        assert(b@.take(i as int) =~= b@.take(i - 1).push(b@[i - 1]));
        assert(buf@ =~= start + b@.take(i as int));
    }
    assert(b@.take(n as int) =~= b@);
}

fn pairs_text(p: &[(String, String)]) -> (r: String)
    ensures
        r@ == pair_lines(text::pairs(p@)),
{
    let mut out = String::new();
    let n: usize = p.len();
    let ghost all = text::pairs(p@);
    let mut i: usize = 0;
    while i < n
        invariant
            i <= n == p@.len(),
            all == text::pairs(p@),
            out@ == pair_lines(all.take(i as int)),
        decreases n - i,
    {
        let ghost before = out@;
        out.append(p[i].0.as_str());
        out.append(": ");
        out.append(p[i].1.as_str());
        out.append("\n");
        proof {
            let t = all.take(i + 1);
            assert(t.drop_last() =~= all.take(i as int));
            assert(t.last() == (p@[i as int].0@, p@[i as int].1@));
            assert(out@ =~= before + pair_line(t.last()));
        }
        i += 1;
    }
    assert(all.take(n as int) =~= all);
    out
}

/// Writes an answer, and tells whether it was no error.
pub fn write_response(buf: &mut Vec<u8>, resp: &MpdResponse, list_ok: bool, idx: usize) -> (r: bool)
    ensures
        final(buf)@ == old(buf)@ + wire(*resp, list_ok, idx as nat),
        r == !(resp is Ack),
{
    let ghost start = buf@;
    match resp {
        MpdResponse::Pairs(pairs) => {
            let t = pairs_text(pairs.as_slice());
            push_text(buf, t.as_str());
            if list_ok {
                push_text(buf, "list_OK\n");
            }
            assert(buf@ =~= start + wire(*resp, list_ok, idx as nat));
            true
        },
        MpdResponse::Binary { total, chunk } => {
            let mut t = "size: ".to_owned();
            t.append(number::dec_usize(*total).as_str());
            t.append("\nbinary: ");
            t.append(number::dec_usize(chunk.len()).as_str());
            t.append("\n");
            assert(t@ =~= binary_header(*total as nat, chunk@.len()));
            push_text(buf, t.as_str());
            push_bytes(buf, chunk.as_slice());
            push_text(buf, "\n");
            if list_ok {
                push_text(buf, "list_OK\n");
            }
            assert(buf@ =~= start + wire(*resp, list_ok, idx as nat));
            true
        },
        MpdResponse::Ack { code, command, message } => {
            let mut t = "ACK [".to_owned();
            t.append(number::dec_u64(*code as u64).as_str());
            t.append("@");
            t.append(number::dec_usize(idx).as_str());
            t.append("] {");
            t.append(command.as_str());
            t.append("} ");
            t.append(message.as_str());
            t.append("\n");
            push_text(buf, t.as_str());
            false
        },
    }
}

/// Answers are written as the protocol has them: each pair on its line, in order; a part of
/// a binary object behind the size of the whole and its own; an error with its code, the
/// place of its command and what went wrong; and a mark behind each answer of a list that
/// asked for it, unless it is an error.
pub proof fn answers_are_written_as_they_are(
    p: Vec<(String, String)>,
    total: usize,
    chunk: Vec<u8>,
    code: u32,
    command: String,
    message: String,
    idx: nat,
)
    ensures
        wire(MpdResponse::Pairs(p), true, idx) == wire(MpdResponse::Pairs(p), false, idx) + bytes(
            "list_OK\n"@,
        ),
        p@.len() == 0 ==> wire(MpdResponse::Pairs(p), false, idx).len() == 0,
        wire(MpdResponse::Binary { total, chunk }, false, idx) == bytes(
            "size: "@ + number::dec(total as nat) + "\nbinary: "@ + number::dec(chunk@.len())
                + "\n"@,
        ) + chunk@ + bytes("\n"@),
        wire(MpdResponse::Binary { total, chunk }, true, idx) == wire(
            MpdResponse::Binary { total, chunk },
            false,
            idx,
        ) + bytes("list_OK\n"@),
        wire(MpdResponse::Ack { code, command, message }, true, idx) == wire(
            MpdResponse::Ack { code, command, message },
            false,
            idx,
        ),
        wire(MpdResponse::Ack { code, command, message }, false, idx) == bytes(
            "ACK ["@ + number::dec(code as nat) + "@"@ + number::dec(idx) + "] {"@ + command@
                + "} "@
                + message@ + "\n"@,
        ),
{
    let a = bytes(pair_lines(text::pairs(p@)));
    assert(a + Seq::<u8>::empty() =~= a);
    if p@.len() == 0 {
        assert(text::pairs(p@).len() == 0);
        reveal_with_fuel(vstd::utf8::encode_utf8, 2);
    }
    let b = bytes(binary_header(total as nat, chunk@.len())) + chunk@ + bytes("\n"@);
    assert(b + Seq::<u8>::empty() =~= b);
}

/// One more pair is one more line behind the others.
pub proof fn a_pair_is_a_line(p: Seq<(Seq<char>, Seq<char>)>, key: Seq<char>, value: Seq<char>)
    ensures
        pair_lines(p.push((key, value))) == pair_lines(p) + (key + ": "@ + value + "\n"@),
{
    assert(p.push((key, value)).drop_last() =~= p);
}

} // verus!
