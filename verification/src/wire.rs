//! What one side of a connection writes, the other side reads.

use vstd::prelude::*;

use crate::client::grounding;
use crate::client::mpd as answers;
use crate::client::nl as asking;
use crate::client::nl::Parts;
use crate::client::route;
use crate::client::route::Meant;
use crate::echo;
use crate::mpd::command;
use crate::mpd::command::{MpdCommand, NlCmd};
use crate::mpd::filter;
use crate::mpd::response;
use crate::mpd::response::MpdResponse;
use crate::mpd::session;
use crate::mpd::tokens;
use crate::nl::NlSource;
use crate::number;
use crate::plan::{RawPlan, RawTrigger};
use crate::round_trip;
use crate::text;

verus! {

/// A text does not hold this character.
pub open spec fn free_of(s: Seq<char>, c: char) -> bool {
    forall|i: int| 0 <= i < s.len() ==> #[trigger] s[i] != c
}

// ---------------------------------------------------------------------------
// Lines
// ---------------------------------------------------------------------------

/// What stands before the first separator is the first piece.
proof fn the_first_piece(a: Seq<char>, p: Seq<char>, b: Seq<char>)
    requires
        p.len() > 0,
        forall|j: int| 0 <= j < a.len() ==> !text::occurs_at(a + p + b, p, j),
    ensures
        text::parted(a + p + b, p) == Some((a, b)),
        text::pieces(a + p + b, p) == seq![a] + text::pieces(b, p),
{
    let s = a + p + b;
    let n = a.len() as int;
    text::first_from_is_first(s, p, 0);
    assert(s.subrange(n, n + p.len()) =~= p);
    assert(text::occurs_at(s, p, n));
    assert(text::first_of(s, p) == Some(n));
    assert(s.take(n) =~= a);
    assert(s.skip(n + p.len()) =~= b);
}

/// A line goes up to its line break.
proof fn the_first_line(a: Seq<char>, b: Seq<char>)
    requires
        free_of(a, '\n'),
    ensures
        text::pieces(a + "\n"@ + b, "\n"@) == seq![a] + text::pieces(b, "\n"@),
{
    reveal_strlit("\n");
    let s = a + "\n"@ + b;
    assert forall|j: int| 0 <= j < a.len() implies !text::occurs_at(s, "\n"@, j) by {
        assert(s[j] == a[j]);
        assert(s.subrange(j, j + 1)[0] == s[j]);
    }
    the_first_piece(a, "\n"@, b);
}

// ---------------------------------------------------------------------------
// Answers
// ---------------------------------------------------------------------------

/// A key can be told from its value, and from what ends an answer.
pub open spec fn is_key(k: Seq<char>) -> bool {
    &&& forall|i: int| !text::occurs_at(k, ": "@, i)
    &&& !text::begins(k, "ACK "@)
}

/// A key and its value on a line, without the line break.
pub open spec fn pair_text(p: (Seq<char>, Seq<char>)) -> Seq<char> {
    p.0 + ": "@ + p.1
}

/// Keys and values, each on a line of its own.
pub open spec fn pair_texts(p: Seq<(Seq<char>, Seq<char>)>) -> Seq<Seq<char>> {
    Seq::new(p.len(), |i: int| pair_text(p[i]))
}

/// A key and its value are read from the line that they were written on, which ends no
/// answer.
pub proof fn a_pair_reads_back(k: Seq<char>, v: Seq<char>)
    requires
        is_key(k),
    ensures
        text::parted(pair_text((k, v)), ": "@) == Some((k, v)),
        pair_text((k, v)) != "OK"@,
        !answers::is_refusal(pair_text((k, v))),
{
    reveal_strlit(": ");
    reveal_strlit("OK");
    reveal_strlit("ACK");
    reveal_strlit("ACK ");
    let s = pair_text((k, v));
    let n = k.len() as int;
    assert forall|j: int| 0 <= j < n implies !text::occurs_at(s, ": "@, j) by {
        if text::occurs_at(s, ": "@, j) {
            assert(s.subrange(j, j + 2)[1] == s[j + 1]);
            if j + 1 < n {
                assert(k.subrange(j, j + 2) =~= s.subrange(j, j + 2));
                assert(text::occurs_at(k, ": "@, j));
            } else {
                assert(s[n] == ':');
            }
        }
    }
    the_first_piece(k, ": "@, v);
    assert(s[n] == ':');
    if text::begins(s, "ACK "@) {
        if n <= 3 {
            assert(s.subrange(0, 4)[n] == s[n]);
        } else {
            assert(k.subrange(0, 4) =~= s.subrange(0, 4));
        }
    }
}

/// The pairs of an answer are read from the lines that they were written on: none is lost
/// and none is added, and no line before the last ends the answer.
pub proof fn an_answer_reads_back(p: Seq<(Seq<char>, Seq<char>)>)
    requires
        forall|i: int| 0 <= i < p.len() ==> is_key((#[trigger] p[i]).0),
    ensures
        answers::pairs_of(pair_texts(p)) == p,
        forall|i: int|
            0 <= i < p.len() ==> #[trigger] pair_texts(p)[i] != "OK"@ && !answers::is_refusal(
                pair_texts(p)[i],
            ),
    decreases p.len(),
{
    if p.len() > 0 {
        let before = p.drop_last();
        assert forall|i: int| 0 <= i < before.len() implies is_key((#[trigger] before[i]).0) by {
            assert(before[i] == p[i]);
        }
        an_answer_reads_back(before);
        assert(pair_texts(p).drop_last() =~= pair_texts(before));
        a_pair_reads_back(p.last().0, p.last().1);
        assert(pair_texts(p).last() == pair_text(p.last()));
        assert(answers::pairs_of(pair_texts(p)) =~= p);
        assert forall|i: int| 0 <= i < p.len() implies #[trigger] pair_texts(p)[i] != "OK"@
            && !answers::is_refusal(pair_texts(p)[i]) by {
            if i < before.len() {
                assert(pair_texts(p)[i] == pair_texts(before)[i]);
            }
        }
    } else {
        assert(answers::pairs_of(pair_texts(p)) =~= p);
    }
}

proof fn lines_from_front(p: Seq<(Seq<char>, Seq<char>)>)
    requires
        p.len() > 0,
    ensures
        response::pair_lines(p) == response::pair_line(p[0]) + response::pair_lines(p.drop_first()),
    decreases p.len(),
{
    let rest = p.drop_first();
    if p.len() == 1 {
        assert(response::pair_lines(p.drop_last()) =~= Seq::<char>::empty());
        assert(response::pair_lines(rest) =~= Seq::<char>::empty());
        assert(response::pair_lines(p) =~= response::pair_line(p[0]) + response::pair_lines(rest));
    } else {
        lines_from_front(p.drop_last());
        assert(p.drop_last().drop_first() =~= rest.drop_last());
        assert(rest.last() == p.last());
        assert(response::pair_lines(p) =~= response::pair_line(p[0]) + response::pair_lines(rest));
    }
}

/// An answer of pairs that hold no line break is on the wire as many lines as it has
/// pairs, and one more that ends it.
pub proof fn an_answer_is_its_lines(p: Seq<(Seq<char>, Seq<char>)>)
    requires
        forall|i: int|
            0 <= i < p.len() ==> free_of((#[trigger] p[i]).0, '\n') && free_of(p[i].1, '\n'),
    ensures
        text::pieces(response::pair_lines(p) + "OK\n"@, "\n"@) == pair_texts(p) + seq![
            "OK"@,
            Seq::<char>::empty(),
        ],
    decreases p.len(),
{
    let none = Seq::<char>::empty();
    reveal_strlit("\n");
    reveal_strlit("OK\n");
    reveal_strlit("OK");
    reveal_strlit(": ");
    let end = seq!["OK"@, none];
    if p.len() == 0 {
        the_first_line("OK"@, none);
        assert("OK"@ + "\n"@ + none =~= response::pair_lines(p) + "OK\n"@);
        text::first_from_is_first(none, "\n"@, 0);
        assert(text::pieces(none, "\n"@) =~= seq![none]);
        assert(seq!["OK"@] + seq![none] =~= pair_texts(p) + end);
    } else {
        let rest = p.drop_first();
        let tail = response::pair_lines(rest) + "OK\n"@;
        lines_from_front(p);
        assert forall|i: int| 0 <= i < rest.len() implies free_of((#[trigger] rest[i]).0, '\n')
            && free_of(rest[i].1, '\n') by {
            assert(rest[i] == p[i + 1]);
        }
        an_answer_is_its_lines(rest);
        let first = pair_text(p[0]);
        assert(free_of(p[0].0, '\n'));
        assert forall|i: int| 0 <= i < first.len() implies #[trigger] first[i] != '\n' by {
            let n = p[0].0.len() as int;
            if i < n {
                assert(first[i] == p[0].0[i]);
            } else if i >= n + 2 {
                assert(first[i] == p[0].1[i - n - 2]);
            }
        }
        the_first_line(first, tail);
        assert(first + "\n"@ + tail =~= response::pair_lines(p) + "OK\n"@);
        assert(seq![first] + (pair_texts(rest) + end) =~= pair_texts(p) + end) by {
            assert forall|i: int| 0 <= i < p.len() implies (seq![first] + (pair_texts(rest)
                + end))[i] == pair_texts(p)[i] by {
                if i > 0 {
                    assert(rest[i - 1] == p[i]);
                }
            }
        }
    }
}

/// Texts are joined in bytes as they are in characters.
proof fn bytes_are_joined(a: Seq<char>, b: Seq<char>)
    ensures
        response::bytes(a + b) == response::bytes(a) + response::bytes(b),
    decreases a.len(),
{
    if a.len() == 0 {
        assert(a + b =~= b);
        assert(response::bytes(a) + response::bytes(b) =~= response::bytes(b));
    } else {
        bytes_are_joined(a.drop_first(), b);
        assert((a + b).drop_first() =~= a.drop_first() + b);
        assert(response::bytes(a + b) =~= response::bytes(a) + response::bytes(b));
    }
}

/// The lines of what was sent.
pub open spec fn lines_of(sent: Seq<u8>) -> Seq<Seq<char>> {
    text::pieces(vstd::utf8::decode_utf8(sent), "\n"@)
}

/// From the bytes of an answer to what is read of it: the pairs, in order, and no others.
pub proof fn an_answer_is_read(resp: MpdResponse, p: Vec<(String, String)>)
    requires
        resp == MpdResponse::Pairs(p),
        forall|i: int| 0 <= i < p@.len() ==> is_key((#[trigger] p@[i]).0@),
        forall|i: int|
            0 <= i < p@.len() ==> free_of((#[trigger] p@[i]).0@, '\n') && free_of(p@[i].1@, '\n'),
    ensures
        ({
            let lines = lines_of(response::wire(resp, false, 0) + session::ok_bytes());
            &&& lines.len() == p@.len() + 2
            &&& lines[p@.len() as int] == "OK"@
            &&& forall|i: int|
                0 <= i < p@.len() ==> #[trigger] lines[i] != "OK"@ && !answers::is_refusal(lines[i])
            &&& answers::pairs_of(lines.take(p@.len() as int)) == text::pairs(p@)
        }),
{
    let all = text::pairs(p@);
    let n = p@.len() as int;
    let said = response::pair_lines(all) + "OK\n"@;
    let sent = response::wire(resp, false, 0) + session::ok_bytes();
    assert forall|i: int| 0 <= i < all.len() implies is_key((#[trigger] all[i]).0) && free_of(
        all[i].0,
        '\n',
    ) && free_of(all[i].1, '\n') by {
        assert(all[i] == (p@[i].0@, p@[i].1@));
    }
    bytes_are_joined(response::pair_lines(all), "OK\n"@);
    assert(sent =~= response::bytes(said));
    vstd::utf8::encode_utf8_decode_utf8(said);
    an_answer_is_its_lines(all);
    an_answer_reads_back(all);
    let lines = lines_of(sent);
    assert(lines.take(n) =~= pair_texts(all));
    assert forall|i: int| 0 <= i < n implies #[trigger] lines[i] != "OK"@ && !answers::is_refusal(
        lines[i],
    ) by {
        assert(lines[i] == pair_texts(all)[i]);
    }
}

/// The line of a refusal, without its line break.
pub open spec fn refusal_text(code: nat, idx: nat, command: Seq<char>, message: Seq<char>) -> Seq<
    char,
> {
    response::ack_line(code, idx, command, message).drop_last()
}

/// A refusal is read as one, and for the reason that it was given: whatever the command
/// was, the reason is what the server said, without the white space around it.
pub proof fn a_refusal_reads_back(code: nat, idx: nat, command: Seq<char>, message: Seq<char>)
    requires
        free_of(message, '}'),
    ensures
        answers::is_refusal(refusal_text(code, idx, command, message)),
        refusal_text(code, idx, command, message) != "OK"@,
        answers::reason_of(refusal_text(code, idx, command, message)) == text::trimmed(message),
{
    reveal_strlit("ACK [");
    reveal_strlit("ACK ");
    reveal_strlit("OK");
    reveal_strlit("} ");
    reveal_strlit("}");
    reveal_strlit("\n");
    let head = "ACK ["@ + number::dec(code) + "@"@ + number::dec(idx) + "] {"@ + command;
    let line = refusal_text(code, idx, command, message);
    assert(line =~= head + "} "@ + message);
    assert(line.subrange(0, 4) =~= "ACK "@) by {
        assert forall|i: int| 0 <= i < 4 implies #[trigger] line[i] == "ACK ["@[i] by {}
    }
    assert(text::begins(line, "ACK "@));
    let n = head.len() as int;
    assert(line.subrange(n, n + 1) =~= "}"@);
    assert(text::occurs_at(line, "}"@, n));
    assert forall|j: int| n < j implies !text::occurs_at(line, "}"@, j) by {
        if j < line.len() {
            assert(line.subrange(j, j + 1)[0] == line[j]);
            if j > n + 1 {
                assert(line[j] == message[j - n - 2]);
            }
        }
    }
    text::last_before_is_last(line, "}"@, line.len() as int);
    assert(text::last_of(line, "}"@) == Some(n));
    let rest = line.skip(n + 1);
    assert(rest[0] == ' ');
    assert(rest.drop_first() =~= message);
    assert(text::ws().contains(' '));
}

/// From the bytes of a refusal to what is read of it: one line, which says why.
pub proof fn a_refusal_is_read(
    resp: MpdResponse,
    code: u32,
    command: String,
    message: String,
    list_ok: bool,
    idx: nat,
)
    requires
        resp == (MpdResponse::Ack { code, command, message }),
        free_of(message@, '}'),
        free_of(command@, '\n'),
        free_of(message@, '\n'),
    ensures
        ({
            let lines = lines_of(response::wire(resp, list_ok, idx));
            &&& lines.len() == 2
            &&& lines[0] != "OK"@
            &&& answers::is_refusal(lines[0])
            &&& answers::reason_of(lines[0]) == text::trimmed(message@)
        }),
{
    let none = Seq::<char>::empty();
    let line = refusal_text(code as nat, idx, command@, message@);
    let said = response::ack_line(code as nat, idx, command@, message@);
    a_refusal_reads_back(code as nat, idx, command@, message@);
    vstd::utf8::encode_utf8_decode_utf8(said);
    reveal_strlit("\n");
    assert(said =~= line + "\n"@ + none);
    assert(free_of(line, '\n')) by {
        let c = number::dec(code as nat);
        let d = number::dec(idx);
        number::dec_reads_back(code as nat);
        number::dec_reads_back(idx);
        reveal_strlit("ACK [");
        reveal_strlit("@");
        reveal_strlit("] {");
        reveal_strlit("} ");
        assert(forall|i: int| 0 <= i < c.len() ==> text::is_digit(#[trigger] c[i]));
        assert(forall|i: int| 0 <= i < d.len() ==> text::is_digit(#[trigger] d[i]));
        let head = "ACK ["@ + c + "@"@ + d + "] {"@;
        assert(free_of(head, '\n'));
        assert(line =~= head + command@ + "} "@ + message@);
    }
    the_first_line(line, none);
    text::first_from_is_first(none, "\n"@, 0);
    assert(text::pieces(none, "\n"@) =~= seq![none]);
}

/// The lines that say what has changed.
pub open spec fn change_texts(names: Seq<Seq<char>>) -> Seq<Seq<char>> {
    Seq::new(names.len(), |i: int| "changed: "@ + names[i])
}

/// What is said to have changed is read as it was named.
pub proof fn changes_read_back(names: Seq<Seq<char>>)
    requires
        forall|i: int|
            0 <= i < names.len() ==> (#[trigger] names[i]).len() > 0 && text::trimmed(names[i])
                == names[i],
    ensures
        answers::changes(change_texts(names)) == names,
    decreases names.len(),
{
    if names.len() > 0 {
        let before = names.drop_last();
        let line = "changed: "@ + names.last();
        assert forall|i: int| 0 <= i < before.len() implies (#[trigger] before[i]).len() > 0
            && text::trimmed(before[i]) == before[i] by {
            assert(before[i] == names[i]);
        }
        changes_read_back(before);
        assert(change_texts(names).drop_last() =~= change_texts(before));
        assert(change_texts(names).last() == line);
        let n = "changed: "@.len() as int;
        assert(line.subrange(0, n) =~= "changed: "@);
        assert(line.skip(n) =~= names.last());
        assert(names.last() == names[names.len() - 1]);
        assert(answers::change_in(line) == Some(names.last()));
    }
    assert(answers::changes(change_texts(names)) =~= names);
}

/// From the bytes that tell of a change to what is read of it: its name.
pub proof fn a_change_is_read(name: Seq<char>)
    requires
        name.len() > 0,
        text::trimmed(name) == name,
        free_of(name, '\n'),
    ensures
        ({
            let lines = lines_of(
                response::bytes("changed: "@ + name + "\n"@) + session::ok_bytes(),
            );
            &&& lines.len() == 3
            &&& lines[0] != "OK"@
            &&& lines[1] == "OK"@
            &&& answers::changes(lines.take(1)) == seq![name]
        }),
{
    let none = Seq::<char>::empty();
    let line = "changed: "@ + name;
    let said = line + "\n"@ + "OK\n"@;
    reveal_strlit("\n");
    reveal_strlit("OK");
    reveal_strlit("OK\n");
    reveal_strlit("changed: ");
    bytes_are_joined(line + "\n"@, "OK\n"@);
    vstd::utf8::encode_utf8_decode_utf8(said);
    the_first_line(line, "OK\n"@);
    assert("OK\n"@ =~= "OK"@ + "\n"@ + none);
    the_first_line("OK"@, none);
    text::first_from_is_first(none, "\n"@, 0);
    assert(text::pieces(none, "\n"@) =~= seq![none]);
    let lines = text::pieces(said, "\n"@);
    assert(lines =~= seq![line, "OK"@, none]);
    assert(line.len() > 2);
    assert(lines.take(1) =~= change_texts(seq![name]));
    changes_read_back(seq![name]);
}

// ---------------------------------------------------------------------------
// Requests
// ---------------------------------------------------------------------------

/// A word that stands on a line as it is.
spec fn is_bare(w: Seq<char>) -> bool {
    w.len() > 0 && forall|i: int| 0 <= i < w.len() ==> !echo::is_special(#[trigger] w[i])
}

/// A word of lower-case letters.
spec fn is_small(w: Seq<char>) -> bool {
    forall|i: int| 0 <= i < w.len() ==> 'a' <= #[trigger] w[i] <= 'z'
}

proof fn small_is_lower(w: Seq<char>)
    requires
        is_small(w),
    ensures
        text::lower(w) == w,
        text::ascii_lower(w) == w,
{
    assert(text::ascii_lower(w) =~= w);
    assert(text::ascii(w));
}

/// A word and what follows it behind a space.
proof fn word_by_word(w: Seq<char>, rest: Seq<char>)
    requires
        is_bare(w),
    ensures
        tokens::tokens(w + seq![' '] + rest) == seq![w] + tokens::tokens(rest),
{
    let more = seq![' '] + rest;
    round_trip::token_reads_back(w, more);
    assert(w + seq![' '] + rest =~= w + more);
    assert(more.drop_first() =~= rest);
}

/// A word at the end of a line.
proof fn last_word(w: Seq<char>)
    requires
        is_bare(w),
    ensures
        tokens::tokens(w) == seq![w],
{
    let none = Seq::<char>::empty();
    round_trip::token_reads_back(w, none);
    assert(w + none =~= w);
    assert(tokens::tokens(none) =~= Seq::<Seq<char>>::empty());
    assert(seq![w] + tokens::tokens(none) =~= seq![w]);
}

/// What is asked for under a name reads as that name and its arguments.
proof fn named(name: Seq<char>, a: Seq<Seq<char>>, line: Seq<char>, cmd: MpdCommand)
    requires
        is_small(name),
        tokens::tokens(line) == seq![name] + a,
        command::reads_line(line, cmd),
    ensures
        command::reads_command(name, a, line, cmd),
{
    small_is_lower(name);
    assert((seq![name] + a).skip(1) =~= a);
}

proof fn nl_is_a_name(a: Seq<Seq<char>>, line: Seq<char>, cmd: MpdCommand)
    requires
        tokens::tokens(line) == seq!["nl"@] + a,
        command::reads_line(line, cmd),
    ensures
        command::reads_nl(a, line, cmd),
{
    reveal_strlit("nl");
    named("nl"@, a, line, cmd);
    command::names_of_requests();
}

/// A phrase reaches the translator as it was said, on one line: none is taken for the
/// answer to a plan, whatever its words are.
pub proof fn a_phrase_is_translated(phrase: Seq<char>, cmd: MpdCommand)
    requires
        command::reads_line("nl "@ + asking::quoted_arg(phrase), cmd),
    ensures
        cmd matches MpdCommand::Nl(NlCmd::Translate { req, owner }) && req@ == asking::flat(phrase)
            && owner == 0,
{
    let a = seq![asking::flat(phrase)];
    let line = "nl "@ + asking::quoted_arg(phrase);
    asking::a_phrase_is_one_argument(phrase);
    assert(seq!["nl"@, asking::flat(phrase)] =~= seq!["nl"@] + a);
    nl_is_a_name(a, line, cmd);
    assert(text::joined(a, " "@) == a[0]);
}

proof fn a_token_is_bare(token: Seq<char>)
    requires
        command::is_token(token),
    ensures
        is_bare(token),
{
    reveal_strlit("nl-");
    let rest = token.skip(3);
    assert forall|i: int| 0 <= i < token.len() implies !echo::is_special(#[trigger] token[i]) by {
        if i < 3 {
            assert(token.subrange(0, 3)[i] == "nl-"@[i]);
        } else {
            assert(token[i] == rest[i - 3]);
            assert(text::is_hex(rest[i - 3]));
        }
    }
}

proof fn a_word_and_a_token_are_read(w: Seq<char>, token: Seq<char>, cmd: MpdCommand)
    requires
        is_bare(w),
        command::is_token(token),
        command::reads_line("nl"@ + seq![' '] + (w + seq![' '] + token), cmd),
    ensures
        command::reads_nl(
            seq![w, token],
            "nl"@ + seq![' '] + (w + seq![' '] + token),
            cmd,
        ),
{
    let more = w + seq![' '] + token;
    let line = "nl"@ + seq![' '] + more;
    a_token_is_bare(token);
    last_word(token);
    word_by_word(w, token);
    assert(is_bare("nl"@)) by {
        reveal_strlit("nl");
    }
    word_by_word("nl"@, more);
    assert(seq![w] + seq![token] =~= seq![w, token]);
    nl_is_a_name(seq![w, token], line, cmd);
}

proof fn keywords_are_read(token: Seq<char>, yes: MpdCommand, no: MpdCommand, line: Seq<char>)
    requires
        command::is_token(token),
    ensures
        command::reads_nl(seq!["confirm"@, token], line, yes) ==> (yes matches MpdCommand::Nl(
            NlCmd::Confirm { token: t, owner },
        ) && t@ == token && owner == 0),
        command::reads_nl(seq!["cancel"@, token], line, no) ==> (no matches MpdCommand::Nl(
            NlCmd::Cancel { token: t, owner },
        ) && t@ == token && owner == 0),
{
    reveal_strlit("confirm");
    reveal_strlit("cancel");
    small_is_lower("confirm"@);
    small_is_lower("cancel"@);
    assert("cancel"@.len() != "confirm"@.len());
}

/// The answer to a plan reaches the server under the token of the plan: what the user
/// confirms is confirmed, and what they do not is dropped.
pub proof fn an_answer_to_a_plan_is_read(
    token: Seq<char>,
    confirmed: MpdCommand,
    dropped: MpdCommand,
)
    requires
        command::is_token(token),
        command::reads_line("nl confirm "@ + token, confirmed),
        command::reads_line("nl cancel "@ + token, dropped),
    ensures
        confirmed matches MpdCommand::Nl(NlCmd::Confirm { token: t, owner }) && t@ == token && owner
            == 0,
        dropped matches MpdCommand::Nl(NlCmd::Cancel { token: t, owner }) && t@ == token && owner
            == 0,
{
    let yes = "nl"@ + seq![' '] + ("confirm"@ + seq![' '] + token);
    let no = "nl"@ + seq![' '] + ("cancel"@ + seq![' '] + token);
    assert(is_bare("confirm"@) && "nl confirm "@ + token =~= yes) by {
        reveal_strlit("nl");
        reveal_strlit("confirm");
        reveal_strlit("nl confirm ");
    }
    assert(is_bare("cancel"@) && "nl cancel "@ + token =~= no) by {
        reveal_strlit("nl");
        reveal_strlit("cancel");
        reveal_strlit("nl cancel ");
    }
    a_word_and_a_token_are_read("confirm"@, token, confirmed);
    a_word_and_a_token_are_read("cancel"@, token, dropped);
    keywords_are_read(token, confirmed, dropped, yes);
    keywords_are_read(token, confirmed, dropped, no);
}

proof fn playlistadd_is_a_name(
    list: Seq<char>,
    track: Seq<char>,
    line: Seq<char>,
    cmd: MpdCommand,
)
    requires
        command::reads_command("playlistadd"@, seq![list, track], line, cmd),
    ensures
        cmd matches MpdCommand::PlaylistAdd(l, t) && l@ == list && t@ == track,
{
    command::names_of_requests();
}

proof fn a_favorite_in_tokens(uri: Seq<char>)
    ensures
        tokens::tokens("playlistadd Starred "@ + asking::quoted_arg(uri)) == seq!["playlistadd"@]
            + seq!["Starred"@, asking::flat(uri)],
        is_small("playlistadd"@),
{
    reveal_strlit("playlistadd");
    reveal_strlit("Starred");
    reveal_strlit("playlistadd Starred ");
    let q = asking::quoted_arg(uri);
    let more = "Starred"@ + seq![' '] + q;
    asking::a_quoted_argument_reads_back(uri);
    word_by_word("Starred"@, q);
    word_by_word("playlistadd"@, more);
    assert("playlistadd Starred "@ + q =~= "playlistadd"@ + seq![' '] + more);
    assert(seq!["Starred"@] + seq![asking::flat(uri)] =~= seq!["Starred"@, asking::flat(uri)]);
}

/// The track that is made a favorite is the one that was asked for.
pub proof fn a_favorite_is_read(uri: Seq<char>, cmd: MpdCommand)
    requires
        command::reads_line("playlistadd Starred "@ + asking::quoted_arg(uri), cmd),
    ensures
        cmd matches MpdCommand::PlaylistAdd(list, track) && list@ == "Starred"@ && track@
            == asking::flat(uri),
{
    let line = "playlistadd Starred "@ + asking::quoted_arg(uri);
    let a = seq!["Starred"@, asking::flat(uri)];
    a_favorite_in_tokens(uri);
    named("playlistadd"@, a, line, cmd);
    playlistadd_is_a_name("Starred"@, asking::flat(uri), line, cmd);
}

/// A word that is searched for is searched for in every tag, and nothing else is.
pub proof fn a_search_is_read(kw: Seq<char>, cmd: MpdCommand)
    requires
        command::reads_line(grounding::search_request(kw), cmd),
    ensures
        cmd matches MpdCommand::Search(f) && text::pairs(f@) == seq![("any"@, kw)],
{
    grounding::a_search_is_read_as_its_word(kw);
    reveal_strlit("search");
    reveal_strlit("any");
    let a = seq!["any"@, kw];
    assert(seq!["search"@, "any"@, kw] =~= seq!["search"@] + a);
    named("search"@, a, grounding::search_request(kw), cmd);
    command::names_of_requests();
    small_is_lower("any"@);
    assert(filter::filters(a, 2) =~= Seq::<(Seq<char>, Seq<char>)>::empty());
    assert(filter::filters(a, 0) =~= seq![("any"@, kw)]);
}

proof fn a_word_alone_is_read(w: Seq<char>, cmd: MpdCommand)
    requires
        is_bare(w),
        is_small(w),
        command::reads_line(w, cmd),
    ensures
        command::reads_command(w, Seq::empty(), w, cmd),
{
    let none = Seq::<Seq<char>>::empty();
    last_word(w);
    assert(seq![w] =~= seq![w] + none);
    named(w, none, w, cmd);
}

proof fn a_word_and_its_argument_are_read(w: Seq<char>, x: Seq<char>, cmd: MpdCommand)
    requires
        is_bare(w),
        is_small(w),
        is_bare(x),
        command::reads_line(w + seq![' '] + x, cmd),
    ensures
        command::reads_command(w, seq![x], w + seq![' '] + x, cmd),
{
    last_word(x);
    word_by_word(w, x);
    named(w, seq![x], w + seq![' '] + x, cmd);
}

/// A control that a client sends is one that the server knows, and it does what the
/// control is named for. A volume arrives as the number that was given.
pub proof fn a_control_is_read(a: Seq<Seq<char>>, line: Seq<char>, cmd: MpdCommand)
    requires
        route::meaning(a) == Meant::Command(line),
        command::reads_line(line, cmd),
    ensures
        match cmd {
            MpdCommand::Play(place) => line == "play"@ && place is None,
            MpdCommand::Pause(None) => line == "pause"@,
            MpdCommand::Pause(Some(on)) => line == "pause 0"@ && !on,
            MpdCommand::Stop => line == "stop"@,
            MpdCommand::Next => line == "next"@,
            MpdCommand::Previous => line == "previous"@,
            MpdCommand::SetVol(n) => a.len() == 2 && number::unsigned_of(a[1], u32::MAX as nat)
                == Some(n as nat) && n <= 100,
            _ => false,
        },
{
    reveal_strlit("play");
    reveal_strlit("pause");
    reveal_strlit("pause 0");
    reveal_strlit("0");
    reveal_strlit("1");
    reveal_strlit("stop");
    reveal_strlit("next");
    reveal_strlit("previous");
    reveal_strlit("setvol");
    reveal_strlit("setvol ");
    command::names_of_requests();
    if line == "play"@ || line == "pause"@ || line == "stop"@ || line == "next"@ || line
        == "previous"@ {
        a_word_alone_is_read(line, cmd);
    } else if line == "pause 0"@ {
        assert(line =~= "pause"@ + seq![' '] + "0"@);
        a_word_and_its_argument_are_read("pause"@, "0"@, cmd);
        assert("0"@[0] != "1"@[0]);
        assert(seq!["0"@][0] == "0"@);
    } else {
        let n = number::unsigned_of(a[1], u32::MAX as nat)->0;
        let x = number::dec(n);
        number::dec_reads_back(n);
        number::dec_is_unsigned(n, u8::MAX as nat);
        assert(is_bare(x)) by {
            assert forall|i: int| 0 <= i < x.len() implies !echo::is_special(#[trigger] x[i]) by {
                assert(text::is_digit(x[i]));
            }
        }
        assert(line =~= "setvol"@ + seq![' '] + x);
        a_word_and_its_argument_are_read("setvol"@, x, cmd);
        assert(seq![x][0] == x);
    }
}

// ---------------------------------------------------------------------------
// Plans in words
// ---------------------------------------------------------------------------

proof fn joined_from_front(v: Seq<Seq<char>>, sep: Seq<char>)
    requires
        v.len() > 1,
    ensures
        text::joined(v, sep) == v[0] + sep + text::joined(v.drop_first(), sep),
    decreases v.len(),
{
    let rest = v.drop_first();
    if v.len() == 2 {
        assert(text::joined(v.drop_last(), sep) == v[0]);
        assert(text::joined(rest, sep) == v[1]);
        assert(text::joined(v, sep) =~= v[0] + sep + text::joined(rest, sep));
    } else {
        joined_from_front(v.drop_last(), sep);
        assert(v.drop_last().drop_first() =~= rest.drop_last());
        assert(rest.last() == v.last());
        assert(text::joined(v, sep) =~= v[0] + sep + text::joined(rest, sep));
    }
}

/// Clauses without a bar are told apart by the bars between them.
proof fn clauses_read_back(v: Seq<Seq<char>>)
    requires
        v.len() > 0,
        forall|i: int| 0 <= i < v.len() ==> free_of(#[trigger] v[i], '|'),
    ensures
        text::pieces(text::joined(v, " | "@), " | "@) == v,
    decreases v.len(),
{
    reveal_strlit(" | ");
    let bar = " | "@;
    let a = v[0];
    assert(free_of(a, '|'));
    if v.len() == 1 {
        assert forall|j: int| 0 <= j implies !text::occurs_at(a, bar, j) by {
            if text::occurs_at(a, bar, j) {
                assert(a.subrange(j, j + 3)[1] == a[j + 1]);
            }
        }
        text::first_from_is_first(a, bar, 0);
        assert(v =~= seq![a]);
    } else {
        let rest = v.drop_first();
        let b = text::joined(rest, bar);
        let s = a + bar + b;
        joined_from_front(v, bar);
        assert forall|i: int| 0 <= i < rest.len() implies free_of(#[trigger] rest[i], '|') by {
            assert(rest[i] == v[i + 1]);
        }
        clauses_read_back(rest);
        assert forall|j: int| 0 <= j < a.len() implies !text::occurs_at(s, bar, j) by {
            if text::occurs_at(s, bar, j) {
                assert(s.subrange(j, j + 3)[1] == s[j + 1]);
                if j + 1 < a.len() {
                    assert(s[j + 1] == a[j + 1]);
                } else {
                    assert(s[j + 1] == bar[0]);
                }
            }
        }
        the_first_piece(a, bar, b);
        assert(seq![a] + rest =~= v);
    }
}

proof fn a_time_ends_in_a_letter(t: RawTrigger)
    ensures
        echo::when_text(t).len() > 0,
        !text::is_ws(echo::when_text(t).last()),
{
    reveal_strlit("now");
    reveal_strlit(" track (counting current as #1) starts");
    reveal_strlit(" track in the queue starts");
    reveal_strlit("after the current track");
    reveal_strlit("after the current album ends");
    reveal_strlit(" min");
    reveal_strlit("s");
    reveal_strlit(" UTC");
    reveal_strlit("at an unknown time");
    reveal_strlit(" left on the track");
}

proof fn a_clause_is_a_step(plans: Seq<RawPlan>, i: int)
    ensures
        ({
            let c = echo::clause_text(plans, i);
            &&& c.len() > 0
            &&& c[0] == '['
            &&& text::trimmed(c) == c
            &&& !asking::is_trust(c)
            &&& !text::begins(c, "NOTE:"@)
        }),
{
    let c = echo::clause_text(plans, i);
    let w = echo::when_text(plans[i].trigger);
    a_time_ends_in_a_letter(plans[i].trigger);
    reveal_strlit("[");
    reveal_strlit("via rules");
    reveal_strlit("via local model");
    reveal_strlit("NOTE:");
    assert(c[0] == "["@[0]);
    assert(c.last() == w.last());
    if text::begins(c, "NOTE:"@) {
        assert(c.subrange(0, 5)[0] == c[0]);
    }
}

proof fn steps_in_a_row(plans: Seq<RawPlan>, src: NlSource, n: nat)
    requires
        n <= plans.len(),
    ensures
        asking::parts_of(
            seq![echo::label_of(src)] + Seq::new(n, |i: int| echo::clause_text(plans, i)),
        ) == (Parts {
            trust: Some(echo::label_of(src)),
            steps: Seq::new(n, |i: int| echo::clause_text(plans, i)),
            note: None,
        }),
    decreases n,
{
    let head = seq![echo::label_of(src)];
    let steps = Seq::new(n, |i: int| echo::clause_text(plans, i));
    let all = head + steps;
    if n == 0 {
        reveal_strlit("via rules");
        reveal_strlit("via local model");
        let none = Parts { trust: None, steps: Seq::<Seq<char>>::empty(), note: None };
        assert(all.drop_last() =~= Seq::<Seq<char>>::empty());
        assert(asking::parts_of(all.drop_last()) =~= none);
        assert(text::trimmed(all.last()) == all.last());
        assert(steps =~= Seq::<Seq<char>>::empty());
    } else {
        let m = (n - 1) as nat;
        let before = Seq::new(m, |i: int| echo::clause_text(plans, i));
        steps_in_a_row(plans, src, m);
        assert(all.drop_last() =~= head + before);
        assert(all.last() == echo::clause_text(plans, m as int));
        a_clause_is_a_step(plans, m as int);
        assert(steps =~= before.push(echo::clause_text(plans, m as int)));
    }
}

/// What is noted of an alarm that could not start playback.
pub open spec fn wake_note() -> Seq<char> {
    "NOTE: this appends tracks and fades in; a TRUE wake also needs a play/skip action (Enqueue is append-only)"@
}

/// What the server says of its plans is what the client shows for them to be confirmed:
/// who translated, each plan as a step of its own, in order, and the note on an alarm
/// that could not start playback.
pub proof fn a_plan_is_shown_as_said(plans: Seq<RawPlan>, src: NlSource)
    requires
        forall|i: int| 0 <= i < plans.len() ==> free_of(#[trigger] echo::plan_text(plans[i]), '|'),
    ensures
        asking::parts_of(
            text::pieces(text::joined(echo::batch_clauses(plans, src), " | "@), " | "@),
        ) == (Parts {
            trust: Some(echo::label_of(src)),
            steps: Seq::new(plans.len(), |i: int| echo::clause_text(plans, i)),
            note: if echo::is_silent_wake(plans) {
                Some(wake_note())
            } else {
                None
            },
        }),
{
    let v = echo::batch_clauses(plans, src);
    let n = plans.len();
    let steps = Seq::new(n, |i: int| echo::clause_text(plans, i));
    let row = seq![echo::label_of(src)] + steps;
    assert(free_of(echo::label_of(src), '|')) by {
        reveal_strlit("via rules");
        reveal_strlit("via local model");
    }
    assert(free_of(wake_note(), '|') && text::trimmed(wake_note()) == wake_note()
        && text::begins(wake_note(), "NOTE:"@) && !asking::is_trust(wake_note())) by {
        reveal_strlit(
            "NOTE: this appends tracks and fades in; a TRUE wake also needs a play/skip action (Enqueue is append-only)",
        );
        reveal_strlit("NOTE:");
        reveal_strlit("via rules");
        reveal_strlit("via local model");
        assert(wake_note().subrange(0, 5) =~= "NOTE:"@);
    }
    assert forall|i: int| 0 <= i < n implies free_of(#[trigger] steps[i], '|') by {
        let c = echo::clause_text(plans, i);
        let d = number::dec((i + 1) as nat);
        let t = echo::plan_text(plans[i]);
        number::dec_reads_back((i + 1) as nat);
        reveal_strlit("[");
        reveal_strlit("] ");
        assert(free_of(t, '|'));
        assert forall|k: int| 0 <= k < c.len() implies #[trigger] c[k] != '|' by {
            let m = d.len() as int;
            if 1 <= k < m + 1 {
                assert(c[k] == d[k - 1]);
                assert(text::is_digit(d[k - 1]));
            } else if k >= m + 3 {
                assert(c[k] == t[k - m - 3]);
            }
        }
    }
    steps_in_a_row(plans, src, n);
    assert forall|i: int| 0 <= i < v.len() implies free_of(#[trigger] v[i], '|') by {
        if 1 <= i <= n {
            assert(v[i] == steps[i - 1]);
        }
    }
    clauses_read_back(v);
    if echo::is_silent_wake(plans) {
        assert(v =~= row.push(wake_note()));
        assert(v.drop_last() =~= row);
    } else {
        assert(v =~= row);
    }
}

} // verus!
