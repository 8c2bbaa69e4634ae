//! What a daemon answers.

use vstd::prelude::*;

use crate::text;

verus! {

/// Why a request failed.
#[derive(Debug, PartialEq, Eq)]
pub enum MpdError {
    /// No daemon listens there.
    ConnectionRefused(String),
    /// The daemon refused, and said why.
    Ack(String),
    /// The connection failed.
    Io(String),
    /// Something else listens there.
    BadGreeting(String),
}

impl MpdError {
    /// The sentence that tells a user of the error.
    pub open spec fn sentence(self) -> Seq<char> {
        match self {
            MpdError::ConnectionRefused(at) => "hypodj daemon not running on "@ + at@
                + " (start it or set HYPODJ_HOST/PORT)"@,
            MpdError::Ack(why) => why@,
            MpdError::Io(why) => "io error: "@ + why@,
            MpdError::BadGreeting(at) => "not an MPD/hypodj server at "@ + at@
                + " (unexpected greeting)"@,
        }
    }

    /// The sentence that tells a user of the error.
    pub fn message(&self) -> (r: String)
        ensures
            r@ == self.sentence(),
    {
        match self {
            MpdError::ConnectionRefused(at) => {
                let mut s = "hypodj daemon not running on ".to_owned();
                s.append(at.as_str());
                s.append(" (start it or set HYPODJ_HOST/PORT)");
                s
            },
            MpdError::Ack(why) => why.clone(),
            MpdError::Io(why) => {
                let mut s = "io error: ".to_owned();
                s.append(why.as_str());
                s
            },
            MpdError::BadGreeting(at) => {
                let mut s = "not an MPD/hypodj server at ".to_owned();
                s.append(at.as_str());
                s.append(" (unexpected greeting)");
                s
            },
        }
    }
}

/// A line is the greeting of a daemon.
pub fn is_greeting(line: &str) -> (r: bool)
    ensures
        r == text::begins(line@, "OK MPD"@),
{
    text::starts_with(line, "OK MPD")
}

/// What a line of an answer is.
#[derive(Debug, PartialEq, Eq)]
pub enum ReplyLine {
    /// The end of the answer.
    Done,
    /// The end of the answer: a refusal, and why.
    Refused(String),
    /// A part of the answer.
    Body,
}

/// A line ends an answer with a refusal.
pub open spec fn is_refusal(line: Seq<char>) -> bool {
    text::begins(line, "ACK "@) || line == "ACK"@
}

/// What a line of an answer is.
pub fn reply_line(line: &str) -> (r: ReplyLine)
    ensures
        match r {
            ReplyLine::Done => line@ == "OK"@,
            ReplyLine::Refused(why) => line@ != "OK"@ && is_refusal(line@) && why@ == reason_of(
                line@,
            ),
            ReplyLine::Body => line@ != "OK"@ && !is_refusal(line@),
        },
{
    if text::same(line, "OK") {
        ReplyLine::Done
    } else if text::starts_with(line, "ACK ") || text::same(line, "ACK") {
        ReplyLine::Refused(ack_message(line))
    } else {
        ReplyLine::Body
    }
}

/// An answer as far as it has been read.
#[derive(Debug)]
pub struct Reply {
    /// The lines of its body.
    pub body: Vec<String>,
}

/// What is known of an answer.
#[derive(Debug)]
pub enum Progress {
    /// There is more to read.
    More,
    /// It has been read.
    Done,
    /// It is a refusal.
    Refused(MpdError),
}

impl Reply {
    /// An answer of which nothing has been read.
    pub fn begin() -> (r: Reply)
        ensures
            text::texts(r.body@) == Seq::<Seq<char>>::empty(),
    {
        let r = Reply { body: Vec::new() };
        assert(text::texts(r.body@) =~= Seq::<Seq<char>>::empty());
        r
    }

    /// Takes one more line.
    pub fn on_line(&mut self, line: String) -> (r: Progress)
        ensures
            match r {
                Progress::More => {
                    &&& line@ != "OK"@
                    &&& !is_refusal(line@)
                    &&& text::texts(final(self).body@) == text::texts(old(self).body@).push(line@)
                },
                Progress::Done => line@ == "OK"@ && final(self).body@ == old(self).body@,
                Progress::Refused(e) => {
                    &&& line@ != "OK"@
                    &&& is_refusal(line@)
                    &&& final(self).body@ == old(self).body@
                    &&& e.sentence() == reason_of(line@)
                    &&& e is Ack
                },
            },
    {
        broadcast use text::texts_push;

        match reply_line(line.as_str()) {
            ReplyLine::Done => Progress::Done,
            ReplyLine::Refused(why) => Progress::Refused(MpdError::Ack(why)),
            ReplyLine::Body => {
                self.body.push(line);
                Progress::More
            },
        }
    }
}

/// Why a request was refused: what follows the last brace of the line, or else the line
/// itself.
pub open spec fn reason_of(line: Seq<char>) -> Seq<char> {
    match text::last_of(line, "}"@) {
        Some(i) => text::trimmed(line.skip(i + 1)),
        None => line,
    }
}

/// Why a request was refused, from the line that says so.
pub fn ack_message(line: &str) -> (r: String)
    ensures
        r@ == reason_of(line@),
{
    proof {
        reveal_strlit("}");
        text::last_before_is_last(line@, "}"@, line@.len() as int);
    }
    match text::rfind(line, "}") {
        Some(i) => {
            let v = text::chars(line);
            let n: usize = v.len();
            let rest = text::text_between(&v, i + 1, n);
            assert(rest@ =~= line@.skip(i + 1));
            text::trim(rest.as_str())
        },
        None => line.to_owned(),
    }
}

/// What a line says has changed, where it says so.
pub open spec fn change_in(line: Seq<char>) -> Option<Seq<char>> {
    match text::without_prefix(line, "changed: "@) {
        Some(s) => if text::trimmed(s).len() > 0 {
            Some(text::trimmed(s))
        } else {
            None
        },
        None => None,
    }
}

/// What lines say has changed.
pub open spec fn changes(lines: Seq<Seq<char>>) -> Seq<Seq<char>>
    decreases lines.len(),
{
    if lines.len() == 0 {
        Seq::empty()
    } else {
        let before = changes(lines.drop_last());
        match change_in(lines.last()) {
            Some(s) => before.push(s),
            None => before,
        }
    }
}

/// What an answer to `idle` says has changed. Other lines are passed over.
pub fn parse_changed(lines: &[String]) -> (r: Vec<String>)
    ensures
        text::texts(r@) == changes(text::texts(lines@)),
{
    let mut r: Vec<String> = Vec::new();
    let ghost all = text::texts(lines@);
    let mut i: usize = 0;
    proof {
        assert(all.take(0) =~= Seq::<Seq<char>>::empty());
        assert(text::texts(r@) =~= Seq::<Seq<char>>::empty());
    }
    while i < lines.len()
        invariant
            i <= lines@.len(),
            all == text::texts(lines@),
            text::texts(r@) == changes(all.take(i as int)),
        decreases lines@.len() - i,
    {
        broadcast use text::texts_push;

        assert(all.take(i + 1).drop_last() =~= all.take(i as int));
        assert(all.take(i + 1).last() == lines@[i as int]@);
        if let Some(s) = text::strip_prefix(lines[i].as_str(), "changed: ") {
            let t = text::trim(s.as_str());
            let n: usize = text::chars(t.as_str()).len();
            if n > 0 {
                r.push(t);
            }
        }
        i += 1;
    }
    assert(all.take(i as int) =~= all);
    r
}

/// The pairs of lines, each parted at its first colon and space.
pub open spec fn pairs_of(lines: Seq<Seq<char>>) -> Seq<(Seq<char>, Seq<char>)>
    decreases lines.len(),
{
    if lines.len() == 0 {
        Seq::empty()
    } else {
        let before = pairs_of(lines.drop_last());
        match text::parted(lines.last(), ": "@) {
            Some(p) => before.push(p),
            None => before,
        }
    }
}

/// The pairs of an answer. A line without a colon and a space is passed over.
pub fn parse_pairs(lines: &[String]) -> (r: Vec<(String, String)>)
    ensures
        text::pairs(r@) == pairs_of(text::texts(lines@)),
{
    let mut r: Vec<(String, String)> = Vec::new();
    let ghost all = text::texts(lines@);
    let mut i: usize = 0;
    proof {
        assert(all.take(0) =~= Seq::<Seq<char>>::empty());
        assert(text::pairs(r@) =~= Seq::<(Seq<char>, Seq<char>)>::empty());
    }
    while i < lines.len()
        invariant
            i <= lines@.len(),
            all == text::texts(lines@),
            text::pairs(r@) == pairs_of(all.take(i as int)),
        decreases lines@.len() - i,
    {
        broadcast use text::pairs_push;

        assert(all.take(i + 1).drop_last() =~= all.take(i as int));
        assert(all.take(i + 1).last() == lines@[i as int]@);
        if let Some(p) = text::split_once(lines[i].as_str(), ": ") {
            r.push(p);
        }
        i += 1;
    }
    assert(all.take(i as int) =~= all);
    r
}

/// A line says what has changed behind `changed: `, each change is told in its order, and
/// every other line is passed over.
pub proof fn changes_are_told_in_order(lines: Seq<Seq<char>>, line: Seq<char>, what: Seq<char>)
    requires
        what.len() > 0,
        !text::is_ws(what[0]),
        !text::is_ws(what.last()),
    ensures
        changes(lines.push("changed: "@ + what)) == changes(lines).push(what),
        !text::begins(line, "changed: "@) ==> changes(lines.push(line)) == changes(lines),
{
    let l = "changed: "@ + what;
    let p = "changed: "@;
    assert(l.subrange(0, p.len() as int) =~= p);
    assert(l.skip(p.len() as int) =~= what);
    assert(text::trimmed(what) == what);
    assert(lines.push(l).drop_last() =~= lines);
    assert(lines.push(line).drop_last() =~= lines);
}

/// A refusal is told by what stands behind its last brace.
pub proof fn a_refusal_is_told_by_its_reason(front: Seq<char>, why: Seq<char>)
    requires
        why.len() > 0,
        !text::is_ws(why[0]),
        !text::is_ws(why.last()),
        forall|i: int| 0 <= i < why.len() ==> #[trigger] why[i] != '}',
    ensures
        reason_of(front + "} "@ + why) == why,
{
    reveal_strlit("} ");
    reveal_strlit("}");
    let line = front + "} "@ + why;
    let k = front.len() as int;
    text::last_before_is_last(line, "}"@, line.len() - 1 + 1);
    assert(line.subrange(k, k + 1) =~= "}"@);
    assert(text::occurs_at(line, "}"@, k));
    assert forall|j: int| k < j < line.len() implies !text::occurs_at(line, "}"@, j) by {
        if text::occurs_at(line, "}"@, j) {
            assert(line.subrange(j, j + 1)[0] == line[j]);
            if j > k + 1 {
                assert(line[j] == why[j - k - 2]);
            }
        }
    }
    let rest = line.skip(k + 1);
    assert(rest.drop_first() =~= why);
    assert(rest[0] == ' ');
    assert(text::trimmed(why) == why);
    reveal_with_fuel(text::trim_start_in, 3);
}

} // verus!
