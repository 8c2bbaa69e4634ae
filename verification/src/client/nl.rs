//! Asking in natural language: what is sent, and what the answers mean.

use vstd::prelude::*;

use crate::echo;
use crate::mpd::tokens;
use crate::round_trip;
use crate::text;

verus! {

// ---------------------------------------------------------------------------
// Requests
// ---------------------------------------------------------------------------

/// A character as it stands on a line: what ends a line becomes a space.
pub open spec fn on_line(c: char) -> char {
    if c == '\n' || c == '\r' {
        ' '
    } else {
        c
    }
}

/// A text on one line.
pub open spec fn flat(s: Seq<char>) -> Seq<char> {
    Seq::new(s.len(), |i: int| on_line(s[i]))
}

/// A value as one quoted argument.
pub open spec fn quoted_arg(s: Seq<char>) -> Seq<char> {
    seq!['"'] + echo::escaped(flat(s)) + seq!['"']
}

proof fn escaped_step(s: Seq<char>, k: int)
    requires
        0 <= k < s.len(),
    ensures
        echo::escaped(s.take(k + 1)) == (if s[k] == '"' || s[k] == '\\' {
            echo::escaped(s.take(k)) + seq!['\\', s[k]]
        } else {
            echo::escaped(s.take(k)).push(s[k])
        }),
{
    assert(s.take(k + 1).drop_last() =~= s.take(k));
    assert(s.take(k + 1).last() == s[k]);
}

/// A value as one quoted argument. A backslash goes before each quote and backslash, and
/// what would end the line becomes a space.
pub fn quote_arg(value: &str) -> (r: String)
    ensures
        r@ == quoted_arg(value@),
{
    let v = text::chars(value);
    let n: usize = v.len();
    let ghost f = flat(value@);
    let mut s = String::new();
    s.push('"');
    let mut i: usize = 0;
    assert(f.take(0) =~= Seq::<char>::empty());
    assert(s@ =~= seq!['"'] + echo::escaped(f.take(0)));
    while i < n
        invariant
            i <= n == v@.len() == f.len(),
            v@ == value@,
            f == flat(value@),
            s@ == seq!['"'] + echo::escaped(f.take(i as int)),
        decreases n - i,
    {
        proof {
            escaped_step(f, i as int);
        }
        let ghost before = s@;
        let c = if v[i] == '\n' || v[i] == '\r' {
            ' '
        } else {
            v[i]
        };
        assert(c == f[i as int]);
        if c == '"' || c == '\\' {
            s.push('\\');
        }
        s.push(c);
        i += 1;
        assert(s@ =~= seq!['"'] + echo::escaped(f.take(i as int)));
    }
    assert(f.take(n as int) =~= f);
    s.push('"');
    assert(s@ =~= quoted_arg(value@));
    s
}

/// The request that asks for a phrase: the phrase is one argument, whatever it holds.
pub fn nl_request(phrase: &str) -> (r: String)
    ensures
        r@ == "nl "@ + quoted_arg(phrase@),
{
    let mut s = "nl ".to_owned();
    s.append(quote_arg(phrase).as_str());
    s
}

/// A quoted argument is read as the value that it quotes, on one line.
pub proof fn a_quoted_argument_reads_back(value: Seq<char>)
    ensures
        tokens::tokens(quoted_arg(value)) == seq![flat(value)],
{
    let q = quoted_arg(value);
    let none = Seq::<char>::empty();
    round_trip::quoted_reads_back(flat(value), none);
    assert(q[0] == '"');
    assert(q.drop_first() =~= echo::escaped(flat(value)) + seq!['"'] + none);
    assert(tokens::tokens(none) =~= Seq::<Seq<char>>::empty());
    assert(tokens::tokens(q) =~= seq![flat(value)]);
}

/// A phrase that is asked for reaches the daemon as the one argument of `nl`.
pub proof fn a_phrase_is_one_argument(phrase: Seq<char>)
    ensures
        tokens::tokens("nl "@ + quoted_arg(phrase)) == seq!["nl"@, flat(phrase)],
{
    reveal_strlit("nl ");
    reveal_strlit("nl");
    let rest = seq![' '] + quoted_arg(phrase);
    assert("nl "@ + quoted_arg(phrase) =~= "nl"@ + rest);
    assert(!echo::needs_quotes("nl"@)) by {
        assert(forall|i: int| 0 <= i < 2 ==> !echo::is_special(#[trigger] "nl"@[i]));
    }
    round_trip::token_reads_back("nl"@, rest);
    assert(rest.drop_first() =~= quoted_arg(phrase));
    a_quoted_argument_reads_back(phrase);
    assert(tokens::tokens(rest) == seq![flat(phrase)]);
    assert(seq!["nl"@] + seq![flat(phrase)] =~= seq!["nl"@, flat(phrase)]);
}

// ---------------------------------------------------------------------------
// Answers
// ---------------------------------------------------------------------------

/// The value of the first pair with this key, from the place `i` on.
pub open spec fn value_from(pairs: Seq<(String, String)>, key: Seq<char>, i: int) -> Option<
    Seq<char>,
>
    decreases pairs.len() - i,
{
    if i >= pairs.len() {
        None
    } else if pairs[i].0@ == key {
        Some(pairs[i].1@)
    } else {
        value_from(pairs, key, i + 1)
    }
}

/// The value of the first pair with this key.
pub open spec fn value_of(pairs: Seq<(String, String)>, key: Seq<char>) -> Option<Seq<char>> {
    value_from(pairs, key, 0)
}

/// The value of the first pair with this key.
pub fn find(pairs: &[(String, String)], key: &str) -> (r: Option<String>)
    ensures
        text::opt(r) == value_of(pairs@, key@),
{
    let mut i: usize = 0;
    while i < pairs.len()
        invariant
            i <= pairs@.len(),
            value_of(pairs@, key@) == value_from(pairs@, key@, i as int),
        decreases pairs@.len() - i,
    {
        if text::same(pairs[i].0.as_str(), key) {
            return Some(pairs[i].1.clone());
        }
        i += 1;
    }
    None
}

/// The token under which a plan is confirmed.
pub fn token_from_pairs(pairs: &[(String, String)]) -> (r: Option<String>)
    ensures
        text::opt(r) == value_of(pairs@, "nl_token"@),
{
    find(pairs, "nl_token")
}

/// The plan in words.
pub fn echo_from_pairs(pairs: &[(String, String)]) -> (r: Option<String>)
    ensures
        text::opt(r) == value_of(pairs@, "nl_echo"@),
{
    find(pairs, "nl_echo")
}

/// The parts of a plan in words.
#[derive(Debug, PartialEq, Eq)]
pub struct EchoParts {
    /// Who translated.
    pub trust: Option<String>,
    /// The steps.
    pub steps: Vec<String>,
    /// What is to be noted.
    pub note: Option<String>,
}

/// The parts of a plan in words.
#[verifier::ext_equal]
pub struct Parts {
    /// Who translated.
    pub trust: Option<Seq<char>>,
    /// The steps.
    pub steps: Seq<Seq<char>>,
    /// What is to be noted.
    pub note: Option<Seq<char>>,
}

/// A clause says who translated.
pub open spec fn is_trust(c: Seq<char>) -> bool {
    c == "via rules"@ || c == "via local model"@
}

/// The parts with one more clause.
pub open spec fn with_clause(p: Parts, clause: Seq<char>) -> Parts {
    let c = text::trimmed(clause);
    if is_trust(c) {
        Parts { trust: Some(c), ..p }
    } else if text::begins(c, "NOTE:"@) {
        Parts { note: Some(c), ..p }
    } else if c.len() > 0 {
        Parts { steps: p.steps.push(c), ..p }
    } else {
        p
    }
}

/// The parts of a row of clauses.
pub open spec fn parts_of(clauses: Seq<Seq<char>>) -> Parts
    decreases clauses.len(),
{
    if clauses.len() == 0 {
        Parts { trust: None, steps: Seq::empty(), note: None }
    } else {
        with_clause(parts_of(clauses.drop_last()), clauses.last())
    }
}

impl EchoParts {
    /// These parts.
    pub open spec fn parts(self) -> Parts {
        Parts {
            trust: text::opt(self.trust),
            steps: text::texts(self.steps@),
            note: text::opt(self.note),
        }
    }
}

/// Parts a plan in words into who translated, its steps and what is to be noted.
pub fn split_echo(echo: &str) -> (r: EchoParts)
    ensures
        r.parts() == parts_of(text::pieces(echo@, " | "@)),
{
    proof {
        reveal_strlit(" | ");
    }
    let clauses = text::split(echo, " | ");
    let ghost all = text::texts(clauses@);
    let mut trust: Option<String> = None;
    let mut steps: Vec<String> = Vec::new();
    let mut note: Option<String> = None;
    let mut i: usize = 0;
    proof {
        assert(all.take(0) =~= Seq::<Seq<char>>::empty());
        assert(text::texts(steps@) =~= Seq::<Seq<char>>::empty());
    }
    while i < clauses.len()
        invariant
            i <= clauses@.len(),
            all == text::texts(clauses@),
            text::opt(trust) == parts_of(all.take(i as int)).trust,
            text::texts(steps@) == parts_of(all.take(i as int)).steps,
            text::opt(note) == parts_of(all.take(i as int)).note,
        decreases clauses@.len() - i,
    {
        broadcast use text::texts_push;

        assert(all.take(i + 1).drop_last() =~= all.take(i as int));
        assert(all.take(i + 1).last() == clauses@[i as int]@);
        let c = text::trim(clauses[i].as_str());
        if text::same(c.as_str(), "via rules") || text::same(c.as_str(), "via local model") {
            trust = Some(c);
        } else if text::starts_with(c.as_str(), "NOTE:") {
            note = Some(c);
        } else {
            let n: usize = text::chars(c.as_str()).len();
            if n > 0 {
                steps.push(c);
            }
        }
        i += 1;
    }
    assert(all.take(i as int) =~= all);
    EchoParts { trust, steps, note }
}

/// The line for a plan that was armed.
pub fn armed_line(plan_id: &str) -> (r: String)
    ensures
        r@ == "armed (plan "@ + plan_id@ + ")"@,
{
    let mut s = "armed (plan ".to_owned();
    s.append(plan_id);
    s.append(")");
    s
}

/// What can be asked for.
pub open spec fn hint_text() -> Seq<char> {
    "I did not understand that. Try things like:\n"@ + "  - fade out / fade in\n"@
        + "  - fade to a volume (e.g. fade to 30%)\n"@ + "  - sleep / winddown\n"@
        + "  - stop after this track / stop after this album\n"@
        + "  - wake me at a time with a selector (e.g. wake me at 7 with jazz)\n"@
        + "Or use a control verb: play, pause, stop, next, prev, vol <0-100>, clear, queue, now."@
}

/// What can be asked for, for someone who was not understood.
pub fn not_understood_hint() -> (r: String)
    ensures
        r@ == hint_text(),
{
    let mut s = "I did not understand that. Try things like:\n".to_owned();
    s.append("  - fade out / fade in\n");
    s.append("  - fade to a volume (e.g. fade to 30%)\n");
    s.append("  - sleep / winddown\n");
    s.append("  - stop after this track / stop after this album\n");
    s.append("  - wake me at a time with a selector (e.g. wake me at 7 with jazz)\n");
    s.append(
        "Or use a control verb: play, pause, stop, next, prev, vol <0-100>, clear, queue, now.",
    );
    s
}

/// What a refusal means, in words that help.
pub open spec fn help_for(msg: Seq<char>) -> Seq<char> {
    let m = text::trimmed(msg);
    if m == "no such nl token"@ {
        "that plan expired, run the phrase again"@
    } else if text::begins(m, "plan no longer valid"@) {
        let rest = m.skip("plan no longer valid"@.len() as int);
        let why = text::trimmed(text::trim_start_in(rest, text::just(':')));
        if why.len() == 0 {
            "that plan is no longer valid (the queue changed) - run the phrase again"@
        } else {
            "that plan is no longer valid: "@ + why + " - run the phrase again"@
        }
    } else if m == "nl translator not available"@ {
        "natural language is not enabled on this server (configure a translator in the daemon)"@
    } else if m == "not understood"@ {
        hint_text()
    } else if text::begins(m, "ambiguous:"@) {
        "that request is ambiguous:"@ + m.skip("ambiguous:"@.len() as int)
    } else if text::begins(m, "nothing to act on:"@) {
        "nothing to act on:"@ + m.skip("nothing to act on:"@.len() as int)
    } else {
        m
    }
}

/// What a refusal means, in words that help.
pub fn map_ack_reason(msg: &str) -> (r: String)
    ensures
        r@ == help_for(msg@),
{
    let m = text::trim(msg);
    if text::same(m.as_str(), "no such nl token") {
        return "that plan expired, run the phrase again".to_owned();
    }
    if let Some(rest) = text::strip_prefix(m.as_str(), "plan no longer valid") {
        let why = text::trim(text::trim_start_char(rest.as_str(), ':').as_str());
        let n: usize = text::chars(why.as_str()).len();
        if n == 0 {
            return "that plan is no longer valid (the queue changed) - run the phrase again".to_owned();
        }
        let mut s = "that plan is no longer valid: ".to_owned();
        s.append(why.as_str());
        s.append(" - run the phrase again");
        return s;
    }
    if text::same(m.as_str(), "nl translator not available") {
        return "natural language is not enabled on this server (configure a translator in the daemon)".to_owned();
    }
    if text::same(m.as_str(), "not understood") {
        return not_understood_hint();
    }
    if let Some(rest) = text::strip_prefix(m.as_str(), "ambiguous:") {
        let mut s = "that request is ambiguous:".to_owned();
        s.append(rest.as_str());
        return s;
    }
    if let Some(rest) = text::strip_prefix(m.as_str(), "nothing to act on:") {
        let mut s = "nothing to act on:".to_owned();
        s.append(rest.as_str());
        return s;
    }
    m
}

// ---------------------------------------------------------------------------
// Laws
// ---------------------------------------------------------------------------

/// The value under a key is that of the first pair with the key.
pub proof fn the_first_pair_counts(pairs: Seq<(String, String)>, key: Seq<char>, k: int)
    requires
        0 <= k < pairs.len(),
        pairs[k].0@ == key,
        forall|j: int| 0 <= j < k ==> (#[trigger] pairs[j]).0@ != key,
    ensures
        value_of(pairs, key) == Some(pairs[k].1@),
{
    first_pair_from(pairs, key, 0, k);
}

proof fn first_pair_from(pairs: Seq<(String, String)>, key: Seq<char>, i: int, k: int)
    requires
        0 <= i <= k < pairs.len(),
        pairs[k].0@ == key,
        forall|j: int| i <= j < k ==> (#[trigger] pairs[j]).0@ != key,
    ensures
        value_from(pairs, key, i) == Some(pairs[k].1@),
    decreases k - i,
{
    if i < k {
        first_pair_from(pairs, key, i + 1, k);
    }
}

/// A key that no pair has is without a value.
pub proof fn a_missing_key_has_no_value(pairs: Seq<(String, String)>, key: Seq<char>, i: int)
    requires
        0 <= i,
        forall|j: int| i <= j < pairs.len() ==> (#[trigger] pairs[j]).0@ != key,
    ensures
        value_from(pairs, key, i) is None,
        i == 0 ==> value_of(pairs, key) is None,
    decreases pairs.len() - i,
{
    if i < pairs.len() {
        a_missing_key_has_no_value(pairs, key, i + 1);
    }
}

/// Each clause of a plan in words goes to its place: who translated, what is to be noted, and
/// every other clause, in order, to the steps; a blank one is dropped.
pub proof fn a_clause_goes_to_its_place(clauses: Seq<Seq<char>>, c: Seq<char>)
    ensures
        ({
            let before = parts_of(clauses);
            let now = parts_of(clauses.push(c));
            let t = text::trimmed(c);
            let trust = t == "via rules"@ || t == "via local model"@;
            let note = !trust && text::begins(t, "NOTE:"@);
            &&& trust ==> now.trust == Some(t) && now.steps == before.steps && now.note
                == before.note
            &&& note ==> now.note == Some(t) && now.steps == before.steps && now.trust
                == before.trust
            &&& !trust && !note && t.len() > 0 ==> now.steps == before.steps.push(t) && now.trust
                == before.trust && now.note == before.note
            &&& !trust && !note && t.len() == 0 ==> now == before
        }),
{
    assert(clauses.push(c).drop_last() =~= clauses);
    assert(clauses.push(c).last() == c);
}

/// A refusal that is known is told in words that help; any other is told as it came.
pub proof fn a_refusal_is_told_in_words_that_help(msg: Seq<char>)
    ensures
        ({
            let m = text::trimmed(msg);
            let expired = m == "no such nl token"@;
            let stale = text::begins(m, "plan no longer valid"@);
            let off = m == "nl translator not available"@;
            let unclear = m == "not understood"@;
            let ambiguous = text::begins(m, "ambiguous:"@);
            let nothing = text::begins(m, "nothing to act on:"@);
            &&& expired ==> help_for(msg) == "that plan expired, run the phrase again"@
            &&& stale && m.len() == "plan no longer valid"@.len() ==> help_for(msg)
                == "that plan is no longer valid (the queue changed) - run the phrase again"@
            &&& off
                ==> help_for(msg)
                == "natural language is not enabled on this server (configure a translator in the daemon)"@
            &&& unclear ==> help_for(msg) == hint_text()
            &&& ambiguous ==> text::begins(help_for(msg), "that request is ambiguous:"@)
            &&& !expired && !stale && !off && !unclear && !ambiguous && !nothing ==> help_for(msg)
                == m
        }),
{
    reveal_strlit("no such nl token");
    reveal_strlit("plan no longer valid");
    reveal_strlit("nl translator not available");
    reveal_strlit("not understood");
    reveal_strlit("ambiguous:");
    reveal_strlit("that request is ambiguous:");
    let m = text::trimmed(msg);
    assert("no such nl token"@[1] == 'o' && "no such nl token"@.len() == 16);
    assert("plan no longer valid"@[0] == 'p' && "plan no longer valid"@.len() == 20);
    assert("nl translator not available"@[1] == 'l');
    assert("not understood"@.len() == 14);
    assert("no such nl token"@[0] == 'n' && "nl translator not available"@[0] == 'n'
        && "not understood"@[0] == 'n' && "ambiguous:"@[0] == 'a');
    if text::begins(m, "plan no longer valid"@) {
        assert(m.subrange(0, 20)[0] == m[0]);
        if m.len() == 20 {
            let rest = m.skip(20);
            assert(rest =~= Seq::<char>::empty());
            assert(text::trim_start_in(rest, text::just(':')) == rest);
            assert(text::trimmed(rest) == rest);
        }
    }
    if text::begins(m, "ambiguous:"@) {
        assert(m.subrange(0, "ambiguous:"@.len() as int)[0] == m[0]);
        let p = "that request is ambiguous:"@;
        let r = p + m.skip("ambiguous:"@.len() as int);
        assert(r.subrange(0, p.len() as int) =~= p);
    }
}

} // verus!
