//! Plans as text: the keyword language that they can be asked for in, and a sentence
//! for the user to confirm.

use vstd::prelude::*;

use crate::civil;
use crate::civil::CivilTime;
use crate::mpd::command;
use crate::mpd::command::MpdCommand;
use crate::nl::NlSource;
use crate::number;
use crate::number::{Real, REAL_LIMIT};
use crate::plan::{
    Action, ClearScope, FadeIntentIr, MoveDest, PosBase, QueueSelector, RawPlan, RawTrigger,
    Selector, TrackSel,
};
use crate::round_trip;
use crate::text;

verus! {

// ---------------------------------------------------------------------------
// The keyword language
// ---------------------------------------------------------------------------

/// A text holds a control character.
pub open spec fn has_control(s: Seq<char>) -> bool {
    exists|i: int| 0 <= i < s.len() && text::is_ctl(#[trigger] s[i])
}

/// A character that a token can only hold between quotes.
pub open spec fn is_special(c: char) -> bool {
    text::is_ws(c) || c == '"' || c == '\\'
}

/// A text is a token only between quotes.
pub open spec fn needs_quotes(s: Seq<char>) -> bool {
    s.len() == 0 || exists|i: int| 0 <= i < s.len() && is_special(#[trigger] s[i])
}

/// A text with a backslash before each quote and backslash.
pub open spec fn escaped(s: Seq<char>) -> Seq<char>
    decreases s.len(),
{
    if s.len() == 0 {
        Seq::empty()
    } else {
        let c = s.last();
        if c == '"' || c == '\\' {
            escaped(s.drop_last()) + seq!['\\', c]
        } else {
            escaped(s.drop_last()).push(c)
        }
    }
}

/// A text as a token: between quotes where it needs them.
pub open spec fn token_text(s: Seq<char>) -> Seq<char> {
    if needs_quotes(s) {
        seq!['"'] + escaped(s) + seq!['"']
    } else {
        s
    }
}

/// A text as a token, unless it holds a control character: a line break within it would
/// begin another request.
pub fn dsl_value(s: &str) -> (r: Option<String>)
    ensures
        r is None <==> has_control(s@),
        r matches Some(t) ==> t@ == token_text(s@),
{
    let v = text::chars(s);
    let n: usize = v.len();
    let mut quote = n == 0;
    let mut i: usize = 0;
    while i < n
        invariant
            i <= n == v@.len(),
            v@ == s@,
            forall|k: int| 0 <= k < i ==> !text::is_ctl(#[trigger] v@[k]),
            quote <==> n == 0 || exists|k: int| 0 <= k < i && is_special(#[trigger] v@[k]),
        decreases n - i,
    {
        let c = v[i];
        if text::is_control(c) {
            assert(text::is_ctl(s@[i as int]));
            return None;
        }
        if text::is_whitespace(c) || c == '"' || c == '\\' {
            assert(is_special(v@[i as int]));
            quote = true;
        }
        i += 1;
    }
    if !quote {
        return Some(s.to_owned());
    }
    let mut out = String::new();
    out.push('"');
    let mut i: usize = 0;
    assert(v@.take(0) =~= Seq::<char>::empty());
    assert(out@ =~= seq!['"'] + escaped(v@.take(0)));
    while i < n
        invariant
            i <= n == v@.len(),
            v@ == s@,
            out@ == seq!['"'] + escaped(v@.take(i as int)),
        decreases n - i,
    {
        let ghost before = out@;
        let c = v[i];
        if c == '"' || c == '\\' {
            out.push('\\');
        }
        out.push(c);
        i += 1;
        proof {
            let t = v@.take(i as int);
            assert(t.drop_last() =~= v@.take(i - 1));
            assert(t.last() == c);
            assert(out@ =~= seq!['"'] + escaped(t));
        }
    }
    out.push('"');
    assert(v@.take(n as int) =~= s@);
    assert(out@ =~= token_text(s@));
    Some(out)
}

/// Seconds that the keyword language can say: a finite number that is not negative.
pub open spec fn sayable_secs(secs: Real) -> bool {
    secs matches Real::Finite(n) && 0 <= n <= REAL_LIMIT
}

fn can_say(secs: Real) -> (r: bool)
    ensures
        r == sayable_secs(secs),
{
    match secs {
        Real::Finite(n) => 0 <= n && n <= REAL_LIMIT,
        _ => false,
    }
}

/// A point of civil time whose text reads back.
pub open spec fn sayable_time(at: CivilTime) -> bool {
    match civil::rfc3339_text(at.secs, at.nanos) {
        Some(s) => {
            &&& s.len() > 0
            &&& text::is_digit(s[0])
            &&& civil::rfc3339_time(s) == Some((at.secs, at.nanos))
        },
        None => false,
    }
}

/// The text of a point of civil time, where it reads back. In the years of four digits it
/// does.
fn write_time(at: CivilTime) -> (r: Option<String>)
    ensures
        at.is_ordinary() ==> sayable_time(at),
        match r {
            Some(s) => sayable_time(at) && Some(s@) == civil::rfc3339_text(at.secs, at.nanos),
            None => !sayable_time(at),
        },
{
    let s = match civil::to_rfc3339(at) {
        Some(s) => s,
        None => return None,
    };
    let v = text::chars(s.as_str());
    if v.len() == 0 || !text::is_decimal_digit(v[0]) {
        return None;
    }
    match civil::parse_rfc3339(s.as_str()) {
        Some(t) => if t.secs == at.secs && t.nanos == at.nanos {
            Some(s)
        } else {
            None
        },
        None => None,
    }
}

/// The words of a trigger, where the keyword language has them.
pub open spec fn trigger_words(t: RawTrigger) -> Option<Seq<Seq<char>>> {
    match t {
        RawTrigger::Immediate => Some(seq!["trigger"@, "immediate"@]),
        RawTrigger::QueuePosition { n, base } => Some(
            seq![
                "trigger"@,
                "track"@,
                number::dec(n as nat),
                "base"@,
                match base {
                    PosBase::CurrentIsOne => "current"@,
                    PosBase::Absolute => "absolute"@,
                },
            ],
        ),
        RawTrigger::TrackAfterCurrent => Some(seq!["trigger"@, "after"@]),
        RawTrigger::AlbumBoundary { track } => match track {
            TrackSel::Current => Some(seq!["trigger"@, "album"@]),
            _ => None,
        },
        RawTrigger::SpanElapsed { secs } => if sayable_secs(secs) {
            Some(seq!["trigger"@, "in"@, number::show_real(secs)])
        } else {
            None
        },
        RawTrigger::WallClock { at } => if sayable_time(at) {
            Some(seq!["trigger"@, "at"@, civil::rfc3339_text(at.secs, at.nanos)->0])
        } else {
            None
        },
        RawTrigger::TimeRemaining { .. } => None,
    }
}

/// The words of entries of the queue.
pub open spec fn qselector_words(sel: QueueSelector) -> Seq<Seq<char>> {
    match sel {
        QueueSelector::Current => seq!["current"@],
        QueueSelector::Position(n) => seq!["pos"@, number::dec(n as nat)],
        QueueSelector::Last(n) => seq!["last"@, number::dec(n as nat)],
        QueueSelector::Range { start, end } => seq![
            "range"@,
            number::dec(start as nat),
            number::dec(end as nat),
        ],
        QueueSelector::QueryMatch(q) => seq!["match"@, q@],
    }
}

/// The words of a place that entries are moved to.
pub open spec fn movedest_words(dest: MoveDest) -> Seq<Seq<char>> {
    match dest {
        MoveDest::Position(n) => seq!["pos"@, number::dec(n as nat)],
        MoveDest::Relative(d) => seq!["rel"@, number::dec_int(d as int)],
    }
}

/// The words of an action, where the keyword language has them.
pub open spec fn action_words(a: Action) -> Option<Seq<Seq<char>>> {
    match a {
        Action::Fade(FadeIntentIr::Out { secs }) => if sayable_secs(secs) {
            Some(seq!["fade"@, "out"@, number::show_real(secs)])
        } else {
            None
        },
        Action::Fade(FadeIntentIr::In { secs }) => if sayable_secs(secs) {
            Some(seq!["fade"@, "in"@, number::show_real(secs)])
        } else {
            None
        },
        Action::Fade(FadeIntentIr::To { target_db, vol, secs }) => if sayable_secs(secs) {
            Some(seq!["fade"@, "to"@, number::dec(vol as nat), number::show_real(secs)])
        } else {
            None
        },
        Action::Fade(_) => None,
        Action::Stop => Some(seq!["stop"@]),
        Action::Pause => Some(seq!["pause"@]),
        Action::SetVolume(v) => Some(seq!["setvol"@, number::dec(v as nat)]),
        Action::Enqueue { selector: Selector::Radio, count } => Some(
            seq!["enqueue"@, "radio"@, number::dec(count as nat)],
        ),
        Action::Enqueue { selector: Selector::Query(q), count } => Some(
            seq!["enqueue"@, "query"@, q@, number::dec(count as nat)],
        ),
        Action::Enqueue { selector: Selector::Genre(g), count } => Some(
            seq!["enqueue"@, "genre"@, g@, number::dec(count as nat)],
        ),
        Action::Enqueue { .. } => None,
        Action::Wake { .. } => None,
        Action::PlayNow { .. } => None,
        Action::Remove { sel } => Some(seq!["remove"@] + qselector_words(sel)),
        Action::Play { sel } => Some(seq!["play"@] + qselector_words(sel)),
        Action::Move { sel, dest } => Some(
            seq!["move"@] + qselector_words(sel) + seq!["to"@] + movedest_words(dest),
        ),
        Action::Clear { scope: ClearScope::All } => Some(seq!["clear"@, "all"@]),
        Action::Clear { scope: ClearScope::AfterCurrent } => Some(seq!["clear"@, "after"@]),
        Action::Clear { scope: ClearScope::Range { start, end } } => Some(
            seq!["clear"@, "range"@, number::dec(start as nat), number::dec(end as nat)],
        ),
        Action::Noop => Some(seq!["noop"@]),
    }
}

/// The words of a plan, where the keyword language has them.
pub open spec fn plan_words(trigger: RawTrigger, action: Action, once: bool) -> Option<
    Seq<Seq<char>>,
> {
    match (trigger_words(trigger), action_words(action)) {
        (Some(t), Some(a)) => Some(
            t + seq!["action"@] + a + if once {
                seq!["once"@]
            } else {
                Seq::empty()
            },
        ),
        _ => None,
    }
}

/// Words as tokens.
pub open spec fn token_texts(words: Seq<Seq<char>>) -> Seq<Seq<char>> {
    Seq::new(words.len(), |i: int| token_text(words[i]))
}

/// Words as a line.
pub open spec fn line_of(words: Seq<Seq<char>>) -> Seq<char> {
    text::joined(token_texts(words), " "@)
}

/// One of the words holds a control character.
pub open spec fn any_control(words: Seq<Seq<char>>) -> bool {
    exists|i: int| 0 <= i < words.len() && has_control(#[trigger] words[i])
}

/// A plan in the keyword language: `None` where the language has no words that read back
/// as it, or where a word would hold a control character.
pub open spec fn plan_line(trigger: RawTrigger, action: Action, once: bool) -> Option<Seq<char>> {
    match plan_words(trigger, action, once) {
        Some(w) => if any_control(w) {
            None
        } else {
            Some(line_of(w))
        },
        None => None,
    }
}

fn push_word(words: &mut Vec<String>, w: &str)
    ensures
        text::texts(final(words)@) == text::texts(old(words)@).push(w@),
{
    broadcast use text::texts_push;

    words.push(w.to_owned());
}

/// Appends the words of a trigger, and tells whether there are any.
fn push_trigger(words: &mut Vec<String>, t: &RawTrigger) -> (r: bool)
    ensures
        r == (trigger_words(*t) is Some),
        r ==> text::texts(final(words)@) == text::texts(old(words)@) + trigger_words(*t)->0,
        t matches RawTrigger::WallClock { at } ==> at.is_ordinary() ==> r,
{
    let ghost start = text::texts(words@);
    push_word(words, "trigger");
    match t {
        RawTrigger::Immediate => {
            push_word(words, "immediate");
        },
        RawTrigger::QueuePosition { n, base } => {
            push_word(words, "track");
            push_word(words, number::dec_usize(*n).as_str());
            push_word(words, "base");
            match base {
                PosBase::CurrentIsOne => {
                    push_word(words, "current");
                },
                PosBase::Absolute => {
                    push_word(words, "absolute");
                },
            }
        },
        RawTrigger::TrackAfterCurrent => {
            push_word(words, "after");
        },
        RawTrigger::AlbumBoundary { track } => match track {
            TrackSel::Current => {
                push_word(words, "album");
            },
            _ => return false,
        },
        RawTrigger::SpanElapsed { secs } => {
            if !can_say(*secs) {
                return false;
            }
            push_word(words, "in");
            push_word(words, number::real_text(*secs).as_str());
        },
        RawTrigger::WallClock { at } => match write_time(*at) {
            Some(s) => {
                push_word(words, "at");
                push_word(words, s.as_str());
            },
            None => return false,
        },
        RawTrigger::TimeRemaining { .. } => return false,
    }
    assert(text::texts(words@) =~= start + trigger_words(*t)->0);
    true
}

fn push_qselector(words: &mut Vec<String>, sel: &QueueSelector)
    ensures
        text::texts(final(words)@) == text::texts(old(words)@) + qselector_words(*sel),
{
    let ghost start = text::texts(words@);
    match sel {
        QueueSelector::Current => {
            push_word(words, "current");
        },
        QueueSelector::Position(n) => {
            push_word(words, "pos");
            push_word(words, number::dec_usize(*n).as_str());
        },
        QueueSelector::Last(n) => {
            push_word(words, "last");
            push_word(words, number::dec_usize(*n).as_str());
        },
        QueueSelector::Range { start: a, end: b } => {
            push_word(words, "range");
            push_word(words, number::dec_usize(*a).as_str());
            push_word(words, number::dec_usize(*b).as_str());
        },
        QueueSelector::QueryMatch(q) => {
            push_word(words, "match");
            push_word(words, q.as_str());
        },
    }
    assert(text::texts(words@) =~= start + qselector_words(*sel));
}

/// Appends the words of an action, and tells whether there are any.
fn push_action(words: &mut Vec<String>, a: &Action) -> (r: bool)
    ensures
        r == (action_words(*a) is Some),
        r ==> text::texts(final(words)@) == text::texts(old(words)@) + action_words(*a)->0,
{
    let ghost start = text::texts(words@);
    match a {
        Action::Fade(FadeIntentIr::Out { secs }) => {
            if !can_say(*secs) {
                return false;
            }
            push_word(words, "fade");
            push_word(words, "out");
            push_word(words, number::real_text(*secs).as_str());
        },
        Action::Fade(FadeIntentIr::In { secs }) => {
            if !can_say(*secs) {
                return false;
            }
            push_word(words, "fade");
            push_word(words, "in");
            push_word(words, number::real_text(*secs).as_str());
        },
        Action::Fade(FadeIntentIr::To { target_db: _, vol, secs }) => {
            if !can_say(*secs) {
                return false;
            }
            push_word(words, "fade");
            push_word(words, "to");
            push_word(words, number::dec_u64(*vol as u64).as_str());
            push_word(words, number::real_text(*secs).as_str());
        },
        Action::Fade(_) => return false,
        Action::Stop => {
            push_word(words, "stop");
        },
        Action::Pause => {
            push_word(words, "pause");
        },
        Action::SetVolume(v) => {
            push_word(words, "setvol");
            push_word(words, number::dec_u64(*v as u64).as_str());
        },
        Action::Enqueue { selector, count } => {
            push_word(words, "enqueue");
            match selector {
                Selector::Radio => {
                    push_word(words, "radio");
                },
                Selector::Query(q) => {
                    push_word(words, "query");
                    push_word(words, q.as_str());
                },
                Selector::Genre(g) => {
                    push_word(words, "genre");
                    push_word(words, g.as_str());
                },
                _ => return false,
            }
            push_word(words, number::dec_u64(*count as u64).as_str());
        },
        Action::Wake { .. } => return false,
        Action::PlayNow { .. } => return false,
        Action::Remove { sel } => {
            push_word(words, "remove");
            push_qselector(words, sel);
        },
        Action::Play { sel } => {
            push_word(words, "play");
            push_qselector(words, sel);
        },
        Action::Move { sel, dest } => {
            push_word(words, "move");
            push_qselector(words, sel);
            push_word(words, "to");
            match dest {
                MoveDest::Position(n) => {
                    push_word(words, "pos");
                    push_word(words, number::dec_usize(*n).as_str());
                },
                MoveDest::Relative(d) => {
                    push_word(words, "rel");
                    push_word(words, number::dec_i64(*d as i64).as_str());
                },
            }
        },
        Action::Clear { scope } => {
            push_word(words, "clear");
            match scope {
                ClearScope::All => {
                    push_word(words, "all");
                },
                ClearScope::AfterCurrent => {
                    push_word(words, "after");
                },
                ClearScope::Range { start: x, end: y } => {
                    push_word(words, "range");
                    push_word(words, number::dec_usize(*x).as_str());
                    push_word(words, number::dec_usize(*y).as_str());
                },
            }
        },
        Action::Noop => {
            push_word(words, "noop");
        },
    }
    assert(text::texts(words@) =~= start + action_words(*a)->0);
    true
}

/// Words as a line, unless one of them holds a control character.
fn write_line(words: &[String]) -> (r: Option<String>)
    ensures
        r is None <==> any_control(text::texts(words@)),
        r matches Some(s) ==> s@ == line_of(text::texts(words@)),
{
    let mut toks: Vec<String> = Vec::new();
    let n: usize = words.len();
    let ghost all = text::texts(words@);
    let mut i: usize = 0;
    while i < n
        invariant
            i <= n == words@.len(),
            all == text::texts(words@),
            text::texts(toks@) == token_texts(all).take(i as int),
            forall|k: int| 0 <= k < i ==> !has_control(#[trigger] all[k]),
        decreases n - i,
    {
        broadcast use text::texts_push;

        match dsl_value(words[i].as_str()) {
            Some(t) => {
                toks.push(t);
            },
            None => {
                assert(has_control(all[i as int]));
                return None;
            },
        }
        i += 1;
        assert(token_texts(all).take(i as int) =~= token_texts(all).take(i - 1).push(
            token_text(all[i - 1]),
        ));
    }
    assert(token_texts(all).take(n as int) =~= token_texts(all));
    Some(text::join(toks.as_slice(), " "))
}

fn source_label(src: NlSource) -> (r: &'static str)
    ensures
        r@ == label_of(src),
{
    match src {
        NlSource::Rules => "via rules",
        NlSource::Llm => "via local model",
    }
}

/// Who translated, in words.
pub open spec fn label_of(src: NlSource) -> Seq<char> {
    match src {
        NlSource::Rules => "via rules"@,
        NlSource::Llm => "via local model"@,
    }
}

/// A plan in the keyword language, where it can be written in it.
///
/// Whatever is written comes out of a request that adds it as it went into its text: what
/// is confirmed is what is armed.
pub fn render_dsl(raw: &RawPlan) -> (r: Option<String>)
    ensures
        text::opt(r) == plan_line(raw.trigger, raw.action, raw.once),
        r matches Some(s) ==> forall|cmd: MpdCommand| #[trigger]
            command::reads_line("plan add "@ + s@, cmd) ==> round_trip::arms(
                cmd,
                raw.trigger,
                raw.action,
                raw.once,
            ),
{
    let mut words: Vec<String> = Vec::new();
    assert(text::texts(words@) =~= Seq::<Seq<char>>::empty());
    if !push_trigger(&mut words, &raw.trigger) {
        return None;
    }
    push_word(&mut words, "action");
    if !push_action(&mut words, &raw.action) {
        return None;
    }
    if raw.once {
        push_word(&mut words, "once");
    }
    assert(text::texts(words@) =~= plan_words(raw.trigger, raw.action, raw.once)->0);
    let r = write_line(words.as_slice());
    proof {
        if r is Some {
            let s = r->0;
            assert forall|cmd: MpdCommand| #[trigger]
                command::reads_line("plan add "@ + s@, cmd) implies round_trip::arms(
                cmd,
                raw.trigger,
                raw.action,
                raw.once,
            ) by {
                round_trip::plan_reads_back(raw.trigger, raw.action, raw.once, cmd);
            }
        }
    }
    r
}

// ---------------------------------------------------------------------------
// Sentences
// ---------------------------------------------------------------------------

/// A place in words: `1st`, `2nd`, `3rd`, `4th`, `11th`.
pub open spec fn ordinal_text(n: nat) -> Seq<char> {
    let teen = 11 <= n % 100 <= 13;
    number::dec(n) + if n % 10 == 1 && !teen {
        "st"@
    } else if n % 10 == 2 && !teen {
        "nd"@
    } else if n % 10 == 3 && !teen {
        "rd"@
    } else {
        "th"@
    }
}

/// A place in words.
pub fn ordinal(n: usize) -> (r: String)
    ensures
        r@ == ordinal_text(n as nat),
{
    let mut s = number::dec_usize(n);
    let teen = 11 <= n % 100 && n % 100 <= 13;
    if n % 10 == 1 && !teen {
        s.append("st");
    } else if n % 10 == 2 && !teen {
        s.append("nd");
    } else if n % 10 == 3 && !teen {
        s.append("rd");
    } else {
        s.append("th");
    }
    s
}

/// A duration in words: whole minutes, or else seconds.
pub open spec fn duration_text(secs: Real) -> Seq<char> {
    match secs {
        Real::Finite(n) => if n >= 60_000_000_000 && n as int % 60_000_000_000 == 0 {
            number::dec((n as int / 60_000_000_000) as nat) + " min"@
        } else {
            number::show_real(secs) + "s"@
        },
        _ => number::show_real(secs) + "s"@,
    }
}

/// A duration in words.
pub fn human_dur(secs: Real) -> (r: String)
    ensures
        r@ == duration_text(secs),
{
    if let Real::Finite(n) = secs {
        if n >= 60_000_000_000 && n % 60_000_000_000 == 0 {
            let mut s = String::new();
            number::push_dec(&mut s, (n / 60_000_000_000) as u128);
            s.append(" min");
            assert(s@ =~= duration_text(secs));
            return s;
        }
    }
    let mut s = number::real_text(secs);
    s.append("s");
    s
}

/// When a plan is done, in words.
pub open spec fn when_text(t: RawTrigger) -> Seq<char> {
    match t {
        RawTrigger::Immediate => "now"@,
        RawTrigger::QueuePosition { n, base } => match base {
            PosBase::CurrentIsOne => "when the "@ + ordinal_text(n as nat)
                + " track (counting current as #1) starts"@,
            PosBase::Absolute => "when the "@ + ordinal_text(n as nat)
                + " track in the queue starts"@,
        },
        RawTrigger::TrackAfterCurrent => "after the current track"@,
        RawTrigger::AlbumBoundary { track } => "after the current album ends"@,
        RawTrigger::SpanElapsed { secs } => "in "@ + duration_text(secs),
        RawTrigger::WallClock { at } => match civil::minute_text(at.secs, at.nanos) {
            Some(s) => "at "@ + s + " UTC"@,
            None => "at an unknown time"@,
        },
        RawTrigger::TimeRemaining { track, secs } => "with "@ + duration_text(secs)
            + " left on the track"@,
    }
}

fn describe_when(t: &RawTrigger) -> (r: String)
    ensures
        r@ == when_text(*t),
{
    match t {
        RawTrigger::Immediate => "now".to_owned(),
        RawTrigger::QueuePosition { n, base } => {
            let mut s = "when the ".to_owned();
            s.append(ordinal(*n).as_str());
            match base {
                PosBase::CurrentIsOne => {
                    s.append(" track (counting current as #1) starts");
                },
                PosBase::Absolute => {
                    s.append(" track in the queue starts");
                },
            }
            s
        },
        RawTrigger::TrackAfterCurrent => "after the current track".to_owned(),
        RawTrigger::AlbumBoundary { .. } => "after the current album ends".to_owned(),
        RawTrigger::SpanElapsed { secs } => {
            let mut s = "in ".to_owned();
            s.append(human_dur(*secs).as_str());
            s
        },
        RawTrigger::WallClock { at } => match civil::to_minute(*at) {
            Some(m) => {
                let mut s = "at ".to_owned();
                s.append(m.as_str());
                s.append(" UTC");
                s
            },
            None => "at an unknown time".to_owned(),
        },
        RawTrigger::TimeRemaining { track: _, secs } => {
            let mut s = "with ".to_owned();
            s.append(human_dur(*secs).as_str());
            s.append(" left on the track");
            s
        },
    }
}

/// Tracks to add, in words.
pub open spec fn tracks_text(sel: Selector) -> Seq<char> {
    match sel {
        Selector::Genre(g) => g@ + " tracks"@,
        Selector::Query(q) => "tracks matching \""@ + q@ + "\""@,
        Selector::Radio => "random tracks"@,
        Selector::Similar(_) => "similar tracks"@,
        Selector::SimilarToCurrent => "similar tracks"@,
        Selector::Calmer(_) => "calmer tracks"@,
        Selector::Exact(_) => "tracks"@,
    }
}

fn describe_tracks(sel: &Selector) -> (r: String)
    ensures
        r@ == tracks_text(*sel),
{
    match sel {
        Selector::Genre(g) => {
            let mut s = g.clone();
            s.append(" tracks");
            s
        },
        Selector::Query(q) => {
            let mut s = "tracks matching \"".to_owned();
            s.append(q.as_str());
            s.append("\"");
            s
        },
        Selector::Radio => "random tracks".to_owned(),
        Selector::Similar(_) => "similar tracks".to_owned(),
        Selector::SimilarToCurrent => "similar tracks".to_owned(),
        Selector::Calmer(_) => "calmer tracks".to_owned(),
        Selector::Exact(_) => "tracks".to_owned(),
    }
}

/// Tracks that a wake alarm adds, in words.
pub open spec fn wake_tracks_text(sel: Selector) -> Seq<char> {
    match sel {
        Selector::Genre(_) => tracks_text(sel),
        Selector::Query(_) => tracks_text(sel),
        Selector::Radio => tracks_text(sel),
        _ => "tracks"@,
    }
}

/// Entries of the queue, in words.
pub open spec fn entries_text(sel: QueueSelector) -> Seq<char> {
    match sel {
        QueueSelector::Position(n) => "the "@ + ordinal_text(n as nat) + " track in the queue"@,
        QueueSelector::Range { start, end } => "tracks "@ + number::dec(start as nat) + " to "@
            + number::dec(end as nat) + " of the queue"@,
        QueueSelector::QueryMatch(q) => "queued tracks matching \""@ + q@ + "\""@,
        QueueSelector::Current => "the current track"@,
        QueueSelector::Last(n) => "the last "@ + number::dec(n as nat) + " tracks of the queue"@,
    }
}

fn describe_entries(sel: &QueueSelector) -> (r: String)
    ensures
        r@ == entries_text(*sel),
{
    match sel {
        QueueSelector::Position(n) => {
            let mut s = "the ".to_owned();
            s.append(ordinal(*n).as_str());
            s.append(" track in the queue");
            s
        },
        QueueSelector::Range { start, end } => {
            let mut s = "tracks ".to_owned();
            s.append(number::dec_usize(*start).as_str());
            s.append(" to ");
            s.append(number::dec_usize(*end).as_str());
            s.append(" of the queue");
            s
        },
        QueueSelector::QueryMatch(q) => {
            let mut s = "queued tracks matching \"".to_owned();
            s.append(q.as_str());
            s.append("\"");
            s
        },
        QueueSelector::Current => "the current track".to_owned(),
        QueueSelector::Last(n) => {
            let mut s = "the last ".to_owned();
            s.append(number::dec_usize(*n).as_str());
            s.append(" tracks of the queue");
            s
        },
    }
}

/// A place that entries are moved to, in words.
pub open spec fn place_text(dest: MoveDest) -> Seq<char> {
    match dest {
        MoveDest::Position(n) => "position "@ + number::dec(n as nat),
        MoveDest::Relative(d) => number::dec_int(d as int) + " from the current track"@,
    }
}

fn describe_place(dest: &MoveDest) -> (r: String)
    ensures
        r@ == place_text(*dest),
{
    match dest {
        MoveDest::Position(n) => {
            let mut s = "position ".to_owned();
            s.append(number::dec_usize(*n).as_str());
            s
        },
        MoveDest::Relative(d) => {
            let mut s = number::dec_i64(*d as i64);
            s.append(" from the current track");
            s
        },
    }
}

/// What a plan does, in words.
pub open spec fn what_text(a: Action) -> Seq<char> {
    match a {
        Action::Fade(FadeIntentIr::Out { secs }) => "fade OUT over "@ + duration_text(secs),
        Action::Fade(FadeIntentIr::In { secs }) => "fade IN over "@ + duration_text(secs),
        Action::Fade(FadeIntentIr::To { target_db, vol, secs }) => "fade to volume "@
            + number::dec(vol as nat) + " over "@ + duration_text(secs),
        Action::Fade(FadeIntentIr::ToFloor { secs }) => "wind DOWN to the quiet floor over "@
            + duration_text(secs),
        Action::Fade(FadeIntentIr::WakeTo { target_db, vol, secs }) => "wake UP to volume "@
            + number::dec(vol as nat) + " over "@ + duration_text(secs),
        Action::Stop => "stop playback"@,
        Action::Pause => "pause playback"@,
        Action::SetVolume(v) => "set volume to "@ + number::dec(v as nat),
        Action::Enqueue { selector, count } => "add "@ + number::dec(count as nat) + " "@
            + tracks_text(selector) + " to the END of the queue (append-only)"@,
        Action::Wake { selector: Some(s), count } => "wake: enqueue "@ + number::dec(count as nat)
            + " "@ + wake_tracks_text(s) + ", then ramp up from silence"@,
        Action::Wake { selector: None, count } =>
            "wake: ramp up from silence to the saved comfort level"@,
        Action::Remove { sel } => "remove "@ + entries_text(sel),
        Action::Move { sel, dest } => "move "@ + entries_text(sel) + " to "@ + place_text(dest),
        Action::Clear { scope: ClearScope::All } => "clear the whole queue"@,
        Action::Clear { scope: ClearScope::AfterCurrent } =>
            "clear the queue after the current track"@,
        Action::Clear { scope: ClearScope::Range { start, end } } => "clear tracks "@ + number::dec(
            start as nat,
        ) + " to "@ + number::dec(end as nat) + " of the queue"@,
        Action::Play { sel } => "play "@ + entries_text(sel),
        Action::PlayNow { selector, count } => "add "@ + number::dec(count as nat) + " "@
            + tracks_text(selector) + " to the END of the queue and play them"@,
        Action::Noop => "do nothing"@,
    }
}

fn two(a: &str, b: &str) -> (r: String)
    ensures
        r@ == a@ + b@,
{
    let mut s = a.to_owned();
    s.append(b);
    s
}

fn describe_count(a: &str, count: u32, b: &str, c: &str) -> (r: String)
    ensures
        r@ == a@ + number::dec(count as nat) + " "@ + b@ + c@,
{
    let mut s = a.to_owned();
    s.append(number::dec_u64(count as u64).as_str());
    s.append(" ");
    s.append(b);
    s.append(c);
    s
}

fn describe_what(a: &Action) -> (r: String)
    ensures
        r@ == what_text(*a),
{
    match a {
        Action::Fade(FadeIntentIr::Out { secs }) => two("fade OUT over ", human_dur(*secs).as_str()),
        Action::Fade(FadeIntentIr::In { secs }) => two("fade IN over ", human_dur(*secs).as_str()),
        Action::Fade(FadeIntentIr::To { target_db: _, vol, secs }) => {
            let mut s = two("fade to volume ", number::dec_u64(*vol as u64).as_str());
            s.append(" over ");
            s.append(human_dur(*secs).as_str());
            s
        },
        Action::Fade(FadeIntentIr::ToFloor { secs }) => two(
            "wind DOWN to the quiet floor over ",
            human_dur(*secs).as_str(),
        ),
        Action::Fade(FadeIntentIr::WakeTo { target_db: _, vol, secs }) => {
            let mut s = two("wake UP to volume ", number::dec_u64(*vol as u64).as_str());
            s.append(" over ");
            s.append(human_dur(*secs).as_str());
            s
        },
        Action::Stop => "stop playback".to_owned(),
        Action::Pause => "pause playback".to_owned(),
        Action::SetVolume(v) => two("set volume to ", number::dec_u64(*v as u64).as_str()),
        Action::Enqueue { selector, count } => describe_count(
            "add ",
            *count,
            describe_tracks(selector).as_str(),
            " to the END of the queue (append-only)",
        ),
        Action::Wake { selector: Some(sel), count } => {
            let what = match sel {
                Selector::Genre(_) => describe_tracks(sel),
                Selector::Query(_) => describe_tracks(sel),
                Selector::Radio => describe_tracks(sel),
                _ => "tracks".to_owned(),
            };
            describe_count("wake: enqueue ", *count, what.as_str(), ", then ramp up from silence")
        },
        Action::Wake { selector: None, count: _ } =>
            "wake: ramp up from silence to the saved comfort level".to_owned(),
        Action::Remove { sel } => two("remove ", describe_entries(sel).as_str()),
        Action::Move { sel, dest } => {
            let mut s = two("move ", describe_entries(sel).as_str());
            s.append(" to ");
            s.append(describe_place(dest).as_str());
            s
        },
        Action::Clear { scope: ClearScope::All } => "clear the whole queue".to_owned(),
        Action::Clear { scope: ClearScope::AfterCurrent } =>
            "clear the queue after the current track".to_owned(),
        Action::Clear { scope: ClearScope::Range { start, end } } => {
            let mut s = two("clear tracks ", number::dec_usize(*start).as_str());
            s.append(" to ");
            s.append(number::dec_usize(*end).as_str());
            s.append(" of the queue");
            s
        },
        Action::Play { sel } => two("play ", describe_entries(sel).as_str()),
        Action::PlayNow { selector, count } => describe_count(
            "add ",
            *count,
            describe_tracks(selector).as_str(),
            " to the END of the queue and play them",
        ),
        Action::Noop => "do nothing".to_owned(),
    }
}

/// A plan in words.
pub open spec fn plan_text(raw: RawPlan) -> Seq<char> {
    what_text(raw.action) + " "@ + when_text(raw.trigger)
}

/// A plan in words: what, and when.
pub fn describe_plan(raw: &RawPlan) -> (r: String)
    ensures
        r@ == plan_text(*raw),
{
    let mut s = describe_what(&raw.action);
    s.append(" ");
    s.append(describe_when(&raw.trigger).as_str());
    s
}

/// The plans only add tracks at a point of civil time, among other things at that time:
/// an alarm that could not start playback.
pub open spec fn is_silent_wake(plans: Seq<RawPlan>) -> bool {
    &&& plans.len() > 1
    &&& forall|i: int| 0 <= i < plans.len() ==> (#[trigger] plans[i]).trigger is WallClock
    &&& exists|i: int| 0 <= i < plans.len() && (#[trigger] plans[i]).action is Enqueue
}

/// The numbered sentence of the plan at `i`.
pub open spec fn clause_text(plans: Seq<RawPlan>, i: int) -> Seq<char> {
    "["@ + number::dec((i + 1) as nat) + "] "@ + plan_text(plans[i])
}

/// The clauses of a translation: who translated, each plan, and a note on an alarm that
/// could not start playback.
pub open spec fn batch_clauses(plans: Seq<RawPlan>, src: NlSource) -> Seq<Seq<char>> {
    seq![label_of(src)] + Seq::new(plans.len(), |i: int| clause_text(plans, i))
        + if is_silent_wake(plans) {
        seq![
            "NOTE: this appends tracks and fades in; a TRUE wake also needs a play/skip action (Enqueue is append-only)"@,
        ]
    } else {
        Seq::empty()
    }
}

/// A translation in words, on one line.
pub fn describe_batch(plans: &[RawPlan], src: NlSource) -> (r: String)
    ensures
        r@ == text::joined(batch_clauses(plans@, src), " | "@),
{
    broadcast use text::texts_push;

    let mut lines: Vec<String> = Vec::new();
    let n: usize = plans.len();
    assert(text::texts(lines@) =~= Seq::<Seq<char>>::empty());
    lines.push(source_label(src).to_owned());
    let ghost head = seq![label_of(src)];
    let ghost clauses = Seq::new(plans@.len(), |i: int| clause_text(plans@, i));
    let mut all_clock = true;
    let mut any_enqueue = false;
    let mut i: usize = 0;
    assert(text::texts(lines@) =~= head + clauses.take(0));
    while i < n
        invariant
            i <= n == plans@.len(),
            clauses == Seq::new(plans@.len(), |i: int| clause_text(plans@, i)),
            text::texts(lines@) == head + clauses.take(i as int),
            all_clock <==> forall|k: int|
                0 <= k < i ==> (#[trigger] plans@[k]).trigger is WallClock,
            any_enqueue <==> exists|k: int|
                0 <= k < i && (#[trigger] plans@[k]).action is Enqueue,
        decreases n - i,
    {
        broadcast use text::texts_push;

        let p = &plans[i];
        let mut s = "[".to_owned();
        s.append(number::dec_u64(i as u64 + 1).as_str());
        s.append("] ");
        s.append(describe_plan(p).as_str());
        assert(s@ =~= clause_text(plans@, i as int));
        lines.push(s);
        match p.trigger {
            RawTrigger::WallClock { .. } => {},
            _ => {
                assert(!(plans@[i as int].trigger is WallClock));
                all_clock = false;
            },
        }
        match &p.action {
            Action::Enqueue { .. } => {
                assert(plans@[i as int].action is Enqueue);
                any_enqueue = true;
            },
            _ => {},
        }
        i += 1;
        assert(clauses.take(i as int) =~= clauses.take(i - 1).push(clauses[i - 1]));
        assert(text::texts(lines@) =~= head + clauses.take(i as int));
    }
    assert(clauses.take(n as int) =~= clauses);
    if n > 1 && all_clock && any_enqueue {
        lines.push(
            "NOTE: this appends tracks and fades in; a TRUE wake also needs a play/skip action (Enqueue is append-only)".to_owned(),
        );
    }
    assert(text::texts(lines@) =~= batch_clauses(plans@, src));
    text::join(lines.as_slice(), " | ")
}

// ---------------------------------------------------------------------------
// Laws
// ---------------------------------------------------------------------------

/// A place ends as it is spoken: in `st`, `nd` and `rd` behind a one, a two and a three,
/// but not behind a teen, and in `th` behind everything else.
pub proof fn places_end_as_they_are_spoken(tens: nat, d: nat)
    requires
        d < 10,
    ensures
        ({
            let n = 10 * tens + d;
            let end = if tens % 10 == 1 {
                "th"@
            } else if d == 1 {
                "st"@
            } else if d == 2 {
                "nd"@
            } else if d == 3 {
                "rd"@
            } else {
                "th"@
            };
            ordinal_text(n) == number::dec(n) + end
        }),
{
    let n = 10 * tens + d;
    assert(n % 10 == d);
    assert(n % 100 == 10 * (tens % 10) + d);
}

/// Whole minutes are told in minutes, and everything else in seconds, to the last place.
pub proof fn durations_are_told_in_whole_minutes(m: nat, k: nat)
    requires
        m * 60_000_000_000 <= number::REAL_LIMIT,
        k <= number::REAL_LIMIT,
        k % 60_000_000_000 != 0 || k == 0,
    ensures
        m > 0 ==> duration_text(Real::Finite((m * 60_000_000_000) as i128)) == number::dec(m)
            + " min"@,
        duration_text(Real::Finite(k as i128)) == number::show_billionths(k) + "s"@,
{
    let n = m * 60_000_000_000;
    assert(n % 60_000_000_000 == 0 && n / 60_000_000_000 == m);
}

/// What is confirmed says when: a place counted as it was meant, a span or what is left of
/// the track, and for the rest the moment itself.
pub proof fn a_sentence_says_when(n: usize, secs: Real, track: TrackSel)
    ensures
        when_text(RawTrigger::Immediate) == "now"@,
        when_text(RawTrigger::TrackAfterCurrent) == "after the current track"@,
        when_text(RawTrigger::AlbumBoundary { track }) == "after the current album ends"@,
        when_text(RawTrigger::SpanElapsed { secs }) == "in "@ + duration_text(secs),
        when_text(RawTrigger::TimeRemaining { track, secs }) == "with "@ + duration_text(secs)
            + " left on the track"@,
        when_text(RawTrigger::QueuePosition { n, base: PosBase::CurrentIsOne }) == "when the "@
            + ordinal_text(n as nat) + " track (counting current as #1) starts"@,
        when_text(RawTrigger::QueuePosition { n, base: PosBase::Absolute }) == "when the "@
            + ordinal_text(n as nat) + " track in the queue starts"@,
{
}

/// What is confirmed says what: which way a fade goes, to which volume and for how long,
/// what is added and how much of it, and which entries are meant.
pub proof fn a_sentence_says_what(
    secs: Real,
    target_db: Real,
    v: u8,
    c: u32,
    q: String,
    n: usize,
    m: usize,
    d: i32,
)
    ensures
        what_text(Action::Stop) == "stop playback"@,
        what_text(Action::Pause) == "pause playback"@,
        what_text(Action::Noop) == "do nothing"@,
        what_text(Action::SetVolume(v)) == "set volume to "@ + number::dec(v as nat),
        what_text(Action::Fade(FadeIntentIr::Out { secs })) == "fade OUT over "@ + duration_text(
            secs,
        ),
        what_text(Action::Fade(FadeIntentIr::In { secs })) == "fade IN over "@
            + duration_text(secs),
        what_text(Action::Fade(FadeIntentIr::To { target_db, vol: v, secs })) == "fade to volume "@
            + number::dec(v as nat) + " over "@ + duration_text(secs),
        what_text(Action::Fade(FadeIntentIr::ToFloor { secs }))
            == "wind DOWN to the quiet floor over "@ + duration_text(secs),
        what_text(Action::Fade(FadeIntentIr::WakeTo { target_db, vol: v, secs }))
            == "wake UP to volume "@ + number::dec(v as nat) + " over "@ + duration_text(secs),
        what_text(Action::Enqueue { selector: Selector::Radio, count: c }) == "add "@ + number::dec(
            c as nat,
        ) + " "@ + "random tracks"@ + " to the END of the queue (append-only)"@,
        what_text(Action::Enqueue { selector: Selector::Genre(q), count: c }) == "add "@
            + number::dec(c as nat) + " "@ + (q@ + " tracks"@)
            + " to the END of the queue (append-only)"@,
        what_text(Action::Remove { sel: QueueSelector::Last(n) }) == "remove "@ + ("the last "@
            + number::dec(n as nat) + " tracks of the queue"@),
        what_text(Action::Play { sel: QueueSelector::Position(n) }) == "play "@ + ("the "@
            + ordinal_text(n as nat) + " track in the queue"@),
        what_text(Action::Move { sel: QueueSelector::Current, dest: MoveDest::Position(n) })
            == "move "@ + "the current track"@ + " to "@ + ("position "@ + number::dec(n as nat)),
        what_text(Action::Move { sel: QueueSelector::Current, dest: MoveDest::Relative(d) })
            == "move "@ + "the current track"@ + " to "@ + (number::dec_int(d as int)
            + " from the current track"@),
        what_text(Action::Clear { scope: ClearScope::All }) == "clear the whole queue"@,
        what_text(Action::Clear { scope: ClearScope::AfterCurrent })
            == "clear the queue after the current track"@,
        what_text(Action::Remove { sel: QueueSelector::Range { start: n, end: m } }) == "remove "@
            + (
        "tracks "@ + number::dec(n as nat) + " to "@ + number::dec(m as nat) + " of the queue"@),
{
}

/// A translation tells who translated, then each plan under its number, counted from one,
/// what before when.
pub proof fn every_plan_is_told(plans: Seq<RawPlan>, src: NlSource, i: int)
    requires
        0 <= i < plans.len(),
    ensures
        ({
            let all = batch_clauses(plans, src);
            &&& src is Rules ==> all[0] == "via rules"@
            &&& src is Llm ==> all[0] == "via local model"@
            &&& all[i + 1] == "["@ + number::dec((i + 1) as nat) + "] "@ + (what_text(
                plans[i].action,
            ) + " "@ + when_text(plans[i].trigger))
            &&& all.len() == plans.len() + 1 || all.len() == plans.len() + 2
        }),
{
    let all = batch_clauses(plans, src);
    assert(all[i + 1] == clause_text(plans, i));
}

} // verus!
