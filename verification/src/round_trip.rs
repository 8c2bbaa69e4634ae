//! What is written in the keyword language reads back as what was written.

use vstd::prelude::*;

use crate::civil;
use crate::echo;
use crate::mpd::args;
use crate::mpd::command;
use crate::mpd::command::{MpdCommand, PlanCmd};
use crate::mpd::dsl;
use crate::mpd::tokens;
use crate::number;
use crate::number::Real;
use crate::plan::{
    Action, ClearScope, FadeIntentIr, MoveDest, QueueSelector, RawTrigger, Selector,
};
use crate::softvol;
use crate::text;

verus! {

// ---------------------------------------------------------------------------
// Words and tokens
// ---------------------------------------------------------------------------

/// The character behind its backslash, where it needs one.
spec fn escaped_char(c: char) -> Seq<char> {
    if c == '"' || c == '\\' {
        seq!['\\', c]
    } else {
        seq![c]
    }
}

proof fn escaped_from_front(s: Seq<char>)
    requires
        s.len() > 0,
    ensures
        echo::escaped(s) == escaped_char(s[0]) + echo::escaped(s.drop_first()),
    decreases s.len(),
{
    let rest = s.drop_first();
    if s.len() == 1 {
        assert(s.drop_last() =~= Seq::<char>::empty());
        assert(rest =~= Seq::<char>::empty());
        assert(echo::escaped(s.drop_last()) =~= Seq::<char>::empty());
        assert(echo::escaped(s) =~= escaped_char(s[0]) + echo::escaped(rest));
    } else {
        escaped_from_front(s.drop_last());
        assert(s.drop_last().drop_first() =~= rest.drop_last());
        assert(rest.last() == s.last());
        assert(echo::escaped(s) =~= escaped_char(s[0]) + echo::escaped(rest));
    }
}

/// A text between quotes reads back, and what follows it is left.
pub proof fn quoted_reads_back(w: Seq<char>, r: Seq<char>)
    ensures
        tokens::quoted(echo::escaped(w) + seq!['"'] + r) == (w, r),
    decreases w.len(),
{
    let s = echo::escaped(w) + seq!['"'] + r;
    if w.len() == 0 {
        assert(s[0] == '"');
        assert(s.drop_first() =~= r);
        assert(w =~= Seq::<char>::empty());
    } else {
        let v = w.drop_first();
        escaped_from_front(w);
        quoted_reads_back(v, r);
        let t = echo::escaped(v) + seq!['"'] + r;
        if w[0] == '"' || w[0] == '\\' {
            assert(s[0] == '\\');
            assert(s[1] == w[0]);
            assert(s.skip(2) =~= t);
        } else {
            assert(s[0] == w[0]);
            assert(s.drop_first() =~= t);
        }
        assert(seq![w[0]] + v =~= w);
    }
}

/// A word written as a token reads back, before a space and at the end of the line.
pub proof fn token_reads_back(w: Seq<char>, r: Seq<char>)
    requires
        r.len() > 0 ==> r[0] == ' ',
    ensures
        tokens::tokens(echo::token_text(w) + r) == seq![w] + tokens::tokens(r),
{
    let s = echo::token_text(w) + r;
    if echo::needs_quotes(w) {
        assert(s[0] == '"');
        assert(s.drop_first() =~= echo::escaped(w) + seq!['"'] + r);
        quoted_reads_back(w, r);
    } else {
        assert(!echo::is_special(w[0]));
        assert(s[0] == w[0]);
        text::word_len_bound(s);
        let n = text::word_len(s) as int;
        if n < w.len() {
            assert(s[n] == w[n]);
            assert(!echo::is_special(w[n]));
        }
        if n > w.len() {
            assert(s[w.len() as int] == r[0]);
        }
        assert(s.take(n) =~= w);
        assert(s.skip(n) =~= r);
    }
}

/// Words written on a line read back.
pub proof fn line_reads_back(words: Seq<Seq<char>>, r: Seq<char>)
    requires
        r.len() > 0 ==> r[0] == ' ',
        words.len() > 0,
    ensures
        tokens::tokens(echo::line_of(words) + r) == words + tokens::tokens(r),
    decreases words.len(),
{
    reveal_strlit(" ");
    let w = words.last();
    let toks = echo::token_texts(words);
    token_reads_back(w, r);
    if words.len() == 1 {
        assert(echo::line_of(words) == echo::token_text(w));
        assert(words =~= seq![w]);
    } else {
        let init = words.drop_last();
        let more = " "@ + echo::token_text(w) + r;
        assert(toks.drop_last() =~= echo::token_texts(init));
        assert(echo::line_of(words) + r =~= echo::line_of(init) + more);
        line_reads_back(init, more);
        assert(more.drop_first() =~= echo::token_text(w) + r);
        assert(init + (seq![w] + tokens::tokens(r)) =~= words + tokens::tokens(r));
    }
}

/// A word of lower-case letters.
spec fn plain(s: Seq<char>) -> bool {
    s.len() > 0 && forall|i: int| 0 <= i < s.len() ==> 'a' <= #[trigger] s[i] <= 'z'
}

/// A text that begins like a number.
spec fn numeric(s: Seq<char>) -> bool {
    s.len() > 0 && (text::is_digit(s[0]) || s[0] == '-')
}

proof fn plain_is_lower(s: Seq<char>)
    requires
        plain(s),
    ensures
        text::lower(s) == s,
        text::ascii_lower(s) == s,
{
    assert(text::ascii_lower(s) =~= s);
    assert(text::ascii(s));
}

proof fn plain_words_differ(a: Seq<char>, b: Seq<char>)
    requires
        plain(a),
        plain(b),
    ensures
        args::alike(a, b) == (a == b),
{
    plain_is_lower(a);
    plain_is_lower(b);
}

proof fn numbers_are_no_words(a: Seq<char>, b: Seq<char>)
    requires
        numeric(a),
        plain(b),
    ensures
        !args::alike(a, b),
{
    plain_is_lower(b);
    assert(text::ascii_lower(a)[0] == a[0]);
    assert(b[0] >= 'a');
}

proof fn dec_is_numeric(n: nat)
    ensures
        numeric(number::dec(n)),
{
    number::dec_reads_back(n);
    assert(text::is_digit(number::dec(n)[0]));
}

proof fn first_word_at(toks: Seq<Seq<char>>, w: Seq<char>, i: int, k: int)
    requires
        0 <= i <= k < toks.len(),
        forall|j: int| i <= j < k ==> !args::alike(#[trigger] toks[j], w),
        args::alike(toks[k], w),
    ensures
        args::first_word(toks, w, i) == Some(k),
    decreases k - i,
{
    if i < k {
        first_word_at(toks, w, i + 1, k);
    }
}

proof fn secs_read_back(secs: Real)
    requires
        echo::sayable_secs(secs),
    ensures
        dsl::secs_of(number::show_real(secs)) == Some(secs),
        numeric(number::show_real(secs)),
{
    let n = secs->Finite_0;
    let s = number::show_real(secs);
    number::shown_real_reads_back(secs);
    number::shown_billionths_read_back(n as nat);
    number::shown_billionths_are_multiplied(n as nat, 1);
    reveal_strlit("s");
    assert(s[0] != '-');
    assert(s.last() != 's');
    if text::ends(s, "s"@) {
        assert(s.subrange(s.len() - 1, s.len() as int)[0] == s.last());
        assert(false);
    }
    dec_is_numeric(n as nat / 1_000_000_000);
    assert(s[0] == number::dec(n as nat / 1_000_000_000)[0]);
}

// ---------------------------------------------------------------------------
// Triggers
// ---------------------------------------------------------------------------

/// What the words of a trigger read as, and which word they are not.
spec fn trigger_read(t: RawTrigger) -> bool {
    let w = echo::trigger_words(t)->0;
    &&& w.len() >= 2
    &&& w[0] == "trigger"@
    &&& dsl::trigger_of(w.skip(1)) == Some(t)
    &&& forall|i: int| 0 <= i < w.len() ==> !args::alike(#[trigger] w[i], "action"@)
}

proof fn reveal_trigger_words()
    ensures
        plain("trigger"@) && "trigger"@.len() == 7,
        plain("action"@) && "action"@.len() == 6,
        plain("immediate"@) && "immediate"@.len() == 9,
        plain("after"@) && "after"@.len() == 5 && "after"@[1] == 'f',
        plain("track"@) && "track"@.len() == 5 && "track"@[1] == 'r',
        plain("remaining"@) && "remaining"@.len() == 9,
        plain("album"@) && "album"@.len() == 5 && "album"@[1] == 'l',
        plain("in"@) && "in"@.len() == 2 && "in"@[0] == 'i',
        plain("at"@) && "at"@.len() == 2 && "at"@[0] == 'a',
        plain("base"@) && "base"@.len() == 4,
        plain("current"@) && "current"@.len() == 7,
        plain("absolute"@) && "absolute"@.len() == 8,
{
    reveal_strlit("trigger");
    reveal_strlit("action");
    reveal_strlit("immediate");
    reveal_strlit("after");
    reveal_strlit("track");
    reveal_strlit("remaining");
    reveal_strlit("album");
    reveal_strlit("in");
    reveal_strlit("at");
    reveal_strlit("base");
    reveal_strlit("current");
    reveal_strlit("absolute");
}

/// A keyword of a trigger: it is not the one that begins the action.
proof fn trigger_keyword(w: Seq<char>)
    requires
        plain(w),
        w.len() != 6,
    ensures
        !args::alike(w, "action"@),
        text::lower(w) == w,
{
    reveal_trigger_words();
    plain_words_differ(w, "action"@);
    plain_is_lower(w);
}

#[verifier::spinoff_prover]
#[verifier::rlimit(60)]
proof fn position_reads_back(t: RawTrigger)
    requires
        t is QueuePosition,
    ensures
        trigger_read(t),
{
    let w = echo::trigger_words(t)->0;
    let v = w.skip(1);
    reveal_trigger_words();
    trigger_keyword("trigger"@);
    trigger_keyword("track"@);
    trigger_keyword("base"@);
    trigger_keyword("current"@);
    trigger_keyword("absolute"@);
    if let RawTrigger::QueuePosition { n, base } = t {
        let d = number::dec(n as nat);
        dec_is_numeric(n as nat);
        number::dec_is_unsigned(n as nat, usize::MAX as nat);
        numbers_are_no_words(d, "action"@);
        numbers_are_no_words(d, "base"@);
        plain_words_differ("track"@, "base"@);
        plain_words_differ("base"@, "base"@);
        assert(v[0] == "track"@ && v[1] == d && v[2] == "base"@);
        first_word_at(v, "base"@, 0, 2);
        assert(args::keyword(v, 3) == Some(v[3]));
        assert("current"@ != "absolute"@);
        assert(dsl::base_of(v) == Some(base));
        assert(dsl::trigger_of(v) == Some(t));
    }
}

#[verifier::spinoff_prover]
#[verifier::rlimit(60)]
proof fn trigger_reads_back(t: RawTrigger)
    requires
        echo::trigger_words(t) is Some,
    ensures
        trigger_read(t),
{
    let w = echo::trigger_words(t)->0;
    let v = w.skip(1);
    if t is QueuePosition {
        position_reads_back(t);
    } else {
        reveal_trigger_words();
        trigger_keyword("trigger"@);
        trigger_keyword("immediate"@);
        trigger_keyword("after"@);
        trigger_keyword("album"@);
        trigger_keyword("in"@);
        trigger_keyword("at"@);
        assert(v[0] == w[1]);
        match t {
            RawTrigger::AlbumBoundary { track } => {
                assert(args::tail(v, 1) =~= Seq::<Seq<char>>::empty());
            },
            RawTrigger::SpanElapsed { secs } => {
                secs_read_back(secs);
                numbers_are_no_words(w[2], "action"@);
                assert(v[1] == w[2]);
            },
            RawTrigger::WallClock { at } => {
                numbers_are_no_words(w[2], "action"@);
                assert(v[1] == w[2]);
            },
            _ => {},
        }
        assert(dsl::trigger_of(v) == Some(t));
    }
}

// ---------------------------------------------------------------------------
// Actions
// ---------------------------------------------------------------------------

/// Entries that are the same.
pub open spec fn same_entries(a: QueueSelector, b: QueueSelector) -> bool {
    match (a, b) {
        (QueueSelector::QueryMatch(x), QueueSelector::QueryMatch(y)) => x@ == y@,
        _ => a == b,
    }
}

/// Actions that are the same but for the level of a fade, which is the one that goes
/// with its volume.
pub open spec fn same_said(a: Action, b: Action) -> bool {
    match (a, b) {
        (
            Action::Fade(FadeIntentIr::To { target_db: _, vol: v, secs: s }),
            Action::Fade(FadeIntentIr::To { target_db, vol, secs }),
        ) => v == vol && s == secs && target_db == Real::Finite(softvol::level_of(v) as i128),
        (
            Action::Enqueue { selector: Selector::Query(x), count: n },
            Action::Enqueue { selector: Selector::Query(y), count: m },
        ) => x@ == y@ && n == m,
        (
            Action::Enqueue { selector: Selector::Genre(x), count: n },
            Action::Enqueue { selector: Selector::Genre(y), count: m },
        ) => x@ == y@ && n == m,
        (Action::Remove { sel: x }, Action::Remove { sel: y }) => same_entries(x, y),
        (Action::Play { sel: x }, Action::Play { sel: y }) => same_entries(x, y),
        (Action::Move { sel: x, dest: d }, Action::Move { sel: y, dest: e }) => same_entries(x, y)
            && d == e,
        _ => a == b,
    }
}

proof fn reveal_selector_words()
    ensures
        plain("current"@) && "current"@.len() == 7,
        plain("pos"@) && "pos"@.len() == 3,
        plain("last"@) && "last"@.len() == 4 && "last"@[0] == 'l',
        plain("range"@) && "range"@.len() == 5 && "range"@[0] == 'r',
        plain("match"@) && "match"@.len() == 5 && "match"@[0] == 'm',
        plain("to"@) && "to"@.len() == 2,
        plain("rel"@) && "rel"@.len() == 3 && "rel"@[0] == 'r',
        "pos"@[0] == 'p',
        plain("origin"@) && "origin"@.len() == 6 && "origin"@[0] == 'o',
        plain("once"@) && "once"@.len() == 4 && "once"@[0] == 'o',
{
    reveal_strlit("current");
    reveal_strlit("pos");
    reveal_strlit("last");
    reveal_strlit("range");
    reveal_strlit("match");
    reveal_strlit("to");
    reveal_strlit("rel");
    reveal_strlit("origin");
    reveal_strlit("once");
}

/// A word that neither ends an action nor parts it.
spec fn inert(s: Seq<char>) -> bool {
    !args::alike(s, "origin"@) && !args::alike(s, "once"@) && !args::alike(s, "to"@)
}

proof fn plain_is_inert(s: Seq<char>)
    requires
        plain(s),
        s.len() != 2,
        s.len() == 4 || s.len() == 6 ==> s[0] != 'o',
    ensures
        inert(s),
        text::lower(s) == s,
{
    reveal_selector_words();
    plain_is_lower(s);
    plain_words_differ(s, "origin"@);
    plain_words_differ(s, "once"@);
    plain_words_differ(s, "to"@);
}

proof fn numeric_is_inert(s: Seq<char>)
    requires
        numeric(s),
    ensures
        inert(s),
{
    reveal_selector_words();
    numbers_are_no_words(s, "origin"@);
    numbers_are_no_words(s, "once"@);
    numbers_are_no_words(s, "to"@);
}

proof fn place_reads_back(n: usize)
    ensures
        number::unsigned_of(number::dec(n as nat), usize::MAX as nat) == Some(n as nat),
        inert(number::dec(n as nat)),
{
    dec_is_numeric(n as nat);
    numeric_is_inert(number::dec(n as nat));
    number::dec_is_unsigned(n as nat, usize::MAX as nat);
}

#[verifier::spinoff_prover]
#[verifier::rlimit(60)]
proof fn qselector_reads_back(sel: QueueSelector)
    ensures
        ({
            let w = echo::qselector_words(sel);
            &&& w.len() > 0
            &&& forall|r: Option<QueueSelector>| #[trigger]
                dsl::reads_qselector(w, r) ==> r is Some && same_entries(sel, r->0)
            &&& forall|i: int|
                0 <= i < w.len() && !(sel is QueryMatch && i == 1) ==> inert(#[trigger] w[i])
        }),
{
    reveal_selector_words();
    let w = echo::qselector_words(sel);
    plain_is_inert("current"@);
    plain_is_inert("pos"@);
    plain_is_inert("last"@);
    plain_is_inert("range"@);
    plain_is_inert("match"@);
    match sel {
        QueueSelector::Current => {},
        QueueSelector::Position(n) => {
            place_reads_back(n);
        },
        QueueSelector::Last(n) => {
            place_reads_back(n);
        },
        QueueSelector::Range { start, end } => {
            place_reads_back(start);
            place_reads_back(end);
        },
        QueueSelector::QueryMatch(q) => {},
    }
}

#[verifier::spinoff_prover]
#[verifier::rlimit(60)]
proof fn movedest_reads_back(dest: MoveDest)
    ensures
        ({
            let w = echo::movedest_words(dest);
            &&& w.len() == 2
            &&& dsl::movedest_of(w) == Some(dest)
            &&& inert(w[0])
            &&& inert(w[1])
        }),
{
    reveal_selector_words();
    plain_is_inert("pos"@);
    plain_is_inert("rel"@);
    match dest {
        MoveDest::Position(n) => {
            place_reads_back(n);
        },
        MoveDest::Relative(d) => {
            number::dec_int_is_signed(d as int, i32::MAX as nat);
            let s = number::dec_int(d as int);
            if d >= 0 {
                dec_is_numeric(d as nat);
            }
            assert(numeric(s));
            numeric_is_inert(s);
        },
    }
}

/// What the words of an action read as, and that none behind its text ends it.
spec fn action_read(a: Action) -> bool {
    let w = echo::action_words(a)->0;
    let k = dsl::text_end(w);
    &&& w.len() > 0
    &&& k <= w.len()
    &&& forall|r: Option<Action>| #[trigger]
        dsl::reads_action(w, r) ==> r is Some && same_said(a, r->0)
    &&& forall|i: int| k <= i < w.len() ==> !args::alike(#[trigger] w[i], "origin"@)
    &&& !dsl::ends_once(w)
}

/// What follows an action does not change where its text ends.
proof fn text_ends_before_once(w: Seq<Seq<char>>)
    requires
        w.len() > 0,
    ensures
        dsl::text_end(w.push("once"@)) == dsl::text_end(w),
{
    reveal_selector_words();
    reveal_strlit("query");
    reveal_strlit("genre");
    plain_is_lower("once"@);
    let v = w.push("once"@);
    assert(v[0] == w[0]);
    if w.len() > 1 {
        assert(v[1] == w[1]);
    } else {
        assert(args::keyword(v, 1) == Some("once"@));
    }
}

proof fn reveal_action_words()
    ensures
        plain("stop"@) && "stop"@.len() == 4 && "stop"@[0] == 's',
        plain("pause"@) && "pause"@.len() == 5 && "pause"@[0] == 'p',
        plain("setvol"@) && "setvol"@.len() == 6 && "setvol"@[0] == 's',
        plain("fade"@) && "fade"@.len() == 4 && "fade"@[0] == 'f',
        plain("enqueue"@) && "enqueue"@.len() == 7,
        plain("remove"@) && "remove"@.len() == 6 && "remove"@[0] == 'r',
        plain("play"@) && "play"@.len() == 4 && "play"@[0] == 'p',
        plain("noop"@) && "noop"@.len() == 4 && "noop"@[0] == 'n',
        plain("clear"@) && "clear"@.len() == 5 && "clear"@[0] == 'c',
        plain("move"@) && "move"@.len() == 4 && "move"@[0] == 'm',
{
    reveal_strlit("stop");
    reveal_strlit("pause");
    reveal_strlit("setvol");
    reveal_strlit("fade");
    reveal_strlit("enqueue");
    reveal_strlit("remove");
    reveal_strlit("play");
    reveal_strlit("noop");
    reveal_strlit("clear");
    reveal_strlit("move");
}

#[verifier::spinoff_prover]
#[verifier::rlimit(60)]
proof fn simple_action_reads_back(a: Action)
    requires
        a is Stop || a is Pause || a is SetVolume || a is Noop,
    ensures
        action_read(a),
{
    reveal_action_words();
    plain_is_inert("stop"@);
    plain_is_inert("pause"@);
    plain_is_inert("setvol"@);
    plain_is_inert("noop"@);
    if let Action::SetVolume(v) = a {
        dec_is_numeric(v as nat);
        numeric_is_inert(number::dec(v as nat));
        number::dec_is_unsigned(v as nat, u8::MAX as nat);
    }
}

/// The words of a fade: what it is, and that none of them ends it.
proof fn fade_words(kind: Seq<char>)
    requires
        kind == "out"@ || kind == "in"@ || kind == "to"@,
    ensures
        text::lower(kind) == kind,
        !args::alike(kind, "origin"@),
        inert("fade"@),
        text::lower("fade"@) == "fade"@,
        "fade"@ != "stop"@ && "fade"@ != "pause"@ && "fade"@ != "setvol"@,
        "out"@ != "in"@ && "out"@ != "to"@ && "in"@ != "to"@,
{
    reveal_action_words();
    reveal_selector_words();
    reveal_strlit("out");
    reveal_strlit("in");
    assert("in"@[0] == 'i');
    assert("to"@[0] == 't') by {
        reveal_strlit("to");
    }
    plain_is_inert("fade"@);
    assert(plain(kind));
    plain_is_lower(kind);
    plain_words_differ(kind, "origin"@);
}

#[verifier::spinoff_prover]
#[verifier::rlimit(60)]
proof fn fade_reads_back(a: Action)
    requires
        a is Fade,
        echo::action_words(a) is Some,
    ensures
        action_read(a),
{
    let w = echo::action_words(a)->0;
    fade_words(w[1]);
    assert(args::keyword(w, 0) == Some("fade"@));
    assert(args::keyword(w, 1) == Some(w[1]));
    match a {
        Action::Fade(FadeIntentIr::Out { secs }) => {
            secs_read_back(secs);
            numeric_is_inert(w[2]);
            assert(dsl::fade_of(w) == Some(FadeIntentIr::Out { secs }));
        },
        Action::Fade(FadeIntentIr::In { secs }) => {
            secs_read_back(secs);
            numeric_is_inert(w[2]);
            assert(dsl::fade_of(w) == Some(FadeIntentIr::In { secs }));
        },
        Action::Fade(FadeIntentIr::To { target_db, vol, secs }) => {
            secs_read_back(secs);
            dec_is_numeric(vol as nat);
            number::dec_is_unsigned(vol as nat, u8::MAX as nat);
            numeric_is_inert(w[2]);
            numeric_is_inert(w[3]);
        },
        _ => {},
    }
}

#[verifier::spinoff_prover]
#[verifier::rlimit(60)]
proof fn enqueue_reads_back(a: Action)
    requires
        a is Enqueue,
        echo::action_words(a) is Some,
    ensures
        action_read(a),
{
    reveal_action_words();
    reveal_strlit("radio");
    reveal_strlit("query");
    reveal_strlit("genre");
    plain_is_inert("enqueue"@);
    plain_is_inert("radio"@);
    plain_is_inert("query"@);
    plain_is_inert("genre"@);
    let w = echo::action_words(a)->0;
    if let Action::Enqueue { selector, count } = a {
        dec_is_numeric(count as nat);
        number::dec_is_unsigned(count as nat, u32::MAX as nat);
        numeric_is_inert(number::dec(count as nat));
    }
}

#[verifier::spinoff_prover]
#[verifier::rlimit(60)]
proof fn clear_reads_back(a: Action)
    requires
        a is Clear,
    ensures
        action_read(a),
{
    reveal_action_words();
    reveal_selector_words();
    reveal_strlit("all");
    reveal_strlit("after");
    plain_is_inert("clear"@);
    plain_is_inert("all"@);
    plain_is_inert("after"@);
    plain_is_inert("range"@);
    if let Action::Clear { scope: ClearScope::Range { start, end } } = a {
        place_reads_back(start);
        place_reads_back(end);
    }
}

#[verifier::spinoff_prover]
#[verifier::rlimit(60)]
proof fn entries_action_reads_back(a: Action)
    requires
        a is Remove || a is Play,
    ensures
        action_read(a),
{
    reveal_action_words();
    plain_is_inert("remove"@);
    plain_is_inert("play"@);
    let sel = match a {
        Action::Remove { sel } => sel,
        Action::Play { sel } => sel,
        _ => arbitrary(),
    };
    let w = echo::action_words(a)->0;
    let v = echo::qselector_words(sel);
    qselector_reads_back(sel);
    let k = dsl::text_end(w);
    assert(w.skip(1) =~= v);
    assert(w[1] == v[0]);
    reveal_selector_words();
    plain_is_lower("match"@);
    assert(sel is QueryMatch ==> k == 3 && w.len() == 3);
    assert forall|i: int| k <= i < w.len() implies inert(#[trigger] w[i]) by {
        if i > 0 {
            assert(w[i] == v[i - 1]);
        }
    }
    assert(w.len() > k ==> w.last() == w[w.len() - 1]);
}

/// Where the text of a move ends.
proof fn move_text_end(w: Seq<Seq<char>>, sel: QueueSelector)
    requires
        w.len() >= 2,
        w[0] == "move"@,
        w[1] == echo::qselector_words(sel)[0],
    ensures
        dsl::text_end(w) == (if sel is QueryMatch {
            3int
        } else {
            0
        }),
{
    reveal_action_words();
    reveal_selector_words();
    plain_is_lower("move"@);
    plain_is_lower("current"@);
    plain_is_lower("pos"@);
    plain_is_lower("last"@);
    plain_is_lower("range"@);
    plain_is_lower("match"@);
    assert("move"@.len() != "enqueue"@.len());
    assert("range"@[0] != "match"@[0]);
}

#[verifier::spinoff_prover]
#[verifier::rlimit(60)]
proof fn move_reads_back(a: Action)
    requires
        a is Move,
    ensures
        action_read(a),
{
    reveal_action_words();
    reveal_selector_words();
    plain_is_inert("move"@);
    plain_words_differ("to"@, "to"@);
    plain_words_differ("to"@, "origin"@);
    let (sel, dest) = match a {
        Action::Move { sel, dest } => (sel, dest),
        _ => arbitrary(),
    };
    let w = echo::action_words(a)->0;
    let v = echo::qselector_words(sel);
    let d = echo::movedest_words(dest);
    let p = 1 + v.len() as int;
    qselector_reads_back(sel);
    movedest_reads_back(dest);
    let k = dsl::text_end(w);
    assert(w[p] == "to"@);
    assert(w[1] == v[0]);
    move_text_end(w, sel);
    assert forall|j: int| k <= j < p implies !args::alike(#[trigger] w[j], "to"@) by {
        if j > 0 {
            assert(w[j] == v[j - 1]);
        }
    }
    first_word_at(w, "to"@, k, p);
    assert(w.subrange(1, p) =~= v);
    assert(w.skip(p + 1) =~= d);
    assert forall|i: int| k <= i < w.len() implies !args::alike(#[trigger] w[i], "origin"@) by {
        if 0 < i < p {
            assert(w[i] == v[i - 1]);
        }
        if i > p {
            assert(w[i] == d[i - p - 1]);
        }
    }
    assert(w.last() == d[1]);
}

proof fn action_reads_back(a: Action)
    requires
        echo::action_words(a) is Some,
    ensures
        action_read(a),
{
    match a {
        Action::Fade(_) => fade_reads_back(a),
        Action::Enqueue { .. } => enqueue_reads_back(a),
        Action::Clear { .. } => clear_reads_back(a),
        Action::Remove { .. } => entries_action_reads_back(a),
        Action::Play { .. } => entries_action_reads_back(a),
        Action::Move { .. } => move_reads_back(a),
        _ => simple_action_reads_back(a),
    }
}

// ---------------------------------------------------------------------------
// Plans
// ---------------------------------------------------------------------------

proof fn no_first_word(toks: Seq<Seq<char>>, w: Seq<char>, i: int)
    requires
        0 <= i,
        forall|j: int| i <= j < toks.len() ==> !args::alike(#[trigger] toks[j], w),
    ensures
        args::first_word(toks, w, i) is None,
    decreases toks.len() - i,
{
    if i < toks.len() {
        no_first_word(toks, w, i + 1);
    }
}

/// A command that arms this plan.
pub open spec fn arms(cmd: MpdCommand, trigger: RawTrigger, action: Action, once: bool) -> bool {
    &&& cmd matches MpdCommand::Plan(PlanCmd::Add(plan))
    &&& plan.version == 1
    &&& plan.trigger == trigger
    &&& same_said(action, plan.action)
    &&& plan.once == once
    &&& plan.origin@ == "mpd"@
}

#[verifier::spinoff_prover]
#[verifier::rlimit(60)]
proof fn words_read_back(trigger: RawTrigger, action: Action, once: bool, r: Option<
    crate::plan::RawPlan,
>)
    requires
        echo::plan_words(trigger, action, once) is Some,
        dsl::reads_raw_plan(echo::plan_words(trigger, action, once)->0, r),
    ensures
        r is Some,
        arms(MpdCommand::Plan(PlanCmd::Add(r->0)), trigger, action, once),
{
    let toks = echo::plan_words(trigger, action, once)->0;
    let t = echo::trigger_words(trigger)->0;
    let a = echo::action_words(action)->0;
    let p = t.len() as int;
    trigger_reads_back(trigger);
    action_reads_back(action);
    text_ends_before_once(a);
    reveal_selector_words();
    reveal_strlit("action");
    reveal_strlit("trigger");
    plain_words_differ("action"@, "action"@);
    plain_words_differ("trigger"@, "trigger"@);
    plain_words_differ("once"@, "once"@);
    plain_words_differ("once"@, "origin"@);
    assert(toks[p] == "action"@);
    assert forall|j: int| 0 <= j < p implies !args::alike(#[trigger] toks[j], "action"@) by {
        assert(toks[j] == t[j]);
    }
    first_word_at(toks, "action"@, 0, p);
    let behind = toks.skip(p + 1);
    assert(toks[0] == "trigger"@);
    assert(toks.subrange(1, p) =~= t.skip(1));
    if once {
        assert(behind =~= a.push("once"@));
        assert(behind.drop_last() =~= a);
    } else {
        assert(behind =~= a);
    }
    let k = dsl::text_end(a);
    assert(dsl::text_end(behind) == k);
    assert forall|j: int| k <= j < behind.len() implies !args::alike(
        #[trigger] behind[j],
        "origin"@,
    ) by {
        if j < a.len() {
            assert(behind[j] == a[j]);
        }
    }
    no_first_word(behind, "origin"@, k);
    assert(dsl::without_origin(behind) == behind);
    assert(dsl::without_once(behind) == a);
    assert(dsl::reads_action(a, Some(r->0.action)) || dsl::reads_action(a, None));
}

/// No other request is named `plan`.
#[verifier::spinoff_prover]
#[verifier::rlimit(60)]
proof fn plan_is_a_name(a: Seq<Seq<char>>, line: Seq<char>, cmd: MpdCommand)
    requires
        command::reads_command("plan"@, a, line, cmd),
    ensures
        command::reads_plan(a, line, cmd),
{
    command::names_of_requests();
    reveal_strlit("play");
    reveal_strlit("plan");
    assert("play"@[3] == 'y' && "plan"@[3] == 'n');
}

/// A plan that was written in the keyword language, asked for with `plan add`, is the
/// plan that is armed.
pub proof fn plan_reads_back(trigger: RawTrigger, action: Action, once: bool, cmd: MpdCommand)
    requires
        echo::plan_words(trigger, action, once) is Some,
        command::reads_line(
            "plan add "@ + echo::line_of(echo::plan_words(trigger, action, once)->0),
            cmd,
        ),
    ensures
        arms(cmd, trigger, action, once),
{
    let words = echo::plan_words(trigger, action, once)->0;
    let body = echo::line_of(words);
    let line = "plan add "@ + body;
    reveal_strlit("plan add ");
    reveal_strlit("plan");
    reveal_strlit("add");
    reveal_strlit("list");
    reveal_strlit("cancel");
    trigger_reads_back(trigger);
    let none = Seq::<char>::empty();
    line_reads_back(words, none);
    assert(body + none =~= body);
    assert(tokens::tokens(none) =~= Seq::<Seq<char>>::empty());
    assert(words + tokens::tokens(none) =~= words);
    let r1 = seq![' '] + body;
    let r0 = " add "@ + body;
    reveal_strlit(" add ");
    assert(!echo::needs_quotes("plan"@)) by {
        assert(forall|i: int| 0 <= i < 4 ==> !echo::is_special(#[trigger] "plan"@[i]));
    }
    assert(!echo::needs_quotes("add"@)) by {
        assert(forall|i: int| 0 <= i < 3 ==> !echo::is_special(#[trigger] "add"@[i]));
    }
    token_reads_back("plan"@, r0);
    token_reads_back("add"@, r1);
    assert(line =~= "plan"@ + r0);
    assert(r0.drop_first() =~= "add"@ + r1);
    assert(r1.drop_first() =~= body);
    assert(tokens::tokens(r1) == words);
    assert(tokens::tokens(r0) == seq!["add"@] + words);
    let t = tokens::tokens(line);
    assert(t =~= seq!["plan"@, "add"@] + words);
    plain_is_lower("plan"@);
    plain_is_lower("add"@);
    let a = t.skip(1);
    plan_is_a_name(a, line, cmd);
    assert(a.skip(1) =~= words);
    match cmd {
        MpdCommand::Plan(PlanCmd::Add(plan)) => {
            words_read_back(trigger, action, once, Some(plan));
        },
        _ => {
            words_read_back(trigger, action, once, None);
        },
    }
}

} // verus!
