//! The keyword language of plans.
//!
//! A plan reads `trigger <TRIGGER> action <ACTION> [once] [origin <text>]`, where a
//! trigger is one of `immediate`, `track <n> [base current|absolute]`, `after`,
//! `remaining <secs> [<track>]`, `album [<track>]`, `in <secs>` and `at <rfc3339>`, and
//! an action one of `fade out|in <secs>`, `fade to <vol> <secs>`, `stop`, `pause`,
//! `setvol <v>`, `enqueue query|genre <text> [<count>]`, `enqueue radio [<count>]`,
//! `remove <entries>`, `play <entries>`, `move <entries> to <place>`,
//! `clear all|after|range <start> <end>` and `noop`.

use vstd::prelude::*;

use crate::civil;
use crate::civil::CivilTime;
use crate::mpd::args;
use crate::number;
use crate::number::Real;
use crate::plan::{
    Action, ClearScope, FadeIntentIr, MoveDest, PosBase, QueueSelector, RawPlan, RawTrigger,
    Selector, TrackSel,
};
use crate::softvol;
use crate::text;

verus! {

/// The seconds that a token writes, with or without an `s` behind them: a finite number
/// that is not negative, however near to zero.
pub open spec fn secs_of(tok: Seq<char>) -> Option<Real> {
    let t = match text::without_suffix(tok, "s"@) {
        Some(t) => t,
        None => tok,
    };
    match number::real_of(t) {
        Some(Real::Finite(n)) => if n >= 0 && !number::below_zero(t) {
            Some(Real::Finite(n))
        } else {
            None
        },
        _ => None,
    }
}

/// The seconds that the token at `i` writes.
pub open spec fn secs_at(toks: Seq<Seq<char>>, i: int) -> Option<Real> {
    match args::arg(toks, i) {
        Some(t) => secs_of(t),
        None => None,
    }
}

/// The seconds that a token writes.
pub fn parse_secs(tok: &str) -> (r: Option<Real>)
    ensures
        r == secs_of(tok@),
        r matches Some(n) ==> n.wf() && n is Finite,
{
    let t = match text::strip_suffix(tok, "s") {
        Some(t) => t,
        None => tok.to_owned(),
    };
    match number::parse_real(t.as_str()) {
        Some(Real::Finite(n)) => if n >= 0 && !number::is_below_zero(t.as_str()) {
            Some(Real::Finite(n))
        } else {
            None
        },
        _ => None,
    }
}

fn secs_arg(toks: &[String], i: usize) -> (r: Option<Real>)
    ensures
        r == secs_at(text::texts(toks@), i as int),
{
    match args::arg_str(toks, i) {
        Some(t) => parse_secs(t),
        None => None,
    }
}

/// A number of seconds is the one written, with or without an `s` behind it, to the
/// billionth of a second; below zero there is none.
pub proof fn seconds_are_as_written(k: nat)
    requires
        k <= number::REAL_LIMIT,
    ensures
        secs_of(number::show_billionths(k)) == Some(Real::Finite(k as i128)),
        secs_of(number::show_billionths(k) + "s"@) == Some(Real::Finite(k as i128)),
        k > 0 ==> secs_of(seq!['-'] + number::show_billionths(k)) is None,
        k > 0 ==> secs_of(seq!['-'] + number::show_billionths(k) + "s"@) is None,
{
    let n = number::show_billionths(k);
    let neg = seq!['-'] + n;
    reveal_strlit("s");
    number::shown_billionths_read_back(k);
    number::shown_billionths_are_multiplied(k, 1);
    let last = n[n.len() - 1];
    assert(text::is_digit(last) || last == '.');
    if text::ends(n, "s"@) {
        assert(n.subrange(n.len() - 1, n.len() as int)[0] == last);
    }
    if text::ends(neg, "s"@) {
        assert(neg.subrange(neg.len() - 1, neg.len() as int)[0] == last);
    }
    let a = n + "s"@;
    assert(a.subrange(a.len() - 1, a.len() as int) =~= "s"@);
    assert(a.take(a.len() - 1) =~= n);
    let b = neg + "s"@;
    assert(b.subrange(b.len() - 1, b.len() as int) =~= "s"@);
    assert(b.take(b.len() - 1) =~= neg);
}

/// A text without a digit writes no seconds.
pub proof fn without_digits_there_are_no_seconds(x: Seq<char>)
    requires
        forall|i: int| 0 <= i < x.len() ==> !('0' <= #[trigger] x[i] <= '9'),
    ensures
        secs_of(x) is None,
{
    let t = match text::without_suffix(x, "s"@) {
        Some(t) => t,
        None => x,
    };
    assert forall|i: int| 0 <= i < t.len() implies !('0' <= #[trigger] t[i] <= '9') by {
        assert(t[i] == x[i]);
    }
    number::without_digits_there_is_no_number(t, 1, 0);
}

// ---------------------------------------------------------------------------
// Triggers
// ---------------------------------------------------------------------------

/// The track that the tokens name, as `[track] current|rel <n>|id <n>`; the current one
/// where they name none, and `None` where they name something else.
pub open spec fn track_sel_of(toks: Seq<Seq<char>>) -> Option<TrackSel> {
    let t = if args::is_word(toks, 0, "track"@) {
        toks.skip(1)
    } else {
        toks
    };
    match args::keyword(t, 0) {
        None => Some(TrackSel::Current),
        Some(kw) => if kw == "current"@ {
            Some(TrackSel::Current)
        } else if kw == "rel"@ {
            match args::arg(t, 1) {
                Some(s) => match number::signed_of(s, i32::MAX as nat) {
                    Some(n) => Some(TrackSel::RelToCurrent(n as i32)),
                    None => None,
                },
                None => None,
            }
        } else if kw == "id"@ {
            match args::num(t, 1, u64::MAX as nat) {
                Some(n) => Some(TrackSel::QueueId(n as u64)),
                None => None,
            }
        } else {
            None
        },
    }
}

/// The track that the tokens name.
pub fn parse_track_sel(toks: &[String]) -> (r: Option<TrackSel>)
    ensures
        r == track_sel_of(text::texts(toks@)),
{
    let named = args::has_word(toks, 0, "track");
    let from: usize = if named {
        1
    } else {
        0
    };
    let t = args::tail_of(toks, from);
    assert(text::texts(toks@).skip(0) =~= text::texts(toks@));
    let kw = match args::lower_arg(t, 0) {
        Some(k) => k,
        None => return Some(TrackSel::Current),
    };
    if text::same(kw.as_str(), "current") {
        Some(TrackSel::Current)
    } else if text::same(kw.as_str(), "rel") {
        match args::arg_str(t, 1) {
            Some(s) => match number::parse_i32(s) {
                Some(n) => Some(TrackSel::RelToCurrent(n)),
                None => None,
            },
            None => None,
        }
    } else if text::same(kw.as_str(), "id") {
        match args::u64_arg(t, 1) {
            Some(n) => Some(TrackSel::QueueId(n)),
            None => None,
        }
    } else {
        None
    }
}

/// Where the tokens count places from: from the current track where they do not say, and
/// `None` where they say something else than `current` or `absolute`.
pub open spec fn base_of(toks: Seq<Seq<char>>) -> Option<PosBase> {
    match args::first_word(toks, "base"@, 0) {
        Some(p) => if args::keyword(toks, p + 1) == Some("absolute"@) {
            Some(PosBase::Absolute)
        } else if args::keyword(toks, p + 1) == Some("current"@) {
            Some(PosBase::CurrentIsOne)
        } else {
            None
        },
        None => Some(PosBase::CurrentIsOne),
    }
}

fn parse_base(toks: &[String]) -> (r: Option<PosBase>)
    ensures
        r == base_of(text::texts(toks@)),
{
    let n: usize = toks.len();
    match args::position(toks, "base") {
        Some(p) => match args::lower_arg(toks, p + 1) {
            Some(k) => if text::same(k.as_str(), "absolute") {
                Some(PosBase::Absolute)
            } else if text::same(k.as_str(), "current") {
                Some(PosBase::CurrentIsOne)
            } else {
                None
            },
            None => None,
        },
        None => Some(PosBase::CurrentIsOne),
    }
}

/// The trigger that the tokens write.
pub open spec fn trigger_of(toks: Seq<Seq<char>>) -> Option<RawTrigger> {
    match args::keyword(toks, 0) {
        None => None,
        Some(kw) => if kw == "immediate"@ {
            Some(RawTrigger::Immediate)
        } else if kw == "after"@ {
            Some(RawTrigger::TrackAfterCurrent)
        } else if kw == "track"@ {
            match (args::num(toks, 1, usize::MAX as nat), base_of(toks)) {
                (Some(n), Some(base)) => Some(RawTrigger::QueuePosition { n: n as usize, base }),
                _ => None,
            }
        } else if kw == "remaining"@ {
            match (secs_at(toks, 1), track_sel_of(args::tail(toks, 2))) {
                (Some(secs), Some(track)) => Some(RawTrigger::TimeRemaining { track, secs }),
                _ => None,
            }
        } else if kw == "album"@ {
            match track_sel_of(args::tail(toks, 1)) {
                Some(track) => Some(RawTrigger::AlbumBoundary { track }),
                None => None,
            }
        } else if kw == "in"@ {
            match secs_at(toks, 1) {
                Some(secs) => Some(RawTrigger::SpanElapsed { secs }),
                None => None,
            }
        } else if kw == "at"@ {
            match args::arg(toks, 1) {
                Some(s) => match civil::rfc3339_time(s) {
                    Some((secs, nanos)) => Some(
                        RawTrigger::WallClock { at: CivilTime { secs, nanos } },
                    ),
                    None => None,
                },
                None => None,
            }
        } else {
            None
        },
    }
}

/// The trigger that the tokens write.
pub fn parse_trigger(toks: &[String]) -> (r: Option<RawTrigger>)
    ensures
        r == trigger_of(text::texts(toks@)),
{
    let kw = match args::lower_arg(toks, 0) {
        Some(k) => k,
        None => return None,
    };
    let kw = kw.as_str();
    if text::same(kw, "immediate") {
        Some(RawTrigger::Immediate)
    } else if text::same(kw, "after") {
        Some(RawTrigger::TrackAfterCurrent)
    } else if text::same(kw, "track") {
        match (args::usize_arg(toks, 1), parse_base(toks)) {
            (Some(n), Some(base)) => Some(RawTrigger::QueuePosition { n, base }),
            _ => None,
        }
    } else if text::same(kw, "remaining") {
        match (secs_arg(toks, 1), parse_track_sel(args::tail_of(toks, 2))) {
            (Some(secs), Some(track)) => Some(RawTrigger::TimeRemaining { track, secs }),
            _ => None,
        }
    } else if text::same(kw, "album") {
        match parse_track_sel(args::tail_of(toks, 1)) {
            Some(track) => Some(RawTrigger::AlbumBoundary { track }),
            None => None,
        }
    } else if text::same(kw, "in") {
        match secs_arg(toks, 1) {
            Some(secs) => Some(RawTrigger::SpanElapsed { secs }),
            None => None,
        }
    } else if text::same(kw, "at") {
        match args::arg_str(toks, 1) {
            Some(s) => match civil::parse_rfc3339(s) {
                Some(at) => Some(RawTrigger::WallClock { at }),
                None => None,
            },
            None => None,
        }
    } else {
        None
    }
}

// ---------------------------------------------------------------------------
// Entries of the queue
// ---------------------------------------------------------------------------

/// What the tokens read as, where entries of the queue are expected.
pub open spec fn reads_qselector(toks: Seq<Seq<char>>, r: Option<QueueSelector>) -> bool {
    let max = usize::MAX as nat;
    match args::keyword(toks, 0) {
        None => r is None,
        Some(kw) => if kw == "current"@ {
            r == Some(QueueSelector::Current)
        } else if kw == "pos"@ {
            match args::num(toks, 1, max) {
                Some(n) => r == Some(QueueSelector::Position(n as usize)),
                None => r is None,
            }
        } else if kw == "last"@ {
            match args::num(toks, 1, max) {
                Some(n) => r == Some(QueueSelector::Last(n as usize)),
                None => r is None,
            }
        } else if kw == "range"@ {
            match (args::num(toks, 1, max), args::num(toks, 2, max)) {
                (Some(a), Some(b)) => r == Some(
                    QueueSelector::Range { start: a as usize, end: b as usize },
                ),
                _ => r is None,
            }
        } else if kw == "match"@ {
            match args::arg(toks, 1) {
                Some(q) => r matches Some(QueueSelector::QueryMatch(s)) && s@ == q,
                None => r is None,
            }
        } else {
            r is None
        },
    }
}

/// The entries of the queue that the tokens name.
pub fn parse_qselector(toks: &[String]) -> (r: Option<QueueSelector>)
    ensures
        reads_qselector(text::texts(toks@), r),
{
    let kw = match args::lower_arg(toks, 0) {
        Some(k) => k,
        None => return None,
    };
    let kw = kw.as_str();
    if text::same(kw, "current") {
        Some(QueueSelector::Current)
    } else if text::same(kw, "pos") {
        match args::usize_arg(toks, 1) {
            Some(n) => Some(QueueSelector::Position(n)),
            None => None,
        }
    } else if text::same(kw, "last") {
        match args::usize_arg(toks, 1) {
            Some(n) => Some(QueueSelector::Last(n)),
            None => None,
        }
    } else if text::same(kw, "range") {
        match (args::usize_arg(toks, 1), args::usize_arg(toks, 2)) {
            (Some(start), Some(end)) => Some(QueueSelector::Range { start, end }),
            _ => None,
        }
    } else if text::same(kw, "match") {
        match args::arg_copy(toks, 1) {
            Some(q) => Some(QueueSelector::QueryMatch(q)),
            None => None,
        }
    } else {
        None
    }
}

/// The place that the tokens name, where entries are moved to.
pub open spec fn movedest_of(toks: Seq<Seq<char>>) -> Option<MoveDest> {
    match args::keyword(toks, 0) {
        None => None,
        Some(kw) => if kw == "pos"@ {
            match args::num(toks, 1, usize::MAX as nat) {
                Some(n) => Some(MoveDest::Position(n as usize)),
                None => None,
            }
        } else if kw == "rel"@ {
            match args::arg(toks, 1) {
                Some(s) => match number::signed_of(s, i32::MAX as nat) {
                    Some(n) => Some(MoveDest::Relative(n as i32)),
                    None => None,
                },
                None => None,
            }
        } else {
            None
        },
    }
}

/// The place that the tokens name, where entries are moved to.
pub fn parse_movedest(toks: &[String]) -> (r: Option<MoveDest>)
    ensures
        r == movedest_of(text::texts(toks@)),
{
    let kw = match args::lower_arg(toks, 0) {
        Some(k) => k,
        None => return None,
    };
    if text::same(kw.as_str(), "pos") {
        match args::usize_arg(toks, 1) {
            Some(n) => Some(MoveDest::Position(n)),
            None => None,
        }
    } else if text::same(kw.as_str(), "rel") {
        match args::arg_str(toks, 1) {
            Some(s) => match number::parse_i32(s) {
                Some(n) => Some(MoveDest::Relative(n)),
                None => None,
            },
            None => None,
        }
    } else {
        None
    }
}

/// How much of the queue the tokens say to clear.
pub open spec fn clear_scope_of(toks: Seq<Seq<char>>) -> Option<ClearScope> {
    let max = usize::MAX as nat;
    match args::keyword(toks, 1) {
        None => None,
        Some(kw) => if kw == "all"@ {
            Some(ClearScope::All)
        } else if kw == "after"@ {
            Some(ClearScope::AfterCurrent)
        } else if kw == "range"@ {
            match (args::num(toks, 2, max), args::num(toks, 3, max)) {
                (Some(a), Some(b)) => Some(
                    ClearScope::Range { start: a as usize, end: b as usize },
                ),
                _ => None,
            }
        } else {
            None
        },
    }
}

fn parse_clear_scope(toks: &[String]) -> (r: Option<ClearScope>)
    ensures
        r == clear_scope_of(text::texts(toks@)),
{
    let kw = match args::lower_arg(toks, 1) {
        Some(k) => k,
        None => return None,
    };
    if text::same(kw.as_str(), "all") {
        Some(ClearScope::All)
    } else if text::same(kw.as_str(), "after") {
        Some(ClearScope::AfterCurrent)
    } else if text::same(kw.as_str(), "range") {
        match (args::usize_arg(toks, 2), args::usize_arg(toks, 3)) {
            (Some(start), Some(end)) => Some(ClearScope::Range { start, end }),
            _ => None,
        }
    } else {
        None
    }
}

// ---------------------------------------------------------------------------
// Actions
// ---------------------------------------------------------------------------

/// The fade that the tokens write.
pub open spec fn fade_of(toks: Seq<Seq<char>>) -> Option<FadeIntentIr> {
    match args::keyword(toks, 1) {
        None => None,
        Some(kw) => if kw == "out"@ {
            match secs_at(toks, 2) {
                Some(secs) => Some(FadeIntentIr::Out { secs }),
                None => None,
            }
        } else if kw == "in"@ {
            match secs_at(toks, 2) {
                Some(secs) => Some(FadeIntentIr::In { secs }),
                None => None,
            }
        } else if kw == "to"@ {
            match (args::num(toks, 2, u8::MAX as nat), secs_at(toks, 3)) {
                (Some(v), Some(secs)) => Some(
                    FadeIntentIr::To {
                        target_db: Real::Finite(softvol::level_of(v as u8) as i128),
                        vol: v as u8,
                        secs,
                    },
                ),
                _ => None,
            }
        } else {
            None
        },
    }
}

fn parse_fade_action(toks: &[String]) -> (r: Option<FadeIntentIr>)
    ensures
        r == fade_of(text::texts(toks@)),
{
    let kw = match args::lower_arg(toks, 1) {
        Some(k) => k,
        None => return None,
    };
    if text::same(kw.as_str(), "out") {
        match secs_arg(toks, 2) {
            Some(secs) => Some(FadeIntentIr::Out { secs }),
            None => None,
        }
    } else if text::same(kw.as_str(), "in") {
        match secs_arg(toks, 2) {
            Some(secs) => Some(FadeIntentIr::In { secs }),
            None => None,
        }
    } else if text::same(kw.as_str(), "to") {
        match (args::u8_arg(toks, 2), secs_arg(toks, 3)) {
            (Some(vol), Some(secs)) => Some(
                FadeIntentIr::To { target_db: softvol::mpv_volume_to_db(vol), vol, secs },
            ),
            _ => None,
        }
    } else {
        None
    }
}

/// The count that the token at `i` writes: one where there is no token, and `None` where
/// it writes no count.
pub open spec fn count_at(toks: Seq<Seq<char>>, i: int) -> Option<u32> {
    match args::arg(toks, i) {
        Some(s) => match number::unsigned_of(s, u32::MAX as nat) {
            Some(n) => Some(n as u32),
            None => None,
        },
        None => Some(1),
    }
}

fn count_arg(toks: &[String], i: usize) -> (r: Option<u32>)
    ensures
        r == count_at(text::texts(toks@), i as int),
{
    if i < toks.len() {
        args::u32_arg(toks, i)
    } else {
        Some(1)
    }
}

/// What the tokens read as, where tracks to add are expected.
pub open spec fn reads_enqueue(toks: Seq<Seq<char>>, r: Option<Action>) -> bool {
    match args::keyword(toks, 1) {
        None => r is None,
        Some(kw) => if kw == "radio"@ {
            match count_at(toks, 2) {
                Some(count) => r == Some(Action::Enqueue { selector: Selector::Radio, count }),
                None => r is None,
            }
        } else if kw == "query"@ {
            match (args::arg(toks, 2), count_at(toks, 3)) {
                (Some(q), Some(n)) => {
                    &&& r matches Some(Action::Enqueue { selector: Selector::Query(s), count })
                    &&& s@ == q
                    &&& count == n
                },
                _ => r is None,
            }
        } else if kw == "genre"@ {
            match (args::arg(toks, 2), count_at(toks, 3)) {
                (Some(g), Some(n)) => {
                    &&& r matches Some(Action::Enqueue { selector: Selector::Genre(s), count })
                    &&& s@ == g
                    &&& count == n
                },
                _ => r is None,
            }
        } else {
            r is None
        },
    }
}

fn parse_enqueue(toks: &[String]) -> (r: Option<Action>)
    ensures
        reads_enqueue(text::texts(toks@), r),
{
    let kw = match args::lower_arg(toks, 1) {
        Some(k) => k,
        None => return None,
    };
    if text::same(kw.as_str(), "radio") {
        match count_arg(toks, 2) {
            Some(count) => Some(Action::Enqueue { selector: Selector::Radio, count }),
            None => None,
        }
    } else if text::same(kw.as_str(), "query") {
        match (args::arg_copy(toks, 2), count_arg(toks, 3)) {
            (Some(q), Some(count)) => Some(
                Action::Enqueue { selector: Selector::Query(q), count },
            ),
            _ => None,
        }
    } else if text::same(kw.as_str(), "genre") {
        match (args::arg_copy(toks, 2), count_arg(toks, 3)) {
            (Some(g), Some(count)) => Some(
                Action::Enqueue { selector: Selector::Genre(g), count },
            ),
            _ => None,
        }
    } else {
        None
    }
}

/// How many tokens an action takes up to and with a text that may be any word: none where
/// it holds no such text. What follows an action is looked for behind them.
pub open spec fn text_end(toks: Seq<Seq<char>>) -> int {
    match (args::keyword(toks, 0), args::keyword(toks, 1)) {
        (Some(a), Some(b)) => if (a == "enqueue"@ && (b == "query"@ || b == "genre"@)) || ((a
            == "remove"@ || a == "play"@ || a == "move"@) && b == "match"@) {
            3
        } else {
            0
        },
        _ => 0,
    }
}

fn end_of_text(toks: &[String]) -> (r: usize)
    ensures
        r == text_end(text::texts(toks@)),
{
    match (args::lower_arg(toks, 0), args::lower_arg(toks, 1)) {
        (Some(a), Some(b)) => {
            let a = a.as_str();
            let b = b.as_str();
            let adds = text::same(a, "enqueue") && (text::same(b, "query") || text::same(
                b,
                "genre",
            ));
            let edits = (text::same(a, "remove") || text::same(a, "play") || text::same(a, "move"))
                && text::same(b, "match");
            if adds || edits {
                3
            } else {
                0
            }
        },
        _ => 0,
    }
}

/// What the tokens read as, where entries to move are expected.
pub open spec fn reads_move(toks: Seq<Seq<char>>, r: Option<Action>) -> bool {
    match args::first_word(toks, "to"@, text_end(toks)) {
        None => r is None,
        Some(p) => match r {
            Some(Action::Move { sel, dest }) => {
                &&& p >= 1
                &&& reads_qselector(toks.subrange(1, p), Some(sel))
                &&& movedest_of(toks.skip(p + 1)) == Some(dest)
            },
            Some(_) => false,
            None => p < 1 || reads_qselector(toks.subrange(1, p), None) || movedest_of(
                toks.skip(p + 1),
            ) is None,
        },
    }
}

fn parse_move(toks: &[String]) -> (r: Option<Action>)
    ensures
        reads_move(text::texts(toks@), r),
{
    let n: usize = toks.len();
    match args::position_from(toks, "to", end_of_text(toks)) {
        None => None,
        Some(p) => {
            if p < 1 {
                return None;
            }
            let sel = match parse_qselector(args::part(toks, 1, p)) {
                Some(s) => s,
                None => return None,
            };
            let rest = args::part(toks, p + 1, n);
            assert(text::texts(rest@) =~= text::texts(toks@).skip(p + 1));
            match parse_movedest(rest) {
                Some(dest) => Some(Action::Move { sel, dest }),
                None => None,
            }
        },
    }
}

/// What the tokens read as, where an action is expected.
pub open spec fn reads_action(toks: Seq<Seq<char>>, r: Option<Action>) -> bool {
    match args::keyword(toks, 0) {
        None => r is None,
        Some(kw) => if kw == "stop"@ {
            r == Some(Action::Stop)
        } else if kw == "pause"@ {
            r == Some(Action::Pause)
        } else if kw == "setvol"@ {
            match args::num(toks, 1, u8::MAX as nat) {
                Some(v) => r == Some(Action::SetVolume(v as u8)),
                None => r is None,
            }
        } else if kw == "fade"@ {
            match fade_of(toks) {
                Some(f) => r == Some(Action::Fade(f)),
                None => r is None,
            }
        } else if kw == "enqueue"@ {
            reads_enqueue(toks, r)
        } else if kw == "remove"@ {
            match r {
                Some(Action::Remove { sel }) => reads_qselector(toks.skip(1), Some(sel)),
                Some(_) => false,
                None => reads_qselector(toks.skip(1), None),
            }
        } else if kw == "play"@ {
            match r {
                Some(Action::Play { sel }) => reads_qselector(toks.skip(1), Some(sel)),
                Some(_) => false,
                None => reads_qselector(toks.skip(1), None),
            }
        } else if kw == "noop"@ {
            r == Some(Action::Noop)
        } else if kw == "clear"@ {
            match clear_scope_of(toks) {
                Some(scope) => r == Some(Action::Clear { scope }),
                None => r is None,
            }
        } else if kw == "move"@ {
            reads_move(toks, r)
        } else {
            r is None
        },
    }
}

/// The action that the tokens write.
pub fn parse_plan_action(toks: &[String]) -> (r: Option<Action>)
    ensures
        reads_action(text::texts(toks@), r),
{
    let kw = match args::lower_arg(toks, 0) {
        Some(k) => k,
        None => return None,
    };
    let kw = kw.as_str();
    if text::same(kw, "stop") {
        Some(Action::Stop)
    } else if text::same(kw, "pause") {
        Some(Action::Pause)
    } else if text::same(kw, "setvol") {
        match args::u8_arg(toks, 1) {
            Some(v) => Some(Action::SetVolume(v)),
            None => None,
        }
    } else if text::same(kw, "fade") {
        match parse_fade_action(toks) {
            Some(f) => Some(Action::Fade(f)),
            None => None,
        }
    } else if text::same(kw, "enqueue") {
        parse_enqueue(toks)
    } else if text::same(kw, "remove") {
        match parse_qselector(args::tail_of(toks, 1)) {
            Some(sel) => Some(Action::Remove { sel }),
            None => None,
        }
    } else if text::same(kw, "play") {
        match parse_qselector(args::tail_of(toks, 1)) {
            Some(sel) => Some(Action::Play { sel }),
            None => None,
        }
    } else if text::same(kw, "noop") {
        Some(Action::Noop)
    } else if text::same(kw, "clear") {
        match parse_clear_scope(toks) {
            Some(scope) => Some(Action::Clear { scope }),
            None => None,
        }
    } else if text::same(kw, "move") {
        parse_move(toks)
    } else {
        None
    }
}

// ---------------------------------------------------------------------------
// Plans
// ---------------------------------------------------------------------------

/// The tokens between the keywords `trigger`, which may be left out, and `action`.
pub open spec fn trigger_part(toks: Seq<Seq<char>>, action: int) -> Seq<Seq<char>> {
    if args::is_word(toks, 0, "trigger"@) {
        toks.subrange(1, action)
    } else {
        toks.subrange(0, action)
    }
}

/// The tokens behind `action`, without the origin and what follows it. A text that the
/// action is about is no origin, whatever its word is.
pub open spec fn without_origin(toks: Seq<Seq<char>>) -> Seq<Seq<char>> {
    match args::first_word(toks, "origin"@, text_end(toks)) {
        Some(p) => toks.take(p),
        None => toks,
    }
}

/// The origin that the tokens name.
pub open spec fn origin_of(toks: Seq<Seq<char>>) -> Seq<char> {
    let named = match args::first_word(toks, "origin"@, text_end(toks)) {
        Some(p) => args::arg_or_empty(toks, p + 1),
        None => Seq::empty(),
    };
    if named.len() == 0 {
        "mpd"@
    } else {
        named
    }
}

/// The tokens end in `once`, and it is no text that the action is about.
pub open spec fn ends_once(toks: Seq<Seq<char>>) -> bool {
    toks.len() > 0 && toks.len() > text_end(toks) && args::alike(toks.last(), "once"@)
}

/// The tokens without a last `once`.
pub open spec fn without_once(toks: Seq<Seq<char>>) -> Seq<Seq<char>> {
    if ends_once(toks) {
        toks.drop_last()
    } else {
        toks
    }
}

/// What the tokens read as, where a plan is expected.
pub open spec fn reads_raw_plan(toks: Seq<Seq<char>>, r: Option<RawPlan>) -> bool {
    match args::first_word(toks, "action"@, 0) {
        None => r is None,
        Some(p) => {
            let behind = toks.skip(p + 1);
            let body = without_origin(behind);
            match r {
                Some(plan) => {
                    &&& plan.version == 1
                    &&& trigger_of(trigger_part(toks, p)) == Some(plan.trigger)
                    &&& reads_action(without_once(body), Some(plan.action))
                    &&& plan.once == ends_once(body)
                    &&& plan.origin@ == origin_of(behind)
                },
                None => trigger_of(trigger_part(toks, p)) is None || reads_action(
                    without_once(body),
                    None,
                ),
            }
        },
    }
}

/// The plan that the tokens write.
pub fn parse_raw_plan(toks: &[String]) -> (r: Option<RawPlan>)
    ensures
        reads_raw_plan(text::texts(toks@), r),
{
    let n: usize = toks.len();
    let p: usize = match args::position(toks, "action") {
        Some(p) => p,
        None => return None,
    };
    let ghost all = text::texts(toks@);
    let named = args::has_word(toks, 0, "trigger");
    let start: usize = if named {
        1
    } else {
        0
    };
    proof {
        args::first_word_is_first(all, "action"@, 0);
        if named && p == 0 {
            reveal_strlit("trigger");
            reveal_strlit("action");
            assert(args::alike(all[0], "trigger"@));
            assert(args::alike(all[0], "action"@));
            assert(text::ascii_lower("trigger"@).len() == 7);
            assert(text::ascii_lower("action"@).len() == 6);
        }
    }
    let trigger_toks = args::part(toks, start, p);
    let behind = args::part(toks, p + 1, n);
    assert(text::texts(behind@) =~= all.skip(p + 1));
    let m: usize = behind.len();
    let mut origin = String::new();
    let mut end: usize = m;
    if let Some(q) = args::position_from(behind, "origin", end_of_text(behind)) {
        origin = args::arg_or_default(behind, q + 1);
        end = q;
    }
    let body = args::part(behind, 0, end);
    assert(text::texts(body@) =~= without_origin(text::texts(behind@)));
    let once = body.len() > 0 && body.len() > end_of_text(body) && text::same_ignoring_case(body[body.len() - 1].as_str(), "once");
    assert(once == ends_once(text::texts(body@))) by {
        if body@.len() > 0 {
            assert(text::texts(body@).last() == body@[body@.len() - 1]@);
        }
    }
    let len: usize = if once {
        body.len() - 1
    } else {
        body.len()
    };
    let action_toks = args::part(body, 0, len);
    assert(text::texts(action_toks@) =~= without_once(text::texts(body@)));
    let trigger = match parse_trigger(trigger_toks) {
        Some(t) => t,
        None => return None,
    };
    let action = match parse_plan_action(action_toks) {
        Some(a) => a,
        None => return None,
    };
    let origin = if origin.as_str().is_empty() {
        "mpd".to_owned()
    } else {
        origin
    };
    Some(RawPlan { version: 1, trigger, action, once, origin })
}

// ---------------------------------------------------------------------------
// What the words say
// ---------------------------------------------------------------------------

/// What a trigger waits for is what its words say: a place in the queue, counted from the
/// current track unless `base absolute` is said; the end of a track, but for the seconds named;
/// the end of an album; or a span of time. Of which track, the current one, one at a distance
/// from it, or the entry of a number, is said behind `track`.
pub proof fn a_trigger_is_what_its_words_say(n: usize, k: nat, id: u64, d: i32)
    requires
        k <= number::REAL_LIMIT,
    ensures
        trigger_of(seq!["immediate"@]) == Some(RawTrigger::Immediate),
        trigger_of(seq!["after"@]) == Some(RawTrigger::TrackAfterCurrent),
        trigger_of(seq!["track"@, number::dec(n as nat)]) == Some(RawTrigger::QueuePosition { n,
            base: PosBase::CurrentIsOne }),
        trigger_of(seq!["track"@, number::dec(n as nat), "base"@, "current"@])
            == Some(RawTrigger::QueuePosition { n, base: PosBase::CurrentIsOne }),
        trigger_of(seq!["track"@, number::dec(n as nat), "base"@, "absolute"@])
            == Some(RawTrigger::QueuePosition { n, base: PosBase::Absolute }),
        trigger_of(seq!["remaining"@, number::show_billionths(k)])
            == Some(RawTrigger::TimeRemaining { track: TrackSel::Current,
            secs: Real::Finite(k as i128) }),
        trigger_of(seq!["remaining"@, number::show_billionths(k), "track"@, "current"@])
            == Some(RawTrigger::TimeRemaining { track: TrackSel::Current,
            secs: Real::Finite(k as i128) }),
        trigger_of(seq!["remaining"@, number::show_billionths(k), "track"@, "id"@,
            number::dec(id as nat)])
            == Some(RawTrigger::TimeRemaining { track: TrackSel::QueueId(id),
            secs: Real::Finite(k as i128) }),
        trigger_of(seq!["remaining"@, number::show_billionths(k), "track"@, "rel"@,
            number::dec_int(d as int)])
            == Some(RawTrigger::TimeRemaining { track: TrackSel::RelToCurrent(d),
            secs: Real::Finite(k as i128) }),
        trigger_of(seq!["remaining"@, number::show_billionths(k), "id"@, number::dec(id as nat)])
            == Some(RawTrigger::TimeRemaining { track: TrackSel::QueueId(id),
            secs: Real::Finite(k as i128) }),
        trigger_of(seq!["album"@]) == Some(RawTrigger::AlbumBoundary { track: TrackSel::Current }),
        trigger_of(seq!["album"@, "track"@, "current"@])
            == Some(RawTrigger::AlbumBoundary { track: TrackSel::Current }),
        trigger_of(seq!["album"@, "track"@, "id"@, number::dec(id as nat)])
            == Some(RawTrigger::AlbumBoundary { track: TrackSel::QueueId(id) }),
        trigger_of(seq!["album"@, "track"@, "rel"@, number::dec_int(d as int)])
            == Some(RawTrigger::AlbumBoundary { track: TrackSel::RelToCurrent(d) }),
        trigger_of(seq!["album"@, "id"@, number::dec(id as nat)])
            == Some(RawTrigger::AlbumBoundary { track: TrackSel::QueueId(id) }),
        trigger_of(seq!["in"@, number::show_billionths(k)])
            == Some(RawTrigger::SpanElapsed { secs: Real::Finite(k as i128) }),
{
    immediate_trigger(n, k, id, d);
    after_trigger(n, k, id, d);
    place_trigger(n, k, id, d);
    place_from_the_current(n, k, id, d);
    place_from_the_start(n, k, id, d);
    remaining_trigger(n, k, id, d);
    remaining_trigger_of_the_current(n, k, id, d);
    remaining_trigger_of_an_entry(n, k, id, d);
    remaining_trigger_at_a_distance(n, k, id, d);
    remaining_trigger_of_an_entry_alone(n, k, id, d);
    album_trigger(n, k, id, d);
    album_trigger_of_the_current(n, k, id, d);
    album_trigger_of_an_entry(n, k, id, d);
    album_trigger_at_a_distance(n, k, id, d);
    album_trigger_of_an_entry_alone(n, k, id, d);
    span_trigger(n, k, id, d);
}

proof fn immediate_trigger(n: usize, k: nat, id: u64, d: i32)
    requires
        k <= number::REAL_LIMIT,
    ensures
        trigger_of(seq!["immediate"@]) == Some(RawTrigger::Immediate),
{
    let t = seq!["immediate"@];
    reveal_strlit("immediate");
    text::small_letters_stay("immediate"@);
    reveal_strlit("immediate");
    reveal_strlit("after");
    reveal_strlit("track");
    reveal_strlit("remaining");
    reveal_strlit("album");
    reveal_strlit("in");
    reveal_strlit("at");
    assert("immediate"@.len() == 9 && "after"@.len() == 5 && "after"@[0] == 'a'
        && "track"@.len() == 5 && "track"@[0] == 't' && "remaining"@.len() == 9
        && "remaining"@[0] == 'r' && "immediate"@[0] == 'i' && "album"@.len() == 5
        && "album"@[1] == 'l' && "after"@[1] == 'f' && "in"@[0] == 'i' && "at"@[0] == 'a');
}

proof fn after_trigger(n: usize, k: nat, id: u64, d: i32)
    requires
        k <= number::REAL_LIMIT,
    ensures
        trigger_of(seq!["after"@]) == Some(RawTrigger::TrackAfterCurrent),
{
    let t = seq!["after"@];
    reveal_strlit("after");
    text::small_letters_stay("after"@);
    reveal_strlit("immediate");
    reveal_strlit("after");
    reveal_strlit("track");
    reveal_strlit("remaining");
    reveal_strlit("album");
    reveal_strlit("in");
    reveal_strlit("at");
    assert("immediate"@.len() == 9 && "after"@.len() == 5 && "after"@[0] == 'a'
        && "track"@.len() == 5 && "track"@[0] == 't' && "remaining"@.len() == 9
        && "remaining"@[0] == 'r' && "immediate"@[0] == 'i' && "album"@.len() == 5
        && "album"@[1] == 'l' && "after"@[1] == 'f' && "in"@[0] == 'i' && "at"@[0] == 'a');
}

proof fn place_trigger(n: usize, k: nat, id: u64, d: i32)
    requires
        k <= number::REAL_LIMIT,
    ensures
        trigger_of(seq!["track"@, number::dec(n as nat)]) == Some(RawTrigger::QueuePosition { n,
            base: PosBase::CurrentIsOne }),
{
    let t = seq!["track"@, number::dec(n as nat)];
    reveal_strlit("track");
    text::small_letters_stay("track"@);
    reveal_strlit("immediate");
    reveal_strlit("after");
    reveal_strlit("track");
    reveal_strlit("remaining");
    reveal_strlit("album");
    reveal_strlit("in");
    reveal_strlit("at");
    assert("immediate"@.len() == 9 && "after"@.len() == 5 && "after"@[0] == 'a'
        && "track"@.len() == 5 && "track"@[0] == 't' && "remaining"@.len() == 9
        && "remaining"@[0] == 'r' && "immediate"@[0] == 'i' && "album"@.len() == 5
        && "album"@[1] == 'l' && "after"@[1] == 'f' && "in"@[0] == 'i' && "at"@[0] == 'a');
    number::dec_is_unsigned(n as nat, usize::MAX as nat);
    number::dec_reads_back(n as nat);
    assert(text::is_digit(number::dec(n as nat)[0]));
    reveal_strlit("base");
    assert("base"@.len() == 4);
    assert(text::ascii_lower(number::dec(n as nat))[0] == number::dec(n as nat)[0]);
    text::small_letters_stay("base"@);
    assert(!args::alike("track"@, "base"@));
    assert(!args::alike(number::dec(n as nat), "base"@));
    assert(args::first_word(t, "base"@, 2) is None);
    assert(args::first_word(t, "base"@, 1) is None);
    assert(args::first_word(t, "base"@, 0) is None);
}

proof fn place_from_the_current(n: usize, k: nat, id: u64, d: i32)
    requires
        k <= number::REAL_LIMIT,
    ensures
        trigger_of(seq!["track"@, number::dec(n as nat), "base"@, "current"@])
            == Some(RawTrigger::QueuePosition { n, base: PosBase::CurrentIsOne }),
{
    let t = seq!["track"@, number::dec(n as nat), "base"@, "current"@];
    reveal_strlit("track");
    text::small_letters_stay("track"@);
    reveal_strlit("base");
    text::small_letters_stay("base"@);
    reveal_strlit("current");
    text::small_letters_stay("current"@);
    reveal_strlit("immediate");
    reveal_strlit("after");
    reveal_strlit("track");
    reveal_strlit("remaining");
    reveal_strlit("album");
    reveal_strlit("in");
    reveal_strlit("at");
    assert("immediate"@.len() == 9 && "after"@.len() == 5 && "after"@[0] == 'a'
        && "track"@.len() == 5 && "track"@[0] == 't' && "remaining"@.len() == 9
        && "remaining"@[0] == 'r' && "immediate"@[0] == 'i' && "album"@.len() == 5
        && "album"@[1] == 'l' && "after"@[1] == 'f' && "in"@[0] == 'i' && "at"@[0] == 'a');
    number::dec_is_unsigned(n as nat, usize::MAX as nat);
    number::dec_reads_back(n as nat);
    assert(text::is_digit(number::dec(n as nat)[0]));
    reveal_strlit("base");
    assert("base"@.len() == 4);
    assert(text::ascii_lower(number::dec(n as nat))[0] == number::dec(n as nat)[0]);
    text::small_letters_stay("base"@);
    assert(!args::alike("track"@, "base"@));
    assert(!args::alike(number::dec(n as nat), "base"@));
    assert(args::first_word(t, "base"@, 2) == Some(2int));
    assert(args::first_word(t, "base"@, 1) == Some(2int));
    assert(args::first_word(t, "base"@, 0) == Some(2int));
    reveal_strlit("absolute");
    assert("absolute"@.len() == 8 && "current"@.len() == 7);
}

proof fn place_from_the_start(n: usize, k: nat, id: u64, d: i32)
    requires
        k <= number::REAL_LIMIT,
    ensures
        trigger_of(seq!["track"@, number::dec(n as nat), "base"@, "absolute"@])
            == Some(RawTrigger::QueuePosition { n, base: PosBase::Absolute }),
{
    let t = seq!["track"@, number::dec(n as nat), "base"@, "absolute"@];
    reveal_strlit("track");
    text::small_letters_stay("track"@);
    reveal_strlit("base");
    text::small_letters_stay("base"@);
    reveal_strlit("absolute");
    text::small_letters_stay("absolute"@);
    reveal_strlit("immediate");
    reveal_strlit("after");
    reveal_strlit("track");
    reveal_strlit("remaining");
    reveal_strlit("album");
    reveal_strlit("in");
    reveal_strlit("at");
    assert("immediate"@.len() == 9 && "after"@.len() == 5 && "after"@[0] == 'a'
        && "track"@.len() == 5 && "track"@[0] == 't' && "remaining"@.len() == 9
        && "remaining"@[0] == 'r' && "immediate"@[0] == 'i' && "album"@.len() == 5
        && "album"@[1] == 'l' && "after"@[1] == 'f' && "in"@[0] == 'i' && "at"@[0] == 'a');
    number::dec_is_unsigned(n as nat, usize::MAX as nat);
    number::dec_reads_back(n as nat);
    assert(text::is_digit(number::dec(n as nat)[0]));
    reveal_strlit("base");
    assert("base"@.len() == 4);
    assert(text::ascii_lower(number::dec(n as nat))[0] == number::dec(n as nat)[0]);
    text::small_letters_stay("base"@);
    assert(!args::alike("track"@, "base"@));
    assert(!args::alike(number::dec(n as nat), "base"@));
    assert(args::first_word(t, "base"@, 2) == Some(2int));
    assert(args::first_word(t, "base"@, 1) == Some(2int));
    assert(args::first_word(t, "base"@, 0) == Some(2int));
}

proof fn remaining_trigger(n: usize, k: nat, id: u64, d: i32)
    requires
        k <= number::REAL_LIMIT,
    ensures
        trigger_of(seq!["remaining"@, number::show_billionths(k)])
            == Some(RawTrigger::TimeRemaining { track: TrackSel::Current,
            secs: Real::Finite(k as i128) }),
{
    let t = seq!["remaining"@, number::show_billionths(k)];
    reveal_strlit("remaining");
    text::small_letters_stay("remaining"@);
    reveal_strlit("immediate");
    reveal_strlit("after");
    reveal_strlit("track");
    reveal_strlit("remaining");
    reveal_strlit("album");
    reveal_strlit("in");
    reveal_strlit("at");
    assert("immediate"@.len() == 9 && "after"@.len() == 5 && "after"@[0] == 'a'
        && "track"@.len() == 5 && "track"@[0] == 't' && "remaining"@.len() == 9
        && "remaining"@[0] == 'r' && "immediate"@[0] == 'i' && "album"@.len() == 5
        && "album"@[1] == 'l' && "after"@[1] == 'f' && "in"@[0] == 'i' && "at"@[0] == 'a');
    seconds_are_as_written(k);
    assert(args::tail(t, 2) =~= Seq::<Seq<char>>::empty());
}

proof fn remaining_trigger_of_the_current(n: usize, k: nat, id: u64, d: i32)
    requires
        k <= number::REAL_LIMIT,
    ensures
        trigger_of(seq!["remaining"@, number::show_billionths(k), "track"@, "current"@])
            == Some(RawTrigger::TimeRemaining { track: TrackSel::Current,
            secs: Real::Finite(k as i128) }),
{
    let t = seq!["remaining"@, number::show_billionths(k), "track"@, "current"@];
    reveal_strlit("remaining");
    text::small_letters_stay("remaining"@);
    reveal_strlit("track");
    text::small_letters_stay("track"@);
    reveal_strlit("current");
    text::small_letters_stay("current"@);
    reveal_strlit("immediate");
    reveal_strlit("after");
    reveal_strlit("track");
    reveal_strlit("remaining");
    reveal_strlit("album");
    reveal_strlit("in");
    reveal_strlit("at");
    assert("immediate"@.len() == 9 && "after"@.len() == 5 && "after"@[0] == 'a'
        && "track"@.len() == 5 && "track"@[0] == 't' && "remaining"@.len() == 9
        && "remaining"@[0] == 'r' && "immediate"@[0] == 'i' && "album"@.len() == 5
        && "album"@[1] == 'l' && "after"@[1] == 'f' && "in"@[0] == 'i' && "at"@[0] == 'a');
    seconds_are_as_written(k);
    reveal_strlit("track");
    reveal_strlit("current");
    reveal_strlit("rel");
    reveal_strlit("id");
    assert("track"@.len() == 5 && "current"@.len() == 7 && "rel"@.len() == 3 && "id"@.len() == 2);
    let s = args::tail(t, 2);
    assert(s =~= seq!["track"@, "current"@]);
    assert(s.skip(1) =~= seq!["current"@]);
}

proof fn remaining_trigger_of_an_entry(n: usize, k: nat, id: u64, d: i32)
    requires
        k <= number::REAL_LIMIT,
    ensures
        trigger_of(seq!["remaining"@, number::show_billionths(k), "track"@, "id"@,
            number::dec(id as nat)])
            == Some(RawTrigger::TimeRemaining { track: TrackSel::QueueId(id),
            secs: Real::Finite(k as i128) }),
{
    let t = seq!["remaining"@, number::show_billionths(k), "track"@, "id"@, number::dec(id as nat)];
    reveal_strlit("remaining");
    text::small_letters_stay("remaining"@);
    reveal_strlit("track");
    text::small_letters_stay("track"@);
    reveal_strlit("id");
    text::small_letters_stay("id"@);
    reveal_strlit("immediate");
    reveal_strlit("after");
    reveal_strlit("track");
    reveal_strlit("remaining");
    reveal_strlit("album");
    reveal_strlit("in");
    reveal_strlit("at");
    assert("immediate"@.len() == 9 && "after"@.len() == 5 && "after"@[0] == 'a'
        && "track"@.len() == 5 && "track"@[0] == 't' && "remaining"@.len() == 9
        && "remaining"@[0] == 'r' && "immediate"@[0] == 'i' && "album"@.len() == 5
        && "album"@[1] == 'l' && "after"@[1] == 'f' && "in"@[0] == 'i' && "at"@[0] == 'a');
    seconds_are_as_written(k);
    reveal_strlit("track");
    reveal_strlit("current");
    reveal_strlit("rel");
    reveal_strlit("id");
    assert("track"@.len() == 5 && "current"@.len() == 7 && "rel"@.len() == 3 && "id"@.len() == 2);
    number::dec_is_unsigned(id as nat, u64::MAX as nat);
    let s = args::tail(t, 2);
    assert(s =~= seq!["track"@, "id"@, number::dec(id as nat)]);
    assert(s.skip(1) =~= seq!["id"@, number::dec(id as nat)]);
}

proof fn remaining_trigger_at_a_distance(n: usize, k: nat, id: u64, d: i32)
    requires
        k <= number::REAL_LIMIT,
    ensures
        trigger_of(seq!["remaining"@, number::show_billionths(k), "track"@, "rel"@,
            number::dec_int(d as int)])
            == Some(RawTrigger::TimeRemaining { track: TrackSel::RelToCurrent(d),
            secs: Real::Finite(k as i128) }),
{
    let t = seq!["remaining"@, number::show_billionths(k), "track"@, "rel"@,
        number::dec_int(d as int)];
    reveal_strlit("remaining");
    text::small_letters_stay("remaining"@);
    reveal_strlit("track");
    text::small_letters_stay("track"@);
    reveal_strlit("rel");
    text::small_letters_stay("rel"@);
    reveal_strlit("immediate");
    reveal_strlit("after");
    reveal_strlit("track");
    reveal_strlit("remaining");
    reveal_strlit("album");
    reveal_strlit("in");
    reveal_strlit("at");
    assert("immediate"@.len() == 9 && "after"@.len() == 5 && "after"@[0] == 'a'
        && "track"@.len() == 5 && "track"@[0] == 't' && "remaining"@.len() == 9
        && "remaining"@[0] == 'r' && "immediate"@[0] == 'i' && "album"@.len() == 5
        && "album"@[1] == 'l' && "after"@[1] == 'f' && "in"@[0] == 'i' && "at"@[0] == 'a');
    seconds_are_as_written(k);
    reveal_strlit("track");
    reveal_strlit("current");
    reveal_strlit("rel");
    reveal_strlit("id");
    assert("track"@.len() == 5 && "current"@.len() == 7 && "rel"@.len() == 3 && "id"@.len() == 2);
    number::dec_int_is_signed(d as int, i32::MAX as nat);
    let s = args::tail(t, 2);
    assert(s =~= seq!["track"@, "rel"@, number::dec_int(d as int)]);
    assert(s.skip(1) =~= seq!["rel"@, number::dec_int(d as int)]);
}

proof fn remaining_trigger_of_an_entry_alone(n: usize, k: nat, id: u64, d: i32)
    requires
        k <= number::REAL_LIMIT,
    ensures
        trigger_of(seq!["remaining"@, number::show_billionths(k), "id"@, number::dec(id as nat)])
            == Some(RawTrigger::TimeRemaining { track: TrackSel::QueueId(id),
            secs: Real::Finite(k as i128) }),
{
    let t = seq!["remaining"@, number::show_billionths(k), "id"@, number::dec(id as nat)];
    reveal_strlit("remaining");
    text::small_letters_stay("remaining"@);
    reveal_strlit("id");
    text::small_letters_stay("id"@);
    reveal_strlit("immediate");
    reveal_strlit("after");
    reveal_strlit("track");
    reveal_strlit("remaining");
    reveal_strlit("album");
    reveal_strlit("in");
    reveal_strlit("at");
    assert("immediate"@.len() == 9 && "after"@.len() == 5 && "after"@[0] == 'a'
        && "track"@.len() == 5 && "track"@[0] == 't' && "remaining"@.len() == 9
        && "remaining"@[0] == 'r' && "immediate"@[0] == 'i' && "album"@.len() == 5
        && "album"@[1] == 'l' && "after"@[1] == 'f' && "in"@[0] == 'i' && "at"@[0] == 'a');
    seconds_are_as_written(k);
    reveal_strlit("track");
    reveal_strlit("current");
    reveal_strlit("rel");
    reveal_strlit("id");
    assert("track"@.len() == 5 && "current"@.len() == 7 && "rel"@.len() == 3 && "id"@.len() == 2);
    number::dec_is_unsigned(id as nat, u64::MAX as nat);
    let s = args::tail(t, 2);
    assert(s =~= seq!["id"@, number::dec(id as nat)]);
}

proof fn album_trigger(n: usize, k: nat, id: u64, d: i32)
    requires
        k <= number::REAL_LIMIT,
    ensures
        trigger_of(seq!["album"@]) == Some(RawTrigger::AlbumBoundary { track: TrackSel::Current }),
{
    let t = seq!["album"@];
    reveal_strlit("album");
    text::small_letters_stay("album"@);
    reveal_strlit("immediate");
    reveal_strlit("after");
    reveal_strlit("track");
    reveal_strlit("remaining");
    reveal_strlit("album");
    reveal_strlit("in");
    reveal_strlit("at");
    assert("immediate"@.len() == 9 && "after"@.len() == 5 && "after"@[0] == 'a'
        && "track"@.len() == 5 && "track"@[0] == 't' && "remaining"@.len() == 9
        && "remaining"@[0] == 'r' && "immediate"@[0] == 'i' && "album"@.len() == 5
        && "album"@[1] == 'l' && "after"@[1] == 'f' && "in"@[0] == 'i' && "at"@[0] == 'a');
    assert(args::tail(t, 1) =~= Seq::<Seq<char>>::empty());
}

proof fn album_trigger_of_the_current(n: usize, k: nat, id: u64, d: i32)
    requires
        k <= number::REAL_LIMIT,
    ensures
        trigger_of(seq!["album"@, "track"@, "current"@])
            == Some(RawTrigger::AlbumBoundary { track: TrackSel::Current }),
{
    let t = seq!["album"@, "track"@, "current"@];
    reveal_strlit("album");
    text::small_letters_stay("album"@);
    reveal_strlit("track");
    text::small_letters_stay("track"@);
    reveal_strlit("current");
    text::small_letters_stay("current"@);
    reveal_strlit("immediate");
    reveal_strlit("after");
    reveal_strlit("track");
    reveal_strlit("remaining");
    reveal_strlit("album");
    reveal_strlit("in");
    reveal_strlit("at");
    assert("immediate"@.len() == 9 && "after"@.len() == 5 && "after"@[0] == 'a'
        && "track"@.len() == 5 && "track"@[0] == 't' && "remaining"@.len() == 9
        && "remaining"@[0] == 'r' && "immediate"@[0] == 'i' && "album"@.len() == 5
        && "album"@[1] == 'l' && "after"@[1] == 'f' && "in"@[0] == 'i' && "at"@[0] == 'a');
    reveal_strlit("track");
    reveal_strlit("current");
    reveal_strlit("rel");
    reveal_strlit("id");
    assert("track"@.len() == 5 && "current"@.len() == 7 && "rel"@.len() == 3 && "id"@.len() == 2);
    let s = args::tail(t, 1);
    assert(s =~= seq!["track"@, "current"@]);
    assert(s.skip(1) =~= seq!["current"@]);
}

proof fn album_trigger_of_an_entry(n: usize, k: nat, id: u64, d: i32)
    requires
        k <= number::REAL_LIMIT,
    ensures
        trigger_of(seq!["album"@, "track"@, "id"@, number::dec(id as nat)])
            == Some(RawTrigger::AlbumBoundary { track: TrackSel::QueueId(id) }),
{
    let t = seq!["album"@, "track"@, "id"@, number::dec(id as nat)];
    reveal_strlit("album");
    text::small_letters_stay("album"@);
    reveal_strlit("track");
    text::small_letters_stay("track"@);
    reveal_strlit("id");
    text::small_letters_stay("id"@);
    reveal_strlit("immediate");
    reveal_strlit("after");
    reveal_strlit("track");
    reveal_strlit("remaining");
    reveal_strlit("album");
    reveal_strlit("in");
    reveal_strlit("at");
    assert("immediate"@.len() == 9 && "after"@.len() == 5 && "after"@[0] == 'a'
        && "track"@.len() == 5 && "track"@[0] == 't' && "remaining"@.len() == 9
        && "remaining"@[0] == 'r' && "immediate"@[0] == 'i' && "album"@.len() == 5
        && "album"@[1] == 'l' && "after"@[1] == 'f' && "in"@[0] == 'i' && "at"@[0] == 'a');
    reveal_strlit("track");
    reveal_strlit("current");
    reveal_strlit("rel");
    reveal_strlit("id");
    assert("track"@.len() == 5 && "current"@.len() == 7 && "rel"@.len() == 3 && "id"@.len() == 2);
    number::dec_is_unsigned(id as nat, u64::MAX as nat);
    let s = args::tail(t, 1);
    assert(s =~= seq!["track"@, "id"@, number::dec(id as nat)]);
    assert(s.skip(1) =~= seq!["id"@, number::dec(id as nat)]);
}

proof fn album_trigger_at_a_distance(n: usize, k: nat, id: u64, d: i32)
    requires
        k <= number::REAL_LIMIT,
    ensures
        trigger_of(seq!["album"@, "track"@, "rel"@, number::dec_int(d as int)])
            == Some(RawTrigger::AlbumBoundary { track: TrackSel::RelToCurrent(d) }),
{
    let t = seq!["album"@, "track"@, "rel"@, number::dec_int(d as int)];
    reveal_strlit("album");
    text::small_letters_stay("album"@);
    reveal_strlit("track");
    text::small_letters_stay("track"@);
    reveal_strlit("rel");
    text::small_letters_stay("rel"@);
    reveal_strlit("immediate");
    reveal_strlit("after");
    reveal_strlit("track");
    reveal_strlit("remaining");
    reveal_strlit("album");
    reveal_strlit("in");
    reveal_strlit("at");
    assert("immediate"@.len() == 9 && "after"@.len() == 5 && "after"@[0] == 'a'
        && "track"@.len() == 5 && "track"@[0] == 't' && "remaining"@.len() == 9
        && "remaining"@[0] == 'r' && "immediate"@[0] == 'i' && "album"@.len() == 5
        && "album"@[1] == 'l' && "after"@[1] == 'f' && "in"@[0] == 'i' && "at"@[0] == 'a');
    reveal_strlit("track");
    reveal_strlit("current");
    reveal_strlit("rel");
    reveal_strlit("id");
    assert("track"@.len() == 5 && "current"@.len() == 7 && "rel"@.len() == 3 && "id"@.len() == 2);
    number::dec_int_is_signed(d as int, i32::MAX as nat);
    let s = args::tail(t, 1);
    assert(s =~= seq!["track"@, "rel"@, number::dec_int(d as int)]);
    assert(s.skip(1) =~= seq!["rel"@, number::dec_int(d as int)]);
}

proof fn album_trigger_of_an_entry_alone(n: usize, k: nat, id: u64, d: i32)
    requires
        k <= number::REAL_LIMIT,
    ensures
        trigger_of(seq!["album"@, "id"@, number::dec(id as nat)])
            == Some(RawTrigger::AlbumBoundary { track: TrackSel::QueueId(id) }),
{
    let t = seq!["album"@, "id"@, number::dec(id as nat)];
    reveal_strlit("album");
    text::small_letters_stay("album"@);
    reveal_strlit("id");
    text::small_letters_stay("id"@);
    reveal_strlit("immediate");
    reveal_strlit("after");
    reveal_strlit("track");
    reveal_strlit("remaining");
    reveal_strlit("album");
    reveal_strlit("in");
    reveal_strlit("at");
    assert("immediate"@.len() == 9 && "after"@.len() == 5 && "after"@[0] == 'a'
        && "track"@.len() == 5 && "track"@[0] == 't' && "remaining"@.len() == 9
        && "remaining"@[0] == 'r' && "immediate"@[0] == 'i' && "album"@.len() == 5
        && "album"@[1] == 'l' && "after"@[1] == 'f' && "in"@[0] == 'i' && "at"@[0] == 'a');
    reveal_strlit("track");
    reveal_strlit("current");
    reveal_strlit("rel");
    reveal_strlit("id");
    assert("track"@.len() == 5 && "current"@.len() == 7 && "rel"@.len() == 3 && "id"@.len() == 2);
    number::dec_is_unsigned(id as nat, u64::MAX as nat);
    let s = args::tail(t, 1);
    assert(s =~= seq!["id"@, number::dec(id as nat)]);
}

proof fn span_trigger(n: usize, k: nat, id: u64, d: i32)
    requires
        k <= number::REAL_LIMIT,
    ensures
        trigger_of(seq!["in"@, number::show_billionths(k)])
            == Some(RawTrigger::SpanElapsed { secs: Real::Finite(k as i128) }),
{
    let t = seq!["in"@, number::show_billionths(k)];
    reveal_strlit("in");
    text::small_letters_stay("in"@);
    reveal_strlit("immediate");
    reveal_strlit("after");
    reveal_strlit("track");
    reveal_strlit("remaining");
    reveal_strlit("album");
    reveal_strlit("in");
    reveal_strlit("at");
    assert("immediate"@.len() == 9 && "after"@.len() == 5 && "after"@[0] == 'a'
        && "track"@.len() == 5 && "track"@[0] == 't' && "remaining"@.len() == 9
        && "remaining"@[0] == 'r' && "immediate"@[0] == 'i' && "album"@.len() == 5
        && "album"@[1] == 'l' && "after"@[1] == 'f' && "in"@[0] == 'i' && "at"@[0] == 'a');
    seconds_are_as_written(k);
}

/// What an action does is what its words say, with the numbers and texts behind them in the
/// order in which they are written; tracks are added one at a time where no count is said.
pub proof fn an_action_is_what_its_words_say(k: nat, v: u8, c: u32, x: Seq<char>, a: usize,
    b: usize, d: i32, r: Option<Action>)
    requires
        k <= number::REAL_LIMIT,
    ensures
        reads_action(seq!["stop"@], r) ==> r == Some(Action::Stop),
        reads_action(seq!["pause"@], r) ==> r == Some(Action::Pause),
        reads_action(seq!["noop"@], r) ==> r == Some(Action::Noop),
        reads_action(seq!["setvol"@, number::dec(v as nat)], r) ==> r == Some(Action::SetVolume(v)),
        reads_action(seq!["fade"@, "out"@, number::show_billionths(k)], r)
            ==> r == Some(Action::Fade(FadeIntentIr::Out { secs: Real::Finite(k as i128) })),
        reads_action(seq!["fade"@, "in"@, number::show_billionths(k)], r)
            ==> r == Some(Action::Fade(FadeIntentIr::In { secs: Real::Finite(k as i128) })),
        reads_action(seq!["fade"@, "to"@, number::dec(v as nat), number::show_billionths(k)], r)
            ==> (r matches Some(Action::Fade(FadeIntentIr::To { target_db: _, vol, secs }))
            && vol == v && secs == Real::Finite(k as i128)),
        reads_action(seq!["enqueue"@, "radio"@, number::dec(c as nat)], r)
            ==> r == Some(Action::Enqueue { selector: Selector::Radio, count: c }),
        reads_action(seq!["enqueue"@, "radio"@], r)
            ==> r == Some(Action::Enqueue { selector: Selector::Radio, count: 1 }),
        reads_action(seq!["enqueue"@, "query"@, x, number::dec(c as nat)], r)
            ==> (r matches Some(Action::Enqueue { selector: Selector::Query(s), count }) && s@ == x
            && count == c),
        reads_action(seq!["enqueue"@, "query"@, x], r)
            ==> (r matches Some(Action::Enqueue { selector: Selector::Query(s), count }) && s@ == x
            && count == 1),
        reads_action(seq!["enqueue"@, "genre"@, x, number::dec(c as nat)], r)
            ==> (r matches Some(Action::Enqueue { selector: Selector::Genre(s), count }) && s@ == x
            && count == c),
        reads_action(seq!["enqueue"@, "genre"@, x], r)
            ==> (r matches Some(Action::Enqueue { selector: Selector::Genre(s), count }) && s@ == x
            && count == 1),
        reads_action(seq!["clear"@, "all"@], r)
            ==> r == Some(Action::Clear { scope: ClearScope::All }),
        reads_action(seq!["clear"@, "after"@], r)
            ==> r == Some(Action::Clear { scope: ClearScope::AfterCurrent }),
        reads_action(seq!["clear"@, "range"@, number::dec(a as nat), number::dec(b as nat)], r)
            ==> r == Some(Action::Clear { scope: ClearScope::Range { start: a, end: b } }),
        reads_action(seq!["remove"@, "current"@], r)
            ==> r == Some(Action::Remove { sel: QueueSelector::Current }),
        reads_action(seq!["remove"@, "pos"@, number::dec(a as nat)], r)
            ==> r == Some(Action::Remove { sel: QueueSelector::Position(a) }),
        reads_action(seq!["remove"@, "last"@, number::dec(a as nat)], r)
            ==> r == Some(Action::Remove { sel: QueueSelector::Last(a) }),
        reads_action(seq!["remove"@, "range"@, number::dec(a as nat), number::dec(b as nat)], r)
            ==> r == Some(Action::Remove { sel: QueueSelector::Range { start: a, end: b } }),
        reads_action(seq!["remove"@, "match"@, x], r)
            ==> (r matches Some(Action::Remove { sel: QueueSelector::QueryMatch(s) }) && s@ == x),
        reads_action(seq!["play"@, "current"@], r)
            ==> r == Some(Action::Play { sel: QueueSelector::Current }),
        reads_action(seq!["play"@, "pos"@, number::dec(a as nat)], r)
            ==> r == Some(Action::Play { sel: QueueSelector::Position(a) }),
        reads_action(seq!["play"@, "last"@, number::dec(a as nat)], r)
            ==> r == Some(Action::Play { sel: QueueSelector::Last(a) }),
        reads_action(seq!["play"@, "range"@, number::dec(a as nat), number::dec(b as nat)], r)
            ==> r == Some(Action::Play { sel: QueueSelector::Range { start: a, end: b } }),
        reads_action(seq!["play"@, "match"@, x], r)
            ==> (r matches Some(Action::Play { sel: QueueSelector::QueryMatch(s) }) && s@ == x),
        reads_action(seq!["move"@, "current"@, "to"@, "pos"@, number::dec(a as nat)], r)
            ==> r == Some(Action::Move { sel: QueueSelector::Current,
            dest: MoveDest::Position(a) }),
        reads_action(seq!["move"@, "current"@, "to"@, "rel"@, number::dec_int(d as int)], r)
            ==> r == Some(Action::Move { sel: QueueSelector::Current,
            dest: MoveDest::Relative(d) }),
{
    stop_action(k, v, c, x, a, b, d, r);
    pause_action(k, v, c, x, a, b, d, r);
    noop_action(k, v, c, x, a, b, d, r);
    setvol_action(k, v, c, x, a, b, d, r);
    fade_out_action(k, v, c, x, a, b, d, r);
    fade_in_action(k, v, c, x, a, b, d, r);
    fade_to_action(k, v, c, x, a, b, d, r);
    enqueue_radio(k, v, c, x, a, b, d, r);
    enqueue_radio_alone(k, v, c, x, a, b, d, r);
    enqueue_query(k, v, c, x, a, b, d, r);
    enqueue_query_alone(k, v, c, x, a, b, d, r);
    enqueue_genre(k, v, c, x, a, b, d, r);
    enqueue_genre_alone(k, v, c, x, a, b, d, r);
    clear_all(k, v, c, x, a, b, d, r);
    clear_after(k, v, c, x, a, b, d, r);
    clear_range(k, v, c, x, a, b, d, r);
    remove_current(k, v, c, x, a, b, d, r);
    remove_pos(k, v, c, x, a, b, d, r);
    remove_last(k, v, c, x, a, b, d, r);
    remove_range(k, v, c, x, a, b, d, r);
    remove_match(k, v, c, x, a, b, d, r);
    play_current(k, v, c, x, a, b, d, r);
    play_pos(k, v, c, x, a, b, d, r);
    play_last(k, v, c, x, a, b, d, r);
    play_range(k, v, c, x, a, b, d, r);
    play_match(k, v, c, x, a, b, d, r);
    move_to_a_place(k, v, c, x, a, b, d, r);
    move_by_a_distance(k, v, c, x, a, b, d, r);
}

proof fn stop_action(k: nat, v: u8, c: u32, x: Seq<char>, a: usize, b: usize, d: i32,
    r: Option<Action>)
    requires
        k <= number::REAL_LIMIT,
    ensures
        reads_action(seq!["stop"@], r) ==> r == Some(Action::Stop),
{
    let t = seq!["stop"@];
    reveal_strlit("stop");
    text::small_letters_stay("stop"@);
    reveal_strlit("stop");
    reveal_strlit("pause");
    reveal_strlit("setvol");
    reveal_strlit("fade");
    reveal_strlit("enqueue");
    reveal_strlit("remove");
    reveal_strlit("play");
    reveal_strlit("noop");
    reveal_strlit("clear");
    reveal_strlit("move");
    assert("stop"@.len() == 4 && "stop"@[0] == 's' && "pause"@.len() == 5 && "pause"@[0] == 'p'
        && "setvol"@.len() == 6 && "setvol"@[0] == 's' && "fade"@[0] == 'f' && "fade"@.len() == 4
        && "enqueue"@.len() == 7 && "remove"@.len() == 6 && "remove"@[0] == 'r'
        && "play"@.len() == 4 && "play"@[0] == 'p' && "noop"@.len() == 4 && "noop"@[0] == 'n'
        && "clear"@.len() == 5 && "clear"@[0] == 'c' && "move"@.len() == 4 && "move"@[0] == 'm');
}

proof fn pause_action(k: nat, v: u8, c: u32, x: Seq<char>, a: usize, b: usize, d: i32,
    r: Option<Action>)
    requires
        k <= number::REAL_LIMIT,
    ensures
        reads_action(seq!["pause"@], r) ==> r == Some(Action::Pause),
{
    let t = seq!["pause"@];
    reveal_strlit("pause");
    text::small_letters_stay("pause"@);
    reveal_strlit("stop");
    reveal_strlit("pause");
    reveal_strlit("setvol");
    reveal_strlit("fade");
    reveal_strlit("enqueue");
    reveal_strlit("remove");
    reveal_strlit("play");
    reveal_strlit("noop");
    reveal_strlit("clear");
    reveal_strlit("move");
    assert("stop"@.len() == 4 && "stop"@[0] == 's' && "pause"@.len() == 5 && "pause"@[0] == 'p'
        && "setvol"@.len() == 6 && "setvol"@[0] == 's' && "fade"@[0] == 'f' && "fade"@.len() == 4
        && "enqueue"@.len() == 7 && "remove"@.len() == 6 && "remove"@[0] == 'r'
        && "play"@.len() == 4 && "play"@[0] == 'p' && "noop"@.len() == 4 && "noop"@[0] == 'n'
        && "clear"@.len() == 5 && "clear"@[0] == 'c' && "move"@.len() == 4 && "move"@[0] == 'm');
}

proof fn noop_action(k: nat, v: u8, c: u32, x: Seq<char>, a: usize, b: usize, d: i32,
    r: Option<Action>)
    requires
        k <= number::REAL_LIMIT,
    ensures
        reads_action(seq!["noop"@], r) ==> r == Some(Action::Noop),
{
    let t = seq!["noop"@];
    reveal_strlit("noop");
    text::small_letters_stay("noop"@);
    reveal_strlit("stop");
    reveal_strlit("pause");
    reveal_strlit("setvol");
    reveal_strlit("fade");
    reveal_strlit("enqueue");
    reveal_strlit("remove");
    reveal_strlit("play");
    reveal_strlit("noop");
    reveal_strlit("clear");
    reveal_strlit("move");
    assert("stop"@.len() == 4 && "stop"@[0] == 's' && "pause"@.len() == 5 && "pause"@[0] == 'p'
        && "setvol"@.len() == 6 && "setvol"@[0] == 's' && "fade"@[0] == 'f' && "fade"@.len() == 4
        && "enqueue"@.len() == 7 && "remove"@.len() == 6 && "remove"@[0] == 'r'
        && "play"@.len() == 4 && "play"@[0] == 'p' && "noop"@.len() == 4 && "noop"@[0] == 'n'
        && "clear"@.len() == 5 && "clear"@[0] == 'c' && "move"@.len() == 4 && "move"@[0] == 'm');
}

proof fn setvol_action(k: nat, v: u8, c: u32, x: Seq<char>, a: usize, b: usize, d: i32,
    r: Option<Action>)
    requires
        k <= number::REAL_LIMIT,
    ensures
        reads_action(seq!["setvol"@, number::dec(v as nat)], r) ==> r == Some(Action::SetVolume(v)),
{
    let t = seq!["setvol"@, number::dec(v as nat)];
    reveal_strlit("setvol");
    text::small_letters_stay("setvol"@);
    reveal_strlit("stop");
    reveal_strlit("pause");
    reveal_strlit("setvol");
    reveal_strlit("fade");
    reveal_strlit("enqueue");
    reveal_strlit("remove");
    reveal_strlit("play");
    reveal_strlit("noop");
    reveal_strlit("clear");
    reveal_strlit("move");
    assert("stop"@.len() == 4 && "stop"@[0] == 's' && "pause"@.len() == 5 && "pause"@[0] == 'p'
        && "setvol"@.len() == 6 && "setvol"@[0] == 's' && "fade"@[0] == 'f' && "fade"@.len() == 4
        && "enqueue"@.len() == 7 && "remove"@.len() == 6 && "remove"@[0] == 'r'
        && "play"@.len() == 4 && "play"@[0] == 'p' && "noop"@.len() == 4 && "noop"@[0] == 'n'
        && "clear"@.len() == 5 && "clear"@[0] == 'c' && "move"@.len() == 4 && "move"@[0] == 'm');
    number::dec_is_unsigned(v as nat, u8::MAX as nat);
}

proof fn fade_out_action(k: nat, v: u8, c: u32, x: Seq<char>, a: usize, b: usize, d: i32,
    r: Option<Action>)
    requires
        k <= number::REAL_LIMIT,
    ensures
        reads_action(seq!["fade"@, "out"@, number::show_billionths(k)], r)
            ==> r == Some(Action::Fade(FadeIntentIr::Out { secs: Real::Finite(k as i128) })),
{
    let t = seq!["fade"@, "out"@, number::show_billionths(k)];
    reveal_strlit("fade");
    text::small_letters_stay("fade"@);
    reveal_strlit("out");
    text::small_letters_stay("out"@);
    reveal_strlit("stop");
    reveal_strlit("pause");
    reveal_strlit("setvol");
    reveal_strlit("fade");
    reveal_strlit("enqueue");
    reveal_strlit("remove");
    reveal_strlit("play");
    reveal_strlit("noop");
    reveal_strlit("clear");
    reveal_strlit("move");
    assert("stop"@.len() == 4 && "stop"@[0] == 's' && "pause"@.len() == 5 && "pause"@[0] == 'p'
        && "setvol"@.len() == 6 && "setvol"@[0] == 's' && "fade"@[0] == 'f' && "fade"@.len() == 4
        && "enqueue"@.len() == 7 && "remove"@.len() == 6 && "remove"@[0] == 'r'
        && "play"@.len() == 4 && "play"@[0] == 'p' && "noop"@.len() == 4 && "noop"@[0] == 'n'
        && "clear"@.len() == 5 && "clear"@[0] == 'c' && "move"@.len() == 4 && "move"@[0] == 'm');
    reveal_strlit("out");
    reveal_strlit("in");
    reveal_strlit("to");
    assert("out"@.len() == 3 && "in"@[0] == 'i' && "to"@[0] == 't' && "in"@.len() == 2);
    seconds_are_as_written(k);
}

proof fn fade_in_action(k: nat, v: u8, c: u32, x: Seq<char>, a: usize, b: usize, d: i32,
    r: Option<Action>)
    requires
        k <= number::REAL_LIMIT,
    ensures
        reads_action(seq!["fade"@, "in"@, number::show_billionths(k)], r)
            ==> r == Some(Action::Fade(FadeIntentIr::In { secs: Real::Finite(k as i128) })),
{
    let t = seq!["fade"@, "in"@, number::show_billionths(k)];
    reveal_strlit("fade");
    text::small_letters_stay("fade"@);
    reveal_strlit("in");
    text::small_letters_stay("in"@);
    reveal_strlit("stop");
    reveal_strlit("pause");
    reveal_strlit("setvol");
    reveal_strlit("fade");
    reveal_strlit("enqueue");
    reveal_strlit("remove");
    reveal_strlit("play");
    reveal_strlit("noop");
    reveal_strlit("clear");
    reveal_strlit("move");
    assert("stop"@.len() == 4 && "stop"@[0] == 's' && "pause"@.len() == 5 && "pause"@[0] == 'p'
        && "setvol"@.len() == 6 && "setvol"@[0] == 's' && "fade"@[0] == 'f' && "fade"@.len() == 4
        && "enqueue"@.len() == 7 && "remove"@.len() == 6 && "remove"@[0] == 'r'
        && "play"@.len() == 4 && "play"@[0] == 'p' && "noop"@.len() == 4 && "noop"@[0] == 'n'
        && "clear"@.len() == 5 && "clear"@[0] == 'c' && "move"@.len() == 4 && "move"@[0] == 'm');
    reveal_strlit("out");
    reveal_strlit("in");
    reveal_strlit("to");
    assert("out"@.len() == 3 && "in"@[0] == 'i' && "to"@[0] == 't' && "in"@.len() == 2);
    seconds_are_as_written(k);
}

proof fn fade_to_action(k: nat, v: u8, c: u32, x: Seq<char>, a: usize, b: usize, d: i32,
    r: Option<Action>)
    requires
        k <= number::REAL_LIMIT,
    ensures
        reads_action(seq!["fade"@, "to"@, number::dec(v as nat), number::show_billionths(k)], r)
            ==> (r matches Some(Action::Fade(FadeIntentIr::To { target_db: _, vol, secs }))
            && vol == v && secs == Real::Finite(k as i128)),
{
    let t = seq!["fade"@, "to"@, number::dec(v as nat), number::show_billionths(k)];
    reveal_strlit("fade");
    text::small_letters_stay("fade"@);
    reveal_strlit("to");
    text::small_letters_stay("to"@);
    reveal_strlit("stop");
    reveal_strlit("pause");
    reveal_strlit("setvol");
    reveal_strlit("fade");
    reveal_strlit("enqueue");
    reveal_strlit("remove");
    reveal_strlit("play");
    reveal_strlit("noop");
    reveal_strlit("clear");
    reveal_strlit("move");
    assert("stop"@.len() == 4 && "stop"@[0] == 's' && "pause"@.len() == 5 && "pause"@[0] == 'p'
        && "setvol"@.len() == 6 && "setvol"@[0] == 's' && "fade"@[0] == 'f' && "fade"@.len() == 4
        && "enqueue"@.len() == 7 && "remove"@.len() == 6 && "remove"@[0] == 'r'
        && "play"@.len() == 4 && "play"@[0] == 'p' && "noop"@.len() == 4 && "noop"@[0] == 'n'
        && "clear"@.len() == 5 && "clear"@[0] == 'c' && "move"@.len() == 4 && "move"@[0] == 'm');
    reveal_strlit("out");
    reveal_strlit("in");
    reveal_strlit("to");
    assert("out"@.len() == 3 && "in"@[0] == 'i' && "to"@[0] == 't' && "in"@.len() == 2);
    seconds_are_as_written(k);
    number::dec_is_unsigned(v as nat, u8::MAX as nat);
}

proof fn enqueue_radio(k: nat, v: u8, c: u32, x: Seq<char>, a: usize, b: usize, d: i32,
    r: Option<Action>)
    requires
        k <= number::REAL_LIMIT,
    ensures
        reads_action(seq!["enqueue"@, "radio"@, number::dec(c as nat)], r)
            ==> r == Some(Action::Enqueue { selector: Selector::Radio, count: c }),
{
    let t = seq!["enqueue"@, "radio"@, number::dec(c as nat)];
    reveal_strlit("enqueue");
    text::small_letters_stay("enqueue"@);
    reveal_strlit("radio");
    text::small_letters_stay("radio"@);
    reveal_strlit("stop");
    reveal_strlit("pause");
    reveal_strlit("setvol");
    reveal_strlit("fade");
    reveal_strlit("enqueue");
    reveal_strlit("remove");
    reveal_strlit("play");
    reveal_strlit("noop");
    reveal_strlit("clear");
    reveal_strlit("move");
    assert("stop"@.len() == 4 && "stop"@[0] == 's' && "pause"@.len() == 5 && "pause"@[0] == 'p'
        && "setvol"@.len() == 6 && "setvol"@[0] == 's' && "fade"@[0] == 'f' && "fade"@.len() == 4
        && "enqueue"@.len() == 7 && "remove"@.len() == 6 && "remove"@[0] == 'r'
        && "play"@.len() == 4 && "play"@[0] == 'p' && "noop"@.len() == 4 && "noop"@[0] == 'n'
        && "clear"@.len() == 5 && "clear"@[0] == 'c' && "move"@.len() == 4 && "move"@[0] == 'm');
    reveal_strlit("radio");
    reveal_strlit("query");
    reveal_strlit("genre");
    assert("radio"@[0] == 'r' && "query"@[0] == 'q' && "genre"@[0] == 'g');
    number::dec_is_unsigned(c as nat, u32::MAX as nat);
}

proof fn enqueue_radio_alone(k: nat, v: u8, c: u32, x: Seq<char>, a: usize, b: usize, d: i32,
    r: Option<Action>)
    requires
        k <= number::REAL_LIMIT,
    ensures
        reads_action(seq!["enqueue"@, "radio"@], r)
            ==> r == Some(Action::Enqueue { selector: Selector::Radio, count: 1 }),
{
    let t = seq!["enqueue"@, "radio"@];
    reveal_strlit("enqueue");
    text::small_letters_stay("enqueue"@);
    reveal_strlit("radio");
    text::small_letters_stay("radio"@);
    reveal_strlit("stop");
    reveal_strlit("pause");
    reveal_strlit("setvol");
    reveal_strlit("fade");
    reveal_strlit("enqueue");
    reveal_strlit("remove");
    reveal_strlit("play");
    reveal_strlit("noop");
    reveal_strlit("clear");
    reveal_strlit("move");
    assert("stop"@.len() == 4 && "stop"@[0] == 's' && "pause"@.len() == 5 && "pause"@[0] == 'p'
        && "setvol"@.len() == 6 && "setvol"@[0] == 's' && "fade"@[0] == 'f' && "fade"@.len() == 4
        && "enqueue"@.len() == 7 && "remove"@.len() == 6 && "remove"@[0] == 'r'
        && "play"@.len() == 4 && "play"@[0] == 'p' && "noop"@.len() == 4 && "noop"@[0] == 'n'
        && "clear"@.len() == 5 && "clear"@[0] == 'c' && "move"@.len() == 4 && "move"@[0] == 'm');
    reveal_strlit("radio");
    reveal_strlit("query");
    reveal_strlit("genre");
    assert("radio"@[0] == 'r' && "query"@[0] == 'q' && "genre"@[0] == 'g');
}

proof fn enqueue_query(k: nat, v: u8, c: u32, x: Seq<char>, a: usize, b: usize, d: i32,
    r: Option<Action>)
    requires
        k <= number::REAL_LIMIT,
    ensures
        reads_action(seq!["enqueue"@, "query"@, x, number::dec(c as nat)], r)
            ==> (r matches Some(Action::Enqueue { selector: Selector::Query(s), count }) && s@ == x
            && count == c),
{
    let t = seq!["enqueue"@, "query"@, x, number::dec(c as nat)];
    reveal_strlit("enqueue");
    text::small_letters_stay("enqueue"@);
    reveal_strlit("query");
    text::small_letters_stay("query"@);
    reveal_strlit("stop");
    reveal_strlit("pause");
    reveal_strlit("setvol");
    reveal_strlit("fade");
    reveal_strlit("enqueue");
    reveal_strlit("remove");
    reveal_strlit("play");
    reveal_strlit("noop");
    reveal_strlit("clear");
    reveal_strlit("move");
    assert("stop"@.len() == 4 && "stop"@[0] == 's' && "pause"@.len() == 5 && "pause"@[0] == 'p'
        && "setvol"@.len() == 6 && "setvol"@[0] == 's' && "fade"@[0] == 'f' && "fade"@.len() == 4
        && "enqueue"@.len() == 7 && "remove"@.len() == 6 && "remove"@[0] == 'r'
        && "play"@.len() == 4 && "play"@[0] == 'p' && "noop"@.len() == 4 && "noop"@[0] == 'n'
        && "clear"@.len() == 5 && "clear"@[0] == 'c' && "move"@.len() == 4 && "move"@[0] == 'm');
    reveal_strlit("radio");
    reveal_strlit("query");
    reveal_strlit("genre");
    assert("radio"@[0] == 'r' && "query"@[0] == 'q' && "genre"@[0] == 'g');
    number::dec_is_unsigned(c as nat, u32::MAX as nat);
}

proof fn enqueue_query_alone(k: nat, v: u8, c: u32, x: Seq<char>, a: usize, b: usize, d: i32,
    r: Option<Action>)
    requires
        k <= number::REAL_LIMIT,
    ensures
        reads_action(seq!["enqueue"@, "query"@, x], r)
            ==> (r matches Some(Action::Enqueue { selector: Selector::Query(s), count }) && s@ == x
            && count == 1),
{
    let t = seq!["enqueue"@, "query"@, x];
    reveal_strlit("enqueue");
    text::small_letters_stay("enqueue"@);
    reveal_strlit("query");
    text::small_letters_stay("query"@);
    reveal_strlit("stop");
    reveal_strlit("pause");
    reveal_strlit("setvol");
    reveal_strlit("fade");
    reveal_strlit("enqueue");
    reveal_strlit("remove");
    reveal_strlit("play");
    reveal_strlit("noop");
    reveal_strlit("clear");
    reveal_strlit("move");
    assert("stop"@.len() == 4 && "stop"@[0] == 's' && "pause"@.len() == 5 && "pause"@[0] == 'p'
        && "setvol"@.len() == 6 && "setvol"@[0] == 's' && "fade"@[0] == 'f' && "fade"@.len() == 4
        && "enqueue"@.len() == 7 && "remove"@.len() == 6 && "remove"@[0] == 'r'
        && "play"@.len() == 4 && "play"@[0] == 'p' && "noop"@.len() == 4 && "noop"@[0] == 'n'
        && "clear"@.len() == 5 && "clear"@[0] == 'c' && "move"@.len() == 4 && "move"@[0] == 'm');
    reveal_strlit("radio");
    reveal_strlit("query");
    reveal_strlit("genre");
    assert("radio"@[0] == 'r' && "query"@[0] == 'q' && "genre"@[0] == 'g');
}

proof fn enqueue_genre(k: nat, v: u8, c: u32, x: Seq<char>, a: usize, b: usize, d: i32,
    r: Option<Action>)
    requires
        k <= number::REAL_LIMIT,
    ensures
        reads_action(seq!["enqueue"@, "genre"@, x, number::dec(c as nat)], r)
            ==> (r matches Some(Action::Enqueue { selector: Selector::Genre(s), count }) && s@ == x
            && count == c),
{
    let t = seq!["enqueue"@, "genre"@, x, number::dec(c as nat)];
    reveal_strlit("enqueue");
    text::small_letters_stay("enqueue"@);
    reveal_strlit("genre");
    text::small_letters_stay("genre"@);
    reveal_strlit("stop");
    reveal_strlit("pause");
    reveal_strlit("setvol");
    reveal_strlit("fade");
    reveal_strlit("enqueue");
    reveal_strlit("remove");
    reveal_strlit("play");
    reveal_strlit("noop");
    reveal_strlit("clear");
    reveal_strlit("move");
    assert("stop"@.len() == 4 && "stop"@[0] == 's' && "pause"@.len() == 5 && "pause"@[0] == 'p'
        && "setvol"@.len() == 6 && "setvol"@[0] == 's' && "fade"@[0] == 'f' && "fade"@.len() == 4
        && "enqueue"@.len() == 7 && "remove"@.len() == 6 && "remove"@[0] == 'r'
        && "play"@.len() == 4 && "play"@[0] == 'p' && "noop"@.len() == 4 && "noop"@[0] == 'n'
        && "clear"@.len() == 5 && "clear"@[0] == 'c' && "move"@.len() == 4 && "move"@[0] == 'm');
    reveal_strlit("radio");
    reveal_strlit("query");
    reveal_strlit("genre");
    assert("radio"@[0] == 'r' && "query"@[0] == 'q' && "genre"@[0] == 'g');
    number::dec_is_unsigned(c as nat, u32::MAX as nat);
}

proof fn enqueue_genre_alone(k: nat, v: u8, c: u32, x: Seq<char>, a: usize, b: usize, d: i32,
    r: Option<Action>)
    requires
        k <= number::REAL_LIMIT,
    ensures
        reads_action(seq!["enqueue"@, "genre"@, x], r)
            ==> (r matches Some(Action::Enqueue { selector: Selector::Genre(s), count }) && s@ == x
            && count == 1),
{
    let t = seq!["enqueue"@, "genre"@, x];
    reveal_strlit("enqueue");
    text::small_letters_stay("enqueue"@);
    reveal_strlit("genre");
    text::small_letters_stay("genre"@);
    reveal_strlit("stop");
    reveal_strlit("pause");
    reveal_strlit("setvol");
    reveal_strlit("fade");
    reveal_strlit("enqueue");
    reveal_strlit("remove");
    reveal_strlit("play");
    reveal_strlit("noop");
    reveal_strlit("clear");
    reveal_strlit("move");
    assert("stop"@.len() == 4 && "stop"@[0] == 's' && "pause"@.len() == 5 && "pause"@[0] == 'p'
        && "setvol"@.len() == 6 && "setvol"@[0] == 's' && "fade"@[0] == 'f' && "fade"@.len() == 4
        && "enqueue"@.len() == 7 && "remove"@.len() == 6 && "remove"@[0] == 'r'
        && "play"@.len() == 4 && "play"@[0] == 'p' && "noop"@.len() == 4 && "noop"@[0] == 'n'
        && "clear"@.len() == 5 && "clear"@[0] == 'c' && "move"@.len() == 4 && "move"@[0] == 'm');
    reveal_strlit("radio");
    reveal_strlit("query");
    reveal_strlit("genre");
    assert("radio"@[0] == 'r' && "query"@[0] == 'q' && "genre"@[0] == 'g');
}

proof fn clear_all(k: nat, v: u8, c: u32, x: Seq<char>, a: usize, b: usize, d: i32,
    r: Option<Action>)
    requires
        k <= number::REAL_LIMIT,
    ensures
        reads_action(seq!["clear"@, "all"@], r)
            ==> r == Some(Action::Clear { scope: ClearScope::All }),
{
    let t = seq!["clear"@, "all"@];
    reveal_strlit("clear");
    text::small_letters_stay("clear"@);
    reveal_strlit("all");
    text::small_letters_stay("all"@);
    reveal_strlit("stop");
    reveal_strlit("pause");
    reveal_strlit("setvol");
    reveal_strlit("fade");
    reveal_strlit("enqueue");
    reveal_strlit("remove");
    reveal_strlit("play");
    reveal_strlit("noop");
    reveal_strlit("clear");
    reveal_strlit("move");
    assert("stop"@.len() == 4 && "stop"@[0] == 's' && "pause"@.len() == 5 && "pause"@[0] == 'p'
        && "setvol"@.len() == 6 && "setvol"@[0] == 's' && "fade"@[0] == 'f' && "fade"@.len() == 4
        && "enqueue"@.len() == 7 && "remove"@.len() == 6 && "remove"@[0] == 'r'
        && "play"@.len() == 4 && "play"@[0] == 'p' && "noop"@.len() == 4 && "noop"@[0] == 'n'
        && "clear"@.len() == 5 && "clear"@[0] == 'c' && "move"@.len() == 4 && "move"@[0] == 'm');
    reveal_strlit("all");
    reveal_strlit("after");
    reveal_strlit("range");
    assert("all"@.len() == 3 && "after"@[0] == 'a' && "range"@[0] == 'r' && "after"@.len() == 5);
}

proof fn clear_after(k: nat, v: u8, c: u32, x: Seq<char>, a: usize, b: usize, d: i32,
    r: Option<Action>)
    requires
        k <= number::REAL_LIMIT,
    ensures
        reads_action(seq!["clear"@, "after"@], r)
            ==> r == Some(Action::Clear { scope: ClearScope::AfterCurrent }),
{
    let t = seq!["clear"@, "after"@];
    reveal_strlit("clear");
    text::small_letters_stay("clear"@);
    reveal_strlit("after");
    text::small_letters_stay("after"@);
    reveal_strlit("stop");
    reveal_strlit("pause");
    reveal_strlit("setvol");
    reveal_strlit("fade");
    reveal_strlit("enqueue");
    reveal_strlit("remove");
    reveal_strlit("play");
    reveal_strlit("noop");
    reveal_strlit("clear");
    reveal_strlit("move");
    assert("stop"@.len() == 4 && "stop"@[0] == 's' && "pause"@.len() == 5 && "pause"@[0] == 'p'
        && "setvol"@.len() == 6 && "setvol"@[0] == 's' && "fade"@[0] == 'f' && "fade"@.len() == 4
        && "enqueue"@.len() == 7 && "remove"@.len() == 6 && "remove"@[0] == 'r'
        && "play"@.len() == 4 && "play"@[0] == 'p' && "noop"@.len() == 4 && "noop"@[0] == 'n'
        && "clear"@.len() == 5 && "clear"@[0] == 'c' && "move"@.len() == 4 && "move"@[0] == 'm');
    reveal_strlit("all");
    reveal_strlit("after");
    reveal_strlit("range");
    assert("all"@.len() == 3 && "after"@[0] == 'a' && "range"@[0] == 'r' && "after"@.len() == 5);
}

proof fn clear_range(k: nat, v: u8, c: u32, x: Seq<char>, a: usize, b: usize, d: i32,
    r: Option<Action>)
    requires
        k <= number::REAL_LIMIT,
    ensures
        reads_action(seq!["clear"@, "range"@, number::dec(a as nat), number::dec(b as nat)], r)
            ==> r == Some(Action::Clear { scope: ClearScope::Range { start: a, end: b } }),
{
    let t = seq!["clear"@, "range"@, number::dec(a as nat), number::dec(b as nat)];
    reveal_strlit("clear");
    text::small_letters_stay("clear"@);
    reveal_strlit("range");
    text::small_letters_stay("range"@);
    reveal_strlit("stop");
    reveal_strlit("pause");
    reveal_strlit("setvol");
    reveal_strlit("fade");
    reveal_strlit("enqueue");
    reveal_strlit("remove");
    reveal_strlit("play");
    reveal_strlit("noop");
    reveal_strlit("clear");
    reveal_strlit("move");
    assert("stop"@.len() == 4 && "stop"@[0] == 's' && "pause"@.len() == 5 && "pause"@[0] == 'p'
        && "setvol"@.len() == 6 && "setvol"@[0] == 's' && "fade"@[0] == 'f' && "fade"@.len() == 4
        && "enqueue"@.len() == 7 && "remove"@.len() == 6 && "remove"@[0] == 'r'
        && "play"@.len() == 4 && "play"@[0] == 'p' && "noop"@.len() == 4 && "noop"@[0] == 'n'
        && "clear"@.len() == 5 && "clear"@[0] == 'c' && "move"@.len() == 4 && "move"@[0] == 'm');
    reveal_strlit("all");
    reveal_strlit("after");
    reveal_strlit("range");
    assert("all"@.len() == 3 && "after"@[0] == 'a' && "range"@[0] == 'r' && "after"@.len() == 5);
    number::dec_is_unsigned(a as nat, usize::MAX as nat);
    number::dec_is_unsigned(b as nat, usize::MAX as nat);
}

proof fn remove_current(k: nat, v: u8, c: u32, x: Seq<char>, a: usize, b: usize, d: i32,
    r: Option<Action>)
    requires
        k <= number::REAL_LIMIT,
    ensures
        reads_action(seq!["remove"@, "current"@], r)
            ==> r == Some(Action::Remove { sel: QueueSelector::Current }),
{
    let t = seq!["remove"@, "current"@];
    reveal_strlit("remove");
    text::small_letters_stay("remove"@);
    reveal_strlit("current");
    text::small_letters_stay("current"@);
    reveal_strlit("stop");
    reveal_strlit("pause");
    reveal_strlit("setvol");
    reveal_strlit("fade");
    reveal_strlit("enqueue");
    reveal_strlit("remove");
    reveal_strlit("play");
    reveal_strlit("noop");
    reveal_strlit("clear");
    reveal_strlit("move");
    assert("stop"@.len() == 4 && "stop"@[0] == 's' && "pause"@.len() == 5 && "pause"@[0] == 'p'
        && "setvol"@.len() == 6 && "setvol"@[0] == 's' && "fade"@[0] == 'f' && "fade"@.len() == 4
        && "enqueue"@.len() == 7 && "remove"@.len() == 6 && "remove"@[0] == 'r'
        && "play"@.len() == 4 && "play"@[0] == 'p' && "noop"@.len() == 4 && "noop"@[0] == 'n'
        && "clear"@.len() == 5 && "clear"@[0] == 'c' && "move"@.len() == 4 && "move"@[0] == 'm');
    reveal_strlit("current");
    reveal_strlit("pos");
    reveal_strlit("last");
    reveal_strlit("range");
    reveal_strlit("match");
    assert("current"@.len() == 7 && "pos"@.len() == 3 && "last"@.len() == 4 && "range"@[0] == 'r'
        && "range"@.len() == 5 && "match"@[0] == 'm');
    assert(t.skip(1) =~= seq!["current"@]);
}

proof fn remove_pos(k: nat, v: u8, c: u32, x: Seq<char>, a: usize, b: usize, d: i32,
    r: Option<Action>)
    requires
        k <= number::REAL_LIMIT,
    ensures
        reads_action(seq!["remove"@, "pos"@, number::dec(a as nat)], r)
            ==> r == Some(Action::Remove { sel: QueueSelector::Position(a) }),
{
    let t = seq!["remove"@, "pos"@, number::dec(a as nat)];
    reveal_strlit("remove");
    text::small_letters_stay("remove"@);
    reveal_strlit("pos");
    text::small_letters_stay("pos"@);
    reveal_strlit("stop");
    reveal_strlit("pause");
    reveal_strlit("setvol");
    reveal_strlit("fade");
    reveal_strlit("enqueue");
    reveal_strlit("remove");
    reveal_strlit("play");
    reveal_strlit("noop");
    reveal_strlit("clear");
    reveal_strlit("move");
    assert("stop"@.len() == 4 && "stop"@[0] == 's' && "pause"@.len() == 5 && "pause"@[0] == 'p'
        && "setvol"@.len() == 6 && "setvol"@[0] == 's' && "fade"@[0] == 'f' && "fade"@.len() == 4
        && "enqueue"@.len() == 7 && "remove"@.len() == 6 && "remove"@[0] == 'r'
        && "play"@.len() == 4 && "play"@[0] == 'p' && "noop"@.len() == 4 && "noop"@[0] == 'n'
        && "clear"@.len() == 5 && "clear"@[0] == 'c' && "move"@.len() == 4 && "move"@[0] == 'm');
    reveal_strlit("current");
    reveal_strlit("pos");
    reveal_strlit("last");
    reveal_strlit("range");
    reveal_strlit("match");
    assert("current"@.len() == 7 && "pos"@.len() == 3 && "last"@.len() == 4 && "range"@[0] == 'r'
        && "range"@.len() == 5 && "match"@[0] == 'm');
    number::dec_is_unsigned(a as nat, usize::MAX as nat);
    number::dec_is_unsigned(b as nat, usize::MAX as nat);
    assert(t.skip(1) =~= seq!["pos"@, number::dec(a as nat)]);
}

proof fn remove_last(k: nat, v: u8, c: u32, x: Seq<char>, a: usize, b: usize, d: i32,
    r: Option<Action>)
    requires
        k <= number::REAL_LIMIT,
    ensures
        reads_action(seq!["remove"@, "last"@, number::dec(a as nat)], r)
            ==> r == Some(Action::Remove { sel: QueueSelector::Last(a) }),
{
    let t = seq!["remove"@, "last"@, number::dec(a as nat)];
    reveal_strlit("remove");
    text::small_letters_stay("remove"@);
    reveal_strlit("last");
    text::small_letters_stay("last"@);
    reveal_strlit("stop");
    reveal_strlit("pause");
    reveal_strlit("setvol");
    reveal_strlit("fade");
    reveal_strlit("enqueue");
    reveal_strlit("remove");
    reveal_strlit("play");
    reveal_strlit("noop");
    reveal_strlit("clear");
    reveal_strlit("move");
    assert("stop"@.len() == 4 && "stop"@[0] == 's' && "pause"@.len() == 5 && "pause"@[0] == 'p'
        && "setvol"@.len() == 6 && "setvol"@[0] == 's' && "fade"@[0] == 'f' && "fade"@.len() == 4
        && "enqueue"@.len() == 7 && "remove"@.len() == 6 && "remove"@[0] == 'r'
        && "play"@.len() == 4 && "play"@[0] == 'p' && "noop"@.len() == 4 && "noop"@[0] == 'n'
        && "clear"@.len() == 5 && "clear"@[0] == 'c' && "move"@.len() == 4 && "move"@[0] == 'm');
    reveal_strlit("current");
    reveal_strlit("pos");
    reveal_strlit("last");
    reveal_strlit("range");
    reveal_strlit("match");
    assert("current"@.len() == 7 && "pos"@.len() == 3 && "last"@.len() == 4 && "range"@[0] == 'r'
        && "range"@.len() == 5 && "match"@[0] == 'm');
    number::dec_is_unsigned(a as nat, usize::MAX as nat);
    number::dec_is_unsigned(b as nat, usize::MAX as nat);
    assert(t.skip(1) =~= seq!["last"@, number::dec(a as nat)]);
}

proof fn remove_range(k: nat, v: u8, c: u32, x: Seq<char>, a: usize, b: usize, d: i32,
    r: Option<Action>)
    requires
        k <= number::REAL_LIMIT,
    ensures
        reads_action(seq!["remove"@, "range"@, number::dec(a as nat), number::dec(b as nat)], r)
            ==> r == Some(Action::Remove { sel: QueueSelector::Range { start: a, end: b } }),
{
    let t = seq!["remove"@, "range"@, number::dec(a as nat), number::dec(b as nat)];
    reveal_strlit("remove");
    text::small_letters_stay("remove"@);
    reveal_strlit("range");
    text::small_letters_stay("range"@);
    reveal_strlit("stop");
    reveal_strlit("pause");
    reveal_strlit("setvol");
    reveal_strlit("fade");
    reveal_strlit("enqueue");
    reveal_strlit("remove");
    reveal_strlit("play");
    reveal_strlit("noop");
    reveal_strlit("clear");
    reveal_strlit("move");
    assert("stop"@.len() == 4 && "stop"@[0] == 's' && "pause"@.len() == 5 && "pause"@[0] == 'p'
        && "setvol"@.len() == 6 && "setvol"@[0] == 's' && "fade"@[0] == 'f' && "fade"@.len() == 4
        && "enqueue"@.len() == 7 && "remove"@.len() == 6 && "remove"@[0] == 'r'
        && "play"@.len() == 4 && "play"@[0] == 'p' && "noop"@.len() == 4 && "noop"@[0] == 'n'
        && "clear"@.len() == 5 && "clear"@[0] == 'c' && "move"@.len() == 4 && "move"@[0] == 'm');
    reveal_strlit("current");
    reveal_strlit("pos");
    reveal_strlit("last");
    reveal_strlit("range");
    reveal_strlit("match");
    assert("current"@.len() == 7 && "pos"@.len() == 3 && "last"@.len() == 4 && "range"@[0] == 'r'
        && "range"@.len() == 5 && "match"@[0] == 'm');
    number::dec_is_unsigned(a as nat, usize::MAX as nat);
    number::dec_is_unsigned(b as nat, usize::MAX as nat);
    assert(t.skip(1) =~= seq!["range"@, number::dec(a as nat), number::dec(b as nat)]);
}

proof fn remove_match(k: nat, v: u8, c: u32, x: Seq<char>, a: usize, b: usize, d: i32,
    r: Option<Action>)
    requires
        k <= number::REAL_LIMIT,
    ensures
        reads_action(seq!["remove"@, "match"@, x], r)
            ==> (r matches Some(Action::Remove { sel: QueueSelector::QueryMatch(s) }) && s@ == x),
{
    let t = seq!["remove"@, "match"@, x];
    reveal_strlit("remove");
    text::small_letters_stay("remove"@);
    reveal_strlit("match");
    text::small_letters_stay("match"@);
    reveal_strlit("stop");
    reveal_strlit("pause");
    reveal_strlit("setvol");
    reveal_strlit("fade");
    reveal_strlit("enqueue");
    reveal_strlit("remove");
    reveal_strlit("play");
    reveal_strlit("noop");
    reveal_strlit("clear");
    reveal_strlit("move");
    assert("stop"@.len() == 4 && "stop"@[0] == 's' && "pause"@.len() == 5 && "pause"@[0] == 'p'
        && "setvol"@.len() == 6 && "setvol"@[0] == 's' && "fade"@[0] == 'f' && "fade"@.len() == 4
        && "enqueue"@.len() == 7 && "remove"@.len() == 6 && "remove"@[0] == 'r'
        && "play"@.len() == 4 && "play"@[0] == 'p' && "noop"@.len() == 4 && "noop"@[0] == 'n'
        && "clear"@.len() == 5 && "clear"@[0] == 'c' && "move"@.len() == 4 && "move"@[0] == 'm');
    reveal_strlit("current");
    reveal_strlit("pos");
    reveal_strlit("last");
    reveal_strlit("range");
    reveal_strlit("match");
    assert("current"@.len() == 7 && "pos"@.len() == 3 && "last"@.len() == 4 && "range"@[0] == 'r'
        && "range"@.len() == 5 && "match"@[0] == 'm');
    assert(t.skip(1) =~= seq!["match"@, x]);
}

proof fn play_current(k: nat, v: u8, c: u32, x: Seq<char>, a: usize, b: usize, d: i32,
    r: Option<Action>)
    requires
        k <= number::REAL_LIMIT,
    ensures
        reads_action(seq!["play"@, "current"@], r)
            ==> r == Some(Action::Play { sel: QueueSelector::Current }),
{
    let t = seq!["play"@, "current"@];
    reveal_strlit("play");
    text::small_letters_stay("play"@);
    reveal_strlit("current");
    text::small_letters_stay("current"@);
    reveal_strlit("stop");
    reveal_strlit("pause");
    reveal_strlit("setvol");
    reveal_strlit("fade");
    reveal_strlit("enqueue");
    reveal_strlit("remove");
    reveal_strlit("play");
    reveal_strlit("noop");
    reveal_strlit("clear");
    reveal_strlit("move");
    assert("stop"@.len() == 4 && "stop"@[0] == 's' && "pause"@.len() == 5 && "pause"@[0] == 'p'
        && "setvol"@.len() == 6 && "setvol"@[0] == 's' && "fade"@[0] == 'f' && "fade"@.len() == 4
        && "enqueue"@.len() == 7 && "remove"@.len() == 6 && "remove"@[0] == 'r'
        && "play"@.len() == 4 && "play"@[0] == 'p' && "noop"@.len() == 4 && "noop"@[0] == 'n'
        && "clear"@.len() == 5 && "clear"@[0] == 'c' && "move"@.len() == 4 && "move"@[0] == 'm');
    reveal_strlit("current");
    reveal_strlit("pos");
    reveal_strlit("last");
    reveal_strlit("range");
    reveal_strlit("match");
    assert("current"@.len() == 7 && "pos"@.len() == 3 && "last"@.len() == 4 && "range"@[0] == 'r'
        && "range"@.len() == 5 && "match"@[0] == 'm');
    assert(t.skip(1) =~= seq!["current"@]);
}

proof fn play_pos(k: nat, v: u8, c: u32, x: Seq<char>, a: usize, b: usize, d: i32,
    r: Option<Action>)
    requires
        k <= number::REAL_LIMIT,
    ensures
        reads_action(seq!["play"@, "pos"@, number::dec(a as nat)], r)
            ==> r == Some(Action::Play { sel: QueueSelector::Position(a) }),
{
    let t = seq!["play"@, "pos"@, number::dec(a as nat)];
    reveal_strlit("play");
    text::small_letters_stay("play"@);
    reveal_strlit("pos");
    text::small_letters_stay("pos"@);
    reveal_strlit("stop");
    reveal_strlit("pause");
    reveal_strlit("setvol");
    reveal_strlit("fade");
    reveal_strlit("enqueue");
    reveal_strlit("remove");
    reveal_strlit("play");
    reveal_strlit("noop");
    reveal_strlit("clear");
    reveal_strlit("move");
    assert("stop"@.len() == 4 && "stop"@[0] == 's' && "pause"@.len() == 5 && "pause"@[0] == 'p'
        && "setvol"@.len() == 6 && "setvol"@[0] == 's' && "fade"@[0] == 'f' && "fade"@.len() == 4
        && "enqueue"@.len() == 7 && "remove"@.len() == 6 && "remove"@[0] == 'r'
        && "play"@.len() == 4 && "play"@[0] == 'p' && "noop"@.len() == 4 && "noop"@[0] == 'n'
        && "clear"@.len() == 5 && "clear"@[0] == 'c' && "move"@.len() == 4 && "move"@[0] == 'm');
    reveal_strlit("current");
    reveal_strlit("pos");
    reveal_strlit("last");
    reveal_strlit("range");
    reveal_strlit("match");
    assert("current"@.len() == 7 && "pos"@.len() == 3 && "last"@.len() == 4 && "range"@[0] == 'r'
        && "range"@.len() == 5 && "match"@[0] == 'm');
    number::dec_is_unsigned(a as nat, usize::MAX as nat);
    number::dec_is_unsigned(b as nat, usize::MAX as nat);
    assert(t.skip(1) =~= seq!["pos"@, number::dec(a as nat)]);
}

proof fn play_last(k: nat, v: u8, c: u32, x: Seq<char>, a: usize, b: usize, d: i32,
    r: Option<Action>)
    requires
        k <= number::REAL_LIMIT,
    ensures
        reads_action(seq!["play"@, "last"@, number::dec(a as nat)], r)
            ==> r == Some(Action::Play { sel: QueueSelector::Last(a) }),
{
    let t = seq!["play"@, "last"@, number::dec(a as nat)];
    reveal_strlit("play");
    text::small_letters_stay("play"@);
    reveal_strlit("last");
    text::small_letters_stay("last"@);
    reveal_strlit("stop");
    reveal_strlit("pause");
    reveal_strlit("setvol");
    reveal_strlit("fade");
    reveal_strlit("enqueue");
    reveal_strlit("remove");
    reveal_strlit("play");
    reveal_strlit("noop");
    reveal_strlit("clear");
    reveal_strlit("move");
    assert("stop"@.len() == 4 && "stop"@[0] == 's' && "pause"@.len() == 5 && "pause"@[0] == 'p'
        && "setvol"@.len() == 6 && "setvol"@[0] == 's' && "fade"@[0] == 'f' && "fade"@.len() == 4
        && "enqueue"@.len() == 7 && "remove"@.len() == 6 && "remove"@[0] == 'r'
        && "play"@.len() == 4 && "play"@[0] == 'p' && "noop"@.len() == 4 && "noop"@[0] == 'n'
        && "clear"@.len() == 5 && "clear"@[0] == 'c' && "move"@.len() == 4 && "move"@[0] == 'm');
    reveal_strlit("current");
    reveal_strlit("pos");
    reveal_strlit("last");
    reveal_strlit("range");
    reveal_strlit("match");
    assert("current"@.len() == 7 && "pos"@.len() == 3 && "last"@.len() == 4 && "range"@[0] == 'r'
        && "range"@.len() == 5 && "match"@[0] == 'm');
    number::dec_is_unsigned(a as nat, usize::MAX as nat);
    number::dec_is_unsigned(b as nat, usize::MAX as nat);
    assert(t.skip(1) =~= seq!["last"@, number::dec(a as nat)]);
}

proof fn play_range(k: nat, v: u8, c: u32, x: Seq<char>, a: usize, b: usize, d: i32,
    r: Option<Action>)
    requires
        k <= number::REAL_LIMIT,
    ensures
        reads_action(seq!["play"@, "range"@, number::dec(a as nat), number::dec(b as nat)], r)
            ==> r == Some(Action::Play { sel: QueueSelector::Range { start: a, end: b } }),
{
    let t = seq!["play"@, "range"@, number::dec(a as nat), number::dec(b as nat)];
    reveal_strlit("play");
    text::small_letters_stay("play"@);
    reveal_strlit("range");
    text::small_letters_stay("range"@);
    reveal_strlit("stop");
    reveal_strlit("pause");
    reveal_strlit("setvol");
    reveal_strlit("fade");
    reveal_strlit("enqueue");
    reveal_strlit("remove");
    reveal_strlit("play");
    reveal_strlit("noop");
    reveal_strlit("clear");
    reveal_strlit("move");
    assert("stop"@.len() == 4 && "stop"@[0] == 's' && "pause"@.len() == 5 && "pause"@[0] == 'p'
        && "setvol"@.len() == 6 && "setvol"@[0] == 's' && "fade"@[0] == 'f' && "fade"@.len() == 4
        && "enqueue"@.len() == 7 && "remove"@.len() == 6 && "remove"@[0] == 'r'
        && "play"@.len() == 4 && "play"@[0] == 'p' && "noop"@.len() == 4 && "noop"@[0] == 'n'
        && "clear"@.len() == 5 && "clear"@[0] == 'c' && "move"@.len() == 4 && "move"@[0] == 'm');
    reveal_strlit("current");
    reveal_strlit("pos");
    reveal_strlit("last");
    reveal_strlit("range");
    reveal_strlit("match");
    assert("current"@.len() == 7 && "pos"@.len() == 3 && "last"@.len() == 4 && "range"@[0] == 'r'
        && "range"@.len() == 5 && "match"@[0] == 'm');
    number::dec_is_unsigned(a as nat, usize::MAX as nat);
    number::dec_is_unsigned(b as nat, usize::MAX as nat);
    assert(t.skip(1) =~= seq!["range"@, number::dec(a as nat), number::dec(b as nat)]);
}

proof fn play_match(k: nat, v: u8, c: u32, x: Seq<char>, a: usize, b: usize, d: i32,
    r: Option<Action>)
    requires
        k <= number::REAL_LIMIT,
    ensures
        reads_action(seq!["play"@, "match"@, x], r)
            ==> (r matches Some(Action::Play { sel: QueueSelector::QueryMatch(s) }) && s@ == x),
{
    let t = seq!["play"@, "match"@, x];
    reveal_strlit("play");
    text::small_letters_stay("play"@);
    reveal_strlit("match");
    text::small_letters_stay("match"@);
    reveal_strlit("stop");
    reveal_strlit("pause");
    reveal_strlit("setvol");
    reveal_strlit("fade");
    reveal_strlit("enqueue");
    reveal_strlit("remove");
    reveal_strlit("play");
    reveal_strlit("noop");
    reveal_strlit("clear");
    reveal_strlit("move");
    assert("stop"@.len() == 4 && "stop"@[0] == 's' && "pause"@.len() == 5 && "pause"@[0] == 'p'
        && "setvol"@.len() == 6 && "setvol"@[0] == 's' && "fade"@[0] == 'f' && "fade"@.len() == 4
        && "enqueue"@.len() == 7 && "remove"@.len() == 6 && "remove"@[0] == 'r'
        && "play"@.len() == 4 && "play"@[0] == 'p' && "noop"@.len() == 4 && "noop"@[0] == 'n'
        && "clear"@.len() == 5 && "clear"@[0] == 'c' && "move"@.len() == 4 && "move"@[0] == 'm');
    reveal_strlit("current");
    reveal_strlit("pos");
    reveal_strlit("last");
    reveal_strlit("range");
    reveal_strlit("match");
    assert("current"@.len() == 7 && "pos"@.len() == 3 && "last"@.len() == 4 && "range"@[0] == 'r'
        && "range"@.len() == 5 && "match"@[0] == 'm');
    assert(t.skip(1) =~= seq!["match"@, x]);
}

proof fn move_to_a_place(k: nat, v: u8, c: u32, x: Seq<char>, a: usize, b: usize, d: i32,
    r: Option<Action>)
    requires
        k <= number::REAL_LIMIT,
    ensures
        reads_action(seq!["move"@, "current"@, "to"@, "pos"@, number::dec(a as nat)], r)
            ==> r == Some(Action::Move { sel: QueueSelector::Current,
            dest: MoveDest::Position(a) }),
{
    let t = seq!["move"@, "current"@, "to"@, "pos"@, number::dec(a as nat)];
    reveal_strlit("move");
    text::small_letters_stay("move"@);
    reveal_strlit("current");
    text::small_letters_stay("current"@);
    reveal_strlit("to");
    text::small_letters_stay("to"@);
    reveal_strlit("pos");
    text::small_letters_stay("pos"@);
    reveal_strlit("stop");
    reveal_strlit("pause");
    reveal_strlit("setvol");
    reveal_strlit("fade");
    reveal_strlit("enqueue");
    reveal_strlit("remove");
    reveal_strlit("play");
    reveal_strlit("noop");
    reveal_strlit("clear");
    reveal_strlit("move");
    assert("stop"@.len() == 4 && "stop"@[0] == 's' && "pause"@.len() == 5 && "pause"@[0] == 'p'
        && "setvol"@.len() == 6 && "setvol"@[0] == 's' && "fade"@[0] == 'f' && "fade"@.len() == 4
        && "enqueue"@.len() == 7 && "remove"@.len() == 6 && "remove"@[0] == 'r'
        && "play"@.len() == 4 && "play"@[0] == 'p' && "noop"@.len() == 4 && "noop"@[0] == 'n'
        && "clear"@.len() == 5 && "clear"@[0] == 'c' && "move"@.len() == 4 && "move"@[0] == 'm');
    reveal_strlit("to");
    reveal_strlit("rel");
    reveal_strlit("pos");
    reveal_strlit("current");
    assert("to"@.len() == 2 && "rel"@.len() == 3 && "pos"@.len() == 3 && "rel"@[0] == 'r'
        && "pos"@[0] == 'p');
    text::small_letters_stay("to"@);
    assert(!args::alike("move"@, "to"@) && !args::alike("current"@, "to"@));
    assert(text_end(t) == 0) by {
        reveal_strlit("query");
        reveal_strlit("genre");
        reveal_strlit("match");
        assert("match"@.len() == 5);
    }
    assert(args::first_word(t, "to"@, 2) == Some(2int));
    assert(args::first_word(t, "to"@, 1) == Some(2int));
    assert(args::first_word(t, "to"@, 0) == Some(2int));
    assert(t.subrange(1, 2) =~= seq!["current"@]);
    number::dec_is_unsigned(a as nat, usize::MAX as nat);
    number::dec_is_unsigned(b as nat, usize::MAX as nat);
    assert(t.skip(3) =~= seq!["pos"@, number::dec(a as nat)]);
}

proof fn move_by_a_distance(k: nat, v: u8, c: u32, x: Seq<char>, a: usize, b: usize, d: i32,
    r: Option<Action>)
    requires
        k <= number::REAL_LIMIT,
    ensures
        reads_action(seq!["move"@, "current"@, "to"@, "rel"@, number::dec_int(d as int)], r)
            ==> r == Some(Action::Move { sel: QueueSelector::Current,
            dest: MoveDest::Relative(d) }),
{
    let t = seq!["move"@, "current"@, "to"@, "rel"@, number::dec_int(d as int)];
    reveal_strlit("move");
    text::small_letters_stay("move"@);
    reveal_strlit("current");
    text::small_letters_stay("current"@);
    reveal_strlit("to");
    text::small_letters_stay("to"@);
    reveal_strlit("rel");
    text::small_letters_stay("rel"@);
    reveal_strlit("stop");
    reveal_strlit("pause");
    reveal_strlit("setvol");
    reveal_strlit("fade");
    reveal_strlit("enqueue");
    reveal_strlit("remove");
    reveal_strlit("play");
    reveal_strlit("noop");
    reveal_strlit("clear");
    reveal_strlit("move");
    assert("stop"@.len() == 4 && "stop"@[0] == 's' && "pause"@.len() == 5 && "pause"@[0] == 'p'
        && "setvol"@.len() == 6 && "setvol"@[0] == 's' && "fade"@[0] == 'f' && "fade"@.len() == 4
        && "enqueue"@.len() == 7 && "remove"@.len() == 6 && "remove"@[0] == 'r'
        && "play"@.len() == 4 && "play"@[0] == 'p' && "noop"@.len() == 4 && "noop"@[0] == 'n'
        && "clear"@.len() == 5 && "clear"@[0] == 'c' && "move"@.len() == 4 && "move"@[0] == 'm');
    reveal_strlit("to");
    reveal_strlit("rel");
    reveal_strlit("pos");
    reveal_strlit("current");
    assert("to"@.len() == 2 && "rel"@.len() == 3 && "pos"@.len() == 3 && "rel"@[0] == 'r'
        && "pos"@[0] == 'p');
    text::small_letters_stay("to"@);
    assert(!args::alike("move"@, "to"@) && !args::alike("current"@, "to"@));
    assert(text_end(t) == 0) by {
        reveal_strlit("query");
        reveal_strlit("genre");
        reveal_strlit("match");
        assert("match"@.len() == 5);
    }
    assert(args::first_word(t, "to"@, 2) == Some(2int));
    assert(args::first_word(t, "to"@, 1) == Some(2int));
    assert(args::first_word(t, "to"@, 0) == Some(2int));
    assert(t.subrange(1, 2) =~= seq!["current"@]);
    number::dec_int_is_signed(d as int, i32::MAX as nat);
    assert(t.skip(3) =~= seq!["rel"@, number::dec_int(d as int)]);
}

/// A plan is its trigger and its action, once where it says so, and from the origin that it
/// names; a text that the action is about may be any word.
pub proof fn a_plan_is_its_trigger_and_its_action(
    t: Seq<Seq<char>>,
    a: Seq<Seq<char>>,
    once: bool,
    origin: Seq<char>,
    r: Option<RawPlan>,
)
    requires
        forall|i: int| 0 <= i < t.len() ==> !args::alike(#[trigger] t[i], "action"@),
        a.len() > 0,
        text_end(a) <= a.len(),
        forall|i: int|
            text_end(a) <= i < a.len() ==> !args::alike(#[trigger] a[i], "origin"@)
                && !args::alike(a[i], "once"@),
        origin.len() > 0,
    ensures
        ({
            let end = if once {
                seq!["once"@]
            } else {
                Seq::empty()
            };
            let plain = seq!["trigger"@] + t + seq!["action"@] + a + end;
            let named = plain + seq!["origin"@, origin];
            let whole = |words: Seq<Seq<char>>, from: Seq<char>|
                reads_raw_plan(words, r) ==> match r {
                    Some(plan) => plan.version == 1 && trigger_of(t) == Some(plan.trigger)
                        && reads_action(a, Some(plan.action)) && plan.once == once
                        && plan.origin@ == from,
                    None => trigger_of(t) is None || reads_action(a, None),
                };
            whole(plain, "mpd"@) && whole(named, origin)
        }),
{
    let end = if once {
        seq!["once"@]
    } else {
        Seq::empty()
    };
    let plain = seq!["trigger"@] + t + seq!["action"@] + a + end;
    reveal_strlit("mpd");
    plan_of_its_parts(t, a, once, Seq::empty(), "mpd"@, r);
    plan_of_its_parts(t, a, once, seq!["origin"@, origin], origin, r);
    assert(plain + Seq::<Seq<char>>::empty() =~= plain);
}

#[verifier::spinoff_prover]
#[verifier::rlimit(40)]
proof fn plan_of_its_parts(
    t: Seq<Seq<char>>,
    a: Seq<Seq<char>>,
    once: bool,
    tail: Seq<Seq<char>>,
    from: Seq<char>,
    r: Option<RawPlan>,
)
    requires
        forall|i: int| 0 <= i < t.len() ==> !args::alike(#[trigger] t[i], "action"@),
        a.len() > 0,
        text_end(a) <= a.len(),
        forall|i: int|
            text_end(a) <= i < a.len() ==> !args::alike(#[trigger] a[i], "origin"@)
                && !args::alike(a[i], "once"@),
        from.len() > 0,
        tail == Seq::<Seq<char>>::empty() && from == "mpd"@ || tail == seq!["origin"@, from],
    ensures
        ({
            let end = if once {
                seq!["once"@]
            } else {
                Seq::empty()
            };
            let words = seq!["trigger"@] + t + seq!["action"@] + a + end + tail;
            reads_raw_plan(words, r) ==> match r {
                Some(plan) => plan.version == 1 && trigger_of(t) == Some(plan.trigger)
                    && reads_action(a, Some(plan.action)) && plan.once == once && plan.origin@
                    == from,
                None => trigger_of(t) is None || reads_action(a, None),
            }
        }),
{
    let end = if once {
        seq!["once"@]
    } else {
        Seq::empty()
    };
    parts_of_a_plan(t, a, end, tail);
    end_of_a_plan(a, once, tail, from);
}

#[verifier::spinoff_prover]
proof fn end_of_a_plan(a: Seq<Seq<char>>, once: bool, tail: Seq<Seq<char>>, from: Seq<char>)
    requires
        a.len() > 0,
        text_end(a) <= a.len(),
        forall|i: int|
            text_end(a) <= i < a.len() ==> !args::alike(#[trigger] a[i], "origin"@)
                && !args::alike(a[i], "once"@),
        from.len() > 0,
        tail == Seq::<Seq<char>>::empty() && from == "mpd"@ || tail == seq!["origin"@, from],
    ensures
        ({
            let end = if once {
                seq!["once"@]
            } else {
                Seq::empty()
            };
            let behind = a + end + tail;
            &&& without_origin(behind) == a + end
            &&& origin_of(behind) == from
            &&& without_once(a + end) == a
            &&& ends_once(a + end) == once
        }),
{
    let end = if once {
        seq!["once"@]
    } else {
        Seq::empty()
    };
    let k = text_end(a);
    let body = a + end;
    let behind = body + tail;
    ends_of_a_plan();
    text_end_of_more(a, end);
    text_end_of_more(a, end + tail);
    assert(behind =~= a + (end + tail));
    assert forall|i: int| k <= i < body.len() implies !args::alike(
        #[trigger] behind[i],
        "origin"@,
    ) by {
        assert(behind[i] == body[i]);
        if i < a.len() {
            assert(body[i] == a[i]);
        }
    }
    args::first_word_is_first(behind, "origin"@, k);
    if tail.len() > 0 {
        assert(behind[body.len() as int] == "origin"@);
        assert(behind[body.len() as int + 1] == from);
        assert(behind.take(body.len() as int) =~= body);
    } else {
        assert(behind =~= body);
    }
    if once {
        assert(body.last() == "once"@);
        assert(body.drop_last() =~= a);
    } else {
        assert(body =~= a);
        assert(a.last() == a[a.len() - 1]);
        if k < a.len() {
            assert(!args::alike(a[a.len() - 1], "once"@));
        }
    }
}

proof fn parts_of_a_plan(
    t: Seq<Seq<char>>,
    a: Seq<Seq<char>>,
    end: Seq<Seq<char>>,
    from: Seq<Seq<char>>,
)
    requires
        forall|i: int| 0 <= i < t.len() ==> !args::alike(#[trigger] t[i], "action"@),
    ensures
        ({
            let words = seq!["trigger"@] + t + seq!["action"@] + a + end + from;
            &&& args::first_word(words, "action"@, 0) == Some(t.len() as int + 1)
            &&& trigger_part(words, t.len() as int + 1) == t
            &&& words.skip(t.len() as int + 2) == a + end + from
        }),
{
    let words = seq!["trigger"@] + t + seq!["action"@] + a + end + from;
    let p = t.len() as int + 1;
    ends_of_a_plan();
    assert(words[p] == "action"@);
    assert(words[0] == "trigger"@);
    args::first_word_is_first(words, "action"@, 0);
    assert forall|i: int| 0 <= i < p implies !args::alike(#[trigger] words[i], "action"@) by {
        if i > 0 {
            assert(words[i] == t[i - 1]);
        }
    }
    assert(words.subrange(1, p) =~= t);
    assert(words.skip(p + 1) =~= a + end + from);
}

proof fn text_end_of_more(a: Seq<Seq<char>>, more: Seq<Seq<char>>)
    requires
        a.len() > 0,
        more.len() == 0 || more[0] == "once"@ || more[0] == "origin"@,
    ensures
        text_end(a + more) == text_end(a),
{
    let all = a + more;
    assert(all[0] == a[0]);
    if a.len() > 1 {
        assert(all[1] == a[1]);
    } else if more.len() > 0 {
        assert(all[1] == more[0]);
        reveal_strlit("once");
        reveal_strlit("origin");
        reveal_strlit("query");
        reveal_strlit("genre");
        reveal_strlit("match");
        text::small_letters_stay("once"@);
        text::small_letters_stay("origin"@);
        assert("once"@.len() == 4 && "origin"@.len() == 6);
        assert("query"@.len() == 5 && "genre"@.len() == 5 && "match"@.len() == 5);
    } else {
        assert(all =~= a);
    }
}

proof fn ends_of_a_plan()
    ensures
        args::alike("action"@, "action"@),
        args::alike("trigger"@, "trigger"@),
        args::alike("once"@, "once"@),
        args::alike("origin"@, "origin"@),
        !args::alike("trigger"@, "action"@),
        !args::alike("once"@, "origin"@),
{
    reveal_strlit("action");
    reveal_strlit("trigger");
    reveal_strlit("once");
    reveal_strlit("origin");
    assert(text::ascii_lower("action"@).len() == 6 && text::ascii_lower("trigger"@).len() == 7);
    assert(text::ascii_lower("once"@).len() == 4 && text::ascii_lower("origin"@).len() == 6);
}

} // verus!
