//! Plans: what to do when, how it is armed, and whether an event fires it.
//!
//! A raw plan may speak of places and relative tracks. Arming it ([`validate`])
//! resolves all of them to identities and points of time, and whether an armed plan
//! fires ([`fires`]) is decided on the identity alone: a plan whose track has left the
//! queue or has been passed is stale, and never fires on a neighbour.

use vstd::prelude::*;

use crate::civil::CivilTime;
use crate::config;
use crate::config::FadeConfig;
use crate::event::{DjEvent, DjEventKind, Moment, QueueId, QueueSnapshot, TimerId};
use crate::model::{AlbumId, SongId};
use crate::number;
use crate::number::{Real, Span, MAX_SPAN_NANOS};
use crate::softvol::SYNTH_FLOOR_DB;
use crate::text;

verus! {

/// The most tracks that one action adds.
pub const MAX_ENQUEUE: u32 = 100;

/// The origin of the plan that a sleep timer makes.
pub const ORIGIN_SLEEP: &'static str = "sleep";

/// The origin of the plan that a wind-down makes.
pub const ORIGIN_WINDDOWN: &'static str = "winddown";

/// The origin of the plan that a wake alarm makes.
pub const ORIGIN_WAKE: &'static str = "wake";

/// The identity of a plan, never used twice.
#[derive(Clone, Copy, Debug, PartialEq, Eq, Hash, PartialOrd, Ord, Structural)]
pub struct PlanId(pub u64);

/// A plan as it is asked for.
#[derive(Debug)]
pub struct RawPlan {
    /// The version of its form.
    pub version: u16,
    /// When.
    pub trigger: RawTrigger,
    /// What.
    pub action: Action,
    /// Whether it is done once.
    pub once: bool,
    /// Who asked for it.
    pub origin: String,
}

/// When a plan is to be done, as it is asked for. Seconds are billionths.
#[derive(Clone, Copy, Debug, PartialEq, Eq, Structural)]
#[non_exhaustive]
pub enum RawTrigger {
    /// At once.
    Immediate,
    /// When the track at place `n` starts.
    QueuePosition {
        /// The place, counted from one.
        n: usize,
        /// Where the count starts.
        base: PosBase,
    },
    /// When the track after the current one starts.
    TrackAfterCurrent,
    /// When this much is left of a track.
    TimeRemaining {
        /// The track.
        track: TrackSel,
        /// The seconds.
        secs: Real,
    },
    /// When a track ends and one of another album follows.
    AlbumBoundary {
        /// The track.
        track: TrackSel,
    },
    /// At a point of civil time.
    WallClock {
        /// The point.
        at: CivilTime,
    },
    /// After a span.
    SpanElapsed {
        /// The seconds.
        secs: Real,
    },
}

/// Where the count of places starts.
#[derive(Clone, Copy, Debug, PartialEq, Eq, Structural)]
pub enum PosBase {
    /// The current track is the first.
    CurrentIsOne,
    /// The first track of the queue is the first.
    Absolute,
}

/// A track, as it is asked for.
#[derive(Clone, Copy, Debug, PartialEq, Eq, Structural)]
pub enum TrackSel {
    /// The current one.
    Current,
    /// This many after the current one, or before where it is negative.
    RelToCurrent(i32),
    /// The entry with this identity.
    QueueId(u64),
}

/// What a plan does.
#[derive(Debug)]
#[non_exhaustive]
pub enum Action {
    /// Fades.
    Fade(FadeIntentIr),
    /// Stops playback.
    Stop,
    /// Pauses playback.
    Pause,
    /// Sets the volume.
    SetVolume(u8),
    /// Adds tracks at the end of the queue.
    Enqueue {
        /// Which.
        selector: Selector,
        /// How many.
        count: u32,
    },
    /// Adds tracks, and ramps up from silence.
    Wake {
        /// Which, if any.
        selector: Option<Selector>,
        /// How many.
        count: u32,
    },
    /// Removes entries of the queue.
    Remove {
        /// Which.
        sel: QueueSelector,
    },
    /// Moves entries of the queue.
    Move {
        /// Which.
        sel: QueueSelector,
        /// Where to.
        dest: MoveDest,
    },
    /// Clears the queue.
    Clear {
        /// How much of it.
        scope: ClearScope,
    },
    /// Plays an entry of the queue.
    Play {
        /// Which.
        sel: QueueSelector,
    },
    /// Adds tracks at the end of the queue and plays the first of them.
    PlayNow {
        /// Which.
        selector: Selector,
        /// How many.
        count: u32,
    },
    /// Does nothing.
    Noop,
}

/// Entries of the queue, by places counted from one or by their text.
#[derive(Debug, PartialEq)]
#[non_exhaustive]
pub enum QueueSelector {
    /// The entry at a place.
    Position(usize),
    /// The entries from one place to another.
    Range {
        /// The one place.
        start: usize,
        /// The other place.
        end: usize,
    },
    /// The entries whose text holds a query, whatever the letter case.
    QueryMatch(String),
    /// The current entry.
    Current,
    /// The last entries.
    Last(usize),
}

/// Where entries are moved to.
#[derive(Clone, Copy, Debug, PartialEq, Eq, Structural)]
#[non_exhaustive]
pub enum MoveDest {
    /// A place among the entries that stay, counted from one.
    Position(usize),
    /// A distance from the current entry.
    Relative(i32),
}

/// How much of the queue is cleared.
#[derive(Clone, Copy, Debug, PartialEq, Eq, Structural)]
#[non_exhaustive]
pub enum ClearScope {
    /// All of it.
    All,
    /// What comes after the current entry.
    AfterCurrent,
    /// The entries from one place to another.
    Range {
        /// The one place.
        start: usize,
        /// The other place.
        end: usize,
    },
}

/// A fade, as a plan asks for it. Seconds and decibels are billionths.
#[derive(Clone, Copy, Debug, PartialEq, Eq, Structural)]
pub enum FadeIntentIr {
    /// To silence, then stop.
    Out {
        /// The seconds.
        secs: Real,
    },
    /// Up to the ceiling.
    In {
        /// The seconds.
        secs: Real,
    },
    /// To a level.
    To {
        /// The level.
        target_db: Real,
        /// The volume setting of that level.
        vol: u8,
        /// The seconds.
        secs: Real,
    },
    /// Down to the wind-down level.
    ToFloor {
        /// The seconds.
        secs: Real,
    },
    /// From silence up to a level.
    WakeTo {
        /// The level.
        target_db: Real,
        /// The volume setting of that level.
        vol: u8,
        /// The seconds.
        secs: Real,
    },
}

/// Tracks of the library.
#[derive(Debug)]
#[non_exhaustive]
pub enum Selector {
    /// Those that a search finds.
    Query(String),
    /// These.
    Exact(Vec<SongId>),
    /// Those that resemble a song.
    Similar(SongId),
    /// Those that resemble the current song.
    SimilarToCurrent,
    /// Those that are calmer than a song.
    Calmer(SongId),
    /// Those of a genre.
    Genre(String),
    /// Any.
    Radio,
}

/// The two selectors name the same tracks.
pub open spec fn same_selector(a: Selector, b: Selector) -> bool {
    match (a, b) {
        (Selector::Exact(x), Selector::Exact(y)) => x@ == y@,
        _ => a == b,
    }
}

impl Clone for Selector {
    fn clone(&self) -> (r: Self)
        ensures
            same_selector(r, *self),
    {
        match self {
            Selector::Query(q) => Selector::Query(q.clone()),
            Selector::Exact(ids) => {
                let v = ids.clone();
                assert(v@ =~= ids@);
                Selector::Exact(v)
            },
            Selector::Similar(id) => Selector::Similar(id.clone()),
            Selector::SimilarToCurrent => Selector::SimilarToCurrent,
            Selector::Calmer(id) => Selector::Calmer(id.clone()),
            Selector::Genre(g) => Selector::Genre(g.clone()),
            Selector::Radio => Selector::Radio,
        }
    }
}

impl Clone for QueueSelector {
    fn clone(&self) -> (r: Self)
        ensures
            r == *self,
    {
        match self {
            QueueSelector::Position(n) => QueueSelector::Position(*n),
            QueueSelector::Range { start, end } => QueueSelector::Range {
                start: *start,
                end: *end,
            },
            QueueSelector::QueryMatch(q) => QueueSelector::QueryMatch(q.clone()),
            QueueSelector::Current => QueueSelector::Current,
            QueueSelector::Last(n) => QueueSelector::Last(*n),
        }
    }
}

/// The two actions do the same.
pub open spec fn same_action(a: Action, b: Action) -> bool {
    match (a, b) {
        (
            Action::Enqueue { selector: s, count: n },
            Action::Enqueue { selector: t, count: m },
        ) => same_selector(s, t) && n == m,
        (
            Action::PlayNow { selector: s, count: n },
            Action::PlayNow { selector: t, count: m },
        ) => same_selector(s, t) && n == m,
        (
            Action::Wake { selector: Some(s), count: n },
            Action::Wake { selector: Some(t), count: m },
        ) => same_selector(s, t) && n == m,
        _ => a == b,
    }
}

impl Clone for Action {
    fn clone(&self) -> (r: Self)
        ensures
            same_action(r, *self),
    {
        match self {
            Action::Fade(f) => Action::Fade(*f),
            Action::Stop => Action::Stop,
            Action::Pause => Action::Pause,
            Action::SetVolume(v) => Action::SetVolume(*v),
            Action::Enqueue { selector, count } => Action::Enqueue {
                selector: selector.clone(),
                count: *count,
            },
            Action::Wake { selector: Some(s), count } => Action::Wake {
                selector: Some(s.clone()),
                count: *count,
            },
            Action::Wake { selector: None, count } => Action::Wake { selector: None, count: *count },
            Action::Remove { sel } => Action::Remove { sel: sel.clone() },
            Action::Move { sel, dest } => Action::Move { sel: sel.clone(), dest: *dest },
            Action::Clear { scope } => Action::Clear { scope: *scope },
            Action::Play { sel } => Action::Play { sel: sel.clone() },
            Action::PlayNow { selector, count } => Action::PlayNow {
                selector: selector.clone(),
                count: *count,
            },
            Action::Noop => Action::Noop,
        }
    }
}

impl Clone for RawPlan {
    fn clone(&self) -> (r: Self)
        ensures
            r.version == self.version,
            r.trigger == self.trigger,
            same_action(r.action, self.action),
            r.once == self.once,
            r.origin == self.origin,
    {
        RawPlan {
            version: self.version,
            trigger: self.trigger,
            action: self.action.clone(),
            once: self.once,
            origin: self.origin.clone(),
        }
    }
}

// ---------------------------------------------------------------------------
// Selecting entries of the queue
// ---------------------------------------------------------------------------

/// The query that a text is searched for.
pub open spec fn needle(q: Seq<char>) -> Seq<char> {
    text::lower(text::trimmed(q))
}

/// A selector picks the entry at index `i`.
pub open spec fn picks(
    sel: QueueSelector,
    entries: Seq<Seq<char>>,
    current: Option<usize>,
    i: int,
) -> bool {
    match sel {
        QueueSelector::Position(p) => i + 1 == p,
        QueueSelector::Range { start, end } => number::smaller(start as int, end as int) <= i + 1
            <= number::larger(start as int, end as int),
        QueueSelector::QueryMatch(q) => needle(q@).len() > 0 && text::has(
            text::lower(entries[i]),
            needle(q@),
        ),
        QueueSelector::Current => current == Some(i as usize),
        QueueSelector::Last(k) => i >= entries.len() - k,
    }
}

/// The indices `r` rise, and are those of the entries that a selector picks.
pub open spec fn is_selection(
    r: Seq<usize>,
    sel: QueueSelector,
    entries: Seq<Seq<char>>,
    current: Option<usize>,
) -> bool {
    &&& forall|a: int, b: int| 0 <= a < b < r.len() ==> r[a] < r[b]
    &&& forall|a: int|
        0 <= a < r.len() ==> 0 <= #[trigger] r[a] < entries.len() && picks(
            sel,
            entries,
            current,
            r[a] as int,
        )
    &&& forall|i: int|
        0 <= i < entries.len() && #[trigger] picks(sel, entries, current, i) ==> r.contains(
            i as usize,
        )
}

fn picks_exec(
    sel: &QueueSelector,
    query: &str,
    entries: &[String],
    current: Option<usize>,
    i: usize,
) -> (r: bool)
    requires
        i < entries@.len(),
        sel matches QueueSelector::QueryMatch(q) ==> query@ == needle(q@),
    ensures
        r == picks(*sel, text::texts(entries@), current, i as int),
{
    match sel {
        QueueSelector::Position(p) => *p > 0 && i == *p - 1,
        QueueSelector::Range { start, end } => {
            let (a, b) = if *start <= *end {
                (*start, *end)
            } else {
                (*end, *start)
            };
            (a == 0 || a - 1 <= i) && b > 0 && i <= b - 1
        },
        QueueSelector::QueryMatch(_) => {
            let t = text::to_lower(entries[i].as_str());
            !query.is_empty() && text::contains(t.as_str(), query)
        },
        QueueSelector::Current => match current {
            Some(c) => c == i,
            None => false,
        },
        QueueSelector::Last(k) => {
            let n: usize = entries.len();
            *k >= n || i >= n - *k
        },
    }
}

/// The indices of the entries that a selector picks, rising. Where it picks none there
/// are none.
pub fn resolve_selector(sel: &QueueSelector, texts: &[String], current: Option<usize>) -> (r: Vec<
    usize,
>)
    ensures
        is_selection(r@, *sel, text::texts(texts@), current),
{
    let query = match sel {
        QueueSelector::QueryMatch(q) => {
            let t = text::trim(q.as_str());
            text::to_lower(t.as_str())
        },
        _ => String::new(),
    };
    let mut r: Vec<usize> = Vec::new();
    let mut i: usize = 0;
    let ghost all = text::texts(texts@);
    while i < texts.len()
        invariant
            i <= texts@.len(),
            all == text::texts(texts@),
            sel matches QueueSelector::QueryMatch(q) ==> query@ == needle(q@),
            forall|a: int, b: int| 0 <= a < b < r@.len() ==> r@[a] < r@[b],
            forall|a: int|
                0 <= a < r@.len() ==> 0 <= #[trigger] r@[a] < i && picks(
                    *sel,
                    all,
                    current,
                    r@[a] as int,
                ),
            forall|k: int|
                0 <= k < i && #[trigger] picks(*sel, all, current, k) ==> r@.contains(k as usize),
        decreases texts@.len() - i,
    {
        let ghost before = r@;
        if picks_exec(sel, query.as_str(), texts, current, i) {
            r.push(i);
            assert(r@[before.len() as int] == i);
            assert forall|k: int|
                0 <= k < i + 1 && #[trigger] picks(*sel, all, current, k) implies r@.contains(
                k as usize,
            ) by {
                if k < i {
                    let a = choose|a: int| 0 <= a < before.len() && before[a] == k as usize;
                    assert(r@[a] == k as usize);
                }
            }
        }
        i += 1;
    }
    r
}

// ---------------------------------------------------------------------------
// Clamping
// ---------------------------------------------------------------------------

/// The ranges that the numbers of a plan are held to. Decibels and seconds are
/// billionths.
#[derive(Clone, Copy, Debug, PartialEq, Eq, Structural)]
pub struct PlanBounds {
    /// The shortest fade.
    pub min_dur: Span,
    /// The longest fade.
    pub max_dur: Span,
    /// The level of silence.
    pub synth_floor_db: i128,
    /// The ceiling.
    pub wake_ceiling_db: i128,
    /// The longest span, in seconds.
    pub max_secs: i128,
    /// The most tracks that one action adds.
    pub max_enqueue: u32,
    /// The lead of a timer.
    pub lead: Span,
}

impl PlanBounds {
    /// No lower bound exceeds its upper one.
    pub open spec fn wf(self) -> bool {
        &&& self.min_dur.nanos <= self.max_dur.nanos <= MAX_SPAN_NANOS
        &&& self.min_dur.nanos <= self.max_secs <= MAX_SPAN_NANOS
        &&& self.synth_floor_db <= self.wake_ceiling_db
        &&& self.lead.wf()
    }

    /// The ranges that the configured fades allow.
    pub fn from_fade_config(cfg: &FadeConfig) -> (r: PlanBounds)
        ensures
            r == bounds_of(*cfg),
            config::safe(*cfg) ==> r.wf(),
    {
        PlanBounds {
            min_dur: Span::from_millis(cfg.min_slew_ms),
            max_dur: Span::from_secs(cfg.max_dur_secs),
            synth_floor_db: cfg.synth_floor_db.finite_or(SYNTH_FLOOR_DB),
            wake_ceiling_db: cfg.wake_ceiling_db.finite_or(config::DEFAULT_WAKE_CEILING_DB),
            max_secs: (cfg.max_dur_secs as i128) * number::BILLION,
            max_enqueue: MAX_ENQUEUE,
            lead: Span::from_millis(cfg.min_slew_ms),
        }
    }
}

/// The ranges that the configured fades allow.
pub open spec fn bounds_of(cfg: FadeConfig) -> PlanBounds {
    PlanBounds {
        min_dur: Span { nanos: (cfg.min_slew_ms * 1_000_000) as u128 },
        max_dur: Span { nanos: (cfg.max_dur_secs * 1_000_000_000) as u128 },
        synth_floor_db: cfg.synth_floor_db.or_default(SYNTH_FLOOR_DB as int) as i128,
        wake_ceiling_db: cfg.wake_ceiling_db.or_default(
            config::DEFAULT_WAKE_CEILING_DB as int,
        ) as i128,
        max_secs: (cfg.max_dur_secs * 1_000_000_000) as i128,
        max_enqueue: MAX_ENQUEUE,
        lead: Span { nanos: (cfg.min_slew_ms * 1_000_000) as u128 },
    }
}

/// A finite number held to a range; what is no finite number becomes `d`.
pub open spec fn held(r: Real, lo: int, hi: int, d: int) -> Real {
    match r {
        Real::Finite(n) => Real::Finite(number::clamped(n as int, lo, hi) as i128),
        _ => Real::Finite(d as i128),
    }
}

fn hold(r: Real, lo: i128, hi: i128, d: i128) -> (s: Real)
    requires
        lo <= hi,
    ensures
        s == held(r, lo as int, hi as int, d as int),
{
    match r {
        Real::Finite(n) => Real::Finite(number::clamp_i128(n, lo, hi)),
        _ => Real::Finite(d),
    }
}

/// The seconds of a fade, held to its range.
pub open spec fn held_secs(secs: Real, b: PlanBounds) -> Real {
    held(secs, b.min_dur.nanos as int, b.max_dur.nanos as int, b.min_dur.nanos as int)
}

/// A level, held to its range.
pub open spec fn held_level(db: Real, b: PlanBounds) -> Real {
    held(db, b.synth_floor_db as int, b.wake_ceiling_db as int, b.wake_ceiling_db as int)
}

/// A volume setting, held to its range.
pub open spec fn held_vol(vol: u8) -> u8 {
    if vol > 100 {
        100
    } else {
        vol
    }
}

/// A count of tracks, held to its range.
pub open spec fn held_count(count: u32, b: PlanBounds) -> u32 {
    if count > b.max_enqueue {
        b.max_enqueue
    } else {
        count
    }
}

/// A fade with its numbers held to their ranges.
pub open spec fn held_fade(f: FadeIntentIr, b: PlanBounds) -> FadeIntentIr {
    match f {
        FadeIntentIr::Out { secs } => FadeIntentIr::Out { secs: held_secs(secs, b) },
        FadeIntentIr::In { secs } => FadeIntentIr::In { secs: held_secs(secs, b) },
        FadeIntentIr::To { target_db, vol, secs } => FadeIntentIr::To {
            target_db: held_level(target_db, b),
            vol: held_vol(vol),
            secs: held_secs(secs, b),
        },
        FadeIntentIr::ToFloor { secs } => FadeIntentIr::ToFloor { secs: held_secs(secs, b) },
        FadeIntentIr::WakeTo { target_db, vol, secs } => FadeIntentIr::WakeTo {
            target_db: held_level(target_db, b),
            vol: held_vol(vol),
            secs: held_secs(secs, b),
        },
    }
}

/// An action with its numbers held to their ranges. What carries no number that could
/// do harm stays as it is.
pub open spec fn held_action(a: Action, b: PlanBounds) -> Action {
    match a {
        Action::Fade(f) => Action::Fade(held_fade(f, b)),
        Action::SetVolume(v) => Action::SetVolume(held_vol(v)),
        Action::Enqueue { selector, count } => Action::Enqueue {
            selector,
            count: held_count(count, b),
        },
        Action::Wake { selector, count } => Action::Wake { selector, count: held_count(count, b) },
        Action::PlayNow { selector, count } => Action::PlayNow {
            selector,
            count: held_count(count, b),
        },
        _ => a,
    }
}

/// The seconds before the end of a track, held to their range.
pub open spec fn held_lead(secs: Real, b: PlanBounds) -> Real {
    held(secs, 0, b.max_secs as int, 0)
}

/// The seconds of a span, held to their range.
pub open spec fn held_span(secs: Real, b: PlanBounds) -> Real {
    held(secs, b.min_dur.nanos as int, b.max_secs as int, b.min_dur.nanos as int)
}

/// A trigger with its numbers held to their ranges.
pub open spec fn held_trigger(t: RawTrigger, b: PlanBounds) -> RawTrigger {
    match t {
        RawTrigger::TimeRemaining { track, secs } => RawTrigger::TimeRemaining {
            track,
            secs: held_lead(secs, b),
        },
        RawTrigger::SpanElapsed { secs } => RawTrigger::SpanElapsed { secs: held_span(secs, b) },
        _ => t,
    }
}

/// Holds every number of an action to its range. Nothing is refused.
pub fn clamp_action(action: &Action, bounds: &PlanBounds) -> (r: Action)
    requires
        bounds.wf(),
    ensures
        same_action(r, held_action(*action, *bounds)),
{
    let lo: i128 = bounds.min_dur.nanos as i128;
    let hi: i128 = bounds.max_dur.nanos as i128;
    let floor: i128 = bounds.synth_floor_db;
    let ceiling: i128 = bounds.wake_ceiling_db;
    match action {
        Action::Fade(FadeIntentIr::Out { secs }) => Action::Fade(
            FadeIntentIr::Out { secs: hold(*secs, lo, hi, lo) },
        ),
        Action::Fade(FadeIntentIr::In { secs }) => Action::Fade(
            FadeIntentIr::In { secs: hold(*secs, lo, hi, lo) },
        ),
        Action::Fade(FadeIntentIr::To { target_db, vol, secs }) => Action::Fade(
            FadeIntentIr::To {
                target_db: hold(*target_db, floor, ceiling, ceiling),
                vol: hold_vol(*vol),
                secs: hold(*secs, lo, hi, lo),
            },
        ),
        Action::Fade(FadeIntentIr::ToFloor { secs }) => Action::Fade(
            FadeIntentIr::ToFloor { secs: hold(*secs, lo, hi, lo) },
        ),
        Action::Fade(FadeIntentIr::WakeTo { target_db, vol, secs }) => Action::Fade(
            FadeIntentIr::WakeTo {
                target_db: hold(*target_db, floor, ceiling, ceiling),
                vol: hold_vol(*vol),
                secs: hold(*secs, lo, hi, lo),
            },
        ),
        Action::SetVolume(v) => Action::SetVolume(hold_vol(*v)),
        Action::Enqueue { selector, count } => Action::Enqueue {
            selector: selector.clone(),
            count: hold_count(*count, bounds),
        },
        Action::Wake { selector: Some(s), count } => Action::Wake {
            selector: Some(s.clone()),
            count: hold_count(*count, bounds),
        },
        Action::Wake { selector: None, count } => Action::Wake {
            selector: None,
            count: hold_count(*count, bounds),
        },
        Action::PlayNow { selector, count } => Action::PlayNow {
            selector: selector.clone(),
            count: hold_count(*count, bounds),
        },
        Action::Stop => Action::Stop,
        Action::Pause => Action::Pause,
        Action::Remove { .. }
        | Action::Move { .. }
        | Action::Clear { .. }
        | Action::Play { .. }
        | Action::Noop => action.clone(),
    }
}

fn hold_vol(vol: u8) -> (r: u8)
    ensures
        r == held_vol(vol),
{
    if vol > 100 {
        100
    } else {
        vol
    }
}

fn hold_count(count: u32, b: &PlanBounds) -> (r: u32)
    ensures
        r == held_count(count, *b),
{
    if count > b.max_enqueue {
        b.max_enqueue
    } else {
        count
    }
}

fn clamp_secs_field(secs: Real, bounds: &PlanBounds) -> (r: Real)
    requires
        bounds.wf(),
    ensures
        r == held_lead(secs, *bounds),
{
    hold(secs, 0, bounds.max_secs, 0)
}

fn clamp_span(secs: Real, bounds: &PlanBounds) -> (r: Real)
    requires
        bounds.wf(),
    ensures
        r == held_span(secs, *bounds),
{
    let lo: i128 = bounds.min_dur.nanos as i128;
    hold(secs, lo, bounds.max_secs, lo)
}

/// Holds every number of a plan to its range.
pub fn clamp_raw(raw: &RawPlan, bounds: &PlanBounds) -> (r: RawPlan)
    requires
        bounds.wf(),
    ensures
        r.version == raw.version,
        r.trigger == held_trigger(raw.trigger, *bounds),
        same_action(r.action, held_action(raw.action, *bounds)),
        r.once == raw.once,
        r.origin == raw.origin,
{
    let trigger = match raw.trigger {
        RawTrigger::TimeRemaining { track, secs } => RawTrigger::TimeRemaining {
            track,
            secs: clamp_secs_field(secs, bounds),
        },
        RawTrigger::SpanElapsed { secs } => RawTrigger::SpanElapsed {
            secs: clamp_span(secs, bounds),
        },
        t => t,
    };
    RawPlan {
        version: raw.version,
        trigger,
        action: clamp_action(&raw.action, bounds),
        once: raw.once,
        origin: raw.origin.clone(),
    }
}


// ---------------------------------------------------------------------------
// Arming
// ---------------------------------------------------------------------------

/// What an armed plan waits for: identities and points of time, and nothing that a
/// change of the queue could shift.
#[derive(Debug, PartialEq)]
#[non_exhaustive]
pub enum Resolved {
    /// Nothing: it is done at once.
    Immediate,
    /// The start of this entry.
    OnTrackStart(QueueId),
    /// The end of this entry, where another album follows.
    OnAlbumBoundary {
        /// The entry.
        last: QueueId,
        /// Its album.
        album: AlbumId,
    },
    /// This point of time.
    OnDeadline(Moment),
    /// This much before the end of this entry.
    OnTrackRemaining {
        /// The entry.
        track: QueueId,
        /// How much before.
        lead: Span,
    },
}

impl Clone for Resolved {
    fn clone(&self) -> (r: Self)
        ensures
            r == *self,
    {
        match self {
            Resolved::Immediate => Resolved::Immediate,
            Resolved::OnTrackStart(q) => Resolved::OnTrackStart(*q),
            Resolved::OnAlbumBoundary { last, album } => Resolved::OnAlbumBoundary {
                last: *last,
                album: album.clone(),
            },
            Resolved::OnDeadline(m) => Resolved::OnDeadline(*m),
            Resolved::OnTrackRemaining { track, lead } => Resolved::OnTrackRemaining {
                track: *track,
                lead: *lead,
            },
        }
    }
}

/// Why a plan could not be armed.
#[derive(Clone, Debug, PartialEq)]
pub enum PlanError {
    /// The track is not in the queue.
    Unresolvable,
    /// The track has been passed.
    AlreadyPassed,
    /// A number is out of range.
    OutOfBounds {
        /// Which.
        field: &'static str,
    },
    /// The length of the track is not known.
    NoDuration,
    /// The album of the track is not known.
    NoAlbum,
    /// The point of time has passed.
    PastDeadline,
    /// The selector is not supported.
    Unsupported(String),
    /// The action does not go with the trigger.
    Untimed,
}

impl PlanError {
    /// The sentence that tells a user of the error.
    pub open spec fn sentence(self) -> Seq<char> {
        match self {
            PlanError::Unresolvable => "target queue slot is gone"@,
            PlanError::AlreadyPassed => "target already played"@,
            PlanError::OutOfBounds { field } => field@ + " out of range"@,
            PlanError::NoDuration => "no known duration (stream)"@,
            PlanError::NoAlbum => "no album metadata"@,
            PlanError::PastDeadline => "deadline already in the past"@,
            PlanError::Unsupported(what) => "selector not yet supported: "@ + what@,
            PlanError::Untimed => "bad action for trigger"@,
        }
    }

    /// The sentence that tells a user of the error.
    pub fn message(&self) -> (r: String)
        ensures
            r@ == self.sentence(),
    {
        match self {
            PlanError::Unresolvable => "target queue slot is gone".to_owned(),
            PlanError::AlreadyPassed => "target already played".to_owned(),
            PlanError::OutOfBounds { field } => {
                let mut s = (*field).to_owned();
                s.append(" out of range");
                s
            },
            PlanError::NoDuration => "no known duration (stream)".to_owned(),
            PlanError::NoAlbum => "no album metadata".to_owned(),
            PlanError::PastDeadline => "deadline already in the past".to_owned(),
            PlanError::Unsupported(what) => {
                let mut s = "selector not yet supported: ".to_owned();
                s.append(what.as_str());
                s
            },
            PlanError::Untimed => "bad action for trigger".to_owned(),
        }
    }
}

/// A plan that was armed.
#[derive(Clone, Debug)]
pub struct ArmedPlan {
    /// Its identity.
    pub id: PlanId,
    /// What was asked for.
    pub raw: RawPlan,
    /// What it waits for.
    pub resolved: Resolved,
    /// When it was armed.
    pub armed_at: Moment,
    /// Whether it is done once.
    pub once: bool,
    /// The timer that it waits for, where it waits for one.
    pub timer_id: Option<TimerId>,
}

/// Whether an event fires a plan.
#[derive(Clone, Copy, Debug, PartialEq, Eq, Structural)]
pub enum Fire {
    /// It does.
    Yes,
    /// It does not.
    No,
    /// It never will: the track is gone or has been passed.
    Stale,
}

/// The index of the current entry.
pub open spec fn cursor_index(snap: QueueSnapshot) -> Option<usize> {
    match snap.current {
        Some(c) => Some(c.index),
        None => None,
    }
}

fn cursor_of(snap: &QueueSnapshot) -> (r: Option<usize>)
    ensures
        r == cursor_index(*snap),
{
    match &snap.current {
        Some(c) => Some(c.index),
        None => None,
    }
}

/// The entry that a selector of tracks names.
pub open spec fn track_of(sel: TrackSel, snap: QueueSnapshot) -> Result<QueueId, PlanError> {
    match sel {
        TrackSel::Current => match snap.current {
            Some(c) => Ok(c.queue_id),
            None => Err(PlanError::Unresolvable),
        },
        TrackSel::RelToCurrent(delta) => match snap.current {
            None => Err(PlanError::Unresolvable),
            Some(c) => if c.index + delta < 0 {
                Err(PlanError::AlreadyPassed)
            } else if c.index + delta >= snap.entries@.len() {
                Err(PlanError::OutOfBounds { field: "track" })
            } else {
                Ok(snap.entries@[c.index + delta].queue_id)
            },
        },
        TrackSel::QueueId(id) => match snap.place(QueueId(id)) {
            Some(_) => Ok(QueueId(id)),
            None => Err(PlanError::Unresolvable),
        },
    }
}

fn resolve_track(sel: &TrackSel, snap: &QueueSnapshot) -> (r: Result<QueueId, PlanError>)
    ensures
        r == track_of(*sel, *snap),
{
    match sel {
        TrackSel::Current => match &snap.current {
            Some(c) => Ok(c.queue_id),
            None => Err(PlanError::Unresolvable),
        },
        TrackSel::RelToCurrent(delta) => match cursor_of(snap) {
            None => Err(PlanError::Unresolvable),
            Some(cursor) => {
                let idx: i128 = (cursor as i128) + (*delta as i128);
                if idx < 0 {
                    Err(PlanError::AlreadyPassed)
                } else if idx >= snap.entries.len() as i128 {
                    Err(PlanError::OutOfBounds { field: "track" })
                } else {
                    Ok(snap.entries[idx as usize].queue_id)
                }
            },
        },
        TrackSel::QueueId(id) => {
            let qid = QueueId(*id);
            match snap.find(qid) {
                Some(_) => Ok(qid),
                None => Err(PlanError::Unresolvable),
            }
        },
    }
}

/// The index that a place means, before it is held against the queue.
pub open spec fn index_of(cursor: int, n: int, base: PosBase) -> int {
    let k = if n == 0 {
        0
    } else {
        n - 1
    };
    match base {
        PosBase::CurrentIsOne => cursor + k,
        PosBase::Absolute => k,
    }
}

/// What a plan for the entry at an index waits for.
pub open spec fn at_index(idx: int, cursor: int, snap: QueueSnapshot) -> Result<Resolved, PlanError> {
    if idx == cursor {
        Ok(Resolved::Immediate)
    } else if idx < cursor {
        Err(PlanError::AlreadyPassed)
    } else if idx >= snap.entries@.len() {
        Err(PlanError::OutOfBounds { field: "position" })
    } else {
        Ok(Resolved::OnTrackStart(snap.entries@[idx].queue_id))
    }
}

fn resolve_pos_index(cursor: usize, n: usize, base: PosBase) -> (r: Result<usize, PlanError>)
    ensures
        match r {
            Ok(idx) => idx == index_of(cursor as int, n as int, base),
            Err(e) => e == (PlanError::OutOfBounds { field: "position" }) && index_of(
                cursor as int,
                n as int,
                base,
            ) > usize::MAX,
        },
{
    let k: usize = if n == 0 {
        0
    } else {
        n - 1
    };
    match base {
        PosBase::CurrentIsOne => match cursor.checked_add(k) {
            Some(idx) => Ok(idx),
            None => Err(PlanError::OutOfBounds { field: "position" }),
        },
        PosBase::Absolute => Ok(k),
    }
}

fn classify_position(idx: usize, cursor: usize, snap: &QueueSnapshot) -> (r: Result<
    Resolved,
    PlanError,
>)
    ensures
        r == at_index(idx as int, cursor as int, *snap),
{
    if idx == cursor {
        Ok(Resolved::Immediate)
    } else if idx < cursor {
        Err(PlanError::AlreadyPassed)
    } else if idx >= snap.entries.len() {
        Err(PlanError::OutOfBounds { field: "position" })
    } else {
        Ok(Resolved::OnTrackStart(snap.entries[idx].queue_id))
    }
}

/// What a plan waits for once it is armed, or why it cannot be.
pub open spec fn resolution(
    t: RawTrigger,
    snap: QueueSnapshot,
    now: Moment,
    now_civil: CivilTime,
    b: PlanBounds,
) -> Result<Resolved, PlanError> {
    match t {
        RawTrigger::Immediate => Ok(Resolved::Immediate),
        RawTrigger::QueuePosition { n, base } => match snap.current {
            None => Err(PlanError::Unresolvable),
            Some(c) => at_index(index_of(c.index as int, n as int, base), c.index as int, snap),
        },
        RawTrigger::TrackAfterCurrent => match snap.current {
            None => Err(PlanError::Unresolvable),
            Some(c) => at_index(c.index + 1, c.index as int, snap),
        },
        RawTrigger::TimeRemaining { track, secs } => match track_of(track, snap) {
            Err(e) => Err(e),
            Ok(q) => match snap.place(q) {
                None => Err(PlanError::Unresolvable),
                Some(i) => if snap.entries@[i].duration is None {
                    Err(PlanError::NoDuration)
                } else {
                    Ok(
                        Resolved::OnTrackRemaining {
                            track: q,
                            lead: Span { nanos: held_lead(secs, b).or_default(0) as u128 },
                        },
                    )
                },
            },
        },
        RawTrigger::AlbumBoundary { track } => match track_of(track, snap) {
            Err(e) => Err(e),
            Ok(q) => match snap.place(q) {
                None => Err(PlanError::Unresolvable),
                Some(i) => match snap.entries@[i].album_id {
                    None => Err(PlanError::NoAlbum),
                    Some(album) => Ok(Resolved::OnAlbumBoundary { last: q, album }),
                },
            },
        },
        RawTrigger::WallClock { at } => if at.since(now_civil) < 0 {
            Err(PlanError::PastDeadline)
        } else {
            Ok(
                Resolved::OnDeadline(
                    now.later(
                        Span {
                            nanos: number::smaller(
                                at.since(now_civil),
                                MAX_SPAN_NANOS as int,
                            ) as u128,
                        },
                    ),
                ),
            )
        },
        RawTrigger::SpanElapsed { secs } => Ok(
            Resolved::OnDeadline(
                now.later(Span { nanos: held_span(secs, b).or_default(0) as u128 }),
            ),
        ),
    }
}

/// Arms a plan against the queue as it is: every place and relative track becomes an
/// identity, every span and civil time a point on the monotonic clock.
pub fn validate(
    raw: &RawPlan,
    snap: &QueueSnapshot,
    now: Moment,
    now_civil: CivilTime,
    bounds: &PlanBounds,
) -> (r: Result<Resolved, PlanError>)
    requires
        bounds.wf(),
        now.wf(),
    ensures
        r == resolution(raw.trigger, *snap, now, now_civil, *bounds),
{
    match raw.trigger {
        RawTrigger::Immediate => Ok(Resolved::Immediate),
        RawTrigger::QueuePosition { n, base } => {
            let cursor: usize = match cursor_of(snap) {
                Some(c) => c,
                None => return Err(PlanError::Unresolvable),
            };
            match resolve_pos_index(cursor, n, base) {
                Ok(idx) => classify_position(idx, cursor, snap),
                Err(e) => {
                    let len: usize = snap.entries.len();
                    assert(snap.entries@.len() == len);
                    Err(e)
                },
            }
        },
        RawTrigger::TrackAfterCurrent => {
            let cursor: usize = match cursor_of(snap) {
                Some(c) => c,
                None => return Err(PlanError::Unresolvable),
            };
            match cursor.checked_add(1) {
                Some(idx) => classify_position(idx, cursor, snap),
                None => {
                    let len: usize = snap.entries.len();
                    assert(snap.entries@.len() == len);
                    Err(PlanError::OutOfBounds { field: "position" })
                },
            }
        },
        RawTrigger::TimeRemaining { track, secs } => {
            let qid = match resolve_track(&track, snap) {
                Ok(q) => q,
                Err(e) => return Err(e),
            };
            match snap.find(qid) {
                None => Err(PlanError::Unresolvable),
                Some((_, entry)) => {
                    if entry.duration.is_none() {
                        return Err(PlanError::NoDuration);
                    }
                    let lead = match Span::from_real(clamp_secs_field(secs, bounds)) {
                        Some(s) => s,
                        None => Span::zero(),
                    };
                    Ok(Resolved::OnTrackRemaining { track: qid, lead })
                },
            }
        },
        RawTrigger::AlbumBoundary { track } => {
            let qid = match resolve_track(&track, snap) {
                Ok(q) => q,
                Err(e) => return Err(e),
            };
            match snap.find(qid) {
                None => Err(PlanError::Unresolvable),
                Some((_, entry)) => match &entry.album_id {
                    None => Err(PlanError::NoAlbum),
                    Some(album) => Ok(
                        Resolved::OnAlbumBoundary { last: qid, album: album.clone() },
                    ),
                },
            }
        },
        RawTrigger::WallClock { at } => match at.after(now_civil) {
            Some(delay) => Ok(Resolved::OnDeadline(now.plus(delay))),
            None => Err(PlanError::PastDeadline),
        },
        RawTrigger::SpanElapsed { secs } => {
            let dur = match Span::from_real(clamp_span(secs, bounds)) {
                Some(s) => s,
                None => bounds.min_dur,
            };
            Ok(Resolved::OnDeadline(now.plus(dur)))
        },
    }
}

// ---------------------------------------------------------------------------
// Firing
// ---------------------------------------------------------------------------

/// The entry after index `i` is known to be of this album.
pub open spec fn album_goes_on(snap: QueueSnapshot, i: int, album: Seq<char>) -> bool {
    &&& i + 1 < snap.entries@.len()
    &&& snap.entries@[i + 1].album_id matches Some(a)
    &&& a.0@ == album
}

/// Whether an event fires what an armed plan waits for, in the queue as it is.
pub open spec fn fire_of(
    resolved: Resolved,
    timer: Option<TimerId>,
    ev: DjEventKind,
    snap: QueueSnapshot,
) -> Fire {
    let cursor = match cursor_index(snap) {
        Some(c) => c as int,
        None => 0,
    };
    match resolved {
        Resolved::Immediate => Fire::No,
        Resolved::OnTrackStart(q) => match snap.place(q) {
            None => Fire::Stale,
            Some(i) => if i < cursor {
                Fire::Stale
            } else if ev matches DjEventKind::TrackStart(t) && t.queue_id == q {
                Fire::Yes
            } else {
                Fire::No
            },
        },
        Resolved::OnAlbumBoundary { last, album } => match snap.place(last) {
            None => Fire::Stale,
            Some(i) => if ev matches DjEventKind::TrackEnd(t) && t.queue_id == last
                && !album_goes_on(snap, i, album.0@) {
                Fire::Yes
            } else {
                Fire::No
            },
        },
        Resolved::OnDeadline(_) => if ev matches DjEventKind::WallClock(id) && timer == Some(id) {
            Fire::Yes
        } else {
            Fire::No
        },
        Resolved::OnTrackRemaining { track, lead } => match snap.place(track) {
            None => Fire::Stale,
            Some(i) => if cursor_index(snap) != Some(i as usize) {
                Fire::Stale
            } else if ev matches DjEventKind::WallClock(id) && timer == Some(id) {
                Fire::Yes
            } else {
                Fire::No
            },
        },
    }
}

fn same_timer(timer: Option<TimerId>, id: TimerId) -> (r: bool)
    ensures
        r == (timer == Some(id)),
{
    match timer {
        Some(t) => t == id,
        None => false,
    }
}

/// Whether an event fires an armed plan, in the queue as it is.
pub fn fires(armed: &ArmedPlan, ev: &DjEvent, snap: &QueueSnapshot) -> (r: Fire)
    ensures
        r == fire_of(armed.resolved, armed.timer_id, ev.kind, *snap),
{
    let cursor: usize = match cursor_of(snap) {
        Some(c) => c,
        None => 0,
    };
    match &armed.resolved {
        Resolved::Immediate => Fire::No,
        Resolved::OnTrackStart(qid) => match snap.find(*qid) {
            None => Fire::Stale,
            Some((idx, _)) => {
                if idx < cursor {
                    return Fire::Stale;
                }
                match &ev.kind {
                    DjEventKind::TrackStart(t) => if t.queue_id == *qid {
                        Fire::Yes
                    } else {
                        Fire::No
                    },
                    _ => Fire::No,
                }
            },
        },
        Resolved::OnAlbumBoundary { last, album } => match snap.find(*last) {
            None => Fire::Stale,
            Some((idx, _)) => match &ev.kind {
                DjEventKind::TrackEnd(t) => {
                    if t.queue_id != *last {
                        return Fire::No;
                    }
                    if snap.entries.len() - idx > 1 {
                        if let Some(a) = &snap.entries[idx + 1].album_id {
                            if a.0 == album.0 {
                                return Fire::No;
                            }
                        }
                    }
                    Fire::Yes
                },
                _ => Fire::No,
            },
        },
        Resolved::OnDeadline(_) => match &ev.kind {
            DjEventKind::WallClock(id) => if same_timer(armed.timer_id, *id) {
                Fire::Yes
            } else {
                Fire::No
            },
            _ => Fire::No,
        },
        Resolved::OnTrackRemaining { track, lead: _ } => match snap.find(*track) {
            None => Fire::Stale,
            Some((idx, _)) => {
                let is_current = match cursor_of(snap) {
                    Some(c) => c == idx,
                    None => false,
                };
                if !is_current {
                    return Fire::Stale;
                }
                match &ev.kind {
                    DjEventKind::WallClock(id) => if same_timer(armed.timer_id, *id) {
                        Fire::Yes
                    } else {
                        Fire::No
                    },
                    _ => Fire::No,
                }
            },
        },
    }
}


// ---------------------------------------------------------------------------
// What plans keep
// ---------------------------------------------------------------------------

/// The track that an armed plan is about, where it is about one.
pub open spec fn target_of(r: Resolved) -> Option<QueueId> {
    match r {
        Resolved::OnTrackStart(q) => Some(q),
        Resolved::OnAlbumBoundary { last, album } => Some(last),
        Resolved::OnTrackRemaining { track, lead } => Some(track),
        _ => None,
    }
}

/// A plan never fires on a neighbour. Whatever has become of the queue since it was
/// armed, it fires only where the event names the very track that it was armed for, or
/// the very timer; and a plan for what is left of a track only while that track is the
/// current one.
pub proof fn fires_only_on_its_own_identity(
    r: Resolved,
    timer: Option<TimerId>,
    ev: DjEventKind,
    snap: QueueSnapshot,
)
    requires
        fire_of(r, timer, ev, snap) == Fire::Yes,
    ensures
        match r {
            Resolved::Immediate => false,
            Resolved::OnTrackStart(q) => ev matches DjEventKind::TrackStart(t) && t.queue_id == q,
            Resolved::OnAlbumBoundary { last, album } => ev matches DjEventKind::TrackEnd(t)
                && t.queue_id == last,
            Resolved::OnDeadline(_) => ev matches DjEventKind::WallClock(id) && timer == Some(id),
            Resolved::OnTrackRemaining { track, lead } => {
                &&& ev matches DjEventKind::WallClock(id)
                &&& timer == Some(id)
                &&& snap.place(track) matches Some(i)
                &&& snap.current matches Some(c)
                &&& c.index == i
            },
        },
        target_of(r) matches Some(q) ==> exists|i: int|
            0 <= i < snap.entries@.len() && (#[trigger] snap.entries@[i]).queue_id == q,
{
    if let Some(q) = target_of(r) {
        crate::event::place_is_identity(snap, q);
        let i = snap.place(q)->0;
        assert(snap.entries@[i].queue_id == q);
        assert(snap.entries.len() == snap.entries@.len());
    }
}

/// The plan of a track that has left the queue is stale, whatever happens.
pub proof fn a_gone_target_is_stale(
    r: Resolved,
    timer: Option<TimerId>,
    ev: DjEventKind,
    snap: QueueSnapshot,
    q: QueueId,
)
    requires
        target_of(r) == Some(q),
        forall|i: int| 0 <= i < snap.entries@.len() ==> (#[trigger] snap.entries@[i]).queue_id != q,
    ensures
        fire_of(r, timer, ev, snap) == Fire::Stale,
{
    crate::event::place_is_identity(snap, q);
}

/// A plan for the start of a track that has been passed is stale.
pub proof fn a_passed_target_is_stale(
    q: QueueId,
    timer: Option<TimerId>,
    ev: DjEventKind,
    snap: QueueSnapshot,
    i: int,
    c: usize,
)
    requires
        snap.place(q) == Some(i),
        cursor_index(snap) == Some(c),
        i < c,
    ensures
        fire_of(Resolved::OnTrackStart(q), timer, ev, snap) == Fire::Stale,
{
}

/// The boundary after an album is caught even where the queue has already moved on to
/// the next track: it rests on the track that the event names, not on the current one.
pub proof fn album_boundary_ignores_the_cursor(
    last: QueueId,
    album: AlbumId,
    timer: Option<TimerId>,
    ev: DjEventKind,
    a: QueueSnapshot,
    b: QueueSnapshot,
)
    requires
        a.entries@ == b.entries@,
    ensures
        fire_of(Resolved::OnAlbumBoundary { last, album }, timer, ev, a) == fire_of(
            Resolved::OnAlbumBoundary { last, album },
            timer,
            ev,
            b,
        ),
{
}

/// The first entry of an identity is where it is looked for.
proof fn place_of_the_first(snap: QueueSnapshot, q: QueueId, i: int)
    requires
        0 <= i < snap.entries@.len(),
        snap.entries@[i].queue_id == q,
        forall|j: int| 0 <= j < i ==> (#[trigger] snap.entries@[j]).queue_id != q,
    ensures
        snap.place(q) == Some(i),
{
    crate::event::place_is_identity(snap, q);
    if snap.place(q) is None {
        assert(snap.entries@[i].queue_id != q);
    } else {
        let k = snap.place(q)->0;
        if i < k {
            assert(snap.entries@[i].queue_id != q);
        } else if k < i {
            assert(snap.entries@[k].queue_id != q);
        }
    }
}

/// A plan fires on the event that it waits for, and is not given up before. A plan for the
/// start of a track that is still to come fires when that track starts. One for the end of
/// an album fires when its track ends, but where the next entry is known to go on with the
/// album: where the queue ends there, or where nothing is known of what follows, the album
/// has ended. One for what is left of a track fires when its timer runs out while that
/// track is the current one. A deadline fires when its timer runs out. On any other event,
/// each goes on waiting.
///
/// `i` is where the entry that the plan is about stands.
pub proof fn a_plan_fires_on_its_event(
    r: Resolved,
    timer: Option<TimerId>,
    ev: DjEventKind,
    snap: QueueSnapshot,
    i: int,
)
    requires
        r is OnTrackStart || r is OnAlbumBoundary || r is OnTrackRemaining ==> {
            let q = match r {
                Resolved::OnTrackStart(q) => q,
                Resolved::OnAlbumBoundary { last, album } => last,
                Resolved::OnTrackRemaining { track, lead } => track,
                _ => QueueId(0),
            };
            &&& 0 <= i < snap.entries@.len()
            &&& snap.entries@[i].queue_id == q
            &&& forall|j: int| 0 <= j < i ==> (#[trigger] snap.entries@[j]).queue_id != q
        },
    ensures
        match r {
            Resolved::Immediate => fire_of(r, timer, ev, snap) == Fire::No,
            Resolved::OnTrackStart(q) => (snap.current matches Some(c) ==> c.index <= i)
                ==> fire_of(
                r,
                timer,
                ev,
                snap,
            ) == if ev matches DjEventKind::TrackStart(t) && t.queue_id == q {
                Fire::Yes
            } else {
                Fire::No
            },
            Resolved::OnAlbumBoundary { last, album } => {
                let follows = i + 1 < snap.entries@.len() && (snap.entries@[i
                    + 1].album_id matches Some(a) && a.0@ == album.0@);
                fire_of(r, timer, ev, snap) == if !follows && (ev matches DjEventKind::TrackEnd(t)
                    && t.queue_id == last) {
                    Fire::Yes
                } else {
                    Fire::No
                }
            },
            Resolved::OnTrackRemaining { track, lead } => {
                &&& (snap.current matches Some(c) && c.index == i) ==> fire_of(r, timer, ev, snap)
                    == if ev matches DjEventKind::WallClock(id) && timer == Some(id) {
                    Fire::Yes
                } else {
                    Fire::No
                }
                &&& !(snap.current matches Some(c) && c.index == i) ==> fire_of(r, timer, ev, snap)
                    == Fire::Stale
            },
            Resolved::OnDeadline(_) => fire_of(r, timer, ev, snap)
                == if ev matches DjEventKind::WallClock(id) && timer == Some(id) {
                Fire::Yes
            } else {
                Fire::No
            },
        },
{
    match r {
        Resolved::OnTrackStart(q) => {
            place_of_the_first(snap, q, i);
        },
        Resolved::OnAlbumBoundary { last, album } => {
            place_of_the_first(snap, last, i);
        },
        Resolved::OnTrackRemaining { track, lead } => {
            place_of_the_first(snap, track, i);
            assert(snap.entries.len() == snap.entries@.len());
        },
        _ => {},
    }
}

/// A plan for a place in the queue waits for the track that stands there: the n-th from
/// the current one on, which is the first, or the n-th of the queue. Where that is the
/// current track it is done at once; where it has been passed, or where the queue ends
/// before it, the plan is refused. Nothing can be counted from while nothing plays.
pub proof fn places_are_counted_from_one(
    n: usize,
    snap: QueueSnapshot,
    now: Moment,
    now_civil: CivilTime,
    b: PlanBounds,
)
    requires
        n >= 1,
    ensures
        ({
            let here = resolution(
                RawTrigger::QueuePosition { n, base: PosBase::CurrentIsOne },
                snap,
                now,
                now_civil,
                b,
            );
            let there = resolution(
                RawTrigger::QueuePosition { n, base: PosBase::Absolute },
                snap,
                now,
                now_civil,
                b,
            );
            match snap.current {
                None => here == Err::<Resolved, PlanError>(PlanError::Unresolvable) && there
                    == Err::<Resolved, PlanError>(PlanError::Unresolvable),
                Some(c) => {
                    &&& n == 1 ==> here == Ok::<Resolved, PlanError>(Resolved::Immediate)
                    &&& n > 1 && c.index + n <= snap.entries@.len() ==> here == Ok::<
                        Resolved,
                        PlanError,
                    >(Resolved::OnTrackStart(snap.entries@[c.index + n - 1].queue_id))
                    &&& n > 1 && c.index + n > snap.entries@.len() ==> here == Err::<
                        Resolved,
                        PlanError,
                    >(PlanError::OutOfBounds { field: "position" })
                    &&& n == c.index + 1 ==> there == Ok::<Resolved, PlanError>(Resolved::Immediate)
                    &&& n <= c.index ==> there == Err::<Resolved, PlanError>(
                        PlanError::AlreadyPassed,
                    )
                    &&& c.index + 1 < n <= snap.entries@.len() ==> there == Ok::<
                        Resolved,
                        PlanError,
                    >(Resolved::OnTrackStart(snap.entries@[n - 1].queue_id))
                    &&& c.index + 1 < n && n > snap.entries@.len() ==> there == Err::<
                        Resolved,
                        PlanError,
                    >(PlanError::OutOfBounds { field: "position" })
                },
            }
        }),
{
}

/// After the current track means the second track from the current one on.
pub proof fn the_next_track_is_the_second(
    snap: QueueSnapshot,
    now: Moment,
    now_civil: CivilTime,
    b: PlanBounds,
)
    ensures
        resolution(RawTrigger::TrackAfterCurrent, snap, now, now_civil, b) == resolution(
            RawTrigger::QueuePosition { n: 2, base: PosBase::CurrentIsOne },
            snap,
            now,
            now_civil,
            b,
        ),
{
}

/// The track that a plan names is the current one, the one so many places from it, or the
/// one of an identity: a plan for the end of its album or for what is left of it is armed
/// for that track and for no other, or refused for what is not known of it.
///
/// `i` is where the track stands.
pub proof fn a_named_track_is_the_one_meant(
    sel: TrackSel,
    secs: Real,
    snap: QueueSnapshot,
    now: Moment,
    now_civil: CivilTime,
    b: PlanBounds,
    i: int,
)
    requires
        b.wf(),
        0 <= i < snap.entries@.len(),
        forall|j: int|
            0 <= j < i ==> (#[trigger] snap.entries@[j]).queue_id != snap.entries@[i].queue_id,
        match sel {
            TrackSel::Current => snap.current matches Some(c) && c.queue_id
                == snap.entries@[i].queue_id,
            TrackSel::RelToCurrent(d) => snap.current matches Some(c) && c.index + d == i,
            TrackSel::QueueId(id) => snap.entries@[i].queue_id == QueueId(id),
        },
    ensures
        resolution(RawTrigger::AlbumBoundary { track: sel }, snap, now, now_civil, b)
            == match snap.entries@[i].album_id {
            Some(album) => Ok::<Resolved, PlanError>(
                Resolved::OnAlbumBoundary { last: snap.entries@[i].queue_id, album },
            ),
            None => Err::<Resolved, PlanError>(PlanError::NoAlbum),
        },
        match resolution(RawTrigger::TimeRemaining { track: sel, secs }, snap, now, now_civil, b) {
            Ok(Resolved::OnTrackRemaining { track, lead }) => {
                &&& snap.entries@[i].duration is Some
                &&& track == snap.entries@[i].queue_id
                &&& lead.nanos == match secs {
                    Real::Finite(x) => if x < 0 {
                        0
                    } else if x > b.max_secs {
                        b.max_secs as int
                    } else {
                        x as int
                    },
                    _ => 0,
                }
            },
            Ok(_) => false,
            Err(e) => snap.entries@[i].duration is None && e == PlanError::NoDuration,
        },
{
    place_of_the_first(snap, snap.entries@[i].queue_id, i);
}

/// A track that is not there cannot be waited for: nothing plays to count from, the place
/// lies before the queue or behind it, or no entry has the identity.
pub proof fn a_track_that_is_not_there_is_refused(
    sel: TrackSel,
    secs: Real,
    snap: QueueSnapshot,
    now: Moment,
    now_civil: CivilTime,
    b: PlanBounds,
)
    ensures
        ({
            let album = resolution(
                RawTrigger::AlbumBoundary { track: sel },
                snap,
                now,
                now_civil,
                b,
            );
            let remaining = resolution(
                RawTrigger::TimeRemaining { track: sel, secs },
                snap,
                now,
                now_civil,
                b,
            );
            let why = match sel {
                TrackSel::Current => if snap.current is None {
                    Some(PlanError::Unresolvable)
                } else {
                    None
                },
                TrackSel::RelToCurrent(d) => match snap.current {
                    None => Some(PlanError::Unresolvable),
                    Some(c) => if c.index + d < 0 {
                        Some(PlanError::AlreadyPassed)
                    } else if c.index + d >= snap.entries@.len() {
                        Some(PlanError::OutOfBounds { field: "track" })
                    } else {
                        None
                    },
                },
                TrackSel::QueueId(id) => if forall|j: int|
                    0 <= j < snap.entries@.len() ==> (#[trigger] snap.entries@[j]).queue_id
                        != QueueId(id) {
                    Some(PlanError::Unresolvable)
                } else {
                    None
                },
            };
            why matches Some(e) ==> album == Err::<Resolved, PlanError>(e) && remaining == Err::<
                Resolved,
                PlanError,
            >(e)
        }),
{
    if let TrackSel::QueueId(id) = sel {
        crate::event::place_is_identity(snap, QueueId(id));
    }
}

/// A plan for a point of civil time waits as long as it is until then, and one for a span
/// as long as the span, held to its range: the clock runs on from now. What has passed is
/// refused, and what is due now is not.
pub proof fn deadlines_lie_as_far_ahead_as_asked(
    at: CivilTime,
    secs: Real,
    snap: QueueSnapshot,
    now: Moment,
    now_civil: CivilTime,
    b: PlanBounds,
)
    requires
        b.wf(),
        now.wf(),
        at.nanos < 1_000_000_000,
        now_civil.nanos < 1_000_000_000,
    ensures
        ({
            let ahead = (at.secs - now_civil.secs) * 1_000_000_000 + at.nanos - now_civil.nanos;
            match resolution(RawTrigger::WallClock { at }, snap, now, now_civil, b) {
                Ok(Resolved::OnDeadline(m)) => ahead >= 0 && m.nanos == now.nanos + if ahead
                    > MAX_SPAN_NANOS {
                    MAX_SPAN_NANOS as int
                } else {
                    ahead
                },
                Ok(_) => false,
                Err(e) => ahead < 0 && e == PlanError::PastDeadline,
            }
        }),
        match resolution(RawTrigger::SpanElapsed { secs }, snap, now, now_civil, b) {
            Ok(Resolved::OnDeadline(m)) => m.nanos - now.nanos == match secs {
                Real::Finite(x) => if x < b.min_dur.nanos {
                    b.min_dur.nanos as int
                } else if x > b.max_secs {
                    b.max_secs as int
                } else {
                    x as int
                },
                _ => b.min_dur.nanos as int,
            },
            _ => false,
        },
        resolution(RawTrigger::Immediate, snap, now, now_civil, b) == Ok::<Resolved, PlanError>(
            Resolved::Immediate,
        ),
{
    let d = at.since_epoch() - now_civil.since_epoch();
    assert(d == (at.secs - now_civil.secs) * 1_000_000_000 + at.nanos - now_civil.nanos);
}

/// A number of a plan that lies outside its range becomes the end of the range that it is
/// nearer to; one that is no number becomes the shortest time, or the ceiling for a level.
/// Nothing else of an action changes.
pub proof fn clamping_takes_the_nearer_end(
    secs: Real,
    db: Real,
    vol: u8,
    count: u32,
    selector: Selector,
    b: PlanBounds,
)
    requires
        b.wf(),
    ensures
        ({
            let s = match secs {
                Real::Finite(x) => if x < b.min_dur.nanos {
                    b.min_dur.nanos as int
                } else if x > b.max_dur.nanos {
                    b.max_dur.nanos as int
                } else {
                    x as int
                },
                _ => b.min_dur.nanos as int,
            };
            let l = match db {
                Real::Finite(x) => if x < b.synth_floor_db {
                    b.synth_floor_db
                } else if x > b.wake_ceiling_db {
                    b.wake_ceiling_db
                } else {
                    x
                },
                _ => b.wake_ceiling_db,
            };
            let v = if vol < 100 {
                vol
            } else {
                100
            };
            let n = if count < b.max_enqueue {
                count
            } else {
                b.max_enqueue
            };
            let t = Real::Finite(s as i128);
            let d = Real::Finite(l);
            &&& held_action(Action::Fade(FadeIntentIr::Out { secs }), b) == Action::Fade(
                FadeIntentIr::Out { secs: t },
            )
            &&& held_action(Action::Fade(FadeIntentIr::In { secs }), b) == Action::Fade(
                FadeIntentIr::In { secs: t },
            )
            &&& held_action(Action::Fade(FadeIntentIr::ToFloor { secs }), b) == Action::Fade(
                FadeIntentIr::ToFloor { secs: t },
            )
            &&& held_action(
                Action::Fade(FadeIntentIr::To { target_db: db, vol, secs }),
                b,
            ) == Action::Fade(FadeIntentIr::To { target_db: d, vol: v, secs: t })
            &&& held_action(
                Action::Fade(FadeIntentIr::WakeTo { target_db: db, vol, secs }),
                b,
            ) == Action::Fade(FadeIntentIr::WakeTo { target_db: d, vol: v, secs: t })
            &&& held_action(Action::SetVolume(vol), b) == Action::SetVolume(v)
            &&& held_action(Action::Enqueue { selector, count }, b) == (Action::Enqueue {
                selector,
                count: n,
            })
            &&& held_action(Action::Wake { selector: Some(selector), count }, b) == (Action::Wake {
                selector: Some(selector),
                count: n,
            })
            &&& held_action(Action::Wake { selector: None, count }, b) == (Action::Wake {
                selector: None,
                count: n,
            })
            &&& held_action(Action::PlayNow { selector, count }, b) == (Action::PlayNow {
                selector,
                count: n,
            })
        }),
{
}

/// An action without a number that could do harm is left alone.
pub proof fn harmless_actions_are_left_alone(a: Action, b: PlanBounds)
    requires
        a is Stop || a is Pause || a is Remove || a is Move || a is Clear || a is Play || a is Noop,
    ensures
        held_action(a, b) == a,
{
}

/// The trigger of a plan keeps its kind and what it is about; only its seconds are held to
/// their range.
pub proof fn clamping_keeps_the_trigger(t: RawTrigger, b: PlanBounds)
    requires
        b.wf(),
    ensures
        match (t, held_trigger(t, b)) {
            (
                RawTrigger::TimeRemaining { track: a, secs: x },
                RawTrigger::TimeRemaining { track: c, secs: y },
            ) => a == c && (y matches Real::Finite(k) && k == match x {
                Real::Finite(n) => if n < 0 {
                    0
                } else if n > b.max_secs {
                    b.max_secs
                } else {
                    n
                },
                _ => 0,
            }),
            (RawTrigger::SpanElapsed { secs: x }, RawTrigger::SpanElapsed { secs: y }) => (
            y matches Real::Finite(k) && k == match x {
                Real::Finite(n) => if n < b.min_dur.nanos {
                    b.min_dur.nanos as int
                } else if n > b.max_secs {
                    b.max_secs as int
                } else {
                    n as int
                },
                _ => b.min_dur.nanos as int,
            }),
            (u, v) => u == v && !(u is TimeRemaining) && !(u is SpanElapsed),
        },
{
}

/// A selection is what was named: the entry at a place, counted from one; those between two
/// places, whichever was said first; the current entry; the last so many; or those whose
/// text holds the words, whatever the letter case. It rises, and holds each once.
pub proof fn a_selection_is_what_was_named(
    r: Seq<usize>,
    sel: QueueSelector,
    entries: Seq<Seq<char>>,
    current: Option<usize>,
    i: usize,
)
    requires
        is_selection(r, sel, entries, current),
        i < entries.len(),
    ensures
        forall|a: int, b: int| 0 <= a < b < r.len() ==> r[a] < r[b],
        forall|a: int| 0 <= a < r.len() ==> #[trigger] r[a] < entries.len(),
        r.contains(i) <==> match sel {
            QueueSelector::Position(p) => p == i + 1,
            QueueSelector::Range { start, end } => (start <= i + 1 && i + 1 <= end) || (end <= i
                + 1 && i + 1 <= start),
            QueueSelector::QueryMatch(q) => text::lower(text::trimmed(q@)).len() > 0 && text::has(
                text::lower(entries[i as int]),
                text::lower(text::trimmed(q@)),
            ),
            QueueSelector::Current => current == Some(i),
            QueueSelector::Last(k) => i + k >= entries.len(),
        },
{
    if r.contains(i) {
        let a = choose|a: int| 0 <= a < r.len() && r[a] == i;
        assert(picks(sel, entries, current, r[a] as int));
    }
    if picks(sel, entries, current, i as int) {
        assert(r.contains(i));
    }
}

/// The numbers of an action lie in their ranges.
pub open spec fn action_in_range(a: Action, b: PlanBounds) -> bool {
    match a {
        Action::Fade(FadeIntentIr::Out { secs }) => real_between(secs, b.min_dur, b.max_dur),
        Action::Fade(FadeIntentIr::In { secs }) => real_between(secs, b.min_dur, b.max_dur),
        Action::Fade(FadeIntentIr::ToFloor { secs }) => real_between(secs, b.min_dur, b.max_dur),
        Action::Fade(FadeIntentIr::To { target_db, vol, secs }) => {
            &&& real_between(secs, b.min_dur, b.max_dur)
            &&& vol <= 100
            &&& target_db matches Real::Finite(n)
            &&& b.synth_floor_db <= n <= b.wake_ceiling_db
        },
        Action::Fade(FadeIntentIr::WakeTo { target_db, vol, secs }) => {
            &&& real_between(secs, b.min_dur, b.max_dur)
            &&& vol <= 100
            &&& target_db matches Real::Finite(n)
            &&& b.synth_floor_db <= n <= b.wake_ceiling_db
        },
        Action::SetVolume(v) => v <= 100,
        Action::Enqueue { selector, count } => count <= b.max_enqueue,
        Action::Wake { selector, count } => count <= b.max_enqueue,
        Action::PlayNow { selector, count } => count <= b.max_enqueue,
        _ => true,
    }
}

/// A finite number of seconds between two spans.
pub open spec fn real_between(r: Real, lo: Span, hi: Span) -> bool {
    r matches Real::Finite(n) && lo.nanos <= n <= hi.nanos
}

/// Clamping brings every number of an action into its range, and changes nothing that
/// lies in it already.
pub proof fn clamping_is_exact(a: Action, b: PlanBounds)
    requires
        b.wf(),
    ensures
        action_in_range(held_action(a, b), b),
        action_in_range(a, b) ==> held_action(a, b) == a,
        held_action(held_action(a, b), b) == held_action(a, b),
{
}

/// Arming a clamped plan and arming the plan itself come to the same.
pub proof fn clamping_does_not_change_arming(
    t: RawTrigger,
    snap: QueueSnapshot,
    now: Moment,
    now_civil: CivilTime,
    b: PlanBounds,
)
    requires
        b.wf(),
    ensures
        resolution(held_trigger(t, b), snap, now, now_civil, b) == resolution(
            t,
            snap,
            now,
            now_civil,
            b,
        ),
{
}

/// The longest fade does not limit how far ahead a point of civil time may lie.
pub proof fn civil_deadlines_are_unbounded(
    at: CivilTime,
    snap: QueueSnapshot,
    now: Moment,
    now_civil: CivilTime,
    a: PlanBounds,
    b: PlanBounds,
)
    ensures
        resolution(RawTrigger::WallClock { at }, snap, now, now_civil, a) == resolution(
            RawTrigger::WallClock { at },
            snap,
            now,
            now_civil,
            b,
        ),
{
}

/// However large the place is that a plan asks for, past the end of the queue it is out
/// of bounds, and the arithmetic on it never wraps.
pub proof fn places_past_the_queue_are_refused(
    n: usize,
    base: PosBase,
    snap: QueueSnapshot,
    now: Moment,
    now_civil: CivilTime,
    b: PlanBounds,
    c: usize,
)
    requires
        cursor_index(snap) == Some(c),
        c < snap.entries@.len(),
        index_of(c as int, n as int, base) >= snap.entries@.len(),
    ensures
        resolution(RawTrigger::QueuePosition { n, base }, snap, now, now_civil, b) == Err::<
            Resolved,
            PlanError,
        >(PlanError::OutOfBounds { field: "position" }),
{
}

/// A selector picks one set of entries only: the selection is determined.
pub proof fn selections_are_determined(
    r: Seq<usize>,
    s: Seq<usize>,
    sel: QueueSelector,
    entries: Seq<Seq<char>>,
    current: Option<usize>,
)
    requires
        is_selection(r, sel, entries, current),
        is_selection(s, sel, entries, current),
    ensures
        r == s,
{
    assert forall|x: usize| r.contains(x) <==> s.contains(x) by {
        if r.contains(x) {
            let a = choose|a: int| 0 <= a < r.len() && r[a] == x;
            assert(picks(sel, entries, current, r[a] as int));
        }
        if s.contains(x) {
            let a = choose|a: int| 0 <= a < s.len() && s[a] == x;
            assert(picks(sel, entries, current, s[a] as int));
        }
    }
    rising_rows_are_equal(r, s);
}

proof fn rising_rows_are_equal(r: Seq<usize>, s: Seq<usize>)
    requires
        forall|a: int, b: int| 0 <= a < b < r.len() ==> r[a] < r[b],
        forall|a: int, b: int| 0 <= a < b < s.len() ==> s[a] < s[b],
        forall|x: usize| r.contains(x) <==> s.contains(x),
    ensures
        r == s,
    decreases r.len(),
{
    if r.len() == 0 {
        if s.len() > 0 {
            assert(s.contains(s[0]));
        }
        assert(r =~= s);
    } else {
        assert(r.contains(r.last()));
        assert(s.contains(r.last()));
        assert(s.len() > 0);
        assert(s.contains(s.last()));
        assert(r.contains(s.last()));
        let x = r.last();
        let a = choose|a: int| 0 <= a < s.len() && s[a] == x;
        let b = choose|b: int| 0 <= b < r.len() && r[b] == s.last();
        assert(r.last() == s.last());
        let r1 = r.drop_last();
        let s1 = s.drop_last();
        assert forall|y: usize| r1.contains(y) <==> s1.contains(y) by {
            if r1.contains(y) {
                let k = choose|k: int| 0 <= k < r1.len() && r1[k] == y;
                assert(r[k] == y);
                assert(r.contains(y));
                let m = choose|m: int| 0 <= m < s.len() && s[m] == y;
                assert(m < s.len() - 1);
                assert(s1[m] == y);
            }
            if s1.contains(y) {
                let k = choose|k: int| 0 <= k < s1.len() && s1[k] == y;
                assert(s[k] == y);
                assert(s.contains(y));
                let m = choose|m: int| 0 <= m < r.len() && r[m] == y;
                assert(m < r.len() - 1);
                assert(r1[m] == y);
            }
        }
        rising_rows_are_equal(r1, s1);
        assert(r =~= r1.push(r.last()));
        assert(s =~= s1.push(s.last()));
    }
}

/// What plans are held to is what is configured: fades and spans lie between the shortest
/// interval and the longest fade, levels between silence and the ceiling, and no action adds
/// more than a hundred tracks.
pub proof fn plans_are_held_to_what_is_configured(cfg: FadeConfig)
    ensures
        ({
            let b = bounds_of(cfg);
            &&& b.min_dur.nanos == cfg.min_slew_ms * 1_000_000
            &&& b.max_dur.nanos == cfg.max_dur_secs * 1_000_000_000
            &&& b.max_secs == cfg.max_dur_secs * 1_000_000_000
            &&& b.lead.nanos == cfg.min_slew_ms * 1_000_000
            &&& b.max_enqueue == 100
            &&& cfg.synth_floor_db matches Real::Finite(x) ==> b.synth_floor_db == x
            &&& cfg.wake_ceiling_db matches Real::Finite(x) ==> b.wake_ceiling_db == x
            &&& !(cfg.synth_floor_db is Finite) ==> b.synth_floor_db == -60_000_000_000
            &&& !(cfg.wake_ceiling_db is Finite) ==> b.wake_ceiling_db == 0
        }),
{
}

/// A place of none is the first.
pub proof fn no_place_is_the_first(
    base: PosBase,
    snap: QueueSnapshot,
    now: Moment,
    now_civil: CivilTime,
    b: PlanBounds,
)
    ensures
        resolution(RawTrigger::QueuePosition { n: 0, base }, snap, now, now_civil, b) == resolution(
            RawTrigger::QueuePosition { n: 1, base },
            snap,
            now,
            now_civil,
            b,
        ),
{
}

} // verus!
