//! The executor: the plans that are armed, and what fires them.
//!
//! Which plans an event fires is decided by identity alone. A plan that fired or that
//! can never fire is gone. What fires at once is done in the order of the plans'
//! identities.

use vstd::prelude::*;

use crate::event::{DjEvent, DjEventKind, Moment, QueueId, QueueSnapshot, TimerId};
use crate::mpd::command::MpdCommand;
use crate::number;
use crate::number::{Real, Span};
use crate::plan;
use crate::plan::{Action, ArmedPlan, FadeIntentIr, Fire, PlanId, Resolved, Selector};
use crate::player::PlayState;

verus! {

/// A deadline that moves by more than this moved because of a seek.
pub const REARM_JUMP_NANOS: u128 = 1_000_000_000;

/// A plan in the registry.
#[derive(Debug)]
pub struct PendingPlan {
    /// The plan.
    pub armed: ArmedPlan,
    /// The point of time that a plan which waits for what is left of a track is timed
    /// to, where it is timed.
    pub remaining_deadline: Option<Moment>,
}

/// What is to be done about a plan's timer.
#[derive(Clone, Copy, Debug, PartialEq, Eq, Structural)]
pub enum TimerTodo {
    /// Drop it.
    Disarm(PlanId),
    /// Set it to this point of time in place of any other.
    Arm(PlanId, Moment),
}

/// What an event leads to.
#[derive(Debug)]
pub struct EventWork {
    /// The plans that can never fire, in the order in which they were given up.
    pub expired: Vec<PlanId>,
    /// What is to be done about timers, in order.
    pub timers: Vec<TimerTodo>,
    /// The plans that fire and what they do, in the order of their identities.
    pub fired: Vec<(PlanId, Action)>,
}

/// The registry of armed plans.
#[derive(Debug)]
pub struct Executor {
    /// The plans, in the order in which they were armed.
    pub pending: Vec<PendingPlan>,
    /// The version of the queue that was last seen.
    pub last_version: u64,
}

// ---------------------------------------------------------------------------
// Reconciling
// ---------------------------------------------------------------------------

/// The entry that a plan is about, where it is about one.
pub open spec fn target_of(r: Resolved) -> Option<QueueId> {
    match r {
        Resolved::OnTrackStart(q) => Some(q),
        Resolved::OnAlbumBoundary { last, album } => Some(last),
        Resolved::OnTrackRemaining { track, lead } => Some(track),
        _ => None,
    }
}

/// The entry that a plan is about is in the queue, or it is about none.
pub open spec fn is_held(p: PendingPlan, snap: QueueSnapshot) -> bool {
    match target_of(p.armed.resolved) {
        Some(q) => snap.place(q) is Some,
        None => true,
    }
}

/// The plans whose entries are in the queue.
pub open spec fn held(s: Seq<PendingPlan>, snap: QueueSnapshot) -> Seq<PendingPlan> {
    s.filter(|p: PendingPlan| is_held(p, snap))
}

/// The identities of plans.
pub open spec fn ids(s: Seq<PendingPlan>) -> Seq<PlanId> {
    Seq::new(s.len(), |i: int| s[i].armed.id)
}

/// The identities of the plans whose entries have left the queue.
pub open spec fn orphans(s: Seq<PendingPlan>, snap: QueueSnapshot) -> Seq<PlanId> {
    ids(s.filter(|p: PendingPlan| !is_held(p, snap)))
}

fn target(r: &Resolved) -> (t: Option<QueueId>)
    ensures
        t == target_of(*r),
{
    match r {
        Resolved::OnTrackStart(q) => Some(*q),
        Resolved::OnAlbumBoundary { last, album: _ } => Some(*last),
        Resolved::OnTrackRemaining { track, lead: _ } => Some(*track),
        _ => None,
    }
}

proof fn filter_step<A>(s: Seq<A>, keep: spec_fn(A) -> bool, k: int)
    requires
        0 <= k < s.len(),
    ensures
        s.take(k + 1).filter(keep) == (if keep(s[k]) {
            s.take(k).filter(keep).push(s[k])
        } else {
            s.take(k).filter(keep)
        }),
{
    reveal(Seq::filter);
    assert(s.take(k + 1).drop_last() =~= s.take(k));
    assert(s.take(k + 1).last() == s[k]);
}

proof fn filter_ends<A>(s: Seq<A>, keep: spec_fn(A) -> bool)
    ensures
        s.take(0).filter(keep) == Seq::<A>::empty(),
        s.take(s.len() as int).filter(keep) == s.filter(keep),
{
    reveal(Seq::filter);
    assert(s.take(0) =~= Seq::<A>::empty());
    assert(s.take(s.len() as int) =~= s);
}

proof fn ids_push(s: Seq<PendingPlan>, p: PendingPlan)
    ensures
        ids(s.push(p)) == ids(s).push(p.armed.id),
{
    assert(ids(s.push(p)) =~= ids(s).push(p.armed.id));
}

/// Takes the first plan behind those that are kept out of a row.
proof fn removed_from(s: Seq<PendingPlan>, kept: Seq<PendingPlan>, k: int)
    requires
        0 <= k < s.len(),
    ensures
        (kept + s.skip(k)).remove(kept.len() as int) == kept + s.skip(k + 1),
        (kept + s.skip(k))[kept.len() as int] == s[k],
        kept.push(s[k]) + s.skip(k + 1) == kept + s.skip(k),
{
    assert((kept + s.skip(k)).remove(kept.len() as int) =~= kept + s.skip(k + 1));
    assert(kept.push(s[k]) + s.skip(k + 1) =~= kept + s.skip(k));
}

/// Gives up every plan whose entry has left the queue, and names those.
pub fn reconcile(pending: &mut Vec<PendingPlan>, snap: &QueueSnapshot) -> (r: Vec<PlanId>)
    ensures
        final(pending)@ == held(old(pending)@, *snap),
        r@ == orphans(old(pending)@, *snap),
{
    let mut gone: Vec<PlanId> = Vec::new();
    let ghost all = pending@;
    let ghost keep = |p: PendingPlan| is_held(p, *snap);
    let ghost lose = |p: PendingPlan| !is_held(p, *snap);
    let ghost mut k: int = 0;
    let mut i: usize = 0;
    proof {
        filter_ends(all, keep);
        filter_ends(all, lose);
        assert(all.skip(0) =~= all);
        assert(Seq::<PendingPlan>::empty() + all =~= all);
        assert(ids(Seq::<PendingPlan>::empty()) =~= Seq::<PlanId>::empty());
    }
    while i < pending.len()
        invariant
            0 <= k <= all.len(),
            keep == (|p: PendingPlan| is_held(p, *snap)),
            lose == (|p: PendingPlan| !is_held(p, *snap)),
            i == all.take(k).filter(keep).len(),
            pending@ == all.take(k).filter(keep) + all.skip(k),
            gone@ == ids(all.take(k).filter(lose)),
        decreases all.len() - k,
    {
        proof {
            filter_step(all, keep, k);
            filter_step(all, lose, k);
            removed_from(all, all.take(k).filter(keep), k);
            ids_push(all.take(k).filter(lose), all[k]);
        }
        let stays = match target(&pending[i].armed.resolved) {
            Some(q) => snap.find(q).is_some(),
            None => true,
        };
        if stays {
            i += 1;
        } else {
            let p = pending.remove(i);
            gone.push(p.armed.id);
        }
        proof {
            k = k + 1;
        }
    }
    proof {
        assert(k == all.len());
        assert(all.skip(k) =~= Seq::<PendingPlan>::empty());
        assert(pending@ =~= all.filter(keep));
    }
    gone
}

// ---------------------------------------------------------------------------
// Timing
// ---------------------------------------------------------------------------

/// The entry that plays, by the queue.
pub open spec fn current_of(snap: QueueSnapshot) -> Option<QueueId> {
    match snap.current {
        Some(c) => Some(c.queue_id),
        None => None,
    }
}

/// An event whose times are within the limits of the clock.
pub open spec fn timely(ev: DjEvent) -> bool {
    ev.now.wf() && (ev.kind matches DjEventKind::Tick {
        time_pos,
        time_remaining: Some(rem),
    } ==> rem.wf())
}

/// The distance between two points of time.
pub open spec fn distance(a: Moment, b: Moment) -> int {
    if a.nanos >= b.nanos {
        a.nanos - b.nanos
    } else {
        b.nanos - a.nanos
    }
}

/// The distance between two points of time.
pub fn abs_diff_instant(a: Moment, b: Moment) -> (r: u128)
    ensures
        r == distance(a, b),
{
    if a.nanos >= b.nanos {
        a.nanos - b.nanos
    } else {
        b.nanos - a.nanos
    }
}

/// The point of time at which this much more than the lead is left.
pub open spec fn deadline_of(now: Moment, rem: Span, lead: Span) -> Moment {
    now.later(
        Span {
            nanos: if rem.nanos >= lead.nanos {
                (rem.nanos - lead.nanos) as u128
            } else {
                0
            },
        },
    )
}

/// The player has paused.
pub open spec fn is_pause(kind: DjEventKind) -> bool {
    kind matches DjEventKind::StateChanged(s, t) && s == PlayState::Paused
}

/// A plan after an event, and what is to be done about its timer.
///
/// A plan that waits for what is left of a track is timed only while that track plays.
/// It is timed anew where its deadline jumps.
pub open spec fn timed(p: PendingPlan, ev: DjEvent, snap: QueueSnapshot) -> (
    PendingPlan,
    Option<TimerTodo>,
) {
    match p.armed.resolved {
        Resolved::OnTrackRemaining { track, lead } => if current_of(snap) != Some(track)
            || is_pause(ev.kind) {
            (
                untimed(p),
                if p.armed.timer_id is Some {
                    Some(TimerTodo::Disarm(p.armed.id))
                } else {
                    None
                },
            )
        } else {
            match ev.kind {
                DjEventKind::Tick { time_pos, time_remaining: Some(rem) } => {
                    let at = deadline_of(ev.now, rem, lead);
                    let jumped = match p.remaining_deadline {
                        None => true,
                        Some(prev) => distance(prev, at) > REARM_JUMP_NANOS,
                    };
                    if jumped {
                        (
                            PendingPlan {
                                armed: ArmedPlan { timer_id: None, ..p.armed },
                                remaining_deadline: Some(at),
                            },
                            Some(TimerTodo::Arm(p.armed.id, at)),
                        )
                    } else {
                        (p, None)
                    }
                },
                _ => (p, None),
            }
        },
        _ => (p, None),
    }
}

/// A plan without a timer.
pub open spec fn untimed(p: PendingPlan) -> PendingPlan {
    PendingPlan {
        armed: ArmedPlan { timer_id: None, ..p.armed },
        remaining_deadline: None,
    }
}

/// The plans after an event.
pub open spec fn all_timed(s: Seq<PendingPlan>, ev: DjEvent, snap: QueueSnapshot) -> Seq<
    PendingPlan,
> {
    Seq::new(s.len(), |i: int| timed(s[i], ev, snap).0)
}

/// What is to be done about the timers of the plans, in their order.
pub open spec fn timer_todos(s: Seq<PendingPlan>, ev: DjEvent, snap: QueueSnapshot) -> Seq<
    TimerTodo,
>
    decreases s.len(),
{
    if s.len() == 0 {
        Seq::empty()
    } else {
        let before = timer_todos(s.drop_last(), ev, snap);
        match timed(s.last(), ev, snap).1 {
            Some(t) => before.push(t),
            None => before,
        }
    }
}

fn time_plan(p: &mut PendingPlan, ev: &DjEvent, cur: Option<QueueId>, snap: &QueueSnapshot) -> (r:
    Option<TimerTodo>)
    requires
        timely(*ev),
        cur == current_of(*snap),
    ensures
        (*final(p), r) == timed(*old(p), *ev, *snap),
{
    let (track, lead) = match &p.armed.resolved {
        Resolved::OnTrackRemaining { track, lead } => (*track, *lead),
        _ => return None,
    };
    let is_current = match cur {
        Some(q) => q == track,
        None => false,
    };
    let paused = match &ev.kind {
        DjEventKind::StateChanged(PlayState::Paused, _) => true,
        _ => false,
    };
    if !is_current || paused {
        let had = p.armed.timer_id.is_some();
        p.armed.timer_id = None;
        p.remaining_deadline = None;
        return if had {
            Some(TimerTodo::Disarm(p.armed.id))
        } else {
            None
        };
    }
    match &ev.kind {
        DjEventKind::Tick { time_pos: _, time_remaining: Some(rem) } => {
            let more = Span {
                nanos: if rem.nanos >= lead.nanos {
                    rem.nanos - lead.nanos
                } else {
                    0
                },
            };
            let at = ev.now.plus(more);
            let jumped = match p.remaining_deadline {
                None => true,
                Some(prev) => abs_diff_instant(prev, at) > REARM_JUMP_NANOS,
            };
            if jumped {
                p.armed.timer_id = None;
                p.remaining_deadline = Some(at);
                Some(TimerTodo::Arm(p.armed.id, at))
            } else {
                None
            }
        },
        _ => None,
    }
}

/// Keeps the timers of the plans that wait for what is left of a track.
pub fn maintain_remaining(pending: &mut Vec<PendingPlan>, ev: &DjEvent, snap: &QueueSnapshot) -> (r:
    Vec<TimerTodo>)
    requires
        timely(*ev),
    ensures
        final(pending)@ == all_timed(old(pending)@, *ev, *snap),
        r@ == timer_todos(old(pending)@, *ev, *snap),
{
    let cur = match &snap.current {
        Some(c) => Some(c.queue_id),
        None => None,
    };
    let mut todos: Vec<TimerTodo> = Vec::new();
    let ghost all = pending@;
    let mut i: usize = 0;
    let n: usize = pending.len();
    assert(all.take(0) =~= Seq::<PendingPlan>::empty());
    while i < n
        invariant
            timely(*ev),
            cur == current_of(*snap),
            i <= n == all.len() == pending@.len(),
            pending@ =~= all_timed(all.take(i as int), *ev, *snap) + all.skip(i as int),
            todos@ == timer_todos(all.take(i as int), *ev, *snap),
        decreases n - i,
    {
        assert(all.take(i + 1).drop_last() =~= all.take(i as int));
        assert(pending@[i as int] == all[i as int]);
        let t = time_plan(&mut pending[i], ev, cur, snap);
        if let Some(t) = t {
            todos.push(t);
        }
        i += 1;
        assert(pending@ =~= all_timed(all.take(i as int), *ev, *snap) + all.skip(i as int));
    }
    assert(all.take(n as int) =~= all);
    assert(pending@ =~= all_timed(all, *ev, *snap));
    todos
}

// ---------------------------------------------------------------------------
// Firing
// ---------------------------------------------------------------------------

/// Whether an event fires a plan of the registry.
pub open spec fn verdict(p: PendingPlan, ev: DjEvent, snap: QueueSnapshot) -> Fire {
    plan::fire_of(p.armed.resolved, p.armed.timer_id, ev.kind, snap)
}

/// The plans that an event leaves.
pub open spec fn left(s: Seq<PendingPlan>, ev: DjEvent, snap: QueueSnapshot) -> Seq<PendingPlan> {
    s.filter(|p: PendingPlan| verdict(p, ev, snap) == Fire::No)
}

/// The plans that an event shows to be out of reach.
pub open spec fn stale(s: Seq<PendingPlan>, ev: DjEvent, snap: QueueSnapshot) -> Seq<PlanId> {
    ids(s.filter(|p: PendingPlan| verdict(p, ev, snap) == Fire::Stale))
}

/// The plans that an event fires, in the order of the registry.
pub open spec fn firing(s: Seq<PendingPlan>, ev: DjEvent, snap: QueueSnapshot) -> Seq<
    PendingPlan,
> {
    s.filter(|p: PendingPlan| verdict(p, ev, snap) == Fire::Yes)
}

/// What a plan does, under its identity.
pub open spec fn deed(p: PendingPlan) -> (PlanId, Action) {
    (p.armed.id, p.armed.raw.action)
}

/// How many deeds at the front of a row come before this identity or belong to it.
pub open spec fn place_for(r: Seq<(PlanId, Action)>, id: PlanId) -> nat
    decreases r.len(),
{
    if r.len() == 0 || r.last().0.0 <= id.0 {
        r.len()
    } else {
        place_for(r.drop_last(), id)
    }
}

/// What plans do, in the order of their identities. Plans of one identity keep their
/// order.
pub open spec fn in_order(s: Seq<PendingPlan>) -> Seq<(PlanId, Action)>
    decreases s.len(),
{
    if s.len() == 0 {
        Seq::empty()
    } else {
        let r = in_order(s.drop_last());
        r.insert(place_for(r, s.last().armed.id) as int, deed(s.last()))
    }
}

fn insert_deed(r: &mut Vec<(PlanId, Action)>, id: PlanId, action: Action)
    ensures
        final(r)@ == old(r)@.insert(place_for(old(r)@, id) as int, (id, action)),
{
    let mut i: usize = r.len();
    assert(r@.take(i as int) =~= r@);
    while i > 0 && r[i - 1].0.0 > id.0
        invariant
            i <= r@.len(),
            place_for(r@, id) == place_for(r@.take(i as int), id),
        decreases i,
    {
        assert(r@.take(i as int).drop_last() =~= r@.take(i - 1));
        i -= 1;
    }
    assert(place_for(r@.take(i as int), id) == i);
    r.insert(i, (id, action));
}

/// Takes the plans that an event fires or shows to be out of reach out of the registry.
/// Gives what the former do, in the order of their identities, and names the latter.
pub fn select(pending: &mut Vec<PendingPlan>, ev: &DjEvent, snap: &QueueSnapshot) -> (r: (
    Vec<(PlanId, Action)>,
    Vec<PlanId>,
))
    ensures
        final(pending)@ == left(old(pending)@, *ev, *snap),
        r.0@ == in_order(firing(old(pending)@, *ev, *snap)),
        r.1@ == stale(old(pending)@, *ev, *snap),
{
    let mut fired: Vec<(PlanId, Action)> = Vec::new();
    let mut gone: Vec<PlanId> = Vec::new();
    let ghost all = pending@;
    let ghost no = |p: PendingPlan| verdict(p, *ev, *snap) == Fire::No;
    let ghost yes = |p: PendingPlan| verdict(p, *ev, *snap) == Fire::Yes;
    let ghost lost = |p: PendingPlan| verdict(p, *ev, *snap) == Fire::Stale;
    let ghost mut k: int = 0;
    let mut i: usize = 0;
    proof {
        filter_ends(all, no);
        filter_ends(all, yes);
        filter_ends(all, lost);
        assert(all.skip(0) =~= all);
        assert(Seq::<PendingPlan>::empty() + all =~= all);
        assert(ids(Seq::<PendingPlan>::empty()) =~= Seq::<PlanId>::empty());
    }
    while i < pending.len()
        invariant
            0 <= k <= all.len(),
            no == (|p: PendingPlan| verdict(p, *ev, *snap) == Fire::No),
            yes == (|p: PendingPlan| verdict(p, *ev, *snap) == Fire::Yes),
            lost == (|p: PendingPlan| verdict(p, *ev, *snap) == Fire::Stale),
            i == all.take(k).filter(no).len(),
            pending@ == all.take(k).filter(no) + all.skip(k),
            fired@ == in_order(all.take(k).filter(yes)),
            gone@ == ids(all.take(k).filter(lost)),
        decreases all.len() - k,
    {
        proof {
            filter_step(all, no, k);
            filter_step(all, yes, k);
            filter_step(all, lost, k);
            removed_from(all, all.take(k).filter(no), k);
            ids_push(all.take(k).filter(lost), all[k]);
            assert(all.take(k).filter(yes).push(all[k]).drop_last() =~= all.take(k).filter(yes));
        }
        match plan::fires(&pending[i].armed, ev, snap) {
            Fire::Yes => {
                let p = pending.remove(i);
                insert_deed(&mut fired, p.armed.id, p.armed.raw.action);
            },
            Fire::Stale => {
                let p = pending.remove(i);
                gone.push(p.armed.id);
            },
            Fire::No => {
                i += 1;
            },
        }
        proof {
            k = k + 1;
        }
    }
    proof {
        assert(k == all.len());
        assert(all.skip(k) =~= Seq::<PendingPlan>::empty());
        assert(pending@ =~= all.filter(no));
    }
    (fired, gone)
}

/// The first place of a plan of this identity.
pub open spec fn place_of(s: Seq<PendingPlan>, id: PlanId, i: int) -> Option<int>
    decreases s.len() - i,
{
    if i >= s.len() {
        None
    } else if s[i].armed.id == id {
        Some(i)
    } else {
        place_of(s, id, i + 1)
    }
}

impl Executor {
    /// An executor without a plan.
    pub fn new() -> (r: Executor)
        ensures
            r.pending@.len() == 0,
            r.last_version == 0,
    {
        Executor { pending: Vec::new(), last_version: 0 }
    }

    /// The plans behind the reconciliation that an event brings.
    pub open spec fn reconciled(self, ev: DjEvent, snap: QueueSnapshot) -> Seq<PendingPlan> {
        if ev.playlist_version != self.last_version {
            held(self.pending@, snap)
        } else {
            self.pending@
        }
    }

    /// What an event leads to.
    ///
    /// Where the queue has another version than before, the plans whose entries have
    /// left it are given up first. The timers are kept next, and then the plans are
    /// asked which of them fire.
    pub fn on_event(&mut self, ev: &DjEvent, snap: &QueueSnapshot) -> (r: EventWork)
        requires
            timely(*ev),
        ensures
            final(self).last_version == ev.playlist_version,
            ({
                let before = old(self).reconciled(*ev, *snap);
                let timed = all_timed(before, *ev, *snap);
                let lost = if ev.playlist_version != old(self).last_version {
                    orphans(old(self).pending@, *snap)
                } else {
                    Seq::empty()
                };
                &&& final(self).pending@ == left(timed, *ev, *snap)
                &&& r.timers@ == timer_todos(before, *ev, *snap)
                &&& r.fired@ == in_order(firing(timed, *ev, *snap))
                &&& r.expired@ == lost + stale(timed, *ev, *snap)
            }),
    {
        let mut expired: Vec<PlanId> = Vec::new();
        if ev.playlist_version != self.last_version {
            expired = reconcile(&mut self.pending, snap);
            self.last_version = ev.playlist_version;
        }
        let timers = maintain_remaining(&mut self.pending, ev, snap);
        let (fired, mut gone) = select(&mut self.pending, ev, snap);
        expired.append(&mut gone);
        EventWork { expired, timers, fired }
    }

    /// What a position leads to: the timers are kept, and nothing fires.
    pub fn on_tick(&mut self, ev: &DjEvent, snap: &QueueSnapshot) -> (r: Vec<TimerTodo>)
        requires
            timely(*ev),
        ensures
            final(self).last_version == old(self).last_version,
            final(self).pending@ == all_timed(old(self).pending@, *ev, *snap),
            r@ == timer_todos(old(self).pending@, *ev, *snap),
    {
        maintain_remaining(&mut self.pending, ev, snap)
    }

    /// Takes note of the timer that was set for a plan, unless it is gone.
    pub fn timer_armed(&mut self, id: PlanId, timer: TimerId)
        ensures
            final(self).last_version == old(self).last_version,
            match place_of(old(self).pending@, id, 0) {
                Some(k) => {
                    let p = old(self).pending@[k];
                    final(self).pending@ == old(self).pending@.update(
                        k,
                        (PendingPlan {
                            armed: ArmedPlan { timer_id: Some(timer), ..p.armed },
                            ..p
                        }),
                    )
                },
                None => final(self).pending@ == old(self).pending@,
            },
    {
        if let Some(i) = self.find(id) {
            self.pending[i].armed.timer_id = Some(timer);
        }
    }

    fn find(&self, id: PlanId) -> (r: Option<usize>)
        ensures
            match r {
                Some(i) => i < self.pending@.len() && place_of(self.pending@, id, 0) == Some(
                    i as int,
                ),
                None => place_of(self.pending@, id, 0) is None,
            },
    {
        let mut i: usize = 0;
        while i < self.pending.len()
            invariant
                i <= self.pending@.len(),
                place_of(self.pending@, id, 0) == place_of(self.pending@, id, i as int),
            decreases self.pending@.len() - i,
        {
            if self.pending[i].armed.id == id {
                return Some(i);
            }
            i += 1;
        }
        None
    }

    /// Takes a plan that is done at once out of the registry, and gives what it does.
    pub fn on_immediate(&mut self, id: PlanId) -> (r: Option<(PlanId, Action)>)
        ensures
            final(self).last_version == old(self).last_version,
            match place_of(old(self).pending@, id, 0) {
                Some(k) => final(self).pending@ == old(self).pending@.remove(k) && r == Some(
                    deed(old(self).pending@[k]),
                ),
                None => final(self).pending@ == old(self).pending@ && r is None,
            },
    {
        match self.find(id) {
            Some(i) => {
                let p = self.pending.remove(i);
                proof {
                    place_is_the_plan(old(self).pending@, id, 0);
                }
                Some((id, p.armed.raw.action))
            },
            None => None,
        }
    }
}

proof fn place_is_the_plan(s: Seq<PendingPlan>, id: PlanId, i: int)
    requires
        0 <= i,
    ensures
        place_of(s, id, i) matches Some(k) ==> i <= k < s.len() && s[k].armed.id == id,
    decreases s.len() - i,
{
    if i < s.len() && s[i].armed.id != id {
        place_is_the_plan(s, id, i + 1);
    }
}

// ---------------------------------------------------------------------------
// Effects
// ---------------------------------------------------------------------------

/// What a fade is to reach.
#[derive(Clone, Copy, Debug, PartialEq, Eq)]
pub enum FadeIntent {
    /// Silence.
    Out,
    /// The volume before.
    In,
    /// A volume.
    To {
        /// Its level.
        target_db: Real,
        /// The setting.
        vol: u8,
    },
    /// The quiet floor.
    ToFloor,
    /// A volume, from silence.
    WakeTo {
        /// Its level.
        target_db: Real,
        /// The setting.
        vol: u8,
    },
}

/// A fade to start.
#[derive(Clone, Copy, Debug, PartialEq, Eq)]
pub struct FadeRequest {
    /// What it is to reach.
    pub intent: FadeIntent,
    /// How long it takes.
    pub dur: Span,
}

/// How long a fade takes: a quarter of a second where the number makes no span.
pub open spec fn fade_span(secs: Real) -> Span {
    match number::span_of(secs) {
        Some(s) => s,
        None => Span { nanos: 250_000_000 },
    }
}

fn fade_dur(secs: Real) -> (r: Span)
    ensures
        r == fade_span(secs),
{
    match Span::from_real(secs) {
        Some(s) => s,
        None => Span::from_millis(250),
    }
}

/// The fade that a plan asks for.
pub open spec fn request_of(ir: FadeIntentIr) -> FadeRequest {
    match ir {
        FadeIntentIr::Out { secs } => FadeRequest {
            intent: FadeIntent::Out,
            dur: fade_span(secs),
        },
        FadeIntentIr::In { secs } => FadeRequest { intent: FadeIntent::In, dur: fade_span(secs) },
        FadeIntentIr::To { target_db, vol, secs } => FadeRequest {
            intent: FadeIntent::To { target_db, vol },
            dur: fade_span(secs),
        },
        FadeIntentIr::ToFloor { secs } => FadeRequest {
            intent: FadeIntent::ToFloor,
            dur: fade_span(secs),
        },
        FadeIntentIr::WakeTo { target_db, vol, secs } => FadeRequest {
            intent: FadeIntent::WakeTo { target_db, vol },
            dur: fade_span(secs),
        },
    }
}

/// The fade that a plan asks for.
pub fn map_fade(ir: &FadeIntentIr) -> (r: FadeRequest)
    ensures
        r == request_of(*ir),
{
    match *ir {
        FadeIntentIr::Out { secs } => FadeRequest { intent: FadeIntent::Out, dur: fade_dur(secs) },
        FadeIntentIr::In { secs } => FadeRequest { intent: FadeIntent::In, dur: fade_dur(secs) },
        FadeIntentIr::To { target_db, vol, secs } => FadeRequest {
            intent: FadeIntent::To { target_db, vol },
            dur: fade_dur(secs),
        },
        FadeIntentIr::ToFloor { secs } => FadeRequest {
            intent: FadeIntent::ToFloor,
            dur: fade_dur(secs),
        },
        FadeIntentIr::WakeTo { target_db, vol, secs } => FadeRequest {
            intent: FadeIntent::WakeTo { target_db, vol },
            dur: fade_dur(secs),
        },
    }
}

/// What an action asks of the rest of the server.
#[derive(Debug)]
pub enum Effect {
    /// Start a fade.
    Fade(FadeRequest),
    /// Do what this request asks.
    Request(MpdCommand),
    /// Add tracks at the end of the queue.
    Enqueue(Selector, u32),
    /// Add tracks, and play from silence.
    Wake(Option<Selector>, u32),
    /// Change the queue, or what plays of it.
    Edit(Action),
    /// Nothing.
    Nothing,
}

/// What an action asks of the rest of the server.
pub open spec fn effect_of(a: Action) -> Effect {
    match a {
        Action::Fade(ir) => Effect::Fade(request_of(ir)),
        Action::Stop => Effect::Request(MpdCommand::Stop),
        Action::Pause => Effect::Request(MpdCommand::Pause(Some(true))),
        Action::SetVolume(v) => Effect::Request(MpdCommand::SetVol(v)),
        Action::Enqueue { selector, count } => Effect::Enqueue(selector, count),
        Action::Wake { selector, count } => Effect::Wake(selector, count),
        Action::Noop => Effect::Nothing,
        _ => Effect::Edit(a),
    }
}

/// What an action asks of the rest of the server.
pub fn run_action(action: Action) -> (r: Effect)
    ensures
        r == effect_of(action),
{
    match action {
        Action::Fade(ir) => Effect::Fade(map_fade(&ir)),
        Action::Stop => Effect::Request(MpdCommand::Stop),
        Action::Pause => Effect::Request(MpdCommand::Pause(Some(true))),
        Action::SetVolume(v) => Effect::Request(MpdCommand::SetVol(v)),
        Action::Enqueue { selector, count } => Effect::Enqueue(selector, count),
        Action::Wake { selector, count } => Effect::Wake(selector, count),
        Action::Noop => Effect::Nothing,
        other => Effect::Edit(other),
    }
}

// ---------------------------------------------------------------------------
// Laws
// ---------------------------------------------------------------------------

proof fn filter_holds<A>(s: Seq<A>, keep: spec_fn(A) -> bool)
    ensures
        forall|i: int| 0 <= i < s.filter(keep).len() ==> keep(#[trigger] s.filter(keep)[i]),
        forall|i: int|
            0 <= i < s.filter(keep).len() ==> s.contains(#[trigger] s.filter(keep)[i]),
        forall|x: A| s.contains(x) && keep(x) ==> #[trigger] s.filter(keep).contains(x),
    decreases s.len(),
{
    reveal(Seq::filter);
    if s.len() > 0 {
        let init = s.drop_last();
        let before = init.filter(keep);
        filter_holds(init, keep);
        assert forall|i: int| 0 <= i < s.filter(keep).len() implies s.contains(
            #[trigger] s.filter(keep)[i],
        ) by {
            if i < before.len() {
                assert(init.contains(before[i]));
                let j = choose|j: int| 0 <= j < init.len() && init[j] == before[i];
                assert(s[j] == before[i]);
            } else {
                assert(s[s.len() - 1] == s.last());
            }
        }
        assert forall|x: A| s.contains(x) && keep(x) implies #[trigger] s.filter(keep).contains(
            x,
        ) by {
            let j = choose|j: int| 0 <= j < s.len() && s[j] == x;
            if j < init.len() {
                assert(init[j] == x);
                assert(init.contains(x));
                assert(before.contains(x));
                let m = choose|m: int| 0 <= m < before.len() && before[m] == x;
                assert(s.filter(keep)[m] == x);
            } else {
                assert(s.filter(keep)[before.len() as int] == x);
            }
        }
    }
}

/// What fires leaves the registry, and so does what never will: an event that comes
/// again fires nothing.
pub proof fn a_plan_fires_once(s: Seq<PendingPlan>, ev: DjEvent, snap: QueueSnapshot)
    ensures
        firing(left(s, ev, snap), ev, snap).len() == 0,
        stale(left(s, ev, snap), ev, snap).len() == 0,
{
    let no = |p: PendingPlan| verdict(p, ev, snap) == Fire::No;
    let yes = |p: PendingPlan| verdict(p, ev, snap) == Fire::Yes;
    let lost = |p: PendingPlan| verdict(p, ev, snap) == Fire::Stale;
    let l = left(s, ev, snap);
    filter_holds(s, no);
    filter_holds(l, yes);
    filter_holds(l, lost);
    if firing(l, ev, snap).len() > 0 {
        let x = firing(l, ev, snap)[0];
        assert(l.contains(l.filter(yes)[0]));
        let j = choose|j: int| 0 <= j < l.len() && l[j] == x;
        assert(no(s.filter(no)[j]));
    }
    if l.filter(lost).len() > 0 {
        let x = l.filter(lost)[0];
        assert(l.contains(x));
        let j = choose|j: int| 0 <= j < l.len() && l[j] == x;
        assert(no(s.filter(no)[j]));
    }
}

/// No plan is lost: one that an event neither fires nor shows to be out of reach stays.
pub proof fn other_plans_stay(s: Seq<PendingPlan>, ev: DjEvent, snap: QueueSnapshot, p: PendingPlan)
    requires
        s.contains(p),
        verdict(p, ev, snap) == Fire::No,
    ensures
        left(s, ev, snap).contains(p),
{
    filter_holds(s, |p: PendingPlan| verdict(p, ev, snap) == Fire::No);
}

/// The identities in a row of deeds do not fall.
pub open spec fn ascending(r: Seq<(PlanId, Action)>) -> bool {
    forall|i: int, j: int| 0 <= i <= j < r.len() ==> (#[trigger] r[i]).0.0 <= (#[trigger] r[j]).0.0
}

proof fn place_parts(r: Seq<(PlanId, Action)>, id: PlanId)
    requires
        ascending(r),
    ensures
        place_for(r, id) <= r.len(),
        forall|i: int| 0 <= i < place_for(r, id) ==> (#[trigger] r[i]).0.0 <= id.0,
        forall|i: int| place_for(r, id) <= i < r.len() ==> (#[trigger] r[i]).0.0 > id.0,
    decreases r.len(),
{
    if r.len() > 0 {
        if r.last().0.0 <= id.0 {
            assert forall|i: int| 0 <= i < r.len() implies (#[trigger] r[i]).0.0 <= id.0 by {
                assert(r[i].0.0 <= r[r.len() - 1].0.0);
            }
        } else {
            let init = r.drop_last();
            assert(ascending(init)) by {
                assert forall|i: int, j: int| 0 <= i <= j < init.len() implies (#[trigger] init[i]).0.0
                    <= (#[trigger] init[j]).0.0 by {
                    assert(r[i].0.0 <= r[j].0.0);
                }
            }
            place_parts(init, id);
            assert forall|i: int| place_for(r, id) <= i < r.len() implies (#[trigger] r[i]).0.0
                > id.0 by {
                if i < init.len() {
                    assert(init[i] == r[i]);
                }
            }
            assert forall|i: int| 0 <= i < place_for(r, id) implies (#[trigger] r[i]).0.0
                <= id.0 by {
                assert(init[i] == r[i]);
            }
        }
    }
}

/// What fires at once is done in the order of the plans' identities, and everything that
/// fires is done, once.
pub proof fn deeds_are_in_order(s: Seq<PendingPlan>)
    ensures
        ascending(in_order(s)),
        in_order(s).to_multiset() == Seq::new(s.len(), |i: int| deed(s[i])).to_multiset(),
    decreases s.len(),
{
    broadcast use vstd::seq_lib::group_to_multiset_ensures;

    let deeds = Seq::new(s.len(), |i: int| deed(s[i]));
    if s.len() == 0 {
        assert(deeds =~= Seq::<(PlanId, Action)>::empty());
    } else {
        let init = s.drop_last();
        let r = in_order(init);
        let id = s.last().armed.id;
        let d = deed(s.last());
        let k = place_for(r, id) as int;
        deeds_are_in_order(init);
        place_parts(r, id);
        let all = in_order(s);
        assert forall|i: int, j: int| 0 <= i <= j < all.len() implies (#[trigger] all[i]).0.0 <= (
        #[trigger] all[j]).0.0 by {
            let a = if i < k {
                i
            } else {
                i - 1
            };
            let b = if j < k {
                j
            } else {
                j - 1
            };
            if i != k {
                assert(all[i] == r[a]);
            }
            if j != k {
                assert(all[j] == r[b]);
            }
        }
        let before = Seq::new(init.len(), |i: int| deed(init[i]));
        assert(deeds =~= before.push(d));
        assert(all == r.insert(k, d));
        r.to_multiset_ensures();
        before.to_multiset_ensures();
        assert(r.insert(k, d).to_multiset() =~= r.to_multiset().insert(d));
        assert(before.push(d).to_multiset() =~= before.to_multiset().insert(d));
    }
}

/// A plan that waits for what is left of a track is not timed while another track plays
/// or the player pauses, so that no deadline runs out on the wrong track.
pub proof fn other_tracks_are_not_timed(p: PendingPlan, ev: DjEvent, snap: QueueSnapshot)
    requires
        p.armed.resolved matches Resolved::OnTrackRemaining { track, lead } && (current_of(snap)
            != Some(track) || is_pause(ev.kind)),
    ensures
        timed(p, ev, snap).0.armed.timer_id is None,
        timed(p, ev, snap).0.remaining_deadline is None,
        p.armed.timer_id is Some ==> timed(p, ev, snap).1 == Some(TimerTodo::Disarm(p.armed.id)),
        p.armed.timer_id is None ==> timed(p, ev, snap).1 is None,
{
}

/// Keeping timers changes neither what a plan waits for nor what it does.
pub proof fn timing_leaves_the_plan(p: PendingPlan, ev: DjEvent, snap: QueueSnapshot)
    ensures
        deed(timed(p, ev, snap).0) == deed(p),
        timed(p, ev, snap).0.armed.resolved == p.armed.resolved,
{
}

/// An event is answered by every plan. One that it fires is done, under its own identity,
/// and leaves the registry; one that it shows to be out of reach is named as given up, and
/// leaves it too; any other stays as it is.
pub proof fn every_plan_answers_an_event(
    s: Seq<PendingPlan>,
    ev: DjEvent,
    snap: QueueSnapshot,
    p: PendingPlan,
)
    requires
        s.contains(p),
    ensures
        match plan::fire_of(p.armed.resolved, p.armed.timer_id, ev.kind, snap) {
            Fire::Yes => in_order(firing(s, ev, snap)).contains(
                (p.armed.id, p.armed.raw.action),
            ) && !left(s, ev, snap).contains(p),
            Fire::Stale => stale(s, ev, snap).contains(p.armed.id) && !left(s, ev, snap).contains(
                p,
            ),
            Fire::No => left(s, ev, snap).contains(p),
        },
{
    let no = |p: PendingPlan| verdict(p, ev, snap) == Fire::No;
    let yes = |p: PendingPlan| verdict(p, ev, snap) == Fire::Yes;
    let lost = |p: PendingPlan| verdict(p, ev, snap) == Fire::Stale;
    filter_holds(s, no);
    filter_holds(s, yes);
    filter_holds(s, lost);
    let l = left(s, ev, snap);
    if l.contains(p) {
        let j = choose|j: int| 0 <= j < l.len() && l[j] == p;
        assert(no(s.filter(no)[j]));
    }
    match plan::fire_of(p.armed.resolved, p.armed.timer_id, ev.kind, snap) {
        Fire::Yes => {
            let f = firing(s, ev, snap);
            assert(s.filter(yes).contains(p));
            let j = choose|j: int| 0 <= j < f.len() && f[j] == p;
            deeds_are_in_order(f);
            let deeds = Seq::new(f.len(), |i: int| deed(f[i]));
            let d = (p.armed.id, p.armed.raw.action);
            assert(deeds[j] == d);
            deeds.to_multiset_ensures();
            in_order(f).to_multiset_ensures();
            assert(deeds.contains(d));
            assert(deeds.to_multiset().count(d) > 0);
        },
        Fire::Stale => {
            let f = s.filter(lost);
            assert(f.contains(p));
            let j = choose|j: int| 0 <= j < f.len() && f[j] == p;
            assert(ids(f)[j] == p.armed.id);
        },
        Fire::No => {
            assert(s.filter(no).contains(p));
        },
    }
}

/// Nothing is done that no plan of the registry asked for on this event, and nothing is
/// given up that is not out of reach.
pub proof fn only_plans_are_done(s: Seq<PendingPlan>, ev: DjEvent, snap: QueueSnapshot, i: int)
    ensures
        0 <= i < in_order(firing(s, ev, snap)).len() ==> exists|p: PendingPlan|
            #![trigger s.contains(p)]
            s.contains(p) && plan::fire_of(p.armed.resolved, p.armed.timer_id, ev.kind, snap)
                == Fire::Yes && in_order(firing(s, ev, snap))[i] == (
                p.armed.id,
                p.armed.raw.action,
            ),
        0 <= i < stale(s, ev, snap).len() ==> exists|p: PendingPlan|
            #![trigger s.contains(p)]
            s.contains(p) && plan::fire_of(p.armed.resolved, p.armed.timer_id, ev.kind, snap)
                == Fire::Stale && stale(s, ev, snap)[i] == p.armed.id,
{
    let yes = |p: PendingPlan| verdict(p, ev, snap) == Fire::Yes;
    let lost = |p: PendingPlan| verdict(p, ev, snap) == Fire::Stale;
    filter_holds(s, yes);
    filter_holds(s, lost);
    if 0 <= i < in_order(firing(s, ev, snap)).len() {
        let f = firing(s, ev, snap);
        deeds_are_in_order(f);
        let deeds = Seq::new(f.len(), |i: int| deed(f[i]));
        let d = in_order(f)[i];
        deeds.to_multiset_ensures();
        in_order(f).to_multiset_ensures();
        assert(in_order(f).contains(d));
        assert(in_order(f).to_multiset().count(d) > 0);
        assert(deeds.contains(d));
        let j = choose|j: int| 0 <= j < deeds.len() && deeds[j] == d;
        assert(deed(f[j]) == d);
        assert(s.contains(s.filter(yes)[j]));
    }
    if 0 <= i < stale(s, ev, snap).len() {
        assert(s.contains(s.filter(lost)[i]));
    }
}

/// Where the queue has changed, a plan stays just where it is about no entry or about one
/// that is still in the queue; any other is named as given up.
pub proof fn a_deleted_track_takes_its_plans_along(
    s: Seq<PendingPlan>,
    snap: QueueSnapshot,
    p: PendingPlan,
)
    requires
        s.contains(p),
    ensures
        ({
            let stays = match p.armed.resolved {
                Resolved::OnTrackStart(q) => exists|i: int|
                    0 <= i < snap.entries@.len() && (#[trigger] snap.entries@[i]).queue_id == q,
                Resolved::OnAlbumBoundary { last, album } => exists|i: int|
                    0 <= i < snap.entries@.len() && (#[trigger] snap.entries@[i]).queue_id == last,
                Resolved::OnTrackRemaining { track, lead } => exists|i: int|
                    0 <= i < snap.entries@.len() && (#[trigger] snap.entries@[i]).queue_id == track,
                Resolved::Immediate => true,
                Resolved::OnDeadline(_) => true,
            };
            &&& stays ==> held(s, snap).contains(p)
            &&& !stays ==> !held(s, snap).contains(p) && orphans(s, snap).contains(p.armed.id)
        }),
{
    let keep = |p: PendingPlan| is_held(p, snap);
    let lose = |p: PendingPlan| !is_held(p, snap);
    filter_holds(s, keep);
    filter_holds(s, lose);
    if let Some(q) = target_of(p.armed.resolved) {
        crate::event::place_is_identity(snap, q);
        if snap.place(q) is Some {
            let k = snap.place(q)->0;
            assert(snap.entries@[k].queue_id == q);
        }
    }
    let h = held(s, snap);
    if h.contains(p) {
        let j = choose|j: int| 0 <= j < h.len() && h[j] == p;
        assert(keep(s.filter(keep)[j]));
    }
    if is_held(p, snap) {
        assert(s.filter(keep).contains(p));
    } else {
        let f = s.filter(lose);
        assert(f.contains(p));
        let j = choose|j: int| 0 <= j < f.len() && f[j] == p;
        assert(ids(f)[j] == p.armed.id);
    }
}

/// While its track plays, a plan for what is left of it is timed to the point at which no
/// more than its lead is left, or to now where less is left already. It is timed when the
/// first position is told, and timed anew only where that point jumps by more than a
/// second, as it does on a seek. No other plan is timed.
pub proof fn a_remaining_plan_is_timed_to_its_lead(
    p: PendingPlan,
    ev: DjEvent,
    snap: QueueSnapshot,
    pos: Span,
    rem: Span,
)
    requires
        timely(ev),
        ev.kind == (DjEventKind::Tick { time_pos: pos, time_remaining: Some(rem) }),
    ensures
        match p.armed.resolved {
            Resolved::OnTrackRemaining { track, lead } => {
                let at = if rem.nanos > lead.nanos {
                    ev.now.nanos + rem.nanos - lead.nanos
                } else {
                    ev.now.nanos as int
                };
                (snap.current matches Some(c) && c.queue_id == track) ==> {
                    let moved = match p.remaining_deadline {
                        Some(d) => d.nanos - at > 1_000_000_000 || at - d.nanos > 1_000_000_000,
                        None => true,
                    };
                    let (after, todo) = timed(p, ev, snap);
                    &&& moved ==> after.armed.timer_id is None && (
                    after.remaining_deadline matches Some(d) && d.nanos == at && todo == Some(
                        TimerTodo::Arm(p.armed.id, d),
                    ))
                    &&& !moved ==> after == p && todo is None
                }
            },
            _ => timed(p, ev, snap) == (p, None::<TimerTodo>),
        },
{
}

/// Events that tell no position leave the timer of a plan whose track plays alone, unless
/// the player pauses.
pub proof fn other_events_leave_the_timer(p: PendingPlan, ev: DjEvent, snap: QueueSnapshot)
    requires
        !(ev.kind is Tick),
        !(ev.kind matches DjEventKind::StateChanged(s, t) && s == PlayState::Paused),
        p.armed.resolved matches Resolved::OnTrackRemaining { track, lead } ==> (
        snap.current matches Some(c) && c.queue_id == track),
    ensures
        timed(p, ev, snap) == (p, None::<TimerTodo>),
{
}

/// A plan is looked for by its identity: the first that has it is found, and none is found
/// only where none has it.
pub proof fn a_plan_is_found_by_its_identity(s: Seq<PendingPlan>, id: PlanId)
    ensures
        match place_of(s, id, 0) {
            Some(k) => 0 <= k < s.len() && s[k].armed.id == id && forall|j: int|
                0 <= j < k ==> (#[trigger] s[j]).armed.id != id,
            None => forall|j: int| 0 <= j < s.len() ==> (#[trigger] s[j]).armed.id != id,
        },
{
    found_from(s, id, 0);
}

proof fn found_from(s: Seq<PendingPlan>, id: PlanId, i: int)
    requires
        0 <= i,
    ensures
        match place_of(s, id, i) {
            Some(k) => i <= k < s.len() && s[k].armed.id == id && forall|j: int|
                i <= j < k ==> (#[trigger] s[j]).armed.id != id,
            None => forall|j: int| i <= j < s.len() ==> (#[trigger] s[j]).armed.id != id,
        },
    decreases s.len() - i,
{
    if i < s.len() && s[i].armed.id != id {
        found_from(s, id, i + 1);
    }
}

/// A fade takes the seconds that were asked for, to the nanosecond, and reaches what was
/// asked for; seconds that make no span make a quarter of a second.
pub proof fn a_fade_takes_its_seconds(ir: FadeIntentIr)
    ensures
        ({
            let r = request_of(ir);
            let secs = match ir {
                FadeIntentIr::Out { secs } => secs,
                FadeIntentIr::In { secs } => secs,
                FadeIntentIr::To { target_db, vol, secs } => secs,
                FadeIntentIr::ToFloor { secs } => secs,
                FadeIntentIr::WakeTo { target_db, vol, secs } => secs,
            };
            &&& r.dur.nanos == match secs {
                Real::Finite(x) => if 0 <= x && x <= number::MAX_SPAN_NANOS {
                    x as int
                } else {
                    250_000_000
                },
                _ => 250_000_000,
            }
            &&& match (ir, r.intent) {
                (FadeIntentIr::Out { .. }, FadeIntent::Out) => true,
                (FadeIntentIr::In { .. }, FadeIntent::In) => true,
                (FadeIntentIr::ToFloor { .. }, FadeIntent::ToFloor) => true,
                (
                    FadeIntentIr::To { target_db, vol, secs },
                    FadeIntent::To { target_db: db, vol: v },
                ) => target_db == db && vol == v,
                (
                    FadeIntentIr::WakeTo { target_db, vol, secs },
                    FadeIntent::WakeTo { target_db: db, vol: v },
                ) => target_db == db && vol == v,
                _ => false,
            }
        }),
{
}

/// A plan to stop stops, one to pause pauses and never resumes, one for a volume sets that
/// volume; tracks are added as many and as chosen as was asked; and what edits the queue is
/// handed on whole.
pub proof fn an_action_asks_for_what_it_says(a: Action)
    ensures
        match (a, effect_of(a)) {
            (Action::Fade(ir), Effect::Fade(r)) => r == request_of(ir),
            (Action::Stop, Effect::Request(c)) => c == MpdCommand::Stop,
            (Action::Pause, Effect::Request(c)) => c == MpdCommand::Pause(Some(true)),
            (Action::SetVolume(v), Effect::Request(c)) => c == MpdCommand::SetVol(v),
            (Action::Enqueue { selector, count }, Effect::Enqueue(s, n)) => selector == s && count
                == n,
            (Action::Wake { selector, count }, Effect::Wake(s, n)) => selector == s && count == n,
            (Action::Noop, Effect::Nothing) => true,
            (x, Effect::Edit(y)) => x == y && (x is PlayNow || x is Remove || x is Move
                || x is Clear
                || x is Play),
            _ => false,
        },
{
}

/// A plan is not kept past a change of the queue that took its track away; while the queue
/// stays as it was, nothing is given up on that account.
pub proof fn a_change_of_the_queue_is_heeded(
    e: Executor,
    ev: DjEvent,
    snap: QueueSnapshot,
    p: PendingPlan,
    q: QueueId,
)
    requires
        e.pending@.contains(p),
        p.armed.resolved == Resolved::OnTrackStart(q),
        forall|i: int| 0 <= i < snap.entries@.len() ==> (#[trigger] snap.entries@[i]).queue_id != q,
    ensures
        ev.playlist_version != e.last_version ==> !e.reconciled(ev, snap).contains(p),
        ev.playlist_version == e.last_version ==> e.reconciled(ev, snap) == e.pending@,
{
    a_deleted_track_takes_its_plans_along(e.pending@, snap, p);
}

/// The timers are kept plan by plan, in their order: each plan is asked about its own, and
/// none is lost or doubled.
pub proof fn timers_are_kept_plan_by_plan(
    s: Seq<PendingPlan>,
    p: PendingPlan,
    ev: DjEvent,
    snap: QueueSnapshot,
)
    ensures
        all_timed(s.push(p), ev, snap) == all_timed(s, ev, snap).push(timed(p, ev, snap).0),
        timed(p, ev, snap).1 matches Some(t) ==> timer_todos(s.push(p), ev, snap) == timer_todos(
            s,
            ev,
            snap,
        ).push(t),
        timed(p, ev, snap).1 is None ==> timer_todos(s.push(p), ev, snap) == timer_todos(s, ev,
            snap),
        timer_todos(Seq::empty(), ev, snap).len() == 0,
{
    assert(s.push(p).drop_last() =~= s);
    assert(s.push(p).last() == p);
    assert(all_timed(s.push(p), ev, snap) =~= all_timed(s, ev, snap).push(timed(p, ev, snap).0));
}

/// How far two points of time lie apart does not depend on which comes first.
pub proof fn a_distance_has_no_direction(a: Moment, b: Moment)
    ensures
        distance(a, b) == distance(b, a),
        distance(a, b) == a.nanos - b.nanos || distance(a, b) == b.nanos - a.nanos,
        distance(a, b) >= 0,
{
}

} // verus!
