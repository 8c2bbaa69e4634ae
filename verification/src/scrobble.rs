//! When a play counts: the scrobbler's decisions.
//!
//! A new song is told as playing now. Once enough of it was heard it is submitted as
//! played, with the time at which it began, and no more than once per play.

use vstd::prelude::*;

use crate::model::SongId;
use crate::number::Real;
use crate::player::{PlayState, PlayerEvent};

verus! {

/// The track that is being heard.
#[derive(Debug)]
pub struct ScrobbleState {
    /// Its song.
    pub current: Option<SongId>,
    /// When it began, in milliseconds from the epoch.
    pub start_epoch_ms: i64,
    /// Its length in seconds, where it is known.
    pub duration_secs: Option<u32>,
    /// The furthest position that was reached, in seconds.
    pub accumulated_secs: Real,
    /// Whether it has been submitted.
    pub submitted: bool,
}

impl Default for ScrobbleState {
    fn default() -> (r: Self)
        ensures
            r == (ScrobbleState {
                current: None,
                start_epoch_ms: 0,
                duration_secs: None,
                accumulated_secs: Real::Finite(0),
                submitted: false,
            }),
    {
        ScrobbleState {
            current: None,
            start_epoch_ms: 0,
            duration_secs: None,
            accumulated_secs: Real::Finite(0),
            submitted: false,
        }
    }
}

/// What the server is to be told.
#[derive(Debug, PartialEq, Eq)]
pub enum ScrobbleTodo {
    /// This song plays now.
    NowPlaying(SongId),
    /// This song was played, from this time on.
    Submit(SongId, i64),
}

/// The song in the slot is this one.
pub open spec fn holds(slot: Option<SongId>, id: SongId) -> bool {
    slot matches Some(s) && s.0@ == id.0@
}

fn is_song(slot: &Option<SongId>, id: &SongId) -> (r: bool)
    ensures
        r == holds(*slot, *id),
{
    match slot {
        Some(s) => s.0 == id.0,
        None => false,
    }
}

/// A number is at least `n` billionths.
pub open spec fn at_least(r: Real, n: int) -> bool {
    match r {
        Real::Finite(x) => x >= n,
        Real::PosInf => true,
        _ => false,
    }
}

/// One number is greater than another.
pub open spec fn greater(a: Real, b: Real) -> bool {
    match (a, b) {
        (Real::Finite(x), Real::Finite(y)) => x > y,
        (Real::Finite(_), Real::NegInf) => true,
        (Real::PosInf, Real::Finite(_)) => true,
        (Real::PosInf, Real::NegInf) => true,
        _ => false,
    }
}

fn is_greater(a: Real, b: Real) -> (r: bool)
    ensures
        r == greater(a, b),
{
    match (a, b) {
        (Real::Finite(x), Real::Finite(y)) => x > y,
        (Real::Finite(_), Real::NegInf) => true,
        (Real::PosInf, Real::Finite(_)) => true,
        (Real::PosInf, Real::NegInf) => true,
        _ => false,
    }
}

fn is_at_least(a: Real, n: i128) -> (r: bool)
    ensures
        r == at_least(a, n as int),
{
    match a {
        Real::Finite(x) => x >= n,
        Real::PosInf => true,
        _ => false,
    }
}

/// How far a track must have been heard to count, in billionths of a second: half of it
/// or four minutes, but no less than half a minute. Where its length is not known, half
/// a minute is enough.
pub open spec fn needed(duration_secs: Option<u32>) -> int {
    let part = match duration_secs {
        Some(d) => if d == 0 {
            0
        } else if d >= 480 {
            240_000_000_000
        } else {
            d * 500_000_000
        },
        None => 0,
    };
    if part > 30_000_000_000 {
        part
    } else {
        30_000_000_000
    }
}

/// Enough of a track was heard to count. What is no number lies below no bound, so it
/// counts where half a minute is all that is asked for.
pub open spec fn met(accumulated_secs: Real, duration_secs: Option<u32>) -> bool {
    match accumulated_secs {
        Real::Nan => duration_secs is None || duration_secs == Some(0u32),
        _ => at_least(accumulated_secs, needed(duration_secs)),
    }
}

/// Whether enough of a track was heard to count.
pub fn threshold_met(accumulated_secs: Real, duration_secs: Option<u32>) -> (r: bool)
    ensures
        r == met(accumulated_secs, duration_secs),
{
    let known = match accumulated_secs {
        Real::Nan => false,
        _ => true,
    };
    if known && !is_at_least(accumulated_secs, 30_000_000_000) {
        return false;
    }
    match duration_secs {
        Some(d) => if d > 0 {
            let half: i128 = (d as i128) * 500_000_000;
            let part: i128 = if half < 240_000_000_000 {
                half
            } else {
                240_000_000_000
            };
            is_at_least(accumulated_secs, part)
        } else {
            true
        },
        None => true,
    }
}

/// The state after a position was reached, and whether the play is submitted there.
pub open spec fn heard(st: ScrobbleState, t: Real) -> (ScrobbleState, bool) {
    if st.current is None {
        (st, false)
    } else {
        let acc = if greater(t, st.accumulated_secs) {
            t
        } else {
            st.accumulated_secs
        };
        let now = !st.submitted && met(acc, st.duration_secs);
        (
            ScrobbleState { accumulated_secs: acc, submitted: st.submitted || now, ..st },
            now,
        )
    }
}

/// Takes note of a position, and tells whether the play is to be submitted: its song and
/// the time at which it began.
pub fn decide_timepos(st: &mut ScrobbleState, t: Real) -> (r: Option<(SongId, i64)>)
    ensures
        *final(st) == heard(*old(st), t).0,
        match r {
            Some((id, start)) => heard(*old(st), t).1 && Some(id) == old(st).current && start
                == old(st).start_epoch_ms,
            None => !heard(*old(st), t).1,
        },
{
    if st.current.is_none() {
        return None;
    }
    if is_greater(t, st.accumulated_secs) {
        st.accumulated_secs = t;
    }
    if !st.submitted && threshold_met(st.accumulated_secs, st.duration_secs) {
        st.submitted = true;
        match &st.current {
            Some(id) => Some((id.clone(), st.start_epoch_ms)),
            None => None,
        }
    } else {
        None
    }
}

/// The state after a track ended, and whether the play is submitted there.
pub open spec fn ended(st: ScrobbleState, id: SongId) -> (ScrobbleState, bool) {
    if holds(st.current, id) {
        (
            ScrobbleState {
                current: None,
                accumulated_secs: Real::Finite(0),
                submitted: false,
                duration_secs: None,
                ..st
            },
            !st.submitted && met(st.accumulated_secs, st.duration_secs),
        )
    } else {
        (st, false)
    }
}

/// Takes note of the end of a track, and tells whether the play is still to be
/// submitted.
pub fn decide_eof(st: &mut ScrobbleState, id: &SongId) -> (r: Option<(SongId, i64)>)
    ensures
        *final(st) == ended(*old(st), *id).0,
        match r {
            Some((song, start)) => ended(*old(st), *id).1 && song == *id && start
                == old(st).start_epoch_ms,
            None => !ended(*old(st), *id).1,
        },
{
    if !is_song(&st.current, id) {
        return None;
    }
    let out = if !st.submitted && threshold_met(st.accumulated_secs, st.duration_secs) {
        Some((id.clone(), st.start_epoch_ms))
    } else {
        None
    };
    st.current = None;
    st.accumulated_secs = Real::Finite(0);
    st.submitted = false;
    st.duration_secs = None;
    out
}

/// The state after a song plays: a new one begins now, the same one goes on.
pub open spec fn played(st: ScrobbleState, id: SongId, now_ms: i64) -> ScrobbleState {
    if holds(st.current, id) {
        st
    } else {
        ScrobbleState {
            current: Some(id),
            start_epoch_ms: now_ms,
            duration_secs: None,
            accumulated_secs: Real::Finite(0),
            submitted: false,
        }
    }
}

/// The state after an event of the player, and what the server is told.
pub open spec fn noted(st: ScrobbleState, ev: PlayerEvent, now_ms: i64) -> (
    ScrobbleState,
    Option<ScrobbleTodo>,
) {
    match ev {
        PlayerEvent::StateChanged(PlayState::Playing, Some(id), _) => (
            played(st, id, now_ms),
            if holds(st.current, id) {
                None
            } else {
                Some(ScrobbleTodo::NowPlaying(id))
            },
        ),
        PlayerEvent::TimePos { pos, queue_id } => (
            heard(st, pos).0,
            if heard(st, pos).1 {
                Some(ScrobbleTodo::Submit(st.current->0, st.start_epoch_ms))
            } else {
                None
            },
        ),
        PlayerEvent::Eof { song: Some(id), queue_id } => (
            ended(st, id).0,
            if ended(st, id).1 {
                Some(ScrobbleTodo::Submit(id, st.start_epoch_ms))
            } else {
                None
            },
        ),
        _ => (st, None),
    }
}

/// The scrobbler.
#[derive(Debug)]
pub struct Scrobbler {
    /// The track that is being heard.
    pub state: ScrobbleState,
}

impl Scrobbler {
    /// A scrobbler that has heard nothing.
    pub fn new() -> (r: Scrobbler)
        ensures
            r.state == (ScrobbleState {
                current: None,
                start_epoch_ms: 0,
                duration_secs: None,
                accumulated_secs: Real::Finite(0),
                submitted: false,
            }),
    {
        Scrobbler { state: ScrobbleState::default() }
    }

    /// Takes note of an event of the player, which comes at this time, and gives what
    /// the server is to be told.
    pub fn on_event(&mut self, ev: &PlayerEvent, now_ms: i64) -> (r: Option<ScrobbleTodo>)
        ensures
            (final(self).state, r) == noted(old(self).state, *ev, now_ms),
    {
        match ev {
            PlayerEvent::StateChanged(PlayState::Playing, Some(id), _) => {
                if is_song(&self.state.current, id) {
                    None
                } else {
                    self.state = ScrobbleState {
                        current: Some(id.clone()),
                        start_epoch_ms: now_ms,
                        duration_secs: None,
                        accumulated_secs: Real::Finite(0),
                        submitted: false,
                    };
                    Some(ScrobbleTodo::NowPlaying(id.clone()))
                }
            },
            PlayerEvent::TimePos { pos, queue_id: _ } => match decide_timepos(
                &mut self.state,
                *pos,
            ) {
                Some((id, start)) => Some(ScrobbleTodo::Submit(id, start)),
                None => None,
            },
            PlayerEvent::Eof { song: Some(id), queue_id: _ } => match decide_eof(
                &mut self.state,
                id,
            ) {
                Some((id, start)) => Some(ScrobbleTodo::Submit(id, start)),
                None => None,
            },
            _ => None,
        }
    }

    /// Stores the length of a song, unless another is being heard by now.
    pub fn set_duration(&mut self, id: &SongId, duration_secs: Option<u32>)
        ensures
            final(self).state == (if holds(old(self).state.current, *id) {
                ScrobbleState { duration_secs, ..old(self).state }
            } else {
                old(self).state
            }),
    {
        if is_song(&self.state.current, id) {
            self.state.duration_secs = duration_secs;
        }
    }
}

// ---------------------------------------------------------------------------
// Laws
// ---------------------------------------------------------------------------

/// The state after a row of positions, and how often the play was submitted.
pub open spec fn heard_all(st: ScrobbleState, ts: Seq<Real>) -> (ScrobbleState, nat)
    decreases ts.len(),
{
    if ts.len() == 0 {
        (st, 0)
    } else {
        let (mid, n) = heard_all(st, ts.drop_last());
        let (last, now) = heard(mid, ts.last());
        (
            last,
            n + if now {
                1nat
            } else {
                0
            },
        )
    }
}

proof fn heard_all_keeps(st: ScrobbleState, ts: Seq<Real>)
    ensures
        heard_all(st, ts).0.current == st.current,
        st.submitted ==> heard_all(st, ts).1 == 0 && heard_all(st, ts).0.submitted,
        !st.submitted ==> heard_all(st, ts).1 <= 1 && (heard_all(st, ts).0.submitted <==> heard_all(
            st,
            ts,
        ).1 == 1),
    decreases ts.len(),
{
    if ts.len() > 0 {
        heard_all_keeps(st, ts.drop_last());
    }
}

/// A play is submitted no more than once: over all the positions that are reached in it
/// and its end.
pub proof fn a_play_is_submitted_once(st: ScrobbleState, ts: Seq<Real>, id: SongId)
    ensures
        heard_all(st, ts).1 + (if ended(heard_all(st, ts).0, id).1 {
            1nat
        } else {
            0
        }) <= 1,
{
    heard_all_keeps(st, ts);
}

/// A resumed song is not told again, and goes on with what was heard of it.
pub proof fn a_resumed_song_goes_on(st: ScrobbleState, id: SongId, qid: Option<
    crate::event::QueueId,
>, now_ms: i64)
    requires
        holds(st.current, id),
    ensures
        noted(st, PlayerEvent::StateChanged(PlayState::Playing, Some(id), qid), now_ms) == (
            st,
            None::<ScrobbleTodo>,
        ),
{
}

/// Nothing that was heard for less than half a minute counts.
pub proof fn short_plays_do_not_count(st: ScrobbleState, t: Real)
    requires
        !(st.accumulated_secs is Nan),
        !at_least(st.accumulated_secs, 30_000_000_000),
        !at_least(t, 30_000_000_000),
    ensures
        !heard(st, t).1,
{
}

/// The state after a row of positions, and what the server was told meanwhile.
pub open spec fn told_over(st: ScrobbleState, ts: Seq<Real>, now_ms: i64) -> (
    ScrobbleState,
    Seq<ScrobbleTodo>,
)
    decreases ts.len(),
{
    if ts.len() == 0 {
        (st, Seq::empty())
    } else {
        let (mid, said) = told_over(st, ts.drop_last(), now_ms);
        let (last, todo) = noted(
            mid,
            PlayerEvent::TimePos { pos: ts.last(), queue_id: None },
            now_ms,
        );
        (
            last,
            match todo {
                Some(t) => said.push(t),
                None => said,
            },
        )
    }
}

/// A song that is not the one being heard begins afresh, whatever was heard before it: it
/// is told as playing now, from now on, with nothing of it heard, its length not known,
/// and no submission behind it.
pub proof fn a_new_song_begins_afresh(st: ScrobbleState, id: SongId, qid: Option<
    crate::event::QueueId,
>, now_ms: i64)
    requires
        st.current matches Some(s) ==> s.0@ != id.0@,
    ensures
        ({
            let (after, todo) = noted(
                st,
                PlayerEvent::StateChanged(PlayState::Playing, Some(id), qid),
                now_ms,
            );
            &&& todo == Some(ScrobbleTodo::NowPlaying(id))
            &&& after.current == Some(id)
            &&& after.start_epoch_ms == now_ms
            &&& after.duration_secs is None
            &&& after.accumulated_secs == Real::Finite(0)
            &&& !after.submitted
        }),
{
}

proof fn positions_are_noted(
    st: ScrobbleState,
    id: SongId,
    furthest: int,
    ts: Seq<Real>,
    now_ms: i64,
)
    requires
        st.current == Some(id),
        !st.submitted,
        st.accumulated_secs == Real::Finite(furthest as i128),
        0 <= furthest <= i128::MAX,
        forall|i: int| 0 <= i < ts.len() ==> (#[trigger] ts[i]) is Finite,
    ensures
        ({
            let (after, said) = told_over(st, ts, now_ms);
            &&& after.current == st.current
            &&& after.duration_secs == st.duration_secs
            &&& after.start_epoch_ms == st.start_epoch_ms
            &&& after.accumulated_secs is Finite
            &&& after.accumulated_secs->Finite_0 >= furthest
            &&& forall|i: int|
                0 <= i < ts.len()
                    ==> (#[trigger] ts[i])->Finite_0 <= after.accumulated_secs->Finite_0
            &&& after.accumulated_secs->Finite_0 == furthest || exists|i: int|
                0 <= i < ts.len() && (#[trigger] ts[i])->Finite_0
                    == after.accumulated_secs->Finite_0
            &&& after.submitted <==> ts.len() > 0 && met(
                after.accumulated_secs,
                st.duration_secs,
            )
            &&& said == if after.submitted {
                seq![ScrobbleTodo::Submit(id, st.start_epoch_ms)]
            } else {
                Seq::empty()
            }
        }),
    decreases ts.len(),
{
    if ts.len() > 0 {
        let init = ts.drop_last();
        assert forall|i: int| 0 <= i < init.len() implies (#[trigger] init[i]) is Finite by {
            assert(init[i] == ts[i]);
        }
        positions_are_noted(st, id, furthest, init, now_ms);
        let mid = told_over(st, init, now_ms).0;
        let (after, said) = told_over(st, ts, now_ms);
        assert(ts[ts.len() - 1] is Finite);
        assert forall|i: int| 0 <= i < ts.len() implies (#[trigger] ts[i])->Finite_0
            <= after.accumulated_secs->Finite_0 by {
            if i < init.len() {
                assert(init[i] == ts[i]);
            }
        }
        if after.accumulated_secs->Finite_0 != furthest {
            if mid.accumulated_secs == after.accumulated_secs {
                let k = choose|k: int|
                    0 <= k < init.len() && (#[trigger] init[k])->Finite_0
                        == mid.accumulated_secs->Finite_0;
                assert(ts[k]->Finite_0 == after.accumulated_secs->Finite_0);
            } else {
                assert(ts[ts.len() - 1]->Finite_0 == after.accumulated_secs->Finite_0);
            }
        }
        if mid.submitted {
            assert(met(after.accumulated_secs, st.duration_secs));
        }
    }
}

/// A play that was heard far enough is submitted, exactly once, with its own song and the
/// time at which it began; and one that was not is not. Far enough is half a minute, and
/// half of the song or four minutes where its length is known. That holds from any state:
/// whether or not what was heard before had been submitted.
pub proof fn a_play_heard_far_enough_is_submitted(
    st: ScrobbleState,
    id: SongId,
    qid: Option<crate::event::QueueId>,
    start: i64,
    length: Option<u32>,
    ts: Seq<Real>,
    now_ms: i64,
)
    requires
        st.current matches Some(s) ==> s.0@ != id.0@,
        forall|i: int| 0 <= i < ts.len() ==> (#[trigger] ts[i]) is Finite,
    ensures
        ({
            let begun = noted(
                st,
                PlayerEvent::StateChanged(PlayState::Playing, Some(id), qid),
                start,
            ).0;
            let said = told_over(
                ScrobbleState { duration_secs: length, ..begun },
                ts,
                now_ms,
            ).1;
            let enough = exists|i: int|
                0 <= i < ts.len() && (#[trigger] ts[i])->Finite_0 >= 30_000_000_000
                    && match length {
                    Some(d) => 2 * ts[i]->Finite_0 >= d * 1_000_000_000 || ts[i]->Finite_0
                        >= 240_000_000_000,
                    None => true,
                };
            said == if enough {
                seq![ScrobbleTodo::Submit(id, start)]
            } else {
                Seq::empty()
            }
        }),
{
    let begun = noted(st, PlayerEvent::StateChanged(PlayState::Playing, Some(id), qid), start).0;
    let s = ScrobbleState { duration_secs: length, ..begun };
    positions_are_noted(s, id, 0, ts, now_ms);
    let (after, said) = told_over(s, ts, now_ms);
    if after.submitted {
        let k = choose|k: int|
            0 <= k < ts.len() && (#[trigger] ts[k])->Finite_0 == after.accumulated_secs->Finite_0;
        assert(ts[k]->Finite_0 >= 30_000_000_000);
    } else {
        assert forall|i: int| 0 <= i < ts.len() implies !((#[trigger] ts[i])->Finite_0
            >= 30_000_000_000 && match length {
            Some(d) => 2 * ts[i]->Finite_0 >= d * 1_000_000_000 || ts[i]->Finite_0
                >= 240_000_000_000,
            None => true,
        }) by {
            assert(ts[i]->Finite_0 <= after.accumulated_secs->Finite_0);
        }
    }
}

/// The end of the song that is being heard settles its play: where enough of it was heard
/// and it has not been submitted, it is now. Nothing is being heard from there on. The end
/// of another song changes nothing.
pub proof fn an_end_settles_the_play(
    st: ScrobbleState,
    id: SongId,
    qid: Option<crate::event::QueueId>,
    now_ms: i64,
    x: i128,
)
    requires
        st.accumulated_secs == Real::Finite(x),
    ensures
        ({
            let (after, todo) = noted(
                st,
                PlayerEvent::Eof { song: Some(id), queue_id: qid },
                now_ms,
            );
            let ours = st.current matches Some(s) && s.0@ == id.0@;
            let enough = x >= 30_000_000_000 && match st.duration_secs {
                Some(d) => 2 * x >= d * 1_000_000_000 || x >= 240_000_000_000,
                None => true,
            };
            &&& !ours ==> after == st && todo is None
            &&& ours ==> after.current is None && !after.submitted && after.accumulated_secs
                == Real::Finite(0) && after.duration_secs is None
            &&& ours ==> todo == if enough && !st.submitted {
                Some(ScrobbleTodo::Submit(id, st.start_epoch_ms))
            } else {
                None
            }
        }),
{
}

/// A pause, a stop and a stream without a song leave what is being heard alone.
pub proof fn pauses_and_streams_change_nothing(st: ScrobbleState, ev: PlayerEvent, now_ms: i64)
    requires
        match ev {
            PlayerEvent::StateChanged(s, song, q) => s != PlayState::Playing || song is None,
            PlayerEvent::TimePos { pos, queue_id } => st.current is None,
            PlayerEvent::Eof { song, queue_id } => song is None,
            _ => true,
        },
    ensures
        noted(st, ev, now_ms) == (st, None::<ScrobbleTodo>),
{
}

/// A position counts for the song that is being heard, whichever entry it is told for.
pub proof fn positions_count_for_what_is_heard(
    st: ScrobbleState,
    pos: Real,
    a: Option<crate::event::QueueId>,
    b: Option<crate::event::QueueId>,
    now_ms: i64,
)
    ensures
        noted(st, PlayerEvent::TimePos { pos, queue_id: a }, now_ms) == noted(
            st,
            PlayerEvent::TimePos { pos, queue_id: b },
            now_ms,
        ),
{
}

} // verus!
