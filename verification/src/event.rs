//! Events of playback, and the queue as they find it.
//!
//! Whatever outlives a change of the queue is held by identity: a [`QueueId`] names
//! one entry for good, an index names whatever stands there now.

use vstd::prelude::*;

use crate::model::{AlbumId, SongId};
use crate::number::Span;
use crate::player::PlayState;

verus! {

/// A point on the monotonic clock, in nanoseconds from its start.
#[derive(Clone, Copy, Debug, PartialEq, Eq, PartialOrd, Ord, Structural)]
pub struct Moment {
    /// Nanoseconds from the start of the clock.
    pub nanos: u128,
}

/// The furthest point that the clock itself may show: every span later still has a
/// name.
pub const MOMENT_LIMIT: u128 = 170_141_183_460_469_231_731_687_303_715_884_105_727;

impl Moment {
    /// The clock has not run past its limit.
    pub open spec fn wf(self) -> bool {
        self.nanos <= MOMENT_LIMIT
    }

    /// The point `s` later.
    pub open spec fn later(self, s: Span) -> Moment {
        Moment { nanos: (self.nanos + s.nanos) as u128 }
    }

    /// The point `s` later.
    pub fn plus(self, s: Span) -> (r: Moment)
        requires
            self.wf(),
            s.wf(),
        ensures
            r == self.later(s),
            r.nanos == self.nanos + s.nanos,
    {
        Moment { nanos: self.nanos + s.nanos }
    }
}

/// The identity of one queue entry. It is never reused, and it is no index.
#[derive(Clone, Copy, Debug, PartialEq, Eq, Hash, Structural)]
pub struct QueueId(pub u64);

/// The identity of one timer.
#[derive(Clone, Copy, Debug, PartialEq, Eq, Hash, Structural)]
pub struct TimerId(pub u64);

/// The track that a boundary is about. What is not known is `None`.
#[derive(Debug)]
pub struct TrackRef {
    /// The identity of the entry.
    pub queue_id: QueueId,
    /// Where the entry stood, or `None` where it had left the queue.
    pub queue_index: Option<usize>,
    /// The song, or `None` for a raw stream.
    pub song: Option<SongId>,
    /// The album, where it is known.
    pub album_id: Option<AlbumId>,
    /// The length, where it is known.
    pub duration: Option<Span>,
}

impl Clone for TrackRef {
    fn clone(&self) -> (r: Self)
        ensures
            r == *self,
    {
        TrackRef {
            queue_id: self.queue_id,
            queue_index: self.queue_index,
            song: copy_song(&self.song),
            album_id: copy_album(&self.album_id),
            duration: self.duration,
        }
    }
}

/// An equal song id.
pub fn copy_song(o: &Option<SongId>) -> (r: Option<SongId>)
    ensures
        r == *o,
{
    match o {
        Some(s) => Some(s.clone()),
        None => None,
    }
}

/// An equal album id.
pub fn copy_album(o: &Option<AlbumId>) -> (r: Option<AlbumId>)
    ensures
        r == *o,
{
    match o {
        Some(s) => Some(s.clone()),
        None => None,
    }
}

/// What happened.
#[derive(Clone, Debug)]
#[non_exhaustive]
pub enum DjEventKind {
    /// The position moved.
    Tick {
        /// The position.
        time_pos: Span,
        /// What is left of the track, where a length other than none is known.
        time_remaining: Option<Span>,
    },
    /// A track began.
    TrackStart(TrackRef),
    /// A track ended. It comes before the start of the next.
    TrackEnd(TrackRef),
    /// The play state changed in another way.
    StateChanged(PlayState, Option<TrackRef>),
    /// A timer ran out.
    WallClock(TimerId),
    /// A fresh snapshot of the queue can be read.
    Resync,
}

/// One event with its stamps.
#[derive(Clone, Debug)]
pub struct DjEvent {
    /// What happened.
    pub kind: DjEventKind,
    /// When it was published.
    pub now: Moment,
    /// Its place in the row of events.
    pub seq: u64,
    /// The version of the queue at that time.
    pub playlist_version: u64,
    /// The current entry at that time.
    pub cursor: Option<QueueId>,
}

/// One entry of the queue.
#[derive(Debug)]
pub struct EntrySnapshot {
    /// Its identity.
    pub queue_id: QueueId,
    /// The song, or `None` for a raw stream.
    pub song: Option<SongId>,
    /// The album, where it is known.
    pub album_id: Option<AlbumId>,
    /// The length, where it is known.
    pub duration: Option<Span>,
}

impl Clone for EntrySnapshot {
    fn clone(&self) -> (r: Self)
        ensures
            r == *self,
    {
        EntrySnapshot {
            queue_id: self.queue_id,
            song: copy_song(&self.song),
            album_id: copy_album(&self.album_id),
            duration: self.duration,
        }
    }
}

/// The current entry, by place and by identity.
#[derive(Clone, Copy, Debug, PartialEq, Eq, Structural)]
pub struct Cursor {
    /// Its place.
    pub index: usize,
    /// Its identity.
    pub queue_id: QueueId,
}

/// The queue at one point in time.
#[derive(Debug, Clone)]
pub struct QueueSnapshot {
    /// The version of the queue.
    pub playlist_version: u64,
    /// The current entry.
    pub current: Option<Cursor>,
    /// The entries in order.
    pub entries: Vec<EntrySnapshot>,
}

/// The first place at or after `i` that the entry `id` holds.
pub open spec fn place_from(entries: Seq<EntrySnapshot>, id: QueueId, i: int) -> Option<int>
    decreases entries.len() - i,
{
    if i >= entries.len() {
        None
    } else if entries[i].queue_id == id {
        Some(i)
    } else {
        place_from(entries, id, i + 1)
    }
}

impl QueueSnapshot {
    /// The first place that the entry `id` holds, or `None` where it has left the
    /// queue.
    pub open spec fn place(self, id: QueueId) -> Option<int> {
        place_from(self.entries@, id, 0)
    }

    /// Locates an entry by its identity.
    pub fn find(&self, id: QueueId) -> (r: Option<(usize, &EntrySnapshot)>)
        ensures
            r matches Some(p) ==> self.place(id) == Some(p.0 as int) && p.0 < self.entries@.len()
                && *p.1 == self.entries@[p.0 as int] && p.1.queue_id == id,
            r is None ==> self.place(id) is None,
    {
        let mut i: usize = 0;
        while i < self.entries.len()
            invariant
                i <= self.entries@.len(),
                self.place(id) == place_from(self.entries@, id, i as int),
            decreases self.entries@.len() - i,
        {
            if self.entries[i].queue_id == id {
                return Some((i, &self.entries[i]));
            }
            i += 1;
        }
        None
    }
}

/// What is located carries the identity that was asked for, and stands before every
/// other entry that does; what is not located stands nowhere in the queue.
pub proof fn place_is_identity(snap: QueueSnapshot, id: QueueId)
    ensures
        snap.place(id) matches Some(i) ==> 0 <= i < snap.entries@.len()
            && snap.entries@[i].queue_id == id && forall|j: int|
            0 <= j < i ==> #[trigger] snap.entries@[j].queue_id != id,
        snap.place(id) is None ==> forall|j: int|
            0 <= j < snap.entries@.len() ==> #[trigger] snap.entries@[j].queue_id != id,
{
    place_from_is_first(snap.entries@, id, 0);
}

proof fn place_from_is_first(entries: Seq<EntrySnapshot>, id: QueueId, i: int)
    requires
        0 <= i,
    ensures
        place_from(entries, id, i) matches Some(k) ==> i <= k < entries.len()
            && entries[k].queue_id == id && forall|j: int|
            i <= j < k ==> #[trigger] entries[j].queue_id != id,
        place_from(entries, id, i) is None ==> forall|j: int|
            i <= j < entries.len() ==> #[trigger] entries[j].queue_id != id,
    decreases entries.len() - i,
{
    if i < entries.len() && entries[i].queue_id != id {
        place_from_is_first(entries, id, i + 1);
    }
}

} // verus!
