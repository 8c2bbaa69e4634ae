//! The director: it makes boundaries out of what the player tells.
//!
//! A track begins when the identity that plays becomes another, not when the player
//! says that it plays. The end of a track comes before the start of the next. The gap
//! between two tracks of the queue is no stop.

use vstd::prelude::*;

use crate::event;
use crate::event::{DjEvent, DjEventKind, Moment, QueueId, QueueSnapshot, TimerId, TrackRef};
use crate::model::SongId;
use crate::number;
use crate::number::{Real, Span};
use crate::player::{PlayState, PlayerEvent};

verus! {

/// How many events the observers' channel holds.
pub const BROADCAST_CAP: usize = 512;

/// How many seconds the director waits for the queue to advance.
pub const ADVANCE_TIMEOUT_SECS: u64 = 20;

/// One thing to publish.
#[derive(Debug)]
pub enum Post {
    /// The snapshot of the queue that was read for this step.
    Snapshot,
    /// An event that may be lost.
    Observe(DjEvent),
    /// An event that must not be lost. The observers get it too.
    Edge(DjEvent),
}

/// A level of the sound, for the meters.
#[derive(Clone, Copy, Debug, PartialEq, Eq)]
pub struct VizFrame {
    /// The mean level before the volume is applied.
    pub rms_db: Real,
    /// The peak level before the volume is applied.
    pub peak_db: Real,
    /// What the volume adds to both.
    pub gain_db: Real,
    /// Whether sound is flowing.
    pub playing: bool,
}

/// What the director knows of the player.
#[derive(Debug)]
pub struct Publisher {
    /// The stamp of the last event.
    pub seq: u64,
    /// The entry that plays, as the player told it.
    pub latch: Option<QueueId>,
    /// The length of its track, where it is known.
    pub latched_duration: Option<Span>,
    /// The version of the queue that was last seen.
    pub version: u64,
    /// The play state that was last told.
    pub last_state: PlayState,
    /// The next stop is the gap before the next track.
    pub suppress_next_stopped: bool,
}

// ---------------------------------------------------------------------------
// Events
// ---------------------------------------------------------------------------

/// The track that an entry of the queue is. What the event said of its song goes before
/// what the queue says; what has left the queue has neither a place nor a length.
pub open spec fn track_of(snap: QueueSnapshot, qid: QueueId, song: Option<SongId>) -> TrackRef {
    match snap.place(qid) {
        Some(i) => {
            let e = snap.entries@[i];
            TrackRef {
                queue_id: qid,
                queue_index: Some(i as usize),
                song: if song is Some {
                    song
                } else {
                    e.song
                },
                album_id: e.album_id,
                duration: e.duration,
            }
        },
        None => TrackRef {
            queue_id: qid,
            queue_index: None,
            song,
            album_id: None,
            duration: None,
        },
    }
}

/// The track that an entry of the queue is.
pub fn track_ref(snap: &QueueSnapshot, qid: QueueId, song: Option<SongId>) -> (r: TrackRef)
    ensures
        r == track_of(*snap, qid, song),
{
    match snap.find(qid) {
        Some((i, e)) => TrackRef {
            queue_id: qid,
            queue_index: Some(i),
            song: match song {
                Some(s) => Some(s),
                None => event::copy_song(&e.song),
            },
            album_id: event::copy_album(&e.album_id),
            duration: e.duration,
        },
        None => TrackRef {
            queue_id: qid,
            queue_index: None,
            song,
            album_id: None,
            duration: None,
        },
    }
}

/// The state with the next stamp taken.
pub open spec fn stamped(p: Publisher) -> Publisher {
    Publisher { seq: (p.seq + 1) as u64, ..p }
}

/// An event with the next stamp.
pub open spec fn envelope_of(p: Publisher, kind: DjEventKind, now: Moment) -> DjEvent {
    DjEvent {
        kind,
        now,
        seq: (p.seq + 1) as u64,
        playlist_version: p.version,
        cursor: p.latch,
    }
}

/// The state after the queue was read.
pub open spec fn refreshed(p: Publisher, snap: QueueSnapshot, now: Moment) -> (
    Publisher,
    Seq<Post>,
) {
    let q = Publisher { version: snap.playlist_version, ..p };
    if snap.playlist_version != p.version {
        (
            stamped(q),
            seq![Post::Snapshot, Post::Observe(envelope_of(q, DjEventKind::Resync, now))],
        )
    } else {
        (q, seq![Post::Snapshot])
    }
}

/// The state after an edge, and what is published: the snapshot, a mark where the queue
/// has changed, and the event.
pub open spec fn edged(p: Publisher, kind: DjEventKind, snap: QueueSnapshot, now: Moment) -> (
    Publisher,
    Seq<Post>,
) {
    let (q, posts) = refreshed(p, snap, now);
    (stamped(q), posts.push(Post::Edge(envelope_of(q, kind, now))))
}

/// The state after the player plays an entry, and what is published.
pub open spec fn on_playing_does(
    p: Publisher,
    qid: QueueId,
    song: Option<SongId>,
    snap: QueueSnapshot,
    now: Moment,
) -> (Publisher, Seq<Post>) {
    let q = Publisher { suppress_next_stopped: false, ..p };
    if q.latch == Some(qid) {
        if q.last_state == PlayState::Playing {
            (q, Seq::empty())
        } else {
            edged(
                Publisher { last_state: PlayState::Playing, ..q },
                DjEventKind::StateChanged(PlayState::Playing, Some(track_of(snap, qid, song))),
                snap,
                now,
            )
        }
    } else {
        let (mid, ends) = match q.latch {
            Some(prev) => edged(
                q,
                DjEventKind::TrackEnd(track_of(snap, prev, None)),
                snap,
                now,
            ),
            None => (q, Seq::empty()),
        };
        let t = track_of(snap, qid, song);
        let (last, starts) = edged(
            Publisher {
                latch: Some(qid),
                latched_duration: t.duration,
                last_state: PlayState::Playing,
                ..mid
            },
            DjEventKind::TrackStart(t),
            snap,
            now,
        );
        (last, ends + starts)
    }
}

/// The state after the player pauses, and what is published.
pub open spec fn on_paused_does(
    p: Publisher,
    qid: Option<QueueId>,
    song: Option<SongId>,
    snap: QueueSnapshot,
    now: Moment,
) -> (Publisher, Seq<Post>) {
    if p.last_state != PlayState::Playing {
        (p, Seq::empty())
    } else {
        edged(
            Publisher { last_state: PlayState::Paused, ..p },
            DjEventKind::StateChanged(
                PlayState::Paused,
                match qid {
                    Some(q) => Some(track_of(snap, q, song)),
                    None => None,
                },
            ),
            snap,
            now,
        )
    }
}

/// The state after the player stops, and what is published.
pub open spec fn on_stopped_does(p: Publisher, snap: QueueSnapshot, now: Moment) -> (
    Publisher,
    Seq<Post>,
) {
    if p.suppress_next_stopped {
        (Publisher { suppress_next_stopped: false, ..p }, Seq::empty())
    } else {
        let q = Publisher { latch: None, latched_duration: None, ..p };
        if q.last_state != PlayState::Stopped {
            edged(
                Publisher { last_state: PlayState::Stopped, ..q },
                DjEventKind::StateChanged(PlayState::Stopped, None),
                snap,
                now,
            )
        } else {
            (q, Seq::empty())
        }
    }
}

/// The state after a track came to its end, and what is published before the queue
/// advances.
pub open spec fn on_eof_does(
    p: Publisher,
    qid: Option<QueueId>,
    song: Option<SongId>,
    snap: QueueSnapshot,
    now: Moment,
) -> (Publisher, Seq<Post>) {
    let (q, posts) = match qid {
        Some(id) => edged(p, DjEventKind::TrackEnd(track_of(snap, id, song)), snap, now),
        None => (p, Seq::empty()),
    };
    (Publisher { latch: None, latched_duration: None, ..q }, posts)
}

/// The position that the player told: no position lies before the start.
pub open spec fn position_of(pos: Real) -> Span {
    match pos {
        Real::Finite(n) => if 0 <= n <= number::MAX_SPAN_NANOS {
            Span { nanos: n as u128 }
        } else {
            Span { nanos: 0 }
        },
        _ => Span { nanos: 0 },
    }
}

/// The position that the player told.
pub fn pos_to_duration(pos: Real) -> (r: Span)
    ensures
        r == position_of(pos),
        r.wf(),
{
    match Span::from_real(pos) {
        Some(s) => s,
        None => Span::zero(),
    }
}

/// What is left of a track of this length: never less than nothing, and not told where
/// the length is not known or is none at all.
pub open spec fn left_of(duration: Option<Span>, pos: Span) -> Option<Span> {
    match duration {
        Some(d) => if d.nanos == 0 {
            None
        } else {
            Some(
                Span {
                    nanos: if d.nanos >= pos.nanos {
                        (d.nanos - pos.nanos) as u128
                    } else {
                        0
                    },
                },
            )
        },
        None => None,
    }
}

/// The state after the position moved, and what is published: nothing where the
/// position is of another entry than the one that plays.
pub open spec fn on_time_does(p: Publisher, pos: Real, qid: Option<QueueId>, now: Moment) -> (
    Publisher,
    Seq<Post>,
) {
    if qid is Some && qid == p.latch {
        let at = position_of(pos);
        (
            stamped(p),
            seq![
                Post::Observe(
                    envelope_of(
                        p,
                        DjEventKind::Tick {
                            time_pos: at,
                            time_remaining: left_of(p.latched_duration, at),
                        },
                        now,
                    ),
                ),
            ],
        )
    } else {
        (p, Seq::empty())
    }
}

/// The most stamps that one event takes.
pub const STAMPS_PER_STEP: u64 = 4;

impl Publisher {
    /// There are stamps left for one more event.
    pub open spec fn wf(self) -> bool {
        self.seq <= u64::MAX - STAMPS_PER_STEP
    }

    /// A director that has heard nothing.
    pub fn new() -> (r: Publisher)
        ensures
            r == (Publisher {
                seq: 0,
                latch: None,
                latched_duration: None,
                version: 0,
                last_state: PlayState::Stopped,
                suppress_next_stopped: false,
            }),
            r.wf(),
    {
        Publisher {
            seq: 0,
            latch: None,
            latched_duration: None,
            version: 0,
            last_state: PlayState::Stopped,
            suppress_next_stopped: false,
        }
    }

    fn envelope(&mut self, kind: DjEventKind, now: Moment) -> (r: DjEvent)
        requires
            old(self).seq < u64::MAX,
        ensures
            *final(self) == stamped(*old(self)),
            r == envelope_of(*old(self), kind, now),
    {
        self.seq = self.seq + 1;
        DjEvent {
            kind,
            now,
            seq: self.seq,
            playlist_version: self.version,
            cursor: self.latch,
        }
    }

    fn edge(&mut self, kind: DjEventKind, snap: &QueueSnapshot, now: Moment, posts: &mut Vec<Post>)
        requires
            old(self).seq < u64::MAX - 1,
        ensures
            *final(self) == edged(*old(self), kind, *snap, now).0,
            final(posts)@ == old(posts)@ + edged(*old(self), kind, *snap, now).1,
            final(self).seq <= old(self).seq + 2,
            final(self).version == snap.playlist_version,
            old(self).version == snap.playlist_version ==> final(self).seq == old(self).seq + 1,
    {
        let changed = snap.playlist_version != self.version;
        self.version = snap.playlist_version;
        posts.push(Post::Snapshot);
        if changed {
            let mark = self.envelope(DjEventKind::Resync, now);
            posts.push(Post::Observe(mark));
        }
        let ev = self.envelope(kind, now);
        posts.push(Post::Edge(ev));
        assert(posts@ =~= old(posts)@ + edged(*old(self), kind, *snap, now).1);
    }

    /// The player plays an entry.
    ///
    /// Only another entry than the latched one is a start. Where one is latched still,
    /// it was replaced, and its end comes first.
    pub fn on_playing(
        &mut self,
        qid: QueueId,
        song: Option<SongId>,
        snap: &QueueSnapshot,
        now: Moment,
    ) -> (r: Vec<Post>)
        requires
            old(self).wf(),
        ensures
            (*final(self), r@) == on_playing_does(*old(self), qid, song, *snap, now),
    {
        let mut posts: Vec<Post> = Vec::new();
        self.suppress_next_stopped = false;
        if let Some(latched) = self.latch {
            if latched == qid {
                if self.last_state != PlayState::Playing {
                    self.last_state = PlayState::Playing;
                    let t = track_ref(snap, qid, song);
                    self.edge(
                        DjEventKind::StateChanged(PlayState::Playing, Some(t)),
                        snap,
                        now,
                        &mut posts,
                    );
                }
                assert(posts@ =~= on_playing_does(*old(self), qid, song, *snap, now).1);
                return posts;
            }
            let t = track_ref(snap, latched, None);
            self.edge(DjEventKind::TrackEnd(t), snap, now, &mut posts);
        }
        let t = track_ref(snap, qid, song);
        self.latch = Some(qid);
        self.latched_duration = t.duration;
        self.last_state = PlayState::Playing;
        self.edge(DjEventKind::TrackStart(t), snap, now, &mut posts);
        assert(posts@ =~= on_playing_does(*old(self), qid, song, *snap, now).1);
        posts
    }

    /// The player pauses. Only what played can pause.
    pub fn on_paused(
        &mut self,
        qid: Option<QueueId>,
        song: Option<SongId>,
        snap: &QueueSnapshot,
        now: Moment,
    ) -> (r: Vec<Post>)
        requires
            old(self).wf(),
        ensures
            (*final(self), r@) == on_paused_does(*old(self), qid, song, *snap, now),
    {
        let mut posts: Vec<Post> = Vec::new();
        if self.last_state != PlayState::Playing {
            assert(posts@ =~= Seq::<Post>::empty());
            return posts;
        }
        let t = match qid {
            Some(q) => Some(track_ref(snap, q, song)),
            None => None,
        };
        self.last_state = PlayState::Paused;
        self.edge(DjEventKind::StateChanged(PlayState::Paused, t), snap, now, &mut posts);
        assert(posts@ =~= on_paused_does(*old(self), qid, song, *snap, now).1);
        posts
    }

    /// The player stops. The gap before the next track is passed over.
    pub fn on_stopped(&mut self, snap: &QueueSnapshot, now: Moment) -> (r: Vec<Post>)
        requires
            old(self).wf(),
        ensures
            (*final(self), r@) == on_stopped_does(*old(self), *snap, now),
    {
        let mut posts: Vec<Post> = Vec::new();
        if self.suppress_next_stopped {
            self.suppress_next_stopped = false;
            assert(posts@ =~= Seq::<Post>::empty());
            return posts;
        }
        self.latch = None;
        self.latched_duration = None;
        if self.last_state != PlayState::Stopped {
            self.last_state = PlayState::Stopped;
            self.edge(DjEventKind::StateChanged(PlayState::Stopped, None), snap, now, &mut posts);
        }
        assert(posts@ =~= on_stopped_does(*old(self), *snap, now).1);
        posts
    }

    /// A track came to its end. Its end is published before the queue advances.
    pub fn on_eof(
        &mut self,
        qid: Option<QueueId>,
        song: Option<SongId>,
        snap: &QueueSnapshot,
        now: Moment,
    ) -> (r: Vec<Post>)
        requires
            old(self).wf(),
        ensures
            (*final(self), r@) == on_eof_does(*old(self), qid, song, *snap, now),
    {
        let mut posts: Vec<Post> = Vec::new();
        if let Some(id) = qid {
            let t = track_ref(snap, id, song);
            self.edge(DjEventKind::TrackEnd(t), snap, now, &mut posts);
        }
        self.latch = None;
        self.latched_duration = None;
        assert(posts@ =~= on_eof_does(*old(self), qid, song, *snap, now).1);
        posts
    }

    /// The queue was asked to advance behind the entry that ended, and now is this. Only
    /// where it stands at another entry does the next stop go unheard: a queue that is
    /// at its end, or could not advance, has stopped.
    pub fn after_advance(&mut self, finished: Option<QueueId>, snap: &QueueSnapshot)
        ensures
            *final(self) == advanced(*old(self), finished, *snap),
    {
        if let Some(c) = &snap.current {
            let moved = match finished {
                Some(id) => c.queue_id != id,
                None => true,
            };
            if moved {
                self.suppress_next_stopped = true;
            }
        }
    }

    /// The position moved.
    pub fn on_time(&mut self, pos: Real, qid: Option<QueueId>, now: Moment) -> (r: Vec<Post>)
        requires
            old(self).wf(),
        ensures
            (*final(self), r@) == on_time_does(*old(self), pos, qid, now),
    {
        let mut posts: Vec<Post> = Vec::new();
        let ours = match (qid, self.latch) {
            (Some(a), Some(b)) => a == b,
            _ => false,
        };
        if ours {
            let at = pos_to_duration(pos);
            let left = self.time_remaining(at);
            let ev = self.envelope(
                DjEventKind::Tick { time_pos: at, time_remaining: left },
                now,
            );
            posts.push(Post::Observe(ev));
        }
        assert(posts@ =~= on_time_does(*old(self), pos, qid, now).1);
        posts
    }

    /// What is left of the track: nothing is said where its length is not known, or none.
    pub fn time_remaining(&self, pos: Span) -> (r: Option<Span>)
        ensures
            r == left_of(self.latched_duration, pos),
    {
        match self.latched_duration {
            Some(d) => {
                if d.nanos == 0 {
                    return None;
                }
                Some(
                    Span {
                        nanos: if d.nanos >= pos.nanos {
                            d.nanos - pos.nanos
                        } else {
                            0
                        },
                    },
                )
            },
            None => None,
        }
    }

    /// A timer ran out.
    pub fn on_timer(&mut self, id: TimerId, snap: &QueueSnapshot, now: Moment) -> (r: Vec<Post>)
        requires
            old(self).wf(),
        ensures
            (*final(self), r@) == edged(*old(self), DjEventKind::WallClock(id), *snap, now),
    {
        let mut posts: Vec<Post> = Vec::new();
        self.edge(DjEventKind::WallClock(id), snap, now, &mut posts);
        assert(posts@ =~= edged(*old(self), DjEventKind::WallClock(id), *snap, now).1);
        posts
    }
}

/// The state after the queue was asked to advance behind an entry, and now is this.
pub open spec fn advanced(p: Publisher, finished: Option<QueueId>, snap: QueueSnapshot) -> Publisher {
    match snap.current {
        Some(c) => if Some(c.queue_id) != finished {
            Publisher { suppress_next_stopped: true, ..p }
        } else {
            p
        },
        None => p,
    }
}

// ---------------------------------------------------------------------------
// The spine
// ---------------------------------------------------------------------------

/// One thing for the spine to do. The order in which they come is the order in which
/// they are done.
#[derive(Debug)]
pub enum SpineTodo {
    /// Hand the event to the scrobbler.
    Scrobble,
    /// Look up the length of a song for the scrobbler.
    ResolveDuration(SongId),
    /// Publish.
    Publish(Vec<Post>),
    /// Forget what a stream told of itself, unless it is this entry.
    ForgetStream(Option<QueueId>),
    /// Set the timer after which this entry is identified.
    ScheduleIdentify(Option<QueueId>),
    /// Find out which station this entry is.
    FindStation(QueueId),
    /// Let the queue advance.
    Advance,
    /// Show a level of the sound.
    Show(VizFrame),
    /// Begin to load what goes on behind the queue, where this timer is meant for it.
    Warm(TimerId),
    /// Identify what plays, where this timer is meant for it.
    Identify(TimerId),
    /// Publish that this timer ran out.
    Tell(TimerId),
}

/// A thing to do publishes exactly these.
pub open spec fn publishes(t: SpineTodo, posts: Seq<Post>) -> bool {
    t matches SpineTodo::Publish(v) && v@ == posts
}

/// What the spine does about an event of the player, and the state after it.
pub open spec fn spine_does(
    p: Publisher,
    ev: PlayerEvent,
    snap: QueueSnapshot,
    now: Moment,
    q: Publisher,
    r: Seq<SpineTodo>,
) -> bool {
    &&& r.len() > 0
    &&& r[0] is Scrobble
    &&& match ev {
        PlayerEvent::StateChanged(PlayState::Playing, song, qid) => {
            let k: int = if song is Some {
                2
            } else {
                1
            };
            let m: int = if qid is Some {
                k + 1
            } else {
                k
            };
            let fresh = qid is Some && p.latch != qid;
            &&& song is Some ==> r[1] == SpineTodo::ResolveDuration(song->0)
            &&& qid is Some ==> publishes(r[k], on_playing_does(p, qid->0, song, snap, now).1)
            &&& q == (if qid is Some {
                on_playing_does(p, qid->0, song, snap, now).0
            } else {
                p
            })
            &&& r[m] == SpineTodo::ForgetStream(qid)
            &&& r[m + 1] == SpineTodo::ScheduleIdentify(qid)
            &&& fresh ==> r[m + 2] == SpineTodo::FindStation(qid->0)
            &&& r.len() == (if fresh {
                m + 3
            } else {
                m + 2
            })
        },
        PlayerEvent::StateChanged(PlayState::Paused, song, qid) => {
            &&& r.len() == 2
            &&& publishes(r[1], on_paused_does(p, qid, song, snap, now).1)
            &&& q == on_paused_does(p, qid, song, snap, now).0
        },
        PlayerEvent::StateChanged(PlayState::Stopped, song, qid) => {
            &&& r.len() == 3
            &&& publishes(r[1], on_stopped_does(p, snap, now).1)
            &&& r[2] == SpineTodo::ForgetStream(None)
            &&& q == on_stopped_does(p, snap, now).0
        },
        PlayerEvent::TimePos { pos, queue_id } => {
            &&& r.len() == 2
            &&& publishes(r[1], on_time_does(p, pos, queue_id, now).1)
            &&& q == on_time_does(p, pos, queue_id, now).0
        },
        PlayerEvent::Eof { song, queue_id } => {
            &&& r.len() == 3
            &&& publishes(r[1], on_eof_does(p, queue_id, song, snap, now).1)
            &&& r[2] is Advance
            &&& q == on_eof_does(p, queue_id, song, snap, now).0
        },
        PlayerEvent::Viz { rms_db, peak_db, gain_db, playing } => {
            &&& r.len() == 2
            &&& r[1] == SpineTodo::Show(VizFrame { rms_db, peak_db, gain_db, playing })
            &&& q == p
        },
    }
}

impl Publisher {
    /// What the spine does about an event of the player. The scrobbler hears it first.
    /// Behind an [`SpineTodo::Advance`] the queue that came of it is handed to
    /// [`Publisher::after_advance`].
    pub fn on_player_event(&mut self, ev: PlayerEvent, snap: &QueueSnapshot, now: Moment) -> (r:
        Vec<SpineTodo>)
        requires
            old(self).wf(),
        ensures
            spine_does(*old(self), ev, *snap, now, *final(self), r@),
    {
        let mut r: Vec<SpineTodo> = Vec::new();
        r.push(SpineTodo::Scrobble);
        match ev {
            PlayerEvent::StateChanged(PlayState::Playing, song, qid) => {
                if let Some(id) = &song {
                    r.push(SpineTodo::ResolveDuration(id.clone()));
                }
                let fresh = match (qid, self.latch) {
                    (Some(a), Some(b)) => a != b,
                    (Some(_), None) => true,
                    _ => false,
                };
                if let Some(q) = qid {
                    r.push(SpineTodo::Publish(self.on_playing(q, song, snap, now)));
                }
                r.push(SpineTodo::ForgetStream(qid));
                r.push(SpineTodo::ScheduleIdentify(qid));
                if fresh {
                    if let Some(q) = qid {
                        r.push(SpineTodo::FindStation(q));
                    }
                }
            },
            PlayerEvent::StateChanged(PlayState::Paused, song, qid) => {
                r.push(SpineTodo::Publish(self.on_paused(qid, song, snap, now)));
            },
            PlayerEvent::StateChanged(PlayState::Stopped, _, _) => {
                r.push(SpineTodo::Publish(self.on_stopped(snap, now)));
                r.push(SpineTodo::ForgetStream(None));
            },
            PlayerEvent::TimePos { pos, queue_id } => {
                r.push(SpineTodo::Publish(self.on_time(pos, queue_id, now)));
            },
            PlayerEvent::Eof { song, queue_id } => {
                r.push(SpineTodo::Publish(self.on_eof(queue_id, song, snap, now)));
                r.push(SpineTodo::Advance);
            },
            PlayerEvent::Viz { rms_db, peak_db, gain_db, playing } => {
                r.push(SpineTodo::Show(VizFrame { rms_db, peak_db, gain_db, playing }));
            },
        }
        r
    }

    /// What the spine does when a timer ran out. It is told last, of the queue as it is by
    /// that time: behind a [`SpineTodo::Tell`] the queue is handed to
    /// [`Publisher::on_timer`].
    pub fn on_fire(&self, id: TimerId) -> (r: Vec<SpineTodo>)
        ensures
            r@ == seq![SpineTodo::Warm(id), SpineTodo::Identify(id), SpineTodo::Tell(id)],
    {
        let mut r: Vec<SpineTodo> = Vec::new();
        r.push(SpineTodo::Warm(id));
        r.push(SpineTodo::Identify(id));
        r.push(SpineTodo::Tell(id));
        assert(r@ =~= seq![SpineTodo::Warm(id), SpineTodo::Identify(id), SpineTodo::Tell(id)]);
        r
    }
}

// ---------------------------------------------------------------------------
// Laws
// ---------------------------------------------------------------------------

/// The stamp of a post, where it has one.
pub open spec fn stamp(post: Post) -> Option<u64> {
    match post {
        Post::Snapshot => None,
        Post::Observe(ev) => Some(ev.seq),
        Post::Edge(ev) => Some(ev.seq),
    }
}

/// The stamps of the posts are those from behind `a` up to `b`, one by one.
pub open spec fn stamps_run(posts: Seq<Post>, a: u64, b: u64) -> bool
    decreases posts.len(),
{
    if posts.len() == 0 {
        a == b
    } else {
        match stamp(posts.last()) {
            Some(n) => n == b && b > 0 && stamps_run(posts.drop_last(), a, (b - 1) as u64),
            None => stamps_run(posts.drop_last(), a, b),
        }
    }
}

proof fn edge_stamps(p: Publisher, kind: DjEventKind, snap: QueueSnapshot, now: Moment)
    requires
        p.seq < u64::MAX - 1,
    ensures
        stamps_run(edged(p, kind, snap, now).1, p.seq, edged(p, kind, snap, now).0.seq),
{
    let (q, posts) = refreshed(p, snap, now);
    let all = edged(p, kind, snap, now).1;
    assert(all.drop_last() =~= posts);
    reveal_with_fuel(stamps_run, 4);
    if posts.len() == 2 {
        assert(posts.drop_last() =~= seq![Post::Snapshot]);
        assert(posts.drop_last().drop_last() =~= Seq::<Post>::empty());
    } else {
        assert(posts.drop_last() =~= Seq::<Post>::empty());
    }
}

proof fn stamps_run_on(x: Seq<Post>, y: Seq<Post>, a: u64, b: u64, c: u64)
    requires
        stamps_run(x, a, b),
        stamps_run(y, b, c),
    ensures
        stamps_run(x + y, a, c),
    decreases y.len(),
{
    if y.len() == 0 {
        assert(x + y =~= x);
    } else {
        assert((x + y).drop_last() =~= x + y.drop_last());
        assert((x + y).last() == y.last());
        match stamp(y.last()) {
            Some(n) => stamps_run_on(x, y.drop_last(), a, b, (c - 1) as u64),
            None => stamps_run_on(x, y.drop_last(), a, b, c),
        }
    }
}

/// The stamps of the events rise one by one, whatever is published: none is given
/// twice and none is left out.
pub proof fn stamps_rise_one_by_one(
    p: Publisher,
    qid: QueueId,
    some: Option<QueueId>,
    song: Option<SongId>,
    pos: Real,
    id: TimerId,
    snap: QueueSnapshot,
    now: Moment,
)
    requires
        p.wf(),
    ensures
        ({
            let (q, posts) = on_playing_does(p, qid, song, snap, now);
            stamps_run(posts, p.seq, q.seq)
        }),
        ({
            let (q, posts) = on_paused_does(p, some, song, snap, now);
            stamps_run(posts, p.seq, q.seq)
        }),
        ({
            let (q, posts) = on_stopped_does(p, snap, now);
            stamps_run(posts, p.seq, q.seq)
        }),
        ({
            let (q, posts) = on_eof_does(p, some, song, snap, now);
            stamps_run(posts, p.seq, q.seq)
        }),
        ({
            let (q, posts) = on_time_does(p, pos, some, now);
            stamps_run(posts, p.seq, q.seq)
        }),
        ({
            let (q, posts) = edged(p, DjEventKind::WallClock(id), snap, now);
            stamps_run(posts, p.seq, q.seq)
        }),
{
    edge_stamps(p, DjEventKind::WallClock(id), snap, now);
    // Playing.
    let q = Publisher { suppress_next_stopped: false, ..p };
    let t = track_of(snap, qid, song);
    if q.latch == Some(qid) {
        edge_stamps(
            Publisher { last_state: PlayState::Playing, ..q },
            DjEventKind::StateChanged(PlayState::Playing, Some(t)),
            snap,
            now,
        );
    } else {
        match q.latch {
            Some(prev) => {
                let end = DjEventKind::TrackEnd(track_of(snap, prev, None));
                edge_stamps(q, end, snap, now);
                let (mid, ends) = edged(q, end, snap, now);
                let mid2 = Publisher {
                    latch: Some(qid),
                    latched_duration: t.duration,
                    last_state: PlayState::Playing,
                    ..mid
                };
                edge_stamps(mid2, DjEventKind::TrackStart(t), snap, now);
                let (last, starts) = edged(mid2, DjEventKind::TrackStart(t), snap, now);
                stamps_run_on(ends, starts, p.seq, mid.seq, last.seq);
            },
            None => {
                let mid2 = Publisher {
                    latch: Some(qid),
                    latched_duration: t.duration,
                    last_state: PlayState::Playing,
                    ..q
                };
                edge_stamps(mid2, DjEventKind::TrackStart(t), snap, now);
                let (last, starts) = edged(mid2, DjEventKind::TrackStart(t), snap, now);
                assert(Seq::<Post>::empty() + starts =~= starts);
            },
        }
    }
    // Paused.
    let pt = match some {
        Some(x) => Some(track_of(snap, x, song)),
        None => None,
    };
    edge_stamps(
        Publisher { last_state: PlayState::Paused, ..p },
        DjEventKind::StateChanged(PlayState::Paused, pt),
        snap,
        now,
    );
    // Stopped.
    edge_stamps(
        Publisher { latch: None, latched_duration: None, last_state: PlayState::Stopped, ..p },
        DjEventKind::StateChanged(PlayState::Stopped, None),
        snap,
        now,
    );
    // The end of a track.
    if let Some(x) = some {
        edge_stamps(p, DjEventKind::TrackEnd(track_of(snap, x, song)), snap, now);
    }
    // The position.
    let posts = on_time_does(p, pos, some, now).1;
    reveal_with_fuel(stamps_run, 2);
    if posts.len() > 0 {
        assert(posts.drop_last() =~= Seq::<Post>::empty());
    }
}

/// A post is the start of this entry.
pub open spec fn is_start(post: Post, qid: QueueId) -> bool {
    post matches Post::Edge(ev) && ev.kind matches DjEventKind::TrackStart(t) && t.queue_id == qid
}

/// A post is the end of this entry.
pub open spec fn is_end(post: Post, qid: QueueId) -> bool {
    post matches Post::Edge(ev) && ev.kind matches DjEventKind::TrackEnd(t) && t.queue_id == qid
}

/// A resumed track does not start: as long as an entry is latched, the player's word
/// that it plays is the start of nothing.
pub proof fn a_resume_is_no_start(
    p: Publisher,
    qid: QueueId,
    song: Option<SongId>,
    snap: QueueSnapshot,
    now: Moment,
    i: int,
    any: QueueId,
)
    requires
        p.latch == Some(qid),
        0 <= i < on_playing_does(p, qid, song, snap, now).1.len(),
    ensures
        !is_start(on_playing_does(p, qid, song, snap, now).1[i], any),
        !is_end(on_playing_does(p, qid, song, snap, now).1[i], any),
{
}

/// Another entry than the latched one starts, as the last thing that is published, and
/// is latched.
pub proof fn another_entry_starts(
    p: Publisher,
    qid: QueueId,
    song: Option<SongId>,
    snap: QueueSnapshot,
    now: Moment,
)
    requires
        p.latch != Some(qid),
    ensures
        is_start(on_playing_does(p, qid, song, snap, now).1.last(), qid),
        on_playing_does(p, qid, song, snap, now).0.latch == Some(qid),
{
}

/// A track that is replaced ends before the next one starts.
pub proof fn a_replaced_track_ends_first(
    p: Publisher,
    prev: QueueId,
    qid: QueueId,
    song: Option<SongId>,
    snap: QueueSnapshot,
    now: Moment,
) -> (i: int)
    requires
        p.latch == Some(prev),
        prev != qid,
    ensures
        0 <= i < on_playing_does(p, qid, song, snap, now).1.len() - 1,
        is_end(on_playing_does(p, qid, song, snap, now).1[i], prev),
{
    let q = Publisher { suppress_next_stopped: false, ..p };
    let ends = edged(q, DjEventKind::TrackEnd(track_of(snap, prev, None)), snap, now).1;
    let i = ends.len() - 1;
    assert(on_playing_does(p, qid, song, snap, now).1[i] == ends[i]);
    i
}

/// A track that came to its end is published as ended, with its identity, and is no
/// longer latched: the next start has no end before it.
pub proof fn an_end_is_published_before_the_advance(
    p: Publisher,
    qid: QueueId,
    song: Option<SongId>,
    snap: QueueSnapshot,
    now: Moment,
)
    ensures
        is_end(on_eof_does(p, Some(qid), song, snap, now).1.last(), qid),
        on_eof_does(p, Some(qid), song, snap, now).0.latch is None,
{
}

/// Only the stop that comes between an advance and the next start goes unheard: what
/// plays again clears the gap, and one stop is passed over at most.
pub proof fn only_the_gap_goes_unheard(
    p: Publisher,
    qid: QueueId,
    song: Option<SongId>,
    snap: QueueSnapshot,
    now: Moment,
)
    ensures
        !on_playing_does(p, qid, song, snap, now).0.suppress_next_stopped,
        !on_stopped_does(p, snap, now).0.suppress_next_stopped,
        !p.suppress_next_stopped && p.last_state != PlayState::Stopped ==> on_stopped_does(
            p,
            snap,
            now,
        ).1.len() > 0 && (on_stopped_does(p, snap, now).1.last() matches Post::Edge(ev)
            && ev.kind == DjEventKind::StateChanged(PlayState::Stopped, None)),
{
}

/// Where the queue did not get to another entry, the stop is heard.
pub proof fn a_failed_advance_is_a_stop(p: Publisher, finished: QueueId, snap: QueueSnapshot)
    requires
        snap.current matches Some(c) ==> c.queue_id == finished,
    ensures
        advanced(p, Some(finished), snap) == p,
{
}

/// A position of another entry than the one that plays says nothing, and what is left
/// is told just where a length other than none is known.
pub proof fn positions_are_told_by_identity(p: Publisher, pos: Real, qid: Option<QueueId>, now: Moment)
    ensures
        p.latch is None || qid != p.latch ==> on_time_does(p, pos, qid, now) == (
            p,
            Seq::<Post>::empty(),
        ),
        left_of(p.latched_duration, position_of(pos)) is Some <==> (p.latched_duration matches Some(d)
            && d.nanos > 0),
{
}

/// What is left of a track is its length without the position, and nothing where the
/// position lies past the end; a position is what the player told, and none lies before the
/// start.
pub proof fn what_is_left_and_what_is_past_make_the_whole(d: Span, pos: Span, n: i128)
    requires
        d.nanos > 0,
    ensures
        left_of(Some(d), pos) is Some,
        pos.nanos <= d.nanos ==> left_of(Some(d), pos)->0.nanos + pos.nanos == d.nanos,
        pos.nanos > d.nanos ==> left_of(Some(d), pos)->0.nanos == 0,
        0 <= n <= 18_446_744_073_709_551_615_999_999_999
            ==> position_of(Real::Finite(n)).nanos == n,
        n < 0 ==> position_of(Real::Finite(n)).nanos == 0,
        position_of(Real::PosInf).nanos == 0,
        position_of(Real::NegInf).nanos == 0,
        position_of(Real::Nan).nanos == 0,
{
}

/// A track is told with its identity, and as long as it is in the queue with the place, the
/// album and the length that it has there; its song is the one that the player named, or the
/// one in the queue.
pub proof fn a_track_is_told_as_it_is_queued(
    snap: QueueSnapshot,
    qid: QueueId,
    song: Option<SongId>,
    i: int,
)
    requires
        0 <= i < snap.entries@.len(),
        snap.entries@[i].queue_id == qid,
        forall|j: int| 0 <= j < i ==> #[trigger] snap.entries@[j].queue_id != qid,
    ensures
        ({
            let t = track_of(snap, qid, song);
            let e = snap.entries@[i];
            &&& t.queue_id == qid
            &&& t.queue_index == Some(i as usize)
            &&& t.album_id == e.album_id
            &&& t.duration == e.duration
            &&& t.song == if song is None {
                e.song
            } else {
                song
            }
        }),
{
    event::place_is_identity(snap, qid);
}

/// A track that has left the queue is told with its identity and its song alone.
pub proof fn a_track_that_left_is_told_by_identity(
    snap: QueueSnapshot,
    qid: QueueId,
    song: Option<SongId>,
)
    requires
        forall|j: int| 0 <= j < snap.entries@.len() ==> #[trigger] snap.entries@[j].queue_id != qid,
    ensures
        ({
            let t = track_of(snap, qid, song);
            t.queue_id == qid && t.song == song && t.queue_index is None && t.album_id is None
                && t.duration is None
        }),
{
    event::place_is_identity(snap, qid);
}

/// Every edge comes behind the snapshot that it speaks of, and where the queue has changed
/// since the last one, behind a mark that says so; it carries the time, the version of the
/// queue and the entry that plays.
pub proof fn an_edge_comes_with_its_queue(
    p: Publisher,
    kind: DjEventKind,
    snap: QueueSnapshot,
    now: Moment,
)
    requires
        p.wf(),
    ensures
        ({
            let (q, posts) = edged(p, kind, snap, now);
            &&& posts[0] is Snapshot
            &&& posts.last() matches Post::Edge(ev) && ev.kind == kind && ev.now == now
                && ev.playlist_version == snap.playlist_version && ev.cursor == p.latch && ev.seq
                == q.seq
            &&& snap.playlist_version == p.version ==> posts.len() == 2 && q.seq == p.seq + 1
            &&& snap.playlist_version != p.version ==> posts.len() == 3 && q.seq == p.seq + 2
                && (posts[1] matches Post::Observe(ev) && ev.kind is Resync && ev.seq == p.seq + 1)
            &&& q.version == snap.playlist_version
            &&& q.latch == p.latch && q.latched_duration == p.latched_duration
            &&& q.last_state == p.last_state
            &&& q.suppress_next_stopped == p.suppress_next_stopped
        }),
{
}

/// What plays and pauses is told once, as paused, and stays latched; what does not play
/// cannot pause. What plays again is told as playing, and what plays already is not told.
pub proof fn pauses_and_resumes_are_told_once(
    p: Publisher,
    qid: QueueId,
    song: Option<SongId>,
    snap: QueueSnapshot,
    now: Moment,
)
    requires
        p.wf(),
    ensures
        ({
            let (q, posts) = on_paused_does(p, Some(qid), song, snap, now);
            if p.last_state == PlayState::Playing {
                &&& posts.len() > 0
                &&& posts.last() matches Post::Edge(ev) && ev.kind == DjEventKind::StateChanged(
                    PlayState::Paused,
                    Some(track_of(snap, qid, song)),
                )
                &&& q.last_state == PlayState::Paused
                &&& q.latch == p.latch && q.latched_duration == p.latched_duration
            } else {
                posts.len() == 0 && q == p
            }
        }),
        p.latch == Some(qid) ==> ({
            let (q, posts) = on_playing_does(p, qid, song, snap, now);
            &&& q.last_state == PlayState::Playing
            &&& q.latch == p.latch && q.latched_duration == p.latched_duration
            &&& if p.last_state == PlayState::Playing {
                posts.len() == 0
            } else {
                posts.len() > 0 && (posts.last() matches Post::Edge(ev) && ev.kind
                    == DjEventKind::StateChanged(
                    PlayState::Playing,
                    Some(track_of(snap, qid, song)),
                ))
            }
        }),
{
}

/// What starts is latched with the length that it has in the queue; nothing is latched
/// behind an end or a stop, and the stop in the gap leaves everything as it was.
pub proof fn the_latch_follows_what_plays(
    p: Publisher,
    qid: QueueId,
    some: Option<QueueId>,
    song: Option<SongId>,
    snap: QueueSnapshot,
    now: Moment,
)
    requires
        p.wf(),
    ensures
        ({
            let (q, posts) = on_playing_does(p, qid, song, snap, now);
            &&& q.latch == Some(qid)
            &&& q.last_state == PlayState::Playing
            &&& p.latch != Some(qid) ==> q.latched_duration == track_of(snap, qid, song).duration
        }),
        ({
            let (q, posts) = on_eof_does(p, some, song, snap, now);
            &&& q.latch is None && q.latched_duration is None
            &&& q.last_state == p.last_state
            &&& some is None ==> posts.len() == 0
        }),
        ({
            let (q, posts) = on_stopped_does(p, snap, now);
            if p.suppress_next_stopped {
                posts.len() == 0 && q.latch == p.latch && q.last_state == p.last_state
                    && q.latched_duration == p.latched_duration
            } else {
                &&& q.latch is None && q.latched_duration is None
                &&& q.last_state == PlayState::Stopped
                &&& p.last_state == PlayState::Stopped ==> posts.len() == 0
            }
        }),
{
}

/// Where the queue has got to another entry, the next stop is the gap before it; where it
/// has not, nothing changes.
pub proof fn an_advance_makes_a_gap(p: Publisher, finished: Option<QueueId>, snap: QueueSnapshot)
    ensures
        ({
            let q = advanced(p, finished, snap);
            let moved = snap.current matches Some(c) && (finished is None || finished->0
                != c.queue_id);
            &&& moved ==> q.suppress_next_stopped
            &&& !moved ==> q == p
            &&& q.latch == p.latch && q.seq == p.seq && q.version == p.version && q.last_state
                == p.last_state && q.latched_duration == p.latched_duration
        }),
{
}

/// A position of the entry that plays is told to the observers with what is left of the
/// track.
pub proof fn a_position_is_told(p: Publisher, pos: Real, qid: QueueId, now: Moment)
    requires
        p.wf(),
        p.latch == Some(qid),
    ensures
        ({
            let (q, posts) = on_time_does(p, pos, Some(qid), now);
            &&& posts.len() == 1
            &&& posts[0] matches Post::Observe(ev) && ev.now == now && ev.cursor == Some(qid)
                && (ev.kind matches DjEventKind::Tick { time_pos, time_remaining } && time_pos
                == position_of(pos) && time_remaining == left_of(
                p.latched_duration,
                position_of(pos),
            ))
            &&& q.latch == p.latch && q.last_state == p.last_state
        }),
{
}

/// The scrobbler hears every event of the player first; the end of a track is published
/// before the queue advances; the length of a song that plays is looked up; and a station
/// is looked for only where another entry begins.
pub proof fn the_spine_keeps_its_order(
    p: Publisher,
    ev: PlayerEvent,
    snap: QueueSnapshot,
    now: Moment,
    q: Publisher,
    r: Seq<SpineTodo>,
)
    requires
        spine_does(p, ev, snap, now, q, r),
    ensures
        r.len() > 0 && r[0] is Scrobble,
        ev is Eof ==> r.len() == 3 && r[1] is Publish && r[2] is Advance && q.latch is None,
        !(ev is Eof) ==> forall|i: int| 0 <= i < r.len() ==> !((#[trigger] r[i]) is Advance),
        ev matches PlayerEvent::StateChanged(PlayState::Playing, song, qid) ==> {
            &&& song is Some ==> r[1] == SpineTodo::ResolveDuration(song->0)
            &&& qid is Some ==> q.latch == qid
            &&& qid is None ==> q == p
            &&& (exists|i: int| 0 <= i < r.len()
                && (#[trigger] r[i]) is FindStation) <==> (qid is Some
                && p.latch != qid)
        },
        ev matches PlayerEvent::Viz { rms_db, peak_db, gain_db, playing } ==> q == p && r.len()
            == 2 && (r[1] matches SpineTodo::Show(f) && f.rms_db == rms_db && f.peak_db == peak_db
            && f.gain_db == gain_db && f.playing == playing),
{
    if let PlayerEvent::StateChanged(PlayState::Playing, song, qid) = ev {
        if qid is Some && p.latch != qid {
            assert(r[r.len() - 1] is FindStation);
        }
    }
}

} // verus!
