//! What the daemon's answers say: what plays, what is armed, and the queue.

use vstd::prelude::*;

use crate::client::nl;
use crate::number;
use crate::number::Real;
use crate::text;

verus! {

// ---------------------------------------------------------------------------
// What plays
// ---------------------------------------------------------------------------

/// What plays, as far as the daemon says it.
#[derive(Debug)]
pub struct NowPlaying {
    /// `play`, `pause` or `stop`.
    pub state: Option<String>,
    /// The volume. A negative one is not known.
    pub volume: Option<i32>,
    /// How many entries the queue holds.
    pub playlistlength: Option<usize>,
    /// The place of the current entry.
    pub song: Option<usize>,
    /// The length of the current track in seconds.
    pub duration: Option<Real>,
    /// Its title.
    pub title: Option<String>,
    /// Who plays it.
    pub artist: Option<String>,
    /// The album that it is on.
    pub album: Option<String>,
    /// Its uri.
    pub file: Option<String>,
    /// Whether it is a favorite.
    pub starred: bool,
    /// What is armed.
    pub armed: ArmedFeatures,
    /// What the listener is pulled towards.
    pub field: FieldState,
    /// What has just finished or comes next, where nothing plays.
    pub hint: Option<Hint>,
    /// The station that goes on playing behind the queue.
    pub continuation: Option<String>,
}

impl Default for NowPlaying {
    fn default() -> (r: Self)
        ensures
            r.state is None && r.volume is None && r.playlistlength is None && r.song is None,
            r.duration is None && r.title is None && r.artist is None && r.album is None,
            r.file is None && !r.starred && r.hint is None && r.continuation is None,
            r.armed == (ArmedFeatures {
                sleep_remaining: None,
                winddown_active: false,
                winddown_remaining: None,
                wake_remaining: None,
                wake_at: None,
            }),
            r.field.pulls@.len() == 0,
    {
        NowPlaying {
            state: None,
            volume: None,
            playlistlength: None,
            song: None,
            duration: None,
            title: None,
            artist: None,
            album: None,
            file: None,
            starred: false,
            armed: ArmedFeatures::default(),
            field: FieldState::default(),
            hint: None,
            continuation: None,
        }
    }
}

/// What has just finished or comes next.
#[derive(Debug, PartialEq, Eq)]
pub enum Hint {
    /// This has just finished.
    JustFinished(String),
    /// This comes next.
    UpNext(String),
}

impl Hint {
    /// The hint in words.
    pub open spec fn words(self) -> Seq<char> {
        match self {
            Hint::JustFinished(t) => "just finished "@ + t@,
            Hint::UpNext(t) => "up next "@ + t@,
        }
    }

    /// The hint in words.
    pub fn phrase(&self) -> (r: String)
        ensures
            r@ == self.words(),
    {
        match self {
            Hint::JustFinished(t) => {
                let mut s = "just finished ".to_owned();
                s.append(t.as_str());
                s
            },
            Hint::UpNext(t) => {
                let mut s = "up next ".to_owned();
                s.append(t.as_str());
                s
            },
        }
    }
}

/// One pull.
#[derive(Clone, Debug, PartialEq, Eq)]
pub struct FieldPull {
    /// What was asked for.
    pub label: String,
    /// Its strength in hundredths.
    pub strength: u8,
    /// How many minutes ago it was set.
    pub age_mins: u64,
}

impl Default for FieldPull {
    fn default() -> (r: Self)
        ensures
            r.label@ == Seq::<char>::empty(),
            r.strength == 0,
            r.age_mins == 0,
    {
        FieldPull { label: String::new(), strength: 0, age_mins: 0 }
    }
}

/// What the listener is pulled towards.
#[derive(Clone, Debug, PartialEq, Eq)]
pub struct FieldState {
    /// The pulls, the one last meant at the end.
    pub pulls: Vec<FieldPull>,
}

impl Default for FieldState {
    fn default() -> (r: Self)
        ensures
            r.pulls@.len() == 0,
    {
        FieldState { pulls: Vec::new() }
    }
}

/// What is armed.
#[derive(Clone, Copy, Debug, PartialEq, Eq)]
pub struct ArmedFeatures {
    /// Seconds until the fade to sleep.
    pub sleep_remaining: Option<u64>,
    /// Whether a wind-down is armed.
    pub winddown_active: bool,
    /// Seconds until the wind-down, where it has not begun.
    pub winddown_remaining: Option<u64>,
    /// Seconds until the alarm.
    pub wake_remaining: Option<u64>,
    /// When the alarm is, in seconds from the epoch.
    pub wake_at: Option<u64>,
}

impl Default for ArmedFeatures {
    fn default() -> (r: Self)
        ensures
            r == (ArmedFeatures {
                sleep_remaining: None,
                winddown_active: false,
                winddown_remaining: None,
                wake_remaining: None,
                wake_at: None,
            }),
    {
        ArmedFeatures {
            sleep_remaining: None,
            winddown_active: false,
            winddown_remaining: None,
            wake_remaining: None,
            wake_at: None,
        }
    }
}

/// The number in the first pair with this key, where it is at most `max`.
pub open spec fn number_of(pairs: Seq<(String, String)>, key: Seq<char>, max: nat) -> Option<nat> {
    match nl::value_of(pairs, key) {
        Some(v) => number::unsigned_of(v, max),
        None => None,
    }
}

/// A number that a pair gave is this one.
pub open spec fn reads_u64(r: Option<u64>, n: Option<nat>) -> bool {
    match r {
        Some(x) => n == Some(x as nat),
        None => n is None,
    }
}

fn find_u64(pairs: &[(String, String)], key: &str) -> (r: Option<u64>)
    ensures
        reads_u64(r, number_of(pairs@, key@, u64::MAX as nat)),
{
    match nl::find(pairs, key) {
        Some(v) => number::parse_u64(v.as_str()),
        None => None,
    }
}

fn find_usize(pairs: &[(String, String)], key: &str) -> (r: Option<usize>)
    ensures
        match r {
            Some(x) => number_of(pairs@, key@, usize::MAX as nat) == Some(x as nat),
            None => number_of(pairs@, key@, usize::MAX as nat) is None,
        },
{
    match nl::find(pairs, key) {
        Some(v) => number::parse_usize(v.as_str()),
        None => None,
    }
}

impl ArmedFeatures {
    /// Whether anything is armed.
    pub fn any(&self) -> (r: bool)
        ensures
            r == (self.sleep_remaining is Some || self.winddown_active || self.wake_remaining is Some),
    {
        self.sleep_remaining.is_some() || self.winddown_active || self.wake_remaining.is_some()
    }

    /// These pairs say that this is armed.
    pub open spec fn said_by(self, status: Seq<(String, String)>) -> bool {
        let max = u64::MAX as nat;
        &&& reads_u64(self.sleep_remaining, number_of(status, "X-hypodj-sleep-remaining"@, max))
        &&& self.winddown_active == (nl::value_of(status, "X-hypodj-winddown-active"@) is Some)
        &&& reads_u64(
            self.winddown_remaining,
            number_of(status, "X-hypodj-winddown-remaining"@, max),
        )
        &&& reads_u64(self.wake_remaining, number_of(status, "X-hypodj-wake-remaining"@, max))
        &&& reads_u64(self.wake_at, number_of(status, "X-hypodj-wake-at"@, max))
    }

    fn parse(status: &[(String, String)]) -> (r: Self)
        ensures
            r.said_by(status@),
    {
        ArmedFeatures {
            sleep_remaining: find_u64(status, "X-hypodj-sleep-remaining"),
            winddown_active: nl::find(status, "X-hypodj-winddown-active").is_some(),
            winddown_remaining: find_u64(status, "X-hypodj-winddown-remaining"),
            wake_remaining: find_u64(status, "X-hypodj-wake-remaining"),
            wake_at: find_u64(status, "X-hypodj-wake-at"),
        }
    }
}

/// The key of a part of the pull at place `i`.
pub open spec fn pull_key(i: nat, part: Seq<char>) -> Seq<char> {
    "X-hypodj-field-"@ + number::dec(i) + part
}

/// A pull as the pairs say it.
#[verifier::ext_equal]
pub struct SaidPull {
    /// What was asked for.
    pub label: Seq<char>,
    /// Its strength in hundredths.
    pub strength: nat,
    /// How many minutes ago it was set.
    pub age_mins: nat,
}

/// The pull at place `i`, where all of its parts are said.
pub open spec fn pull_at(status: Seq<(String, String)>, i: nat) -> Option<SaidPull> {
    match (
        nl::value_of(status, pull_key(i, "-label"@)),
        number_of(status, pull_key(i, "-strength"@), u8::MAX as nat),
        number_of(status, pull_key(i, "-age"@), u64::MAX as nat),
    ) {
        (Some(label), Some(strength), Some(age_mins)) => Some(
            SaidPull { label, strength, age_mins },
        ),
        _ => None,
    }
}

/// The first `n` pulls. One of which a part is missing is passed over.
pub open spec fn pulls_of(status: Seq<(String, String)>, n: nat) -> Seq<SaidPull>
    decreases n,
{
    if n == 0 {
        Seq::empty()
    } else {
        let before = pulls_of(status, (n - 1) as nat);
        match pull_at(status, (n - 1) as nat) {
            Some(p) => before.push(p),
            None => before,
        }
    }
}

/// How many pulls the pairs say there are.
pub open spec fn pull_count(status: Seq<(String, String)>) -> nat {
    match number_of(status, "X-hypodj-field-count"@, usize::MAX as nat) {
        Some(n) => n,
        None => 0,
    }
}

/// Pulls as they are said.
pub open spec fn said_pulls(pulls: Seq<FieldPull>) -> Seq<SaidPull> {
    Seq::new(
        pulls.len(),
        |i: int|
            SaidPull {
                label: pulls[i].label@,
                strength: pulls[i].strength as nat,
                age_mins: pulls[i].age_mins as nat,
            },
    )
}

fn key_of(i: usize, part: &str) -> (r: String)
    ensures
        r@ == pull_key(i as nat, part@),
{
    let mut s = "X-hypodj-field-".to_owned();
    s.append(number::dec_usize(i).as_str());
    s.append(part);
    s
}

fn read_pull(status: &[(String, String)], i: usize) -> (r: Option<FieldPull>)
    ensures
        match r {
            Some(p) => pull_at(status@, i as nat) == Some(
                SaidPull {
                    label: p.label@,
                    strength: p.strength as nat,
                    age_mins: p.age_mins as nat,
                },
            ),
            None => pull_at(status@, i as nat) is None,
        },
{
    let label = match nl::find(status, key_of(i, "-label").as_str()) {
        Some(l) => l,
        None => return None,
    };
    let strength: u8 = match nl::find(status, key_of(i, "-strength").as_str()) {
        Some(v) => match number::parse_u8(v.as_str()) {
            Some(s) => s,
            None => return None,
        },
        None => return None,
    };
    let age_mins: u64 = match find_u64(status, key_of(i, "-age").as_str()) {
        Some(a) => a,
        None => return None,
    };
    Some(FieldPull { label, strength, age_mins })
}

impl FieldState {
    /// Whether there is a pull.
    pub fn active(&self) -> (r: bool)
        ensures
            r == (self.pulls@.len() > 0),
    {
        self.pulls.len() > 0
    }

    fn parse(status: &[(String, String)]) -> (r: Self)
        ensures
            said_pulls(r.pulls@) == pulls_of(status@, pull_count(status@)),
    {
        let count: usize = match find_usize(status, "X-hypodj-field-count") {
            Some(n) => n,
            None => 0,
        };
        let mut pulls: Vec<FieldPull> = Vec::new();
        let mut i: usize = 0;
        assert(said_pulls(pulls@) =~= Seq::<SaidPull>::empty());
        while i < count
            invariant
                i <= count,
                said_pulls(pulls@) == pulls_of(status@, i as nat),
            decreases count - i,
        {
            let ghost before = pulls@;
            if let Some(p) = read_pull(status, i) {
                pulls.push(p);
                assert(said_pulls(pulls@) =~= said_pulls(before).push(
                    SaidPull {
                        label: p.label@,
                        strength: p.strength as nat,
                        age_mins: p.age_mins as nat,
                    },
                ));
            }
            i += 1;
        }
        FieldState { pulls }
    }
}

/// The hint that the pairs give.
pub open spec fn hint_of(status: Seq<(String, String)>) -> Option<Seq<char>> {
    match (
        nl::value_of(status, "X-hypodj-hint-kind"@),
        nl::value_of(status, "X-hypodj-hint-title"@),
    ) {
        (Some(kind), Some(title)) => if kind == "just-finished"@ {
            Some("just finished "@ + title)
        } else if kind == "up-next"@ {
            Some("up next "@ + title)
        } else {
            None
        },
        _ => None,
    }
}

fn read_hint(status: &[(String, String)]) -> (r: Option<Hint>)
    ensures
        match r {
            Some(h) => hint_of(status@) == Some(h.words()),
            None => hint_of(status@) is None,
        },
{
    let kind = match nl::find(status, "X-hypodj-hint-kind") {
        Some(k) => k,
        None => return None,
    };
    let title = match nl::find(status, "X-hypodj-hint-title") {
        Some(t) => t,
        None => return None,
    };
    if text::same(kind.as_str(), "just-finished") {
        Some(Hint::JustFinished(title))
    } else if text::same(kind.as_str(), "up-next") {
        Some(Hint::UpNext(title))
    } else {
        None
    }
}

/// The station that goes on playing behind the queue, where that is switched on.
pub open spec fn station_of(status: Seq<(String, String)>) -> Option<Seq<char>> {
    if nl::value_of(status, "X-hypodj-continuation"@) == Some("on"@) {
        nl::value_of(status, "X-hypodj-continuation-station"@)
    } else {
        None
    }
}

fn read_station(status: &[(String, String)]) -> (r: Option<String>)
    ensures
        text::opt(r) == station_of(status@),
{
    match nl::find(status, "X-hypodj-continuation") {
        Some(v) => if text::same(v.as_str(), "on") {
            nl::find(status, "X-hypodj-continuation-station")
        } else {
            None
        },
        None => None,
    }
}

/// What the answers to `status` and `currentsong` say.
pub open spec fn says(
    np: NowPlaying,
    status: Seq<(String, String)>,
    current: Seq<(String, String)>,
) -> bool {
    &&& text::opt(np.state) == nl::value_of(status, "state"@)
    &&& match nl::value_of(status, "volume"@) {
        Some(v) => match np.volume {
            Some(n) => number::signed_of(v, i32::MAX as nat) == Some(n as int),
            None => number::signed_of(v, i32::MAX as nat) is None,
        },
        None => np.volume is None,
    }
    &&& match np.playlistlength {
        Some(n) => number_of(status, "playlistlength"@, usize::MAX as nat) == Some(n as nat),
        None => number_of(status, "playlistlength"@, usize::MAX as nat) is None,
    }
    &&& match np.song {
        Some(n) => number_of(status, "song"@, usize::MAX as nat) == Some(n as nat),
        None => number_of(status, "song"@, usize::MAX as nat) is None,
    }
    &&& np.duration == (match nl::value_of(status, "duration"@) {
        Some(v) => number::real_of(v),
        None => None,
    })
    &&& text::opt(np.title) == nl::value_of(current, "Title"@)
    &&& text::opt(np.artist) == nl::value_of(current, "Artist"@)
    &&& text::opt(np.album) == nl::value_of(current, "Album"@)
    &&& text::opt(np.file) == nl::value_of(current, "file"@)
    &&& np.starred == (nl::value_of(current, "X-Starred"@) is Some)
    &&& np.armed.said_by(status)
    &&& said_pulls(np.field.pulls@) == pulls_of(status, pull_count(status))
    &&& match np.hint {
        Some(h) => hint_of(status) == Some(h.words()),
        None => hint_of(status) is None,
    }
    &&& text::opt(np.continuation) == station_of(status)
}

/// What plays, from the answers to `status` and `currentsong`.
pub fn now_playing(status: &[(String, String)], current: &[(String, String)]) -> (r: NowPlaying)
    ensures
        says(r, status@, current@),
{
    NowPlaying {
        state: nl::find(status, "state"),
        volume: match nl::find(status, "volume") {
            Some(v) => number::parse_i32(v.as_str()),
            None => None,
        },
        playlistlength: find_usize(status, "playlistlength"),
        song: find_usize(status, "song"),
        duration: match nl::find(status, "duration") {
            Some(v) => number::parse_real(v.as_str()),
            None => None,
        },
        title: nl::find(current, "Title"),
        artist: nl::find(current, "Artist"),
        album: nl::find(current, "Album"),
        file: nl::find(current, "file"),
        starred: nl::find(current, "X-Starred").is_some(),
        armed: ArmedFeatures::parse(status),
        field: FieldState::parse(status),
        hint: read_hint(status),
        continuation: read_station(status),
    }
}

/// Seconds in words: hours and minutes, or minutes, or seconds.
pub open spec fn remaining_text(secs: nat) -> Seq<char> {
    let h = secs / 3600;
    let m = (secs % 3600) / 60;
    if h > 0 {
        number::dec(h) + "h "@ + number::dec2(m) + "m"@
    } else if m > 0 {
        number::dec(m) + "m"@
    } else {
        number::dec(secs % 60) + "s"@
    }
}

/// Seconds in words.
pub fn fmt_remaining(secs: u64) -> (r: String)
    ensures
        r@ == remaining_text(secs as nat),
{
    let h: u64 = secs / 3600;
    let m: u64 = (secs % 3600) / 60;
    if h > 0 {
        let mut s = number::dec_u64(h);
        s.append("h ");
        s.append(number::dec2_u64(m).as_str());
        s.append("m");
        s
    } else if m > 0 {
        let mut s = number::dec_u64(m);
        s.append("m");
        s
    } else {
        let mut s = number::dec_u64(secs % 60);
        s.append("s");
        s
    }
}

// ---------------------------------------------------------------------------
// The queue
// ---------------------------------------------------------------------------

/// One entry of the queue.
#[derive(Clone, Debug, PartialEq, Eq)]
pub struct QueueItem {
    /// Its place.
    pub pos: usize,
    /// Its title.
    pub title: String,
    /// Who plays it.
    pub artist: Option<String>,
    /// Its uri.
    pub uri: Option<String>,
    /// The uri of its album.
    pub album_uri: Option<String>,
}

/// The blocks of pairs: each begins at a `file`. What stands before the first is in
/// none.
pub open spec fn blocks(pairs: Seq<(String, String)>) -> Seq<Seq<(String, String)>>
    decreases pairs.len(),
{
    if pairs.len() == 0 {
        Seq::empty()
    } else {
        let before = blocks(pairs.drop_last());
        let p = pairs.last();
        if p.0@ == "file"@ {
            before.push(seq![p])
        } else if before.len() > 0 {
            before.drop_last().push(before.last().push(p))
        } else {
            before
        }
    }
}

/// The views of blocks.
pub open spec fn block_views(v: Seq<Vec<(String, String)>>) -> Seq<Seq<(String, String)>> {
    Seq::new(v.len(), |i: int| v[i]@)
}

fn copy_pair(p: &(String, String)) -> (r: (String, String))
    ensures
        r == *p,
{
    (p.0.clone(), p.1.clone())
}

fn group_blocks(pairs: &[(String, String)]) -> (r: Vec<Vec<(String, String)>>)
    ensures
        block_views(r@) == blocks(pairs@),
{
    let mut r: Vec<Vec<(String, String)>> = Vec::new();
    let mut i: usize = 0;
    proof {
        assert(pairs@.take(0) =~= Seq::<(String, String)>::empty());
        assert(block_views(r@) =~= Seq::<Seq<(String, String)>>::empty());
    }
    while i < pairs.len()
        invariant
            i <= pairs@.len(),
            block_views(r@) == blocks(pairs@.take(i as int)),
        decreases pairs@.len() - i,
    {
        let ghost before = r@;
        assert(pairs@.take(i + 1).drop_last() =~= pairs@.take(i as int));
        assert(pairs@.take(i + 1).last() == pairs@[i as int]);
        assert(block_views(before).len() == before.len());
        let p = copy_pair(&pairs[i]);
        if text::same(p.0.as_str(), "file") {
            let mut b: Vec<(String, String)> = Vec::new();
            b.push(p);
            r.push(b);
            assert(b@ =~= seq![pairs@[i as int]]);
            assert(block_views(r@) =~= block_views(before).push(seq![pairs@[i as int]]));
        } else {
            let n: usize = r.len();
            if n > 0 {
                let mut b = r.remove(n - 1);
                assert(b == before[n - 1]);
                b.push(p);
                r.push(b);
                assert(block_views(r@) =~= block_views(before).drop_last().push(
                    block_views(before).last().push(pairs@[i as int]),
                ));
            }
        }
        i += 1;
    }
    assert(pairs@.take(i as int) =~= pairs@);
    r
}

/// An entry of the queue as the block at place `i` says it.
pub open spec fn item_of(it: QueueItem, b: Seq<(String, String)>, i: int) -> bool {
    &&& it.pos == (match number_of(b, "Pos"@, usize::MAX as nat) {
        Some(n) => n as int,
        None => i,
    })
    &&& it.title@ == (match nl::value_of(b, "Title"@) {
        Some(t) => t,
        None => "(unknown)"@,
    })
    &&& text::opt(it.artist) == nl::value_of(b, "Artist"@)
    &&& text::opt(it.uri) == nl::value_of(b, "file"@)
    &&& text::opt(it.album_uri) == nl::value_of(b, "X-AlbumUri"@)
}

/// The queue, from the answer to `playlistinfo`.
pub fn parse_queue(pairs: &[(String, String)]) -> (r: Vec<QueueItem>)
    ensures
        r@.len() == blocks(pairs@).len(),
        forall|i: int| 0 <= i < r@.len() ==> item_of(#[trigger] r@[i], blocks(pairs@)[i], i),
{
    let bs = group_blocks(pairs);
    let ghost all = blocks(pairs@);
    let mut r: Vec<QueueItem> = Vec::new();
    let mut i: usize = 0;
    assert(block_views(bs@).len() == bs@.len());
    while i < bs.len()
        invariant
            i <= bs@.len() == all.len(),
            r@.len() == i,
            all == block_views(bs@),
            forall|k: int| 0 <= k < r@.len() ==> item_of(#[trigger] r@[k], all[k], k),
        decreases bs@.len() - i,
    {
        let b = bs[i].as_slice();
        assert(b@ == all[i as int]);
        let pos: usize = match find_usize(b, "Pos") {
            Some(n) => n,
            None => i,
        };
        let title = match nl::find(b, "Title") {
            Some(t) => t,
            None => "(unknown)".to_owned(),
        };
        let it = QueueItem {
            pos,
            title,
            artist: nl::find(b, "Artist"),
            uri: nl::find(b, "file"),
            album_uri: nl::find(b, "X-AlbumUri"),
        };
        assert(item_of(it, all[i as int], i as int));
        r.push(it);
        i += 1;
    }
    r
}

// ---------------------------------------------------------------------------
// Laws
// ---------------------------------------------------------------------------

/// How many of the pairs begin an entry.
pub open spec fn files_in(pairs: Seq<(String, String)>) -> nat
    decreases pairs.len(),
{
    if pairs.len() == 0 {
        0
    } else {
        files_in(pairs.drop_last()) + if pairs.last().0@ == "file"@ {
            1nat
        } else {
            0
        }
    }
}

/// There is one entry for each `file`, and each has its uri.
pub proof fn every_file_is_an_entry(pairs: Seq<(String, String)>)
    ensures
        blocks(pairs).len() == files_in(pairs),
        forall|i: int|
            0 <= i < blocks(pairs).len() ==> nl::value_of(#[trigger] blocks(pairs)[i], "file"@)
                is Some,
    decreases pairs.len(),
{
    if pairs.len() > 0 {
        let before = blocks(pairs.drop_last());
        every_file_is_an_entry(pairs.drop_last());
        let all = blocks(pairs);
        let p = pairs.last();
        assert forall|i: int| 0 <= i < all.len() implies nl::value_of(
            #[trigger] all[i],
            "file"@,
        ) is Some by {
            if i < before.len() - 1 || (i < before.len() && p.0@ == "file"@) {
                assert(all[i] == before[i]);
            } else if p.0@ != "file"@ {
                assert(all[i] == before.last().push(p));
                value_stays(before.last(), p, "file"@, 0);
            }
        }
    }
}

proof fn value_stays(s: Seq<(String, String)>, p: (String, String), key: Seq<char>, i: int)
    requires
        0 <= i,
        nl::value_from(s, key, i) is Some,
    ensures
        nl::value_from(s.push(p), key, i) == nl::value_from(s, key, i),
    decreases s.len() - i,
{
    assert(s.push(p)[i] == s[i]);
    if s[i].0@ != key {
        value_stays(s, p, key, i + 1);
    }
}

/// What is left is told in hours and minutes from an hour on, in minutes from a minute on,
/// and else in seconds.
pub proof fn what_is_left_is_told_in_its_unit(h: nat, m: nat, s: nat)
    requires
        m < 60,
        s < 60,
    ensures
        h > 0 ==> remaining_text(3600 * h + 60 * m + s) == number::dec(h) + "h "@ + number::dec2(m)
            + "m"@,
        m > 0 ==> remaining_text(60 * m + s) == number::dec(m) + "m"@,
        remaining_text(s) == number::dec(s) + "s"@,
{
    let a = 3600 * h + 60 * m + s;
    assert(a / 3600 == h && (a % 3600) / 60 == m);
    let b = 60 * m + s;
    assert(b / 3600 == 0 && (b % 3600) / 60 == m);
}

/// What plays is what the daemon says under each key: the state, the volume, the place in
/// the queue, the length, the names of the track, and whether it is a favorite.
pub proof fn what_plays_is_what_is_said(
    np: NowPlaying,
    status: Seq<(String, String)>,
    current: Seq<(String, String)>,
    n: usize,
    v: i32,
)
    requires
        says(np, status, current),
    ensures
        text::opt(np.state) == nl::value_of(status, "state"@),
        nl::value_of(status, "volume"@) == Some(number::dec_int(v as int)) ==> np.volume == Some(v),
        nl::value_of(status, "song"@) == Some(number::dec(n as nat)) ==> np.song == Some(n),
        nl::value_of(status, "playlistlength"@) == Some(number::dec(n as nat))
            ==> np.playlistlength == Some(n),
        text::opt(np.title) == nl::value_of(current, "Title"@),
        text::opt(np.artist) == nl::value_of(current, "Artist"@),
        text::opt(np.album) == nl::value_of(current, "Album"@),
        text::opt(np.file) == nl::value_of(current, "file"@),
        np.starred <==> nl::value_of(current, "X-Starred"@) is Some,
{
    number::dec_is_unsigned(n as nat, usize::MAX as nat);
    number::dec_int_is_signed(v as int, i32::MAX as nat);
}

/// What is armed is what the daemon says under each key, in seconds.
pub proof fn what_is_armed_is_what_is_said(
    a: ArmedFeatures,
    status: Seq<(String, String)>,
    n: u64,
)
    requires
        a.said_by(status),
    ensures
        nl::value_of(status, "X-hypodj-sleep-remaining"@) == Some(number::dec(n as nat))
            ==> a.sleep_remaining == Some(n),
        nl::value_of(status, "X-hypodj-winddown-remaining"@) == Some(number::dec(n as nat))
            ==> a.winddown_remaining == Some(n),
        nl::value_of(status, "X-hypodj-wake-remaining"@) == Some(number::dec(n as nat))
            ==> a.wake_remaining == Some(n),
        nl::value_of(status, "X-hypodj-wake-at"@) == Some(number::dec(n as nat)) ==> a.wake_at
            == Some(n),
        a.winddown_active <==> nl::value_of(status, "X-hypodj-winddown-active"@) is Some,
        nl::value_of(status, "X-hypodj-sleep-remaining"@) is None ==> a.sleep_remaining is None,
        nl::value_of(status, "X-hypodj-wake-remaining"@) is None ==> a.wake_remaining is None,
{
    number::dec_is_unsigned(n as nat, u64::MAX as nat);
}

/// A hint tells what has just finished or what comes next, as the daemon says; the station
/// behind the queue is told only where it is switched on.
pub proof fn hints_and_stations_are_as_said(status: Seq<(String, String)>, t: Seq<char>)
    ensures
        nl::value_of(status, "X-hypodj-hint-title"@) == Some(t) ==> {
            &&& nl::value_of(status, "X-hypodj-hint-kind"@) == Some("just-finished"@) ==> hint_of(
                status,
            ) == Some("just finished "@ + t)
            &&& nl::value_of(status, "X-hypodj-hint-kind"@) == Some("up-next"@) ==> hint_of(status)
                == Some("up next "@ + t)
        },
        nl::value_of(status, "X-hypodj-continuation-station"@) == Some(t) ==> {
            &&& nl::value_of(status, "X-hypodj-continuation"@) == Some("on"@) ==> station_of(status)
                == Some(t)
            &&& nl::value_of(status, "X-hypodj-continuation"@) is None
                ==> station_of(status) is None
        },
{
    reveal_strlit("just-finished");
    reveal_strlit("up-next");
    assert("just-finished"@.len() == 13 && "up-next"@.len() == 7);
}

/// Pulls are told in order, each with its label, its strength and its age; one of which a
/// part is missing is passed over.
pub proof fn pulls_are_told_in_order(
    status: Seq<(String, String)>,
    i: nat,
    label: Seq<char>,
    strength: u8,
    age: u64,
)
    ensures
        nl::value_of(status, "X-hypodj-field-"@ + number::dec(i) + "-label"@) == Some(label)
            && nl::value_of(status, "X-hypodj-field-"@ + number::dec(i) + "-strength"@) == Some(
            number::dec(strength as nat),
        ) && nl::value_of(status, "X-hypodj-field-"@ + number::dec(i) + "-age"@) == Some(
            number::dec(age as nat),
        ) ==> pulls_of(status, i + 1) == pulls_of(status, i).push(
            SaidPull { label, strength: strength as nat, age_mins: age as nat },
        ),
        nl::value_of(status, "X-hypodj-field-"@ + number::dec(i) + "-label"@) is None ==> pulls_of(
            status,
            i + 1,
        ) == pulls_of(status, i),
        pulls_of(status, 0).len() == 0,
{
    number::dec_is_unsigned(strength as nat, u8::MAX as nat);
    number::dec_is_unsigned(age as nat, u64::MAX as nat);
}

/// The entries of the queue are the blocks from one `file` to the next: what follows a
/// `file` belongs to it, and nothing is moved between entries.
pub proof fn a_file_begins_an_entry(
    before: Seq<(String, String)>,
    file: (String, String),
    rest: Seq<(String, String)>,
)
    requires
        file.0@ == "file"@,
        forall|i: int| 0 <= i < rest.len() ==> (#[trigger] rest[i]).0@ != "file"@,
    ensures
        blocks(before.push(file) + rest) == blocks(before).push(seq![file] + rest),
    decreases rest.len(),
{
    let all = before.push(file) + rest;
    if rest.len() == 0 {
        assert(all =~= before.push(file));
        assert(all.drop_last() =~= before);
        assert(seq![file] + rest =~= seq![file]);
    } else {
        let less = rest.drop_last();
        a_file_begins_an_entry(before, file, less);
        assert(all.drop_last() =~= before.push(file) + less);
        assert(all.last() == rest.last());
        let b = blocks(before).push(seq![file] + less);
        assert(b.drop_last() =~= blocks(before));
        assert((seq![file] + less).push(rest.last()) =~= seq![file] + rest);
    }
}

/// An entry tells its place, its title, its artist and its uris as the daemon says them,
/// and stands where it came where no place is said.
pub proof fn an_entry_is_as_said(it: QueueItem, b: Seq<(String, String)>, i: int, n: usize)
    requires
        item_of(it, b, i),
    ensures
        nl::value_of(b, "Pos"@) == Some(number::dec(n as nat)) ==> it.pos == n,
        nl::value_of(b, "Pos"@) is None ==> it.pos == i,
        nl::value_of(b, "Title"@) matches Some(t) ==> it.title@ == t,
        nl::value_of(b, "Title"@) is None ==> it.title@ == "(unknown)"@,
        text::opt(it.artist) == nl::value_of(b, "Artist"@),
        text::opt(it.uri) == nl::value_of(b, "file"@),
        text::opt(it.album_uri) == nl::value_of(b, "X-AlbumUri"@),
{
    number::dec_is_unsigned(n as nat, usize::MAX as nat);
}

} // verus!
