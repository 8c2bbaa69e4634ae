//! What a track feels like, guessed from its genre and year, and what the listener is
//! pulled towards.
//!
//! Scores and strengths are in billionths. How far a strength has decayed by now is
//! handed in: each function that needs it takes the strengths of the pulls as they are
//! now, in their order.

use vstd::prelude::*;

use crate::event::Moment;
use crate::model::Song;
use crate::number;
use crate::number::{Real, Span};
use crate::text;

verus! {

/// One, in billionths.
pub const WHOLE: u64 = 1_000_000_000;

/// The score of a calm genre.
pub const CALM: i64 = 200_000_000;

/// The score of a genre in between.
pub const MID: i64 = 500_000_000;

/// The score of an energetic genre.
pub const ENERGETIC: i64 = 850_000_000;

/// The score of a genre that is not known.
pub const NEUTRAL: i64 = 500_000_000;

/// What a track feels like.
#[derive(Clone, Debug, PartialEq, Eq)]
pub struct TrackFeatures {
    /// How driving it is, from 0 to 1.
    pub energy: i64,
    /// How bright it is, from 0 to 1.
    pub valence: i64,
    /// Where it stands among other tracks, where that was computed.
    pub embedding: Option<Vec<Real>>,
}

/// Something that knows what tracks feel like.
pub trait FeatureStore {
    /// What a track feels like, where this store knows it.
    fn features(&self, song: &Song) -> Option<TrackFeatures>;
}

/// The store that goes by what is written in the track.
#[derive(Clone, Copy, Debug)]
pub struct MetadataStore;

impl FeatureStore for MetadataStore {
    fn features(&self, song: &Song) -> (r: Option<TrackFeatures>)
        ensures
            r is Some,
            r->0.energy == energy_of(*song),
            r->0.valence == valence_of(*song),
            r->0.embedding is None,
    {
        Some(
            TrackFeatures {
                energy: energy_score(song),
                valence: valence_score(song),
                embedding: None,
            },
        )
    }
}

// ---------------------------------------------------------------------------
// Scores
// ---------------------------------------------------------------------------

/// The words of calm genres.
pub open spec fn calm_words() -> Seq<Seq<char>> {
    seq![
        "ambient"@,
        "classical"@,
        "jazz"@,
        "acoustic"@,
        "folk"@,
        "blues"@,
        "chill"@,
        "downtempo"@,
        "singer-songwriter"@,
        "piano"@,
        "lo-fi"@,
        "lofi"@,
    ]
}

/// The words of genres in between.
pub open spec fn mid_words() -> Seq<Seq<char>> {
    seq![
        "pop"@,
        "rock"@,
        "indie"@,
        "soul"@,
        "r&b"@,
        "rnb"@,
        "country"@,
        "hip hop"@,
        "hip-hop"@,
        "hiphop"@,
        "rap"@,
        "funk"@,
        "reggae"@,
    ]
}

/// The words of energetic genres.
pub open spec fn energetic_words() -> Seq<Seq<char>> {
    seq![
        "metal"@,
        "punk"@,
        "techno"@,
        "house"@,
        "edm"@,
        "dance"@,
        "drum and bass"@,
        "dnb"@,
        "trance"@,
        "hardcore"@,
        "breakcore"@,
        "electro"@,
    ]
}

/// The words of bright genres.
pub open spec fn bright_words() -> Seq<Seq<char>> {
    seq!["pop"@, "funk"@, "disco"@, "reggae"@, "soul"@, "house"@, "dance"@]
}

/// The words of dark genres.
pub open spec fn dark_words() -> Seq<Seq<char>> {
    seq!["metal"@, "doom"@, "goth"@, "industrial"@, "darkwave"@, "blues"@]
}

/// The genre in lower case, where it is more than white space.
pub open spec fn genre_of(song: Song) -> Option<Seq<char>> {
    match song.genre {
        Some(g) => if text::trimmed(g@).len() == 0 {
            None
        } else {
            Some(text::lower(g@))
        },
        None => None,
    }
}

fn read_genre(song: &Song) -> (r: Option<String>)
    ensures
        text::opt(r) == genre_of(*song),
{
    match &song.genre {
        Some(g) => {
            let t = text::trim(g.as_str());
            let n: usize = text::chars(t.as_str()).len();
            if n == 0 {
                None
            } else {
                Some(text::to_lower(g.as_str()))
            }
        },
        None => None,
    }
}

/// The score of a genre: the loudest that its words name.
pub open spec fn bucket(genre: Option<Seq<char>>) -> int {
    match genre {
        Some(g) => if text::has_any(g, energetic_words()) {
            ENERGETIC as int
        } else if text::has_any(g, mid_words()) {
            MID as int
        } else if text::has_any(g, calm_words()) {
            CALM as int
        } else {
            NEUTRAL as int
        },
        None => NEUTRAL as int,
    }
}

/// What the year adds: from three hundredths less before 1970 to three hundredths more
/// from 2010 on.
pub open spec fn year_part(year: Option<u32>) -> int {
    match year {
        Some(y) => number::clamped(y - 1970, 0, 40) * 1_500_000 - 30_000_000,
        None => 0,
    }
}

/// How driving a track is: the score of its genre, and a little for its year.
pub open spec fn energy_of(song: Song) -> int {
    bucket(genre_of(song)) + year_part(song.year)
}

fn year_tiebreak(year: Option<u32>) -> (r: i64)
    ensures
        r == year_part(year),
        -30_000_000 <= r <= 30_000_000,
{
    match year {
        Some(y) => {
            let k: i64 = if y < 1970 {
                0
            } else if y > 2010 {
                40
            } else {
                y as i64 - 1970
            };
            k * 1_500_000 - 30_000_000
        },
        None => 0,
    }
}

/// How driving a track is.
pub fn energy_score(song: &Song) -> (r: i64)
    ensures
        r == energy_of(*song),
{
    let base: i64 = match read_genre(song) {
        Some(g) => {
            let energetic = vec![
                "metal",
                "punk",
                "techno",
                "house",
                "edm",
                "dance",
                "drum and bass",
                "dnb",
                "trance",
                "hardcore",
                "breakcore",
                "electro",
            ];
            let mid = vec![
                "pop",
                "rock",
                "indie",
                "soul",
                "r&b",
                "rnb",
                "country",
                "hip hop",
                "hip-hop",
                "hiphop",
                "rap",
                "funk",
                "reggae",
            ];
            let calm = vec![
                "ambient",
                "classical",
                "jazz",
                "acoustic",
                "folk",
                "blues",
                "chill",
                "downtempo",
                "singer-songwriter",
                "piano",
                "lo-fi",
                "lofi",
            ];
            assert(text::views(energetic@) =~= energetic_words());
            assert(text::views(mid@) =~= mid_words());
            assert(text::views(calm@) =~= calm_words());
            if text::holds_any(g.as_str(), &energetic) {
                ENERGETIC
            } else if text::holds_any(g.as_str(), &mid) {
                MID
            } else if text::holds_any(g.as_str(), &calm) {
                CALM
            } else {
                NEUTRAL
            }
        },
        None => NEUTRAL,
    };
    base + year_tiebreak(song.year)
}

/// How bright a track is, by its genre.
pub open spec fn valence_of(song: Song) -> int {
    match genre_of(song) {
        Some(g) => if text::has_any(g, bright_words()) {
            700_000_000
        } else if text::has_any(g, dark_words()) {
            300_000_000
        } else {
            NEUTRAL as int
        },
        None => NEUTRAL as int,
    }
}

/// How bright a track is.
pub fn valence_score(song: &Song) -> (r: i64)
    ensures
        r == valence_of(*song),
{
    match read_genre(song) {
        Some(g) => {
            let bright = vec!["pop", "funk", "disco", "reggae", "soul", "house", "dance"];
            let dark = vec!["metal", "doom", "goth", "industrial", "darkwave", "blues"];
            assert(text::views(bright@) =~= bright_words());
            assert(text::views(dark@) =~= dark_words());
            if text::holds_any(g.as_str(), &bright) {
                700_000_000
            } else if text::holds_any(g.as_str(), &dark) {
                300_000_000
            } else {
                NEUTRAL
            }
        },
        None => NEUTRAL,
    }
}

/// Scores lie between 0 and 1.
pub proof fn scores_are_shares(song: Song)
    ensures
        0 <= energy_of(song) <= WHOLE,
        0 <= valence_of(song) <= WHOLE,
{
}

/// The year never moves a track past one whose genre has another score.
pub proof fn the_year_only_breaks_ties(a: Song, b: Song)
    requires
        bucket(genre_of(a)) < bucket(genre_of(b)),
    ensures
        energy_of(a) < energy_of(b),
{
}

// ---------------------------------------------------------------------------
// Pulls
// ---------------------------------------------------------------------------

/// How long it takes a pull to lose half of its strength, in seconds.
pub const PULL_HALF_LIFE_SECS: u64 = 600;

/// A pull weaker than this is no more.
pub const PULL_PRUNE_EPSILON: u64 = 50_000_000;

/// The strength of a pull that a word sets.
pub const LEXICON_PULL_STRENGTH: u64 = 600_000_000;

/// The furthest that a direction goes along one axis.
pub const AXIS_LIMIT: i64 = 16_777_216;

/// The most axes that a direction has.
pub const AXES_LIMIT: usize = 256;

/// A preference that fades.
#[derive(Clone, Debug)]
pub struct Pull {
    /// What was asked for.
    pub label: String,
    /// Its direction, in whole steps along each axis: energy, then valence. Only the
    /// direction counts.
    pub axes: Vec<i64>,
    /// Its strength when it was set, from 0 to 1.
    pub strength: u64,
    /// When it was set.
    pub set_at: Moment,
    /// How long it takes to lose half of its strength.
    pub half_life: Span,
}

/// A direction within the limits.
pub open spec fn bounded(axes: Seq<i64>) -> bool {
    axes.len() <= AXES_LIMIT && forall|i: int|
        0 <= i < axes.len() ==> -AXIS_LIMIT <= #[trigger] axes[i] <= AXIS_LIMIT
}

/// The product of two directions, axis by axis, summed.
pub open spec fn dot(a: Seq<i64>, b: Seq<i64>) -> int
    decreases a.len(),
{
    if a.len() == 0 {
        0
    } else {
        dot(a.drop_last(), b) + a.last() * b[a.len() - 1]
    }
}

/// Two directions are nearly the same: the cosine between them is more than 0.85.
pub open spec fn aligned(a: Seq<i64>, b: Seq<i64>) -> bool {
    &&& a.len() == b.len()
    &&& dot(a, b) > 0
    &&& 400 * (dot(a, b) * dot(a, b)) > 289 * (dot(a, a) * dot(b, b))
}

proof fn dot_bound(a: Seq<i64>, b: Seq<i64>)
    requires
        bounded(a),
        bounded(b),
        a.len() <= b.len(),
    ensures
        -(a.len() * 281_474_976_710_656) <= dot(a, b) <= a.len() * 281_474_976_710_656,
    decreases a.len(),
{
    if a.len() > 0 {
        let init = a.drop_last();
        assert(bounded(init)) by {
            assert forall|i: int| 0 <= i < init.len() implies -AXIS_LIMIT <= #[trigger] init[i]
                <= AXIS_LIMIT by {
                assert(init[i] == a[i]);
            }
        }
        dot_bound(init, b);
        let x = a.last() as int;
        let y = b[a.len() - 1] as int;
        assert(-AXIS_LIMIT <= a[a.len() - 1] <= AXIS_LIMIT);
        assert(-AXIS_LIMIT <= y <= AXIS_LIMIT);
        assert(-281_474_976_710_656 <= x * y <= 281_474_976_710_656) by (nonlinear_arith)
            requires
                -16_777_216 <= x <= 16_777_216,
                -16_777_216 <= y <= 16_777_216,
        ;
    }
}

fn dot_product(a: &Vec<i64>, b: &Vec<i64>) -> (r: i128)
    requires
        bounded(a@),
        bounded(b@),
        a@.len() <= b@.len(),
    ensures
        r == dot(a@, b@),
        -72_057_594_037_927_936 <= r <= 72_057_594_037_927_936,
{
    let mut r: i128 = 0;
    let mut i: usize = 0;
    assert(a@.take(0) =~= Seq::<i64>::empty());
    while i < a.len()
        invariant
            i <= a@.len() <= b@.len(),
            bounded(a@),
            bounded(b@),
            r == dot(a@.take(i as int), b@),
        decreases a@.len() - i,
    {
        let ghost t = a@.take(i as int);
        proof {
            assert(bounded(t)) by {
                assert forall|k: int| 0 <= k < t.len() implies -AXIS_LIMIT <= #[trigger] t[k]
                    <= AXIS_LIMIT by {
                    assert(t[k] == a@[k]);
                }
            }
            dot_bound(t, b@);
            assert(a@.take(i + 1).drop_last() =~= t);
        }
        let x: i64 = a[i];
        let y: i64 = b[i];
        assert(-AXIS_LIMIT <= a@[i as int] <= AXIS_LIMIT);
        assert(-AXIS_LIMIT <= b@[i as int] <= AXIS_LIMIT);
        assert(-281_474_976_710_656 <= x * y <= 281_474_976_710_656) by (nonlinear_arith)
            requires
                -16_777_216 <= x <= 16_777_216,
                -16_777_216 <= y <= 16_777_216,
        ;
        r = r + (x as i128) * (y as i128);
        i += 1;
    }
    assert(a@.take(a@.len() as int) =~= a@);
    proof {
        dot_bound(a@, b@);
    }
    r
}

fn is_aligned(a: &Vec<i64>, b: &Vec<i64>) -> (r: bool)
    requires
        bounded(a@),
        bounded(b@),
    ensures
        r == aligned(a@, b@),
{
    if a.len() != b.len() {
        return false;
    }
    let d: i128 = dot_product(a, b);
    if d <= 0 {
        return false;
    }
    let x: i128 = dot_product(a, a);
    let y: i128 = dot_product(b, b);
    assert(-5_192_296_858_534_827_628_530_496_329_220_096 <= x * y
        <= 5_192_296_858_534_827_628_530_496_329_220_096) by (nonlinear_arith)
        requires
            -72_057_594_037_927_936 <= x <= 72_057_594_037_927_936,
            -72_057_594_037_927_936 <= y <= 72_057_594_037_927_936,
    ;
    assert(0 <= d * d <= 5_192_296_858_534_827_628_530_496_329_220_096) by (nonlinear_arith)
        requires
            0 <= d <= 72_057_594_037_927_936,
    ;
    400 * (d * d) > 289 * (x * y)
}

impl Pull {
    /// Its direction and its strength are within the limits.
    pub open spec fn wf(self) -> bool {
        bounded(self.axes@) && self.strength <= WHOLE
    }

    /// A pull that is set now.
    pub fn new(label: String, axes: Vec<i64>, strength: u64, now: Moment) -> (r: Pull)
        ensures
            r.label == label,
            r.axes == axes,
            r.strength == number::smaller(strength as int, WHOLE as int),
            r.set_at == now,
            r.half_life.nanos == PULL_HALF_LIFE_SECS * 1_000_000_000,
    {
        Pull {
            label,
            axes,
            strength: if strength > WHOLE {
                WHOLE
            } else {
                strength
            },
            set_at: now,
            half_life: Span::from_secs(PULL_HALF_LIFE_SECS),
        }
    }

    /// How many whole minutes ago it was set.
    pub open spec fn minutes(self, now: Moment) -> int {
        if now.nanos >= self.set_at.nanos {
            (now.nanos - self.set_at.nanos) / 60_000_000_000
        } else {
            0
        }
    }

    /// How many whole minutes ago it was set.
    pub fn age_mins(&self, now: Moment) -> (r: u128)
        ensures
            r == self.minutes(now),
    {
        if now.nanos >= self.set_at.nanos {
            (now.nanos - self.set_at.nanos) / 60_000_000_000
        } else {
            0
        }
    }
}

/// A strength is still felt.
pub open spec fn alive(strength: u64) -> bool {
    strength >= PULL_PRUNE_EPSILON
}

/// The places of the pulls that are still felt.
pub open spec fn felt<A>(pulls: Seq<A>, now: Seq<u64>) -> Seq<A>
    decreases pulls.len(),
{
    if pulls.len() == 0 {
        Seq::empty()
    } else {
        let before = felt(pulls.drop_last(), now);
        if alive(now[pulls.len() - 1]) {
            before.push(pulls.last())
        } else {
            before
        }
    }
}

/// The strongest strength that is still felt; none where nothing is felt.
pub open spec fn strongest(now: Seq<u64>) -> u64
    decreases now.len(),
{
    if now.len() == 0 {
        0
    } else if alive(now.last()) && now.last() > strongest(now.drop_last()) {
        now.last()
    } else {
        strongest(now.drop_last())
    }
}

/// The first place at or after `i` of a pull in nearly this direction.
pub open spec fn along(pulls: Seq<Pull>, axes: Seq<i64>, i: int) -> Option<int>
    decreases pulls.len() - i,
{
    if i >= pulls.len() {
        None
    } else if aligned(pulls[i].axes@, axes) {
        Some(i)
    } else {
        along(pulls, axes, i + 1)
    }
}

/// A pull with a new strength, set now.
pub open spec fn reset(p: Pull, strength: int, now: Moment) -> Pull {
    Pull {
        strength: number::smaller(strength, WHOLE as int) as u64,
        set_at: now,
        ..p
    }
}

/// The pulls after one more: it strengthens one in nearly the same direction, which
/// becomes the last, or joins them as the last.
pub open spec fn joined_by(pulls: Seq<Pull>, now: Seq<u64>, pull: Pull, at: Moment) -> Seq<Pull> {
    let live = felt(pulls, now);
    let strengths = felt(now, now);
    match along(live, pull.axes@, 0) {
        Some(k) => live.remove(k).push(
            Pull {
                half_life: pull.half_life,
                ..reset(live[k], strengths[k] + pull.strength, at)
            },
        ),
        None => live.push(pull),
    }
}

/// The pulls after the last one was scaled by so many thousandths.
pub open spec fn nudged(pulls: Seq<Pull>, now: Seq<u64>, thousandths: u32, at: Moment) -> Seq<
    Pull,
> {
    let live = felt(pulls, now);
    if live.len() == 0 {
        live
    } else {
        let strength = number::smaller(
            felt(now, now).last() * thousandths / 1000,
            WHOLE as int,
        );
        if alive(strength as u64) {
            live.drop_last().push(reset(live.last(), strength, at))
        } else {
            live.drop_last()
        }
    }
}

/// The pulls that the listener set, the one last meant at the end.
#[derive(Clone, Debug)]
pub struct PullField {
    /// The pulls.
    pub pulls: Vec<Pull>,
}

proof fn felt_parts<A>(pulls: Seq<A>, now: Seq<u64>, k: int)
    requires
        0 <= k < pulls.len(),
    ensures
        felt(pulls.take(k + 1), now) == (if alive(now[k]) {
            felt(pulls.take(k), now).push(pulls[k])
        } else {
            felt(pulls.take(k), now)
        }),
{
    assert(pulls.take(k + 1).drop_last() =~= pulls.take(k));
}

proof fn felt_lens<A>(pulls: Seq<A>, now: Seq<u64>, k: int)
    requires
        0 <= k <= pulls.len(),
        pulls.len() == now.len(),
    ensures
        felt(pulls.take(k), now).len() == felt(now.take(k), now).len(),
        felt(pulls.take(k), now).len() <= k,
    decreases k,
{
    if k == 0 {
        assert(pulls.take(0) =~= Seq::<A>::empty());
        assert(now.take(0) =~= Seq::<u64>::empty());
    } else {
        felt_lens(pulls, now, k - 1);
        felt_parts(pulls, now, k - 1);
        felt_parts(now, now, k - 1);
    }
}

proof fn felt_are_wf(pulls: Seq<Pull>, now: Seq<u64>)
    requires
        forall|i: int| 0 <= i < pulls.len() ==> (#[trigger] pulls[i]).wf(),
    ensures
        forall|i: int| 0 <= i < felt(pulls, now).len() ==> (#[trigger] felt(pulls, now)[i]).wf(),
    decreases pulls.len(),
{
    if pulls.len() > 0 {
        let init = pulls.drop_last();
        assert forall|i: int| 0 <= i < init.len() implies (#[trigger] init[i]).wf() by {
            assert(init[i] == pulls[i]);
        }
        felt_are_wf(init, now);
        assert(pulls[pulls.len() - 1].wf());
        let before = felt(init, now);
        assert forall|i: int| 0 <= i < felt(pulls, now).len() implies (#[trigger] felt(
            pulls,
            now,
        )[i]).wf() by {
            if i < before.len() {
                assert(felt(pulls, now)[i] == before[i]);
            }
        }
    }
}

impl Default for PullField {
    fn default() -> (r: Self)
        ensures
            r.pulls@.len() == 0,
            r.wf(),
    {
        PullField::new()
    }
}

impl PullField {
    /// Every pull is within the limits.
    pub open spec fn wf(self) -> bool {
        forall|i: int| 0 <= i < self.pulls@.len() ==> (#[trigger] self.pulls@[i]).wf()
    }

    /// No pull.
    pub fn new() -> (r: PullField)
        ensures
            r.pulls@.len() == 0,
            r.wf(),
    {
        PullField { pulls: Vec::new() }
    }

    /// Drops the pulls that are no longer felt. Gives the strengths of those that are.
    pub fn prune(&mut self, now: &[u64]) -> (r: Vec<u64>)
        requires
            now@.len() == old(self).pulls@.len(),
        ensures
            final(self).pulls@ == felt(old(self).pulls@, now@),
            r@ == felt(now@, now@),
            r@.len() == final(self).pulls@.len(),
            old(self).wf() ==> final(self).wf(),
    {
        let ghost all = self.pulls@;
        let mut strengths: Vec<u64> = Vec::new();
        let mut i: usize = 0;
        let mut k: usize = 0;
        proof {
            assert(all.take(0) =~= Seq::<Pull>::empty());
            assert(now@.take(0) =~= Seq::<u64>::empty());
            assert(all.take(0) + all.skip(0) =~= all);
        }
        while k < now.len()
            invariant
                k <= now@.len() == all.len(),
                i == felt(all.take(k as int), now@).len(),
                self.pulls@ =~= felt(all.take(k as int), now@) + all.skip(k as int),
                strengths@ == felt(now@.take(k as int), now@),
            decreases now@.len() - k,
        {
            proof {
                felt_parts(all, now@, k as int);
                felt_parts(now@, now@, k as int);
                felt_lens(all, now@, k as int);
                assert(self.pulls@[i as int] == all[k as int]);
            }
            if now[k] >= PULL_PRUNE_EPSILON {
                strengths.push(now[k]);
                i += 1;
                assert(self.pulls@ =~= felt(all.take(k + 1), now@) + all.skip(k + 1));
            } else {
                let _ = self.pulls.remove(i);
                assert(self.pulls@ =~= felt(all.take(k + 1), now@) + all.skip(k + 1));
            }
            k += 1;
        }
        proof {
            assert(all.take(k as int) =~= all);
            assert(now@.take(k as int) =~= now@);
            assert(self.pulls@ =~= felt(all, now@));
            felt_lens(all, now@, k as int);
            if old(self).wf() {
                felt_are_wf(all, now@);
            }
        }
        strengths
    }

    /// Whether any pull is still felt.
    pub fn is_active(&self, now: &[u64]) -> (r: bool)
        ensures
            r == exists|i: int| 0 <= i < now@.len() && alive(#[trigger] now@[i]),
    {
        let mut i: usize = 0;
        while i < now.len()
            invariant
                i <= now@.len(),
                forall|k: int| 0 <= k < i ==> !alive(#[trigger] now@[k]),
            decreases now@.len() - i,
        {
            if now[i] >= PULL_PRUNE_EPSILON {
                assert(alive(now@[i as int]));
                return true;
            }
            i += 1;
        }
        false
    }

    /// The strength of the strongest pull that is still felt; none where none is.
    pub fn max_strength(&self, now: &[u64]) -> (r: u64)
        ensures
            r == strongest(now@),
    {
        let mut best: u64 = 0;
        let mut i: usize = 0;
        assert(now@.take(0) =~= Seq::<u64>::empty());
        while i < now.len()
            invariant
                i <= now@.len(),
                best == strongest(now@.take(i as int)),
            decreases now@.len() - i,
        {
            assert(now@.take(i + 1).drop_last() =~= now@.take(i as int));
            if now[i] >= PULL_PRUNE_EPSILON && now[i] > best {
                best = now[i];
            }
            i += 1;
        }
        assert(now@.take(now@.len() as int) =~= now@);
        best
    }

    /// Adds a pull. One in nearly the same direction is strengthened in its place.
    pub fn add(&mut self, pull: Pull, now: &[u64], at: Moment)
        requires
            old(self).wf(),
            pull.wf(),
            now@.len() == old(self).pulls@.len(),
            forall|i: int| 0 <= i < now@.len() ==> #[trigger] now@[i] <= WHOLE,
        ensures
            final(self).wf(),
            final(self).pulls@ == joined_by(old(self).pulls@, now@, pull, at),
    {
        let strengths = self.prune(now);
        let ghost live = self.pulls@;
        proof {
            felt_values(now@, now@);
        }
        let mut i: usize = 0;
        while i < self.pulls.len()
            invariant
                i <= self.pulls@.len(),
                self.wf(),
                pull.wf(),
                self.pulls@ == live,
                along(live, pull.axes@, 0) == along(live, pull.axes@, i as int),
                live == felt(old(self).pulls@, now@),
                strengths@ == felt(now@, now@),
                strengths@.len() == live.len(),
                forall|k: int| 0 <= k < strengths@.len() ==> #[trigger] strengths@[k] <= WHOLE,
            decreases self.pulls@.len() - i,
        {
            if is_aligned(&self.pulls[i].axes, &pull.axes) {
                let mut p = self.pulls.remove(i);
                assert(p == live[i as int]);
                let sum: u64 = strengths[i] + pull.strength;
                p.strength = if sum > WHOLE {
                    WHOLE
                } else {
                    sum
                };
                p.set_at = at;
                p.half_life = pull.half_life;
                self.pulls.push(p);
                proof {
                    let r = self.pulls@;
                    assert(r =~= joined_by(old(self).pulls@, now@, pull, at));
                    assert forall|k: int| 0 <= k < r.len() implies (#[trigger] r[k]).wf() by {
                        if k < i {
                            assert(r[k] == live[k]);
                        } else if k < r.len() - 1 {
                            assert(r[k] == live[k + 1]);
                        }
                    }
                }
                return;
            }
            i += 1;
        }
        self.pulls.push(pull);
    }

    /// Scales the pull that was last meant by so many thousandths. Gives what it was
    /// asked for as.
    pub fn nudge_recent(&mut self, thousandths: u32, now: &[u64], at: Moment) -> (r: Option<
        String,
    >)
        requires
            now@.len() == old(self).pulls@.len(),
            forall|i: int| 0 <= i < now@.len() ==> #[trigger] now@[i] <= WHOLE,
        ensures
            final(self).pulls@ == nudged(old(self).pulls@, now@, thousandths, at),
            ({
                let live = felt(old(self).pulls@, now@);
                match r {
                    Some(label) => live.len() > 0 && label@ == live.last().label@,
                    None => live.len() == 0,
                }
            }),
    {
        let strengths = self.prune(now);
        proof {
            felt_values(now@, now@);
        }
        let ghost live = self.pulls@;
        let n: usize = self.pulls.len();
        if n == 0 {
            assert(self.pulls@ =~= nudged(old(self).pulls@, now@, thousandths, at));
            return None;
        }
        let mut p = self.pulls.remove(n - 1);
        let s: u64 = strengths[n - 1];
        assert(s * thousandths <= 1_000_000_000 * 4_294_967_295) by (nonlinear_arith)
            requires
                s <= 1_000_000_000,
                thousandths <= 4_294_967_295,
        ;
        let scaled: u64 = (s * thousandths as u64) / 1000;
        let strength: u64 = if scaled > WHOLE {
            WHOLE
        } else {
            scaled
        };
        let label = p.label.clone();
        if strength >= PULL_PRUNE_EPSILON {
            p.strength = strength;
            p.set_at = at;
            self.pulls.push(p);
        }
        assert(live.remove(n - 1) =~= live.drop_last());
        assert(self.pulls@ =~= nudged(old(self).pulls@, now@, thousandths, at));
        Some(label)
    }

    /// Drops every pull.
    pub fn clear(&mut self)
        ensures
            final(self).pulls@.len() == 0,
            final(self).wf(),
    {
        self.pulls.clear();
    }

    /// The pulls that are felt: what was asked for, the strength in hundredths, and how
    /// many minutes ago.
    pub fn snapshot(&self, now: &[u64], at: Moment) -> (r: Vec<(String, u8, u128)>)
        requires
            now@.len() == self.pulls@.len(),
            forall|i: int| 0 <= i < now@.len() ==> #[trigger] now@[i] <= WHOLE,
        ensures
            ({
                let live = felt(self.pulls@, now@);
                let strengths = felt(now@, now@);
                &&& r@.len() == live.len()
                &&& forall|i: int|
                    0 <= i < r@.len() ==> (#[trigger] r@[i]).0@ == live[i].label@ && r@[i].1
                        == hundredths(strengths[i]) && r@[i].2 == live[i].minutes(at)
            }),
    {
        let mut r: Vec<(String, u8, u128)> = Vec::new();
        let mut i: usize = 0;
        proof {
            assert(self.pulls@.take(0) =~= Seq::<Pull>::empty());
            assert(now@.take(0) =~= Seq::<u64>::empty());
        }
        while i < now.len()
            invariant
                i <= now@.len() == self.pulls@.len(),
                forall|i: int| 0 <= i < now@.len() ==> #[trigger] now@[i] <= WHOLE,
                r@.len() == felt(self.pulls@.take(i as int), now@).len(),
                r@.len() == felt(now@.take(i as int), now@).len(),
                forall|k: int|
                    0 <= k < r@.len() ==> (#[trigger] r@[k]).0@ == felt(
                        self.pulls@.take(i as int),
                        now@,
                    )[k].label@ && r@[k].1 == hundredths(felt(now@.take(i as int), now@)[k])
                        && r@[k].2 == felt(self.pulls@.take(i as int), now@)[k].minutes(at),
            decreases now@.len() - i,
        {
            proof {
                felt_parts(self.pulls@, now@, i as int);
                felt_parts(now@, now@, i as int);
            }
            if now[i] >= PULL_PRUNE_EPSILON {
                let p = &self.pulls[i];
                let s: u64 = (now[i] + 5_000_000) / 10_000_000;
                r.push((p.label.clone(), s as u8, p.age_mins(at)));
            }
            i += 1;
        }
        proof {
            assert(self.pulls@.take(i as int) =~= self.pulls@);
            assert(now@.take(i as int) =~= now@);
        }
        r
    }

    /// A line for each pull that is felt.
    pub fn describe(&self, now: &[u64], at: Moment) -> (r: Vec<String>)
        requires
            now@.len() == self.pulls@.len(),
            forall|i: int| 0 <= i < now@.len() ==> #[trigger] now@[i] <= WHOLE,
        ensures
            ({
                let live = felt(self.pulls@, now@);
                let strengths = felt(now@, now@);
                &&& r@.len() == live.len()
                &&& forall|i: int|
                    0 <= i < r@.len() ==> (#[trigger] r@[i])@ == pull_line(
                        live[i],
                        strengths[i],
                        at,
                    )
            }),
    {
        let mut r: Vec<String> = Vec::new();
        let mut i: usize = 0;
        proof {
            assert(self.pulls@.take(0) =~= Seq::<Pull>::empty());
            assert(now@.take(0) =~= Seq::<u64>::empty());
        }
        while i < now.len()
            invariant
                i <= now@.len() == self.pulls@.len(),
                forall|i: int| 0 <= i < now@.len() ==> #[trigger] now@[i] <= WHOLE,
                r@.len() == felt(self.pulls@.take(i as int), now@).len(),
                r@.len() == felt(now@.take(i as int), now@).len(),
                forall|k: int|
                    0 <= k < r@.len() ==> (#[trigger] r@[k])@ == pull_line(
                        felt(self.pulls@.take(i as int), now@)[k],
                        felt(now@.take(i as int), now@)[k],
                        at,
                    ),
            decreases now@.len() - i,
        {
            proof {
                felt_parts(self.pulls@, now@, i as int);
                felt_parts(now@, now@, i as int);
            }
            if now[i] >= PULL_PRUNE_EPSILON {
                let p = &self.pulls[i];
                let h: u64 = even_hundredths(now[i]);
                let mut s = "toward ".to_owned();
                s.append(p.label.as_str());
                s.append(" (");
                s.append(number::dec_u64(h / 100).as_str());
                s.append(".");
                s.append(number::dec2_u64(h % 100).as_str());
                s.append(", from the ask, ");
                number::push_dec(&mut s, p.age_mins(at));
                s.append(" min ago, fading)");
                assert(s@ =~= pull_line(*p, now@[i as int], at));
                r.push(s);
            }
            i += 1;
        }
        proof {
            assert(self.pulls@.take(i as int) =~= self.pulls@);
            assert(now@.take(i as int) =~= now@);
        }
        r
    }
}

proof fn felt_values(now: Seq<u64>, s: Seq<u64>)
    requires
        forall|i: int| 0 <= i < now.len() ==> #[trigger] now[i] <= WHOLE,
    ensures
        forall|i: int| 0 <= i < felt(now, s).len() ==> #[trigger] felt(now, s)[i] <= WHOLE,
    decreases now.len(),
{
    if now.len() > 0 {
        let init = now.drop_last();
        assert forall|i: int| 0 <= i < init.len() implies #[trigger] init[i] <= WHOLE by {
            assert(init[i] == now[i]);
        }
        felt_values(init, s);
        assert(now[now.len() - 1] <= WHOLE);
        let before = felt(init, s);
        assert forall|i: int| 0 <= i < felt(now, s).len() implies #[trigger] felt(now, s)[i]
            <= WHOLE by {
            if i < before.len() {
                assert(felt(now, s)[i] == before[i]);
            }
        }
    }
}

/// A pull is felt as long as a twentieth of full strength is left of it. Of things that
/// go with pulls, those stay, in their order, that go with one that is felt.
pub proof fn what_is_felt_stays<A>(things: Seq<A>, now: Seq<u64>)
    requires
        things.len() <= now.len(),
    ensures
        felt(things, now) == Seq::new(things.len(), |i: int| (things[i], now[i])).filter(
            |p: (A, u64)| p.1 >= 50_000_000,
        ).map_values(|p: (A, u64)| p.0),
    decreases things.len(),
{
    reveal(Seq::filter);
    let pairs = Seq::new(things.len(), |i: int| (things[i], now[i]));
    let pred = |p: (A, u64)| p.1 >= 50_000_000;
    let first = |p: (A, u64)| p.0;
    if things.len() == 0 {
        assert(pairs.filter(pred).map_values(first) =~= Seq::<A>::empty());
    } else {
        let init = things.drop_last();
        what_is_felt_stays(init, now);
        assert(pairs.drop_last() =~= Seq::new(init.len(), |i: int| (init[i], now[i])));
        let before = pairs.drop_last().filter(pred);
        assert(pairs.last() == (things.last(), now[things.len() - 1]));
        if pred(pairs.last()) {
            assert(before.push(pairs.last()).map_values(first) =~= before.map_values(first).push(
                things.last(),
            ));
        }
    }
}

/// The strength of a field is that of its strongest pull that is felt, and nothing where
/// none is.
pub proof fn the_strongest_is_felt(now: Seq<u64>)
    ensures
        forall|i: int|
            0 <= i < now.len() && now[i] >= 50_000_000 ==> #[trigger] now[i] <= strongest(now),
        strongest(now) == 0 || exists|i: int|
            0 <= i < now.len() && now[i] >= 50_000_000 && #[trigger] now[i] == strongest(now),
    decreases now.len(),
{
    if now.len() > 0 {
        let init = now.drop_last();
        the_strongest_is_felt(init);
        assert forall|i: int| 0 <= i < now.len() && now[i] >= 50_000_000 implies #[trigger] now[i]
            <= strongest(now) by {
            if i < init.len() {
                assert(init[i] == now[i]);
            }
        }
        if strongest(now) != 0 {
            if strongest(now) == strongest(init) {
                let k = choose|k: int|
                    0 <= k < init.len() && init[k] >= 50_000_000 && #[trigger] init[k] == strongest(
                        init,
                    );
                assert(now[k] == strongest(now));
            } else {
                assert(now[now.len() - 1] == strongest(now));
            }
        }
    }
}

proof fn along_is_first(pulls: Seq<Pull>, axes: Seq<i64>, i: int)
    requires
        0 <= i <= pulls.len(),
    ensures
        match along(pulls, axes, i) {
            Some(k) => i <= k < pulls.len() && aligned(pulls[k].axes@, axes) && forall|j: int|
                i <= j < k ==> !aligned((#[trigger] pulls[j]).axes@, axes),
            None => forall|j: int|
                i <= j < pulls.len() ==> !aligned((#[trigger] pulls[j]).axes@, axes),
        },
    decreases pulls.len() - i,
{
    if i < pulls.len() && !aligned(pulls[i].axes@, axes) {
        along_is_first(pulls, axes, i + 1);
    }
}

/// Two directions along energy and valence are nearly the same where the cosine of the
/// angle between them is more than 0.85; a direction is nearly the same as any that goes
/// as far along each axis, and never as the opposite one.
pub proof fn nearly_the_same_is_a_small_angle(a: Seq<i64>, b: Seq<i64>)
    requires
        a.len() == 2,
        b.len() == 2,
    ensures
        aligned(a, b) <==> {
            let d = a[0] * b[0] + a[1] * b[1];
            d > 0 && 10000 * (d * d) > 7225 * ((a[0] * a[0] + a[1] * a[1]) * (b[0] * b[0] + b[1]
                * b[1]))
        },
{
    reveal_with_fuel(dot, 3);
    assert(dot(a, b) == a[0] * b[0] + a[1] * b[1]) by {
        assert(a.drop_last().last() == a[0]);
    }
    assert(dot(a, a) == a[0] * a[0] + a[1] * a[1]) by {
        assert(a.drop_last().last() == a[0]);
    }
    assert(dot(b, b) == b[0] * b[0] + b[1] * b[1]) by {
        assert(b.drop_last().last() == b[0]);
    }
}

/// To ask for a direction is to be pulled along it. The pulls that are felt and go
/// elsewhere stay as they were, in their order. Behind them stands the pull that was asked
/// for; or, where one that is felt goes in nearly the same direction, that one, set anew:
/// as strong as what was left of it and what is asked for together, up to full strength.
///
/// `live` are the pulls that are felt, and `left` is what is left of their strengths.
pub proof fn asking_again_strengthens(pulls: Seq<Pull>, now: Seq<u64>, pull: Pull, at: Moment)
    requires
        pulls.len() == now.len(),
        pull.strength <= 1_000_000_000,
        forall|i: int| 0 <= i < now.len() ==> #[trigger] now[i] <= 1_000_000_000,
    ensures
        ({
            let live = felt(pulls, now);
            let left = felt(now, now);
            let r = joined_by(pulls, now, pull, at);
            &&& live.len() == left.len()
            &&& r.len() > 0
            &&& (forall|k: int|
                0 <= k < live.len() ==> !aligned((#[trigger] live[k]).axes@, pull.axes@)) ==> r
                == live.push(pull)
            &&& forall|k: int|
                0 <= k < live.len() && aligned((#[trigger] live[k]).axes@, pull.axes@) && (forall|
                    j: int,
                |
                    0 <= j < k ==> !aligned((#[trigger] live[j]).axes@, pull.axes@)) ==> {
                    &&& r.drop_last() == live.remove(k)
                    &&& r.last().label == live[k].label
                    &&& r.last().axes == live[k].axes
                    &&& r.last().set_at == at
                    &&& r.last().half_life == pull.half_life
                    &&& r.last().strength == if left[k] + pull.strength > 1_000_000_000 {
                        1_000_000_000
                    } else {
                        left[k] + pull.strength
                    }
                }
        }),
{
    let live = felt(pulls, now);
    let left = felt(now, now);
    let r = joined_by(pulls, now, pull, at);
    assert(pulls.take(pulls.len() as int) =~= pulls);
    assert(now.take(now.len() as int) =~= now);
    felt_lens(pulls, now, pulls.len() as int);
    felt_values(now, now);
    along_is_first(live, pull.axes@, 0);
    assert forall|k: int|
        0 <= k < live.len() && aligned((#[trigger] live[k]).axes@, pull.axes@) && (forall|j: int|
            0 <= j < k ==> !aligned((#[trigger] live[j]).axes@, pull.axes@)) implies {
        &&& r.drop_last() == live.remove(k)
        &&& r.last().label == live[k].label
        &&& r.last().axes == live[k].axes
        &&& r.last().set_at == at
        &&& r.last().half_life == pull.half_life
        &&& r.last().strength == if left[k] + pull.strength > 1_000_000_000 {
            1_000_000_000
        } else {
            left[k] + pull.strength
        }
    } by {
        assert(along(live, pull.axes@, 0) == Some(k)) by {
            let f = along(live, pull.axes@, 0);
            assert(f is Some);
            let g = f->0;
            if g < k {
                assert(!aligned(live[g].axes@, pull.axes@));
            }
            if k < g {
                assert(!aligned(live[k].axes@, pull.axes@));
            }
        }
        assert(left[k] <= 1_000_000_000);
        assert(r.drop_last() =~= live.remove(k));
    }
}

/// To nudge the field is to scale what is left of the pull last meant: the others that are
/// felt stay, and it is set anew with that strength, up to full; where less than a twentieth
/// of full strength is left, it goes.
pub proof fn a_nudge_scales_the_last(pulls: Seq<Pull>, now: Seq<u64>, thousandths: u32, at: Moment)
    requires
        pulls.len() == now.len(),
        forall|i: int| 0 <= i < now.len() ==> #[trigger] now[i] <= 1_000_000_000,
    ensures
        ({
            let live = felt(pulls, now);
            let left = felt(now, now);
            let r = nudged(pulls, now, thousandths, at);
            &&& live.len() == left.len()
            &&& live.len() == 0 ==> r.len() == 0
            &&& live.len() > 0 && left.last() * thousandths < 50_000_000_000 ==> r
                == live.drop_last()
            &&& live.len() > 0 && left.last() * thousandths >= 50_000_000_000 ==> {
                &&& r.len() == live.len()
                &&& r.drop_last() == live.drop_last()
                &&& r.last().label == live.last().label
                &&& r.last().axes == live.last().axes
                &&& r.last().half_life == live.last().half_life
                &&& r.last().set_at == at
                &&& r.last().strength <= 1_000_000_000
                &&& left.last() * thousandths >= 1_000_000_000_000 ==> r.last().strength
                    == 1_000_000_000
                &&& left.last() * thousandths < 1_000_000_000_000 ==> 1000 * r.last().strength
                    <= left.last() * thousandths < 1000 * (r.last().strength + 1)
            }
        }),
{
    let live = felt(pulls, now);
    let left = felt(now, now);
    let r = nudged(pulls, now, thousandths, at);
    assert(pulls.take(pulls.len() as int) =~= pulls);
    assert(now.take(now.len() as int) =~= now);
    felt_lens(pulls, now, pulls.len() as int);
    felt_values(now, now);
    if live.len() > 0 {
        assert(left[left.len() - 1] <= 1_000_000_000);
        let x = left.last() * thousandths;
        assert(0 <= x) by (nonlinear_arith)
            requires
                x == left.last() * thousandths,
        ;
        assert(r.len() == live.len() ==> r.drop_last() =~= live.drop_last());
    }
}

/// A strength in hundredths, to the nearest, halves up.
pub open spec fn hundredths(strength: u64) -> int {
    (strength + 5_000_000) / 10_000_000
}

/// A strength in hundredths, to the nearest, halves to the even one.
pub open spec fn nearest_hundredths(strength: u64) -> int {
    let low = strength as int / 10_000_000;
    let rest = strength as int % 10_000_000;
    if rest > 5_000_000 || (rest == 5_000_000 && low % 2 == 1) {
        low + 1
    } else {
        low
    }
}

fn even_hundredths(strength: u64) -> (r: u64)
    ensures
        r == nearest_hundredths(strength),
{
    let low: u64 = strength / 10_000_000;
    let rest: u64 = strength % 10_000_000;
    if rest > 5_000_000 || (rest == 5_000_000 && low % 2 == 1) {
        low + 1
    } else {
        low
    }
}

/// The line for a pull of this strength.
pub open spec fn pull_line(p: Pull, strength: u64, at: Moment) -> Seq<char> {
    let h = nearest_hundredths(strength);
    "toward "@ + p.label@ + " ("@ + number::dec((h / 100) as nat) + "."@ + number::dec2(
        (h % 100) as nat,
    ) + ", from the ask, "@ + number::dec(p.minutes(at) as nat) + " min ago, fading)"@
}

// ---------------------------------------------------------------------------
// Ranking
// ---------------------------------------------------------------------------

/// The largest bonus, in billionths.
pub const BONUS_LIMIT: i64 = 1_000_000_000_000;

/// The smallest of the bonuses.
pub open spec fn lowest(b: Seq<i64>) -> int
    decreases b.len(),
{
    if b.len() <= 1 {
        b[0] as int
    } else {
        number::smaller(lowest(b.drop_last()), b.last() as int)
    }
}

/// The largest of the bonuses.
pub open spec fn highest(b: Seq<i64>) -> int
    decreases b.len(),
{
    if b.len() <= 1 {
        b[0] as int
    } else {
        number::larger(highest(b.drop_last()), b.last() as int)
    }
}

/// What a candidate is ranked by: its bonus, between the smallest and the largest, and
/// its place, each by its weight. All is scaled by the same number, so that it is whole.
pub open spec fn rank_key(weight: u64, b: Seq<i64>, i: int) -> int {
    let span = highest(b) - lowest(b);
    let last = b.len() - 1;
    if span > 0 {
        weight * ((b[i] - lowest(b)) * last) + (WHOLE - weight) * ((last - i) * span)
    } else {
        (WHOLE - weight) * (last - i)
    }
}

/// The keys of the candidates.
pub open spec fn rank_keys(weight: u64, b: Seq<i64>) -> Seq<int> {
    Seq::new(b.len(), |i: int| rank_key(weight, b, i))
}

/// One candidate comes before another: its key is larger, or as large, and it came
/// first.
pub open spec fn comes_before(keys: Seq<int>, a: int, b: int) -> bool {
    keys[a] > keys[b] || (keys[a] == keys[b] && a < b)
}

/// An order of the first `n` candidates in which each comes before the next ones.
pub open spec fn is_ranking(order: Seq<usize>, keys: Seq<int>, n: int) -> bool {
    &&& order.len() == n
    &&& forall|i: int| 0 <= i < n ==> 0 <= (#[trigger] order[i]) < n
    &&& forall|i: int, j: int|
        0 <= i < j < n ==> comes_before(keys, #[trigger] order[i] as int, #[trigger] order[j] as int)
}

proof fn bonuses_lie_between(b: Seq<i64>)
    requires
        b.len() > 0,
    ensures
        forall|i: int| 0 <= i < b.len() ==> lowest(b) <= #[trigger] b[i] <= highest(b),
        exists|i: int| 0 <= i < b.len() && lowest(b) == #[trigger] b[i],
        exists|i: int| 0 <= i < b.len() && highest(b) == #[trigger] b[i],
    decreases b.len(),
{
    if b.len() > 1 {
        let init = b.drop_last();
        bonuses_lie_between(init);
        assert forall|i: int| 0 <= i < b.len() implies lowest(b) <= #[trigger] b[i] <= highest(
            b,
        ) by {
            if i < init.len() {
                assert(init[i] == b[i]);
            }
        }
        let x = choose|i: int| 0 <= i < init.len() && lowest(init) == #[trigger] init[i];
        let y = choose|i: int| 0 <= i < init.len() && highest(init) == #[trigger] init[i];
        assert(b[x] == init[x]);
        assert(b[y] == init[y]);
        assert(b[b.len() - 1] == b.last());
    } else {
        assert(b[0] == lowest(b));
    }
}

fn bounds_of(b: &[i64]) -> (r: (i64, i64))
    requires
        b@.len() > 0,
    ensures
        r.0 == lowest(b@),
        r.1 == highest(b@),
{
    let mut lo: i64 = b[0];
    let mut hi: i64 = b[0];
    let mut i: usize = 1;
    assert(b@.take(1)[0] == b@[0]);
    while i < b.len()
        invariant
            1 <= i <= b@.len(),
            lo == lowest(b@.take(i as int)),
            hi == highest(b@.take(i as int)),
        decreases b@.len() - i,
    {
        assert(b@.take(i + 1).drop_last() =~= b@.take(i as int));
        if b[i] < lo {
            lo = b[i];
        }
        if b[i] > hi {
            hi = b[i];
        }
        i += 1;
    }
    assert(b@.take(b@.len() as int) =~= b@);
    (lo, hi)
}

/// The keys that candidates with these bonuses are ranked by.
fn compute_keys(weight: u64, b: &[i64]) -> (r: Vec<i128>)
    requires
        weight <= WHOLE,
        0 < b@.len() <= u32::MAX,
        forall|i: int| 0 <= i < b@.len() ==> -BONUS_LIMIT <= #[trigger] b@[i] <= BONUS_LIMIT,
    ensures
        r@.len() == b@.len(),
        forall|i: int| 0 <= i < r@.len() ==> #[trigger] r@[i] == rank_key(weight, b@, i),
{
    let (lo, hi) = bounds_of(b);
    proof {
        bonuses_lie_between(b@);
        let x = choose|i: int| 0 <= i < b@.len() && lowest(b@) == #[trigger] b@[i];
        let y = choose|i: int| 0 <= i < b@.len() && highest(b@) == #[trigger] b@[i];
        assert(-BONUS_LIMIT <= b@[x] && b@[y] <= BONUS_LIMIT);
        assert(lowest(b@) <= b@[0] <= highest(b@));
    }
    let span: i128 = (hi as i128) - (lo as i128);
    let last: i128 = (b.len() - 1) as i128;
    let rest: i128 = (WHOLE - weight) as i128;
    let mut r: Vec<i128> = Vec::new();
    let mut i: usize = 0;
    while i < b.len()
        invariant
            i <= b@.len() == r@.len() + (b@.len() - i),
            0 < b@.len() <= u32::MAX,
            weight <= WHOLE,
            lo == lowest(b@),
            hi == highest(b@),
            span == hi - lo,
            0 <= span <= 2_000_000_000_000,
            last == b@.len() - 1,
            rest == WHOLE - weight,
            forall|k: int| 0 <= k < b@.len() ==> lowest(b@) <= #[trigger] b@[k] <= highest(b@),
            forall|k: int| 0 <= k < r@.len() ==> #[trigger] r@[k] == rank_key(weight, b@, k),
        decreases b@.len() - i,
    {
        let back: i128 = last - (i as i128);
        let above: i128 = (b[i] as i128) - (lo as i128);
        assert(lowest(b@) <= b@[i as int] <= highest(b@));
        assert(0 <= above * last <= 2_000_000_000_000 * 4_294_967_295) by (nonlinear_arith)
            requires
                0 <= above <= 2_000_000_000_000,
                0 <= last <= 4_294_967_295,
        ;
        assert(0 <= back * span <= 2_000_000_000_000 * 4_294_967_295) by (nonlinear_arith)
            requires
                0 <= span <= 2_000_000_000_000,
                0 <= back <= 4_294_967_295,
        ;
        let p: i128 = above * last;
        let q: i128 = back * span;
        let w: i128 = weight as i128;
        assert(0 <= w * p <= 1_000_000_000 * (2_000_000_000_000 * 4_294_967_295))
            by (nonlinear_arith)
            requires
                0 <= w <= 1_000_000_000,
                0 <= p <= 2_000_000_000_000 * 4_294_967_295,
        ;
        assert(0 <= rest * q <= 1_000_000_000 * (2_000_000_000_000 * 4_294_967_295))
            by (nonlinear_arith)
            requires
                0 <= rest <= 1_000_000_000,
                0 <= q <= 2_000_000_000_000 * 4_294_967_295,
        ;
        assert(0 <= rest * back <= 1_000_000_000 * 4_294_967_295) by (nonlinear_arith)
            requires
                0 <= rest <= 1_000_000_000,
                0 <= back <= 4_294_967_295,
        ;
        let key: i128 = if span > 0 {
            w * p + rest * q
        } else {
            rest * back
        };
        assert(key == rank_key(weight, b@, i as int));
        r.push(key);
        i += 1;
    }
    r
}

/// Keys as whole numbers.
pub open spec fn as_ints(keys: Seq<i128>) -> Seq<int> {
    Seq::new(keys.len(), |i: int| keys[i] as int)
}

fn rank(keys: &Vec<i128>) -> (r: Vec<usize>)
    ensures
        is_ranking(r@, as_ints(keys@), keys@.len() as int),
{
    let mut order: Vec<usize> = Vec::new();
    let n: usize = keys.len();
    let ghost ks = as_ints(keys@);
    let mut i: usize = 0;
    while i < n
        invariant
            i <= n == keys@.len(),
            ks == as_ints(keys@),
            is_ranking(order@, ks, i as int),
        decreases n - i,
    {
        let mut p: usize = order.len();
        while p > 0 && keys[order[p - 1]] < keys[i]
            invariant
                p <= order@.len() == i,
                i < n == keys@.len(),
                ks == as_ints(keys@),
                is_ranking(order@, ks, i as int),
                forall|k: int| p <= k < order@.len() ==> ks[#[trigger] order@[k] as int] < ks[i as int],
            decreases p,
        {
            assert(0 <= order@[p - 1] < i);
            p -= 1;
        }
        let ghost before = order@;
        order.insert(p, i);
        proof {
            let now = order@;
            assert forall|k: int| 0 <= k < i + 1 implies 0 <= (#[trigger] now[k]) < i + 1 by {
                if k < p {
                    assert(now[k] == before[k]);
                } else if k > p {
                    assert(now[k] == before[k - 1]);
                }
            }
            assert forall|a: int, b: int| 0 <= a < b < i + 1 implies comes_before(
                ks,
                #[trigger] now[a] as int,
                #[trigger] now[b] as int,
            ) by {
                if b < p {
                    assert(now[a] == before[a] && now[b] == before[b]);
                } else if b == p {
                    assert(now[a] == before[a]);
                    assert(0 <= before[a] < i);
                    if a < p - 1 {
                        assert(comes_before(ks, before[a] as int, before[p - 1] as int));
                    }
                    assert(0 <= before[p - 1] < i);
                    assert(ks[before[p - 1] as int] >= ks[i as int]);
                } else if a < p {
                    assert(now[a] == before[a] && now[b] == before[b - 1]);
                } else if a == p {
                    assert(now[b] == before[b - 1]);
                    assert(0 <= before[b - 1] < i);
                } else {
                    assert(now[a] == before[a - 1] && now[b] == before[b - 1]);
                }
            }
        }
        i += 1;
    }
    order
}

/// Things in this order.
pub open spec fn arranged<T>(items: Seq<T>, order: Seq<usize>) -> Seq<T> {
    Seq::new(order.len(), |i: int| items[order[i] as int])
}

fn arrange<T>(items: Vec<T>, order: &Vec<usize>) -> (r: Vec<T>)
    requires
        forall|i: int| 0 <= i < order@.len() ==> (#[trigger] order@[i]) < items@.len(),
        forall|i: int, j: int|
            0 <= i < j < order@.len() ==> #[trigger] order@[i] != #[trigger] order@[j],
    ensures
        r@ == arranged(items@, order@),
{
    let ghost all = items@;
    let n: usize = items.len();
    let mut rest = items;
    let mut slots: Vec<Option<T>> = Vec::new();
    while rest.len() > 0
        invariant
            n == all.len(),
            rest@.len() + slots@.len() == n,
            rest@ == all.take(rest@.len() as int),
            forall|i: int|
                0 <= i < slots@.len() ==> #[trigger] slots@[i] == Some(all[n - 1 - i]),
        decreases rest@.len(),
    {
        let ghost k = rest@.len() as int;
        let last = rest.pop();
        assert(last == Some(all[k - 1]));
        assert(rest@ =~= all.take(k - 1));
        slots.push(last);
    }
    let mut r: Vec<T> = Vec::new();
    let mut i: usize = 0;
    while i < order.len()
        invariant
            n == all.len() == slots@.len(),
            i <= order@.len(),
            forall|k: int| 0 <= k < order@.len() ==> (#[trigger] order@[k]) < n,
            forall|a: int, b: int|
                0 <= a < b < order@.len() ==> #[trigger] order@[a] != #[trigger] order@[b],
            forall|k: int|
                i <= k < order@.len() ==> slots@[n - 1 - #[trigger] order@[k]] == Some(
                    all[order@[k] as int],
                ),
            r@ =~= arranged(all, order@.take(i as int)),
        decreases order@.len() - i,
    {
        assert(order@[i as int] < n);
        let at: usize = n - 1 - order[i];
        let ghost was = slots@;
        let x = slots[at].take();
        assert(was[at as int] == Some(all[order@[i as int] as int]));
        if let Some(v) = x {
            r.push(v);
        }
        i += 1;
    }
    assert(order@.take(order@.len() as int) =~= order@);
    r
}

/// Ranks candidates: by their bonuses where the field is strong, and by the order in
/// which they came where it has faded. `weight` is the strength of the field, from 0
/// to 1, and `bonuses` holds what the field adds to each candidate.
pub fn pull_reweight(weight: u64, bonuses: &[i64], candidates: Vec<Song>) -> (r: Vec<Song>)
    requires
        weight <= WHOLE,
        bonuses@.len() == candidates@.len() <= u32::MAX,
        forall|i: int|
            0 <= i < bonuses@.len() ==> -BONUS_LIMIT <= #[trigger] bonuses@[i] <= BONUS_LIMIT,
    ensures
        exists|order: Seq<usize>|
            #![trigger arranged(candidates@, order)]
            is_ranking(order, rank_keys(weight, bonuses@), bonuses@.len() as int) && r@ == arranged(
                candidates@,
                order,
            ),
        r@.to_multiset() == candidates@.to_multiset(),
{
    if bonuses.len() == 0 {
        proof {
            let none = Seq::<usize>::empty();
            assert(is_ranking(none, rank_keys(weight, bonuses@), 0));
            assert(candidates@ =~= arranged(candidates@, none));
        }
        return candidates;
    }
    let keys = compute_keys(weight, bonuses);
    assert(as_ints(keys@) =~= rank_keys(weight, bonuses@));
    let order = rank(&keys);
    assert forall|i: int, j: int| 0 <= i < j < order@.len() implies #[trigger] order@[i]
        != #[trigger] order@[j] by {
        assert(comes_before(as_ints(keys@), order@[i] as int, order@[j] as int));
    }
    proof {
        a_ranking_keeps_all(candidates@, order@, as_ints(keys@));
    }
    arrange(candidates, &order)
}

/// There is only one ranking of candidates.
pub proof fn a_ranking_is_unique(a: Seq<usize>, b: Seq<usize>, keys: Seq<int>, n: int, i: int)
    requires
        is_ranking(a, keys, n),
        is_ranking(b, keys, n),
        0 <= i < n,
    ensures
        a[i] == b[i],
    decreases i,
{
    if a[i] != b[i] {
        assert forall|k: int| 0 <= k < i implies a[k] == b[k] by {
            a_ranking_is_unique(a, b, keys, n, k);
        }
        let x = places_hold_all(a, keys, n, b[i] as int);
        let y = places_hold_all(b, keys, n, a[i] as int);
        if x < i {
            assert(comes_before(keys, b[x] as int, b[i] as int));
        }
        if y < i {
            assert(comes_before(keys, a[y] as int, a[i] as int));
        }
        assert(x != i && y != i);
        assert(comes_before(keys, a[i] as int, a[x] as int));
        assert(comes_before(keys, b[i] as int, b[y] as int));
    }
}

/// Every candidate has a place in a ranking.
proof fn places_hold_all(order: Seq<usize>, keys: Seq<int>, n: int, c: int) -> (x: int)
    requires
        is_ranking(order, keys, n),
        0 <= c < n,
    ensures
        0 <= x < n,
        order[x] == c,
{
    let ints = Seq::new(order.len(), |i: int| order[i] as int);
    assert(ints.no_duplicates()) by {
        assert forall|i: int, j: int|
            0 <= i < ints.len() && 0 <= j < ints.len() && i != j implies ints[i] != ints[j] by {
            if i < j {
                assert(comes_before(keys, order[i] as int, order[j] as int));
            } else {
                assert(comes_before(keys, order[j] as int, order[i] as int));
            }
        }
    }
    ints.unique_seq_to_set();
    vstd::set_lib::lemma_int_range(0, n);
    let range = vstd::set_lib::set_int_range(0, n);
    assert(ints.to_set().subset_of(range)) by {
        assert forall|d: int| ints.to_set().contains(d) implies range.contains(d) by {
            let x = choose|x: int| 0 <= x < ints.len() && ints[x] == d;
            assert(0 <= order[x] < n);
        }
    }
    vstd::set_lib::lemma_subset_equality(ints.to_set(), range);
    assert(range.contains(c));
    assert(ints.to_set().contains(c));
    let x = choose|x: int| 0 <= x < ints.len() && ints[x] == c;
    assert(order[x] == c);
    x
}

proof fn ranking_steps(order: Seq<usize>, keys: Seq<int>, n: int, i: int)
    requires
        is_ranking(order, keys, n),
        forall|a: int, b: int| 0 <= a < b < n ==> comes_before(keys, a, b),
        0 <= i < n,
    ensures
        order[i] >= i,
    decreases i,
{
    if i > 0 {
        ranking_steps(order, keys, n, i - 1);
        assert(comes_before(keys, order[i - 1] as int, order[i] as int));
        if order[i] <= order[i - 1] {
            if order[i] < order[i - 1] {
                assert(comes_before(keys, order[i] as int, order[i - 1] as int));
            }
        }
    }
}

proof fn ranking_steps_down(order: Seq<usize>, keys: Seq<int>, n: int, i: int)
    requires
        is_ranking(order, keys, n),
        forall|a: int, b: int| 0 <= a < b < n ==> comes_before(keys, a, b),
        0 <= i < n,
    ensures
        order[i] <= i,
    decreases n - i,
{
    if i < n - 1 {
        ranking_steps_down(order, keys, n, i + 1);
        assert(comes_before(keys, order[i] as int, order[i + 1] as int));
        if order[i] >= order[i + 1] {
            if order[i] > order[i + 1] {
                assert(comes_before(keys, order[i + 1] as int, order[i] as int));
            }
        }
    }
}

/// Every place up to `n` occurs among `n` different ones.
proof fn every_place_occurs(order: Seq<usize>, k: int)
    requires
        0 <= k < order.len(),
        order.no_duplicates(),
        forall|i: int| 0 <= i < order.len() ==> 0 <= (#[trigger] order[i]) < order.len(),
    ensures
        exists|j: int| 0 <= j < order.len() && #[trigger] order[j] == k,
{
    let places = order.map_values(|x: usize| x as int);
    let all = vstd::set_lib::set_int_range(0, order.len() as int);
    assert(places.no_duplicates());
    places.unique_seq_to_set();
    vstd::set_lib::lemma_int_range(0, order.len() as int);
    assert(places.to_set().subset_of(all)) by {
        assert forall|x: int| places.to_set().contains(x) implies all.contains(x) by {
            let i = choose|i: int| 0 <= i < places.len() && places[i] == x;
            assert(places[i] == order[i]);
        }
    }
    vstd::seq_lib::seq_to_set_is_finite(places);
    vstd::set_lib::lemma_subset_equality(places.to_set(), all);
    assert(all.contains(k));
    assert(places.to_set().contains(k));
    let j = choose|j: int| 0 <= j < places.len() && places[j] == k;
    assert(order[j] == k);
}

proof fn arranging_keeps_all<T>(items: Seq<T>, order: Seq<usize>)
    requires
        order.len() == items.len(),
        order.no_duplicates(),
        forall|i: int| 0 <= i < order.len() ==> 0 <= (#[trigger] order[i]) < order.len(),
    ensures
        arranged(items, order).to_multiset() == items.to_multiset(),
    decreases items.len(),
{
    broadcast use vstd::seq_lib::group_to_multiset_ensures;

    let a = arranged(items, order);
    if items.len() == 0 {
        assert(a =~= items);
    } else {
        let last = items.len() - 1;
        every_place_occurs(order, last);
        let k = choose|j: int| 0 <= j < order.len() && #[trigger] order[j] == last;
        let fewer = order.remove(k);
        let rest = items.drop_last();
        assert forall|i: int| 0 <= i < fewer.len() implies 0 <= (#[trigger] fewer[i])
            < fewer.len() by {
            let j = if i < k {
                i
            } else {
                i + 1
            };
            assert(fewer[i] == order[j]);
            assert(order[j] != order[k]);
        }
        assert(fewer.no_duplicates()) by {
            assert forall|i: int, j: int|
                0 <= i < fewer.len() && 0 <= j < fewer.len() && i != j implies fewer[i]
                != fewer[j] by {
                let x = if i < k {
                    i
                } else {
                    i + 1
                };
                let y = if j < k {
                    j
                } else {
                    j + 1
                };
                assert(order[x] != order[y]);
            }
        }
        arranging_keeps_all(rest, fewer);
        assert(a.remove(k) =~= arranged(rest, fewer));
        assert(a[k] == items.last());
        assert(items =~= rest.push(items.last()));
        assert(a.contains(a[k]));
        assert(a.to_multiset() =~= a.remove(k).to_multiset().insert(a[k]));
    }
}

/// To rank is to reorder: no candidate is lost, and none is added.
pub proof fn a_ranking_keeps_all<T>(items: Seq<T>, order: Seq<usize>, keys: Seq<int>)
    requires
        is_ranking(order, keys, items.len() as int),
    ensures
        arranged(items, order).to_multiset() == items.to_multiset(),
{
    assert forall|i: int, j: int|
        0 <= i < order.len() && 0 <= j < order.len() && i != j implies order[i] != order[j] by {
        if i < j {
            assert(comes_before(keys, order[i] as int, order[j] as int));
        } else {
            assert(comes_before(keys, order[j] as int, order[i] as int));
        }
    }
    arranging_keeps_all(items, order);
}

/// A field that has faded, or that prefers nothing, leaves the candidates as they came.
pub proof fn a_faded_field_leaves_the_order(order: Seq<usize>, weight: u64, b: Seq<i64>, i: int)
    requires
        b.len() > 0,
        weight == 0 || (weight < WHOLE && highest(b) == lowest(b)),
        is_ranking(order, rank_keys(weight, b), b.len() as int),
        0 <= i < b.len(),
    ensures
        order[i] == i,
{
    let keys = rank_keys(weight, b);
    let n = b.len() as int;
    bonuses_lie_between(b);
    assert(lowest(b) <= b[0] <= highest(b));
    assert forall|x: int, y: int| 0 <= x < y < n implies comes_before(keys, x, y) by {
        let span = highest(b) - lowest(b);
        let last = b.len() - 1;
        if span > 0 {
            let p = (b[x] - lowest(b)) * last;
            let q = (b[y] - lowest(b)) * last;
            assert(0 * p == 0 && 0 * q == 0);
            assert((last - x) * span > (last - y) * span) by (nonlinear_arith)
                requires
                    x < y,
                    span > 0,
            ;
            let s = (last - x) * span;
            let t = (last - y) * span;
            assert(1_000_000_000 * s > 1_000_000_000 * t);
        } else {
            let rest = WHOLE - weight;
            assert(rest * (last - x) > rest * (last - y)) by (nonlinear_arith)
                requires
                    x < y,
                    rest > 0,
            ;
        }
    }
    ranking_steps(order, keys, n, i);
    ranking_steps_down(order, keys, n, i);
}

/// At full strength, a candidate with a larger bonus comes before one with a smaller.
pub proof fn a_full_field_ranks_by_bonus(order: Seq<usize>, b: Seq<i64>, i: int, j: int)
    requires
        is_ranking(order, rank_keys(WHOLE, b), b.len() as int),
        0 <= i < j < b.len(),
    ensures
        b[order[i] as int] >= b[order[j] as int],
{
    let keys = rank_keys(WHOLE, b);
    let x = order[i] as int;
    let y = order[j] as int;
    assert(comes_before(keys, x, y));
    bonuses_lie_between(b);
    assert(lowest(b) <= b[x] <= highest(b));
    assert(lowest(b) <= b[y] <= highest(b));
    let span = highest(b) - lowest(b);
    let last = b.len() - 1;
    if span > 0 && b[x] < b[y] {
        let lo = lowest(b);
        assert((b[x] - lo) * last < (b[y] - lo) * last) by (nonlinear_arith)
            requires
                b[x] < b[y],
                last > 0,
        ;
        let s = (last - x) * span;
        let t = (last - y) * span;
        assert(0 * s == 0 && 0 * t == 0);
        let p = (b[x] - lo) * last;
        let q = (b[y] - lo) * last;
        assert(1_000_000_000 * p < 1_000_000_000 * q);
        assert(keys[x] == 1_000_000_000 * p);
        assert(keys[y] == 1_000_000_000 * q);
    }
}

proof fn keys_compared(weight: u64, b: Seq<i64>, x: int, y: int)
    requires
        weight <= WHOLE,
        0 <= x < y < b.len(),
        highest(b) > lowest(b),
    ensures
        rank_key(weight, b, y) - rank_key(weight, b, x) == weight * ((b[y] - b[x]) * (b.len() - 1))
            - (WHOLE - weight) * ((y - x) * (highest(b) - lowest(b))),
{
    let lo = lowest(b);
    let span = highest(b) - lo;
    let last = b.len() - 1;
    let w = weight as int;
    let r = WHOLE - weight;
    let (p, q) = ((b[x] - lo) * last, (b[y] - lo) * last);
    let (s, t) = ((last - x) * span, (last - y) * span);
    assert(q - p == (b[y] - b[x]) * last) by (nonlinear_arith)
        requires
            p == (b[x] - lo) * last,
            q == (b[y] - lo) * last,
    ;
    assert(s - t == (y - x) * span) by (nonlinear_arith)
        requires
            s == (last - x) * span,
            t == (last - y) * span,
    ;
    assert(w * q - w * p == w * (q - p)) by (nonlinear_arith);
    assert(r * s - r * t == r * (s - t)) by (nonlinear_arith);
}

/// A field bends the order as far as it is strong. Of two candidates the one that came
/// later gets ahead just where what the field prefers about it, as a part of all that it
/// prefers, outweighs how far back it stood, as a part of the whole row: the first by the
/// strength of the field, the second by what is left of it. Where the two weigh the same,
/// the candidates stay as they came.
///
/// `low` and `high` are the places of a smallest and of a largest bonus; `i` and `j` are
/// where the candidates `x` and `y` end up.
pub proof fn a_field_bends_the_order<T>(
    items: Seq<T>,
    order: Seq<usize>,
    weight: u64,
    b: Seq<i64>,
    low: int,
    high: int,
    x: int,
    y: int,
    i: int,
    j: int,
)
    requires
        weight <= 1_000_000_000,
        items.len() == b.len(),
        is_ranking(order, rank_keys(weight, b), b.len() as int),
        0 <= low < b.len(),
        0 <= high < b.len(),
        forall|k: int| 0 <= k < b.len() ==> b[low] <= #[trigger] b[k] <= b[high],
        0 <= x < y < b.len(),
        0 <= i < b.len(),
        0 <= j < b.len(),
        order[i] == x,
        order[j] == y,
    ensures
        arranged(items, order)[i] == items[x],
        arranged(items, order)[j] == items[y],
        j < i <==> weight * ((b[y] - b[x]) * (b.len() - 1)) > (1_000_000_000 - weight) * ((y - x) * (
        b[high] - b[low])),
        i < j <==> weight * ((b[y] - b[x]) * (b.len() - 1)) <= (1_000_000_000 - weight) * ((y - x)
            * (b[high] - b[low])),
{
    let keys = rank_keys(weight, b);
    bonuses_lie_between(b);
    let l = choose|k: int| 0 <= k < b.len() && lowest(b) == #[trigger] b[k];
    let h = choose|k: int| 0 <= k < b.len() && highest(b) == #[trigger] b[k];
    assert(b[low] <= b[l] && b[h] <= b[high]);
    assert(lowest(b) <= b[low] && b[high] <= highest(b));
    assert(keys[x] == rank_key(weight, b, x) && keys[y] == rank_key(weight, b, y));
    if b[high] > b[low] {
        keys_compared(weight, b, x, y);
    } else {
        assert(b[x] == b[low] && b[y] == b[low]);
        let last = b.len() - 1;
        let r = WHOLE - weight;
        assert((b[y] - b[x]) * last == 0) by (nonlinear_arith)
            requires
                b[y] == b[x],
        ;
        assert((y - x) * (b[high] - b[low]) == 0) by (nonlinear_arith)
            requires
                b[high] == b[low],
        ;
        assert(weight * 0 == 0 && r * 0 == 0);
        assert(r * (last - x) >= r * (last - y)) by (nonlinear_arith)
            requires
                x < y,
                r >= 0,
        ;
    }
    if i < j {
        assert(comes_before(keys, order[i] as int, order[j] as int));
    } else if j < i {
        assert(comes_before(keys, order[j] as int, order[i] as int));
    }
}

/// A field of more than half strength never leaves what it likes least ahead of what it
/// likes best.
pub proof fn a_strong_field_puts_its_best_ahead(
    order: Seq<usize>,
    weight: u64,
    b: Seq<i64>,
    low: int,
    high: int,
    i: int,
    j: int,
)
    requires
        500_000_000 < weight <= 1_000_000_000,
        is_ranking(order, rank_keys(weight, b), b.len() as int),
        0 <= low < b.len(),
        0 <= high < b.len(),
        forall|k: int| 0 <= k < b.len() ==> b[low] <= #[trigger] b[k] <= b[high],
        b[low] < b[high],
        0 <= i < b.len(),
        0 <= j < b.len(),
        order[i] == low,
        order[j] == high,
    ensures
        j < i,
{
    let w = weight as int;
    let s = b[high] - b[low];
    let n = b.len() - 1;
    let r = 1_000_000_000 - weight;
    if low < high {
        a_field_bends_the_order(b, order, weight, b, low, high, low, high, i, j);
        let d = high - low;
        assert(w * (s * n) > r * (d * s)) by (nonlinear_arith)
            requires
                w > r,
                r >= 0,
                s > 0,
                0 < d <= n,
        ;
    } else {
        a_field_bends_the_order(b, order, weight, b, low, high, high, low, j, i);
        let d = low - high;
        assert(w * ((b[low] - b[high]) * n) <= r * (d * s)) by (nonlinear_arith)
            requires
                w >= 0,
                r >= 0,
                s == b[high] - b[low],
                s > 0,
                0 < d <= n,
        ;
    }
}

/// A stronger field never takes back what a weaker one has put ahead.
pub proof fn a_stronger_field_keeps_what_it_prefers(
    weak: Seq<usize>,
    strong: Seq<usize>,
    w: u64,
    v: u64,
    b: Seq<i64>,
    x: int,
    y: int,
    i: int,
    j: int,
    k: int,
    l: int,
)
    requires
        w <= v <= 1_000_000_000,
        is_ranking(weak, rank_keys(w, b), b.len() as int),
        is_ranking(strong, rank_keys(v, b), b.len() as int),
        0 <= x < y < b.len(),
        0 <= i < b.len() && 0 <= j < b.len() && 0 <= k < b.len() && 0 <= l < b.len(),
        weak[i] == x && weak[j] == y,
        strong[k] == x && strong[l] == y,
        j < i,
    ensures
        l < k,
{
    bonuses_lie_between(b);
    let low = choose|c: int| 0 <= c < b.len() && lowest(b) == #[trigger] b[c];
    let high = choose|c: int| 0 <= c < b.len() && highest(b) == #[trigger] b[c];
    a_field_bends_the_order(b, weak, w, b, low, high, x, y, i, j);
    a_field_bends_the_order(b, strong, v, b, low, high, x, y, k, l);
    let p = (b[y] - b[x]) * (b.len() - 1);
    let q = (y - x) * (b[high] - b[low]);
    assert(q >= 0) by (nonlinear_arith)
        requires
            q == (y - x) * (b[high] - b[low]),
            y > x,
            b[high] >= b[low],
    ;
    assert(v * p > (1_000_000_000 - v) * q) by (nonlinear_arith)
        requires
            w * p > (1_000_000_000 - w) * q,
            w <= v <= 1_000_000_000,
            q >= 0,
            w >= 0,
    ;
}

// ---------------------------------------------------------------------------
// Words
// ---------------------------------------------------------------------------

/// The words for less energy.
pub open spec fn calmer_words() -> Seq<Seq<char>> {
    seq![
        "calmer"@,
        "calm"@,
        "softer"@,
        "gentler"@,
        "mellower"@,
        "slower"@,
        "spacier"@,
        "chiller"@,
    ]
}

/// The words for more energy.
pub open spec fn driving_words() -> Seq<Seq<char>> {
    seq![
        "energy"@,
        "energetic"@,
        "harder"@,
        "louder"@,
        "punchier"@,
        "faster"@,
        "driving"@,
        "intense"@,
    ]
}

/// The words for more brightness.
pub open spec fn brighter_words() -> Seq<Seq<char>> {
    seq!["warmer"@, "happier"@, "brighter"@, "dreamier"@, "sweeter"@]
}

/// The words for less brightness.
pub open spec fn darker_words() -> Seq<Seq<char>> {
    seq!["darker"@, "sadder"@, "moodier"@, "gloomier"@, "bleaker"@]
}

/// The words that turn the next one round.
pub open spec fn negators() -> Seq<Seq<char>> {
    seq!["less"@, "not"@, "no"@, "never"@, "un"@, "anti"@]
}

/// The direction of a word, along energy and valence.
pub open spec fn direction_of(w: Seq<char>) -> Option<(int, int)> {
    if text::is_any(w, calmer_words()) {
        Some((-1, 0))
    } else if text::is_any(w, driving_words()) {
        Some((1, 0))
    } else if text::is_any(w, brighter_words()) {
        Some((0, 1))
    } else if text::is_any(w, darker_words()) {
        Some((0, -1))
    } else {
        None
    }
}

fn word_direction(w: &str) -> (r: Option<(i64, i64)>)
    ensures
        match r {
            Some((e, v)) => direction_of(w@) == Some((e as int, v as int)) && -1 <= e <= 1 && -1 <= v
                <= 1,
            None => direction_of(w@) is None,
        },
{
    let calmer = vec![
        "calmer",
        "calm",
        "softer",
        "gentler",
        "mellower",
        "slower",
        "spacier",
        "chiller",
    ];
    let driving = vec![
        "energy",
        "energetic",
        "harder",
        "louder",
        "punchier",
        "faster",
        "driving",
        "intense",
    ];
    let brighter = vec!["warmer", "happier", "brighter", "dreamier", "sweeter"];
    let darker = vec!["darker", "sadder", "moodier", "gloomier", "bleaker"];
    assert(text::views(calmer@) =~= calmer_words());
    assert(text::views(driving@) =~= driving_words());
    assert(text::views(brighter@) =~= brighter_words());
    assert(text::views(darker@) =~= darker_words());
    if text::is_one_of(w, &calmer) {
        Some((-1, 0))
    } else if text::is_one_of(w, &driving) {
        Some((1, 0))
    } else if text::is_one_of(w, &brighter) {
        Some((0, 1))
    } else if text::is_one_of(w, &darker) {
        Some((0, -1))
    } else {
        None
    }
}

fn is_negator(w: &str) -> (r: bool)
    ensures
        r == text::is_any(w@, negators()),
{
    let words = vec!["less", "not", "no", "never", "un", "anti"];
    assert(text::views(words@) =~= negators());
    text::is_one_of(w, &words)
}

/// What words ask for.
#[verifier::ext_equal]
pub struct Asked {
    /// How far along energy.
    pub energy: int,
    /// How far along valence.
    pub valence: int,
    /// The words that say so.
    pub labels: Seq<Seq<char>>,
    /// The next word is turned round.
    pub neg: bool,
}

/// One step along an axis, no further than the limit.
pub open spec fn step(axis: int, d: int, neg: bool) -> int {
    number::clamped(
        if neg {
            axis - d
        } else {
            axis + d
        },
        -AXIS_LIMIT as int,
        AXIS_LIMIT as int,
    )
}

/// What a row of words asks for.
pub open spec fn asked(words: Seq<Seq<char>>) -> Asked
    decreases words.len(),
{
    if words.len() == 0 {
        Asked { energy: 0, valence: 0, labels: Seq::empty(), neg: false }
    } else {
        let before = asked(words.drop_last());
        let w = words.last();
        if text::is_any(w, negators()) {
            Asked { neg: true, ..before }
        } else {
            match direction_of(w) {
                Some((e, v)) => Asked {
                    energy: step(before.energy, e, before.neg),
                    valence: step(before.valence, v, before.neg),
                    labels: before.labels.push(
                        if before.neg {
                            "less "@ + w
                        } else {
                            w
                        },
                    ),
                    neg: false,
                },
                None => before,
            }
        }
    }
}

fn step_axis(axis: i64, d: i64, neg: bool) -> (r: i64)
    requires
        -AXIS_LIMIT <= axis <= AXIS_LIMIT,
        -1 <= d <= 1,
    ensures
        r == step(axis as int, d as int, neg),
        -AXIS_LIMIT <= r <= AXIS_LIMIT,
{
    let next: i64 = if neg {
        axis - d
    } else {
        axis + d
    };
    if next > AXIS_LIMIT {
        AXIS_LIMIT
    } else if next < -AXIS_LIMIT {
        -AXIS_LIMIT
    } else {
        next
    }
}

/// The pull that words ask for: the words that name a direction add up, and one behind a
/// negation counts the other way. Words that name none, or that cancel out, ask for
/// nothing.
pub fn lexicon_pull(words: &str, strength: u64, now: Moment) -> (r: Option<Pull>)
    ensures
        ({
            let a = asked(text::words(text::lower(words@)));
            match r {
                Some(p) => {
                    &&& a.energy != 0 || a.valence != 0
                    &&& p.label@ == text::joined(a.labels, " "@)
                    &&& p.axes@.len() == 2
                    &&& p.axes@[0] == a.energy
                    &&& p.axes@[1] == a.valence
                    &&& p.strength == number::smaller(strength as int, WHOLE as int)
                    &&& p.set_at == now
                    &&& p.half_life.nanos == PULL_HALF_LIFE_SECS * 1_000_000_000
                    &&& p.half_life.nanos == 600_000_000_000
                    &&& p.wf()
                },
                None => a.energy == 0 && a.valence == 0,
            }
        }),
{
    let lc = text::to_lower(words);
    let toks = text::split_whitespace(lc.as_str());
    let ghost all = text::texts(toks@);
    let mut energy: i64 = 0;
    let mut valence: i64 = 0;
    let mut neg = false;
    let mut labels: Vec<String> = Vec::new();
    let mut i: usize = 0;
    proof {
        assert(all.take(0) =~= Seq::<Seq<char>>::empty());
        assert(text::texts(labels@) =~= Seq::<Seq<char>>::empty());
    }
    while i < toks.len()
        invariant
            i <= toks@.len(),
            all == text::texts(toks@),
            -AXIS_LIMIT <= energy <= AXIS_LIMIT,
            -AXIS_LIMIT <= valence <= AXIS_LIMIT,
            energy == asked(all.take(i as int)).energy,
            valence == asked(all.take(i as int)).valence,
            neg == asked(all.take(i as int)).neg,
            text::texts(labels@) == asked(all.take(i as int)).labels,
        decreases toks@.len() - i,
    {
        broadcast use text::texts_push;

        assert(all.take(i + 1).drop_last() =~= all.take(i as int));
        assert(all.take(i + 1).last() == toks@[i as int]@);
        let tok = toks[i].as_str();
        if is_negator(tok) {
            neg = true;
        } else if let Some((e, v)) = word_direction(tok) {
            energy = step_axis(energy, e, neg);
            valence = step_axis(valence, v, neg);
            if neg {
                let mut s = "less ".to_owned();
                s.append(tok);
                labels.push(s);
            } else {
                labels.push(tok.to_owned());
            }
            neg = false;
        }
        i += 1;
    }
    assert(all.take(i as int) =~= all);
    if energy == 0 && valence == 0 {
        return None;
    }
    let axes: Vec<i64> = vec![energy, valence];
    Some(Pull::new(text::join(labels.as_slice(), " "), axes, strength, now))
}

// ---------------------------------------------------------------------------
// What words and genres say
// ---------------------------------------------------------------------------

proof fn pull_words()
    ensures
        "calmer"@.len() == 6 && "calmer"@[0] == 'c' && "calmer"@[1] == 'a',
        "calm"@.len() == 4 && "calm"@[0] == 'c' && "calm"@[1] == 'a',
        "softer"@.len() == 6 && "softer"@[0] == 's' && "softer"@[1] == 'o',
        "gentler"@.len() == 7 && "gentler"@[0] == 'g' && "gentler"@[1] == 'e',
        "mellower"@.len() == 8 && "mellower"@[0] == 'm' && "mellower"@[1] == 'e',
        "slower"@.len() == 6 && "slower"@[0] == 's' && "slower"@[1] == 'l',
        "spacier"@.len() == 7 && "spacier"@[0] == 's' && "spacier"@[1] == 'p',
        "chiller"@.len() == 7 && "chiller"@[0] == 'c' && "chiller"@[1] == 'h',
        "energy"@.len() == 6 && "energy"@[0] == 'e' && "energy"@[1] == 'n',
        "energetic"@.len() == 9 && "energetic"@[0] == 'e' && "energetic"@[1] == 'n',
        "harder"@.len() == 6 && "harder"@[0] == 'h' && "harder"@[1] == 'a',
        "louder"@.len() == 6 && "louder"@[0] == 'l' && "louder"@[1] == 'o',
        "punchier"@.len() == 8 && "punchier"@[0] == 'p' && "punchier"@[1] == 'u',
        "faster"@.len() == 6 && "faster"@[0] == 'f' && "faster"@[1] == 'a',
        "driving"@.len() == 7 && "driving"@[0] == 'd' && "driving"@[1] == 'r',
        "intense"@.len() == 7 && "intense"@[0] == 'i' && "intense"@[1] == 'n',
        "warmer"@.len() == 6 && "warmer"@[0] == 'w' && "warmer"@[1] == 'a',
        "happier"@.len() == 7 && "happier"@[0] == 'h' && "happier"@[1] == 'a',
        "brighter"@.len() == 8 && "brighter"@[0] == 'b' && "brighter"@[1] == 'r',
        "dreamier"@.len() == 8 && "dreamier"@[0] == 'd' && "dreamier"@[1] == 'r',
        "sweeter"@.len() == 7 && "sweeter"@[0] == 's' && "sweeter"@[1] == 'w',
        "darker"@.len() == 6 && "darker"@[0] == 'd' && "darker"@[1] == 'a',
        "sadder"@.len() == 6 && "sadder"@[0] == 's' && "sadder"@[1] == 'a',
        "moodier"@.len() == 7 && "moodier"@[0] == 'm' && "moodier"@[1] == 'o',
        "gloomier"@.len() == 8 && "gloomier"@[0] == 'g' && "gloomier"@[1] == 'l',
        "bleaker"@.len() == 7 && "bleaker"@[0] == 'b' && "bleaker"@[1] == 'l',
        "less"@.len() == 4 && "less"@[0] == 'l' && "less"@[1] == 'e',
        "not"@.len() == 3 && "not"@[0] == 'n' && "not"@[1] == 'o',
        "no"@.len() == 2 && "no"@[0] == 'n' && "no"@[1] == 'o',
        "never"@.len() == 5 && "never"@[0] == 'n' && "never"@[1] == 'e',
        "un"@.len() == 2 && "un"@[0] == 'u' && "un"@[1] == 'n',
        "anti"@.len() == 4 && "anti"@[0] == 'a' && "anti"@[1] == 'n',
{
    reveal_strlit("calmer");
    reveal_strlit("calm");
    reveal_strlit("softer");
    reveal_strlit("gentler");
    reveal_strlit("mellower");
    reveal_strlit("slower");
    reveal_strlit("spacier");
    reveal_strlit("chiller");
    reveal_strlit("energy");
    reveal_strlit("energetic");
    reveal_strlit("harder");
    reveal_strlit("louder");
    reveal_strlit("punchier");
    reveal_strlit("faster");
    reveal_strlit("driving");
    reveal_strlit("intense");
    reveal_strlit("warmer");
    reveal_strlit("happier");
    reveal_strlit("brighter");
    reveal_strlit("dreamier");
    reveal_strlit("sweeter");
    reveal_strlit("darker");
    reveal_strlit("sadder");
    reveal_strlit("moodier");
    reveal_strlit("gloomier");
    reveal_strlit("bleaker");
    reveal_strlit("less");
    reveal_strlit("not");
    reveal_strlit("no");
    reveal_strlit("never");
    reveal_strlit("un");
    reveal_strlit("anti");
}

proof fn calmer_word(w: Seq<char>)
    requires
        w == "calmer"@ || w == "calm"@ || w == "softer"@ || w == "gentler"@ || w == "mellower"@
            || w == "slower"@ || w == "spacier"@ || w == "chiller"@,
    ensures
        !text::is_any(w, negators()),
        direction_of(w) == Some((-1int, 0int)),
{
    pull_words();
    let list = calmer_words();
    assert(list[0] == "calmer"@);
    assert(list[1] == "calm"@);
    assert(list[2] == "softer"@);
    assert(list[3] == "gentler"@);
    assert(list[4] == "mellower"@);
    assert(list[5] == "slower"@);
    assert(list[6] == "spacier"@);
    assert(list[7] == "chiller"@);
    assert(text::is_any(w, list));
}

proof fn driving_word(w: Seq<char>)
    requires
        w == "energy"@ || w == "energetic"@ || w == "harder"@ || w == "louder"@ || w == "punchier"@
            || w == "faster"@ || w == "driving"@ || w == "intense"@,
    ensures
        !text::is_any(w, negators()),
        direction_of(w) == Some((1int, 0int)),
{
    pull_words();
    let list = driving_words();
    assert(list[0] == "energy"@);
    assert(list[1] == "energetic"@);
    assert(list[2] == "harder"@);
    assert(list[3] == "louder"@);
    assert(list[4] == "punchier"@);
    assert(list[5] == "faster"@);
    assert(list[6] == "driving"@);
    assert(list[7] == "intense"@);
    assert(text::is_any(w, list));
    assert(!text::is_any(w, calmer_words()));
}

proof fn brighter_word(w: Seq<char>)
    requires
        w == "warmer"@ || w == "happier"@ || w == "brighter"@ || w == "dreamier"@
            || w == "sweeter"@,
    ensures
        !text::is_any(w, negators()),
        direction_of(w) == Some((0int, 1int)),
{
    pull_words();
    let list = brighter_words();
    assert(list[0] == "warmer"@);
    assert(list[1] == "happier"@);
    assert(list[2] == "brighter"@);
    assert(list[3] == "dreamier"@);
    assert(list[4] == "sweeter"@);
    assert(text::is_any(w, list));
    assert(!text::is_any(w, calmer_words()));
    assert(!text::is_any(w, driving_words()));
}

proof fn darker_word(w: Seq<char>)
    requires
        w == "darker"@ || w == "sadder"@ || w == "moodier"@ || w == "gloomier"@ || w == "bleaker"@,
    ensures
        !text::is_any(w, negators()),
        direction_of(w) == Some((0int, -1int)),
{
    pull_words();
    let list = darker_words();
    assert(list[0] == "darker"@);
    assert(list[1] == "sadder"@);
    assert(list[2] == "moodier"@);
    assert(list[3] == "gloomier"@);
    assert(list[4] == "bleaker"@);
    assert(text::is_any(w, list));
    assert(!text::is_any(w, calmer_words()));
    assert(!text::is_any(w, driving_words()));
    assert(!text::is_any(w, brighter_words()));
}

proof fn negator_word(w: Seq<char>)
    requires
        w == "less"@ || w == "not"@ || w == "no"@ || w == "never"@ || w == "un"@ || w == "anti"@,
    ensures
        text::is_any(w, negators()),
{
    let list = negators();
    assert(list[0] == "less"@);
    assert(list[1] == "not"@);
    assert(list[2] == "no"@);
    assert(list[3] == "never"@);
    assert(list[4] == "un"@);
    assert(list[5] == "anti"@);
    assert(text::is_any(w, list));
}

/// Each word that names a direction moves what is asked by one step: the calming words take
/// energy away and the driving ones add it, the bright ones add valence and the dark ones
/// take it away. Behind a negation it is the other way round, and the negation is spent. A
/// negation waits for its word, and any other word changes nothing.
pub proof fn a_word_moves_by_one_step(words: Seq<Seq<char>>, w: Seq<char>)
    requires
        -16_777_216 < asked(words).energy < 16_777_216,
        -16_777_216 < asked(words).valence < 16_777_216,
    ensures
        ({
            let before = asked(words);
            let now = asked(words.push(w));
            let calmer = w == "calmer"@ || w == "calm"@ || w == "softer"@ || w == "gentler"@
                || w == "mellower"@ || w == "slower"@ || w == "spacier"@ || w == "chiller"@;
            let driving = w == "energy"@ || w == "energetic"@ || w == "harder"@ || w == "louder"@
                || w == "punchier"@ || w == "faster"@ || w == "driving"@ || w == "intense"@;
            let brighter = w == "warmer"@ || w == "happier"@ || w == "brighter"@ || w == "dreamier"@
                || w == "sweeter"@;
            let darker = w == "darker"@ || w == "sadder"@ || w == "moodier"@ || w == "gloomier"@
                || w == "bleaker"@;
            let negating = w == "less"@ || w == "not"@ || w == "no"@ || w == "never"@ || w == "un"@
                || w == "anti"@;
            &&& calmer ==> now.energy == before.energy + if before.neg { 1int } else { -1int }
                && now.valence == before.valence
            &&& driving ==> now.energy == before.energy + if before.neg { -1int } else { 1int }
                && now.valence == before.valence
            &&& brighter ==> now.energy == before.energy
                && now.valence == before.valence + if before.neg { -1int } else { 1int }
            &&& darker ==> now.energy == before.energy
                && now.valence == before.valence + if before.neg { 1int } else { -1int }
            &&& calmer || driving || brighter || darker ==> !now.neg
                && now.labels == before.labels.push(
                if before.neg {
                    "less "@ + w
                } else {
                    w
                },
            )
            &&& negating ==> now.neg && now.energy == before.energy && now.valence
                == before.valence && now.labels == before.labels
            &&& !(calmer || driving || brighter || darker || negating) ==> now == before
        }),
{
    assert(words.push(w).drop_last() =~= words);
    assert(words.push(w).last() == w);
    if w == "calmer"@ || w == "calm"@ || w == "softer"@ || w == "gentler"@ || w == "mellower"@
        || w == "slower"@ || w == "spacier"@ || w == "chiller"@ {
        calmer_word(w);
    }
    if w == "energy"@ || w == "energetic"@ || w == "harder"@ || w == "louder"@ || w == "punchier"@
        || w == "faster"@ || w == "driving"@ || w == "intense"@ {
        driving_word(w);
    }
    if w == "warmer"@ || w == "happier"@ || w == "brighter"@ || w == "dreamier"@
        || w == "sweeter"@ {
        brighter_word(w);
    }
    if w == "darker"@ || w == "sadder"@ || w == "moodier"@ || w == "gloomier"@ || w == "bleaker"@ {
        darker_word(w);
    }
    if w == "less"@ || w == "not"@ || w == "no"@ || w == "never"@ || w == "un"@ || w == "anti"@ {
        negator_word(w);
    }
    other_word(w);
}

proof fn other_word(w: Seq<char>)
    ensures
        text::is_any(w, negators()) ==> w == "less"@ || w == "not"@ || w == "no"@ || w == "never"@
            || w == "un"@ || w == "anti"@,
        text::is_any(w, calmer_words()) ==> w == "calmer"@ || w == "calm"@ || w == "softer"@
            || w == "gentler"@ || w == "mellower"@ || w == "slower"@ || w == "spacier"@
            || w == "chiller"@,
        text::is_any(w, driving_words()) ==> w == "energy"@ || w == "energetic"@ || w == "harder"@
            || w == "louder"@ || w == "punchier"@ || w == "faster"@ || w == "driving"@
            || w == "intense"@,
        text::is_any(w, brighter_words()) ==> w == "warmer"@ || w == "happier"@ || w == "brighter"@
            || w == "dreamier"@ || w == "sweeter"@,
        text::is_any(w, darker_words()) ==> w == "darker"@ || w == "sadder"@ || w == "moodier"@
            || w == "gloomier"@ || w == "bleaker"@,
{
}

/// Nothing is asked where nothing is said.
pub proof fn nothing_said_asks_for_nothing()
    ensures
        asked(Seq::empty()).energy == 0,
        asked(Seq::empty()).valence == 0,
        !asked(Seq::empty()).neg,
{
}

/// A strength is shown in hundredths, none of which is further from it than half of one.
pub proof fn a_shown_strength_is_the_nearest(strength: u64)
    ensures
        -5_000_000 <= 10_000_000 * nearest_hundredths(strength) - strength <= 5_000_000,
        -5_000_000 <= 10_000_000 * hundredths(strength) - strength <= 5_000_000,
{
}

proof fn calm_genre(g: Seq<char>)
    ensures
        text::has_any(g, calm_words()) == (text::has(g, "ambient"@) || text::has(g, "classical"@)
            || text::has(g, "jazz"@) || text::has(g, "acoustic"@) || text::has(g, "folk"@)
            || text::has(g, "blues"@) || text::has(g, "chill"@) || text::has(g, "downtempo"@)
            || text::has(g, "singer-songwriter"@) || text::has(g, "piano"@)
            || text::has(g, "lo-fi"@) || text::has(g, "lofi"@)),
{
    let list = calm_words();
    assert(list[0] == "ambient"@);
    assert(list[1] == "classical"@);
    assert(list[2] == "jazz"@);
    assert(list[3] == "acoustic"@);
    assert(list[4] == "folk"@);
    assert(list[5] == "blues"@);
    assert(list[6] == "chill"@);
    assert(list[7] == "downtempo"@);
    assert(list[8] == "singer-songwriter"@);
    assert(list[9] == "piano"@);
    assert(list[10] == "lo-fi"@);
    assert(list[11] == "lofi"@);
}

proof fn mid_genre(g: Seq<char>)
    ensures
        text::has_any(g, mid_words()) == (text::has(g, "pop"@) || text::has(g, "rock"@)
            || text::has(g, "indie"@) || text::has(g, "soul"@) || text::has(g, "r&b"@)
            || text::has(g, "rnb"@) || text::has(g, "country"@) || text::has(g, "hip hop"@)
            || text::has(g, "hip-hop"@) || text::has(g, "hiphop"@) || text::has(g, "rap"@)
            || text::has(g, "funk"@) || text::has(g, "reggae"@)),
{
    let list = mid_words();
    assert(list[0] == "pop"@);
    assert(list[1] == "rock"@);
    assert(list[2] == "indie"@);
    assert(list[3] == "soul"@);
    assert(list[4] == "r&b"@);
    assert(list[5] == "rnb"@);
    assert(list[6] == "country"@);
    assert(list[7] == "hip hop"@);
    assert(list[8] == "hip-hop"@);
    assert(list[9] == "hiphop"@);
    assert(list[10] == "rap"@);
    assert(list[11] == "funk"@);
    assert(list[12] == "reggae"@);
}

proof fn energetic_genre(g: Seq<char>)
    ensures
        text::has_any(g, energetic_words()) == (text::has(g, "metal"@) || text::has(g, "punk"@)
            || text::has(g, "techno"@) || text::has(g, "house"@) || text::has(g, "edm"@)
            || text::has(g, "dance"@) || text::has(g, "drum and bass"@) || text::has(g, "dnb"@)
            || text::has(g, "trance"@) || text::has(g, "hardcore"@) || text::has(g, "breakcore"@)
            || text::has(g, "electro"@)),
{
    let list = energetic_words();
    assert(list[0] == "metal"@);
    assert(list[1] == "punk"@);
    assert(list[2] == "techno"@);
    assert(list[3] == "house"@);
    assert(list[4] == "edm"@);
    assert(list[5] == "dance"@);
    assert(list[6] == "drum and bass"@);
    assert(list[7] == "dnb"@);
    assert(list[8] == "trance"@);
    assert(list[9] == "hardcore"@);
    assert(list[10] == "breakcore"@);
    assert(list[11] == "electro"@);
}

proof fn bright_genre(g: Seq<char>)
    ensures
        text::has_any(g, bright_words()) == (text::has(g, "pop"@) || text::has(g, "funk"@)
            || text::has(g, "disco"@) || text::has(g, "reggae"@) || text::has(g, "soul"@)
            || text::has(g, "house"@) || text::has(g, "dance"@)),
{
    let list = bright_words();
    assert(list[0] == "pop"@);
    assert(list[1] == "funk"@);
    assert(list[2] == "disco"@);
    assert(list[3] == "reggae"@);
    assert(list[4] == "soul"@);
    assert(list[5] == "house"@);
    assert(list[6] == "dance"@);
}

proof fn dark_genre(g: Seq<char>)
    ensures
        text::has_any(g, dark_words()) == (text::has(g, "metal"@) || text::has(g, "doom"@)
            || text::has(g, "goth"@) || text::has(g, "industrial"@) || text::has(g, "darkwave"@)
            || text::has(g, "blues"@)),
{
    let list = dark_words();
    assert(list[0] == "metal"@);
    assert(list[1] == "doom"@);
    assert(list[2] == "goth"@);
    assert(list[3] == "industrial"@);
    assert(list[4] == "darkwave"@);
    assert(list[5] == "blues"@);
}

/// A genre is as driving as the loudest word in it: with a word for driving music, more
/// than four fifths; else with a word for music in between, about a half; else with a word
/// for calm music, less than a quarter; and about a half where none is known.
pub proof fn a_genre_is_as_driving_as_its_words(song: Song, g: Seq<char>)
    requires
        song.genre matches Some(s) && text::trimmed(s@).len() > 0 && text::lower(s@) == g,
    ensures
        ({
            let energetic = text::has(g, "metal"@) || text::has(g, "punk"@)
                || text::has(g, "techno"@) || text::has(g, "house"@) || text::has(g, "edm"@)
                || text::has(g, "dance"@) || text::has(g, "drum and bass"@) || text::has(g, "dnb"@)
                || text::has(g, "trance"@) || text::has(g, "hardcore"@)
                || text::has(g, "breakcore"@) || text::has(g, "electro"@);
            let mid = text::has(g, "pop"@) || text::has(g, "rock"@) || text::has(g, "indie"@)
                || text::has(g, "soul"@) || text::has(g, "r&b"@) || text::has(g, "rnb"@)
                || text::has(g, "country"@) || text::has(g, "hip hop"@) || text::has(g, "hip-hop"@)
                || text::has(g, "hiphop"@) || text::has(g, "rap"@) || text::has(g, "funk"@)
                || text::has(g, "reggae"@);
            let calm = text::has(g, "ambient"@) || text::has(g, "classical"@)
                || text::has(g, "jazz"@) || text::has(g, "acoustic"@) || text::has(g, "folk"@)
                || text::has(g, "blues"@) || text::has(g, "chill"@) || text::has(g, "downtempo"@)
                || text::has(g, "singer-songwriter"@) || text::has(g, "piano"@)
                || text::has(g, "lo-fi"@) || text::has(g, "lofi"@);
            let e = energy_of(song);
            &&& energetic ==> 820_000_000 <= e <= 880_000_000
            &&& !energetic && mid ==> 470_000_000 <= e <= 530_000_000
            &&& !energetic && !mid && calm ==> 170_000_000 <= e <= 230_000_000
            &&& !energetic && !mid && !calm ==> 470_000_000 <= e <= 530_000_000
        }),
{
    energetic_genre(g);
    mid_genre(g);
    calm_genre(g);
}

/// A genre is bright where it holds a word for bright music, dark where it holds one for
/// dark music and none for bright, and neither where it holds none.
pub proof fn a_genre_is_as_bright_as_its_words(song: Song, g: Seq<char>)
    requires
        song.genre matches Some(s) && text::trimmed(s@).len() > 0 && text::lower(s@) == g,
    ensures
        ({
            let bright = text::has(g, "pop"@) || text::has(g, "funk"@) || text::has(g, "disco"@)
                || text::has(g, "reggae"@) || text::has(g, "soul"@) || text::has(g, "house"@)
                || text::has(g, "dance"@);
            let dark = text::has(g, "metal"@) || text::has(g, "doom"@) || text::has(g, "goth"@)
                || text::has(g, "industrial"@) || text::has(g, "darkwave"@)
                || text::has(g, "blues"@);
            let v = valence_of(song);
            &&& bright ==> v == 700_000_000
            &&& !bright && dark ==> v == 300_000_000
            &&& !bright && !dark ==> v == 500_000_000
        }),
{
    bright_genre(g);
    dark_genre(g);
}

/// Of two tracks of one genre the later is the more driving, by the same for every year
/// from 1970 to 2010 and not beyond; a track without a year counts as one of 1990, and a
/// track without a genre is neither driving nor calm, neither bright nor dark.
pub proof fn later_tracks_drive_a_little_more(a: Song, b: Song)
    requires
        a.genre == b.genre,
    ensures
        a.year matches Some(x) ==> b.year matches Some(y) ==> {
            &&& 1970 <= x <= y <= 2010 ==> energy_of(b) - energy_of(a) == (y - x) * 1_500_000
            &&& x <= 1970 && y <= 1970 ==> energy_of(b) == energy_of(a)
            &&& x >= 2010 && y >= 2010 ==> energy_of(b) == energy_of(a)
        },
        a.year is None && b.year == Some(1990u32) ==> energy_of(a) == energy_of(b),
        a.genre is None && a.year is None ==> energy_of(a) == 500_000_000 && valence_of(a)
            == 500_000_000,
{
}

/// The age of a pull is the whole minutes since it was set, and none where it lies ahead.
pub proof fn a_pull_ages_by_the_minute(p: Pull, now: Moment, m: nat, rest: nat)
    requires
        rest < 60_000_000_000,
        now.nanos == p.set_at.nanos + m * 60_000_000_000 + rest,
    ensures
        p.minutes(now) == m,
{
    let d = m * 60_000_000_000 + rest;
    assert(d / 60_000_000_000 == m);
}

} // verus!
