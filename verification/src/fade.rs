//! The volume envelope: a fade that never startles.
//!
//! A fade is a schedule of levels on absolute deadlines. [`FadeSpec::new`] builds it
//! or refuses, and what it builds moves monotonically towards its target, leaves at
//! least the shortest interval between two steps, and takes no step larger than the
//! fade allows. True silence is reached by one last step from the silence level.
//!
//! Levels are decibels, counted in billionths.

use vstd::prelude::*;

use crate::number;
use crate::number::{Real, Span};
use crate::player::PlayerError;

verus! {

/// The shortest interval between two steps that does not startle, in milliseconds.
pub const STARTLE_HARD_MIN_SLEW_MS: u64 = 200;

/// The same interval in nanoseconds.
pub const STARTLE_HARD_MIN_SLEW_NANOS: u128 = 200_000_000;

/// A distance below this counts as no distance: a thousandth of a decibel.
pub const RANGE_EPS_DB: u128 = 1_000_000;

/// The largest step of a deliberate fade: three decibels.
pub const DELIBERATE_STEP_CAP_DB: u128 = 3_000_000_000;

/// No schedule holds more steps than this, but for the one into silence.
pub const MAX_SCHEDULE_STEPS: u128 = 1_000_000;

/// The shape of a fade between its two levels.
#[derive(Clone, Copy, Debug, PartialEq, Eq, Structural)]
#[non_exhaustive]
pub enum Curve {
    /// Equal steps in decibels.
    DbLinear,
}

/// The share of a distance that `k` of `n` equal parts make up.
pub open spec fn share(range: nat, k: nat, n: nat) -> nat {
    (k * range) / n
}

impl Curve {
    /// How much of the distance `range` is covered after step `k` of `n`.
    pub fn sample(&self, range: u128, k: u64, n: u64) -> (r: u128)
        requires
            0 < n <= MAX_SCHEDULE_STEPS,
            k <= n,
            range <= 4 * number::REAL_LIMIT,
        ensures
            r == share(range as nat, k as nat, n as nat),
            r <= range,
    {
        let Curve::DbLinear = self;
        let m: u128 = n as u128;
        let j: u128 = k as u128;
        let q: u128 = range / m;
        let rest: u128 = range % m;
        proof {
            share_by_parts(range as nat, k as nat, n as nat);
            assert(q * m <= range) by (nonlinear_arith)
                requires
                    q == range / m,
                    m > 0,
            ;
            assert(j * q <= m * q) by (nonlinear_arith)
                requires
                    j <= m,
            ;
            assert(m * q == q * m) by (nonlinear_arith);
            assert(j * rest <= MAX_SCHEDULE_STEPS * MAX_SCHEDULE_STEPS) by (nonlinear_arith)
                requires
                    j <= MAX_SCHEDULE_STEPS,
                    rest <= MAX_SCHEDULE_STEPS,
            ;
            share_grows(range as nat, k as nat, n as nat, n as nat);
            share_is_whole(range as nat, n as nat);
        }
        j * q + (j * rest) / m
    }
}

proof fn share_by_parts(range: nat, k: nat, n: nat)
    requires
        n > 0,
    ensures
        share(range, k, n) == k * (range / n) + (k * (range % n)) / n,
{
    let q = range / n;
    let r = range % n;
    vstd::arithmetic::div_mod::lemma_fundamental_div_mod(range as int, n as int);
    assert(k * range == k * r + (k * q) * n) by (nonlinear_arith)
        requires
            range == n * q + r,
    ;
    vstd::arithmetic::div_mod::lemma_hoist_over_denominator((k * r) as int, (k * q) as int, n);
}

proof fn share_is_whole(range: nat, n: nat)
    requires
        n > 0,
    ensures
        share(range, n, n) == range,
{
    vstd::arithmetic::div_mod::lemma_div_multiples_vanish(range as int, n as int);
    assert(n * range == n * range);
}

proof fn share_grows(range: nat, j: nat, k: nat, n: nat)
    requires
        n > 0,
        j <= k,
    ensures
        share(range, j, n) <= share(range, k, n),
{
    assert(j * range <= k * range) by (nonlinear_arith)
        requires
            j <= k,
    ;
    vstd::arithmetic::div_mod::lemma_div_is_ordered((j * range) as int, (k * range) as int, n as int);
}

/// One part more covers no more than `step`, where `n` steps cover the distance.
proof fn share_step(range: nat, k: nat, n: nat, step: nat)
    requires
        n > 0,
        range <= step * n,
    ensures
        share(range, k + 1, n) <= share(range, k, n) + step,
{
    let a = k * range;
    let b = (k + 1) * range;
    assert(b <= a + step * n) by (nonlinear_arith)
        requires
            a == k * range,
            b == (k + 1) * range,
            range <= step * n,
    ;
    vstd::arithmetic::div_mod::lemma_div_is_ordered(b as int, (a + step * n) as int, n as int);
    vstd::arithmetic::div_mod::lemma_hoist_over_denominator(a as int, step as int, n);
}

/// Where a fade ends.
#[derive(Clone, Copy, Debug, PartialEq, Eq, Structural)]
pub enum FadeTarget {
    /// At a level.
    Db(Real),
    /// In silence.
    Silence,
}

/// What keeps a fade from startling.
#[derive(Clone, Copy, Debug, PartialEq, Eq, Structural)]
pub struct StartleBounds {
    /// The shortest interval between two steps.
    pub min_slew: Span,
    /// The largest step of a fade that is not to be noticed.
    pub step_size_db: Real,
    /// The level of silence.
    pub synth_floor_db: i128,
    /// Whether the fade is not to be noticed; otherwise it is a deliberate one.
    pub sub_jnd: bool,
}

/// What a step sets the output to.
#[derive(Clone, Copy, Debug, PartialEq, Eq, Structural)]
pub enum Gain {
    /// A level.
    Db(i128),
    /// Nothing at all.
    Mute,
}

/// One step: a level, and when it is set, counted from the start of the fade.
#[derive(Clone, Copy, Debug, PartialEq, Eq, Structural)]
pub struct Step {
    /// When.
    pub at: Span,
    /// What to.
    pub gain: Gain,
}

/// A fade that was built: the only way to get one is [`FadeSpec::new`].
#[derive(Clone, Debug)]
pub struct FadeSpec {
    curve: Curve,
    from_db: i128,
    steps: Vec<Step>,
}

/// Why a fade was refused.
#[derive(Clone, Copy, Debug, PartialEq, Eq, Structural)]
pub enum FadeError {
    /// The shortest interval is below what startles.
    SlewTooShort,
    /// A deliberate fade would take steps beyond its cap.
    StepTooLarge,
    /// A level is no finite number.
    NonFinite,
}

impl FadeError {
    /// The sentence that tells a user of the error.
    pub open spec fn sentence(self) -> Seq<char> {
        match self {
            FadeError::SlewTooShort => "min_slew below the startle hard floor of 200ms"@,
            FadeError::StepTooLarge => "per-step dB delta exceeds the 3dB deliberate-cue cap"@,
            FadeError::NonFinite => "non-finite dB input"@,
        }
    }

    /// The sentence that tells a user of the error.
    pub fn message(&self) -> (r: String)
        ensures
            r@ == self.sentence(),
    {
        match self {
            FadeError::SlewTooShort => "min_slew below the startle hard floor of 200ms".to_owned(),
            FadeError::StepTooLarge => "per-step dB delta exceeds the 3dB deliberate-cue cap".to_owned(),
            FadeError::NonFinite => "non-finite dB input".to_owned(),
        }
    }
}

/// A quotient, rounded up.
pub open spec fn ceil_div(a: nat, b: nat) -> nat {
    (a / b + if a % b == 0 {
        0nat
    } else {
        1
    }) as nat
}

fn ceil_div_exec(a: u128, b: u128) -> (r: u128)
    requires
        0 < b,
        a <= 4 * number::REAL_LIMIT,
    ensures
        r == ceil_div(a as nat, b as nat),
        r <= a,
{
    let q: u128 = a / b;
    assert(q <= a && (a % b != 0 ==> q < a)) by (nonlinear_arith)
        requires
            b > 0,
            q == a / b,
            a >= 0,
    ;
    if a % b == 0 {
        q
    } else {
        q + 1
    }
}

/// Whether covering `range` in `n` equal steps takes steps beyond `step`.
pub open spec fn oversteps(range: nat, n: nat, step: nat) -> bool {
    range > step * n
}

fn oversteps_exec(range: u128, n: u128, step: u128) -> (r: bool)
    requires
        n > 0,
    ensures
        r == oversteps(range as nat, n as nat, step as nat),
{
    let q: u128 = range / n;
    let rest: u128 = range % n;
    proof {
        vstd::arithmetic::div_mod::lemma_fundamental_div_mod(range as int, n as int);
        if q > step {
            assert(n * q >= step * n + n) by (nonlinear_arith)
                requires
                    q >= step + 1,
                    n > 0,
            ;
        } else if q == step {
            assert(n * q == step * n) by (nonlinear_arith)
                requires
                    q == step,
            ;
        } else {
            assert(n * q + n <= step * n) by (nonlinear_arith)
                requires
                    q + 1 <= step,
                    n > 0,
            ;
        }
    }
    q > step || (q == step && rest > 0)
}

/// What a fade is built from, once its levels are known to be numbers.
pub struct FadePlan {
    /// The level that it starts at.
    pub from: int,
    /// The level that it ends at.
    pub to: int,
    /// Whether it ends in silence.
    pub mute: bool,
    /// The interval between two steps.
    pub interval: Span,
    /// How many steps it takes, but for the one into silence.
    pub steps: nat,
}

impl FadePlan {
    /// How far it goes.
    pub open spec fn range(self) -> nat {
        (if self.to < self.from {
            self.from - self.to
        } else {
            self.to - self.from
        }) as nat
    }

    /// Whether there is anything to do.
    pub open spec fn is_degenerate(self) -> bool {
        self.range() < RANGE_EPS_DB
    }

    /// The level after `k` steps.
    pub open spec fn level(self, k: nat) -> int {
        let part = share(self.range(), k, self.steps);
        if self.to < self.from {
            self.from - part
        } else {
            self.from + part
        }
    }

    /// The steps.
    pub open spec fn schedule(self) -> Seq<Step> {
        if self.is_degenerate() {
            Seq::empty()
        } else {
            Seq::new(
                self.steps + if self.mute {
                    1nat
                } else {
                    0
                },
                |i: int|
                    Step {
                        at: number::repeated(self.interval, (i + 1) as nat),
                        gain: if i < self.steps {
                            Gain::Db(self.level((i + 1) as nat) as i128)
                        } else {
                            Gain::Mute
                        },
                    },
            )
        }
    }
}

/// How many steps the duration asks for.
pub open spec fn nominal_steps(dur: Span, interval: Span, min_slew: Span) -> nat {
    let d = number::larger(dur.nanos as int, min_slew.nanos as int) as nat;
    number::larger(ceil_div(d, interval.nanos as nat) as int, 1) as nat
}

/// How many steps a fade takes: those that its duration asks for, or, where it is not
/// to be noticed and they would be too large, as many as keep them small enough.
pub open spec fn planned_steps(range: nat, nominal: nat, b: StartleBounds) -> nat {
    let n = match b.step_size_db {
        Real::Finite(step) => if b.sub_jnd && step > 0 && oversteps(range, nominal, step as nat) {
            number::larger(ceil_div(range, step as nat) as int, 1)
        } else {
            nominal as int
        },
        _ => nominal as int,
    };
    number::smaller(n, MAX_SCHEDULE_STEPS as int) as nat
}

/// The fade between two levels.
pub open spec fn plan_of(
    from: int,
    target: FadeTarget,
    dur: Span,
    tick: Span,
    b: StartleBounds,
) -> FadePlan {
    let to = match target {
        FadeTarget::Db(x) => x.or_default(0),
        FadeTarget::Silence => b.synth_floor_db as int,
    };
    let start = number::larger(from, b.synth_floor_db as int);
    let interval = Span {
        nanos: number::larger(tick.nanos as int, b.min_slew.nanos as int) as u128,
    };
    let range = (if to < start {
        start - to
    } else {
        to - start
    }) as nat;
    FadePlan {
        from: start,
        to,
        mute: target is Silence,
        interval,
        steps: planned_steps(range, nominal_steps(dur, interval, b.min_slew), b),
    }
}

/// Why a fade is refused, where it is.
pub open spec fn refusal(
    from_db: Real,
    target: FadeTarget,
    dur: Span,
    tick: Span,
    b: StartleBounds,
) -> Option<FadeError> {
    if !(from_db is Finite) || (target matches FadeTarget::Db(x) && !(x is Finite)) {
        Some(FadeError::NonFinite)
    } else if b.min_slew.nanos < STARTLE_HARD_MIN_SLEW_NANOS {
        Some(FadeError::SlewTooShort)
    } else {
        let p = plan_of(from_db.or_default(0), target, dur, tick, b);
        if !p.is_degenerate() && !b.sub_jnd && oversteps(
            p.range(),
            p.steps,
            DELIBERATE_STEP_CAP_DB as nat,
        ) {
            Some(FadeError::StepTooLarge)
        } else {
            None
        }
    }
}

impl FadeSpec {
    /// The level that the fade starts at.
    pub closed spec fn from_level(self) -> int {
        self.from_db as int
    }

    /// The steps of the fade.
    pub closed spec fn schedule(self) -> Seq<Step> {
        self.steps@
    }

    /// The curve that the steps follow.
    pub closed spec fn shape(self) -> Curve {
        self.curve
    }

    /// Builds a fade, or says why it would startle.
    pub fn new(
        from_db: Real,
        target: FadeTarget,
        dur: Span,
        tick: Span,
        curve: Curve,
        bounds: StartleBounds,
    ) -> (r: Result<FadeSpec, FadeError>)
        requires
            from_db.wf(),
            target matches FadeTarget::Db(x) ==> x.wf(),
            -number::REAL_LIMIT <= bounds.synth_floor_db <= number::REAL_LIMIT,
            dur.wf(),
            tick.wf(),
            bounds.min_slew.wf(),
        ensures
            match r {
                Ok(s) => {
                    let p = plan_of(from_db.or_default(0), target, dur, tick, bounds);
                    &&& refusal(from_db, target, dur, tick, bounds) is None
                    &&& s.from_level() == p.from
                    &&& s.schedule() == p.schedule()
                    &&& s.shape() == curve
                },
                Err(e) => refusal(from_db, target, dur, tick, bounds) == Some(e),
            },
    {
        let from: i128 = match from_db {
            Real::Finite(n) => n,
            _ => return Err(FadeError::NonFinite),
        };
        let to: i128 = match target {
            FadeTarget::Db(Real::Finite(n)) => n,
            FadeTarget::Db(_) => return Err(FadeError::NonFinite),
            FadeTarget::Silence => bounds.synth_floor_db,
        };
        if bounds.min_slew.nanos < STARTLE_HARD_MIN_SLEW_NANOS {
            return Err(FadeError::SlewTooShort);
        }
        let mute = match target {
            FadeTarget::Silence => true,
            FadeTarget::Db(_) => false,
        };
        let ghost p = plan_of(from_db.or_default(0), target, dur, tick, bounds);
        let start: i128 = if from < bounds.synth_floor_db {
            bounds.synth_floor_db
        } else {
            from
        };
        let interval = Span {
            nanos: if tick.nanos < bounds.min_slew.nanos {
                bounds.min_slew.nanos
            } else {
                tick.nanos
            },
        };
        let length: u128 = if dur.nanos < bounds.min_slew.nanos {
            bounds.min_slew.nanos
        } else {
            dur.nanos
        };
        let range: u128 = if to < start {
            (start - to) as u128
        } else {
            (to - start) as u128
        };
        assert(range == p.range());
        if range < RANGE_EPS_DB {
            let steps: Vec<Step> = Vec::new();
            assert(steps@ =~= p.schedule());
            return Ok(FadeSpec { curve, from_db: start, steps });
        }
        let quotient: u128 = ceil_div_exec(length, interval.nanos);
        let nominal: u128 = if quotient < 1 {
            1
        } else {
            quotient
        };
        let mut count: u128 = nominal;
        if let Real::Finite(step) = bounds.step_size_db {
            if bounds.sub_jnd && step > 0 && oversteps_exec(range, nominal, step as u128) {
                let needed: u128 = ceil_div_exec(range, step as u128);
                count = if needed < 1 {
                    1
                } else {
                    needed
                };
            }
        }
        let n: u64 = if count > MAX_SCHEDULE_STEPS {
            1_000_000
        } else {
            count as u64
        };
        assert(n == p.steps);
        if !bounds.sub_jnd && oversteps_exec(range, n as u128, DELIBERATE_STEP_CAP_DB) {
            return Err(FadeError::StepTooLarge);
        }
        let mut steps: Vec<Step> = Vec::new();
        let mut k: u64 = 1;
        while k <= n
            invariant
                1 <= k <= n + 1,
                n == p.steps,
                0 < n <= MAX_SCHEDULE_STEPS,
                interval == p.interval,
                interval.wf(),
                range == p.range(),
                range <= 2 * number::REAL_LIMIT,
                start == p.from,
                to == p.to,
                -number::REAL_LIMIT <= start <= number::REAL_LIMIT,
                -number::REAL_LIMIT <= to <= number::REAL_LIMIT,
                !p.is_degenerate(),
                steps@ == p.schedule().take(k - 1),
                p.schedule().len() == n + (if p.mute {
                    1nat
                } else {
                    0
                }),
            decreases n + 1 - k,
        {
            let part: u128 = curve.sample(range, k, n);
            let level: i128 = if to < start {
                start - (part as i128)
            } else {
                start + (part as i128)
            };
            assert(level == p.level(k as nat));
            let ghost before = steps@;
            steps.push(Step { at: interval.saturating_mul(k as u32), gain: Gain::Db(level) });
            assert(steps@ =~= p.schedule().take(k as int)) by {
                assert(p.schedule().take(k as int).drop_last() =~= p.schedule().take(k - 1));
                assert(p.schedule()[k - 1] == steps@[k - 1]);
            }
            k += 1;
        }
        if mute {
            steps.push(Step { at: interval.saturating_mul((n + 1) as u32), gain: Gain::Mute });
            assert(p.schedule()[n as int] == steps@[n as int]);
        }
        assert(steps@ =~= p.schedule());
        Ok(FadeSpec { curve, from_db: start, steps })
    }

    /// How many steps the fade takes.
    pub fn step_count(&self) -> (r: usize)
        ensures
            r == self.schedule().len(),
    {
        self.steps.len()
    }

    /// The level that the fade starts at.
    pub fn from_db(&self) -> (r: i128)
        ensures
            r == self.from_level(),
    {
        self.from_db
    }

    /// One step of the fade.
    pub fn step(&self, i: usize) -> (r: Step)
        requires
            i < self.schedule().len(),
        ensures
            r == self.schedule()[i as int],
    {
        self.steps[i]
    }
}


// ---------------------------------------------------------------------------
// What every fade keeps
// ---------------------------------------------------------------------------

/// The distance that two levels lie apart.
pub open spec fn apart(a: int, b: int) -> int {
    if a < b {
        b - a
    } else {
        a - b
    }
}

/// A fade never turns back: a later level lies no further from the target.
pub proof fn fade_is_monotone(p: FadePlan, j: nat, k: nat)
    requires
        j <= k <= p.steps,
        p.steps > 0,
    ensures
        p.to < p.from ==> p.level(k) <= p.level(j),
        p.from <= p.to ==> p.level(j) <= p.level(k),
{
    share_grows(p.range(), j, k, p.steps);
}

/// A fade never goes beyond its target, and its last level is the target.
pub proof fn fade_never_overshoots(p: FadePlan, k: nat)
    requires
        k <= p.steps,
        p.steps > 0,
    ensures
        p.to < p.from ==> p.to <= p.level(k) <= p.from,
        p.from <= p.to ==> p.from <= p.level(k) <= p.to,
        p.level(p.steps) == p.to,
{
    share_grows(p.range(), k, p.steps, p.steps);
    share_is_whole(p.range(), p.steps);
}

proof fn planned_steps_cover(range: nat, nominal: nat, b: StartleBounds, step: nat)
    requires
        nominal > 0,
        b.sub_jnd,
        b.step_size_db == Real::Finite(step as i128),
        0 < step <= i128::MAX,
        range <= step * MAX_SCHEDULE_STEPS,
    ensures
        range <= step * planned_steps(range, nominal, b),
{
    let n = planned_steps(range, nominal, b);
    if oversteps(range, nominal, step) {
        let c = ceil_div(range, step);
        vstd::arithmetic::div_mod::lemma_fundamental_div_mod(range as int, step as int);
        vstd::arithmetic::div_mod::lemma_mod_bound(range as int, step as int);
        if range % step == 0 {
            assert(range == step * c);
        } else {
            assert(step * c == step * (range / step) + step) by (nonlinear_arith)
                requires
                    c == range / step + 1,
            ;
        }
        assert(range <= step * c);
        if n < c {
            assert(n == MAX_SCHEDULE_STEPS || n == 1);
        } else {
            assert(step * c <= step * n) by (nonlinear_arith)
                requires
                    c <= n,
            ;
        }
    } else if n < nominal {
        assert(n == MAX_SCHEDULE_STEPS);
    }
}

/// A fade that is not to be noticed takes no step beyond the configured one, unless
/// the whole distance is more than the most steps can cover.
pub proof fn unnoticed_steps_are_small(
    from: int,
    target: FadeTarget,
    dur: Span,
    tick: Span,
    b: StartleBounds,
    step: nat,
    k: nat,
)
    requires
        b.sub_jnd,
        b.step_size_db == Real::Finite(step as i128),
        0 < step <= i128::MAX,
        plan_of(from, target, dur, tick, b).range() <= step * MAX_SCHEDULE_STEPS,
        k < plan_of(from, target, dur, tick, b).steps,
    ensures
        apart(
            plan_of(from, target, dur, tick, b).level(k),
            plan_of(from, target, dur, tick, b).level(k + 1),
        ) <= step,
{
    let p = plan_of(from, target, dur, tick, b);
    planned_steps_cover(p.range(), nominal_steps(dur, p.interval, b.min_slew), b, step);
    share_step(p.range(), k, p.steps, step);
    share_grows(p.range(), k, k + 1, p.steps);
}

/// A deliberate fade that is not refused takes no step beyond three decibels.
pub proof fn deliberate_steps_are_capped(
    from_db: Real,
    target: FadeTarget,
    dur: Span,
    tick: Span,
    b: StartleBounds,
    k: nat,
)
    requires
        !b.sub_jnd,
        refusal(from_db, target, dur, tick, b) is None,
        !plan_of(from_db.or_default(0), target, dur, tick, b).is_degenerate(),
        k < plan_of(from_db.or_default(0), target, dur, tick, b).steps,
    ensures
        apart(
            plan_of(from_db.or_default(0), target, dur, tick, b).level(k),
            plan_of(from_db.or_default(0), target, dur, tick, b).level(k + 1),
        ) <= DELIBERATE_STEP_CAP_DB,
{
    let p = plan_of(from_db.or_default(0), target, dur, tick, b);
    share_step(p.range(), k, p.steps, DELIBERATE_STEP_CAP_DB as nat);
    share_grows(p.range(), k, k + 1, p.steps);
}

/// Every step comes at least the shortest interval after the one before it, and the
/// first that long after the start, as long as the fade does not outlast the longest
/// span.
pub proof fn steps_keep_their_distance(
    from: int,
    target: FadeTarget,
    dur: Span,
    tick: Span,
    b: StartleBounds,
    i: int,
)
    requires
        ({
            let p = plan_of(from, target, dur, tick, b);
            0 <= i < p.schedule().len() && p.interval.nanos * p.schedule().len()
                <= number::MAX_SPAN_NANOS
        }),
    ensures
        ({
            let s = plan_of(from, target, dur, tick, b).schedule();
            let before = if i == 0 {
                0
            } else {
                s[i - 1].at.nanos as int
            };
            s[i].at.nanos - before >= b.min_slew.nanos
        }),
{
    let p = plan_of(from, target, dur, tick, b);
    let s = p.schedule();
    let t = p.interval.nanos;
    assert(t * (i + 1) <= t * s.len()) by (nonlinear_arith)
        requires
            i + 1 <= s.len(),
    ;
    assert(t * i <= t * (i + 1)) by (nonlinear_arith);
    assert(t * (i + 1) == t * i + t) by (nonlinear_arith);
    assert(s[i].at.nanos == t * (i + 1));
    if i > 0 {
        assert(s[i - 1].at.nanos == t * i);
    } else {
        assert(t * i == 0) by (nonlinear_arith)
            requires
                i == 0,
        ;
    }
}

/// A fade is never a cut: however short it is meant to be, it takes at least one step, and
/// the first comes no sooner than the shortest interval after the start.
pub proof fn a_fade_is_never_a_cut(
    from: int,
    target: FadeTarget,
    dur: Span,
    tick: Span,
    b: StartleBounds,
)
    requires
        !plan_of(from, target, dur, tick, b).is_degenerate(),
        tick.nanos <= number::MAX_SPAN_NANOS,
        b.min_slew.nanos <= number::MAX_SPAN_NANOS,
    ensures
        plan_of(from, target, dur, tick, b).steps >= 1,
        plan_of(from, target, dur, tick, b).schedule().len() >= 1,
        plan_of(from, target, dur, tick, b).schedule()[0].at.nanos >= b.min_slew.nanos,
{
    let p = plan_of(from, target, dur, tick, b);
    assert(p.steps >= 1);
    assert(p.schedule()[0].at == number::repeated(p.interval, 1));
}

/// A fade into silence mutes once, in its last step, from the level of silence; no
/// other fade mutes.
pub proof fn only_the_last_step_mutes(p: FadePlan, i: int)
    requires
        0 <= i < p.schedule().len(),
        p.steps > 0,
    ensures
        p.schedule()[i].gain is Mute <==> p.mute && i == p.schedule().len() - 1,
        p.mute ==> p.schedule().len() >= 2 && p.schedule()[p.schedule().len() - 2].gain == Gain::Db(
            p.to as i128,
        ),
{
    share_is_whole(p.range(), p.steps);
}

proof fn ceil_div_covers(a: nat, b: nat)
    requires
        b > 0,
    ensures
        b * ceil_div(a, b) >= a,
        a > 0 ==> ceil_div(a, b) >= 1 && b * (ceil_div(a, b) - 1) < a,
{
    let q = a / b;
    vstd::arithmetic::div_mod::lemma_fundamental_div_mod(a as int, b as int);
    vstd::arithmetic::div_mod::lemma_mod_bound(a as int, b as int);
    if a % b == 0 {
        assert(b * (q - 1) == b * q - b) by (nonlinear_arith);
        if q == 0 {
            assert(b * q == 0) by (nonlinear_arith)
                requires
                    q == 0,
            ;
        }
    } else {
        assert(b * (q + 1) == b * q + b) by (nonlinear_arith);
    }
}

/// How many steps are planned, against the length that was asked for.
proof fn planned_against_length(range: nat, d: nat, t: nat, b: StartleBounds, m: nat)
    requires
        t > 0,
        d > 0,
        range > 0,
    ensures
        ({
            let nominal = number::larger(ceil_div(d, t) as int, 1) as nat;
            let n = planned_steps(range, nominal, b);
            &&& n >= 1
            &&& n <= 1_000_000
            &&& t * n >= d || n == 1_000_000
            &&& (m > 0 && t * (m - 1) < d && (!b.sub_jnd || (b.step_size_db matches Real::Finite(
                step,
            ) ==> step <= 0 || range <= step * m))) ==> t * (n - 1) < d
            &&& t * (n - 1) >= d ==> b.sub_jnd && (b.step_size_db matches Real::Finite(step)
                && step > 0 && range > step * (n - 1))
        }),
{
    let nominal = number::larger(ceil_div(d, t) as int, 1) as nat;
    let n = planned_steps(range, nominal, b);
    ceil_div_covers(d, t);
    assert(nominal == ceil_div(d, t));
    if n >= nominal {
        assert(t * n >= t * nominal) by (nonlinear_arith)
            requires
                n >= nominal,
        ;
    } else {
        assert(t * (n - 1) <= t * (nominal - 1)) by (nonlinear_arith)
            requires
                n <= nominal,
        ;
    }
    if let Real::Finite(step) = b.step_size_db {
        if b.sub_jnd && step > 0 && oversteps(range, nominal, step as nat) {
            ceil_div_covers(range, step as nat);
            let c = ceil_div(range, step as nat);
            assert(step * (n - 1) <= step * (c - 1)) by (nonlinear_arith)
                requires
                    n <= c,
                    step > 0,
            ;
            if c < nominal {
                assert(step * c <= step * nominal) by (nonlinear_arith)
                    requires
                        c <= nominal,
                        step > 0,
                ;
            }
            if m > 0 && t * (m - 1) < d && range <= step * m {
                assert(m <= nominal) by (nonlinear_arith)
                    requires
                        t * (m - 1) < d,
                        t * nominal >= d,
                        t > 0,
                ;
                assert(step * m <= step * nominal) by (nonlinear_arith)
                    requires
                        m <= nominal,
                        step > 0,
                ;
                assert(step * nominal == (step as nat) * nominal);
            }
        }
    }
}

/// A fade lasts as long as it was asked to. Its levels span the length that was asked for,
/// or as much of it as a million steps do; and the last level is reached within one
/// interval of that length, but where a fade that is not to be noticed could not cover the
/// distance by then: it is lengthened only as far as it takes to keep its steps small.
///
/// `m` is any number of steps that have begun before the length is over.
pub proof fn a_fade_lasts_as_asked(
    from: int,
    target: FadeTarget,
    dur: Span,
    tick: Span,
    b: StartleBounds,
    m: nat,
)
    requires
        target matches FadeTarget::Db(x) ==> x is Finite,
        b.min_slew.nanos >= 200_000_000,
    ensures
        ({
            let s = plan_of(from, target, dur, tick, b).schedule();
            let start = if from < b.synth_floor_db {
                b.synth_floor_db as int
            } else {
                from
            };
            let end = match target {
                FadeTarget::Db(Real::Finite(x)) => x as int,
                _ => b.synth_floor_db as int,
            };
            let range = if start < end {
                end - start
            } else {
                start - end
            };
            let t = if tick.nanos < b.min_slew.nanos {
                b.min_slew.nanos as int
            } else {
                tick.nanos as int
            };
            let d = if dur.nanos < b.min_slew.nanos {
                b.min_slew.nanos as int
            } else {
                dur.nanos as int
            };
            let n = if target is Silence {
                s.len() - 1
            } else {
                s.len() as int
            };
            &&& range < 1_000_000 ==> s.len() == 0
            &&& range >= 1_000_000 ==> {
                &&& 1 <= n <= 1_000_000
                &&& t * n >= d || n == 1_000_000
                &&& (m > 0 && t * (m - 1) < d && (!b.sub_jnd
                    || (b.step_size_db matches Real::Finite(
                    step,
                ) ==> step <= 0 || range <= step * m))) ==> t * (n - 1) < d
                &&& t * (n - 1) >= d ==> b.sub_jnd && (b.step_size_db matches Real::Finite(step)
                    && step > 0 && range > step * (n - 1))
            }
        }),
{
    let p = plan_of(from, target, dur, tick, b);
    let d = number::larger(dur.nanos as int, b.min_slew.nanos as int) as nat;
    if p.range() >= 1_000_000 {
        planned_against_length(p.range(), d, p.interval.nanos as nat, b, m);
    }
}

/// The steps of a fade come at one interval, the tick or the shortest one where that is
/// longer, and each takes the fade an equal part of the way, to a billionth of a decibel:
/// from the level that it starts at, or from silence where that lies below, to the target.
/// A fade into silence mutes one interval later; no other does.
pub proof fn a_fade_goes_evenly_to_its_target(
    from: int,
    target: FadeTarget,
    dur: Span,
    tick: Span,
    b: StartleBounds,
    i: int,
)
    requires
        target matches FadeTarget::Db(x) ==> x is Finite,
        b.min_slew.nanos >= 200_000_000,
        -number::REAL_LIMIT <= from <= number::REAL_LIMIT,
        -number::REAL_LIMIT <= b.synth_floor_db <= number::REAL_LIMIT,
        target matches FadeTarget::Db(x) ==> x.wf(),
        0 <= i < plan_of(from, target, dur, tick, b).schedule().len(),
    ensures
        ({
            let p = plan_of(from, target, dur, tick, b);
            let s = p.schedule();
            let start = if from < b.synth_floor_db {
                b.synth_floor_db as int
            } else {
                from
            };
            let end = match target {
                FadeTarget::Db(Real::Finite(x)) => x as int,
                _ => b.synth_floor_db as int,
            };
            let t = if tick.nanos < b.min_slew.nanos {
                b.min_slew.nanos as int
            } else {
                tick.nanos as int
            };
            let n = if target is Silence {
                s.len() - 1
            } else {
                s.len() as int
            };
            &&& p.from == start
            &&& t * (i + 1) <= number::MAX_SPAN_NANOS ==> s[i].at.nanos == t * (i + 1)
            &&& t * (i + 1) > number::MAX_SPAN_NANOS ==> s[i].at.nanos == number::MAX_SPAN_NANOS
            &&& i < n ==> match s[i].gain {
                Gain::Db(x) => if end < start {
                    &&& n * (start - x) <= (i + 1) * (start - end)
                    &&& (i + 1) * (start - end) < n * (start - x + 1)
                } else {
                    &&& n * (x - start) <= (i + 1) * (end - start)
                    &&& (i + 1) * (end - start) < n * (x - start + 1)
                },
                Gain::Mute => false,
            }
            &&& i == n - 1 ==> s[i].gain == Gain::Db(end as i128)
            &&& i >= n ==> s[i].gain == Gain::Mute
        }),
{
    let p = plan_of(from, target, dur, tick, b);
    let s = p.schedule();
    let n = p.steps;
    let d = number::larger(dur.nanos as int, b.min_slew.nanos as int) as nat;
    assert(p.range() >= 1_000_000);
    planned_against_length(p.range(), d, p.interval.nanos as nat, b, 0);
    if i < n {
        let k = (i + 1) as nat;
        let part = share(p.range(), k, n);
        vstd::arithmetic::div_mod::lemma_fundamental_div_mod((k * p.range()) as int, n as int);
        vstd::arithmetic::div_mod::lemma_mod_bound((k * p.range()) as int, n as int);
        assert(n * (part + 1) == n * part + n) by (nonlinear_arith);
        share_grows(p.range(), k, n, n);
        share_is_whole(p.range(), n);
        assert(n * part <= k * p.range() < n * (part + 1));
        assert(s[i].gain == Gain::Db(p.level(k) as i128));
        assert(-3 * number::REAL_LIMIT <= p.level(k) <= 3 * number::REAL_LIMIT);
    }
}

/// A fade is refused just where it has to be: a level that is no number, an interval short
/// enough to startle, or, where it is meant to be noticed, steps of more than three
/// decibels. `m` is any number of steps that span the length that was asked for, and `k`
/// any that have begun before it is over.
pub proof fn only_what_startles_is_refused(
    from_db: Real,
    target: FadeTarget,
    dur: Span,
    tick: Span,
    b: StartleBounds,
    m: nat,
    k: nat,
)
    ensures
        ({
            let r = refusal(from_db, target, dur, tick, b);
            let numbers = from_db is Finite && (target matches FadeTarget::Db(x) ==> x is Finite);
            &&& !numbers <==> r == Some(FadeError::NonFinite)
            &&& numbers && b.min_slew.nanos < 200_000_000 <==> r == Some(FadeError::SlewTooShort)
            &&& b.sub_jnd ==> r != Some(FadeError::StepTooLarge)
            &&& numbers && b.min_slew.nanos >= 200_000_000 && !b.sub_jnd ==> {
                let from = from_db->Finite_0 as int;
                let start = if from < b.synth_floor_db {
                    b.synth_floor_db as int
                } else {
                    from
                };
                let end = match target {
                    FadeTarget::Db(Real::Finite(x)) => x as int,
                    _ => b.synth_floor_db as int,
                };
                let range = if start < end {
                    end - start
                } else {
                    start - end
                };
                let t = if tick.nanos < b.min_slew.nanos {
                    b.min_slew.nanos as int
                } else {
                    tick.nanos as int
                };
                let d = if dur.nanos < b.min_slew.nanos {
                    b.min_slew.nanos as int
                } else {
                    dur.nanos as int
                };
                &&& (range >= 1_000_000 && t * m >= d && range > 3_000_000_000 * m) ==> r == Some(
                    FadeError::StepTooLarge,
                )
                &&& (range < 1_000_000 || (0 < k <= 1_000_000 && t * (k - 1) < d && range
                    <= 3_000_000_000 * k)) ==> r is None
            }
        }),
{
    if from_db is Finite && (target matches FadeTarget::Db(x) ==> x is Finite)
        && b.min_slew.nanos >= 200_000_000 && !b.sub_jnd {
        let p = plan_of(from_db.or_default(0), target, dur, tick, b);
        let d = number::larger(dur.nanos as int, b.min_slew.nanos as int) as nat;
        let t = p.interval.nanos as nat;
        if p.range() >= 1_000_000 {
            planned_against_length(p.range(), d, t, b, 1);
            assert(t * (1 - 1) == 0) by (nonlinear_arith);
            assert(t * (p.steps - 1) < d);
            if t * m >= d {
                assert(p.steps <= m) by (nonlinear_arith)
                    requires
                        t * (p.steps - 1) < d,
                        t * m >= d,
                        t > 0,
                ;
            }
            if 0 < k <= 1_000_000 && t * (k - 1) < d {
                if p.steps < k {
                    assert(t * p.steps <= t * (k - 1)) by (nonlinear_arith)
                        requires
                            p.steps <= k - 1,
                    ;
                }
            }
        }
    }
}

// ---------------------------------------------------------------------------
// Driving a fade
// ---------------------------------------------------------------------------

/// One report of a fade in progress.
#[derive(Clone, Copy, Debug, PartialEq, Eq, Structural)]
pub struct FadeProgress {
    /// What the output is set to.
    pub gain: Gain,
    /// Whether this is the last report.
    pub done: bool,
}

/// How a fade ended.
#[derive(Debug, PartialEq, Eq)]
pub enum FadeOutcome {
    /// It ran to its end.
    Completed,
    /// The output refused a step; what it was set to before stands.
    SinkError(PlayerError),
}

/// What the driver of a fade does next.
#[derive(Debug, PartialEq, Eq)]
pub enum FadeMove {
    /// Wait until this long after the start, and set the output.
    Apply(Step),
    /// Nothing more.
    Finish(FadeOutcome),
}

/// What a fade reports at its start, and what is done first: a fade with nothing to do
/// reports its level once and is complete; any other takes its first step.
pub fn begin_fade(spec: &FadeSpec) -> (r: (Option<FadeProgress>, FadeMove))
    ensures
        spec.schedule().len() == 0 ==> r == (
            Some(FadeProgress { gain: Gain::Db(spec.from_level() as i128), done: true }),
            FadeMove::Finish(FadeOutcome::Completed),
        ),
        spec.schedule().len() > 0 ==> r == (
            None::<FadeProgress>,
            FadeMove::Apply(spec.schedule()[0]),
        ),
{
    if spec.step_count() == 0 {
        (
            Some(FadeProgress { gain: Gain::Db(spec.from_db()), done: true }),
            FadeMove::Finish(FadeOutcome::Completed),
        )
    } else {
        (None, FadeMove::Apply(spec.step(0)))
    }
}

/// What a fade reports once the output has answered step `i`, and what is done next: a
/// refusal ends the fade without a report; otherwise the step is reported, as the last
/// one where it is, and the next is taken, where there is one.
pub fn continue_fade(spec: &FadeSpec, i: usize, answer: Result<(), PlayerError>) -> (r: (
    Option<FadeProgress>,
    FadeMove,
))
    requires
        i < spec.schedule().len(),
    ensures
        match answer {
            Err(e) => r == (
                None::<FadeProgress>,
                FadeMove::Finish(FadeOutcome::SinkError(e)),
            ),
            Ok(_) => r == (
                Some(
                    FadeProgress {
                        gain: spec.schedule()[i as int].gain,
                        done: i + 1 == spec.schedule().len(),
                    },
                ),
                if i + 1 == spec.schedule().len() {
                    FadeMove::Finish(FadeOutcome::Completed)
                } else {
                    FadeMove::Apply(spec.schedule()[i + 1])
                },
            ),
        },
{
    match answer {
        Err(e) => (None, FadeMove::Finish(FadeOutcome::SinkError(e))),
        Ok(_) => {
            let n: usize = spec.step_count();
            let done = i == n - 1;
            let report = FadeProgress { gain: spec.step(i).gain, done };
            if done {
                (Some(report), FadeMove::Finish(FadeOutcome::Completed))
            } else {
                (Some(report), FadeMove::Apply(spec.step(i + 1)))
            }
        },
    }
}

} // verus!
