//! What is kept over a restart, and the fade before the exit.

use vstd::prelude::*;

use crate::config::FadeConfig;
use crate::fade;
use crate::fade::{Curve, FadeSpec, FadeTarget, Gain, StartleBounds};
use crate::number;
use crate::number::{Real, Span};

verus! {

/// The version of what is kept.
pub const RESUME_SCHEMA_VERSION: u32 = 1;

/// What is kept over a restart.
#[derive(Clone, Debug)]
pub struct ResumeState {
    /// The version that it was written in.
    pub schema_version: u32,
    /// The queue.
    pub queue: Vec<ResumeItem>,
    /// The place of the current entry.
    pub current: Option<usize>,
    /// The position in the current entry, in seconds.
    pub elapsed_secs: Real,
    /// The volume that the user set.
    pub volume: u8,
    /// Whether it played.
    pub play_state: ResumePlayState,
    /// The version of the queue.
    pub playlist_version: u64,
    /// When it was written, in seconds from the epoch.
    pub saved_at_unix: u64,
    /// Whether something goes on playing behind the queue.
    pub continuation: bool,
}

/// One entry of the queue.
#[derive(Clone, Debug, PartialEq, Eq)]
pub enum ResumeItem {
    /// A song, by its id.
    Song {
        /// The id.
        id: String,
    },
    /// A raw stream.
    Stream {
        /// The address.
        url: String,
        /// The title.
        title: String,
    },
}

/// Whether it played. What was paused or stopped stays so.
#[derive(Clone, Copy, Debug, PartialEq, Eq, Structural)]
pub enum ResumePlayState {
    /// It played.
    Playing,
    /// It was paused.
    Paused,
    /// It was stopped.
    Stopped,
}

/// What was read back, where it is of this version. Anything else is a cold start.
pub fn accept(read: Option<ResumeState>) -> (r: Option<ResumeState>)
    ensures
        r == (match read {
            Some(s) => if s.schema_version == RESUME_SCHEMA_VERSION {
                Some(s)
            } else {
                None
            },
            None => None,
        }),
{
    match read {
        Some(s) => if s.schema_version == RESUME_SCHEMA_VERSION {
            Some(s)
        } else {
            None
        },
        None => None,
    }
}

/// The fade before the exit.
#[derive(Clone, Debug)]
pub struct ShutdownFade {
    /// The fade.
    pub spec: FadeSpec,
    /// How long it takes.
    pub real_dur: Span,
}

/// The bounds of the fade before the exit: a deliberate one, in large steps, so that it
/// is short.
pub open spec fn shutdown_bounds(cfg: FadeConfig) -> StartleBounds {
    StartleBounds {
        min_slew: Span { nanos: (cfg.min_slew_ms * 1_000_000) as u128 },
        step_size_db: cfg.step_size_db,
        synth_floor_db: cfg.synth_floor_db.or_default(0) as i128,
        sub_jnd: false,
    }
}

/// The length that the fade before the exit is asked for.
pub open spec fn shutdown_span(cfg: FadeConfig) -> Span {
    Span { nanos: (cfg.shutdown_fade_secs * 1_000_000_000) as u128 }
}

/// The interval that the fade before the exit is asked for.
pub open spec fn shutdown_tick(cfg: FadeConfig) -> Span {
    Span { nanos: (cfg.tick_ms * 1_000_000) as u128 }
}

/// The interval between two steps.
pub open spec fn step_interval(cfg: FadeConfig) -> Span {
    if cfg.min_slew_ms >= cfg.tick_ms {
        Span { nanos: (cfg.min_slew_ms * 1_000_000) as u128 }
    } else {
        Span { nanos: (cfg.tick_ms * 1_000_000) as u128 }
    }
}

/// How long a fade of so many steps takes.
pub open spec fn length_of(cfg: FadeConfig, steps: nat) -> Span {
    number::repeated(step_interval(cfg), steps)
}

/// Builds the fade before the exit. There is none where it would startle, or where it
/// would take longer than there is time for: being cut off in the middle is what it
/// must not be.
pub fn build_shutdown_fade(cfg: &FadeConfig, from_db: Real, budget: Span) -> (r: Option<
    ShutdownFade,
>)
    requires
        from_db.wf(),
        cfg.synth_floor_db is Finite,
        cfg.synth_floor_db.wf(),
    ensures
        ({
            let b = shutdown_bounds(*cfg);
            let dur = shutdown_span(*cfg);
            let tick = shutdown_tick(*cfg);
            let plan = fade::plan_of(
                from_db.or_default(0),
                FadeTarget::Silence,
                dur,
                tick,
                b,
            );
            let refused = fade::refusal(from_db, FadeTarget::Silence, dur, tick, b) is Some;
            let takes = length_of(*cfg, plan.schedule().len());
            match r {
                Some(f) => {
                    &&& !refused
                    &&& f.spec.schedule() == plan.schedule()
                    &&& f.spec.from_level() == plan.from
                    &&& f.real_dur == takes
                    &&& takes.nanos <= budget.nanos
                },
                None => refused || takes.nanos > budget.nanos,
            }
        }),
{
    let floor: i128 = cfg.synth_floor_db.finite_or(0);
    let min_slew = Span::from_millis(cfg.min_slew_ms);
    let tick = Span::from_millis(cfg.tick_ms);
    let bounds = StartleBounds {
        min_slew,
        step_size_db: cfg.step_size_db,
        synth_floor_db: floor,
        sub_jnd: false,
    };
    let spec = match FadeSpec::new(
        from_db,
        FadeTarget::Silence,
        Span::from_secs(cfg.shutdown_fade_secs),
        tick,
        Curve::DbLinear,
        bounds,
    ) {
        Ok(s) => s,
        Err(_) => return None,
    };
    let interval = if min_slew.nanos >= tick.nanos {
        min_slew
    } else {
        tick
    };
    assert(spec.schedule().len() <= fade::MAX_SCHEDULE_STEPS + 1);
    let steps: u32 = spec.step_count() as u32;
    let real_dur = interval.saturating_mul(steps);
    if real_dur.nanos > budget.nanos {
        return None;
    }
    Some(ShutdownFade { spec, real_dur })
}

/// The fade before the exit takes no longer from a lower level.
pub proof fn a_lower_start_takes_no_longer(cfg: FadeConfig, low: int, high: int)
    requires
        low <= high,
    ensures
        ({
            let b = shutdown_bounds(cfg);
            let dur = shutdown_span(cfg);
            let tick = shutdown_tick(cfg);
            let a = fade::plan_of(low, FadeTarget::Silence, dur, tick, b).schedule().len();
            let z = fade::plan_of(high, FadeTarget::Silence, dur, tick, b).schedule().len();
            a <= z && length_of(cfg, a).nanos <= length_of(cfg, z).nanos
        }),
{
    let b = shutdown_bounds(cfg);
    let dur = shutdown_span(cfg);
    let tick = shutdown_tick(cfg);
    let a = fade::plan_of(low, FadeTarget::Silence, dur, tick, b).schedule().len();
    let z = fade::plan_of(high, FadeTarget::Silence, dur, tick, b).schedule().len();
    let x = step_interval(cfg).nanos;
    assert(x * a <= x * z) by (nonlinear_arith)
        requires
            a <= z,
            x >= 0,
    ;
}

/// The fade before the exit ends in silence, with no sound after its last step.
pub proof fn the_exit_ends_in_silence(cfg: FadeConfig, from: int)
    requires
        fade::plan_of(
            from,
            FadeTarget::Silence,
            shutdown_span(cfg),
            shutdown_tick(cfg),
            shutdown_bounds(cfg),
        ).schedule().len() > 0,
    ensures
        fade::plan_of(
            from,
            FadeTarget::Silence,
            shutdown_span(cfg),
            shutdown_tick(cfg),
            shutdown_bounds(cfg),
        ).schedule().last().gain == Gain::Mute,
{
}

/// The fade before the exit is asked for as it is set: deliberate, for its seconds, at its
/// interval, and takes one interval for each of its steps, up to the longest span.
pub proof fn the_exit_is_as_it_is_set(cfg: FadeConfig, steps: nat)
    ensures
        ({
            let ms = if cfg.min_slew_ms >= cfg.tick_ms {
                cfg.min_slew_ms
            } else {
                cfg.tick_ms
            };
            let all = ms * 1_000_000 * steps;
            let longest = 18_446_744_073_709_551_615_999_999_999int;
            &&& all <= longest ==> length_of(cfg, steps).nanos == all
            &&& all > longest ==> length_of(cfg, steps).nanos == longest
        }),
        shutdown_span(cfg).nanos == cfg.shutdown_fade_secs * 1_000_000_000,
        shutdown_tick(cfg).nanos == cfg.tick_ms * 1_000_000,
        shutdown_bounds(cfg).min_slew.nanos == cfg.min_slew_ms * 1_000_000,
        shutdown_bounds(cfg).step_size_db == cfg.step_size_db,
        !shutdown_bounds(cfg).sub_jnd,
{
}

} // verus!
