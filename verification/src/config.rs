//! The configuration of the daemon.

use vstd::prelude::*;

use crate::fade::STARTLE_HARD_MIN_SLEW_MS;
use crate::number;
use crate::number::Real;
use crate::softvol::SYNTH_FLOOR_DB;

verus! {

/// The whole configuration.
#[derive(Debug, Clone)]
pub struct Config {
    /// The music server.
    pub server: ServerConfig,
    /// The protocol listener.
    pub mpd: MpdConfig,
    /// The desktop integration.
    pub mpris: MprisConfig,
    /// The fades.
    pub fade: FadeConfig,
    /// The restarts.
    pub restart: RestartConfig,
}

/// How playback survives a restart.
#[derive(Debug, Clone)]
pub struct RestartConfig {
    /// Where the state is kept; `None` leaves the choice to the environment.
    pub state_dir: Option<String>,
    /// Seconds between two checkpoints of the position.
    pub checkpoint_secs: u64,
}

/// Seconds between two checkpoints, by default.
pub const DEFAULT_CHECKPOINT_SECS: u64 = 12;

impl Default for RestartConfig {
    fn default() -> (r: Self)
        ensures
            r.state_dir is None,
            r.checkpoint_secs == DEFAULT_CHECKPOINT_SECS,
    {
        RestartConfig { state_dir: None, checkpoint_secs: DEFAULT_CHECKPOINT_SECS }
    }
}

/// The knobs of the volume envelope. Levels are decibels, and levels and the pause
/// fade are counted in billionths.
#[derive(Debug, Clone, Copy, PartialEq, Eq, Structural)]
pub struct FadeConfig {
    /// The shortest interval between two steps, in milliseconds.
    pub min_slew_ms: u64,
    /// The largest step of a fade that is not to be noticed.
    pub step_size_db: Real,
    /// The level that a wind-down ends at, above silence.
    pub floor_level_db: Real,
    /// The level at and below which the signal counts as silence.
    pub synth_floor_db: Real,
    /// The level that a ramp up never exceeds.
    pub wake_ceiling_db: Real,
    /// The interval between two steps, in milliseconds.
    pub tick_ms: u64,
    /// Seconds of a fade to sleep.
    pub sleep_fade_secs: u64,
    /// Seconds of a wind-down.
    pub winddown_fade_secs: u64,
    /// Seconds of a ramp up.
    pub wake_ramp_secs: u64,
    /// The longest fade, in seconds.
    pub max_dur_secs: u64,
    /// Seconds of the fade before the daemon exits.
    pub shutdown_fade_secs: u64,
    /// Seconds of the fade around a pause.
    pub pause_fade_secs: Real,
}

/// The default shortest interval, in milliseconds.
pub const DEFAULT_MIN_SLEW_MS: u64 = 250;

/// The default step, three quarters of a decibel.
pub const DEFAULT_STEP_SIZE_DB: i128 = 750_000_000;

/// The default level of a wind-down.
pub const DEFAULT_FLOOR_LEVEL_DB: i128 = -45_000_000_000;

/// The default level of silence.
pub const DEFAULT_SYNTH_FLOOR_DB: i128 = -60_000_000_000;

/// The default ceiling.
pub const DEFAULT_WAKE_CEILING_DB: i128 = 0;

/// The default interval, in milliseconds.
pub const DEFAULT_TICK_MS: u64 = 250;

/// The default seconds of a fade to sleep.
pub const DEFAULT_SLEEP_FADE_SECS: u64 = 480;

/// The default seconds of a wind-down.
pub const DEFAULT_WINDDOWN_FADE_SECS: u64 = 300;

/// The default seconds of a ramp up.
pub const DEFAULT_WAKE_RAMP_SECS: u64 = 480;

/// The default longest fade, in seconds.
pub const DEFAULT_MAX_DUR_SECS: u64 = 1800;

/// The default seconds of the fade before exit.
pub const DEFAULT_SHUTDOWN_FADE_SECS: u64 = 6;

/// The default seconds of the fade around a pause, one half.
pub const DEFAULT_PAUSE_FADE_SECS: i128 = 500_000_000;

/// The smallest step that is used.
pub const MIN_STEP_SIZE_DB: i128 = 50_000_000;

/// How far the ceiling stays above silence, at least.
pub const CEILING_MIN_MARGIN_DB: i128 = 2_000_000_000;

/// The whole seconds that a shortest interval takes up, at least one.
pub open spec fn slew_secs(min_slew_ms: int) -> int {
    number::larger((min_slew_ms + 999) / 1000, 1)
}

/// What the knobs are held to.
///
/// Whatever is no finite number falls back to its default; the shortest interval
/// stays above the startle floor; silence is where the audio output mutes; the
/// ceiling keeps its margin above silence, and the wind-down level lies one decibel
/// inside of both; the durations lie between the shortest interval and the longest
/// fade.
pub open spec fn normalized(c: FadeConfig) -> FadeConfig {
    let min_slew = number::larger(c.min_slew_ms as int, STARTLE_HARD_MIN_SLEW_MS as int);
    let min_s = slew_secs(min_slew);
    let max_dur = number::larger(c.max_dur_secs as int, min_s);
    let ceiling = number::larger(
        c.wake_ceiling_db.or_default(DEFAULT_WAKE_CEILING_DB as int),
        SYNTH_FLOOR_DB + CEILING_MIN_MARGIN_DB,
    );
    FadeConfig {
        min_slew_ms: min_slew as u64,
        step_size_db: Real::Finite(
            number::larger(
                c.step_size_db.or_default(DEFAULT_STEP_SIZE_DB as int),
                MIN_STEP_SIZE_DB as int,
            ) as i128,
        ),
        floor_level_db: Real::Finite(
            number::clamped(
                c.floor_level_db.or_default(DEFAULT_FLOOR_LEVEL_DB as int),
                SYNTH_FLOOR_DB + 1_000_000_000,
                ceiling - 1_000_000_000,
            ) as i128,
        ),
        synth_floor_db: Real::Finite(SYNTH_FLOOR_DB),
        wake_ceiling_db: Real::Finite(ceiling as i128),
        tick_ms: number::larger(c.tick_ms as int, min_slew) as u64,
        sleep_fade_secs: number::clamped(c.sleep_fade_secs as int, min_s, max_dur) as u64,
        winddown_fade_secs: number::clamped(c.winddown_fade_secs as int, min_s, max_dur) as u64,
        wake_ramp_secs: number::clamped(c.wake_ramp_secs as int, min_s, max_dur) as u64,
        max_dur_secs: max_dur as u64,
        shutdown_fade_secs: number::clamped(c.shutdown_fade_secs as int, min_s, max_dur) as u64,
        pause_fade_secs: Real::Finite(
            number::clamped(
                c.pause_fade_secs.or_default(DEFAULT_PAUSE_FADE_SECS as int),
                min_slew * 1_000_000,
                max_dur * 1_000_000_000,
            ) as i128,
        ),
    }
}

impl FadeConfig {
    /// Holds every knob to its safe range. It never fails: there is no value that it
    /// does not bring into range.
    pub fn normalize(&mut self)
        ensures
            *final(self) == normalized(*old(self)),
    {
        let step: i128 = self.step_size_db.finite_or(DEFAULT_STEP_SIZE_DB);
        let floor: i128 = self.floor_level_db.finite_or(DEFAULT_FLOOR_LEVEL_DB);
        let ceiling: i128 = self.wake_ceiling_db.finite_or(DEFAULT_WAKE_CEILING_DB);
        if self.min_slew_ms < STARTLE_HARD_MIN_SLEW_MS {
            self.min_slew_ms = STARTLE_HARD_MIN_SLEW_MS;
        }
        if self.tick_ms < self.min_slew_ms {
            self.tick_ms = self.min_slew_ms;
        }
        self.step_size_db = Real::Finite(
            if step < MIN_STEP_SIZE_DB {
                MIN_STEP_SIZE_DB
            } else {
                step
            },
        );
        self.synth_floor_db = Real::Finite(SYNTH_FLOOR_DB);
        let min_ceiling: i128 = SYNTH_FLOOR_DB + CEILING_MIN_MARGIN_DB;
        let ceiling: i128 = if ceiling < min_ceiling {
            min_ceiling
        } else {
            ceiling
        };
        self.wake_ceiling_db = Real::Finite(ceiling);
        let lo: i128 = SYNTH_FLOOR_DB + 1_000_000_000;
        let hi: i128 = ceiling - 1_000_000_000;
        self.floor_level_db = Real::Finite(number::clamp_i128(floor, lo, hi));
        let part: u64 = if self.min_slew_ms % 1000 == 0 {
            0
        } else {
            1
        };
        let min_s: u64 = self.min_slew_ms / 1000 + part;
        assert(min_s == slew_secs(self.min_slew_ms as int));
        if self.max_dur_secs < min_s {
            self.max_dur_secs = min_s;
        }
        let max: u64 = self.max_dur_secs;
        self.sleep_fade_secs = number::clamp_u64(self.sleep_fade_secs, min_s, max);
        self.winddown_fade_secs = number::clamp_u64(self.winddown_fade_secs, min_s, max);
        self.wake_ramp_secs = number::clamp_u64(self.wake_ramp_secs, min_s, max);
        self.shutdown_fade_secs = number::clamp_u64(self.shutdown_fade_secs, min_s, max);
        let pause: i128 = self.pause_fade_secs.finite_or(DEFAULT_PAUSE_FADE_SECS);
        let pause_lo: i128 = (self.min_slew_ms as i128) * 1_000_000;
        let pause_hi: i128 = (max as i128) * 1_000_000_000;
        self.pause_fade_secs = Real::Finite(number::clamp_i128(pause, pause_lo, pause_hi));
    }
}

impl Default for FadeConfig {
    fn default() -> (r: Self)
        ensures
            r == default_fade(),
    {
        FadeConfig {
            min_slew_ms: DEFAULT_MIN_SLEW_MS,
            step_size_db: Real::Finite(DEFAULT_STEP_SIZE_DB),
            floor_level_db: Real::Finite(DEFAULT_FLOOR_LEVEL_DB),
            synth_floor_db: Real::Finite(DEFAULT_SYNTH_FLOOR_DB),
            wake_ceiling_db: Real::Finite(DEFAULT_WAKE_CEILING_DB),
            tick_ms: DEFAULT_TICK_MS,
            sleep_fade_secs: DEFAULT_SLEEP_FADE_SECS,
            winddown_fade_secs: DEFAULT_WINDDOWN_FADE_SECS,
            wake_ramp_secs: DEFAULT_WAKE_RAMP_SECS,
            max_dur_secs: DEFAULT_MAX_DUR_SECS,
            shutdown_fade_secs: DEFAULT_SHUTDOWN_FADE_SECS,
            pause_fade_secs: Real::Finite(DEFAULT_PAUSE_FADE_SECS),
        }
    }
}

/// The default knobs.
pub open spec fn default_fade() -> FadeConfig {
    FadeConfig {
        min_slew_ms: DEFAULT_MIN_SLEW_MS,
        step_size_db: Real::Finite(DEFAULT_STEP_SIZE_DB),
        floor_level_db: Real::Finite(DEFAULT_FLOOR_LEVEL_DB),
        synth_floor_db: Real::Finite(DEFAULT_SYNTH_FLOOR_DB),
        wake_ceiling_db: Real::Finite(DEFAULT_WAKE_CEILING_DB),
        tick_ms: DEFAULT_TICK_MS,
        sleep_fade_secs: DEFAULT_SLEEP_FADE_SECS,
        winddown_fade_secs: DEFAULT_WINDDOWN_FADE_SECS,
        wake_ramp_secs: DEFAULT_WAKE_RAMP_SECS,
        max_dur_secs: DEFAULT_MAX_DUR_SECS,
        shutdown_fade_secs: DEFAULT_SHUTDOWN_FADE_SECS,
        pause_fade_secs: Real::Finite(DEFAULT_PAUSE_FADE_SECS),
    }
}

/// The ranges that the knobs are safe in.
pub open spec fn safe(c: FadeConfig) -> bool {
    let min_s = slew_secs(c.min_slew_ms as int);
    &&& c.min_slew_ms >= STARTLE_HARD_MIN_SLEW_MS
    &&& c.tick_ms >= c.min_slew_ms
    &&& c.step_size_db matches Real::Finite(n) && n >= MIN_STEP_SIZE_DB
    &&& c.synth_floor_db == Real::Finite(SYNTH_FLOOR_DB)
    &&& c.wake_ceiling_db matches Real::Finite(hi) && hi >= SYNTH_FLOOR_DB + CEILING_MIN_MARGIN_DB
    &&& c.floor_level_db matches Real::Finite(n) && SYNTH_FLOOR_DB < n
        < c.wake_ceiling_db.or_default(0)
    &&& min_s <= c.max_dur_secs
    &&& min_s <= c.sleep_fade_secs <= c.max_dur_secs
    &&& min_s <= c.winddown_fade_secs <= c.max_dur_secs
    &&& min_s <= c.wake_ramp_secs <= c.max_dur_secs
    &&& min_s <= c.shutdown_fade_secs <= c.max_dur_secs
    &&& c.pause_fade_secs matches Real::Finite(n) && c.min_slew_ms * 1_000_000 <= n
        <= c.max_dur_secs * 1_000_000_000
}

/// Whatever the knobs were set to, normalizing brings them into their safe ranges.
pub proof fn normalizing_is_safe(c: FadeConfig)
    ensures
        safe(normalized(c)),
{
}

/// Normalizing a second time changes nothing.
pub proof fn normalizing_is_idempotent(c: FadeConfig)
    ensures
        normalized(normalized(c)) == normalized(c),
{
}

/// The default knobs are already normal.
pub proof fn defaults_are_normal()
    ensures
        normalized(default_fade()) == default_fade(),
{
}

/// The music server and how to log in to it.
#[derive(Debug, Clone)]
pub struct ServerConfig {
    /// The base address.
    pub url: String,
    /// The user.
    pub username: String,
    /// The password.
    pub password: String,
    /// The name that this client reports.
    pub client_name: String,
}

/// The protocol listener.
#[derive(Debug, Clone)]
pub struct MpdConfig {
    /// The address that it binds to.
    pub bind: String,
}

impl Default for MpdConfig {
    fn default() -> (r: Self)
        ensures
            r.bind@ == "127.0.0.1:6601"@,
    {
        MpdConfig { bind: default_mpd_bind() }
    }
}

/// The desktop integration.
#[derive(Debug, Clone)]
pub struct MprisConfig {
    /// Whether it is offered.
    pub enable: bool,
    /// The command that raises a client, program first.
    pub raise_command: Option<Vec<String>>,
}

impl Default for MprisConfig {
    fn default() -> (r: Self)
        ensures
            r.enable,
            r.raise_command is None,
    {
        MprisConfig { enable: default_mpris_enable(), raise_command: None }
    }
}

/// The desktop integration is offered unless it is switched off.
pub fn default_mpris_enable() -> (r: bool)
    ensures
        r,
{
    true
}

/// The name that this client reports by default.
pub fn default_client_name() -> (r: String)
    ensures
        r@ == "hypodj"@,
{
    "hypodj".to_owned()
}

/// The address that the listener binds to by default.
pub fn default_mpd_bind() -> (r: String)
    ensures
        r@ == "127.0.0.1:6601"@,
{
    "127.0.0.1:6601".to_owned()
}

/// Normalizing moves no knob further than it has to: one within its range stays as it was
/// set, one outside of it is held to the end that is nearer, and what is no finite number
/// falls back to its default, in range too.
pub proof fn normalizing_keeps_what_is_safe(c: FadeConfig)
    ensures
        ({
            let n = normalized(c);
            &&& c.min_slew_ms >= 200 ==> n.min_slew_ms == c.min_slew_ms
            &&& c.min_slew_ms < 200 ==> n.min_slew_ms == 200
            &&& c.tick_ms >= n.min_slew_ms ==> n.tick_ms == c.tick_ms
            &&& c.tick_ms < n.min_slew_ms ==> n.tick_ms == n.min_slew_ms
            &&& c.step_size_db matches Real::Finite(x) ==> n.step_size_db == if x >= 50_000_000 {
                Real::Finite(x)
            } else {
                Real::Finite(50_000_000)
            }
            &&& !(c.step_size_db is Finite) ==> n.step_size_db == Real::Finite(750_000_000)
            &&& n.wake_ceiling_db is Finite
            &&& c.wake_ceiling_db matches Real::Finite(x) ==> n.wake_ceiling_db->Finite_0 == if x
                >= -58_000_000_000 {
                x as int
            } else {
                -58_000_000_000
            }
            &&& !(c.wake_ceiling_db is Finite) ==> n.wake_ceiling_db == Real::Finite(0)
            &&& n.synth_floor_db is Finite && n.synth_floor_db->Finite_0 == -60_000_000_000
        }),
        ({
            let n = normalized(c);
            let hi = n.wake_ceiling_db->Finite_0 - 1_000_000_000;
            let asked = if c.floor_level_db is Finite {
                c.floor_level_db->Finite_0 as int
            } else {
                -45_000_000_000
            };
            let held = n.floor_level_db->Finite_0;
            &&& n.wake_ceiling_db is Finite && n.floor_level_db is Finite
            &&& -59_000_000_000 <= asked <= hi ==> held == asked
            &&& asked < -59_000_000_000 ==> held == -59_000_000_000
            &&& asked > hi ==> held == hi
        }),
{
}

/// Normalizing keeps every duration between the shortest interval, in whole seconds, and
/// the longest fade: one that lies there stays as it was set, and any other is held to the
/// end that is nearer.
pub proof fn normalizing_keeps_durations(c: FadeConfig, least: nat)
    requires
        1000 * (least - 1) < normalized(c).min_slew_ms <= 1000 * least,
    ensures
        ({
            let n = normalized(c);
            let most = n.max_dur_secs;
            let held = |asked: u64, got: u64|
                if asked < least {
                    got == least
                } else if asked > most {
                    got == most
                } else {
                    got == asked
                };
            &&& c.max_dur_secs >= least ==> most == c.max_dur_secs
            &&& c.max_dur_secs < least ==> most == least
            &&& held(c.sleep_fade_secs, n.sleep_fade_secs)
            &&& held(c.winddown_fade_secs, n.winddown_fade_secs)
            &&& held(c.wake_ramp_secs, n.wake_ramp_secs)
            &&& held(c.shutdown_fade_secs, n.shutdown_fade_secs)
        }),
        ({
            let n = normalized(c);
            let asked = if c.pause_fade_secs is Finite {
                c.pause_fade_secs->Finite_0 as int
            } else {
                500_000_000
            };
            let lo = n.min_slew_ms * 1_000_000;
            let hi = n.max_dur_secs * 1_000_000_000;
            let held = n.pause_fade_secs->Finite_0;
            &&& n.pause_fade_secs is Finite
            &&& lo <= asked <= hi ==> held == asked
            &&& asked < lo ==> held == lo
            &&& asked > hi ==> held == hi
        }),
{
}

/// By default a fade takes steps of three quarters of a decibel at every quarter of a second,
/// eight minutes to sleep and to wake, five to wind down to 45 decibels below full, six
/// seconds before the exit and half a second around a pause, and never more than half an
/// hour.
pub proof fn fades_are_gentle_by_default()
    ensures
        ({
            let c = default_fade();
            &&& c.min_slew_ms == 250 && c.tick_ms == 250
            &&& c.step_size_db == Real::Finite(750_000_000)
            &&& c.floor_level_db is Finite && c.floor_level_db->Finite_0 == -45_000_000_000
            &&& c.synth_floor_db is Finite && c.synth_floor_db->Finite_0 == -60_000_000_000
            &&& c.wake_ceiling_db == Real::Finite(0)
            &&& c.sleep_fade_secs == 480 && c.wake_ramp_secs == 480
            &&& c.winddown_fade_secs == 300
            &&& c.max_dur_secs == 1800
            &&& c.shutdown_fade_secs == 6
            &&& c.pause_fade_secs == Real::Finite(500_000_000)
        }),
{
}

} // verus!
