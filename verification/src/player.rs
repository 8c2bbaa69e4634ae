//! The player: its states, its commands, and what it does about each.
//!
//! The player holds which entry it plays by identity, latched when it is loaded, and
//! stamps every event with it. What an audio output does stands outside: a command
//! becomes calls of the output, and their outcome becomes a row of things to do.

use vstd::prelude::*;

use crate::event;
use crate::event::QueueId;
use crate::model::SongId;
use crate::number;
use crate::number::Real;
use crate::softvol;
use crate::text;

verus! {

/// Whether the player plays.
#[derive(Clone, Copy, Debug, PartialEq, Eq, Structural)]
pub enum PlayState {
    /// It holds nothing.
    Stopped,
    /// It plays.
    Playing,
    /// It holds its position.
    Paused,
}

impl Default for PlayState {
    fn default() -> (r: Self)
        ensures
            r == PlayState::Stopped,
    {
        PlayState::Stopped
    }
}

/// The play state that is told to others: a player with nothing loaded is stopped,
/// whatever its output reports.
pub fn effective_play_state(raw: PlayState, has_current: bool) -> (r: PlayState)
    ensures
        r == (if has_current {
            raw
        } else {
            PlayState::Stopped
        }),
{
    if has_current {
        raw
    } else {
        PlayState::Stopped
    }
}

/// Why the player did not do what it was asked to.
#[derive(Debug, PartialEq, Eq)]
pub enum PlayerError {
    /// The audio output refused.
    Backend(String),
    /// The player has ended.
    Gone,
}

impl PlayerError {
    /// The sentence that tells of the error.
    pub open spec fn sentence(self) -> Seq<char> {
        match self {
            PlayerError::Backend(what) => "player backend: "@ + what@,
            PlayerError::Gone => "player actor is gone"@,
        }
    }

    /// The sentence that tells of the error.
    pub fn message(&self) -> (r: String)
        ensures
            r@ == self.sentence(),
    {
        match self {
            PlayerError::Backend(what) => {
                let mut s = "player backend: ".to_owned();
                s.append(what.as_str());
                s
            },
            PlayerError::Gone => "player actor is gone".to_owned(),
        }
    }
}

/// What the player tells.
#[derive(Clone, Debug, PartialEq, Eq)]
pub enum PlayerEvent {
    /// The position in the track, in seconds.
    TimePos {
        /// The position.
        pos: Real,
        /// The latched entry.
        queue_id: Option<QueueId>,
    },
    /// The track came to its end.
    Eof {
        /// Its song, or `None` for a raw stream.
        song: Option<SongId>,
        /// The latched entry.
        queue_id: Option<QueueId>,
    },
    /// The play state changed, for this song and entry.
    StateChanged(PlayState, Option<SongId>, Option<QueueId>),
    /// A level of the sound, before the volume is applied.
    Viz {
        /// The mean level, in decibels below full scale.
        rms_db: Real,
        /// The peak level.
        peak_db: Real,
        /// What the volume adds to both.
        gain_db: Real,
        /// Whether sound is flowing.
        playing: bool,
    },
}

/// What the player is asked to do.
#[derive(Debug, PartialEq, Eq)]
pub enum PlayerCommand {
    /// Load a stream and play it.
    PlayUrl {
        /// The song, or `None` for a raw stream.
        song: Option<SongId>,
        /// The entry to latch.
        queue_id: Option<QueueId>,
        /// Where the stream is.
        url: String,
    },
    /// Hold the position.
    Pause,
    /// Go on.
    Resume,
    /// Unload.
    Stop,
    /// Go to a position, in seconds.
    Seek {
        /// The position.
        secs: Real,
    },
    /// Set the volume.
    SetVolume {
        /// The setting, from 0 to 100.
        vol: u8,
    },
    /// Set the volume between two settings, for a step of a fade.
    SetVolumeF64 {
        /// The setting.
        vol: Real,
        /// Its level.
        gain_db: Real,
    },
}

/// A call of the audio output.
#[derive(Debug, PartialEq, Eq)]
pub enum OutputCall {
    /// A command with its arguments.
    Command(String, Vec<String>),
    /// Sets whether it pauses.
    SetPause(bool),
    /// Sets its volume.
    SetVolume(Real),
}

/// One thing for the player to do. The order in which they come is the order in which
/// they are done.
#[derive(Debug, PartialEq, Eq)]
pub enum PlayerTodo {
    /// Show this play state.
    Publish(PlayState),
    /// Answer the command.
    Reply(Result<(), PlayerError>),
    /// Send an event, waiting until it is taken.
    Send(PlayerEvent),
    /// Send an event, or drop it where nobody takes it now.
    Offer(PlayerEvent),
}

/// Below this level everything is silence, in billionths of a decibel.
pub const VIZ_FLOOR_DBFS: i128 = -120_000_000_000;

/// The frame of a meter at rest.
pub open spec fn resting(gain_db: Real) -> PlayerEvent {
    PlayerEvent::Viz {
        rms_db: Real::Finite(VIZ_FLOOR_DBFS),
        peak_db: Real::Finite(VIZ_FLOOR_DBFS),
        gain_db,
        playing: false,
    }
}

/// The frame of a meter at rest: silent, and not playing, so that a meter which keeps
/// its last frame does not stay lit.
pub fn resting_viz(gain_db: Real) -> (r: PlayerEvent)
    ensures
        r == resting(gain_db),
{
    PlayerEvent::Viz {
        rms_db: Real::Finite(VIZ_FLOOR_DBFS),
        peak_db: Real::Finite(VIZ_FLOOR_DBFS),
        gain_db,
        playing: false,
    }
}

/// A url between double quotes, so that the output takes it for one argument.
pub fn quote(url: &str) -> (r: String)
    ensures
        r@ == seq!['"'] + url@ + seq!['"'],
{
    let mut s = String::new();
    s.push('"');
    s.append(url);
    s.push('"');
    assert(s@ =~= seq!['"'] + url@ + seq!['"']);
    s
}

// ---------------------------------------------------------------------------
// The audio output
// ---------------------------------------------------------------------------

/// Where the sound goes.
#[derive(Clone, Debug, PartialEq, Eq)]
pub enum AudioOut {
    /// Nowhere.
    Null,
    /// Into a WAV file.
    File(String),
    /// To the device.
    Device,
}

impl Default for AudioOut {
    fn default() -> (r: Self)
        ensures
            r == AudioOut::Null,
    {
        AudioOut::Null
    }
}

/// The properties that the output is made with.
pub open spec fn properties(out: AudioOut) -> Seq<(Seq<char>, Seq<char>)> {
    seq![("vid"@, "no"@), ("video"@, "no"@), ("terminal"@, "no"@)] + match out {
        AudioOut::Null => seq![("ao"@, "null"@)],
        AudioOut::File(path) => seq![("o"@, path@), ("of"@, "wav"@), ("oac"@, "pcm_s16le"@)],
        AudioOut::Device => Seq::empty(),
    }
}

fn push_property(props: &mut Vec<(String, String)>, name: &str, value: &str)
    ensures
        text::pairs(final(props)@) == text::pairs(old(props)@).push((name@, value@)),
{
    broadcast use text::pairs_push;

    props.push((name.to_owned(), value.to_owned()));
}

/// The properties that the output is made with, in order.
pub fn output_properties(out: &AudioOut) -> (r: Vec<(String, String)>)
    ensures
        text::pairs(r@) == properties(*out),
{
    let mut props: Vec<(String, String)> = Vec::new();
    assert(text::pairs(props@) =~= Seq::<(Seq<char>, Seq<char>)>::empty());
    push_property(&mut props, "vid", "no");
    push_property(&mut props, "video", "no");
    push_property(&mut props, "terminal", "no");
    match out {
        AudioOut::Null => {
            push_property(&mut props, "ao", "null");
        },
        AudioOut::File(path) => {
            push_property(&mut props, "o", path.as_str());
            push_property(&mut props, "of", "wav");
            push_property(&mut props, "oac", "pcm_s16le");
        },
        AudioOut::Device => {},
    }
    assert(text::pairs(props@) =~= properties(*out));
    props
}

/// An output that is not asked for the device is sent elsewhere: every other kind names
/// where the sound goes.
pub proof fn only_the_device_is_heard(out: AudioOut)
    ensures
        out is Device <==> !exists|i: int|
            0 <= i < properties(out).len() && ((#[trigger] properties(out)[i]).0 == "ao"@
                || properties(out)[i].0 == "o"@),
{
    reveal_strlit("vid");
    reveal_strlit("video");
    reveal_strlit("terminal");
    reveal_strlit("ao");
    reveal_strlit("o");
    let p = properties(out);
    match out {
        AudioOut::Null => {
            assert(p[3].0 == "ao"@);
        },
        AudioOut::File(path) => {
            assert(p[3].0 == "o"@);
        },
        AudioOut::Device => {
            assert("vid"@.len() != "ao"@.len() && "vid"@.len() != "o"@.len());
            assert("video"@.len() != "ao"@.len() && "video"@.len() != "o"@.len());
            assert("terminal"@.len() != "ao"@.len() && "terminal"@.len() != "o"@.len());
        },
    }
}

/// Why the output ended a file.
#[derive(Clone, Copy, Debug, PartialEq, Eq, Structural)]
pub enum EndReason {
    /// It came to its end.
    Eof,
    /// It was replaced or stopped.
    Stop,
    /// The output ends.
    Quit,
    /// It failed after it had been loaded.
    Error,
    /// It led to another.
    Redirect,
    /// Anything else.
    Other,
}

/// The output's code for the end of a file.
pub const MPV_END_FILE_REASON_EOF: u32 = 0;

/// The output's code for a file that was replaced or stopped.
pub const MPV_END_FILE_REASON_STOP: u32 = 2;

/// The output's code for its own end.
pub const MPV_END_FILE_REASON_QUIT: u32 = 3;

/// The output's code for a failure.
pub const MPV_END_FILE_REASON_ERROR: u32 = 4;

/// The output's code for a redirection.
pub const MPV_END_FILE_REASON_REDIRECT: u32 = 5;

/// What the output's code means.
pub open spec fn reason_of(raw: u32) -> EndReason {
    if raw == MPV_END_FILE_REASON_EOF {
        EndReason::Eof
    } else if raw == MPV_END_FILE_REASON_STOP {
        EndReason::Stop
    } else if raw == MPV_END_FILE_REASON_QUIT {
        EndReason::Quit
    } else if raw == MPV_END_FILE_REASON_ERROR {
        EndReason::Error
    } else if raw == MPV_END_FILE_REASON_REDIRECT {
        EndReason::Redirect
    } else {
        EndReason::Other
    }
}

/// What the output's code means.
pub fn end_reason(raw: u32) -> (r: EndReason)
    ensures
        r == reason_of(raw),
{
    if raw == MPV_END_FILE_REASON_EOF {
        EndReason::Eof
    } else if raw == MPV_END_FILE_REASON_STOP {
        EndReason::Stop
    } else if raw == MPV_END_FILE_REASON_QUIT {
        EndReason::Quit
    } else if raw == MPV_END_FILE_REASON_ERROR {
        EndReason::Error
    } else if raw == MPV_END_FILE_REASON_REDIRECT {
        EndReason::Redirect
    } else {
        EndReason::Other
    }
}

/// The end of a file ends the track: it came to its end, or it failed.
pub open spec fn ends_track(raw: u32) -> bool {
    reason_of(raw) == EndReason::Eof || reason_of(raw) == EndReason::Error
}

/// A value of the output's level meter.
#[derive(Debug, PartialEq, Eq)]
pub enum MeterValue {
    /// A text.
    Text(String),
    /// A number.
    Number(Real),
    /// Something else.
    Other,
}

/// The level that a value gives, not below the floor.
pub open spec fn meter_level(v: MeterValue) -> Option<int> {
    let read = match v {
        MeterValue::Text(s) => number::real_of(text::trimmed(s@)),
        MeterValue::Number(n) => Some(n),
        MeterValue::Other => None,
    };
    match read {
        Some(n) => Some(number::larger(n.or_default(VIZ_FLOOR_DBFS as int), VIZ_FLOOR_DBFS as int)),
        None => None,
    }
}

/// The last level whose key ends in `suffix`.
pub open spec fn last_level(map: Seq<(String, MeterValue)>, suffix: Seq<char>) -> Option<int>
    decreases map.len(),
{
    if map.len() == 0 {
        None
    } else {
        let (key, value) = map.last();
        let before = last_level(map.drop_last(), suffix);
        if text::ends(key@, suffix) && meter_level(value) is Some {
            meter_level(value)
        } else {
            before
        }
    }
}

/// The mean and the peak level that a map gives. Where one is missing the other stands
/// for it.
pub open spec fn levels_of(map: Seq<(String, MeterValue)>) -> Option<(int, int)> {
    let rms = last_level(map, "RMS_level"@);
    let peak = last_level(map, "Peak_level"@);
    match (rms, peak) {
        (Some(r), Some(p)) => Some((r, p)),
        (Some(r), None) => Some((r, r)),
        (None, Some(p)) => Some((p, p)),
        (None, None) => None,
    }
}

fn read_level(v: &MeterValue) -> (r: Option<i128>)
    ensures
        match r {
            Some(n) => meter_level(*v) == Some(n as int),
            None => meter_level(*v) is None,
        },
{
    let read = match v {
        MeterValue::Text(s) => number::parse_real(text::trim(s.as_str()).as_str()),
        MeterValue::Number(n) => Some(*n),
        MeterValue::Other => None,
    };
    match read {
        Some(n) => {
            let x: i128 = n.finite_or(VIZ_FLOOR_DBFS);
            Some(
                if x > VIZ_FLOOR_DBFS {
                    x
                } else {
                    VIZ_FLOOR_DBFS
                },
            )
        },
        None => None,
    }
}

/// No key ends in both.
proof fn one_suffix(key: Seq<char>)
    ensures
        !(text::ends(key, "RMS_level"@) && text::ends(key, "Peak_level"@)),
{
    reveal_strlit("RMS_level");
    reveal_strlit("Peak_level");
    if text::ends(key, "RMS_level"@) && text::ends(key, "Peak_level"@) {
        let n = key.len() as int;
        assert(key.subrange(n - 9, n)[2] == 'S');
        assert(key.subrange(n - 10, n)[3] == 'k');
        assert(false);
    }
}

/// The mean and the peak level of the sound from the map of the output's level meter.
/// `None` where it holds neither.
pub fn parse_astats_levels(map: &[(String, MeterValue)]) -> (r: Option<(Real, Real)>)
    ensures
        match r {
            Some((Real::Finite(a), Real::Finite(b))) => levels_of(map@) == Some(
                (a as int, b as int),
            ),
            Some(_) => false,
            None => levels_of(map@) is None,
        },
{
    let mut rms: Option<i128> = None;
    let mut peak: Option<i128> = None;
    let mut i: usize = 0;
    assert(map@.take(0) =~= Seq::<(String, MeterValue)>::empty());
    while i < map.len()
        invariant
            i <= map@.len(),
            match rms {
                Some(n) => last_level(map@.take(i as int), "RMS_level"@) == Some(n as int),
                None => last_level(map@.take(i as int), "RMS_level"@) is None,
            },
            match peak {
                Some(n) => last_level(map@.take(i as int), "Peak_level"@) == Some(n as int),
                None => last_level(map@.take(i as int), "Peak_level"@) is None,
            },
        decreases map@.len() - i,
    {
        let key = &map[i].0;
        proof {
            one_suffix(key@);
            assert(map@.take(i + 1).drop_last() =~= map@.take(i as int));
            assert(map@.take(i + 1).last() == map@[i as int]);
        }
        if let Some(v) = read_level(&map[i].1) {
            if text::ends_with(key.as_str(), "RMS_level") {
                rms = Some(v);
            } else if text::ends_with(key.as_str(), "Peak_level") {
                peak = Some(v);
            }
        }
        i += 1;
    }
    assert(map@.take(map@.len() as int) =~= map@);
    match (rms, peak) {
        (Some(a), Some(b)) => Some((Real::Finite(a), Real::Finite(b))),
        (Some(a), None) => Some((Real::Finite(a), Real::Finite(a))),
        (None, Some(b)) => Some((Real::Finite(b), Real::Finite(b))),
        (None, None) => None,
    }
}

// ---------------------------------------------------------------------------
// The player on an audio output
// ---------------------------------------------------------------------------

/// A call of the output, as it is seen by it.
pub open spec fn is_command(call: OutputCall, name: Seq<char>, args: Seq<Seq<char>>) -> bool {
    call matches OutputCall::Command(n, a) && n@ == name && text::texts(a@) == args
}

/// The calls that a command makes of the output. Each is made only where the one before
/// it succeeded.
pub open spec fn calls_of(cmd: PlayerCommand, calls: Seq<OutputCall>) -> bool {
    match cmd {
        PlayerCommand::PlayUrl { song, queue_id, url } => {
            &&& calls.len() == 2
            &&& is_command(
                calls[0],
                "loadfile"@,
                seq![seq!['"'] + url@ + seq!['"'], "replace"@],
            )
            &&& calls[1] == OutputCall::SetPause(false)
        },
        PlayerCommand::Pause => calls == seq![OutputCall::SetPause(true)],
        PlayerCommand::Resume => calls == seq![OutputCall::SetPause(false)],
        PlayerCommand::Stop => calls.len() == 1 && is_command(calls[0], "stop"@, Seq::empty()),
        PlayerCommand::Seek { secs } => calls.len() == 1 && is_command(
            calls[0],
            "seek"@,
            seq![number::show_real(secs), "absolute"@],
        ),
        PlayerCommand::SetVolume { vol } => calls == seq![
            OutputCall::SetVolume(Real::Finite((vol * 1_000_000_000) as i128)),
        ],
        PlayerCommand::SetVolumeF64 { vol, gain_db } => calls == seq![OutputCall::SetVolume(vol)],
    }
}

/// The calls that a command makes of the output.
pub fn output_calls(cmd: &PlayerCommand) -> (r: Vec<OutputCall>)
    ensures
        calls_of(*cmd, r@),
{
    broadcast use text::texts_push;

    let mut args: Vec<String> = Vec::new();
    assert(text::texts(args@) =~= Seq::<Seq<char>>::empty());
    let mut r: Vec<OutputCall> = Vec::new();
    match cmd {
        PlayerCommand::PlayUrl { song: _, queue_id: _, url } => {
            args.push(quote(url.as_str()));
            args.push("replace".to_owned());
            assert(text::texts(args@) =~= seq![seq!['"'] + url@ + seq!['"'], "replace"@]);
            r.push(OutputCall::Command("loadfile".to_owned(), args));
            r.push(OutputCall::SetPause(false));
        },
        PlayerCommand::Pause => {
            r.push(OutputCall::SetPause(true));
        },
        PlayerCommand::Resume => {
            r.push(OutputCall::SetPause(false));
        },
        PlayerCommand::Stop => {
            r.push(OutputCall::Command("stop".to_owned(), args));
        },
        PlayerCommand::Seek { secs } => {
            args.push(number::real_text(*secs));
            args.push("absolute".to_owned());
            assert(text::texts(args@) =~= seq![number::show_real(*secs), "absolute"@]);
            r.push(OutputCall::Command("seek".to_owned(), args));
        },
        PlayerCommand::SetVolume { vol } => {
            r.push(OutputCall::SetVolume(Real::of_u64(*vol as u64)));
        },
        PlayerCommand::SetVolumeF64 { vol, gain_db: _ } => {
            r.push(OutputCall::SetVolume(*vol));
        },
    }
    r
}

/// The player on an audio output.
#[derive(Debug, PartialEq, Eq)]
pub struct Deck {
    /// The latched song, or `None` for a raw stream or nothing.
    pub current: Option<SongId>,
    /// The latched entry.
    pub current_qid: Option<QueueId>,
    /// The level of the volume.
    pub gain_db: Real,
    /// Whether sound is flowing.
    pub playing: bool,
}

/// The player after a command, whose calls of the output had this outcome.
pub open spec fn after(d: Deck, cmd: PlayerCommand, ok: bool) -> Deck {
    match cmd {
        PlayerCommand::PlayUrl { song, queue_id, url } => if ok {
            Deck { current: song, current_qid: queue_id, playing: true, ..d }
        } else {
            d
        },
        PlayerCommand::Pause => if ok {
            Deck { playing: false, ..d }
        } else {
            d
        },
        PlayerCommand::Resume => if ok {
            Deck { playing: true, ..d }
        } else {
            d
        },
        PlayerCommand::Stop => Deck { current: None, current_qid: None, playing: false, ..d },
        PlayerCommand::Seek { secs } => d,
        PlayerCommand::SetVolume { vol } => if ok {
            Deck { gain_db: Real::Finite(softvol::level_of(vol) as i128), ..d }
        } else {
            d
        },
        PlayerCommand::SetVolumeF64 { vol, gain_db } => if ok {
            Deck { gain_db, ..d }
        } else {
            d
        },
    }
}

/// The answer to a command, given the outcome of its calls.
pub open spec fn answer(res: Result<(), String>) -> PlayerTodo {
    PlayerTodo::Reply(
        match res {
            Ok(_) => Ok(()),
            Err(e) => Err(PlayerError::Backend(e)),
        },
    )
}

/// What is to be done for a command, whose calls of the output had this outcome. A
/// load is answered before its event is sent, so that a caller who reads the events is
/// never waited for.
pub open spec fn todos(d: Deck, cmd: PlayerCommand, res: Result<(), String>) -> Seq<PlayerTodo> {
    match cmd {
        PlayerCommand::PlayUrl { song, queue_id, url } => if res is Ok {
            seq![
                PlayerTodo::Publish(PlayState::Playing),
                answer(res),
                PlayerTodo::Send(PlayerEvent::StateChanged(PlayState::Playing, song, queue_id)),
            ]
        } else {
            seq![answer(res)]
        },
        PlayerCommand::Pause => if res is Ok {
            seq![
                PlayerTodo::Offer(resting(d.gain_db)),
                PlayerTodo::Publish(PlayState::Paused),
                PlayerTodo::Send(
                    PlayerEvent::StateChanged(PlayState::Paused, d.current, d.current_qid),
                ),
                answer(res),
            ]
        } else {
            seq![answer(res)]
        },
        PlayerCommand::Resume => if res is Ok {
            seq![
                PlayerTodo::Publish(PlayState::Playing),
                PlayerTodo::Send(
                    PlayerEvent::StateChanged(PlayState::Playing, d.current, d.current_qid),
                ),
                answer(res),
            ]
        } else {
            seq![answer(res)]
        },
        PlayerCommand::Stop => seq![
            PlayerTodo::Offer(resting(d.gain_db)),
            PlayerTodo::Publish(PlayState::Stopped),
            PlayerTodo::Send(PlayerEvent::StateChanged(PlayState::Stopped, None, None)),
            answer(res),
        ],
        PlayerCommand::Seek { secs } => if res is Ok {
            seq![
                PlayerTodo::Send(PlayerEvent::TimePos { pos: secs, queue_id: d.current_qid }),
                answer(res),
            ]
        } else {
            seq![answer(res)]
        },
        PlayerCommand::SetVolume { vol } => seq![answer(res)],
        PlayerCommand::SetVolumeF64 { vol, gain_db } => seq![answer(res)],
    }
}

/// The player after the end of a file.
pub open spec fn after_end(d: Deck, raw: u32) -> Deck {
    if ends_track(raw) {
        Deck { current: None, current_qid: None, playing: false, ..d }
    } else {
        d
    }
}

/// What is to be done at the end of a file: a track that ended is told of, unless
/// nothing was latched, and then the stop.
pub open spec fn end_todos(d: Deck, raw: u32) -> Seq<PlayerTodo> {
    if ends_track(raw) {
        seq![PlayerTodo::Offer(resting(d.gain_db)), PlayerTodo::Publish(PlayState::Stopped)]
            + if d.current_qid is Some {
            seq![
                PlayerTodo::Send(PlayerEvent::Eof { song: d.current, queue_id: d.current_qid }),
                PlayerTodo::Send(PlayerEvent::StateChanged(PlayState::Stopped, None, None)),
            ]
        } else {
            seq![PlayerTodo::Send(PlayerEvent::StateChanged(PlayState::Stopped, None, None))]
        }
    } else {
        Seq::empty()
    }
}

fn reply_for(res: Result<(), String>) -> (r: PlayerTodo)
    ensures
        r == answer(res),
{
    match res {
        Ok(_) => PlayerTodo::Reply(Ok(())),
        Err(e) => PlayerTodo::Reply(Err(PlayerError::Backend(e))),
    }
}

impl Deck {
    /// A player with nothing loaded, at full volume.
    pub fn new() -> (r: Deck)
        ensures
            r == (Deck {
                current: None,
                current_qid: None,
                gain_db: Real::Finite(0),
                playing: false,
            }),
    {
        Deck { current: None, current_qid: None, gain_db: Real::Finite(0), playing: false }
    }

    /// Applies a command whose calls of the output had this outcome, and gives what is
    /// to be done for it.
    pub fn handle_cmd(&mut self, cmd: PlayerCommand, res: Result<(), String>) -> (r: Vec<
        PlayerTodo,
    >)
        ensures
            *final(self) == after(*old(self), cmd, res is Ok),
            r@ == todos(*old(self), cmd, res),
    {
        let ok = res.is_ok();
        let mut r: Vec<PlayerTodo> = Vec::new();
        match cmd {
            PlayerCommand::PlayUrl { song, queue_id, url: _ } => {
                if ok {
                    self.current = event::copy_song(&song);
                    self.current_qid = queue_id;
                    self.playing = true;
                    r.push(PlayerTodo::Publish(PlayState::Playing));
                    r.push(reply_for(res));
                    r.push(
                        PlayerTodo::Send(
                            PlayerEvent::StateChanged(PlayState::Playing, song, queue_id),
                        ),
                    );
                } else {
                    r.push(reply_for(res));
                }
            },
            PlayerCommand::Pause => {
                if ok {
                    self.playing = false;
                    r.push(PlayerTodo::Offer(resting_viz(self.gain_db)));
                    r.push(PlayerTodo::Publish(PlayState::Paused));
                    r.push(
                        PlayerTodo::Send(
                            PlayerEvent::StateChanged(
                                PlayState::Paused,
                                event::copy_song(&self.current),
                                self.current_qid,
                            ),
                        ),
                    );
                }
                r.push(reply_for(res));
            },
            PlayerCommand::Resume => {
                if ok {
                    self.playing = true;
                    r.push(PlayerTodo::Publish(PlayState::Playing));
                    r.push(
                        PlayerTodo::Send(
                            PlayerEvent::StateChanged(
                                PlayState::Playing,
                                event::copy_song(&self.current),
                                self.current_qid,
                            ),
                        ),
                    );
                }
                r.push(reply_for(res));
            },
            PlayerCommand::Stop => {
                self.current = None;
                self.current_qid = None;
                self.playing = false;
                r.push(PlayerTodo::Offer(resting_viz(self.gain_db)));
                r.push(PlayerTodo::Publish(PlayState::Stopped));
                r.push(PlayerTodo::Send(PlayerEvent::StateChanged(PlayState::Stopped, None, None)));
                r.push(reply_for(res));
            },
            PlayerCommand::Seek { secs } => {
                if ok {
                    r.push(
                        PlayerTodo::Send(
                            PlayerEvent::TimePos { pos: secs, queue_id: self.current_qid },
                        ),
                    );
                }
                r.push(reply_for(res));
            },
            PlayerCommand::SetVolume { vol } => {
                if ok {
                    self.gain_db = softvol::mpv_volume_to_db(vol);
                }
                r.push(reply_for(res));
            },
            PlayerCommand::SetVolumeF64 { vol: _, gain_db } => {
                if ok {
                    self.gain_db = gain_db;
                }
                r.push(reply_for(res));
            },
        }
        assert(r@ =~= todos(*old(self), cmd, res));
        r
    }

    /// What is to be done when the position moves.
    pub fn on_time_pos(&self, pos: Real) -> (r: PlayerTodo)
        ensures
            r == PlayerTodo::Offer(PlayerEvent::TimePos { pos, queue_id: self.current_qid }),
    {
        PlayerTodo::Offer(PlayerEvent::TimePos { pos, queue_id: self.current_qid })
    }

    /// What is to be done when the level meter moves: nothing where it gives no level.
    pub fn on_meter(&self, map: &[(String, MeterValue)]) -> (r: Option<PlayerTodo>)
        ensures
            match levels_of(map@) {
                Some((rms, peak)) => r == Some(
                    PlayerTodo::Offer(
                        PlayerEvent::Viz {
                            rms_db: Real::Finite(rms as i128),
                            peak_db: Real::Finite(peak as i128),
                            gain_db: self.gain_db,
                            playing: self.playing,
                        },
                    ),
                ),
                None => r is None,
            },
    {
        match parse_astats_levels(map) {
            Some((rms_db, peak_db)) => Some(
                PlayerTodo::Offer(
                    PlayerEvent::Viz {
                        rms_db,
                        peak_db,
                        gain_db: self.gain_db,
                        playing: self.playing,
                    },
                ),
            ),
            None => None,
        }
    }

    /// Applies the end of a file, and gives what is to be done for it. Only a track
    /// that came to its end or failed unlatches: by the time a replaced file ends, its
    /// successor is latched.
    pub fn on_end_file(&mut self, raw: u32) -> (r: Vec<PlayerTodo>)
        ensures
            *final(self) == after_end(*old(self), raw),
            r@ == end_todos(*old(self), raw),
    {
        let mut r: Vec<PlayerTodo> = Vec::new();
        match end_reason(raw) {
            EndReason::Eof | EndReason::Error => {
                let song = self.current.take();
                let qid = self.current_qid;
                self.current_qid = None;
                self.playing = false;
                r.push(PlayerTodo::Offer(resting_viz(self.gain_db)));
                r.push(PlayerTodo::Publish(PlayState::Stopped));
                if qid.is_some() {
                    r.push(PlayerTodo::Send(PlayerEvent::Eof { song, queue_id: qid }));
                }
                r.push(PlayerTodo::Send(PlayerEvent::StateChanged(PlayState::Stopped, None, None)));
            },
            _ => {},
        }
        assert(r@ =~= end_todos(*old(self), raw));
        r
    }
}

// ---------------------------------------------------------------------------
// The player without an audio output
// ---------------------------------------------------------------------------

/// A player that makes no sound. It holds what it was asked to play, and answers as the
/// player on an output does.
#[derive(Debug, PartialEq, Eq)]
pub struct NullPlayer {
    /// The latched song.
    pub current: Option<SongId>,
    /// The latched entry.
    pub current_qid: Option<QueueId>,
    /// The play state that it shows.
    pub state: PlayState,
}

/// The silent player after a command.
pub open spec fn null_after(p: NullPlayer, cmd: PlayerCommand) -> NullPlayer {
    match cmd {
        PlayerCommand::PlayUrl { song, queue_id, url } => NullPlayer {
            current: song,
            current_qid: queue_id,
            state: PlayState::Playing,
        },
        PlayerCommand::Pause => NullPlayer { state: PlayState::Paused, ..p },
        PlayerCommand::Resume => NullPlayer { state: PlayState::Playing, ..p },
        PlayerCommand::Stop => NullPlayer {
            current: None,
            current_qid: None,
            state: PlayState::Stopped,
        },
        _ => p,
    }
}

/// What is to be done for a command of the silent player: it shows the state, answers,
/// and only after that sends its event.
pub open spec fn null_todos(p: NullPlayer, cmd: PlayerCommand) -> Seq<PlayerTodo> {
    let q = null_after(p, cmd);
    let done = PlayerTodo::Reply(Ok(()));
    match cmd {
        PlayerCommand::Seek { secs } => seq![
            done,
            PlayerTodo::Send(PlayerEvent::TimePos { pos: secs, queue_id: p.current_qid }),
        ],
        PlayerCommand::SetVolume { vol } => seq![done],
        PlayerCommand::SetVolumeF64 { vol, gain_db } => seq![done],
        _ => seq![
            PlayerTodo::Publish(q.state),
            done,
            PlayerTodo::Send(PlayerEvent::StateChanged(q.state, q.current, q.current_qid)),
        ],
    }
}

/// What is to be done when the silent player's track ends.
pub open spec fn null_end_todos(p: NullPlayer) -> Seq<PlayerTodo> {
    seq![PlayerTodo::Publish(PlayState::Stopped)] + if p.current_qid is Some {
        seq![
            PlayerTodo::Send(PlayerEvent::Eof { song: p.current, queue_id: p.current_qid }),
            PlayerTodo::Send(PlayerEvent::StateChanged(PlayState::Stopped, None, None)),
        ]
    } else {
        seq![PlayerTodo::Send(PlayerEvent::StateChanged(PlayState::Stopped, None, None))]
    }
}

impl NullPlayer {
    /// A silent player with nothing loaded.
    pub fn new() -> (r: NullPlayer)
        ensures
            r == (NullPlayer { current: None, current_qid: None, state: PlayState::Stopped }),
    {
        NullPlayer { current: None, current_qid: None, state: PlayState::Stopped }
    }

    /// Applies a command, and gives what is to be done for it.
    pub fn handle_cmd(&mut self, cmd: PlayerCommand) -> (r: Vec<PlayerTodo>)
        ensures
            *final(self) == null_after(*old(self), cmd),
            r@ == null_todos(*old(self), cmd),
    {
        let mut r: Vec<PlayerTodo> = Vec::new();
        let shows = match &cmd {
            PlayerCommand::PlayUrl { song, queue_id, url: _ } => {
                self.current = event::copy_song(song);
                self.current_qid = *queue_id;
                self.state = PlayState::Playing;
                true
            },
            PlayerCommand::Pause => {
                self.state = PlayState::Paused;
                true
            },
            PlayerCommand::Resume => {
                self.state = PlayState::Playing;
                true
            },
            PlayerCommand::Stop => {
                self.current = None;
                self.current_qid = None;
                self.state = PlayState::Stopped;
                true
            },
            _ => false,
        };
        if shows {
            r.push(PlayerTodo::Publish(self.state));
        }
        r.push(PlayerTodo::Reply(Ok(())));
        if shows {
            r.push(
                PlayerTodo::Send(
                    PlayerEvent::StateChanged(
                        self.state,
                        event::copy_song(&self.current),
                        self.current_qid,
                    ),
                ),
            );
        }
        if let PlayerCommand::Seek { secs } = &cmd {
            r.push(
                PlayerTodo::Send(PlayerEvent::TimePos { pos: *secs, queue_id: self.current_qid }),
            );
        }
        assert(r@ =~= null_todos(*old(self), cmd));
        r
    }

    /// Ends the track, and gives what is to be done for it.
    pub fn test_emit_eof(&mut self) -> (r: Vec<PlayerTodo>)
        ensures
            *final(self) == (NullPlayer {
                current: None,
                current_qid: None,
                state: PlayState::Stopped,
            }),
            r@ == null_end_todos(*old(self)),
    {
        let mut r: Vec<PlayerTodo> = Vec::new();
        let song = self.current.take();
        let qid = self.current_qid;
        self.current_qid = None;
        self.state = PlayState::Stopped;
        r.push(PlayerTodo::Publish(PlayState::Stopped));
        if qid.is_some() {
            r.push(PlayerTodo::Send(PlayerEvent::Eof { song, queue_id: qid }));
        }
        r.push(PlayerTodo::Send(PlayerEvent::StateChanged(PlayState::Stopped, None, None)));
        assert(r@ =~= null_end_todos(*old(self)));
        r
    }
}

// ---------------------------------------------------------------------------
// Laws
// ---------------------------------------------------------------------------

/// How many answers a row of things to do gives.
pub open spec fn answers(r: Seq<PlayerTodo>) -> nat
    decreases r.len(),
{
    if r.len() == 0 {
        0
    } else {
        answers(r.drop_last()) + if r.last() is Reply {
            1nat
        } else {
            0
        }
    }
}

proof fn answers_of(r: Seq<PlayerTodo>)
    requires
        1 <= r.len() <= 4,
    ensures
        answers(r) == (if r[0] is Reply {
            1int
        } else {
            0
        }) + (if r.len() > 1 && r[1] is Reply {
            1int
        } else {
            0
        }) + (if r.len() > 2 && r[2] is Reply {
            1int
        } else {
            0
        }) + (if r.len() > 3 && r[3] is Reply {
            1int
        } else {
            0
        }),
{
    reveal_with_fuel(answers, 5);
}

/// Every command is answered exactly once, by either player.
pub proof fn every_command_is_answered_once(
    d: Deck,
    p: NullPlayer,
    cmd: PlayerCommand,
    res: Result<(), String>,
)
    ensures
        answers(todos(d, cmd, res)) == 1,
        answers(null_todos(p, cmd)) == 1,
{
    answers_of(todos(d, cmd, res));
    answers_of(null_todos(p, cmd));
}

/// A load is answered before anything is sent, by either player.
pub proof fn a_load_is_answered_before_it_is_told(
    d: Deck,
    p: NullPlayer,
    cmd: PlayerCommand,
    res: Result<(), String>,
    i: int,
    j: int,
)
    requires
        cmd is PlayUrl,
    ensures
        0 <= i < todos(d, cmd, res).len() && 0 <= j < todos(d, cmd, res).len()
            && todos(d, cmd, res)[i] is Reply && todos(d, cmd, res)[j] is Send ==> i < j,
        0 <= i < null_todos(p, cmd).len() && 0 <= j < null_todos(p, cmd).len()
            && null_todos(p, cmd)[i] is Reply && null_todos(p, cmd)[j] is Send ==> i < j,
{
}

/// A command that the output refuses, other than a stop, leaves the player as it was,
/// and nothing is told.
pub proof fn a_refused_command_changes_nothing(d: Deck, cmd: PlayerCommand, e: String)
    requires
        !(cmd is Stop),
    ensures
        after(d, cmd, false) == d,
        todos(d, cmd, Err(e)) == seq![PlayerTodo::Reply(Err(PlayerError::Backend(e)))],
{
}

/// The end of a file that was replaced or stopped is no end of a track: the player stays
/// as it was, and nothing is done.
pub proof fn a_replaced_file_is_no_end(d: Deck, raw: u32)
    requires
        reason_of(raw) != EndReason::Eof,
        reason_of(raw) != EndReason::Error,
    ensures
        after_end(d, raw) == d,
        end_todos(d, raw) == Seq::<PlayerTodo>::empty(),
{
}

/// The end of a track is told once: whatever ends behind it, nothing is told to have
/// ended until something else is loaded.
pub proof fn an_end_is_told_once(d: Deck, raw: u32, again: u32, i: int)
    requires
        ends_track(raw),
        0 <= i < end_todos(after_end(d, raw), again).len(),
    ensures
        !(end_todos(after_end(d, raw), again)[i] matches PlayerTodo::Send(e) && e is Eof),
{
}

/// The last event that a row of things to do sends is this one.
pub open spec fn tells_last(r: Seq<PlayerTodo>, ev: PlayerEvent) -> bool {
    exists|i: int|
        0 <= i < r.len() && #[trigger] r[i] == PlayerTodo::Send(ev) && forall|j: int|
            i < j < r.len() ==> !((#[trigger] r[j]) is Send)
}

/// What is loaded is latched, by song and by entry, and told as playing; either player
/// latches and tells the same.
pub proof fn a_load_latches_what_is_loaded(
    d: Deck,
    p: NullPlayer,
    song: Option<SongId>,
    queue_id: Option<QueueId>,
    url: String,
)
    ensures
        ({
            let cmd = PlayerCommand::PlayUrl { song, queue_id, url };
            let told = PlayerEvent::StateChanged(PlayState::Playing, song, queue_id);
            let q = after(d, cmd, true);
            let n = null_after(p, cmd);
            &&& q.current == song && q.current_qid == queue_id && q.playing
            &&& q.gain_db == d.gain_db
            &&& n.current == song && n.current_qid == queue_id && n.state == PlayState::Playing
            &&& tells_last(todos(d, cmd, Ok(())), told)
            &&& tells_last(null_todos(p, cmd), told)
        }),
{
    let cmd = PlayerCommand::PlayUrl { song, queue_id, url };
    assert(todos(d, cmd, Ok(()))[2] is Send);
    assert(null_todos(p, cmd)[2] is Send);
}

/// A pause and a resume keep what is latched, and tell it with the state that it is in now;
/// a pause puts the meter to rest. A stop lets go of it, even where the output refuses, and
/// tells of nothing.
pub proof fn what_is_latched_is_told(d: Deck, p: NullPlayer, res: Result<(), String>)
    ensures
        ({
            let told = PlayerEvent::StateChanged(PlayState::Paused, d.current, d.current_qid);
            let q = after(d, PlayerCommand::Pause, true);
            &&& q.current == d.current && q.current_qid == d.current_qid && !q.playing
            &&& tells_last(todos(d, PlayerCommand::Pause, Ok(())), told)
            &&& todos(d, PlayerCommand::Pause, Ok(()))[0] matches PlayerTodo::Offer(
                PlayerEvent::Viz { rms_db, peak_db, gain_db, playing },
            ) && rms_db is Finite && rms_db->Finite_0 == -120_000_000_000 && peak_db == rms_db
                && gain_db == d.gain_db && !playing
        }),
        ({
            let told = PlayerEvent::StateChanged(PlayState::Playing, d.current, d.current_qid);
            let q = after(d, PlayerCommand::Resume, true);
            &&& q.current == d.current && q.current_qid == d.current_qid && q.playing
            &&& tells_last(todos(d, PlayerCommand::Resume, Ok(())), told)
        }),
        ({
            let told = PlayerEvent::StateChanged(PlayState::Stopped, None, None);
            let q = after(d, PlayerCommand::Stop, res is Ok);
            &&& q.current is None && q.current_qid is None && !q.playing
            &&& q.gain_db == d.gain_db
            &&& tells_last(todos(d, PlayerCommand::Stop, res), told)
        }),
        tells_last(
            null_todos(p, PlayerCommand::Pause),
            PlayerEvent::StateChanged(PlayState::Paused, p.current, p.current_qid),
        ),
        tells_last(
            null_todos(p, PlayerCommand::Resume),
            PlayerEvent::StateChanged(PlayState::Playing, p.current, p.current_qid),
        ),
        tells_last(
            null_todos(p, PlayerCommand::Stop),
            PlayerEvent::StateChanged(PlayState::Stopped, None, None),
        ),
{
    assert(todos(d, PlayerCommand::Pause, Ok(()))[2] is Send);
    assert(todos(d, PlayerCommand::Resume, Ok(()))[1] is Send);
    assert(todos(d, PlayerCommand::Stop, res)[2] is Send);
    assert(null_todos(p, PlayerCommand::Pause)[2] is Send);
    assert(null_todos(p, PlayerCommand::Resume)[2] is Send);
    assert(null_todos(p, PlayerCommand::Stop)[2] is Send);
}

/// A seek tells the position that was asked for, of the latched entry, and changes nothing
/// else; a volume changes the gain and nothing else, and tells nothing.
pub proof fn seeks_and_volumes_do_what_they_say(d: Deck, secs: Real, vol: u8, v: Real, gain: Real)
    ensures
        after(d, PlayerCommand::Seek { secs }, true) == d,
        tells_last(
            todos(d, PlayerCommand::Seek { secs }, Ok(())),
            PlayerEvent::TimePos { pos: secs, queue_id: d.current_qid },
        ),
        ({
            let q = after(d, PlayerCommand::SetVolume { vol }, true);
            &&& q.gain_db == Real::Finite(softvol::level_of(vol) as i128)
            &&& q.current == d.current && q.current_qid == d.current_qid && q.playing == d.playing
        }),
        ({
            let q = after(d, PlayerCommand::SetVolumeF64 { vol: v, gain_db: gain }, true);
            &&& q.gain_db == gain
            &&& q.current == d.current && q.current_qid == d.current_qid && q.playing == d.playing
        }),
{
    assert(todos(d, PlayerCommand::Seek { secs }, Ok(()))[0] is Send);
}

/// A track that came to its end, or failed, is told to have ended with the identity that
/// was latched, before the stop is told, and is latched no longer. The output says so with
/// the codes 0 and 4, and with no other.
pub proof fn an_end_is_told_of_what_was_latched(d: Deck, raw: u32)
    ensures
        raw == 0 || raw == 4 ==> {
            let q = after_end(d, raw);
            let r = end_todos(d, raw);
            &&& q.current is None && q.current_qid is None && !q.playing && q.gain_db == d.gain_db
            &&& tells_last(r, PlayerEvent::StateChanged(PlayState::Stopped, None, None))
            &&& d.current_qid is Some ==> r.len() == 4 && r[2] == PlayerTodo::Send(
                PlayerEvent::Eof { song: d.current, queue_id: d.current_qid },
            )
            &&& r[1] == PlayerTodo::Publish(PlayState::Stopped)
        },
        raw != 0 && raw != 4 ==> after_end(d, raw) == d && end_todos(d, raw).len() == 0,
{
    let r = end_todos(d, raw);
    if raw == 0 || raw == 4 {
        assert(r[r.len() - 1] is Send);
    }
}

/// What the output is asked for is what the command says: the file that is loaded replaces
/// what plays and is not paused, positions are counted from the start, and a setting is
/// handed on as it is.
pub proof fn the_output_is_asked_for_what_was_said(
    url: String,
    song: Option<SongId>,
    queue_id: Option<QueueId>,
    secs: Real,
    vol: u8,
    calls: Seq<OutputCall>,
)
    ensures
        calls_of(PlayerCommand::Pause, calls) ==> calls.len() == 1 && calls[0]
            == OutputCall::SetPause(true),
        calls_of(PlayerCommand::Resume, calls) ==> calls.len() == 1 && calls[0]
            == OutputCall::SetPause(false),
        calls_of(PlayerCommand::PlayUrl { song, queue_id, url }, calls) ==> calls.len() == 2
            && calls[1] == OutputCall::SetPause(false) && (calls[0] matches OutputCall::Command(
            n,
            a,
        ) && n@ == "loadfile"@ && a@.len() == 2 && a@[0]@ == seq!['"'] + url@ + seq!['"']
            && a@[1]@ == "replace"@),
        calls_of(PlayerCommand::Seek { secs }, calls) ==> calls.len() == 1
            && (calls[0] matches OutputCall::Command(n, a) && n@ == "seek"@ && a@.len() == 2
            && a@[0]@ == number::show_real(secs) && a@[1]@ == "absolute"@),
        calls_of(PlayerCommand::SetVolume { vol }, calls) ==> calls.len() == 1
            && (calls[0] matches OutputCall::SetVolume(Real::Finite(x)) && x == vol
            * 1_000_000_000),
        calls_of(PlayerCommand::Stop, calls) ==> calls.len() == 1
            && (calls[0] matches OutputCall::Command(n, a) && n@ == "stop"@ && a@.len() == 0),
{
    if calls_of(PlayerCommand::PlayUrl { song, queue_id, url }, calls) {
        if let OutputCall::Command(n, a) = calls[0] {
            assert(text::texts(a@).len() == 2);
            assert(text::texts(a@)[0] == a@[0]@ && text::texts(a@)[1] == a@[1]@);
        }
    }
    if calls_of(PlayerCommand::Seek { secs }, calls) {
        if let OutputCall::Command(n, a) = calls[0] {
            assert(text::texts(a@).len() == 2);
            assert(text::texts(a@)[0] == a@[0]@ && text::texts(a@)[1] == a@[1]@);
        }
    }
    if calls_of(PlayerCommand::Stop, calls) {
        if let OutputCall::Command(n, a) = calls[0] {
            assert(text::texts(a@).len() == a@.len());
        }
    }
}

/// The meter shows the levels that it was given, the mean as the mean and the peak as the
/// peak, each no lower than the floor of 120 decibels below full scale.
pub proof fn the_meter_shows_what_it_was_given(
    before: Seq<(String, MeterValue)>,
    mean: (String, MeterValue),
    peak: (String, MeterValue),
    a: i128,
    b: i128,
)
    requires
        text::ends(mean.0@, "RMS_level"@),
        text::ends(peak.0@, "Peak_level"@),
        mean.1 == MeterValue::Number(Real::Finite(a)),
        peak.1 == MeterValue::Number(Real::Finite(b)),
    ensures
        ({
            &&& levels_of(before.push(mean).push(peak)) matches Some((x, y))
            &&& a >= -120_000_000_000 ==> x == a
            &&& a < -120_000_000_000 ==> x == -120_000_000_000
            &&& b >= -120_000_000_000 ==> y == b
            &&& b < -120_000_000_000 ==> y == -120_000_000_000
        }),
{
    let one = before.push(mean);
    let two = one.push(peak);
    one_suffix(mean.0@);
    one_suffix(peak.0@);
    assert(two.drop_last() =~= one && two.last() == peak);
    assert(one.drop_last() =~= before && one.last() == mean);
    reveal_with_fuel(last_level, 3);
    assert(last_level(one, "RMS_level"@) == meter_level(mean.1));
    assert(last_level(two, "RMS_level"@) == last_level(one, "RMS_level"@));
    assert(last_level(two, "Peak_level"@) == meter_level(peak.1));
}

} // verus!
