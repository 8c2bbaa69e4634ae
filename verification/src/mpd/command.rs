//! Commands, and how request lines are parsed into them.

use vstd::prelude::*;

use crate::mpd::args;
use crate::mpd::dsl;
use crate::mpd::filter;
use crate::mpd::tokens;
use crate::number;
use crate::number::{Real, Span, MAX_SPAN_NANOS};
use crate::plan::{PlanId, RawPlan};
use crate::text;

verus! {

/// The version of the protocol that the greeting announces.
pub const ADVERTISED_MPD_VERSION: &'static str = "0.23.0";

/// A request. Seconds are billionths.
#[derive(Clone, Debug)]
pub enum MpdCommand {
    /// `status`
    Status,
    /// `stats`
    Stats,
    /// `currentsong`
    CurrentSong,
    /// `ping`
    Ping,
    /// `idle [subsystems]`: wait for a change.
    Idle(Vec<String>),
    /// `noidle`: wait no longer.
    NoIdle,
    /// `play [pos]`
    Play(Option<usize>),
    /// `playid [id]`
    PlayId(Option<u64>),
    /// `pause [0|1]`
    Pause(Option<bool>),
    /// `stop`
    Stop,
    /// `next`
    Next,
    /// `previous`
    Previous,
    /// `seek <pos> <secs>`
    Seek {
        /// The place in the queue.
        song_pos: usize,
        /// The position.
        secs: Real,
    },
    /// `seekid <id> <secs>`
    SeekId {
        /// The entry.
        id: u64,
        /// The position.
        secs: Real,
    },
    /// `seekcur <secs>`: a sign makes it relative.
    SeekCur {
        /// The position, or the distance with its sign.
        secs: Real,
        /// Whether it is a distance.
        relative: bool,
    },
    /// `setvol <vol>`
    SetVol(u8),
    /// `getvol`
    GetVol,
    /// `knob up|down`: one step of equal loudness.
    Knob(KnobDir),
    /// `random 0|1`
    Random(bool),
    /// `repeat 0|1`
    Repeat(bool),
    /// `single 0|1|oneshot`
    Single(bool),
    /// `consume 0|1`
    Consume(bool),
    /// `add <uri>`
    Add(String),
    /// `addid <uri> [pos]`
    AddId(String, Option<usize>),
    /// `clear`
    Clear,
    /// `delete <pos|range>`
    Delete(Option<String>),
    /// `playlistinfo [pos|range]`
    PlaylistInfo(Option<String>),
    /// `playlistid [id]`
    PlaylistId(Option<u64>),
    /// `plchanges <version>`
    PlChanges(u64),
    /// `listplaylists`
    ListPlaylists,
    /// `listplaylistinfo <name>`
    ListPlaylistInfo(String),
    /// `load <name>`
    Load(String),
    /// `save <name>`
    Save(String),
    /// `playlistadd <name> <uri>`
    PlaylistAdd(String, String),
    /// `playlistdelete <name> <pos>`
    PlaylistDelete(String, usize),
    /// `playlistclear <name>`
    PlaylistClear(String),
    /// `lsinfo [uri]`
    LsInfo(Option<String>),
    /// `listall [uri]` and `listallinfo [uri]`
    ListAllInfo(Option<String>),
    /// `find <filter>`
    Find(Vec<(String, String)>),
    /// `search <filter>`
    Search(Vec<(String, String)>),
    /// `findadd <filter>`
    FindAdd(Vec<(String, String)>),
    /// `searchadd <filter>`
    SearchAdd(Vec<(String, String)>),
    /// `count <filter>`
    Count(Vec<(String, String)>),
    /// `list <tag> [filter]`
    List {
        /// What is listed.
        tag: String,
        /// What it is narrowed to.
        filter: Vec<(String, String)>,
    },
    /// `sticker <verb> song <uri> [rating] [value]`
    Sticker(StickerCmd),
    /// `albumart <uri> <offset>`
    AlbumArt(String, usize),
    /// `readpicture <uri> <offset>`
    ReadPicture(String, usize),
    /// `binarylimit <bytes>`
    BinaryLimit(usize),
    /// `commands`
    Commands,
    /// `notcommands`
    NotCommands,
    /// `tagtypes`
    TagTypes,
    /// `outputs`
    Outputs,
    /// `decoders`
    Decoders,
    /// `urlhandlers`
    UrlHandlers,
    /// `fade out|in|to ..`
    Fade(FadeArgs),
    /// `plan add|list|cancel|replace ..`
    Plan(PlanCmd),
    /// `nl ..`
    Nl(NlCmd),
    /// `sleep ..`
    Sleep(SleepCmd),
    /// `winddown ..`
    Winddown(WinddownCmd),
    /// `wake ..`
    Wake(WakeCmd),
    /// `field ..`
    Field(FieldCmd),
    /// Anything else.
    Unsupported(String),
}

/// `field ..`: the pulls on what is picked next.
#[derive(Clone, Debug, PartialEq, Eq)]
pub enum FieldCmd {
    /// `field`: shows the pulls.
    Status,
    /// `field <words>`: sets a pull.
    Pull(String),
    /// `field less|back|more`: corrects the latest pull.
    Nudge(FieldNudge),
    /// `field clear`: drops the pulls.
    Clear,
}

/// How the latest pull is corrected.
#[derive(Debug, Clone, Copy, PartialEq, Eq, Structural)]
pub enum FieldNudge {
    /// `less` and `back`: weaker.
    Less,
    /// `more`: stronger.
    More,
}

/// Which way the knob turns.
#[derive(Debug, Clone, Copy, PartialEq, Eq, Structural)]
pub enum KnobDir {
    /// Louder.
    Up,
    /// Quieter.
    Down,
}

/// `sleep ..`
#[derive(Debug, Clone, Copy, PartialEq, Eq, Structural)]
pub enum SleepCmd {
    /// `sleep`: tells what is left.
    Status,
    /// `sleep off|cancel`
    Cancel,
    /// `sleep <dur>`
    Arm(Span),
}

/// `winddown ..`
#[derive(Debug, Clone, Copy, PartialEq, Eq, Structural)]
pub enum WinddownCmd {
    /// `winddown off|cancel`
    Cancel,
    /// `winddown [dur]`: at once, or after a span.
    Arm(Option<Span>),
}

/// When a wake alarm goes off.
#[derive(Debug, Clone, Copy, PartialEq, Eq, Structural)]
pub enum WakeWhen {
    /// At the next such time of day.
    At {
        /// The hour, from none to 23.
        h: u32,
        /// The minute.
        m: u32,
    },
    /// After a span.
    In(Span),
}

/// `wake ..`
#[derive(Clone, Debug, PartialEq, Eq)]
pub enum WakeCmd {
    /// `wake [list]`: tells what is left.
    Status,
    /// `wake off|cancel`
    Cancel,
    /// `wake at <time>|in <dur> [with <text>]`
    Arm {
        /// When.
        when: WakeWhen,
        /// What to play.
        selector: Option<String>,
        /// How many tracks of it.
        count: u32,
    },
}

/// How many tracks a wake alarm adds.
pub const DEFAULT_WAKE_ENQUEUE: u32 = 20;

/// Where a fade goes.
#[derive(Debug, Clone, Copy, PartialEq, Eq, Structural)]
pub enum FadeKind {
    /// To a volume setting.
    To(u8),
    /// To the wind-down level.
    ToFloor,
    /// To silence.
    Out,
    /// Up to the ceiling.
    In,
}

/// `fade ..`: where to, and how long where it is said.
#[derive(Debug, Clone, Copy, PartialEq, Eq, Structural)]
pub struct FadeArgs {
    /// Where to.
    pub kind: FadeKind,
    /// How long.
    pub dur: Option<Span>,
}

/// `plan ..`
#[derive(Clone, Debug)]
pub enum PlanCmd {
    /// `plan add ..`
    Add(RawPlan),
    /// `plan list`
    List,
    /// `plan cancel <id>`
    Cancel(PlanId),
    /// `plan replace <id> ..`
    Replace(PlanId, RawPlan),
}

/// `nl ..`: a request in natural language. The owner is the connection, and no request
/// line can name it.
#[derive(Clone, Debug, PartialEq, Eq)]
pub enum NlCmd {
    /// `nl <request>`
    Translate {
        /// The request.
        req: String,
        /// The connection.
        owner: u64,
    },
    /// `nl confirm <token>`
    Confirm {
        /// The token.
        token: String,
        /// The connection.
        owner: u64,
    },
    /// `nl cancel <token>`
    Cancel {
        /// The token.
        token: String,
        /// The connection.
        owner: u64,
    },
}

/// `sticker ..`: the rating of a song.
#[derive(Clone, Debug, PartialEq, Eq)]
pub enum StickerCmd {
    /// `sticker get song <uri> rating`
    Get {
        /// The song.
        uri: String,
    },
    /// `sticker set song <uri> rating <value>`
    Rate {
        /// The song.
        uri: String,
        /// The rating, at most five.
        value: u8,
    },
    /// `sticker delete song <uri> rating`
    Delete {
        /// The song.
        uri: String,
    },
    /// `sticker list song <uri>`
    List {
        /// The song.
        uri: String,
    },
    /// Anything else.
    Unsupported,
}

/// The command is not supported, and says so with this text.
pub open spec fn unsupported(cmd: MpdCommand, s: Seq<char>) -> bool {
    cmd matches MpdCommand::Unsupported(t) && t@ == s
}

fn refuse(line: &str) -> (r: MpdCommand)
    ensures
        unsupported(r, line@),
{
    MpdCommand::Unsupported(line.to_owned())
}

// ---------------------------------------------------------------------------
// field
// ---------------------------------------------------------------------------

/// What the arguments of `field` read as.
pub open spec fn reads_field(a: Seq<Seq<char>>, cmd: MpdCommand) -> bool {
    if a.len() == 0 {
        cmd == MpdCommand::Field(FieldCmd::Status)
    } else if a.len() == 1 && text::lower(a[0]) == "clear"@ {
        cmd == MpdCommand::Field(FieldCmd::Clear)
    } else if a.len() == 1 && (text::lower(a[0]) == "less"@ || text::lower(a[0]) == "back"@) {
        cmd == MpdCommand::Field(FieldCmd::Nudge(FieldNudge::Less))
    } else if a.len() == 1 && text::lower(a[0]) == "more"@ {
        cmd == MpdCommand::Field(FieldCmd::Nudge(FieldNudge::More))
    } else {
        cmd matches MpdCommand::Field(FieldCmd::Pull(s)) && s@ == text::joined(a, " "@)
    }
}

/// Parses the arguments of `field`.
pub fn parse_field(a: &[String]) -> (r: MpdCommand)
    ensures
        reads_field(text::texts(a@), r),
{
    if a.len() == 0 {
        return MpdCommand::Field(FieldCmd::Status);
    }
    if a.len() == 1 {
        let w = text::to_lower(a[0].as_str());
        assert(text::texts(a@)[0] == a@[0]@);
        if text::same(w.as_str(), "clear") {
            return MpdCommand::Field(FieldCmd::Clear);
        }
        if text::same(w.as_str(), "less") || text::same(w.as_str(), "back") {
            return MpdCommand::Field(FieldCmd::Nudge(FieldNudge::Less));
        }
        if text::same(w.as_str(), "more") {
            return MpdCommand::Field(FieldCmd::Nudge(FieldNudge::More));
        }
    }
    MpdCommand::Field(FieldCmd::Pull(text::join(a, " ")))
}

// ---------------------------------------------------------------------------
// nl
// ---------------------------------------------------------------------------

/// A token as the server hands them out: `nl-` and hexadecimal digits.
pub open spec fn is_token(s: Seq<char>) -> bool {
    match text::without_prefix(s, "nl-"@) {
        Some(rest) => rest.len() > 0 && text::all_hex(rest),
        None => false,
    }
}

/// Whether `s` has the shape of a token.
pub fn is_nl_token(s: &str) -> (r: bool)
    ensures
        r == is_token(s@),
{
    match text::strip_prefix(s, "nl-") {
        Some(rest) => !rest.as_str().is_empty() && text::only_hex(rest.as_str()),
        None => false,
    }
}

/// The arguments are this word and a token.
pub open spec fn keyword_form(a: Seq<Seq<char>>, w: Seq<char>) -> bool {
    a.len() == 2 && args::alike(a[0], w) && is_token(a[1])
}

/// What the arguments of `nl` read as.
pub open spec fn reads_nl(a: Seq<Seq<char>>, line: Seq<char>, cmd: MpdCommand) -> bool {
    if a.len() == 0 {
        unsupported(cmd, line)
    } else if keyword_form(a, "confirm"@) {
        cmd matches MpdCommand::Nl(NlCmd::Confirm { token, owner }) && token@ == a[1] && owner == 0
    } else if keyword_form(a, "cancel"@) {
        cmd matches MpdCommand::Nl(NlCmd::Cancel { token, owner }) && token@ == a[1] && owner == 0
    } else {
        cmd matches MpdCommand::Nl(NlCmd::Translate { req, owner }) && req@ == text::joined(a, " "@)
            && owner == 0
    }
}

fn is_keyword_form(a: &[String], w: &str) -> (r: bool)
    ensures
        r == keyword_form(text::texts(a@), w@),
{
    a.len() == 2 && text::same_ignoring_case(a[0].as_str(), w) && is_nl_token(a[1].as_str())
}

/// Parses the arguments of `nl`.
pub fn parse_nl(a: &[String], line: &str) -> (r: MpdCommand)
    ensures
        reads_nl(text::texts(a@), line@, r),
{
    if a.len() == 0 {
        return refuse(line);
    }
    if is_keyword_form(a, "confirm") {
        return MpdCommand::Nl(NlCmd::Confirm { token: a[1].clone(), owner: 0 });
    }
    if is_keyword_form(a, "cancel") {
        return MpdCommand::Nl(NlCmd::Cancel { token: a[1].clone(), owner: 0 });
    }
    MpdCommand::Nl(NlCmd::Translate { req: text::join(a, " "), owner: 0 })
}

/// A command with its owner set to `key`, where it has one.
pub open spec fn stamped(cmd: MpdCommand, key: u64) -> MpdCommand {
    match cmd {
        MpdCommand::Nl(NlCmd::Translate { req, owner }) => MpdCommand::Nl(
            NlCmd::Translate { req, owner: key },
        ),
        MpdCommand::Nl(NlCmd::Confirm { token, owner }) => MpdCommand::Nl(
            NlCmd::Confirm { token, owner: key },
        ),
        MpdCommand::Nl(NlCmd::Cancel { token, owner }) => MpdCommand::Nl(
            NlCmd::Cancel { token, owner: key },
        ),
        _ => cmd,
    }
}

/// Sets the owner of a request in natural language, and leaves every other command as
/// it is.
pub fn stamp_nl_owner(cmd: &mut MpdCommand, owner_key: u64)
    ensures
        *final(cmd) == stamped(*old(cmd), owner_key),
{
    if let MpdCommand::Nl(nl) = cmd {
        match nl {
            NlCmd::Translate { req: _, owner } => {
                *owner = owner_key;
            },
            NlCmd::Confirm { token: _, owner } => {
                *owner = owner_key;
            },
            NlCmd::Cancel { token: _, owner } => {
                *owner = owner_key;
            },
        }
    }
}

// ---------------------------------------------------------------------------
// plan
// ---------------------------------------------------------------------------

/// What the arguments of `plan` read as.
pub open spec fn reads_plan(a: Seq<Seq<char>>, line: Seq<char>, cmd: MpdCommand) -> bool {
    match args::keyword(a, 0) {
        None => unsupported(cmd, line),
        Some(kw) => if kw == "list"@ {
            cmd == MpdCommand::Plan(PlanCmd::List)
        } else if kw == "cancel"@ {
            match args::num(a, 1, u64::MAX as nat) {
                Some(n) => cmd == MpdCommand::Plan(PlanCmd::Cancel(PlanId(n as u64))),
                None => unsupported(cmd, line),
            }
        } else if kw == "add"@ {
            match cmd {
                MpdCommand::Plan(PlanCmd::Add(plan)) => dsl::reads_raw_plan(
                    a.skip(1),
                    Some(plan),
                ),
                _ => unsupported(cmd, line) && dsl::reads_raw_plan(a.skip(1), None),
            }
        } else if kw == "replace"@ {
            match (args::num(a, 1, u64::MAX as nat), cmd) {
                (Some(n), MpdCommand::Plan(PlanCmd::Replace(id, plan))) => id.0 == n
                    && dsl::reads_raw_plan(args::tail(a, 2), Some(plan)),
                (Some(n), _) => unsupported(cmd, line) && dsl::reads_raw_plan(
                    args::tail(a, 2),
                    None,
                ),
                (None, _) => unsupported(cmd, line),
            }
        } else {
            unsupported(cmd, line)
        },
    }
}

/// Parses the arguments of `plan`.
pub fn parse_plan(a: &[String], line: &str) -> (r: MpdCommand)
    ensures
        reads_plan(text::texts(a@), line@, r),
{
    let kw = match args::lower_arg(a, 0) {
        Some(k) => k,
        None => return refuse(line),
    };
    let kw = kw.as_str();
    if text::same(kw, "list") {
        MpdCommand::Plan(PlanCmd::List)
    } else if text::same(kw, "cancel") {
        match args::u64_arg(a, 1) {
            Some(n) => MpdCommand::Plan(PlanCmd::Cancel(PlanId(n))),
            None => refuse(line),
        }
    } else if text::same(kw, "add") {
        match dsl::parse_raw_plan(args::tail_of(a, 1)) {
            Some(plan) => MpdCommand::Plan(PlanCmd::Add(plan)),
            None => refuse(line),
        }
    } else if text::same(kw, "replace") {
        match args::u64_arg(a, 1) {
            Some(n) => match dsl::parse_raw_plan(args::tail_of(a, 2)) {
                Some(plan) => MpdCommand::Plan(PlanCmd::Replace(PlanId(n), plan)),
                None => refuse(line),
            },
            None => refuse(line),
        }
    } else {
        refuse(line)
    }
}

// ---------------------------------------------------------------------------
// sticker
// ---------------------------------------------------------------------------

/// What the arguments of `sticker` read as.
pub open spec fn reads_sticker(a: Seq<Seq<char>>, r: StickerCmd) -> bool {
    let rating = args::is_word(a, 3, "rating"@);
    match (args::keyword(a, 0), args::arg(a, 2)) {
        (Some(sub), Some(u)) => if args::arg(a, 1) != Some("song"@) {
            r == StickerCmd::Unsupported
        } else if sub == "get"@ && rating {
            r matches StickerCmd::Get { uri } && uri@ == u
        } else if sub == "delete"@ && rating {
            r matches StickerCmd::Delete { uri } && uri@ == u
        } else if sub == "list"@ {
            r matches StickerCmd::List { uri } && uri@ == u
        } else if sub == "set"@ && rating {
            match args::num(a, 4, u8::MAX as nat) {
                Some(n) => r matches StickerCmd::Rate { uri, value } && uri@ == u && value
                    == number::smaller(n as int, 5),
                None => r == StickerCmd::Unsupported,
            }
        } else {
            r == StickerCmd::Unsupported
        },
        _ => r == StickerCmd::Unsupported,
    }
}

/// Parses the arguments of `sticker`.
pub fn parse_sticker(a: &[String]) -> (r: StickerCmd)
    ensures
        reads_sticker(text::texts(a@), r),
{
    let sub = match args::lower_arg(a, 0) {
        Some(s) => s,
        None => return StickerCmd::Unsupported,
    };
    let sub = sub.as_str();
    let is_song = match args::arg_str(a, 1) {
        Some(t) => text::same(t, "song"),
        None => false,
    };
    if !is_song {
        return StickerCmd::Unsupported;
    }
    let uri = match args::arg_copy(a, 2) {
        Some(u) => u,
        None => return StickerCmd::Unsupported,
    };
    let rating = args::has_word(a, 3, "rating");
    if text::same(sub, "get") && rating {
        StickerCmd::Get { uri }
    } else if text::same(sub, "delete") && rating {
        StickerCmd::Delete { uri }
    } else if text::same(sub, "list") {
        StickerCmd::List { uri }
    } else if text::same(sub, "set") && rating {
        match args::u8_arg(a, 4) {
            Some(v) => StickerCmd::Rate {
                uri,
                value: if v < 5 {
                    v
                } else {
                    5
                },
            },
            None => StickerCmd::Unsupported,
        }
    } else {
        StickerCmd::Unsupported
    }
}

// ---------------------------------------------------------------------------
// fade
// ---------------------------------------------------------------------------

/// The duration that the argument at `i` writes: none where it is missing, and an error
/// where it is malformed, negative or too long.
pub open spec fn duration_at(a: Seq<Seq<char>>, i: int) -> Result<Option<Span>, ()> {
    match args::arg(a, i) {
        None => Ok(None),
        Some(t) => match dsl::secs_of(t) {
            Some(secs) => match number::span_of(secs) {
                Some(s) => Ok(Some(s)),
                None => Err(()),
            },
            None => Err(()),
        },
    }
}

fn duration_arg(a: &[String], i: usize) -> (r: Result<Option<Span>, ()>)
    ensures
        r == duration_at(text::texts(a@), i as int),
{
    match args::arg_str(a, i) {
        None => Ok(None),
        Some(t) => match dsl::parse_secs(t) {
            Some(secs) => match Span::from_real(secs) {
                Some(s) => Ok(Some(s)),
                None => Err(()),
            },
            None => Err(()),
        },
    }
}

/// Where `fade to` goes: the word `floor`, or a volume setting of which the fraction and
/// what exceeds a hundred is dropped.
pub open spec fn fade_target(a: Seq<Seq<char>>) -> Option<FadeKind> {
    if args::is_word(a, 1, "floor"@) {
        Some(FadeKind::ToFloor)
    } else {
        match args::arg(a, 1) {
            Some(t) => match number::cut_of(t) {
                Some(Real::Finite(n)) => if n >= 0 && !number::below_zero(t) {
                    Some(
                        FadeKind::To(number::smaller(n as int / 1_000_000_000, 100) as u8),
                    )
                } else {
                    None
                },
                _ => None,
            },
            None => None,
        }
    }
}

fn parse_fade_target(a: &[String]) -> (r: Option<FadeKind>)
    ensures
        r == fade_target(text::texts(a@)),
{
    if args::has_word(a, 1, "floor") {
        return Some(FadeKind::ToFloor);
    }
    match args::arg_str(a, 1) {
        Some(t) => match number::parse_cut(t) {
            Some(Real::Finite(n)) => if n >= 0 && !number::is_below_zero(t) {
                let whole: i128 = n / number::BILLION;
                Some(
                    FadeKind::To(
                        if whole < 100 {
                            whole as u8
                        } else {
                            100
                        },
                    ),
                )
            } else {
                None
            },
            _ => None,
        },
        None => None,
    }
}

/// What the arguments of `fade` read as.
pub open spec fn reads_fade(a: Seq<Seq<char>>, line: Seq<char>, cmd: MpdCommand) -> bool {
    match args::keyword(a, 0) {
        None => unsupported(cmd, line),
        Some(kw) => if kw == "out"@ || kw == "in"@ {
            match duration_at(a, 1) {
                Ok(dur) => cmd == MpdCommand::Fade(
                    FadeArgs {
                        kind: if kw == "in"@ {
                            FadeKind::In
                        } else {
                            FadeKind::Out
                        },
                        dur,
                    },
                ),
                Err(_) => unsupported(cmd, line),
            }
        } else if kw == "to"@ {
            match (fade_target(a), duration_at(a, 2)) {
                (Some(kind), Ok(dur)) => cmd == MpdCommand::Fade(FadeArgs { kind, dur }),
                _ => unsupported(cmd, line),
            }
        } else {
            unsupported(cmd, line)
        },
    }
}

/// Parses the arguments of `fade`.
pub fn parse_fade(a: &[String], line: &str) -> (r: MpdCommand)
    ensures
        reads_fade(text::texts(a@), line@, r),
{
    let kw = match args::lower_arg(a, 0) {
        Some(k) => k,
        None => return refuse(line),
    };
    let kw = kw.as_str();
    if text::same(kw, "out") || text::same(kw, "in") {
        let kind = if text::same(kw, "in") {
            FadeKind::In
        } else {
            FadeKind::Out
        };
        match duration_arg(a, 1) {
            Ok(dur) => MpdCommand::Fade(FadeArgs { kind, dur }),
            Err(_) => refuse(line),
        }
    } else if text::same(kw, "to") {
        match (parse_fade_target(a), duration_arg(a, 2)) {
            (Some(kind), Ok(dur)) => MpdCommand::Fade(FadeArgs { kind, dur }),
            _ => refuse(line),
        }
    } else {
        refuse(line)
    }
}

// ---------------------------------------------------------------------------
// sleep, winddown and wake
// ---------------------------------------------------------------------------

/// The number of a duration and the seconds of its unit: `h`, `m`, `s` or none.
pub open spec fn unit_of(tok: Seq<char>) -> (Seq<char>, nat) {
    match text::without_suffix(tok, "h"@) {
        Some(n) => (n, 3600),
        None => match text::without_suffix(tok, "m"@) {
            Some(n) => (n, 60),
            None => match text::without_suffix(tok, "s"@) {
                Some(n) => (n, 1),
                None => (tok, 1),
            },
        },
    }
}

/// The duration that a token writes, to the nearest nanosecond: a number that is not
/// negative, and a unit.
pub open spec fn dur_hms(tok: Seq<char>) -> Option<Span> {
    let (n, unit) = unit_of(tok);
    match number::multiple_of(n, unit) {
        Some(v) => if !number::below_zero(n) && v <= MAX_SPAN_NANOS {
            Some(Span { nanos: v as u128 })
        } else {
            None
        },
        None => None,
    }
}

/// The duration that a token writes.
pub fn parse_dur_hms(tok: &str) -> (r: Option<Span>)
    ensures
        r == dur_hms(tok@),
{
    let mut unit: u128 = 1;
    let n = match text::strip_suffix(tok, "h") {
        Some(n) => {
            unit = 3600;
            n
        },
        None => match text::strip_suffix(tok, "m") {
            Some(n) => {
                unit = 60;
                n
            },
            None => match text::strip_suffix(tok, "s") {
                Some(n) => n,
                None => tok.to_owned(),
            },
        },
    };
    match number::parse_multiple(n.as_str(), unit) {
        Some(nanos) => if number::is_below_zero(n.as_str()) {
            None
        } else {
            Some(Span { nanos })
        },
        None => None,
    }
}

proof fn unit_is_last(s: Seq<char>, u: Seq<char>, v: Seq<char>)
    requires
        u.len() == 1,
        v.len() == 1,
    ensures
        text::without_suffix(s + u, u) == Some(s),
        u[0] != v[0] ==> text::without_suffix(s + u, v) is None,
{
    let w = s + u;
    let n = w.len() as int;
    assert(w.subrange(n - 1, n) =~= u);
    assert(w.take(n - 1) =~= s);
    assert(w.subrange(n - 1, n)[0] == u[0]);
}

/// A duration is its number of hours, minutes or seconds, as the letter behind it says,
/// and of seconds where there is none: `1h`, `60m`, `3600s` and `3600` are the same, and so
/// are `1.5m` and `90s`. What would be longer than the longest span, or is below zero, is
/// no duration.
pub proof fn a_duration_is_in_its_unit(k: nat)
    requires
        k <= number::REAL_LIMIT,
    ensures
        ({
            let n = number::show_billionths(k);
            let longest = 18_446_744_073_709_551_615_999_999_999nat;
            &&& k <= longest ==> dur_hms(n) == Some(Span { nanos: k as u128 })
            &&& k <= longest ==> dur_hms(n + "s"@) == Some(Span { nanos: k as u128 })
            &&& 60 * k <= longest ==> dur_hms(n + "m"@) == Some(Span { nanos: (60 * k) as u128 })
            &&& 3600 * k <= longest ==> dur_hms(n + "h"@) == Some(
                Span { nanos: (3600 * k) as u128 },
            )
            &&& k > longest ==> dur_hms(n) is None && dur_hms(n + "s"@) is None
            &&& 60 * k > longest ==> dur_hms(n + "m"@) is None
            &&& 3600 * k > longest ==> dur_hms(n + "h"@) is None
            &&& k > 0 ==> {
                &&& dur_hms(seq!['-'] + n) is None
                &&& dur_hms(seq!['-'] + n + "s"@) is None
                &&& dur_hms(seq!['-'] + n + "m"@) is None
                &&& dur_hms(seq!['-'] + n + "h"@) is None
            }
        }),
{
    let n = number::show_billionths(k);
    reveal_strlit("h");
    reveal_strlit("m");
    reveal_strlit("s");
    number::shown_billionths_read_back(k);
    number::shown_billionths_are_multiplied(k, 1);
    number::shown_billionths_are_multiplied(k, 60);
    number::shown_billionths_are_multiplied(k, 3600);
    assert(k * 1 == k && k * 60 == 60 * k && k * 3600 == 3600 * k);
    let neg = seq!['-'] + n;
    unit_is_last(n, "h"@, "m"@);
    unit_is_last(n, "m"@, "h"@);
    unit_is_last(n, "s"@, "h"@);
    unit_is_last(n, "s"@, "m"@);
    unit_is_last(neg, "h"@, "m"@);
    unit_is_last(neg, "m"@, "h"@);
    unit_is_last(neg, "s"@, "h"@);
    unit_is_last(neg, "s"@, "m"@);
    let end = seq![n.last()];
    assert(text::is_digit(n[n.len() - 1]) || n[n.len() - 1] == '.');
    assert(n =~= n.drop_last() + end);
    assert(neg =~= neg.drop_last() + end);
    unit_is_last(n.drop_last(), end, "h"@);
    unit_is_last(n.drop_last(), end, "m"@);
    unit_is_last(n.drop_last(), end, "s"@);
    unit_is_last(neg.drop_last(), end, "h"@);
    unit_is_last(neg.drop_last(), end, "m"@);
    unit_is_last(neg.drop_last(), end, "s"@);
}

/// The hour and minute of a clock time before its half of the day is heeded.
pub open spec fn clock_parts(body: Seq<char>) -> Option<(nat, nat)> {
    let max = u32::MAX as nat;
    match text::parted(body, ":"@) {
        Some((h, m)) => match (
            number::unsigned_of(text::trimmed(h), max),
            number::unsigned_of(text::trimmed(m), max),
        ) {
            (Some(h), Some(m)) => Some((h, m)),
            _ => None,
        },
        None => match number::unsigned_of(text::trimmed(body), max) {
            Some(h) => Some((h, 0)),
            None => None,
        },
    }
}

/// The clock time that a token writes, on 24 hours: `7`, `7:30`, `19:00`, `7pm`, `12am`.
pub open spec fn civil_time(tok: Seq<char>) -> Option<(nat, nat)> {
    let t = text::lower(tok);
    let pm = text::ends(t, "pm"@);
    let am = !pm && text::ends(t, "am"@);
    let body = if pm || am {
        text::trimmed(t.take(t.len() - 2))
    } else {
        t
    };
    match clock_parts(body) {
        None => None,
        Some((h, m)) => if m > 59 {
            None
        } else if pm || am {
            if h == 0 || h > 12 {
                None
            } else {
                Some(
                    (
                        (h % 12 + if pm {
                            12nat
                        } else {
                            0
                        }) as nat,
                        m,
                    ),
                )
            }
        } else if h > 23 {
            None
        } else {
            Some((h, m))
        },
    }
}

fn parse_clock_parts(body: &str) -> (r: Option<(u32, u32)>)
    ensures
        (match r {
            Some((h, m)) => Some((h as nat, m as nat)),
            None => None::<(nat, nat)>,
        }) == clock_parts(body@),
{
    match text::split_once(body, ":") {
        Some((h, m)) => {
            let h = text::trim(h.as_str());
            let m = text::trim(m.as_str());
            match (number::parse_u32(h.as_str()), number::parse_u32(m.as_str())) {
                (Some(h), Some(m)) => Some((h, m)),
                _ => None,
            }
        },
        None => {
            let h = text::trim(body);
            match number::parse_u32(h.as_str()) {
                Some(h) => Some((h, 0)),
                None => None,
            }
        },
    }
}

/// The clock time that a token writes, on 24 hours.
pub fn parse_civil_time(tok: &str) -> (r: Option<(u32, u32)>)
    ensures
        (match r {
            Some((h, m)) => Some((h as nat, m as nat)),
            None => None::<(nat, nat)>,
        }) == civil_time(tok@),
        r matches Some((h, m)) ==> h < 24 && m < 60,
{
    proof {
        reveal_strlit("pm");
        reveal_strlit("am");
    }
    let t = text::to_lower(tok);
    let (body, pm, half) = match text::strip_suffix(t.as_str(), "pm") {
        Some(x) => (text::trim(x.as_str()), true, true),
        None => match text::strip_suffix(t.as_str(), "am") {
            Some(x) => (text::trim(x.as_str()), false, true),
            None => (t, false, false),
        },
    };
    let (h, m) = match parse_clock_parts(body.as_str()) {
        Some(p) => p,
        None => return None,
    };
    if m > 59 {
        return None;
    }
    if half {
        if h == 0 || h > 12 {
            return None;
        }
        let base: u32 = if h == 12 {
            0
        } else {
            h
        };
        let hour: u32 = if pm {
            base + 12
        } else {
            base
        };
        Some((hour, m))
    } else {
        if h > 23 {
            return None;
        }
        Some((h, m))
    }
}

/// A text that neither begins nor ends with white space is what is left of it and of blanks
/// behind it once they are trimmed away.
pub proof fn bare_is_trimmed(s: Seq<char>, gap: Seq<char>)
    requires
        s.len() > 0,
        !text::is_ws(s[0]),
        !text::is_ws(s.last()),
        forall|i: int| 0 <= i < gap.len() ==> #[trigger] gap[i] == ' ',
    ensures
        text::trimmed(s + gap) == s,
    decreases gap.len(),
{
    assert((s + gap)[0] == s[0]);
    if gap.len() == 0 {
        assert(s + gap =~= s);
    } else {
        let less = gap.drop_last();
        bare_is_trimmed(s, less);
        assert((s + less)[0] == s[0]);
        assert((s + gap).drop_last() =~= s + less);
        assert((s + gap).last() == gap[gap.len() - 1]);
    }
}

proof fn dec2_reads_back(m: nat)
    requires
        m < 100,
    ensures
        number::dec2(m).len() > 0,
        text::all_digits(number::dec2(m)),
        number::value(number::dec2(m)) == m,
{
    number::dec_reads_back(m);
    if m < 10 {
        let zero = seq!['0'];
        number::value_of_row(zero, number::dec(m));
        assert(zero.drop_last() =~= Seq::<char>::empty());
        assert(number::value(zero.drop_last()) == 0);
        assert(number::value(zero) == 0);
        assert(0 * number::pow10(number::dec(m).len()) == 0);
    }
}

proof fn clock_parts_read_back(h: nat, m: nat)
    requires
        h <= u32::MAX,
        m < 100,
    ensures
        clock_parts(number::dec(h)) == Some((h, 0nat)),
        clock_parts(number::dec(h) + ":"@ + number::dec2(m)) == Some((h, m)),
{
    reveal_strlit(":");
    let a = number::dec(h);
    let b = number::dec2(m);
    let none = Seq::<char>::empty();
    number::dec_is_unsigned(h, u32::MAX as nat);
    number::dec_reads_back(h);
    dec2_reads_back(m);
    assert(text::is_digit(a[0]) && text::is_digit(a.last()));
    assert(text::is_digit(b[0]) && text::is_digit(b.last()));
    bare_is_trimmed(a, none);
    bare_is_trimmed(b, none);
    assert(a + none =~= a && b + none =~= b);
    text::first_from_is_first(a, ":"@, 0);
    assert forall|j: int| 0 <= j implies !text::occurs_at(a, ":"@, j) by {
        if text::occurs_at(a, ":"@, j) {
            assert(a.subrange(j, j + 1)[0] == a[j]);
            assert(text::is_digit(a[j]));
        }
    }
    let s = a + ":"@ + b;
    let k = a.len() as int;
    text::first_from_is_first(s, ":"@, 0);
    assert(s.subrange(k, k + 1) =~= ":"@);
    assert(text::occurs_at(s, ":"@, k));
    assert forall|j: int| 0 <= j < a.len() implies !text::occurs_at(s, ":"@, j) by {
        if text::occurs_at(s, ":"@, j) {
            assert(s.subrange(j, j + 1)[0] == s[j]);
            assert(s[j] == a[j]);
            assert(text::is_digit(a[j]));
        }
    }
    assert(s.take(k) =~= a);
    assert(s.skip(k + 1) =~= b);
}

/// A clock time without a half of the day is the one on 24 hours: the hour is the number
/// before the colon, the minute the one behind it, or none past the hour where there is no
/// colon. An hour past 23 or a minute past 59 is no time.
pub proof fn a_clock_time_is_the_one_written(h: nat, m: nat)
    requires
        h <= u32::MAX,
        m < 100,
    ensures
        civil_time(number::dec(h) + ":"@ + number::dec2(m)) == if h < 24 && m < 60 {
            Some((h, m))
        } else {
            None
        },
        civil_time(number::dec(h)) == if h < 24 {
            Some((h, 0nat))
        } else {
            None
        },
{
    reveal_strlit("pm");
    reveal_strlit("am");
    reveal_strlit(":");
    clock_parts_read_back(h, m);
    number::dec_reads_back(h);
    dec2_reads_back(m);
    let a = number::dec(h);
    let s = a + ":"@ + number::dec2(m);
    clock_text(a);
    clock_text(s);
}

proof fn clock_text(s: Seq<char>)
    requires
        s.len() > 0,
        forall|i: int| 0 <= i < s.len() ==> text::is_digit(#[trigger] s[i]) || s[i] == ':',
    ensures
        text::lower(s) == s,
        !text::ends(s, "pm"@),
        !text::ends(s, "am"@),
{
    reveal_strlit("pm");
    reveal_strlit("am");
    assert(text::ascii(s));
    assert(text::ascii_lower(s) =~= s);
    let n = s.len() as int;
    if n >= 2 {
        assert(s.subrange(n - 2, n)[1] == s[n - 1]);
    }
}

/// A clock time with a half of the day, written in letters of either case and with or
/// without blanks before it, is the hour within that half: before noon it is the hour
/// itself and after noon the hour twelve hours later, where the twelfth hour is the one
/// that begins the half. So the two halves of one clock time lie twelve hours apart, and a
/// time before noon, from one to eleven, is the time without its half. Behind an hour that
/// is not on the clock's face, or a minute past 59, a half of the day makes no time.
pub proof fn halves_of_the_day_are_twelve_hours_apart(
    h: nat,
    m: nat,
    gap: Seq<char>,
    am: Seq<char>,
    pm: Seq<char>,
)
    requires
        h <= u32::MAX,
        m < 100,
        forall|i: int| 0 <= i < gap.len() ==> #[trigger] gap[i] == ' ',
        am.len() == 2 && (am[0] == 'a' || am[0] == 'A') && (am[1] == 'm' || am[1] == 'M'),
        pm.len() == 2 && (pm[0] == 'p' || pm[0] == 'P') && (pm[1] == 'm' || pm[1] == 'M'),
    ensures
        ({
            let time = number::dec(h) + ":"@ + number::dec2(m);
            if 1 <= h <= 12 && m < 60 {
                &&& civil_time(time + gap + am) matches Some((hour, minute)) && hour < 12
                    && minute == m && (hour == h || hour + 12 == h)
                &&& civil_time(time + gap + pm) matches Some((hour, minute)) && 12 <= hour < 24
                    && minute == m && (hour == h || hour == h + 12)
                &&& (civil_time(time + gap + am), civil_time(time + gap + pm)) matches (
                    Some((early, _)),
                    Some((late, _)),
                ) && late == early + 12
                &&& h < 12 ==> civil_time(time + gap + am) == civil_time(time)
            } else {
                civil_time(time + gap + am) is None && civil_time(time + gap + pm) is None
            }
        }),
        ({
            let time = number::dec(h);
            if 1 <= h <= 12 {
                &&& civil_time(time + gap + am) matches Some((hour, minute)) && hour < 12
                    && minute == 0 && (hour == h || hour + 12 == h)
                &&& civil_time(time + gap + pm) matches Some((hour, minute)) && 12 <= hour < 24
                    && minute == 0 && (hour == h || hour == h + 12)
                &&& h < 12 ==> civil_time(time + gap + am) == civil_time(time)
            } else {
                civil_time(time + gap + am) is None && civil_time(time + gap + pm) is None
            }
        }),
{
    let a = number::dec(h);
    let s = a + ":"@ + number::dec2(m);
    a_clock_time_is_the_one_written(h, m);
    clock_parts_read_back(h, m);
    assert(a.len() > 0 && s.len() > 0 && (forall|i: int|
        0 <= i < a.len() ==> text::is_digit(#[trigger] a[i])) && forall|i: int|
        0 <= i < s.len() ==> text::is_digit(#[trigger] s[i]) || s[i] == ':') by {
        reveal_strlit(":");
        number::dec_reads_back(h);
        dec2_reads_back(m);
    }
    time_in_a_half(a, h, 0, gap, am);
    time_in_a_half(a, h, 0, gap, pm);
    time_in_a_half(s, h, m, gap, am);
    time_in_a_half(s, h, m, gap, pm);
}

proof fn time_in_a_half(s: Seq<char>, h: nat, m: nat, gap: Seq<char>, half: Seq<char>)
    requires
        clock_parts(s) == Some((h, m)),
        s.len() > 0,
        forall|i: int| 0 <= i < s.len() ==> text::is_digit(#[trigger] s[i]) || s[i] == ':',
        forall|i: int| 0 <= i < gap.len() ==> #[trigger] gap[i] == ' ',
        half.len() == 2,
        half[0] == 'a' || half[0] == 'A' || half[0] == 'p' || half[0] == 'P',
        half[1] == 'm' || half[1] == 'M',
    ensures
        civil_time(s + gap + half) == if 1 <= h <= 12 && m < 60 {
            let early = if h == 12 {
                0nat
            } else {
                h
            };
            if half[0] == 'p' || half[0] == 'P' {
                Some((early + 12, m))
            } else {
                Some((early, m))
            }
        } else {
            None
        },
{
    half_of_the_day(s, gap, half);
}

proof fn half_of_the_day(s: Seq<char>, gap: Seq<char>, half: Seq<char>)
    requires
        s.len() > 0,
        forall|i: int| 0 <= i < s.len() ==> text::is_digit(#[trigger] s[i]) || s[i] == ':',
        forall|i: int| 0 <= i < gap.len() ==> #[trigger] gap[i] == ' ',
        half.len() == 2,
        half[0] == 'a' || half[0] == 'A' || half[0] == 'p' || half[0] == 'P',
        half[1] == 'm' || half[1] == 'M',
    ensures
        ({
            let t = text::lower(s + gap + half);
            &&& text::ends(t, "pm"@) == (half[0] == 'p' || half[0] == 'P')
            &&& text::ends(t, "am"@) == (half[0] == 'a' || half[0] == 'A')
            &&& text::trimmed(t.take(t.len() - 2)) == s
        }),
{
    reveal_strlit("pm");
    reveal_strlit("am");
    let w = s + gap + half;
    assert forall|i: int| 0 <= i < w.len() implies (#[trigger] w[i] as u32) < 128 by {
        if i < s.len() {
            assert(w[i] == s[i]);
        } else if i < s.len() + gap.len() {
            assert(w[i] == gap[i - s.len()]);
        } else {
            assert(w[i] == half[i - s.len() - gap.len()]);
        }
    }
    assert(text::ascii(w));
    let t = text::ascii_lower(w);
    let n = t.len() as int;
    assert(w[n - 2] == half[0] && w[n - 1] == half[1]);
    let end = t.subrange(n - 2, n);
    assert(end[0] == t[n - 2] && end[1] == t[n - 1]);
    if half[0] == 'p' || half[0] == 'P' {
        assert(end =~= "pm"@);
    } else {
        assert(end =~= "am"@);
    }
    assert("pm"@[0] != "am"@[0]);
    assert forall|i: int| 0 <= i < n - 2 implies t[i] == #[trigger] (s + gap)[i] by {
        if i < s.len() {
            assert(w[i] == s[i]);
        } else {
            assert(w[i] == gap[i - s.len()]);
        }
    }
    assert(t.take(n - 2) =~= s + gap);
    assert(text::is_digit(s[0]) || s[0] == ':');
    assert(text::is_digit(s.last()) || s.last() == ':');
    bare_is_trimmed(s, gap);
}

/// A text without a digit is no duration, and no clock time.
pub proof fn without_digits_there_is_no_time(x: Seq<char>)
    requires
        text::ascii(x),
        forall|i: int| 0 <= i < x.len() ==> !('0' <= #[trigger] x[i] <= '9'),
    ensures
        dur_hms(x) is None,
        civil_time(x) is None,
{
    let n = unit_of(x).0;
    assert forall|i: int| 0 <= i < n.len() implies !('0' <= #[trigger] n[i] <= '9') by {
        assert(n[i] == x[i]);
    }
    number::without_digits_there_is_no_number(n, unit_of(x).1, 0);
    let t = text::lower(x);
    assert(t == text::ascii_lower(x));
    assert forall|i: int| 0 <= i < t.len() implies !('0' <= #[trigger] t[i] <= '9') by {
        assert(!('0' <= x[i] <= '9'));
    }
    no_clock_time(t);
    reveal_strlit("pm");
    reveal_strlit("am");
    if t.len() >= 2 {
        let b = t.take(t.len() - 2);
        assert forall|i: int| 0 <= i < b.len() implies !('0' <= #[trigger] b[i] <= '9') by {
            assert(b[i] == t[i]);
        }
        trimmed_has_no_more(b);
        no_clock_time(text::trimmed(b));
    }
}

proof fn no_clock_time(s: Seq<char>)
    requires
        forall|i: int| 0 <= i < s.len() ==> !('0' <= #[trigger] s[i] <= '9'),
    ensures
        clock_parts(s) is None,
{
    let max = u32::MAX as nat;
    trimmed_has_no_more(s);
    number::without_digits_there_is_no_number(text::trimmed(s), 1, max);
    reveal_strlit(":");
    if let Some((h, m)) = text::parted(s, ":"@) {
        text::first_from_is_first(s, ":"@, 0);
        assert forall|i: int| 0 <= i < h.len() implies !('0' <= #[trigger] h[i] <= '9') by {
            assert(h[i] == s[i]);
        }
        trimmed_has_no_more(h);
        number::without_digits_there_is_no_number(text::trimmed(h), 1, max);
    }
}

proof fn trimmed_has_no_more(s: Seq<char>)
    requires
        forall|i: int| 0 <= i < s.len() ==> !('0' <= #[trigger] s[i] <= '9'),
    ensures
        forall|i: int|
            0 <= i < text::trimmed(s).len() ==> !('0' <= #[trigger] text::trimmed(s)[i] <= '9'),
{
    let a = text::trim_start_in(s, text::ws());
    start_has_no_more(s);
    end_has_no_more(a);
}

proof fn start_has_no_more(s: Seq<char>)
    requires
        forall|i: int| 0 <= i < s.len() ==> !('0' <= #[trigger] s[i] <= '9'),
    ensures
        forall|i: int|
            0 <= i < text::trim_start_in(s, text::ws()).len() ==> !('0'
                <= #[trigger] text::trim_start_in(s, text::ws())[i] <= '9'),
    decreases s.len(),
{
    let r = text::trim_start_in(s, text::ws());
    if s.len() > 0 && text::ws().contains(s[0]) {
        let t = s.drop_first();
        assert forall|i: int| 0 <= i < t.len() implies !('0' <= #[trigger] t[i] <= '9') by {
            assert(t[i] == s[i + 1]);
        }
        start_has_no_more(t);
        assert(r == text::trim_start_in(t, text::ws()));
    } else {
        assert(r == s);
    }
}

proof fn end_has_no_more(s: Seq<char>)
    requires
        forall|i: int| 0 <= i < s.len() ==> !('0' <= #[trigger] s[i] <= '9'),
    ensures
        forall|i: int|
            0 <= i < text::trim_end_in(s, text::ws()).len() ==> !('0'
                <= #[trigger] text::trim_end_in(s, text::ws())[i] <= '9'),
    decreases s.len(),
{
    let r = text::trim_end_in(s, text::ws());
    if s.len() > 0 && text::ws().contains(s.last()) {
        let t = s.drop_last();
        assert forall|i: int| 0 <= i < t.len() implies !('0' <= #[trigger] t[i] <= '9') by {
            assert(t[i] == s[i]);
        }
        end_has_no_more(t);
        assert(r == text::trim_end_in(t, text::ws()));
    } else {
        assert(r == s);
    }
}

/// What follows the word `with`, where it is not blank.
pub open spec fn wake_selector(toks: Seq<Seq<char>>) -> Option<Seq<char>> {
    match args::first_word(toks, "with"@, 0) {
        None => None,
        Some(p) => {
            let s = text::trimmed(text::joined(toks.skip(p + 1), " "@));
            if s.len() == 0 {
                None
            } else {
                Some(s)
            }
        },
    }
}

/// What follows the word `with`, where it is not blank.
pub fn parse_wake_selector(toks: &[String]) -> (r: Option<String>)
    ensures
        text::opt(r) == wake_selector(text::texts(toks@)),
{
    let n: usize = toks.len();
    match args::position(toks, "with") {
        None => None,
        Some(p) => {
            let rest = args::part(toks, p + 1, n);
            assert(text::texts(rest@) =~= text::texts(toks@).skip(p + 1));
            let s = text::join(rest, " ");
            let s = text::trim(s.as_str());
            if s.as_str().is_empty() {
                None
            } else {
                Some(s)
            }
        },
    }
}

/// The duration that the argument at `i` writes.
pub open spec fn hms_at(a: Seq<Seq<char>>, i: int) -> Option<Span> {
    match args::arg(a, i) {
        Some(t) => dur_hms(t),
        None => None,
    }
}

fn hms_arg(a: &[String], i: usize) -> (r: Option<Span>)
    ensures
        r == hms_at(text::texts(a@), i as int),
{
    match args::arg_str(a, i) {
        Some(t) => parse_dur_hms(t),
        None => None,
    }
}

/// The word that takes a timer back.
pub open spec fn is_off(kw: Seq<char>) -> bool {
    kw == "off"@ || kw == "cancel"@
}

/// What the arguments of `sleep` read as.
pub open spec fn reads_sleep(a: Seq<Seq<char>>, line: Seq<char>, cmd: MpdCommand) -> bool {
    match args::keyword(a, 0) {
        None => cmd == MpdCommand::Sleep(SleepCmd::Status),
        Some(kw) => if is_off(kw) {
            cmd == MpdCommand::Sleep(SleepCmd::Cancel)
        } else {
            match hms_at(a, 0) {
                Some(d) => cmd == MpdCommand::Sleep(SleepCmd::Arm(d)),
                None => unsupported(cmd, line),
            }
        },
    }
}

/// Parses the arguments of `sleep`.
pub fn parse_sleep(a: &[String], line: &str) -> (r: MpdCommand)
    ensures
        reads_sleep(text::texts(a@), line@, r),
{
    match args::lower_arg(a, 0) {
        None => MpdCommand::Sleep(SleepCmd::Status),
        Some(kw) => if text::same(kw.as_str(), "off") || text::same(kw.as_str(), "cancel") {
            MpdCommand::Sleep(SleepCmd::Cancel)
        } else {
            match hms_arg(a, 0) {
                Some(d) => MpdCommand::Sleep(SleepCmd::Arm(d)),
                None => refuse(line),
            }
        },
    }
}

/// What the arguments of `winddown` read as.
pub open spec fn reads_winddown(a: Seq<Seq<char>>, line: Seq<char>, cmd: MpdCommand) -> bool {
    match args::keyword(a, 0) {
        None => cmd == MpdCommand::Winddown(WinddownCmd::Arm(None)),
        Some(kw) => if is_off(kw) {
            cmd == MpdCommand::Winddown(WinddownCmd::Cancel)
        } else {
            match hms_at(a, 0) {
                Some(d) => cmd == MpdCommand::Winddown(WinddownCmd::Arm(Some(d))),
                None => unsupported(cmd, line),
            }
        },
    }
}

/// Parses the arguments of `winddown`.
pub fn parse_winddown(a: &[String], line: &str) -> (r: MpdCommand)
    ensures
        reads_winddown(text::texts(a@), line@, r),
{
    match args::lower_arg(a, 0) {
        None => MpdCommand::Winddown(WinddownCmd::Arm(None)),
        Some(kw) => if text::same(kw.as_str(), "off") || text::same(kw.as_str(), "cancel") {
            MpdCommand::Winddown(WinddownCmd::Cancel)
        } else {
            match hms_arg(a, 0) {
                Some(d) => MpdCommand::Winddown(WinddownCmd::Arm(Some(d))),
                None => refuse(line),
            }
        },
    }
}

/// When the arguments of `wake` say that the alarm goes off.
pub open spec fn wake_when(a: Seq<Seq<char>>, kw: Seq<char>) -> Option<WakeWhen> {
    if kw == "at"@ {
        match args::arg(a, 1) {
            Some(t) => match civil_time(t) {
                Some((h, m)) => Some(WakeWhen::At { h: h as u32, m: m as u32 }),
                None => None,
            },
            None => None,
        }
    } else if kw == "in"@ {
        match hms_at(a, 1) {
            Some(d) => Some(WakeWhen::In(d)),
            None => None,
        }
    } else {
        None
    }
}

/// What the arguments of `wake` read as.
pub open spec fn reads_wake(a: Seq<Seq<char>>, line: Seq<char>, cmd: MpdCommand) -> bool {
    match args::keyword(a, 0) {
        None => cmd == MpdCommand::Wake(WakeCmd::Status),
        Some(kw) => if kw == "list"@ {
            cmd == MpdCommand::Wake(WakeCmd::Status)
        } else if is_off(kw) {
            cmd == MpdCommand::Wake(WakeCmd::Cancel)
        } else {
            match wake_when(a, kw) {
                Some(w) => {
                    &&& cmd matches MpdCommand::Wake(WakeCmd::Arm { when, selector, count })
                    &&& when == w
                    &&& text::opt(selector) == wake_selector(args::tail(a, 2))
                    &&& count == DEFAULT_WAKE_ENQUEUE
                },
                None => unsupported(cmd, line),
            }
        },
    }
}

/// Parses the arguments of `wake`.
pub fn parse_wake(a: &[String], line: &str) -> (r: MpdCommand)
    ensures
        reads_wake(text::texts(a@), line@, r),
{
    let kw = match args::lower_arg(a, 0) {
        None => return MpdCommand::Wake(WakeCmd::Status),
        Some(kw) => kw,
    };
    let kw = kw.as_str();
    if text::same(kw, "list") {
        return MpdCommand::Wake(WakeCmd::Status);
    }
    if text::same(kw, "off") || text::same(kw, "cancel") {
        return MpdCommand::Wake(WakeCmd::Cancel);
    }
    let when = if text::same(kw, "at") {
        match args::arg_str(a, 1) {
            Some(t) => match parse_civil_time(t) {
                Some((h, m)) => WakeWhen::At { h, m },
                None => return refuse(line),
            },
            None => return refuse(line),
        }
    } else if text::same(kw, "in") {
        match hms_arg(a, 1) {
            Some(d) => WakeWhen::In(d),
            None => return refuse(line),
        }
    } else {
        return refuse(line);
    };
    MpdCommand::Wake(
        WakeCmd::Arm {
            when,
            selector: parse_wake_selector(args::tail_of(a, 2)),
            count: DEFAULT_WAKE_ENQUEUE,
        },
    )
}

// ---------------------------------------------------------------------------
// Lines
// ---------------------------------------------------------------------------

/// An optional number as a `usize`.
pub open spec fn as_usize(n: Option<nat>) -> Option<usize> {
    match n {
        Some(k) => Some(k as usize),
        None => None,
    }
}

/// An optional number as a `u64`.
pub open spec fn as_u64(n: Option<nat>) -> Option<u64> {
    match n {
        Some(k) => Some(k as u64),
        None => None,
    }
}

/// An optional number, or `d` where there is none.
pub open spec fn num_or(n: Option<nat>, d: nat) -> nat {
    match n {
        Some(k) => k,
        None => d,
    }
}

fn bad_usize(a: &[String], i: usize) -> (r: bool)
    ensures
        r == args::is_malformed(text::texts(a@), i as int, usize::MAX as nat),
{
    i < a.len() && args::usize_arg(a, i).is_none()
}

fn bad_u64(a: &[String], i: usize) -> (r: bool)
    ensures
        r == args::is_malformed(text::texts(a@), i as int, u64::MAX as nat),
{
    i < a.len() && args::u64_arg(a, i).is_none()
}

fn usize_or(a: &[String], i: usize, d: usize) -> (r: usize)
    ensures
        r == num_or(args::num(text::texts(a@), i as int, usize::MAX as nat), d as nat),
{
    match args::usize_arg(a, i) {
        Some(n) => n,
        None => d,
    }
}

/// The number that the argument at `i` writes.
pub open spec fn real_at(a: Seq<Seq<char>>, i: int) -> Option<Real> {
    match args::arg(a, i) {
        Some(s) => number::real_of(s),
        None => None,
    }
}

fn real_arg(a: &[String], i: usize) -> (r: Option<Real>)
    ensures
        r == real_at(text::texts(a@), i as int),
{
    match args::arg_str(a, i) {
        Some(s) => number::parse_real(s),
        None => None,
    }
}

/// What `1` and `0` say.
pub open spec fn flag_of(s: Option<Seq<char>>) -> Option<bool> {
    if s == Some("1"@) {
        Some(true)
    } else if s == Some("0"@) {
        Some(false)
    } else {
        None
    }
}

fn flag_arg(a: &[String], i: usize) -> (r: Option<bool>)
    ensures
        r == flag_of(args::arg(text::texts(a@), i as int)),
{
    if arg_is(a, i, "1") {
        Some(true)
    } else if arg_is(a, i, "0") {
        Some(false)
    } else {
        None
    }
}

fn arg_is(a: &[String], i: usize, w: &str) -> (r: bool)
    ensures
        r == (args::arg(text::texts(a@), i as int) == Some(w@)),
{
    match args::arg_str(a, i) {
        Some(s) => text::same(s, w),
        None => false,
    }
}

/// What a command with this name and these arguments reads as.
pub open spec fn reads_command(
    name: Seq<char>,
    a: Seq<Seq<char>>,
    line: Seq<char>,
    cmd: MpdCommand,
) -> bool {
    if name == "status"@ {
        cmd == MpdCommand::Status
    } else if name == "stats"@ {
        cmd == MpdCommand::Stats
    } else if name == "currentsong"@ {
        cmd == MpdCommand::CurrentSong
    } else if name == "ping"@ {
        cmd == MpdCommand::Ping
    } else if name == "idle"@ {
        cmd matches MpdCommand::Idle(s) && text::texts(s@) == a
    } else if name == "noidle"@ {
        cmd == MpdCommand::NoIdle
    } else if name == "play"@ {
        if args::is_malformed(a, 0, usize::MAX as nat) {
            unsupported(cmd, line)
        } else {
            cmd == MpdCommand::Play(as_usize(args::num(a, 0, usize::MAX as nat)))
        }
    } else if name == "playid"@ {
        if args::is_malformed(a, 0, u64::MAX as nat) {
            unsupported(cmd, line)
        } else {
            cmd == MpdCommand::PlayId(as_u64(args::num(a, 0, u64::MAX as nat)))
        }
    } else if name == "pause"@ {
        if args::arg(a, 0) is Some && flag_of(args::arg(a, 0)) is None {
            unsupported(cmd, line)
        } else {
            cmd == MpdCommand::Pause(flag_of(args::arg(a, 0)))
        }
    } else if name == "stop"@ {
        cmd == MpdCommand::Stop
    } else if name == "next"@ {
        cmd == MpdCommand::Next
    } else if name == "previous"@ {
        cmd == MpdCommand::Previous
    } else if name == "seek"@ {
        match (args::num(a, 0, usize::MAX as nat), real_at(a, 1)) {
            (Some(n), Some(secs)) => cmd == (MpdCommand::Seek { song_pos: n as usize, secs }),
            _ => unsupported(cmd, line),
        }
    } else if name == "seekid"@ {
        match (args::num(a, 0, u64::MAX as nat), real_at(a, 1)) {
            (Some(n), Some(secs)) => cmd == (MpdCommand::SeekId { id: n as u64, secs }),
            _ => unsupported(cmd, line),
        }
    } else if name == "seekcur"@ {
        match (args::arg(a, 0), real_at(a, 0)) {
            (Some(s), Some(secs)) => cmd == (MpdCommand::SeekCur {
                secs,
                relative: text::begins(s, "+"@) || text::begins(s, "-"@),
            }),
            _ => unsupported(cmd, line),
        }
    } else if name == "setvol"@ {
        match args::num(a, 0, u8::MAX as nat) {
            Some(n) => cmd == MpdCommand::SetVol(n as u8),
            None => unsupported(cmd, line),
        }
    } else if name == "getvol"@ {
        cmd == MpdCommand::GetVol
    } else if name == "knob"@ {
        if args::arg(a, 0) == Some("up"@) {
            cmd == MpdCommand::Knob(KnobDir::Up)
        } else if args::arg(a, 0) == Some("down"@) {
            cmd == MpdCommand::Knob(KnobDir::Down)
        } else {
            unsupported(cmd, line)
        }
    } else if name == "random"@ {
        match flag_of(args::arg(a, 0)) {
            Some(on) => cmd == MpdCommand::Random(on),
            None => unsupported(cmd, line),
        }
    } else if name == "repeat"@ {
        match flag_of(args::arg(a, 0)) {
            Some(on) => cmd == MpdCommand::Repeat(on),
            None => unsupported(cmd, line),
        }
    } else if name == "consume"@ {
        match flag_of(args::arg(a, 0)) {
            Some(on) => cmd == MpdCommand::Consume(on),
            None => unsupported(cmd, line),
        }
    } else if name == "single"@ {
        if args::arg(a, 0) == Some("oneshot"@) {
            cmd == MpdCommand::Single(true)
        } else {
            match flag_of(args::arg(a, 0)) {
                Some(on) => cmd == MpdCommand::Single(on),
                None => unsupported(cmd, line),
            }
        }
    } else if name == "add"@ {
        cmd matches MpdCommand::Add(s) && s@ == args::arg_or_empty(a, 0)
    } else if name == "addid"@ {
        if args::is_malformed(a, 1, usize::MAX as nat) {
            unsupported(cmd, line)
        } else {
            &&& cmd matches MpdCommand::AddId(s, pos)
            &&& s@ == args::arg_or_empty(a, 0)
            &&& pos == as_usize(args::num(a, 1, usize::MAX as nat))
        }
    } else if name == "clear"@ {
        cmd == MpdCommand::Clear
    } else if name == "delete"@ {
        cmd matches MpdCommand::Delete(s) && text::opt(s) == args::arg(a, 0)
    } else if name == "playlistinfo"@ {
        cmd matches MpdCommand::PlaylistInfo(s) && text::opt(s) == args::arg(a, 0)
    } else if name == "playlistid"@ {
        if args::is_malformed(a, 0, u64::MAX as nat) {
            unsupported(cmd, line)
        } else {
            cmd == MpdCommand::PlaylistId(as_u64(args::num(a, 0, u64::MAX as nat)))
        }
    } else if name == "plchanges"@ {
        cmd == MpdCommand::PlChanges(num_or(args::num(a, 0, u64::MAX as nat), 0) as u64)
    } else if name == "listplaylists"@ {
        cmd == MpdCommand::ListPlaylists
    } else if name == "listplaylistinfo"@ {
        cmd matches MpdCommand::ListPlaylistInfo(s) && s@ == args::arg_or_empty(a, 0)
    } else if name == "load"@ {
        cmd matches MpdCommand::Load(s) && s@ == args::arg_or_empty(a, 0)
    } else if name == "save"@ {
        match args::arg(a, 0) {
            Some(n) => if n.len() > 0 {
                cmd matches MpdCommand::Save(s) && s@ == n
            } else {
                unsupported(cmd, line)
            },
            None => unsupported(cmd, line),
        }
    } else if name == "playlistadd"@ {
        {
            &&& cmd matches MpdCommand::PlaylistAdd(n, u)
            &&& n@ == args::arg_or_empty(a, 0)
            &&& u@ == args::arg_or_empty(a, 1)
        }
    } else if name == "playlistdelete"@ {
        if args::is_malformed(a, 1, usize::MAX as nat) {
            unsupported(cmd, line)
        } else {
            &&& cmd matches MpdCommand::PlaylistDelete(n, pos)
            &&& n@ == args::arg_or_empty(a, 0)
            &&& pos == num_or(args::num(a, 1, usize::MAX as nat), 0)
        }
    } else if name == "playlistclear"@ {
        cmd matches MpdCommand::PlaylistClear(s) && s@ == args::arg_or_empty(a, 0)
    } else if name == "lsinfo"@ {
        cmd matches MpdCommand::LsInfo(s) && text::opt(s) == args::arg(a, 0)
    } else if name == "listall"@ || name == "listallinfo"@ {
        cmd matches MpdCommand::ListAllInfo(s) && text::opt(s) == args::arg(a, 0)
    } else if name == "find"@ {
        cmd matches MpdCommand::Find(f) && text::pairs(f@) == filter::filters(a, 0)
    } else if name == "search"@ {
        cmd matches MpdCommand::Search(f) && text::pairs(f@) == filter::filters(a, 0)
    } else if name == "findadd"@ {
        cmd matches MpdCommand::FindAdd(f) && text::pairs(f@) == filter::filters(a, 0)
    } else if name == "searchadd"@ {
        cmd matches MpdCommand::SearchAdd(f) && text::pairs(f@) == filter::filters(a, 0)
    } else if name == "count"@ {
        cmd matches MpdCommand::Count(f) && text::pairs(f@) == filter::list_filter(a)
    } else if name == "list"@ {
        {
            &&& cmd matches MpdCommand::List { tag, filter }
            &&& tag@ == text::lower(args::arg_or_empty(a, 0))
            &&& text::pairs(filter@) == filter::list_filter(args::tail(a, 1))
        }
    } else if name == "fade"@ {
        reads_fade(a, line, cmd)
    } else if name == "plan"@ {
        reads_plan(a, line, cmd)
    } else if name == "nl"@ {
        reads_nl(a, line, cmd)
    } else if name == "sleep"@ {
        reads_sleep(a, line, cmd)
    } else if name == "winddown"@ {
        reads_winddown(a, line, cmd)
    } else if name == "wake"@ {
        reads_wake(a, line, cmd)
    } else if name == "field"@ {
        reads_field(a, cmd)
    } else if name == "sticker"@ {
        cmd matches MpdCommand::Sticker(s) && reads_sticker(a, s)
    } else if name == "albumart"@ {
        if args::is_malformed(a, 1, usize::MAX as nat) {
            unsupported(cmd, line)
        } else {
            &&& cmd matches MpdCommand::AlbumArt(n, pos)
            &&& n@ == args::arg_or_empty(a, 0)
            &&& pos == num_or(args::num(a, 1, usize::MAX as nat), 0)
        }
    } else if name == "readpicture"@ {
        if args::is_malformed(a, 1, usize::MAX as nat) {
            unsupported(cmd, line)
        } else {
            &&& cmd matches MpdCommand::ReadPicture(n, pos)
            &&& n@ == args::arg_or_empty(a, 0)
            &&& pos == num_or(args::num(a, 1, usize::MAX as nat), 0)
        }
    } else if name == "binarylimit"@ {
        if args::is_malformed(a, 0, usize::MAX as nat) {
            unsupported(cmd, line)
        } else {
            cmd == MpdCommand::BinaryLimit(
                num_or(args::num(a, 0, usize::MAX as nat), 8192) as usize,
            )
        }
    } else if name == "commands"@ {
        cmd == MpdCommand::Commands
    } else if name == "notcommands"@ {
        cmd == MpdCommand::NotCommands
    } else if name == "tagtypes"@ {
        cmd == MpdCommand::TagTypes
    } else if name == "outputs"@ {
        cmd == MpdCommand::Outputs
    } else if name == "decoders"@ {
        cmd == MpdCommand::Decoders
    } else if name == "urlhandlers"@ {
        cmd == MpdCommand::UrlHandlers
    } else {
        unsupported(cmd, name)
    }
}

/// What a request line reads as. A line without a token is not supported, and neither is
/// a command that is not known.
pub open spec fn reads_line(line: Seq<char>, cmd: MpdCommand) -> bool {
    let t = tokens::tokens(line);
    if t.len() == 0 {
        unsupported(cmd, Seq::empty())
    } else {
        reads_command(text::lower(t[0]), t.skip(1), line, cmd)
    }
}

/// How long the names of requests are, and how they begin.
pub proof fn names_of_requests()
    ensures
        "status"@.len() == 6 && "status"@[0] == 's' && "status"@[1] == 't' && "status"@[2] == 'a',
        "stats"@.len() == 5 && "stats"@[0] == 's' && "stats"@[1] == 't' && "stats"@[2] == 'a',
        "currentsong"@.len() == 11 && "currentsong"@[0] == 'c' && "currentsong"@[1] == 'u' && "currentsong"@[2] == 'r',
        "ping"@.len() == 4 && "ping"@[0] == 'p' && "ping"@[1] == 'i' && "ping"@[2] == 'n',
        "idle"@.len() == 4 && "idle"@[0] == 'i' && "idle"@[1] == 'd' && "idle"@[2] == 'l',
        "noidle"@.len() == 6 && "noidle"@[0] == 'n' && "noidle"@[1] == 'o' && "noidle"@[2] == 'i',
        "play"@.len() == 4 && "play"@[0] == 'p' && "play"@[1] == 'l' && "play"@[2] == 'a',
        "playid"@.len() == 6 && "playid"@[0] == 'p' && "playid"@[1] == 'l' && "playid"@[2] == 'a',
        "pause"@.len() == 5 && "pause"@[0] == 'p' && "pause"@[1] == 'a' && "pause"@[2] == 'u',
        "stop"@.len() == 4 && "stop"@[0] == 's' && "stop"@[1] == 't' && "stop"@[2] == 'o',
        "next"@.len() == 4 && "next"@[0] == 'n' && "next"@[1] == 'e' && "next"@[2] == 'x',
        "previous"@.len() == 8 && "previous"@[0] == 'p' && "previous"@[1] == 'r' && "previous"@[2] == 'e',
        "seek"@.len() == 4 && "seek"@[0] == 's' && "seek"@[1] == 'e' && "seek"@[2] == 'e',
        "seekid"@.len() == 6 && "seekid"@[0] == 's' && "seekid"@[1] == 'e' && "seekid"@[2] == 'e',
        "seekcur"@.len() == 7 && "seekcur"@[0] == 's' && "seekcur"@[1] == 'e' && "seekcur"@[2] == 'e',
        "setvol"@.len() == 6 && "setvol"@[0] == 's' && "setvol"@[1] == 'e' && "setvol"@[2] == 't',
        "getvol"@.len() == 6 && "getvol"@[0] == 'g' && "getvol"@[1] == 'e' && "getvol"@[2] == 't',
        "knob"@.len() == 4 && "knob"@[0] == 'k' && "knob"@[1] == 'n' && "knob"@[2] == 'o',
        "random"@.len() == 6 && "random"@[0] == 'r' && "random"@[1] == 'a' && "random"@[2] == 'n',
        "repeat"@.len() == 6 && "repeat"@[0] == 'r' && "repeat"@[1] == 'e' && "repeat"@[2] == 'p',
        "consume"@.len() == 7 && "consume"@[0] == 'c' && "consume"@[1] == 'o' && "consume"@[2] == 'n',
        "single"@.len() == 6 && "single"@[0] == 's' && "single"@[1] == 'i' && "single"@[2] == 'n',
        "add"@.len() == 3 && "add"@[0] == 'a' && "add"@[1] == 'd' && "add"@[2] == 'd',
        "addid"@.len() == 5 && "addid"@[0] == 'a' && "addid"@[1] == 'd' && "addid"@[2] == 'd',
        "clear"@.len() == 5 && "clear"@[0] == 'c' && "clear"@[1] == 'l' && "clear"@[2] == 'e',
        "delete"@.len() == 6 && "delete"@[0] == 'd' && "delete"@[1] == 'e' && "delete"@[2] == 'l',
        "playlistinfo"@.len() == 12 && "playlistinfo"@[0] == 'p' && "playlistinfo"@[1] == 'l' && "playlistinfo"@[2] == 'a',
        "playlistid"@.len() == 10 && "playlistid"@[0] == 'p' && "playlistid"@[1] == 'l' && "playlistid"@[2] == 'a',
        "plchanges"@.len() == 9 && "plchanges"@[0] == 'p' && "plchanges"@[1] == 'l' && "plchanges"@[2] == 'c',
        "listplaylists"@.len() == 13 && "listplaylists"@[0] == 'l' && "listplaylists"@[1] == 'i' && "listplaylists"@[2] == 's',
        "listplaylistinfo"@.len() == 16 && "listplaylistinfo"@[0] == 'l' && "listplaylistinfo"@[1] == 'i' && "listplaylistinfo"@[2] == 's',
        "load"@.len() == 4 && "load"@[0] == 'l' && "load"@[1] == 'o' && "load"@[2] == 'a',
        "save"@.len() == 4 && "save"@[0] == 's' && "save"@[1] == 'a' && "save"@[2] == 'v',
        "playlistadd"@.len() == 11 && "playlistadd"@[0] == 'p' && "playlistadd"@[1] == 'l' && "playlistadd"@[2] == 'a',
        "playlistdelete"@.len() == 14 && "playlistdelete"@[0] == 'p' && "playlistdelete"@[1] == 'l' && "playlistdelete"@[2] == 'a',
        "playlistclear"@.len() == 13 && "playlistclear"@[0] == 'p' && "playlistclear"@[1] == 'l' && "playlistclear"@[2] == 'a',
        "lsinfo"@.len() == 6 && "lsinfo"@[0] == 'l' && "lsinfo"@[1] == 's' && "lsinfo"@[2] == 'i',
        "listall"@.len() == 7 && "listall"@[0] == 'l' && "listall"@[1] == 'i' && "listall"@[2] == 's',
        "listallinfo"@.len() == 11 && "listallinfo"@[0] == 'l' && "listallinfo"@[1] == 'i' && "listallinfo"@[2] == 's',
        "find"@.len() == 4 && "find"@[0] == 'f' && "find"@[1] == 'i' && "find"@[2] == 'n',
        "search"@.len() == 6 && "search"@[0] == 's' && "search"@[1] == 'e' && "search"@[2] == 'a',
        "findadd"@.len() == 7 && "findadd"@[0] == 'f' && "findadd"@[1] == 'i' && "findadd"@[2] == 'n',
        "searchadd"@.len() == 9 && "searchadd"@[0] == 's' && "searchadd"@[1] == 'e' && "searchadd"@[2] == 'a',
        "count"@.len() == 5 && "count"@[0] == 'c' && "count"@[1] == 'o' && "count"@[2] == 'u',
        "list"@.len() == 4 && "list"@[0] == 'l' && "list"@[1] == 'i' && "list"@[2] == 's',
        "fade"@.len() == 4 && "fade"@[0] == 'f' && "fade"@[1] == 'a' && "fade"@[2] == 'd',
        "plan"@.len() == 4 && "plan"@[0] == 'p' && "plan"@[1] == 'l' && "plan"@[2] == 'a',
        "nl"@.len() == 2 && "nl"@[0] == 'n' && "nl"@[1] == 'l',
        "sleep"@.len() == 5 && "sleep"@[0] == 's' && "sleep"@[1] == 'l' && "sleep"@[2] == 'e',
        "winddown"@.len() == 8 && "winddown"@[0] == 'w' && "winddown"@[1] == 'i'
            && "winddown"@[2] == 'n',
        "wake"@.len() == 4 && "wake"@[0] == 'w' && "wake"@[1] == 'a' && "wake"@[2] == 'k',
        "field"@.len() == 5 && "field"@[0] == 'f' && "field"@[1] == 'i' && "field"@[2] == 'e',
        "sticker"@.len() == 7 && "sticker"@[0] == 's' && "sticker"@[1] == 't'
            && "sticker"@[2] == 'i',
        "albumart"@.len() == 8 && "albumart"@[0] == 'a' && "albumart"@[1] == 'l'
            && "albumart"@[2] == 'b',
        "readpicture"@.len() == 11 && "readpicture"@[0] == 'r' && "readpicture"@[1] == 'e'
            && "readpicture"@[2] == 'a',
        "binarylimit"@.len() == 11 && "binarylimit"@[0] == 'b' && "binarylimit"@[1] == 'i'
            && "binarylimit"@[2] == 'n',
        "commands"@.len() == 8 && "commands"@[0] == 'c' && "commands"@[1] == 'o'
            && "commands"@[2] == 'm',
        "notcommands"@.len() == 11 && "notcommands"@[0] == 'n' && "notcommands"@[1] == 'o'
            && "notcommands"@[2] == 't',
        "tagtypes"@.len() == 8 && "tagtypes"@[0] == 't' && "tagtypes"@[1] == 'a'
            && "tagtypes"@[2] == 'g',
        "outputs"@.len() == 7 && "outputs"@[0] == 'o' && "outputs"@[1] == 'u'
            && "outputs"@[2] == 't',
        "decoders"@.len() == 8 && "decoders"@[0] == 'd' && "decoders"@[1] == 'e'
            && "decoders"@[2] == 'c',
        "urlhandlers"@.len() == 11 && "urlhandlers"@[0] == 'u' && "urlhandlers"@[1] == 'r'
            && "urlhandlers"@[2] == 'l',
        "play"@[3] == 'y' && "plan"@[3] == 'n',
{
    assert("play"@[3] == 'y' && "plan"@[3] == 'n') by {
        reveal_strlit("play");
        reveal_strlit("plan");
    }
    assert("sleep"@.len() == 5 && "sleep"@[0] == 's' && "sleep"@[1] == 'l'
        && "sleep"@[2] == 'e') by {
        reveal_strlit("sleep");
    }
    assert("winddown"@.len() == 8 && "winddown"@[0] == 'w' && "winddown"@[1] == 'i'
        && "winddown"@[2] == 'n') by {
        reveal_strlit("winddown");
    }
    assert("wake"@.len() == 4 && "wake"@[0] == 'w' && "wake"@[1] == 'a' && "wake"@[2] == 'k') by {
        reveal_strlit("wake");
    }
    assert("field"@.len() == 5 && "field"@[0] == 'f' && "field"@[1] == 'i'
        && "field"@[2] == 'e') by {
        reveal_strlit("field");
    }
    assert("sticker"@.len() == 7 && "sticker"@[0] == 's' && "sticker"@[1] == 't'
        && "sticker"@[2] == 'i') by {
        reveal_strlit("sticker");
    }
    assert("albumart"@.len() == 8 && "albumart"@[0] == 'a' && "albumart"@[1] == 'l'
        && "albumart"@[2] == 'b') by {
        reveal_strlit("albumart");
    }
    assert("readpicture"@.len() == 11 && "readpicture"@[0] == 'r' && "readpicture"@[1] == 'e'
        && "readpicture"@[2] == 'a') by {
        reveal_strlit("readpicture");
    }
    assert("binarylimit"@.len() == 11 && "binarylimit"@[0] == 'b' && "binarylimit"@[1] == 'i'
        && "binarylimit"@[2] == 'n') by {
        reveal_strlit("binarylimit");
    }
    assert("commands"@.len() == 8 && "commands"@[0] == 'c' && "commands"@[1] == 'o'
        && "commands"@[2] == 'm') by {
        reveal_strlit("commands");
    }
    assert("notcommands"@.len() == 11 && "notcommands"@[0] == 'n' && "notcommands"@[1] == 'o'
        && "notcommands"@[2] == 't') by {
        reveal_strlit("notcommands");
    }
    assert("tagtypes"@.len() == 8 && "tagtypes"@[0] == 't' && "tagtypes"@[1] == 'a'
        && "tagtypes"@[2] == 'g') by {
        reveal_strlit("tagtypes");
    }
    assert("outputs"@.len() == 7 && "outputs"@[0] == 'o' && "outputs"@[1] == 'u'
        && "outputs"@[2] == 't') by {
        reveal_strlit("outputs");
    }
    assert("decoders"@.len() == 8 && "decoders"@[0] == 'd' && "decoders"@[1] == 'e'
        && "decoders"@[2] == 'c') by {
        reveal_strlit("decoders");
    }
    assert("urlhandlers"@.len() == 11 && "urlhandlers"@[0] == 'u' && "urlhandlers"@[1] == 'r'
        && "urlhandlers"@[2] == 'l') by {
        reveal_strlit("urlhandlers");
    }
    assert("status"@.len() == 6 && "status"@[0] == 's' && "status"@[1] == 't' && "status"@[2] == 'a') by {
        reveal_strlit("status");
    }
    assert("stats"@.len() == 5 && "stats"@[0] == 's' && "stats"@[1] == 't' && "stats"@[2] == 'a') by {
        reveal_strlit("stats");
    }
    assert("currentsong"@.len() == 11 && "currentsong"@[0] == 'c' && "currentsong"@[1] == 'u' && "currentsong"@[2] == 'r') by {
        reveal_strlit("currentsong");
    }
    assert("ping"@.len() == 4 && "ping"@[0] == 'p' && "ping"@[1] == 'i' && "ping"@[2] == 'n') by {
        reveal_strlit("ping");
    }
    assert("idle"@.len() == 4 && "idle"@[0] == 'i' && "idle"@[1] == 'd' && "idle"@[2] == 'l') by {
        reveal_strlit("idle");
    }
    assert("noidle"@.len() == 6 && "noidle"@[0] == 'n' && "noidle"@[1] == 'o' && "noidle"@[2] == 'i') by {
        reveal_strlit("noidle");
    }
    assert("play"@.len() == 4 && "play"@[0] == 'p' && "play"@[1] == 'l' && "play"@[2] == 'a') by {
        reveal_strlit("play");
    }
    assert("playid"@.len() == 6 && "playid"@[0] == 'p' && "playid"@[1] == 'l' && "playid"@[2] == 'a') by {
        reveal_strlit("playid");
    }
    assert("pause"@.len() == 5 && "pause"@[0] == 'p' && "pause"@[1] == 'a' && "pause"@[2] == 'u') by {
        reveal_strlit("pause");
    }
    assert("stop"@.len() == 4 && "stop"@[0] == 's' && "stop"@[1] == 't' && "stop"@[2] == 'o') by {
        reveal_strlit("stop");
    }
    assert("next"@.len() == 4 && "next"@[0] == 'n' && "next"@[1] == 'e' && "next"@[2] == 'x') by {
        reveal_strlit("next");
    }
    assert("previous"@.len() == 8 && "previous"@[0] == 'p' && "previous"@[1] == 'r' && "previous"@[2] == 'e') by {
        reveal_strlit("previous");
    }
    assert("seek"@.len() == 4 && "seek"@[0] == 's' && "seek"@[1] == 'e' && "seek"@[2] == 'e') by {
        reveal_strlit("seek");
    }
    assert("seekid"@.len() == 6 && "seekid"@[0] == 's' && "seekid"@[1] == 'e' && "seekid"@[2] == 'e') by {
        reveal_strlit("seekid");
    }
    assert("seekcur"@.len() == 7 && "seekcur"@[0] == 's' && "seekcur"@[1] == 'e' && "seekcur"@[2] == 'e') by {
        reveal_strlit("seekcur");
    }
    assert("setvol"@.len() == 6 && "setvol"@[0] == 's' && "setvol"@[1] == 'e' && "setvol"@[2] == 't') by {
        reveal_strlit("setvol");
    }
    assert("getvol"@.len() == 6 && "getvol"@[0] == 'g' && "getvol"@[1] == 'e' && "getvol"@[2] == 't') by {
        reveal_strlit("getvol");
    }
    assert("knob"@.len() == 4 && "knob"@[0] == 'k' && "knob"@[1] == 'n' && "knob"@[2] == 'o') by {
        reveal_strlit("knob");
    }
    assert("random"@.len() == 6 && "random"@[0] == 'r' && "random"@[1] == 'a' && "random"@[2] == 'n') by {
        reveal_strlit("random");
    }
    assert("repeat"@.len() == 6 && "repeat"@[0] == 'r' && "repeat"@[1] == 'e' && "repeat"@[2] == 'p') by {
        reveal_strlit("repeat");
    }
    assert("consume"@.len() == 7 && "consume"@[0] == 'c' && "consume"@[1] == 'o' && "consume"@[2] == 'n') by {
        reveal_strlit("consume");
    }
    assert("single"@.len() == 6 && "single"@[0] == 's' && "single"@[1] == 'i' && "single"@[2] == 'n') by {
        reveal_strlit("single");
    }
    assert("add"@.len() == 3 && "add"@[0] == 'a' && "add"@[1] == 'd' && "add"@[2] == 'd') by {
        reveal_strlit("add");
    }
    assert("addid"@.len() == 5 && "addid"@[0] == 'a' && "addid"@[1] == 'd' && "addid"@[2] == 'd') by {
        reveal_strlit("addid");
    }
    assert("clear"@.len() == 5 && "clear"@[0] == 'c' && "clear"@[1] == 'l' && "clear"@[2] == 'e') by {
        reveal_strlit("clear");
    }
    assert("delete"@.len() == 6 && "delete"@[0] == 'd' && "delete"@[1] == 'e' && "delete"@[2] == 'l') by {
        reveal_strlit("delete");
    }
    assert("playlistinfo"@.len() == 12 && "playlistinfo"@[0] == 'p' && "playlistinfo"@[1] == 'l' && "playlistinfo"@[2] == 'a') by {
        reveal_strlit("playlistinfo");
    }
    assert("playlistid"@.len() == 10 && "playlistid"@[0] == 'p' && "playlistid"@[1] == 'l' && "playlistid"@[2] == 'a') by {
        reveal_strlit("playlistid");
    }
    assert("plchanges"@.len() == 9 && "plchanges"@[0] == 'p' && "plchanges"@[1] == 'l' && "plchanges"@[2] == 'c') by {
        reveal_strlit("plchanges");
    }
    assert("listplaylists"@.len() == 13 && "listplaylists"@[0] == 'l' && "listplaylists"@[1] == 'i' && "listplaylists"@[2] == 's') by {
        reveal_strlit("listplaylists");
    }
    assert("listplaylistinfo"@.len() == 16 && "listplaylistinfo"@[0] == 'l' && "listplaylistinfo"@[1] == 'i' && "listplaylistinfo"@[2] == 's') by {
        reveal_strlit("listplaylistinfo");
    }
    assert("load"@.len() == 4 && "load"@[0] == 'l' && "load"@[1] == 'o' && "load"@[2] == 'a') by {
        reveal_strlit("load");
    }
    assert("save"@.len() == 4 && "save"@[0] == 's' && "save"@[1] == 'a' && "save"@[2] == 'v') by {
        reveal_strlit("save");
    }
    assert("playlistadd"@.len() == 11 && "playlistadd"@[0] == 'p' && "playlistadd"@[1] == 'l' && "playlistadd"@[2] == 'a') by {
        reveal_strlit("playlistadd");
    }
    assert("playlistdelete"@.len() == 14 && "playlistdelete"@[0] == 'p' && "playlistdelete"@[1] == 'l' && "playlistdelete"@[2] == 'a') by {
        reveal_strlit("playlistdelete");
    }
    assert("playlistclear"@.len() == 13 && "playlistclear"@[0] == 'p' && "playlistclear"@[1] == 'l' && "playlistclear"@[2] == 'a') by {
        reveal_strlit("playlistclear");
    }
    assert("lsinfo"@.len() == 6 && "lsinfo"@[0] == 'l' && "lsinfo"@[1] == 's' && "lsinfo"@[2] == 'i') by {
        reveal_strlit("lsinfo");
    }
    assert("listall"@.len() == 7 && "listall"@[0] == 'l' && "listall"@[1] == 'i' && "listall"@[2] == 's') by {
        reveal_strlit("listall");
    }
    assert("listallinfo"@.len() == 11 && "listallinfo"@[0] == 'l' && "listallinfo"@[1] == 'i' && "listallinfo"@[2] == 's') by {
        reveal_strlit("listallinfo");
    }
    assert("find"@.len() == 4 && "find"@[0] == 'f' && "find"@[1] == 'i' && "find"@[2] == 'n') by {
        reveal_strlit("find");
    }
    assert("search"@.len() == 6 && "search"@[0] == 's' && "search"@[1] == 'e' && "search"@[2] == 'a') by {
        reveal_strlit("search");
    }
    assert("findadd"@.len() == 7 && "findadd"@[0] == 'f' && "findadd"@[1] == 'i' && "findadd"@[2] == 'n') by {
        reveal_strlit("findadd");
    }
    assert("searchadd"@.len() == 9 && "searchadd"@[0] == 's' && "searchadd"@[1] == 'e' && "searchadd"@[2] == 'a') by {
        reveal_strlit("searchadd");
    }
    assert("count"@.len() == 5 && "count"@[0] == 'c' && "count"@[1] == 'o' && "count"@[2] == 'u') by {
        reveal_strlit("count");
    }
    assert("list"@.len() == 4 && "list"@[0] == 'l' && "list"@[1] == 'i' && "list"@[2] == 's') by {
        reveal_strlit("list");
    }
    assert("fade"@.len() == 4 && "fade"@[0] == 'f' && "fade"@[1] == 'a' && "fade"@[2] == 'd') by {
        reveal_strlit("fade");
    }
    assert("plan"@.len() == 4 && "plan"@[0] == 'p' && "plan"@[1] == 'l' && "plan"@[2] == 'a') by {
        reveal_strlit("plan");
    }
    assert("nl"@.len() == 2 && "nl"@[0] == 'n' && "nl"@[1] == 'l') by {
        reveal_strlit("nl");
    }
}

/// Parses a request line. It never fails: what is malformed or not known becomes a
/// command that is not supported.
pub fn parse(line: &str) -> (cmd: MpdCommand)
    ensures
        reads_line(line@, cmd),
{
    let (name, args_vec) = match tokens::tokenize(line) {
        Some(t) => t,
        None => return MpdCommand::Unsupported(String::new()),
    };
    let name = name.as_str();
    let a = args_vec.as_slice();
    if text::same(name, "status") {
        MpdCommand::Status
    } else if text::same(name, "stats") {
        MpdCommand::Stats
    } else if text::same(name, "currentsong") {
        MpdCommand::CurrentSong
    } else if text::same(name, "ping") {
        MpdCommand::Ping
    } else if text::same(name, "idle") {
        MpdCommand::Idle(args_vec)
    } else if text::same(name, "noidle") {
        MpdCommand::NoIdle
    } else if text::same(name, "play") {
        if bad_usize(a, 0) {
            refuse(line)
        } else {
            MpdCommand::Play(args::usize_arg(a, 0))
        }
    } else if text::same(name, "playid") {
        if bad_u64(a, 0) {
            refuse(line)
        } else {
            MpdCommand::PlayId(args::u64_arg(a, 0))
        }
    } else if text::same(name, "pause") {
        if a.len() > 0 && flag_arg(a, 0).is_none() {
            refuse(line)
        } else {
            MpdCommand::Pause(flag_arg(a, 0))
        }
    } else if text::same(name, "stop") {
        MpdCommand::Stop
    } else if text::same(name, "next") {
        MpdCommand::Next
    } else if text::same(name, "previous") {
        MpdCommand::Previous
    } else if text::same(name, "seek") {
        match (args::usize_arg(a, 0), real_arg(a, 1)) {
            (Some(song_pos), Some(secs)) => MpdCommand::Seek { song_pos, secs },
            _ => refuse(line),
        }
    } else if text::same(name, "seekid") {
        match (args::u64_arg(a, 0), real_arg(a, 1)) {
            (Some(id), Some(secs)) => MpdCommand::SeekId { id, secs },
            _ => refuse(line),
        }
    } else if text::same(name, "seekcur") {
        match (args::arg_str(a, 0), real_arg(a, 0)) {
            (Some(s), Some(secs)) => MpdCommand::SeekCur {
                secs,
                relative: text::starts_with(s, "+") || text::starts_with(s, "-"),
            },
            _ => refuse(line),
        }
    } else if text::same(name, "setvol") {
        match args::u8_arg(a, 0) {
            Some(v) => MpdCommand::SetVol(v),
            None => refuse(line),
        }
    } else if text::same(name, "getvol") {
        MpdCommand::GetVol
    } else if text::same(name, "knob") {
        if arg_is(a, 0, "up") {
            MpdCommand::Knob(KnobDir::Up)
        } else if arg_is(a, 0, "down") {
            MpdCommand::Knob(KnobDir::Down)
        } else {
            refuse(line)
        }
    } else if text::same(name, "random") {
        match flag_arg(a, 0) {
            Some(on) => MpdCommand::Random(on),
            None => refuse(line),
        }
    } else if text::same(name, "repeat") {
        match flag_arg(a, 0) {
            Some(on) => MpdCommand::Repeat(on),
            None => refuse(line),
        }
    } else if text::same(name, "consume") {
        match flag_arg(a, 0) {
            Some(on) => MpdCommand::Consume(on),
            None => refuse(line),
        }
    } else if text::same(name, "single") {
        if arg_is(a, 0, "oneshot") {
            MpdCommand::Single(true)
        } else {
            match flag_arg(a, 0) {
                Some(on) => MpdCommand::Single(on),
                None => refuse(line),
            }
        }
    } else if text::same(name, "add") {
        MpdCommand::Add(args::arg_or_default(a, 0))
    } else if text::same(name, "addid") {
        if bad_usize(a, 1) {
            refuse(line)
        } else {
            MpdCommand::AddId(args::arg_or_default(a, 0), args::usize_arg(a, 1))
        }
    } else if text::same(name, "clear") {
        MpdCommand::Clear
    } else if text::same(name, "delete") {
        MpdCommand::Delete(args::arg_copy(a, 0))
    } else if text::same(name, "playlistinfo") {
        MpdCommand::PlaylistInfo(args::arg_copy(a, 0))
    } else if text::same(name, "playlistid") {
        if bad_u64(a, 0) {
            refuse(line)
        } else {
            MpdCommand::PlaylistId(args::u64_arg(a, 0))
        }
    } else if text::same(name, "plchanges") {
        MpdCommand::PlChanges(
            match args::u64_arg(a, 0) {
                Some(n) => n,
                None => 0,
            },
        )
    } else if text::same(name, "listplaylists") {
        MpdCommand::ListPlaylists
    } else if text::same(name, "listplaylistinfo") {
        MpdCommand::ListPlaylistInfo(args::arg_or_default(a, 0))
    } else if text::same(name, "load") {
        MpdCommand::Load(args::arg_or_default(a, 0))
    } else if text::same(name, "save") {
        match args::arg_copy(a, 0) {
            Some(n) => if !n.as_str().is_empty() {
                MpdCommand::Save(n)
            } else {
                refuse(line)
            },
            None => refuse(line),
        }
    } else if text::same(name, "playlistadd") {
        MpdCommand::PlaylistAdd(args::arg_or_default(a, 0), args::arg_or_default(a, 1))
    } else if text::same(name, "playlistdelete") {
        if bad_usize(a, 1) {
            refuse(line)
        } else {
            MpdCommand::PlaylistDelete(args::arg_or_default(a, 0), usize_or(a, 1, 0))
        }
    } else if text::same(name, "playlistclear") {
        MpdCommand::PlaylistClear(args::arg_or_default(a, 0))
    } else if text::same(name, "lsinfo") {
        MpdCommand::LsInfo(args::arg_copy(a, 0))
    } else if text::same(name, "listall") || text::same(name, "listallinfo") {
        MpdCommand::ListAllInfo(args::arg_copy(a, 0))
    } else if text::same(name, "find") {
        MpdCommand::Find(filter::parse_filter(a))
    } else if text::same(name, "search") {
        MpdCommand::Search(filter::parse_filter(a))
    } else if text::same(name, "findadd") {
        MpdCommand::FindAdd(filter::parse_filter(a))
    } else if text::same(name, "searchadd") {
        MpdCommand::SearchAdd(filter::parse_filter(a))
    } else if text::same(name, "count") {
        MpdCommand::Count(filter::parse_list_filter(a))
    } else if text::same(name, "list") {
        {
            let tag = args::arg_or_default(a, 0);
            MpdCommand::List {
                tag: text::to_lower(tag.as_str()),
                filter: filter::parse_list_filter(args::tail_of(a, 1)),
            }
        }
    } else if text::same(name, "fade") {
        parse_fade(a, line)
    } else if text::same(name, "plan") {
        parse_plan(a, line)
    } else if text::same(name, "nl") {
        parse_nl(a, line)
    } else if text::same(name, "sleep") {
        parse_sleep(a, line)
    } else if text::same(name, "winddown") {
        parse_winddown(a, line)
    } else if text::same(name, "wake") {
        parse_wake(a, line)
    } else if text::same(name, "field") {
        parse_field(a)
    } else if text::same(name, "sticker") {
        MpdCommand::Sticker(parse_sticker(a))
    } else if text::same(name, "albumart") {
        if bad_usize(a, 1) {
            refuse(line)
        } else {
            MpdCommand::AlbumArt(args::arg_or_default(a, 0), usize_or(a, 1, 0))
        }
    } else if text::same(name, "readpicture") {
        if bad_usize(a, 1) {
            refuse(line)
        } else {
            MpdCommand::ReadPicture(args::arg_or_default(a, 0), usize_or(a, 1, 0))
        }
    } else if text::same(name, "binarylimit") {
        if bad_usize(a, 0) {
            refuse(line)
        } else {
            MpdCommand::BinaryLimit(usize_or(a, 0, 8192))
        }
    } else if text::same(name, "commands") {
        MpdCommand::Commands
    } else if text::same(name, "notcommands") {
        MpdCommand::NotCommands
    } else if text::same(name, "tagtypes") {
        MpdCommand::TagTypes
    } else if text::same(name, "outputs") {
        MpdCommand::Outputs
    } else if text::same(name, "decoders") {
        MpdCommand::Decoders
    } else if text::same(name, "urlhandlers") {
        MpdCommand::UrlHandlers
    } else {
        refuse(name)
    }
}

} // verus!
