//! What requests ask for: laws on whole request lines, from the words that are written to
//! the command that is read.

use vstd::prelude::*;

use crate::echo;
use crate::mpd::args;
use crate::mpd::command;
use crate::mpd::command::{
    FadeArgs, FadeKind, FieldCmd, FieldNudge, KnobDir, MpdCommand, NlCmd, PlanCmd, SleepCmd,
    StickerCmd, WakeCmd, WakeWhen, WinddownCmd,
};
use crate::mpd::dsl;
use crate::mpd::filter;
use crate::mpd::tokens;
use crate::number;
use crate::number::{Real, Span};
use crate::plan::PlanId;
use crate::round_trip;
use crate::text;

verus! {

/// A line of these words, each quoted where it has to be, reads as this command.
#[verifier::opaque]
pub open spec fn asks(words: Seq<Seq<char>>, cmd: MpdCommand) -> bool {
    command::reads_line(echo::line_of(words), cmd)
}

/// The line of these words is not supported, and says so.
pub open spec fn refused(words: Seq<Seq<char>>, cmd: MpdCommand) -> bool {
    cmd matches MpdCommand::Unsupported(s) && s@ == echo::line_of(words)
}

proof fn read_by_name(name: Seq<char>, a: Seq<Seq<char>>, cmd: MpdCommand)
    requires
        name.len() > 0,
        forall|i: int| 0 <= i < name.len() ==> 'a' <= #[trigger] name[i] <= 'z',
        asks(seq![name] + a, cmd),
    ensures
        command::reads_command(name, a, echo::line_of(seq![name] + a), cmd),
{
    reveal(asks);
    let words = seq![name] + a;
    let line = echo::line_of(words);
    let none = Seq::<char>::empty();
    round_trip::line_reads_back(words, none);
    assert(line + none =~= line);
    assert(tokens::tokens(none) =~= Seq::<Seq<char>>::empty());
    assert(words + tokens::tokens(none) =~= words);
    assert(text::ascii_lower(name) =~= name);
    assert(text::ascii(name));
    assert(words.skip(1) =~= a);
}

/// A request that takes no argument is known by its name, whatever stands behind it.
#[verifier::spinoff_prover]
#[verifier::rlimit(40)]
pub proof fn plain_requests_are_known_by_name(a: Seq<Seq<char>>, cmd: MpdCommand)
    ensures
        asks(seq!["status"@] + a, cmd) ==> cmd == MpdCommand::Status,
        asks(seq!["stats"@] + a, cmd) ==> cmd == MpdCommand::Stats,
        asks(seq!["currentsong"@] + a, cmd) ==> cmd == MpdCommand::CurrentSong,
        asks(seq!["ping"@] + a, cmd) ==> cmd == MpdCommand::Ping,
        asks(seq!["noidle"@] + a, cmd) ==> cmd == MpdCommand::NoIdle,
        asks(seq!["stop"@] + a, cmd) ==> cmd == MpdCommand::Stop,
        asks(seq!["next"@] + a, cmd) ==> cmd == MpdCommand::Next,
        asks(seq!["previous"@] + a, cmd) ==> cmd == MpdCommand::Previous,
        asks(seq!["getvol"@] + a, cmd) ==> cmd == MpdCommand::GetVol,
        asks(seq!["clear"@] + a, cmd) ==> cmd == MpdCommand::Clear,
        asks(seq!["listplaylists"@] + a, cmd) ==> cmd == MpdCommand::ListPlaylists,
        asks(seq!["commands"@] + a, cmd) ==> cmd == MpdCommand::Commands,
        asks(seq!["notcommands"@] + a, cmd) ==> cmd == MpdCommand::NotCommands,
        asks(seq!["tagtypes"@] + a, cmd) ==> cmd == MpdCommand::TagTypes,
        asks(seq!["outputs"@] + a, cmd) ==> cmd == MpdCommand::Outputs,
        asks(seq!["decoders"@] + a, cmd) ==> cmd == MpdCommand::Decoders,
        asks(seq!["urlhandlers"@] + a, cmd) ==> cmd == MpdCommand::UrlHandlers,
{
    status_is_a_name(a, cmd);
    stats_is_a_name(a, cmd);
    currentsong_is_a_name(a, cmd);
    ping_is_a_name(a, cmd);
    noidle_is_a_name(a, cmd);
    stop_is_a_name(a, cmd);
    next_is_a_name(a, cmd);
    previous_is_a_name(a, cmd);
    getvol_is_a_name(a, cmd);
    clear_is_a_name(a, cmd);
    listplaylists_is_a_name(a, cmd);
    commands_is_a_name(a, cmd);
    notcommands_is_a_name(a, cmd);
    tagtypes_is_a_name(a, cmd);
    outputs_is_a_name(a, cmd);
    decoders_is_a_name(a, cmd);
    urlhandlers_is_a_name(a, cmd);
}

proof fn status_is_a_name(a: Seq<Seq<char>>, cmd: MpdCommand)
    ensures
        asks(seq!["status"@] + a, cmd) ==> cmd == MpdCommand::Status,
{
    if asks(seq!["status"@] + a, cmd) {
        command::names_of_requests();
        reveal_strlit("status");
        read_by_name("status"@, a, cmd);
    }
}

proof fn stats_is_a_name(a: Seq<Seq<char>>, cmd: MpdCommand)
    ensures
        asks(seq!["stats"@] + a, cmd) ==> cmd == MpdCommand::Stats,
{
    if asks(seq!["stats"@] + a, cmd) {
        command::names_of_requests();
        reveal_strlit("stats");
        read_by_name("stats"@, a, cmd);
    }
}

proof fn currentsong_is_a_name(a: Seq<Seq<char>>, cmd: MpdCommand)
    ensures
        asks(seq!["currentsong"@] + a, cmd) ==> cmd == MpdCommand::CurrentSong,
{
    if asks(seq!["currentsong"@] + a, cmd) {
        command::names_of_requests();
        reveal_strlit("currentsong");
        read_by_name("currentsong"@, a, cmd);
    }
}

proof fn ping_is_a_name(a: Seq<Seq<char>>, cmd: MpdCommand)
    ensures
        asks(seq!["ping"@] + a, cmd) ==> cmd == MpdCommand::Ping,
{
    if asks(seq!["ping"@] + a, cmd) {
        command::names_of_requests();
        reveal_strlit("ping");
        read_by_name("ping"@, a, cmd);
    }
}

proof fn noidle_is_a_name(a: Seq<Seq<char>>, cmd: MpdCommand)
    ensures
        asks(seq!["noidle"@] + a, cmd) ==> cmd == MpdCommand::NoIdle,
{
    if asks(seq!["noidle"@] + a, cmd) {
        command::names_of_requests();
        reveal_strlit("noidle");
        read_by_name("noidle"@, a, cmd);
    }
}

proof fn stop_is_a_name(a: Seq<Seq<char>>, cmd: MpdCommand)
    ensures
        asks(seq!["stop"@] + a, cmd) ==> cmd == MpdCommand::Stop,
{
    if asks(seq!["stop"@] + a, cmd) {
        command::names_of_requests();
        reveal_strlit("stop");
        read_by_name("stop"@, a, cmd);
    }
}

proof fn next_is_a_name(a: Seq<Seq<char>>, cmd: MpdCommand)
    ensures
        asks(seq!["next"@] + a, cmd) ==> cmd == MpdCommand::Next,
{
    if asks(seq!["next"@] + a, cmd) {
        command::names_of_requests();
        reveal_strlit("next");
        read_by_name("next"@, a, cmd);
    }
}

proof fn previous_is_a_name(a: Seq<Seq<char>>, cmd: MpdCommand)
    ensures
        asks(seq!["previous"@] + a, cmd) ==> cmd == MpdCommand::Previous,
{
    if asks(seq!["previous"@] + a, cmd) {
        command::names_of_requests();
        reveal_strlit("previous");
        read_by_name("previous"@, a, cmd);
    }
}

proof fn getvol_is_a_name(a: Seq<Seq<char>>, cmd: MpdCommand)
    ensures
        asks(seq!["getvol"@] + a, cmd) ==> cmd == MpdCommand::GetVol,
{
    if asks(seq!["getvol"@] + a, cmd) {
        command::names_of_requests();
        reveal_strlit("getvol");
        read_by_name("getvol"@, a, cmd);
    }
}

proof fn clear_is_a_name(a: Seq<Seq<char>>, cmd: MpdCommand)
    ensures
        asks(seq!["clear"@] + a, cmd) ==> cmd == MpdCommand::Clear,
{
    if asks(seq!["clear"@] + a, cmd) {
        command::names_of_requests();
        reveal_strlit("clear");
        read_by_name("clear"@, a, cmd);
    }
}

proof fn listplaylists_is_a_name(a: Seq<Seq<char>>, cmd: MpdCommand)
    ensures
        asks(seq!["listplaylists"@] + a, cmd) ==> cmd == MpdCommand::ListPlaylists,
{
    if asks(seq!["listplaylists"@] + a, cmd) {
        command::names_of_requests();
        reveal_strlit("listplaylists");
        read_by_name("listplaylists"@, a, cmd);
    }
}

proof fn commands_is_a_name(a: Seq<Seq<char>>, cmd: MpdCommand)
    ensures
        asks(seq!["commands"@] + a, cmd) ==> cmd == MpdCommand::Commands,
{
    if asks(seq!["commands"@] + a, cmd) {
        command::names_of_requests();
        reveal_strlit("commands");
        read_by_name("commands"@, a, cmd);
    }
}

proof fn notcommands_is_a_name(a: Seq<Seq<char>>, cmd: MpdCommand)
    ensures
        asks(seq!["notcommands"@] + a, cmd) ==> cmd == MpdCommand::NotCommands,
{
    if asks(seq!["notcommands"@] + a, cmd) {
        command::names_of_requests();
        reveal_strlit("notcommands");
        read_by_name("notcommands"@, a, cmd);
    }
}

proof fn tagtypes_is_a_name(a: Seq<Seq<char>>, cmd: MpdCommand)
    ensures
        asks(seq!["tagtypes"@] + a, cmd) ==> cmd == MpdCommand::TagTypes,
{
    if asks(seq!["tagtypes"@] + a, cmd) {
        command::names_of_requests();
        reveal_strlit("tagtypes");
        read_by_name("tagtypes"@, a, cmd);
    }
}

proof fn outputs_is_a_name(a: Seq<Seq<char>>, cmd: MpdCommand)
    ensures
        asks(seq!["outputs"@] + a, cmd) ==> cmd == MpdCommand::Outputs,
{
    if asks(seq!["outputs"@] + a, cmd) {
        command::names_of_requests();
        reveal_strlit("outputs");
        read_by_name("outputs"@, a, cmd);
    }
}

proof fn decoders_is_a_name(a: Seq<Seq<char>>, cmd: MpdCommand)
    ensures
        asks(seq!["decoders"@] + a, cmd) ==> cmd == MpdCommand::Decoders,
{
    if asks(seq!["decoders"@] + a, cmd) {
        command::names_of_requests();
        reveal_strlit("decoders");
        read_by_name("decoders"@, a, cmd);
    }
}

proof fn urlhandlers_is_a_name(a: Seq<Seq<char>>, cmd: MpdCommand)
    ensures
        asks(seq!["urlhandlers"@] + a, cmd) ==> cmd == MpdCommand::UrlHandlers,
{
    if asks(seq!["urlhandlers"@] + a, cmd) {
        command::names_of_requests();
        reveal_strlit("urlhandlers");
        read_by_name("urlhandlers"@, a, cmd);
    }
}

proof fn read_as_fade(a: Seq<Seq<char>>, cmd: MpdCommand)
    requires
        asks(seq!["fade"@] + a, cmd),
    ensures
        command::reads_fade(a, echo::line_of(seq!["fade"@] + a), cmd),
{
    command::names_of_requests();
    reveal_strlit("fade");
    read_by_name("fade"@, a, cmd);
}

proof fn read_as_plan(a: Seq<Seq<char>>, cmd: MpdCommand)
    requires
        asks(seq!["plan"@] + a, cmd),
    ensures
        command::reads_plan(a, echo::line_of(seq!["plan"@] + a), cmd),
{
    command::names_of_requests();
    reveal_strlit("plan");
    read_by_name("plan"@, a, cmd);
}

proof fn read_as_nl(a: Seq<Seq<char>>, cmd: MpdCommand)
    requires
        asks(seq!["nl"@] + a, cmd),
    ensures
        command::reads_nl(a, echo::line_of(seq!["nl"@] + a), cmd),
{
    command::names_of_requests();
    reveal_strlit("nl");
    read_by_name("nl"@, a, cmd);
}

proof fn read_as_sleep(a: Seq<Seq<char>>, cmd: MpdCommand)
    requires
        asks(seq!["sleep"@] + a, cmd),
    ensures
        command::reads_sleep(a, echo::line_of(seq!["sleep"@] + a), cmd),
{
    command::names_of_requests();
    reveal_strlit("sleep");
    read_by_name("sleep"@, a, cmd);
}

proof fn read_as_winddown(a: Seq<Seq<char>>, cmd: MpdCommand)
    requires
        asks(seq!["winddown"@] + a, cmd),
    ensures
        command::reads_winddown(a, echo::line_of(seq!["winddown"@] + a), cmd),
{
    command::names_of_requests();
    reveal_strlit("winddown");
    read_by_name("winddown"@, a, cmd);
}

proof fn read_as_wake(a: Seq<Seq<char>>, cmd: MpdCommand)
    requires
        asks(seq!["wake"@] + a, cmd),
    ensures
        command::reads_wake(a, echo::line_of(seq!["wake"@] + a), cmd),
{
    command::names_of_requests();
    reveal_strlit("wake");
    read_by_name("wake"@, a, cmd);
}

proof fn read_as_field(a: Seq<Seq<char>>, cmd: MpdCommand)
    requires
        asks(seq!["field"@] + a, cmd),
    ensures
        command::reads_field(a, cmd),
{
    command::names_of_requests();
    reveal_strlit("field");
    read_by_name("field"@, a, cmd);
}

proof fn read_as_sticker(a: Seq<Seq<char>>, cmd: MpdCommand)
    requires
        asks(seq!["sticker"@] + a, cmd),
    ensures
        (cmd matches MpdCommand::Sticker(s) && command::reads_sticker(a, s)),
{
    command::names_of_requests();
    reveal_strlit("sticker");
    read_by_name("sticker"@, a, cmd);
}

/// A place, an identity or a version that is written as a number arrives as that number; and
/// a request that can do without one asks for what it says without.
pub proof fn places_and_identities_arrive_as_written(n: usize, id: u64, cmd: MpdCommand)
    ensures
        asks(seq!["play"@, number::dec(n as nat)], cmd) ==> cmd == MpdCommand::Play(Some(n)),
        asks(seq!["play"@], cmd) ==> cmd == MpdCommand::Play(None),
        asks(seq!["playid"@, number::dec(id as nat)], cmd) ==> cmd == MpdCommand::PlayId(Some(id)),
        asks(seq!["playid"@], cmd) ==> cmd == MpdCommand::PlayId(None),
        asks(seq!["playlistid"@, number::dec(id as nat)], cmd)
            ==> cmd == MpdCommand::PlaylistId(Some(id)),
        asks(seq!["playlistid"@], cmd) ==> cmd == MpdCommand::PlaylistId(None),
        asks(seq!["plchanges"@, number::dec(id as nat)], cmd) ==> cmd == MpdCommand::PlChanges(id),
        asks(seq!["plchanges"@], cmd) ==> cmd == MpdCommand::PlChanges(0),
        asks(seq!["binarylimit"@, number::dec(n as nat)], cmd)
            ==> cmd == MpdCommand::BinaryLimit(n),
        asks(seq!["binarylimit"@], cmd) ==> cmd == MpdCommand::BinaryLimit(8192),
{
    play_at_a_place(n, id, cmd);
    play_as_it_is(n, id, cmd);
    play_an_entry(n, id, cmd);
    play_no_entry(n, id, cmd);
    show_an_entry(n, id, cmd);
    show_all_entries(n, id, cmd);
    changes_since(n, id, cmd);
    all_changes(n, id, cmd);
    limit_of_chunks(n, id, cmd);
    usual_limit_of_chunks(n, id, cmd);
}

proof fn play_at_a_place(n: usize, id: u64, cmd: MpdCommand)
    ensures
        asks(seq!["play"@, number::dec(n as nat)], cmd) ==> cmd == MpdCommand::Play(Some(n)),
{
    let words = seq!["play"@, number::dec(n as nat)];
    if asks(words, cmd) {
        let a = seq![number::dec(n as nat)];
        command::names_of_requests();
        reveal_strlit("play");
        assert(seq!["play"@] + a =~= words);
        read_by_name("play"@, a, cmd);
        number::dec_is_unsigned(n as nat, usize::MAX as nat);
    }
}

proof fn play_as_it_is(n: usize, id: u64, cmd: MpdCommand)
    ensures
        asks(seq!["play"@], cmd) ==> cmd == MpdCommand::Play(None),
{
    let words = seq!["play"@];
    if asks(words, cmd) {
        let a = Seq::<Seq<char>>::empty();
        command::names_of_requests();
        reveal_strlit("play");
        assert(seq!["play"@] + a =~= words);
        read_by_name("play"@, a, cmd);
    }
}

proof fn play_an_entry(n: usize, id: u64, cmd: MpdCommand)
    ensures
        asks(seq!["playid"@, number::dec(id as nat)], cmd) ==> cmd == MpdCommand::PlayId(Some(id)),
{
    let words = seq!["playid"@, number::dec(id as nat)];
    if asks(words, cmd) {
        let a = seq![number::dec(id as nat)];
        command::names_of_requests();
        reveal_strlit("playid");
        assert(seq!["playid"@] + a =~= words);
        read_by_name("playid"@, a, cmd);
        number::dec_is_unsigned(id as nat, u64::MAX as nat);
    }
}

proof fn play_no_entry(n: usize, id: u64, cmd: MpdCommand)
    ensures
        asks(seq!["playid"@], cmd) ==> cmd == MpdCommand::PlayId(None),
{
    let words = seq!["playid"@];
    if asks(words, cmd) {
        let a = Seq::<Seq<char>>::empty();
        command::names_of_requests();
        reveal_strlit("playid");
        assert(seq!["playid"@] + a =~= words);
        read_by_name("playid"@, a, cmd);
    }
}

proof fn show_an_entry(n: usize, id: u64, cmd: MpdCommand)
    ensures
        asks(seq!["playlistid"@, number::dec(id as nat)], cmd)
            ==> cmd == MpdCommand::PlaylistId(Some(id)),
{
    let words = seq!["playlistid"@, number::dec(id as nat)];
    if asks(words, cmd) {
        let a = seq![number::dec(id as nat)];
        command::names_of_requests();
        reveal_strlit("playlistid");
        assert(seq!["playlistid"@] + a =~= words);
        read_by_name("playlistid"@, a, cmd);
        number::dec_is_unsigned(id as nat, u64::MAX as nat);
    }
}

proof fn show_all_entries(n: usize, id: u64, cmd: MpdCommand)
    ensures
        asks(seq!["playlistid"@], cmd) ==> cmd == MpdCommand::PlaylistId(None),
{
    let words = seq!["playlistid"@];
    if asks(words, cmd) {
        let a = Seq::<Seq<char>>::empty();
        command::names_of_requests();
        reveal_strlit("playlistid");
        assert(seq!["playlistid"@] + a =~= words);
        read_by_name("playlistid"@, a, cmd);
    }
}

proof fn changes_since(n: usize, id: u64, cmd: MpdCommand)
    ensures
        asks(seq!["plchanges"@, number::dec(id as nat)], cmd) ==> cmd == MpdCommand::PlChanges(id),
{
    let words = seq!["plchanges"@, number::dec(id as nat)];
    if asks(words, cmd) {
        let a = seq![number::dec(id as nat)];
        command::names_of_requests();
        reveal_strlit("plchanges");
        assert(seq!["plchanges"@] + a =~= words);
        read_by_name("plchanges"@, a, cmd);
        number::dec_is_unsigned(id as nat, u64::MAX as nat);
    }
}

proof fn all_changes(n: usize, id: u64, cmd: MpdCommand)
    ensures
        asks(seq!["plchanges"@], cmd) ==> cmd == MpdCommand::PlChanges(0),
{
    let words = seq!["plchanges"@];
    if asks(words, cmd) {
        let a = Seq::<Seq<char>>::empty();
        command::names_of_requests();
        reveal_strlit("plchanges");
        assert(seq!["plchanges"@] + a =~= words);
        read_by_name("plchanges"@, a, cmd);
    }
}

proof fn limit_of_chunks(n: usize, id: u64, cmd: MpdCommand)
    ensures
        asks(seq!["binarylimit"@, number::dec(n as nat)], cmd)
            ==> cmd == MpdCommand::BinaryLimit(n),
{
    let words = seq!["binarylimit"@, number::dec(n as nat)];
    if asks(words, cmd) {
        let a = seq![number::dec(n as nat)];
        command::names_of_requests();
        reveal_strlit("binarylimit");
        assert(seq!["binarylimit"@] + a =~= words);
        read_by_name("binarylimit"@, a, cmd);
        number::dec_is_unsigned(n as nat, usize::MAX as nat);
    }
}

proof fn usual_limit_of_chunks(n: usize, id: u64, cmd: MpdCommand)
    ensures
        asks(seq!["binarylimit"@], cmd) ==> cmd == MpdCommand::BinaryLimit(8192),
{
    let words = seq!["binarylimit"@];
    if asks(words, cmd) {
        let a = Seq::<Seq<char>>::empty();
        command::names_of_requests();
        reveal_strlit("binarylimit");
        assert(seq!["binarylimit"@] + a =~= words);
        read_by_name("binarylimit"@, a, cmd);
    }
}

/// A volume setting that is written as a number arrives as that number.
pub proof fn a_volume_arrives_as_written(n: u8, cmd: MpdCommand)
    ensures
        asks(seq!["setvol"@, number::dec(n as nat)], cmd) ==> cmd == MpdCommand::SetVol(n),
        asks(seq!["setvol"@], cmd) ==> refused(seq!["setvol"@], cmd),
{
    set_a_volume(n, cmd);
    no_volume_is_set(n, cmd);
}

proof fn set_a_volume(n: u8, cmd: MpdCommand)
    ensures
        asks(seq!["setvol"@, number::dec(n as nat)], cmd) ==> cmd == MpdCommand::SetVol(n),
{
    let words = seq!["setvol"@, number::dec(n as nat)];
    if asks(words, cmd) {
        let a = seq![number::dec(n as nat)];
        command::names_of_requests();
        reveal_strlit("setvol");
        assert(seq!["setvol"@] + a =~= words);
        read_by_name("setvol"@, a, cmd);
        number::dec_is_unsigned(n as nat, u8::MAX as nat);
    }
}

proof fn no_volume_is_set(n: u8, cmd: MpdCommand)
    ensures
        asks(seq!["setvol"@], cmd) ==> refused(seq!["setvol"@], cmd),
{
    let words = seq!["setvol"@];
    if asks(words, cmd) {
        let a = Seq::<Seq<char>>::empty();
        command::names_of_requests();
        reveal_strlit("setvol");
        assert(seq!["setvol"@] + a =~= words);
        read_by_name("setvol"@, a, cmd);
    }
}

/// A position to seek to arrives as it was written, to the billionth of a second, for the place or the
/// entry that was named. Behind a sign it is a distance from where playback stands, and only
/// there.
pub proof fn positions_arrive_as_written(n: usize, id: u64, k: nat, cmd: MpdCommand)
    requires
        k <= number::REAL_LIMIT,
    ensures
        asks(seq!["seek"@, number::dec(n as nat), number::show_billionths(k)], cmd)
            ==> cmd == (MpdCommand::Seek { song_pos: n, secs: Real::Finite(k as i128) }),
        asks(seq!["seekid"@, number::dec(id as nat), number::show_billionths(k)], cmd)
            ==> cmd == (MpdCommand::SeekId { id, secs: Real::Finite(k as i128) }),
        asks(seq!["seekcur"@, number::show_billionths(k)], cmd)
            ==> cmd == (MpdCommand::SeekCur { secs: Real::Finite(k as i128), relative: false }),
        asks(seq!["seekcur"@, seq!['+'] + number::show_billionths(k)], cmd)
            ==> cmd == (MpdCommand::SeekCur { secs: Real::Finite(k as i128), relative: true }),
        asks(seq!["seekcur"@, seq!['-'] + number::show_billionths(k)], cmd)
            ==> cmd == (MpdCommand::SeekCur { secs: Real::Finite((-(k as int)) as i128),
            relative: true }),
{
    seek_at_a_place(n, id, k, cmd);
    seek_in_an_entry(n, id, k, cmd);
    seek_to(n, id, k, cmd);
    seek_ahead(n, id, k, cmd);
    seek_back(n, id, k, cmd);
}

proof fn seek_at_a_place(n: usize, id: u64, k: nat, cmd: MpdCommand)
    requires
        k <= number::REAL_LIMIT,
    ensures
        asks(seq!["seek"@, number::dec(n as nat), number::show_billionths(k)], cmd)
            ==> cmd == (MpdCommand::Seek { song_pos: n, secs: Real::Finite(k as i128) }),
{
    let words = seq!["seek"@, number::dec(n as nat), number::show_billionths(k)];
    if asks(words, cmd) {
        let a = seq![number::dec(n as nat), number::show_billionths(k)];
        command::names_of_requests();
        reveal_strlit("seek");
        assert(seq!["seek"@] + a =~= words);
        read_by_name("seek"@, a, cmd);
        number::dec_is_unsigned(n as nat, usize::MAX as nat);
        number::shown_billionths_read_back(k);
    }
}

proof fn seek_in_an_entry(n: usize, id: u64, k: nat, cmd: MpdCommand)
    requires
        k <= number::REAL_LIMIT,
    ensures
        asks(seq!["seekid"@, number::dec(id as nat), number::show_billionths(k)], cmd)
            ==> cmd == (MpdCommand::SeekId { id, secs: Real::Finite(k as i128) }),
{
    let words = seq!["seekid"@, number::dec(id as nat), number::show_billionths(k)];
    if asks(words, cmd) {
        let a = seq![number::dec(id as nat), number::show_billionths(k)];
        command::names_of_requests();
        reveal_strlit("seekid");
        assert(seq!["seekid"@] + a =~= words);
        read_by_name("seekid"@, a, cmd);
        number::dec_is_unsigned(id as nat, u64::MAX as nat);
        number::shown_billionths_read_back(k);
    }
}

proof fn seek_to(n: usize, id: u64, k: nat, cmd: MpdCommand)
    requires
        k <= number::REAL_LIMIT,
    ensures
        asks(seq!["seekcur"@, number::show_billionths(k)], cmd)
            ==> cmd == (MpdCommand::SeekCur { secs: Real::Finite(k as i128), relative: false }),
{
    let words = seq!["seekcur"@, number::show_billionths(k)];
    if asks(words, cmd) {
        let a = seq![number::show_billionths(k)];
        command::names_of_requests();
        reveal_strlit("seekcur");
        assert(seq!["seekcur"@] + a =~= words);
        read_by_name("seekcur"@, a, cmd);
        number::shown_billionths_read_back(k);
        reveal_strlit("+");
        reveal_strlit("-");
        let s = number::show_billionths(k);
        assert(text::is_digit(s[0]) || s[0] == '.');
        assert(text::begins(s, "+"@) ==> s.subrange(0, 1)[0] == s[0]);
        assert(text::begins(s, "-"@) ==> s.subrange(0, 1)[0] == s[0]);
    }
}

proof fn seek_ahead(n: usize, id: u64, k: nat, cmd: MpdCommand)
    requires
        k <= number::REAL_LIMIT,
    ensures
        asks(seq!["seekcur"@, seq!['+'] + number::show_billionths(k)], cmd)
            ==> cmd == (MpdCommand::SeekCur { secs: Real::Finite(k as i128), relative: true }),
{
    let words = seq!["seekcur"@, seq!['+'] + number::show_billionths(k)];
    if asks(words, cmd) {
        let a = seq![seq!['+'] + number::show_billionths(k)];
        command::names_of_requests();
        reveal_strlit("seekcur");
        assert(seq!["seekcur"@] + a =~= words);
        read_by_name("seekcur"@, a, cmd);
        number::shown_billionths_read_back(k);
        reveal(number::number_of);
        reveal_strlit("+");
        let t = number::show_billionths(k);
        let s = seq!['+'] + t;
        assert(s.skip(1) =~= t);
        assert(s.subrange(0, 1) =~= "+"@);
        assert(t[0] != '+' && t[0] != '-');
        assert(text::begins(s, "+"@));
    }
}

proof fn seek_back(n: usize, id: u64, k: nat, cmd: MpdCommand)
    requires
        k <= number::REAL_LIMIT,
    ensures
        asks(seq!["seekcur"@, seq!['-'] + number::show_billionths(k)], cmd)
            ==> cmd == (MpdCommand::SeekCur { secs: Real::Finite((-(k as int)) as i128),
            relative: true }),
{
    let words = seq!["seekcur"@, seq!['-'] + number::show_billionths(k)];
    if asks(words, cmd) {
        let a = seq![seq!['-'] + number::show_billionths(k)];
        command::names_of_requests();
        reveal_strlit("seekcur");
        assert(seq!["seekcur"@] + a =~= words);
        read_by_name("seekcur"@, a, cmd);
        number::shown_billionths_read_back(k);
        reveal(number::number_of);
        reveal_strlit("-");
        let t = number::show_billionths(k);
        let s = seq!['-'] + t;
        assert(s.skip(1) =~= t);
        assert(s.subrange(0, 1) =~= "-"@);
        assert(text::begins(s, "-"@));
    }
}

/// A mode is set by 1 and cleared by 0, and so is the pause, which is turned where nothing is
/// said; the knob turns the way that is said.
pub proof fn one_is_on_and_zero_is_off(cmd: MpdCommand)
    ensures
        asks(seq!["pause"@, "1"@], cmd) ==> cmd == MpdCommand::Pause(Some(true)),
        asks(seq!["pause"@, "0"@], cmd) ==> cmd == MpdCommand::Pause(Some(false)),
        asks(seq!["random"@, "1"@], cmd) ==> cmd == MpdCommand::Random(true),
        asks(seq!["random"@, "0"@], cmd) ==> cmd == MpdCommand::Random(false),
        asks(seq!["repeat"@, "1"@], cmd) ==> cmd == MpdCommand::Repeat(true),
        asks(seq!["repeat"@, "0"@], cmd) ==> cmd == MpdCommand::Repeat(false),
        asks(seq!["consume"@, "1"@], cmd) ==> cmd == MpdCommand::Consume(true),
        asks(seq!["consume"@, "0"@], cmd) ==> cmd == MpdCommand::Consume(false),
        asks(seq!["single"@, "1"@], cmd) ==> cmd == MpdCommand::Single(true),
        asks(seq!["single"@, "0"@], cmd) ==> cmd == MpdCommand::Single(false),
        asks(seq!["pause"@], cmd) ==> cmd == MpdCommand::Pause(None),
        asks(seq!["single"@, "oneshot"@], cmd) ==> cmd == MpdCommand::Single(true),
        asks(seq!["knob"@, "up"@], cmd) ==> cmd == MpdCommand::Knob(KnobDir::Up),
        asks(seq!["knob"@, "down"@], cmd) ==> cmd == MpdCommand::Knob(KnobDir::Down),
{
    pause_is_on(cmd);
    pause_is_off(cmd);
    random_is_on(cmd);
    random_is_off(cmd);
    repeat_is_on(cmd);
    repeat_is_off(cmd);
    consume_is_on(cmd);
    consume_is_off(cmd);
    single_is_on(cmd);
    single_is_off(cmd);
    pause_is_turned(cmd);
    single_once(cmd);
    knob_up(cmd);
    knob_down(cmd);
}

proof fn pause_is_on(cmd: MpdCommand)
    ensures
        asks(seq!["pause"@, "1"@], cmd) ==> cmd == MpdCommand::Pause(Some(true)),
{
    let words = seq!["pause"@, "1"@];
    if asks(words, cmd) {
        let a = seq!["1"@];
        command::names_of_requests();
        reveal_strlit("pause");
        assert(seq!["pause"@] + a =~= words);
        read_by_name("pause"@, a, cmd);
        reveal_strlit("0");
        reveal_strlit("1");
        assert("0"@[0] != "1"@[0]);
    }
}

proof fn pause_is_off(cmd: MpdCommand)
    ensures
        asks(seq!["pause"@, "0"@], cmd) ==> cmd == MpdCommand::Pause(Some(false)),
{
    let words = seq!["pause"@, "0"@];
    if asks(words, cmd) {
        let a = seq!["0"@];
        command::names_of_requests();
        reveal_strlit("pause");
        assert(seq!["pause"@] + a =~= words);
        read_by_name("pause"@, a, cmd);
        reveal_strlit("0");
        reveal_strlit("1");
        assert("0"@[0] != "1"@[0]);
    }
}

proof fn random_is_on(cmd: MpdCommand)
    ensures
        asks(seq!["random"@, "1"@], cmd) ==> cmd == MpdCommand::Random(true),
{
    let words = seq!["random"@, "1"@];
    if asks(words, cmd) {
        let a = seq!["1"@];
        command::names_of_requests();
        reveal_strlit("random");
        assert(seq!["random"@] + a =~= words);
        read_by_name("random"@, a, cmd);
        reveal_strlit("0");
        reveal_strlit("1");
        assert("0"@[0] != "1"@[0]);
    }
}

proof fn random_is_off(cmd: MpdCommand)
    ensures
        asks(seq!["random"@, "0"@], cmd) ==> cmd == MpdCommand::Random(false),
{
    let words = seq!["random"@, "0"@];
    if asks(words, cmd) {
        let a = seq!["0"@];
        command::names_of_requests();
        reveal_strlit("random");
        assert(seq!["random"@] + a =~= words);
        read_by_name("random"@, a, cmd);
        reveal_strlit("0");
        reveal_strlit("1");
        assert("0"@[0] != "1"@[0]);
    }
}

proof fn repeat_is_on(cmd: MpdCommand)
    ensures
        asks(seq!["repeat"@, "1"@], cmd) ==> cmd == MpdCommand::Repeat(true),
{
    let words = seq!["repeat"@, "1"@];
    if asks(words, cmd) {
        let a = seq!["1"@];
        command::names_of_requests();
        reveal_strlit("repeat");
        assert(seq!["repeat"@] + a =~= words);
        read_by_name("repeat"@, a, cmd);
        reveal_strlit("0");
        reveal_strlit("1");
        assert("0"@[0] != "1"@[0]);
    }
}

proof fn repeat_is_off(cmd: MpdCommand)
    ensures
        asks(seq!["repeat"@, "0"@], cmd) ==> cmd == MpdCommand::Repeat(false),
{
    let words = seq!["repeat"@, "0"@];
    if asks(words, cmd) {
        let a = seq!["0"@];
        command::names_of_requests();
        reveal_strlit("repeat");
        assert(seq!["repeat"@] + a =~= words);
        read_by_name("repeat"@, a, cmd);
        reveal_strlit("0");
        reveal_strlit("1");
        assert("0"@[0] != "1"@[0]);
    }
}

proof fn consume_is_on(cmd: MpdCommand)
    ensures
        asks(seq!["consume"@, "1"@], cmd) ==> cmd == MpdCommand::Consume(true),
{
    let words = seq!["consume"@, "1"@];
    if asks(words, cmd) {
        let a = seq!["1"@];
        command::names_of_requests();
        reveal_strlit("consume");
        assert(seq!["consume"@] + a =~= words);
        read_by_name("consume"@, a, cmd);
        reveal_strlit("0");
        reveal_strlit("1");
        assert("0"@[0] != "1"@[0]);
    }
}

proof fn consume_is_off(cmd: MpdCommand)
    ensures
        asks(seq!["consume"@, "0"@], cmd) ==> cmd == MpdCommand::Consume(false),
{
    let words = seq!["consume"@, "0"@];
    if asks(words, cmd) {
        let a = seq!["0"@];
        command::names_of_requests();
        reveal_strlit("consume");
        assert(seq!["consume"@] + a =~= words);
        read_by_name("consume"@, a, cmd);
        reveal_strlit("0");
        reveal_strlit("1");
        assert("0"@[0] != "1"@[0]);
    }
}

proof fn single_is_on(cmd: MpdCommand)
    ensures
        asks(seq!["single"@, "1"@], cmd) ==> cmd == MpdCommand::Single(true),
{
    let words = seq!["single"@, "1"@];
    if asks(words, cmd) {
        let a = seq!["1"@];
        command::names_of_requests();
        reveal_strlit("single");
        assert(seq!["single"@] + a =~= words);
        read_by_name("single"@, a, cmd);
        reveal_strlit("0");
        reveal_strlit("1");
        assert("0"@[0] != "1"@[0]);
        reveal_strlit("oneshot");
    }
}

proof fn single_is_off(cmd: MpdCommand)
    ensures
        asks(seq!["single"@, "0"@], cmd) ==> cmd == MpdCommand::Single(false),
{
    let words = seq!["single"@, "0"@];
    if asks(words, cmd) {
        let a = seq!["0"@];
        command::names_of_requests();
        reveal_strlit("single");
        assert(seq!["single"@] + a =~= words);
        read_by_name("single"@, a, cmd);
        reveal_strlit("0");
        reveal_strlit("1");
        assert("0"@[0] != "1"@[0]);
        reveal_strlit("oneshot");
    }
}

proof fn pause_is_turned(cmd: MpdCommand)
    ensures
        asks(seq!["pause"@], cmd) ==> cmd == MpdCommand::Pause(None),
{
    let words = seq!["pause"@];
    if asks(words, cmd) {
        let a = Seq::<Seq<char>>::empty();
        command::names_of_requests();
        reveal_strlit("pause");
        assert(seq!["pause"@] + a =~= words);
        read_by_name("pause"@, a, cmd);
        reveal_strlit("0");
        reveal_strlit("1");
    }
}

proof fn single_once(cmd: MpdCommand)
    ensures
        asks(seq!["single"@, "oneshot"@], cmd) ==> cmd == MpdCommand::Single(true),
{
    let words = seq!["single"@, "oneshot"@];
    if asks(words, cmd) {
        let a = seq!["oneshot"@];
        command::names_of_requests();
        reveal_strlit("single");
        assert(seq!["single"@] + a =~= words);
        read_by_name("single"@, a, cmd);
    }
}

proof fn knob_up(cmd: MpdCommand)
    ensures
        asks(seq!["knob"@, "up"@], cmd) ==> cmd == MpdCommand::Knob(KnobDir::Up),
{
    let words = seq!["knob"@, "up"@];
    if asks(words, cmd) {
        let a = seq!["up"@];
        command::names_of_requests();
        reveal_strlit("knob");
        assert(seq!["knob"@] + a =~= words);
        read_by_name("knob"@, a, cmd);
    }
}

proof fn knob_down(cmd: MpdCommand)
    ensures
        asks(seq!["knob"@, "down"@], cmd) ==> cmd == MpdCommand::Knob(KnobDir::Down),
{
    let words = seq!["knob"@, "down"@];
    if asks(words, cmd) {
        let a = seq!["down"@];
        command::names_of_requests();
        reveal_strlit("knob");
        assert(seq!["knob"@] + a =~= words);
        read_by_name("knob"@, a, cmd);
        reveal_strlit("up");
        reveal_strlit("down");
    }
}

/// A text, whatever it holds, arrives as it was written: blanks, quotes and backslashes are
/// no end to it.
pub proof fn texts_arrive_as_written(x: Seq<char>, y: Seq<char>, cmd: MpdCommand)
    ensures
        asks(seq!["add"@, x], cmd) ==> (cmd matches MpdCommand::Add(s) && s@ == x),
        asks(seq!["delete"@, x], cmd) ==> (cmd matches MpdCommand::Delete(Some(s)) && s@ == x),
        asks(seq!["playlistinfo"@, x], cmd) ==> (cmd matches MpdCommand::PlaylistInfo(Some(s))
            && s@ == x),
        asks(seq!["playlistinfo"@], cmd) ==> (cmd matches MpdCommand::PlaylistInfo(s) && s is None),
        asks(seq!["listplaylistinfo"@, x], cmd) ==> (cmd matches MpdCommand::ListPlaylistInfo(s)
            && s@ == x),
        asks(seq!["load"@, x], cmd) ==> (cmd matches MpdCommand::Load(s) && s@ == x),
        asks(seq!["save"@, x], cmd) ==> if x.len() > 0 { cmd matches MpdCommand::Save(s)
            && s@ == x } else { refused(seq!["save"@, x], cmd) },
        asks(seq!["playlistadd"@, x, y], cmd) ==> (cmd matches MpdCommand::PlaylistAdd(s, t)
            && s@ == x && t@ == y),
        asks(seq!["playlistclear"@, x], cmd) ==> (cmd matches MpdCommand::PlaylistClear(s)
            && s@ == x),
        asks(seq!["lsinfo"@, x], cmd) ==> (cmd matches MpdCommand::LsInfo(Some(s)) && s@ == x),
        asks(seq!["lsinfo"@], cmd) ==> (cmd matches MpdCommand::LsInfo(s) && s is None),
        asks(seq!["listall"@, x], cmd) ==> (cmd matches MpdCommand::ListAllInfo(Some(s))
            && s@ == x),
        asks(seq!["listallinfo"@, x], cmd) ==> (cmd matches MpdCommand::ListAllInfo(Some(s))
            && s@ == x),
        asks(seq!["idle"@, x, y], cmd) ==> (cmd matches MpdCommand::Idle(v) && v@.len() == 2
            && v@[0]@ == x && v@[1]@ == y),
{
    add_a_track(x, y, cmd);
    delete_of_the_queue(x, y, cmd);
    show_of_the_queue(x, y, cmd);
    show_the_queue(x, y, cmd);
    show_a_playlist(x, y, cmd);
    load_a_playlist(x, y, cmd);
    save_a_playlist(x, y, cmd);
    add_to_a_playlist(x, y, cmd);
    clear_a_playlist(x, y, cmd);
    browse(x, y, cmd);
    browse_from_the_top(x, y, cmd);
    list_below(x, y, cmd);
    list_more_below(x, y, cmd);
    wait_for_two(x, y, cmd);
}

proof fn add_a_track(x: Seq<char>, y: Seq<char>, cmd: MpdCommand)
    ensures
        asks(seq!["add"@, x], cmd) ==> (cmd matches MpdCommand::Add(s) && s@ == x),
{
    let words = seq!["add"@, x];
    if asks(words, cmd) {
        let a = seq![x];
        command::names_of_requests();
        reveal_strlit("add");
        assert(seq!["add"@] + a =~= words);
        read_by_name("add"@, a, cmd);
    }
}

proof fn delete_of_the_queue(x: Seq<char>, y: Seq<char>, cmd: MpdCommand)
    ensures
        asks(seq!["delete"@, x], cmd) ==> (cmd matches MpdCommand::Delete(Some(s)) && s@ == x),
{
    let words = seq!["delete"@, x];
    if asks(words, cmd) {
        let a = seq![x];
        command::names_of_requests();
        reveal_strlit("delete");
        assert(seq!["delete"@] + a =~= words);
        read_by_name("delete"@, a, cmd);
    }
}

proof fn show_of_the_queue(x: Seq<char>, y: Seq<char>, cmd: MpdCommand)
    ensures
        asks(seq!["playlistinfo"@, x], cmd) ==> (cmd matches MpdCommand::PlaylistInfo(Some(s))
            && s@ == x),
{
    let words = seq!["playlistinfo"@, x];
    if asks(words, cmd) {
        let a = seq![x];
        command::names_of_requests();
        reveal_strlit("playlistinfo");
        assert(seq!["playlistinfo"@] + a =~= words);
        read_by_name("playlistinfo"@, a, cmd);
    }
}

proof fn show_the_queue(x: Seq<char>, y: Seq<char>, cmd: MpdCommand)
    ensures
        asks(seq!["playlistinfo"@], cmd) ==> (cmd matches MpdCommand::PlaylistInfo(s) && s is None),
{
    let words = seq!["playlistinfo"@];
    if asks(words, cmd) {
        let a = Seq::<Seq<char>>::empty();
        command::names_of_requests();
        reveal_strlit("playlistinfo");
        assert(seq!["playlistinfo"@] + a =~= words);
        read_by_name("playlistinfo"@, a, cmd);
    }
}

proof fn show_a_playlist(x: Seq<char>, y: Seq<char>, cmd: MpdCommand)
    ensures
        asks(seq!["listplaylistinfo"@, x], cmd) ==> (cmd matches MpdCommand::ListPlaylistInfo(s)
            && s@ == x),
{
    let words = seq!["listplaylistinfo"@, x];
    if asks(words, cmd) {
        let a = seq![x];
        command::names_of_requests();
        reveal_strlit("listplaylistinfo");
        assert(seq!["listplaylistinfo"@] + a =~= words);
        read_by_name("listplaylistinfo"@, a, cmd);
    }
}

proof fn load_a_playlist(x: Seq<char>, y: Seq<char>, cmd: MpdCommand)
    ensures
        asks(seq!["load"@, x], cmd) ==> (cmd matches MpdCommand::Load(s) && s@ == x),
{
    let words = seq!["load"@, x];
    if asks(words, cmd) {
        let a = seq![x];
        command::names_of_requests();
        reveal_strlit("load");
        assert(seq!["load"@] + a =~= words);
        read_by_name("load"@, a, cmd);
    }
}

proof fn save_a_playlist(x: Seq<char>, y: Seq<char>, cmd: MpdCommand)
    ensures
        asks(seq!["save"@, x], cmd) ==> if x.len() > 0 { cmd matches MpdCommand::Save(s)
            && s@ == x } else { refused(seq!["save"@, x], cmd) },
{
    let words = seq!["save"@, x];
    if asks(words, cmd) {
        let a = seq![x];
        command::names_of_requests();
        reveal_strlit("save");
        assert(seq!["save"@] + a =~= words);
        read_by_name("save"@, a, cmd);
    }
}

proof fn add_to_a_playlist(x: Seq<char>, y: Seq<char>, cmd: MpdCommand)
    ensures
        asks(seq!["playlistadd"@, x, y], cmd) ==> (cmd matches MpdCommand::PlaylistAdd(s, t)
            && s@ == x && t@ == y),
{
    let words = seq!["playlistadd"@, x, y];
    if asks(words, cmd) {
        let a = seq![x, y];
        command::names_of_requests();
        reveal_strlit("playlistadd");
        assert(seq!["playlistadd"@] + a =~= words);
        read_by_name("playlistadd"@, a, cmd);
    }
}

proof fn clear_a_playlist(x: Seq<char>, y: Seq<char>, cmd: MpdCommand)
    ensures
        asks(seq!["playlistclear"@, x], cmd) ==> (cmd matches MpdCommand::PlaylistClear(s)
            && s@ == x),
{
    let words = seq!["playlistclear"@, x];
    if asks(words, cmd) {
        let a = seq![x];
        command::names_of_requests();
        reveal_strlit("playlistclear");
        assert(seq!["playlistclear"@] + a =~= words);
        read_by_name("playlistclear"@, a, cmd);
    }
}

proof fn browse(x: Seq<char>, y: Seq<char>, cmd: MpdCommand)
    ensures
        asks(seq!["lsinfo"@, x], cmd) ==> (cmd matches MpdCommand::LsInfo(Some(s)) && s@ == x),
{
    let words = seq!["lsinfo"@, x];
    if asks(words, cmd) {
        let a = seq![x];
        command::names_of_requests();
        reveal_strlit("lsinfo");
        assert(seq!["lsinfo"@] + a =~= words);
        read_by_name("lsinfo"@, a, cmd);
    }
}

proof fn browse_from_the_top(x: Seq<char>, y: Seq<char>, cmd: MpdCommand)
    ensures
        asks(seq!["lsinfo"@], cmd) ==> (cmd matches MpdCommand::LsInfo(s) && s is None),
{
    let words = seq!["lsinfo"@];
    if asks(words, cmd) {
        let a = Seq::<Seq<char>>::empty();
        command::names_of_requests();
        reveal_strlit("lsinfo");
        assert(seq!["lsinfo"@] + a =~= words);
        read_by_name("lsinfo"@, a, cmd);
    }
}

proof fn list_below(x: Seq<char>, y: Seq<char>, cmd: MpdCommand)
    ensures
        asks(seq!["listall"@, x], cmd) ==> (cmd matches MpdCommand::ListAllInfo(Some(s))
            && s@ == x),
{
    let words = seq!["listall"@, x];
    if asks(words, cmd) {
        let a = seq![x];
        command::names_of_requests();
        reveal_strlit("listall");
        assert(seq!["listall"@] + a =~= words);
        read_by_name("listall"@, a, cmd);
    }
}

proof fn list_more_below(x: Seq<char>, y: Seq<char>, cmd: MpdCommand)
    ensures
        asks(seq!["listallinfo"@, x], cmd) ==> (cmd matches MpdCommand::ListAllInfo(Some(s))
            && s@ == x),
{
    let words = seq!["listallinfo"@, x];
    if asks(words, cmd) {
        let a = seq![x];
        command::names_of_requests();
        reveal_strlit("listallinfo");
        assert(seq!["listallinfo"@] + a =~= words);
        read_by_name("listallinfo"@, a, cmd);
    }
}

proof fn wait_for_two(x: Seq<char>, y: Seq<char>, cmd: MpdCommand)
    ensures
        asks(seq!["idle"@, x, y], cmd) ==> (cmd matches MpdCommand::Idle(v) && v@.len() == 2
            && v@[0]@ == x && v@[1]@ == y),
{
    let words = seq!["idle"@, x, y];
    if asks(words, cmd) {
        let a = seq![x, y];
        command::names_of_requests();
        reveal_strlit("idle");
        assert(seq!["idle"@] + a =~= words);
        read_by_name("idle"@, a, cmd);
        if let MpdCommand::Idle(v) = cmd {
            assert(text::texts(v@).len() == 2);
            assert(text::texts(v@)[0] == x && text::texts(v@)[1] == y);
        }
    }
}

/// What is named and the place in it arrive together, each as it was written; where no place is
/// said, it is the start, or the end of the queue.
pub proof fn a_text_and_a_place_arrive_as_written(x: Seq<char>, n: usize, cmd: MpdCommand)
    ensures
        asks(seq!["addid"@, x, number::dec(n as nat)], cmd) ==> (cmd matches MpdCommand::AddId(s, p)
            && s@ == x && p == Some(n)),
        asks(seq!["addid"@, x], cmd) ==> (cmd matches MpdCommand::AddId(s, p) && s@ == x
            && p is None),
        asks(seq!["playlistdelete"@, x, number::dec(n as nat)], cmd)
            ==> (cmd matches MpdCommand::PlaylistDelete(s, p) && s@ == x && p == n),
        asks(seq!["albumart"@, x, number::dec(n as nat)], cmd)
            ==> (cmd matches MpdCommand::AlbumArt(s, p) && s@ == x && p == n),
        asks(seq!["albumart"@, x], cmd) ==> (cmd matches MpdCommand::AlbumArt(s, p) && s@ == x
            && p == 0),
        asks(seq!["readpicture"@, x, number::dec(n as nat)], cmd)
            ==> (cmd matches MpdCommand::ReadPicture(s, p) && s@ == x && p == n),
        asks(seq!["readpicture"@, x], cmd) ==> (cmd matches MpdCommand::ReadPicture(s, p) && s@ == x
            && p == 0),
{
    add_at_a_place(x, n, cmd);
    add_at_the_end(x, n, cmd);
    delete_from_a_playlist(x, n, cmd);
    cover_from(x, n, cmd);
    cover_from_the_start(x, n, cmd);
    picture_from(x, n, cmd);
    picture_from_the_start(x, n, cmd);
}

proof fn add_at_a_place(x: Seq<char>, n: usize, cmd: MpdCommand)
    ensures
        asks(seq!["addid"@, x, number::dec(n as nat)], cmd) ==> (cmd matches MpdCommand::AddId(s, p)
            && s@ == x && p == Some(n)),
{
    let words = seq!["addid"@, x, number::dec(n as nat)];
    if asks(words, cmd) {
        let a = seq![x, number::dec(n as nat)];
        command::names_of_requests();
        reveal_strlit("addid");
        assert(seq!["addid"@] + a =~= words);
        read_by_name("addid"@, a, cmd);
        number::dec_is_unsigned(n as nat, usize::MAX as nat);
    }
}

proof fn add_at_the_end(x: Seq<char>, n: usize, cmd: MpdCommand)
    ensures
        asks(seq!["addid"@, x], cmd) ==> (cmd matches MpdCommand::AddId(s, p) && s@ == x
            && p is None),
{
    let words = seq!["addid"@, x];
    if asks(words, cmd) {
        let a = seq![x];
        command::names_of_requests();
        reveal_strlit("addid");
        assert(seq!["addid"@] + a =~= words);
        read_by_name("addid"@, a, cmd);
    }
}

proof fn delete_from_a_playlist(x: Seq<char>, n: usize, cmd: MpdCommand)
    ensures
        asks(seq!["playlistdelete"@, x, number::dec(n as nat)], cmd)
            ==> (cmd matches MpdCommand::PlaylistDelete(s, p) && s@ == x && p == n),
{
    let words = seq!["playlistdelete"@, x, number::dec(n as nat)];
    if asks(words, cmd) {
        let a = seq![x, number::dec(n as nat)];
        command::names_of_requests();
        reveal_strlit("playlistdelete");
        assert(seq!["playlistdelete"@] + a =~= words);
        read_by_name("playlistdelete"@, a, cmd);
        number::dec_is_unsigned(n as nat, usize::MAX as nat);
    }
}

proof fn cover_from(x: Seq<char>, n: usize, cmd: MpdCommand)
    ensures
        asks(seq!["albumart"@, x, number::dec(n as nat)], cmd)
            ==> (cmd matches MpdCommand::AlbumArt(s, p) && s@ == x && p == n),
{
    let words = seq!["albumart"@, x, number::dec(n as nat)];
    if asks(words, cmd) {
        let a = seq![x, number::dec(n as nat)];
        command::names_of_requests();
        reveal_strlit("albumart");
        assert(seq!["albumart"@] + a =~= words);
        read_by_name("albumart"@, a, cmd);
        number::dec_is_unsigned(n as nat, usize::MAX as nat);
    }
}

proof fn cover_from_the_start(x: Seq<char>, n: usize, cmd: MpdCommand)
    ensures
        asks(seq!["albumart"@, x], cmd) ==> (cmd matches MpdCommand::AlbumArt(s, p) && s@ == x
            && p == 0),
{
    let words = seq!["albumart"@, x];
    if asks(words, cmd) {
        let a = seq![x];
        command::names_of_requests();
        reveal_strlit("albumart");
        assert(seq!["albumart"@] + a =~= words);
        read_by_name("albumart"@, a, cmd);
    }
}

proof fn picture_from(x: Seq<char>, n: usize, cmd: MpdCommand)
    ensures
        asks(seq!["readpicture"@, x, number::dec(n as nat)], cmd)
            ==> (cmd matches MpdCommand::ReadPicture(s, p) && s@ == x && p == n),
{
    let words = seq!["readpicture"@, x, number::dec(n as nat)];
    if asks(words, cmd) {
        let a = seq![x, number::dec(n as nat)];
        command::names_of_requests();
        reveal_strlit("readpicture");
        assert(seq!["readpicture"@] + a =~= words);
        read_by_name("readpicture"@, a, cmd);
        number::dec_is_unsigned(n as nat, usize::MAX as nat);
    }
}

proof fn picture_from_the_start(x: Seq<char>, n: usize, cmd: MpdCommand)
    ensures
        asks(seq!["readpicture"@, x], cmd) ==> (cmd matches MpdCommand::ReadPicture(s, p) && s@ == x
            && p == 0),
{
    let words = seq!["readpicture"@, x];
    if asks(words, cmd) {
        let a = seq![x];
        command::names_of_requests();
        reveal_strlit("readpicture");
        assert(seq!["readpicture"@] + a =~= words);
        read_by_name("readpicture"@, a, cmd);
    }
}

/// Where a number is asked for, a text with anything but digits in it is refused and never taken
/// for another number; only the changes of the queue are then shown from the start.
pub proof fn what_is_no_number_is_refused(x: Seq<char>, t: Seq<char>, cmd: MpdCommand)
    requires
        t.len() == 0 || (t[0] != '+' && exists|i: int| 0 <= i < t.len()
            && !('0' <= #[trigger] t[i] <= '9')),
    ensures
        asks(seq!["play"@, t], cmd) ==> refused(seq!["play"@, t], cmd),
        asks(seq!["playid"@, t], cmd) ==> refused(seq!["playid"@, t], cmd),
        asks(seq!["playlistid"@, t], cmd) ==> refused(seq!["playlistid"@, t], cmd),
        asks(seq!["binarylimit"@, t], cmd) ==> refused(seq!["binarylimit"@, t], cmd),
        asks(seq!["addid"@, x, t], cmd) ==> refused(seq!["addid"@, x, t], cmd),
        asks(seq!["playlistdelete"@, x, t], cmd) ==> refused(seq!["playlistdelete"@, x, t], cmd),
        asks(seq!["albumart"@, x, t], cmd) ==> refused(seq!["albumart"@, x, t], cmd),
        asks(seq!["readpicture"@, x, t], cmd) ==> refused(seq!["readpicture"@, x, t], cmd),
        asks(seq!["setvol"@, t], cmd) ==> refused(seq!["setvol"@, t], cmd),
        asks(seq!["plchanges"@, t], cmd) ==> cmd == MpdCommand::PlChanges(0),
{
    play_refuses(x, t, cmd);
    playid_refuses(x, t, cmd);
    playlistid_refuses(x, t, cmd);
    binarylimit_refuses(x, t, cmd);
    addid_refuses(x, t, cmd);
    playlistdelete_refuses(x, t, cmd);
    albumart_refuses(x, t, cmd);
    readpicture_refuses(x, t, cmd);
    setvol_refuses(x, t, cmd);
    plchanges_shows_all(x, t, cmd);
}

proof fn play_refuses(x: Seq<char>, t: Seq<char>, cmd: MpdCommand)
    requires
        t.len() == 0 || (t[0] != '+' && exists|i: int| 0 <= i < t.len()
            && !('0' <= #[trigger] t[i] <= '9')),
    ensures
        asks(seq!["play"@, t], cmd) ==> refused(seq!["play"@, t], cmd),
{
    let words = seq!["play"@, t];
    if asks(words, cmd) {
        let a = seq![t];
        command::names_of_requests();
        reveal_strlit("play");
        assert(seq!["play"@] + a =~= words);
        read_by_name("play"@, a, cmd);
        assert(number::unsigned_of(t, u64::MAX as nat) is None
            && number::unsigned_of(t, usize::MAX as nat) is None) by {
            no_number_is_no_number(t);
        }
    }
}

proof fn playid_refuses(x: Seq<char>, t: Seq<char>, cmd: MpdCommand)
    requires
        t.len() == 0 || (t[0] != '+' && exists|i: int| 0 <= i < t.len()
            && !('0' <= #[trigger] t[i] <= '9')),
    ensures
        asks(seq!["playid"@, t], cmd) ==> refused(seq!["playid"@, t], cmd),
{
    let words = seq!["playid"@, t];
    if asks(words, cmd) {
        let a = seq![t];
        command::names_of_requests();
        reveal_strlit("playid");
        assert(seq!["playid"@] + a =~= words);
        read_by_name("playid"@, a, cmd);
        assert(number::unsigned_of(t, u64::MAX as nat) is None
            && number::unsigned_of(t, usize::MAX as nat) is None) by {
            no_number_is_no_number(t);
        }
    }
}

proof fn playlistid_refuses(x: Seq<char>, t: Seq<char>, cmd: MpdCommand)
    requires
        t.len() == 0 || (t[0] != '+' && exists|i: int| 0 <= i < t.len()
            && !('0' <= #[trigger] t[i] <= '9')),
    ensures
        asks(seq!["playlistid"@, t], cmd) ==> refused(seq!["playlistid"@, t], cmd),
{
    let words = seq!["playlistid"@, t];
    if asks(words, cmd) {
        let a = seq![t];
        command::names_of_requests();
        reveal_strlit("playlistid");
        assert(seq!["playlistid"@] + a =~= words);
        read_by_name("playlistid"@, a, cmd);
        assert(number::unsigned_of(t, u64::MAX as nat) is None
            && number::unsigned_of(t, usize::MAX as nat) is None) by {
            no_number_is_no_number(t);
        }
    }
}

proof fn binarylimit_refuses(x: Seq<char>, t: Seq<char>, cmd: MpdCommand)
    requires
        t.len() == 0 || (t[0] != '+' && exists|i: int| 0 <= i < t.len()
            && !('0' <= #[trigger] t[i] <= '9')),
    ensures
        asks(seq!["binarylimit"@, t], cmd) ==> refused(seq!["binarylimit"@, t], cmd),
{
    let words = seq!["binarylimit"@, t];
    if asks(words, cmd) {
        let a = seq![t];
        command::names_of_requests();
        reveal_strlit("binarylimit");
        assert(seq!["binarylimit"@] + a =~= words);
        read_by_name("binarylimit"@, a, cmd);
        assert(number::unsigned_of(t, u64::MAX as nat) is None
            && number::unsigned_of(t, usize::MAX as nat) is None) by {
            no_number_is_no_number(t);
        }
    }
}

proof fn addid_refuses(x: Seq<char>, t: Seq<char>, cmd: MpdCommand)
    requires
        t.len() == 0 || (t[0] != '+' && exists|i: int| 0 <= i < t.len()
            && !('0' <= #[trigger] t[i] <= '9')),
    ensures
        asks(seq!["addid"@, x, t], cmd) ==> refused(seq!["addid"@, x, t], cmd),
{
    let words = seq!["addid"@, x, t];
    if asks(words, cmd) {
        let a = seq![x, t];
        command::names_of_requests();
        reveal_strlit("addid");
        assert(seq!["addid"@] + a =~= words);
        read_by_name("addid"@, a, cmd);
        no_number_is_no_number(t);
    }
}

proof fn playlistdelete_refuses(x: Seq<char>, t: Seq<char>, cmd: MpdCommand)
    requires
        t.len() == 0 || (t[0] != '+' && exists|i: int| 0 <= i < t.len()
            && !('0' <= #[trigger] t[i] <= '9')),
    ensures
        asks(seq!["playlistdelete"@, x, t], cmd) ==> refused(seq!["playlistdelete"@, x, t], cmd),
{
    let words = seq!["playlistdelete"@, x, t];
    if asks(words, cmd) {
        let a = seq![x, t];
        command::names_of_requests();
        reveal_strlit("playlistdelete");
        assert(seq!["playlistdelete"@] + a =~= words);
        read_by_name("playlistdelete"@, a, cmd);
        no_number_is_no_number(t);
    }
}

proof fn albumart_refuses(x: Seq<char>, t: Seq<char>, cmd: MpdCommand)
    requires
        t.len() == 0 || (t[0] != '+' && exists|i: int| 0 <= i < t.len()
            && !('0' <= #[trigger] t[i] <= '9')),
    ensures
        asks(seq!["albumart"@, x, t], cmd) ==> refused(seq!["albumart"@, x, t], cmd),
{
    let words = seq!["albumart"@, x, t];
    if asks(words, cmd) {
        let a = seq![x, t];
        command::names_of_requests();
        reveal_strlit("albumart");
        assert(seq!["albumart"@] + a =~= words);
        read_by_name("albumart"@, a, cmd);
        no_number_is_no_number(t);
    }
}

proof fn readpicture_refuses(x: Seq<char>, t: Seq<char>, cmd: MpdCommand)
    requires
        t.len() == 0 || (t[0] != '+' && exists|i: int| 0 <= i < t.len()
            && !('0' <= #[trigger] t[i] <= '9')),
    ensures
        asks(seq!["readpicture"@, x, t], cmd) ==> refused(seq!["readpicture"@, x, t], cmd),
{
    let words = seq!["readpicture"@, x, t];
    if asks(words, cmd) {
        let a = seq![x, t];
        command::names_of_requests();
        reveal_strlit("readpicture");
        assert(seq!["readpicture"@] + a =~= words);
        read_by_name("readpicture"@, a, cmd);
        no_number_is_no_number(t);
    }
}

proof fn setvol_refuses(x: Seq<char>, t: Seq<char>, cmd: MpdCommand)
    requires
        t.len() == 0 || (t[0] != '+' && exists|i: int| 0 <= i < t.len()
            && !('0' <= #[trigger] t[i] <= '9')),
    ensures
        asks(seq!["setvol"@, t], cmd) ==> refused(seq!["setvol"@, t], cmd),
{
    let words = seq!["setvol"@, t];
    if asks(words, cmd) {
        let a = seq![t];
        command::names_of_requests();
        reveal_strlit("setvol");
        assert(seq!["setvol"@] + a =~= words);
        read_by_name("setvol"@, a, cmd);
        no_number_is_no_number(t);
    }
}

proof fn plchanges_shows_all(x: Seq<char>, t: Seq<char>, cmd: MpdCommand)
    requires
        t.len() == 0 || (t[0] != '+' && exists|i: int| 0 <= i < t.len()
            && !('0' <= #[trigger] t[i] <= '9')),
    ensures
        asks(seq!["plchanges"@, t], cmd) ==> cmd == MpdCommand::PlChanges(0),
{
    let words = seq!["plchanges"@, t];
    if asks(words, cmd) {
        let a = seq![t];
        command::names_of_requests();
        reveal_strlit("plchanges");
        assert(seq!["plchanges"@] + a =~= words);
        read_by_name("plchanges"@, a, cmd);
        no_number_is_no_number(t);
    }
}

proof fn no_number_is_no_number(t: Seq<char>)
    requires
        t.len() == 0 || (t[0] != '+' && exists|i: int|
            0 <= i < t.len() && !('0' <= #[trigger] t[i] <= '9')),
    ensures
        forall|max: nat| #[trigger] number::unsigned_of(t, max) is None,
{
    if t.len() > 0 {
        let i = choose|i: int| 0 <= i < t.len() && !('0' <= #[trigger] t[i] <= '9');
        assert(!text::is_digit(t[i]));
    }
}

proof fn a_number_is_no_word(k: nat, u: Seq<char>)
    requires
        k <= number::REAL_LIMIT,
        forall|i: int| 0 <= i < u.len() ==> 'a' <= #[trigger] u[i] <= 'z',
    ensures
        ({
            let l = text::lower(number::show_billionths(k) + u);
            &&& l.len() > 0
            &&& '0' <= l[0] <= '9'
        }),
{
    number::shown_billionths_read_back(k);
    let s = number::show_billionths(k);
    let w = s + u;
    assert forall|i: int| 0 <= i < w.len() implies (#[trigger] w[i] as u32) < 128 by {
        if i < s.len() {
            assert(w[i] == s[i]);
        } else {
            assert(w[i] == u[i - s.len()]);
        }
    }
    assert(text::ascii(w));
    assert(w[0] == s[0]);
    assert(text::ascii_lower(w)[0] == w[0]);
}

/// A timer runs for the hours, minutes or seconds that are asked for; `off` and `cancel` take
/// it back, and an alarm without a selection asks for twenty tracks of none in particular.
pub proof fn timers_run_as_long_as_asked(k: nat, cmd: MpdCommand)
    requires
        3600 * k <= 18_446_744_073_709_551_615_999_999_999,
    ensures
        asks(seq!["sleep"@, number::show_billionths(k) + "h"@], cmd)
            ==> cmd == MpdCommand::Sleep(SleepCmd::Arm(Span { nanos: (3600 * k) as u128 })),
        asks(seq!["sleep"@, number::show_billionths(k) + "m"@], cmd)
            ==> cmd == MpdCommand::Sleep(SleepCmd::Arm(Span { nanos: (60 * k) as u128 })),
        asks(seq!["sleep"@, number::show_billionths(k) + "s"@], cmd)
            ==> cmd == MpdCommand::Sleep(SleepCmd::Arm(Span { nanos: k as u128 })),
        asks(seq!["sleep"@, "off"@], cmd) ==> cmd == MpdCommand::Sleep(SleepCmd::Cancel),
        asks(seq!["sleep"@, "cancel"@], cmd) ==> cmd == MpdCommand::Sleep(SleepCmd::Cancel),
        asks(seq!["sleep"@], cmd) ==> cmd == MpdCommand::Sleep(SleepCmd::Status),
        asks(seq!["winddown"@, number::show_billionths(k) + "h"@], cmd)
            ==> cmd
            == MpdCommand::Winddown(WinddownCmd::Arm(Some(Span { nanos: (3600 * k) as u128 }))),
        asks(seq!["winddown"@, number::show_billionths(k) + "m"@], cmd)
            ==> cmd
            == MpdCommand::Winddown(WinddownCmd::Arm(Some(Span { nanos: (60 * k) as u128 }))),
        asks(seq!["winddown"@, number::show_billionths(k) + "s"@], cmd)
            ==> cmd == MpdCommand::Winddown(WinddownCmd::Arm(Some(Span { nanos: k as u128 }))),
        asks(seq!["winddown"@, "off"@], cmd) ==> cmd == MpdCommand::Winddown(WinddownCmd::Cancel),
        asks(seq!["winddown"@, "cancel"@], cmd)
            ==> cmd == MpdCommand::Winddown(WinddownCmd::Cancel),
        asks(seq!["winddown"@], cmd) ==> cmd == MpdCommand::Winddown(WinddownCmd::Arm(None)),
        asks(seq!["wake"@, "in"@, number::show_billionths(k) + "h"@], cmd)
            ==> (cmd matches MpdCommand::Wake(WakeCmd::Arm { when, selector, count })
            && when == WakeWhen::In(Span { nanos: (3600 * k) as u128 }) && selector is None
            && count == 20),
        asks(seq!["wake"@, "in"@, number::show_billionths(k) + "m"@], cmd)
            ==> (cmd matches MpdCommand::Wake(WakeCmd::Arm { when, selector, count })
            && when == WakeWhen::In(Span { nanos: (60 * k) as u128 }) && selector is None
            && count == 20),
        asks(seq!["wake"@, "in"@, number::show_billionths(k) + "s"@], cmd)
            ==> (cmd matches MpdCommand::Wake(WakeCmd::Arm { when, selector, count })
            && when == WakeWhen::In(Span { nanos: k as u128 }) && selector is None && count == 20),
        asks(seq!["wake"@, "off"@], cmd) ==> cmd == MpdCommand::Wake(WakeCmd::Cancel),
        asks(seq!["wake"@, "cancel"@], cmd) ==> cmd == MpdCommand::Wake(WakeCmd::Cancel),
        asks(seq!["wake"@, "list"@], cmd) ==> cmd == MpdCommand::Wake(WakeCmd::Status),
        asks(seq!["wake"@], cmd) ==> cmd == MpdCommand::Wake(WakeCmd::Status),
{
    sleep_in_hours(k, cmd);
    sleep_in_minutes(k, cmd);
    sleep_in_seconds(k, cmd);
    sleep_off(k, cmd);
    sleep_cancelled(k, cmd);
    sleep_alone(k, cmd);
    winddown_in_hours(k, cmd);
    winddown_in_minutes(k, cmd);
    winddown_in_seconds(k, cmd);
    winddown_off(k, cmd);
    winddown_cancelled(k, cmd);
    winddown_alone(k, cmd);
    wake_in_hours(k, cmd);
    wake_in_minutes(k, cmd);
    wake_in_seconds(k, cmd);
    wake_off(k, cmd);
    wake_cancelled(k, cmd);
    wake_listed(k, cmd);
    wake_alone(k, cmd);
}

proof fn sleep_in_hours(k: nat, cmd: MpdCommand)
    requires
        3600 * k <= 18_446_744_073_709_551_615_999_999_999,
    ensures
        asks(seq!["sleep"@, number::show_billionths(k) + "h"@], cmd)
            ==> cmd == MpdCommand::Sleep(SleepCmd::Arm(Span { nanos: (3600 * k) as u128 })),
{
    let words = seq!["sleep"@, number::show_billionths(k) + "h"@];
    if asks(words, cmd) {
        let a = seq![number::show_billionths(k) + "h"@];
        assert(seq!["sleep"@] + a =~= words);
        read_as_sleep(a, cmd);
        command::a_duration_is_in_its_unit(k);
        reveal_strlit("off");
        reveal_strlit("cancel");
        assert("off"@[0] == 'o' && "cancel"@[0] == 'c');
        reveal_strlit("h");
        a_number_is_no_word(k, "h"@);
    }
}

proof fn sleep_in_minutes(k: nat, cmd: MpdCommand)
    requires
        3600 * k <= 18_446_744_073_709_551_615_999_999_999,
    ensures
        asks(seq!["sleep"@, number::show_billionths(k) + "m"@], cmd)
            ==> cmd == MpdCommand::Sleep(SleepCmd::Arm(Span { nanos: (60 * k) as u128 })),
{
    let words = seq!["sleep"@, number::show_billionths(k) + "m"@];
    if asks(words, cmd) {
        let a = seq![number::show_billionths(k) + "m"@];
        assert(seq!["sleep"@] + a =~= words);
        read_as_sleep(a, cmd);
        command::a_duration_is_in_its_unit(k);
        reveal_strlit("off");
        reveal_strlit("cancel");
        assert("off"@[0] == 'o' && "cancel"@[0] == 'c');
        reveal_strlit("m");
        a_number_is_no_word(k, "m"@);
    }
}

proof fn sleep_in_seconds(k: nat, cmd: MpdCommand)
    requires
        3600 * k <= 18_446_744_073_709_551_615_999_999_999,
    ensures
        asks(seq!["sleep"@, number::show_billionths(k) + "s"@], cmd)
            ==> cmd == MpdCommand::Sleep(SleepCmd::Arm(Span { nanos: k as u128 })),
{
    let words = seq!["sleep"@, number::show_billionths(k) + "s"@];
    if asks(words, cmd) {
        let a = seq![number::show_billionths(k) + "s"@];
        assert(seq!["sleep"@] + a =~= words);
        read_as_sleep(a, cmd);
        command::a_duration_is_in_its_unit(k);
        reveal_strlit("off");
        reveal_strlit("cancel");
        assert("off"@[0] == 'o' && "cancel"@[0] == 'c');
        reveal_strlit("s");
        a_number_is_no_word(k, "s"@);
    }
}

proof fn sleep_off(k: nat, cmd: MpdCommand)
    requires
        3600 * k <= 18_446_744_073_709_551_615_999_999_999,
    ensures
        asks(seq!["sleep"@, "off"@], cmd) ==> cmd == MpdCommand::Sleep(SleepCmd::Cancel),
{
    let words = seq!["sleep"@, "off"@];
    if asks(words, cmd) {
        let a = seq!["off"@];
        assert(seq!["sleep"@] + a =~= words);
        read_as_sleep(a, cmd);
        reveal_strlit("off");
        text::small_letters_stay("off"@);
    }
}

proof fn sleep_cancelled(k: nat, cmd: MpdCommand)
    requires
        3600 * k <= 18_446_744_073_709_551_615_999_999_999,
    ensures
        asks(seq!["sleep"@, "cancel"@], cmd) ==> cmd == MpdCommand::Sleep(SleepCmd::Cancel),
{
    let words = seq!["sleep"@, "cancel"@];
    if asks(words, cmd) {
        let a = seq!["cancel"@];
        assert(seq!["sleep"@] + a =~= words);
        read_as_sleep(a, cmd);
        reveal_strlit("cancel");
        text::small_letters_stay("cancel"@);
    }
}

proof fn sleep_alone(k: nat, cmd: MpdCommand)
    requires
        3600 * k <= 18_446_744_073_709_551_615_999_999_999,
    ensures
        asks(seq!["sleep"@], cmd) ==> cmd == MpdCommand::Sleep(SleepCmd::Status),
{
    let words = seq!["sleep"@];
    if asks(words, cmd) {
        let a = Seq::<Seq<char>>::empty();
        assert(seq!["sleep"@] + a =~= words);
        read_as_sleep(a, cmd);
    }
}

proof fn winddown_in_hours(k: nat, cmd: MpdCommand)
    requires
        3600 * k <= 18_446_744_073_709_551_615_999_999_999,
    ensures
        asks(seq!["winddown"@, number::show_billionths(k) + "h"@], cmd)
            ==> cmd
            == MpdCommand::Winddown(WinddownCmd::Arm(Some(Span { nanos: (3600 * k) as u128 }))),
{
    let words = seq!["winddown"@, number::show_billionths(k) + "h"@];
    if asks(words, cmd) {
        let a = seq![number::show_billionths(k) + "h"@];
        assert(seq!["winddown"@] + a =~= words);
        read_as_winddown(a, cmd);
        command::a_duration_is_in_its_unit(k);
        reveal_strlit("off");
        reveal_strlit("cancel");
        assert("off"@[0] == 'o' && "cancel"@[0] == 'c');
        reveal_strlit("h");
        a_number_is_no_word(k, "h"@);
    }
}

proof fn winddown_in_minutes(k: nat, cmd: MpdCommand)
    requires
        3600 * k <= 18_446_744_073_709_551_615_999_999_999,
    ensures
        asks(seq!["winddown"@, number::show_billionths(k) + "m"@], cmd)
            ==> cmd
            == MpdCommand::Winddown(WinddownCmd::Arm(Some(Span { nanos: (60 * k) as u128 }))),
{
    let words = seq!["winddown"@, number::show_billionths(k) + "m"@];
    if asks(words, cmd) {
        let a = seq![number::show_billionths(k) + "m"@];
        assert(seq!["winddown"@] + a =~= words);
        read_as_winddown(a, cmd);
        command::a_duration_is_in_its_unit(k);
        reveal_strlit("off");
        reveal_strlit("cancel");
        assert("off"@[0] == 'o' && "cancel"@[0] == 'c');
        reveal_strlit("m");
        a_number_is_no_word(k, "m"@);
    }
}

proof fn winddown_in_seconds(k: nat, cmd: MpdCommand)
    requires
        3600 * k <= 18_446_744_073_709_551_615_999_999_999,
    ensures
        asks(seq!["winddown"@, number::show_billionths(k) + "s"@], cmd)
            ==> cmd == MpdCommand::Winddown(WinddownCmd::Arm(Some(Span { nanos: k as u128 }))),
{
    let words = seq!["winddown"@, number::show_billionths(k) + "s"@];
    if asks(words, cmd) {
        let a = seq![number::show_billionths(k) + "s"@];
        assert(seq!["winddown"@] + a =~= words);
        read_as_winddown(a, cmd);
        command::a_duration_is_in_its_unit(k);
        reveal_strlit("off");
        reveal_strlit("cancel");
        assert("off"@[0] == 'o' && "cancel"@[0] == 'c');
        reveal_strlit("s");
        a_number_is_no_word(k, "s"@);
    }
}

proof fn winddown_off(k: nat, cmd: MpdCommand)
    requires
        3600 * k <= 18_446_744_073_709_551_615_999_999_999,
    ensures
        asks(seq!["winddown"@, "off"@], cmd) ==> cmd == MpdCommand::Winddown(WinddownCmd::Cancel),
{
    let words = seq!["winddown"@, "off"@];
    if asks(words, cmd) {
        let a = seq!["off"@];
        assert(seq!["winddown"@] + a =~= words);
        read_as_winddown(a, cmd);
        reveal_strlit("off");
        text::small_letters_stay("off"@);
    }
}

proof fn winddown_cancelled(k: nat, cmd: MpdCommand)
    requires
        3600 * k <= 18_446_744_073_709_551_615_999_999_999,
    ensures
        asks(seq!["winddown"@, "cancel"@], cmd)
            ==> cmd == MpdCommand::Winddown(WinddownCmd::Cancel),
{
    let words = seq!["winddown"@, "cancel"@];
    if asks(words, cmd) {
        let a = seq!["cancel"@];
        assert(seq!["winddown"@] + a =~= words);
        read_as_winddown(a, cmd);
        reveal_strlit("cancel");
        text::small_letters_stay("cancel"@);
    }
}

proof fn winddown_alone(k: nat, cmd: MpdCommand)
    requires
        3600 * k <= 18_446_744_073_709_551_615_999_999_999,
    ensures
        asks(seq!["winddown"@], cmd) ==> cmd == MpdCommand::Winddown(WinddownCmd::Arm(None)),
{
    let words = seq!["winddown"@];
    if asks(words, cmd) {
        let a = Seq::<Seq<char>>::empty();
        assert(seq!["winddown"@] + a =~= words);
        read_as_winddown(a, cmd);
    }
}

proof fn wake_in_hours(k: nat, cmd: MpdCommand)
    requires
        3600 * k <= 18_446_744_073_709_551_615_999_999_999,
    ensures
        asks(seq!["wake"@, "in"@, number::show_billionths(k) + "h"@], cmd)
            ==> (cmd matches MpdCommand::Wake(WakeCmd::Arm { when, selector, count })
            && when == WakeWhen::In(Span { nanos: (3600 * k) as u128 }) && selector is None
            && count == 20),
{
    let words = seq!["wake"@, "in"@, number::show_billionths(k) + "h"@];
    if asks(words, cmd) {
        let a = seq!["in"@, number::show_billionths(k) + "h"@];
        assert(seq!["wake"@] + a =~= words);
        read_as_wake(a, cmd);
        command::a_duration_is_in_its_unit(k);
        reveal_strlit("off");
        reveal_strlit("cancel");
        assert("off"@[0] == 'o' && "cancel"@[0] == 'c');
        reveal_strlit("in");
        text::small_letters_stay("in"@);
        reveal_strlit("list");
        reveal_strlit("at");
        assert("list"@.len() == 4 && "off"@.len() == 3 && "cancel"@.len() == 6 && "at"@[0] == 'a');
        assert(args::tail(a, 2) =~= Seq::<Seq<char>>::empty());
    }
}

proof fn wake_in_minutes(k: nat, cmd: MpdCommand)
    requires
        3600 * k <= 18_446_744_073_709_551_615_999_999_999,
    ensures
        asks(seq!["wake"@, "in"@, number::show_billionths(k) + "m"@], cmd)
            ==> (cmd matches MpdCommand::Wake(WakeCmd::Arm { when, selector, count })
            && when == WakeWhen::In(Span { nanos: (60 * k) as u128 }) && selector is None
            && count == 20),
{
    let words = seq!["wake"@, "in"@, number::show_billionths(k) + "m"@];
    if asks(words, cmd) {
        let a = seq!["in"@, number::show_billionths(k) + "m"@];
        assert(seq!["wake"@] + a =~= words);
        read_as_wake(a, cmd);
        command::a_duration_is_in_its_unit(k);
        reveal_strlit("off");
        reveal_strlit("cancel");
        assert("off"@[0] == 'o' && "cancel"@[0] == 'c');
        reveal_strlit("in");
        text::small_letters_stay("in"@);
        reveal_strlit("list");
        reveal_strlit("at");
        assert("list"@.len() == 4 && "off"@.len() == 3 && "cancel"@.len() == 6 && "at"@[0] == 'a');
        assert(args::tail(a, 2) =~= Seq::<Seq<char>>::empty());
    }
}

proof fn wake_in_seconds(k: nat, cmd: MpdCommand)
    requires
        3600 * k <= 18_446_744_073_709_551_615_999_999_999,
    ensures
        asks(seq!["wake"@, "in"@, number::show_billionths(k) + "s"@], cmd)
            ==> (cmd matches MpdCommand::Wake(WakeCmd::Arm { when, selector, count })
            && when == WakeWhen::In(Span { nanos: k as u128 }) && selector is None && count == 20),
{
    let words = seq!["wake"@, "in"@, number::show_billionths(k) + "s"@];
    if asks(words, cmd) {
        let a = seq!["in"@, number::show_billionths(k) + "s"@];
        assert(seq!["wake"@] + a =~= words);
        read_as_wake(a, cmd);
        command::a_duration_is_in_its_unit(k);
        reveal_strlit("off");
        reveal_strlit("cancel");
        assert("off"@[0] == 'o' && "cancel"@[0] == 'c');
        reveal_strlit("in");
        text::small_letters_stay("in"@);
        reveal_strlit("list");
        reveal_strlit("at");
        assert("list"@.len() == 4 && "off"@.len() == 3 && "cancel"@.len() == 6 && "at"@[0] == 'a');
        assert(args::tail(a, 2) =~= Seq::<Seq<char>>::empty());
    }
}

proof fn wake_off(k: nat, cmd: MpdCommand)
    requires
        3600 * k <= 18_446_744_073_709_551_615_999_999_999,
    ensures
        asks(seq!["wake"@, "off"@], cmd) ==> cmd == MpdCommand::Wake(WakeCmd::Cancel),
{
    let words = seq!["wake"@, "off"@];
    if asks(words, cmd) {
        let a = seq!["off"@];
        assert(seq!["wake"@] + a =~= words);
        read_as_wake(a, cmd);
        reveal_strlit("off");
        text::small_letters_stay("off"@);
        reveal_strlit("list");
    }
}

proof fn wake_cancelled(k: nat, cmd: MpdCommand)
    requires
        3600 * k <= 18_446_744_073_709_551_615_999_999_999,
    ensures
        asks(seq!["wake"@, "cancel"@], cmd) ==> cmd == MpdCommand::Wake(WakeCmd::Cancel),
{
    let words = seq!["wake"@, "cancel"@];
    if asks(words, cmd) {
        let a = seq!["cancel"@];
        assert(seq!["wake"@] + a =~= words);
        read_as_wake(a, cmd);
        reveal_strlit("cancel");
        text::small_letters_stay("cancel"@);
        reveal_strlit("list");
    }
}

proof fn wake_listed(k: nat, cmd: MpdCommand)
    requires
        3600 * k <= 18_446_744_073_709_551_615_999_999_999,
    ensures
        asks(seq!["wake"@, "list"@], cmd) ==> cmd == MpdCommand::Wake(WakeCmd::Status),
{
    let words = seq!["wake"@, "list"@];
    if asks(words, cmd) {
        let a = seq!["list"@];
        assert(seq!["wake"@] + a =~= words);
        read_as_wake(a, cmd);
        reveal_strlit("list");
        text::small_letters_stay("list"@);
    }
}

proof fn wake_alone(k: nat, cmd: MpdCommand)
    requires
        3600 * k <= 18_446_744_073_709_551_615_999_999_999,
    ensures
        asks(seq!["wake"@], cmd) ==> cmd == MpdCommand::Wake(WakeCmd::Status),
{
    let words = seq!["wake"@];
    if asks(words, cmd) {
        let a = Seq::<Seq<char>>::empty();
        assert(seq!["wake"@] + a =~= words);
        read_as_wake(a, cmd);
    }
}

/// A timer or a fade of less than no time is refused.
pub proof fn time_does_not_run_back(k: nat, cmd: MpdCommand)
    requires
        0 < k <= number::REAL_LIMIT,
    ensures
        asks(seq!["sleep"@, seq!['-'] + number::show_billionths(k)], cmd)
            ==> refused(seq!["sleep"@, seq!['-'] + number::show_billionths(k)], cmd),
        asks(seq!["winddown"@, seq!['-'] + number::show_billionths(k)], cmd)
            ==> refused(seq!["winddown"@, seq!['-'] + number::show_billionths(k)], cmd),
        asks(seq!["wake"@, "in"@, seq!['-'] + number::show_billionths(k)], cmd)
            ==> refused(seq!["wake"@, "in"@, seq!['-'] + number::show_billionths(k)], cmd),
        asks(seq!["fade"@, "out"@, seq!['-'] + number::show_billionths(k)], cmd)
            ==> refused(seq!["fade"@, "out"@, seq!['-'] + number::show_billionths(k)], cmd),
        asks(seq!["fade"@, "in"@, seq!['-'] + number::show_billionths(k)], cmd)
            ==> refused(seq!["fade"@, "in"@, seq!['-'] + number::show_billionths(k)], cmd),
{
    sleep_below_zero(k, cmd);
    winddown_below_zero(k, cmd);
    wake_below_zero(k, cmd);
    fade_out_below_zero(k, cmd);
    fade_in_below_zero(k, cmd);
}

proof fn sleep_below_zero(k: nat, cmd: MpdCommand)
    requires
        0 < k <= number::REAL_LIMIT,
    ensures
        asks(seq!["sleep"@, seq!['-'] + number::show_billionths(k)], cmd)
            ==> refused(seq!["sleep"@, seq!['-'] + number::show_billionths(k)], cmd),
{
    let words = seq!["sleep"@, seq!['-'] + number::show_billionths(k)];
    if asks(words, cmd) {
        let a = seq![seq!['-'] + number::show_billionths(k)];
        assert(seq!["sleep"@] + a =~= words);
        read_as_sleep(a, cmd);
        command::a_duration_is_in_its_unit(k);
        reveal_strlit("off");
        reveal_strlit("cancel");
        assert("off"@[0] == 'o' && "cancel"@[0] == 'c');
        below_zero_is_no_word(k);
    }
}

proof fn winddown_below_zero(k: nat, cmd: MpdCommand)
    requires
        0 < k <= number::REAL_LIMIT,
    ensures
        asks(seq!["winddown"@, seq!['-'] + number::show_billionths(k)], cmd)
            ==> refused(seq!["winddown"@, seq!['-'] + number::show_billionths(k)], cmd),
{
    let words = seq!["winddown"@, seq!['-'] + number::show_billionths(k)];
    if asks(words, cmd) {
        let a = seq![seq!['-'] + number::show_billionths(k)];
        assert(seq!["winddown"@] + a =~= words);
        read_as_winddown(a, cmd);
        command::a_duration_is_in_its_unit(k);
        reveal_strlit("off");
        reveal_strlit("cancel");
        assert("off"@[0] == 'o' && "cancel"@[0] == 'c');
        below_zero_is_no_word(k);
    }
}

proof fn wake_below_zero(k: nat, cmd: MpdCommand)
    requires
        0 < k <= number::REAL_LIMIT,
    ensures
        asks(seq!["wake"@, "in"@, seq!['-'] + number::show_billionths(k)], cmd)
            ==> refused(seq!["wake"@, "in"@, seq!['-'] + number::show_billionths(k)], cmd),
{
    let words = seq!["wake"@, "in"@, seq!['-'] + number::show_billionths(k)];
    if asks(words, cmd) {
        let a = seq!["in"@, seq!['-'] + number::show_billionths(k)];
        assert(seq!["wake"@] + a =~= words);
        read_as_wake(a, cmd);
        command::a_duration_is_in_its_unit(k);
        reveal_strlit("off");
        reveal_strlit("cancel");
        assert("off"@[0] == 'o' && "cancel"@[0] == 'c');
        reveal_strlit("in");
        text::small_letters_stay("in"@);
        reveal_strlit("list");
        reveal_strlit("at");
        assert("list"@.len() == 4 && "off"@.len() == 3 && "cancel"@.len() == 6 && "at"@[0] == 'a');
    }
}

proof fn fade_out_below_zero(k: nat, cmd: MpdCommand)
    requires
        0 < k <= number::REAL_LIMIT,
    ensures
        asks(seq!["fade"@, "out"@, seq!['-'] + number::show_billionths(k)], cmd)
            ==> refused(seq!["fade"@, "out"@, seq!['-'] + number::show_billionths(k)], cmd),
{
    let words = seq!["fade"@, "out"@, seq!['-'] + number::show_billionths(k)];
    if asks(words, cmd) {
        let a = seq!["out"@, seq!['-'] + number::show_billionths(k)];
        assert(seq!["fade"@] + a =~= words);
        read_as_fade(a, cmd);
        dsl::seconds_are_as_written(k);
        reveal_strlit("out");
        text::small_letters_stay("out"@);
    }
}

proof fn fade_in_below_zero(k: nat, cmd: MpdCommand)
    requires
        0 < k <= number::REAL_LIMIT,
    ensures
        asks(seq!["fade"@, "in"@, seq!['-'] + number::show_billionths(k)], cmd)
            ==> refused(seq!["fade"@, "in"@, seq!['-'] + number::show_billionths(k)], cmd),
{
    let words = seq!["fade"@, "in"@, seq!['-'] + number::show_billionths(k)];
    if asks(words, cmd) {
        let a = seq!["in"@, seq!['-'] + number::show_billionths(k)];
        assert(seq!["fade"@] + a =~= words);
        read_as_fade(a, cmd);
        dsl::seconds_are_as_written(k);
        reveal_strlit("in");
        text::small_letters_stay("in"@);
    }
}

proof fn below_zero_is_no_word(k: nat)
    requires
        k <= number::REAL_LIMIT,
    ensures
        ({
            let l = text::lower(seq!['-'] + number::show_billionths(k));
            &&& l.len() > 0
            &&& l[0] == '-'
        }),
{
    number::shown_billionths_read_back(k);
    let s = number::show_billionths(k);
    let w = seq!['-'] + s;
    assert forall|i: int| 0 <= i < w.len() implies (#[trigger] w[i] as u32) < 128 by {
        if i > 0 {
            assert(w[i] == s[i - 1]);
        }
    }
    assert(text::ascii(w));
    assert(text::ascii_lower(w)[0] == w[0]);
}

/// A fade goes in, out, to the floor or to the volume setting that is written, of which the
/// fraction and what exceeds a hundred is dropped, and lasts the seconds that are asked for.
pub proof fn fades_go_where_and_as_long_as_asked(k: nat, v: nat, cmd: MpdCommand)
    requires
        k <= 18_446_744_073_709_551_615_999_999_999,
        v <= number::REAL_LIMIT,
    ensures
        asks(seq!["fade"@, "out"@, number::show_billionths(k)], cmd)
            ==> cmd == MpdCommand::Fade(FadeArgs { kind: FadeKind::Out,
            dur: Some(Span { nanos: k as u128 }) }),
        asks(seq!["fade"@, "out"@, number::show_billionths(k) + "s"@], cmd)
            ==> cmd == MpdCommand::Fade(FadeArgs { kind: FadeKind::Out,
            dur: Some(Span { nanos: k as u128 }) }),
        asks(seq!["fade"@, "out"@], cmd) ==> cmd == MpdCommand::Fade(FadeArgs { kind: FadeKind::Out,
            dur: None }),
        asks(seq!["fade"@, "in"@, number::show_billionths(k)], cmd)
            ==> cmd == MpdCommand::Fade(FadeArgs { kind: FadeKind::In,
            dur: Some(Span { nanos: k as u128 }) }),
        asks(seq!["fade"@, "in"@, number::show_billionths(k) + "s"@], cmd)
            ==> cmd == MpdCommand::Fade(FadeArgs { kind: FadeKind::In,
            dur: Some(Span { nanos: k as u128 }) }),
        asks(seq!["fade"@, "in"@], cmd) ==> cmd == MpdCommand::Fade(FadeArgs { kind: FadeKind::In,
            dur: None }),
        asks(seq!["fade"@, "to"@, "floor"@, number::show_billionths(k)], cmd)
            ==> cmd == MpdCommand::Fade(FadeArgs { kind: FadeKind::ToFloor,
            dur: Some(Span { nanos: k as u128 }) }),
        asks(seq!["fade"@, "to"@, "floor"@], cmd)
            ==> cmd == MpdCommand::Fade(FadeArgs { kind: FadeKind::ToFloor, dur: None }),
        asks(seq!["fade"@, "to"@, number::show_billionths(v), number::show_billionths(k)], cmd)
            ==> (cmd matches MpdCommand::Fade(FadeArgs { kind: FadeKind::To(n), dur })
            && dur == Some(Span { nanos: k as u128 }) && n <= 100
            && (n * 1_000_000_000 <= v < (n + 1) * 1_000_000_000 || (n == 100
            && v >= 100_000_000_000))),
        asks(seq!["fade"@, "to"@, number::show_billionths(v)], cmd)
            ==> (cmd matches MpdCommand::Fade(FadeArgs { kind: FadeKind::To(n), dur })
            && dur is None && n <= 100 && (n * 1_000_000_000 <= v < (n + 1) * 1_000_000_000
            || (n == 100 && v >= 100_000_000_000))),
{
    fade_out_lasting(k, v, cmd);
    fade_out_lasting_seconds(k, v, cmd);
    fade_out_alone(k, v, cmd);
    fade_in_lasting(k, v, cmd);
    fade_in_lasting_seconds(k, v, cmd);
    fade_in_alone(k, v, cmd);
    fade_to_floor(k, v, cmd);
    fade_to_floor_alone(k, v, cmd);
    fade_to_a_volume(k, v, cmd);
    fade_to_a_volume_alone(k, v, cmd);
}

proof fn fade_out_lasting(k: nat, v: nat, cmd: MpdCommand)
    requires
        k <= 18_446_744_073_709_551_615_999_999_999,
        v <= number::REAL_LIMIT,
    ensures
        asks(seq!["fade"@, "out"@, number::show_billionths(k)], cmd)
            ==> cmd == MpdCommand::Fade(FadeArgs { kind: FadeKind::Out,
            dur: Some(Span { nanos: k as u128 }) }),
{
    let words = seq!["fade"@, "out"@, number::show_billionths(k)];
    if asks(words, cmd) {
        let a = seq!["out"@, number::show_billionths(k)];
        assert(seq!["fade"@] + a =~= words);
        read_as_fade(a, cmd);
        dsl::seconds_are_as_written(k);
        reveal_strlit("out");
        text::small_letters_stay("out"@);
        reveal_strlit("in");
        assert("out"@.len() == 3);
    }
}

proof fn fade_out_lasting_seconds(k: nat, v: nat, cmd: MpdCommand)
    requires
        k <= 18_446_744_073_709_551_615_999_999_999,
        v <= number::REAL_LIMIT,
    ensures
        asks(seq!["fade"@, "out"@, number::show_billionths(k) + "s"@], cmd)
            ==> cmd == MpdCommand::Fade(FadeArgs { kind: FadeKind::Out,
            dur: Some(Span { nanos: k as u128 }) }),
{
    let words = seq!["fade"@, "out"@, number::show_billionths(k) + "s"@];
    if asks(words, cmd) {
        let a = seq!["out"@, number::show_billionths(k) + "s"@];
        assert(seq!["fade"@] + a =~= words);
        read_as_fade(a, cmd);
        dsl::seconds_are_as_written(k);
        reveal_strlit("out");
        text::small_letters_stay("out"@);
        reveal_strlit("in");
        assert("out"@.len() == 3);
    }
}

proof fn fade_out_alone(k: nat, v: nat, cmd: MpdCommand)
    requires
        k <= 18_446_744_073_709_551_615_999_999_999,
        v <= number::REAL_LIMIT,
    ensures
        asks(seq!["fade"@, "out"@], cmd) ==> cmd == MpdCommand::Fade(FadeArgs { kind: FadeKind::Out,
            dur: None }),
{
    let words = seq!["fade"@, "out"@];
    if asks(words, cmd) {
        let a = seq!["out"@];
        assert(seq!["fade"@] + a =~= words);
        read_as_fade(a, cmd);
        reveal_strlit("out");
        text::small_letters_stay("out"@);
        reveal_strlit("in");
        assert("out"@.len() == 3);
    }
}

proof fn fade_in_lasting(k: nat, v: nat, cmd: MpdCommand)
    requires
        k <= 18_446_744_073_709_551_615_999_999_999,
        v <= number::REAL_LIMIT,
    ensures
        asks(seq!["fade"@, "in"@, number::show_billionths(k)], cmd)
            ==> cmd == MpdCommand::Fade(FadeArgs { kind: FadeKind::In,
            dur: Some(Span { nanos: k as u128 }) }),
{
    let words = seq!["fade"@, "in"@, number::show_billionths(k)];
    if asks(words, cmd) {
        let a = seq!["in"@, number::show_billionths(k)];
        assert(seq!["fade"@] + a =~= words);
        read_as_fade(a, cmd);
        dsl::seconds_are_as_written(k);
        reveal_strlit("in");
        text::small_letters_stay("in"@);
        reveal_strlit("out");
    }
}

proof fn fade_in_lasting_seconds(k: nat, v: nat, cmd: MpdCommand)
    requires
        k <= 18_446_744_073_709_551_615_999_999_999,
        v <= number::REAL_LIMIT,
    ensures
        asks(seq!["fade"@, "in"@, number::show_billionths(k) + "s"@], cmd)
            ==> cmd == MpdCommand::Fade(FadeArgs { kind: FadeKind::In,
            dur: Some(Span { nanos: k as u128 }) }),
{
    let words = seq!["fade"@, "in"@, number::show_billionths(k) + "s"@];
    if asks(words, cmd) {
        let a = seq!["in"@, number::show_billionths(k) + "s"@];
        assert(seq!["fade"@] + a =~= words);
        read_as_fade(a, cmd);
        dsl::seconds_are_as_written(k);
        reveal_strlit("in");
        text::small_letters_stay("in"@);
        reveal_strlit("out");
    }
}

proof fn fade_in_alone(k: nat, v: nat, cmd: MpdCommand)
    requires
        k <= 18_446_744_073_709_551_615_999_999_999,
        v <= number::REAL_LIMIT,
    ensures
        asks(seq!["fade"@, "in"@], cmd) ==> cmd == MpdCommand::Fade(FadeArgs { kind: FadeKind::In,
            dur: None }),
{
    let words = seq!["fade"@, "in"@];
    if asks(words, cmd) {
        let a = seq!["in"@];
        assert(seq!["fade"@] + a =~= words);
        read_as_fade(a, cmd);
        reveal_strlit("in");
        text::small_letters_stay("in"@);
        reveal_strlit("out");
    }
}

proof fn fade_to_floor(k: nat, v: nat, cmd: MpdCommand)
    requires
        k <= 18_446_744_073_709_551_615_999_999_999,
        v <= number::REAL_LIMIT,
    ensures
        asks(seq!["fade"@, "to"@, "floor"@, number::show_billionths(k)], cmd)
            ==> cmd == MpdCommand::Fade(FadeArgs { kind: FadeKind::ToFloor,
            dur: Some(Span { nanos: k as u128 }) }),
{
    let words = seq!["fade"@, "to"@, "floor"@, number::show_billionths(k)];
    if asks(words, cmd) {
        let a = seq!["to"@, "floor"@, number::show_billionths(k)];
        assert(seq!["fade"@] + a =~= words);
        read_as_fade(a, cmd);
        dsl::seconds_are_as_written(k);
        reveal_strlit("to");
        text::small_letters_stay("to"@);
        reveal_strlit("out");
        reveal_strlit("in");
        assert("out"@.len() == 3 && "in"@[0] == 'i');
        reveal_strlit("floor");
        text::small_letters_stay("floor"@);
    }
}

proof fn fade_to_floor_alone(k: nat, v: nat, cmd: MpdCommand)
    requires
        k <= 18_446_744_073_709_551_615_999_999_999,
        v <= number::REAL_LIMIT,
    ensures
        asks(seq!["fade"@, "to"@, "floor"@], cmd)
            ==> cmd == MpdCommand::Fade(FadeArgs { kind: FadeKind::ToFloor, dur: None }),
{
    let words = seq!["fade"@, "to"@, "floor"@];
    if asks(words, cmd) {
        let a = seq!["to"@, "floor"@];
        assert(seq!["fade"@] + a =~= words);
        read_as_fade(a, cmd);
        reveal_strlit("to");
        text::small_letters_stay("to"@);
        reveal_strlit("out");
        reveal_strlit("in");
        assert("out"@.len() == 3 && "in"@[0] == 'i');
        reveal_strlit("floor");
        text::small_letters_stay("floor"@);
    }
}

proof fn fade_to_a_volume(k: nat, v: nat, cmd: MpdCommand)
    requires
        k <= 18_446_744_073_709_551_615_999_999_999,
        v <= number::REAL_LIMIT,
    ensures
        asks(seq!["fade"@, "to"@, number::show_billionths(v), number::show_billionths(k)], cmd)
            ==> (cmd matches MpdCommand::Fade(FadeArgs { kind: FadeKind::To(n), dur })
            && dur == Some(Span { nanos: k as u128 }) && n <= 100
            && (n * 1_000_000_000 <= v < (n + 1) * 1_000_000_000 || (n == 100
            && v >= 100_000_000_000))),
{
    let words = seq!["fade"@, "to"@, number::show_billionths(v), number::show_billionths(k)];
    if asks(words, cmd) {
        let a = seq!["to"@, number::show_billionths(v), number::show_billionths(k)];
        assert(seq!["fade"@] + a =~= words);
        read_as_fade(a, cmd);
        dsl::seconds_are_as_written(k);
        reveal_strlit("to");
        text::small_letters_stay("to"@);
        reveal_strlit("out");
        reveal_strlit("in");
        assert("out"@.len() == 3 && "in"@[0] == 'i');
        number::shown_billionths_read_back(v);
        number::shown_billionths_are_multiplied(v, 1);
        reveal_strlit("floor");
        assert(text::ascii_lower(number::show_billionths(v))[0] == number::show_billionths(v)[0]);
        text::small_letters_stay("floor"@);
        assert("floor"@[0] == 'f');
    }
}

proof fn fade_to_a_volume_alone(k: nat, v: nat, cmd: MpdCommand)
    requires
        k <= 18_446_744_073_709_551_615_999_999_999,
        v <= number::REAL_LIMIT,
    ensures
        asks(seq!["fade"@, "to"@, number::show_billionths(v)], cmd)
            ==> (cmd matches MpdCommand::Fade(FadeArgs { kind: FadeKind::To(n), dur })
            && dur is None && n <= 100 && (n * 1_000_000_000 <= v < (n + 1) * 1_000_000_000
            || (n == 100 && v >= 100_000_000_000))),
{
    let words = seq!["fade"@, "to"@, number::show_billionths(v)];
    if asks(words, cmd) {
        let a = seq!["to"@, number::show_billionths(v)];
        assert(seq!["fade"@] + a =~= words);
        read_as_fade(a, cmd);
        reveal_strlit("to");
        text::small_letters_stay("to"@);
        reveal_strlit("out");
        reveal_strlit("in");
        assert("out"@.len() == 3 && "in"@[0] == 'i');
        number::shown_billionths_read_back(v);
        number::shown_billionths_are_multiplied(v, 1);
        reveal_strlit("floor");
        assert(text::ascii_lower(number::show_billionths(v))[0] == number::show_billionths(v)[0]);
        text::small_letters_stay("floor"@);
        assert("floor"@[0] == 'f');
    }
}

/// An alarm for a clock time on 24 hours goes off at that time.
pub proof fn alarms_go_off_when_asked(h: u32, m: u32, cmd: MpdCommand)
    requires
        h < 24,
        m < 60,
    ensures
        asks(seq!["wake"@, "at"@, number::dec(h as nat) + ":"@ + number::dec2(m as nat)], cmd)
            ==> (cmd matches MpdCommand::Wake(WakeCmd::Arm { when, selector, count })
            && when == (WakeWhen::At { h: h, m }) && selector is None && count == 20),
{
    wake_at_a_time(h, m, cmd);
}

proof fn wake_at_a_time(h: u32, m: u32, cmd: MpdCommand)
    requires
        h < 24,
        m < 60,
    ensures
        asks(seq!["wake"@, "at"@, number::dec(h as nat) + ":"@ + number::dec2(m as nat)], cmd)
            ==> (cmd matches MpdCommand::Wake(WakeCmd::Arm { when, selector, count })
            && when == (WakeWhen::At { h: h, m }) && selector is None && count == 20),
{
    let words = seq!["wake"@, "at"@, number::dec(h as nat) + ":"@ + number::dec2(m as nat)];
    if asks(words, cmd) {
        let a = seq!["at"@, number::dec(h as nat) + ":"@ + number::dec2(m as nat)];
        assert(seq!["wake"@] + a =~= words);
        read_as_wake(a, cmd);
        command::a_clock_time_is_the_one_written(h as nat, m as nat);
        reveal_strlit("at");
        text::small_letters_stay("at"@);
        reveal_strlit("off");
        reveal_strlit("cancel");
        reveal_strlit("list");
        assert("list"@.len() == 4 && "off"@.len() == 3 && "cancel"@.len() == 6);
        assert(args::tail(a, 2) =~= Seq::<Seq<char>>::empty());
    }
}

/// An alarm for a clock time in one half of the day goes off in that half, at the hour on the
/// face of the clock.
pub proof fn alarms_heed_the_half_of_the_day(h: u32, m: u32, cmd: MpdCommand)
    requires
        1 <= h <= 12,
        m < 60,
    ensures
        asks(seq!["wake"@, "at"@, number::dec(h as nat) + ":"@ + number::dec2(m as nat) + "am"@],
            cmd) ==> (cmd matches MpdCommand::Wake(WakeCmd::Arm { when, selector, count })
            && when matches WakeWhen::At { h: hour, m: minute } && minute == m && hour < 12
            && (hour == h || hour + 12 == h) && selector is None && count == 20),
        asks(seq!["wake"@, "at"@, number::dec(h as nat) + ":"@ + number::dec2(m as nat) + "pm"@],
            cmd) ==> (cmd matches MpdCommand::Wake(WakeCmd::Arm { when, selector, count })
            && when matches WakeWhen::At { h: hour, m: minute } && minute == m && 12 <= hour < 24
            && (hour == h || hour == h + 12) && selector is None && count == 20),
{
    wake_before_noon(h, m, cmd);
    wake_after_noon(h, m, cmd);
}

proof fn wake_before_noon(h: u32, m: u32, cmd: MpdCommand)
    requires
        1 <= h <= 12,
        m < 60,
    ensures
        asks(seq!["wake"@, "at"@, number::dec(h as nat) + ":"@ + number::dec2(m as nat) + "am"@],
            cmd) ==> (cmd matches MpdCommand::Wake(WakeCmd::Arm { when, selector, count })
            && when matches WakeWhen::At { h: hour, m: minute } && minute == m && hour < 12
            && (hour == h || hour + 12 == h) && selector is None && count == 20),
{
    let words = seq!["wake"@, "at"@, number::dec(h as nat) + ":"@ + number::dec2(m as nat) + "am"@];
    if asks(words, cmd) {
        let a = seq!["at"@, number::dec(h as nat) + ":"@ + number::dec2(m as nat) + "am"@];
        assert(seq!["wake"@] + a =~= words);
        read_as_wake(a, cmd);
        let none = Seq::<char>::empty();
        reveal_strlit("am");
        reveal_strlit("pm");
        command::halves_of_the_day_are_twelve_hours_apart(h as nat, m as nat, none, "am"@, "pm"@);
        assert(number::dec(h as nat) + ":"@ + number::dec2(m as nat)
            + none =~= number::dec(h as nat) + ":"@ + number::dec2(m as nat));
        reveal_strlit("at");
        text::small_letters_stay("at"@);
        reveal_strlit("off");
        reveal_strlit("cancel");
        reveal_strlit("list");
        assert("list"@.len() == 4 && "off"@.len() == 3 && "cancel"@.len() == 6);
        assert(args::tail(a, 2) =~= Seq::<Seq<char>>::empty());
    }
}

proof fn wake_after_noon(h: u32, m: u32, cmd: MpdCommand)
    requires
        1 <= h <= 12,
        m < 60,
    ensures
        asks(seq!["wake"@, "at"@, number::dec(h as nat) + ":"@ + number::dec2(m as nat) + "pm"@],
            cmd) ==> (cmd matches MpdCommand::Wake(WakeCmd::Arm { when, selector, count })
            && when matches WakeWhen::At { h: hour, m: minute } && minute == m && 12 <= hour < 24
            && (hour == h || hour == h + 12) && selector is None && count == 20),
{
    let words = seq!["wake"@, "at"@, number::dec(h as nat) + ":"@ + number::dec2(m as nat) + "pm"@];
    if asks(words, cmd) {
        let a = seq!["at"@, number::dec(h as nat) + ":"@ + number::dec2(m as nat) + "pm"@];
        assert(seq!["wake"@] + a =~= words);
        read_as_wake(a, cmd);
        let none = Seq::<char>::empty();
        reveal_strlit("am");
        reveal_strlit("pm");
        command::halves_of_the_day_are_twelve_hours_apart(h as nat, m as nat, none, "am"@, "pm"@);
        assert(number::dec(h as nat) + ":"@ + number::dec2(m as nat)
            + none =~= number::dec(h as nat) + ":"@ + number::dec2(m as nat));
        reveal_strlit("at");
        text::small_letters_stay("at"@);
        reveal_strlit("off");
        reveal_strlit("cancel");
        reveal_strlit("list");
        assert("list"@.len() == 4 && "off"@.len() == 3 && "cancel"@.len() == 6);
        assert(args::tail(a, 2) =~= Seq::<Seq<char>>::empty());
    }
}

/// What is named behind `with` is what the alarm plays.
pub proof fn an_alarm_plays_what_was_named(h: u32, m: u32, x: Seq<char>, cmd: MpdCommand)
    requires
        h < 24,
        m < 60,
        x.len() > 0,
        !text::is_ws(x[0]),
        !text::is_ws(x.last()),
    ensures
        asks(seq!["wake"@, "at"@, number::dec(h as nat) + ":"@ + number::dec2(m as nat), "with"@,
            x], cmd) ==> (cmd matches MpdCommand::Wake(WakeCmd::Arm { when, selector, count })
            && when == (WakeWhen::At { h, m }) && count == 20 && text::opt(selector) == Some(x)),
{
    wake_with_a_selection(h, m, x, cmd);
}

proof fn wake_with_a_selection(h: u32, m: u32, x: Seq<char>, cmd: MpdCommand)
    requires
        h < 24,
        m < 60,
        x.len() > 0,
        !text::is_ws(x[0]),
        !text::is_ws(x.last()),
    ensures
        asks(seq!["wake"@, "at"@, number::dec(h as nat) + ":"@ + number::dec2(m as nat), "with"@,
            x], cmd) ==> (cmd matches MpdCommand::Wake(WakeCmd::Arm { when, selector, count })
            && when == (WakeWhen::At { h, m }) && count == 20 && text::opt(selector) == Some(x)),
{
    let words = seq!["wake"@, "at"@, number::dec(h as nat) + ":"@ + number::dec2(m as nat), "with"@,
        x];
    if asks(words, cmd) {
        let a = seq!["at"@, number::dec(h as nat) + ":"@ + number::dec2(m as nat), "with"@, x];
        assert(seq!["wake"@] + a =~= words);
        read_as_wake(a, cmd);
        command::a_clock_time_is_the_one_written(h as nat, m as nat);
        reveal_strlit("at");
        reveal_strlit("with");
        text::small_letters_stay("at"@);
        text::small_letters_stay("with"@);
        reveal_strlit("off");
        reveal_strlit("cancel");
        reveal_strlit("list");
        assert("list"@.len() == 4 && "off"@.len() == 3 && "cancel"@.len() == 6);
        let rest = seq!["with"@, x];
        assert(args::tail(a, 2) =~= rest);
        assert(args::alike("with"@, "with"@));
        assert(args::first_word(rest, "with"@, 0) == Some(0int));
        assert(rest.skip(1) =~= seq![x]);
        assert(text::joined(seq![x], " "@) == x);
        assert(x + Seq::<char>::empty() =~= x);
        command::bare_is_trimmed(x, Seq::<char>::empty());
    }
}

/// The words that steer the field stand alone; any other phrase is a pull, and `less` and `back`
/// weaken what `more` strengthens.
pub proof fn a_word_alone_steers_the_field(cmd: MpdCommand)
    ensures
        asks(seq!["field"@], cmd) ==> cmd == MpdCommand::Field(FieldCmd::Status),
        asks(seq!["field"@, "clear"@], cmd) ==> cmd == MpdCommand::Field(FieldCmd::Clear),
        asks(seq!["field"@, "less"@], cmd) ==> cmd
            == MpdCommand::Field(FieldCmd::Nudge(FieldNudge::Less)),
        asks(seq!["field"@, "back"@], cmd) ==> cmd
            == MpdCommand::Field(FieldCmd::Nudge(FieldNudge::Less)),
        asks(seq!["field"@, "more"@], cmd) ==> cmd
            == MpdCommand::Field(FieldCmd::Nudge(FieldNudge::More)),
{
    field_status(cmd);
    field_clear(cmd);
    field_less(cmd);
    field_back(cmd);
    field_more(cmd);
}

proof fn field_status(cmd: MpdCommand)
    ensures
        asks(seq!["field"@], cmd) ==> cmd == MpdCommand::Field(FieldCmd::Status),
{
    let words = seq!["field"@];
    if asks(words, cmd) {
        let a = Seq::<Seq<char>>::empty();
        assert(seq!["field"@] + a =~= words);
        read_as_field(a, cmd);
    }
}

proof fn field_clear(cmd: MpdCommand)
    ensures
        asks(seq!["field"@, "clear"@], cmd) ==> cmd == MpdCommand::Field(FieldCmd::Clear),
{
    let words = seq!["field"@, "clear"@];
    if asks(words, cmd) {
        let a = seq!["clear"@];
        assert(seq!["field"@] + a =~= words);
        read_as_field(a, cmd);
        reveal_strlit("clear");
        text::small_letters_stay("clear"@);
    }
}

proof fn field_less(cmd: MpdCommand)
    ensures
        asks(seq!["field"@, "less"@], cmd) ==> cmd
            == MpdCommand::Field(FieldCmd::Nudge(FieldNudge::Less)),
{
    let words = seq!["field"@, "less"@];
    if asks(words, cmd) {
        let a = seq!["less"@];
        assert(seq!["field"@] + a =~= words);
        read_as_field(a, cmd);
        reveal_strlit("less");
        text::small_letters_stay("less"@);
        reveal_strlit("clear");
    }
}

proof fn field_back(cmd: MpdCommand)
    ensures
        asks(seq!["field"@, "back"@], cmd) ==> cmd
            == MpdCommand::Field(FieldCmd::Nudge(FieldNudge::Less)),
{
    let words = seq!["field"@, "back"@];
    if asks(words, cmd) {
        let a = seq!["back"@];
        assert(seq!["field"@] + a =~= words);
        read_as_field(a, cmd);
        reveal_strlit("back");
        text::small_letters_stay("back"@);
        reveal_strlit("clear");
    }
}

proof fn field_more(cmd: MpdCommand)
    ensures
        asks(seq!["field"@, "more"@], cmd) ==> cmd
            == MpdCommand::Field(FieldCmd::Nudge(FieldNudge::More)),
{
    let words = seq!["field"@, "more"@];
    if asks(words, cmd) {
        let a = seq!["more"@];
        assert(seq!["field"@] + a =~= words);
        read_as_field(a, cmd);
        reveal_strlit("more");
        text::small_letters_stay("more"@);
        reveal_strlit("clear");
        reveal_strlit("less");
        reveal_strlit("back");
        assert("less"@[0] == 'l' && "back"@[0] == 'b');
    }
}

/// A phrase of more words than one is taken whole, with one blank between them.
pub proof fn a_phrase_is_taken_whole(x: Seq<char>, y: Seq<char>, cmd: MpdCommand)
    ensures
        asks(seq!["field"@, x, y], cmd) ==> (cmd matches MpdCommand::Field(FieldCmd::Pull(s))
            && s@ == x + " "@ + y),
        asks(seq!["nl"@, x, y], cmd) ==> command::is_token(y)
            || (cmd matches MpdCommand::Nl(NlCmd::Translate { req, owner }) && req@ == x + " "@ + y
            && owner == 0),
        asks(seq!["nl"@], cmd) ==> refused(seq!["nl"@], cmd),
        asks(seq!["nl"@, x], cmd) ==> (cmd matches MpdCommand::Nl(NlCmd::Translate { req, owner })
            && req@ == x && owner == 0),
{
    field_phrase(x, y, cmd);
    nl_phrase(x, y, cmd);
    nl_of_nothing(x, y, cmd);
    nl_of_one(x, y, cmd);
}

proof fn field_phrase(x: Seq<char>, y: Seq<char>, cmd: MpdCommand)
    ensures
        asks(seq!["field"@, x, y], cmd) ==> (cmd matches MpdCommand::Field(FieldCmd::Pull(s))
            && s@ == x + " "@ + y),
{
    let words = seq!["field"@, x, y];
    if asks(words, cmd) {
        let a = seq![x, y];
        assert(seq!["field"@] + a =~= words);
        read_as_field(a, cmd);
        assert(text::joined(seq![x, y], " "@) == x + " "@ + y) by {
            reveal_with_fuel(text::joined, 3);
            assert(text::joined(seq![x, y], " "@) =~= x + " "@ + y);
        }
    }
}

proof fn nl_phrase(x: Seq<char>, y: Seq<char>, cmd: MpdCommand)
    ensures
        asks(seq!["nl"@, x, y], cmd) ==> command::is_token(y)
            || (cmd matches MpdCommand::Nl(NlCmd::Translate { req, owner }) && req@ == x + " "@ + y
            && owner == 0),
{
    let words = seq!["nl"@, x, y];
    if asks(words, cmd) {
        let a = seq![x, y];
        assert(seq!["nl"@] + a =~= words);
        read_as_nl(a, cmd);
        assert(text::joined(seq![x, y], " "@) == x + " "@ + y) by {
            reveal_with_fuel(text::joined, 3);
            assert(text::joined(seq![x, y], " "@) =~= x + " "@ + y);
        }
    }
}

proof fn nl_of_nothing(x: Seq<char>, y: Seq<char>, cmd: MpdCommand)
    ensures
        asks(seq!["nl"@], cmd) ==> refused(seq!["nl"@], cmd),
{
    let words = seq!["nl"@];
    if asks(words, cmd) {
        let a = Seq::<Seq<char>>::empty();
        assert(seq!["nl"@] + a =~= words);
        read_as_nl(a, cmd);
        assert(seq!["nl"@] + a =~= seq!["nl"@]);
    }
}

proof fn nl_of_one(x: Seq<char>, y: Seq<char>, cmd: MpdCommand)
    ensures
        asks(seq!["nl"@, x], cmd) ==> (cmd matches MpdCommand::Nl(NlCmd::Translate { req, owner })
            && req@ == x && owner == 0),
{
    let words = seq!["nl"@, x];
    if asks(words, cmd) {
        let a = seq![x];
        assert(seq!["nl"@] + a =~= words);
        read_as_nl(a, cmd);
        assert(text::joined(seq![x], " "@) =~= x);
    }
}

/// A token, `nl-` and hexadecimal digits, is confirmed or cancelled as it is said.
pub proof fn a_token_is_confirmed_or_cancelled(hex: Seq<char>, cmd: MpdCommand)
    requires
        hex.len() > 0,
        forall|i: int| 0 <= i < hex.len() ==> '0' <= #[trigger] hex[i] <= '9'
            || 'a' <= hex[i] <= 'f',
    ensures
        asks(seq!["nl"@, "confirm"@, "nl-"@ + hex], cmd)
            ==> (cmd matches MpdCommand::Nl(NlCmd::Confirm { token, owner })
            && token@ == "nl-"@ + hex && owner == 0),
        asks(seq!["nl"@, "cancel"@, "nl-"@ + hex], cmd)
            ==> (cmd matches MpdCommand::Nl(NlCmd::Cancel { token, owner })
            && token@ == "nl-"@ + hex && owner == 0),
{
    nl_confirm(hex, cmd);
    nl_cancel(hex, cmd);
}

proof fn nl_confirm(hex: Seq<char>, cmd: MpdCommand)
    requires
        hex.len() > 0,
        forall|i: int| 0 <= i < hex.len() ==> '0' <= #[trigger] hex[i] <= '9'
            || 'a' <= hex[i] <= 'f',
    ensures
        asks(seq!["nl"@, "confirm"@, "nl-"@ + hex], cmd)
            ==> (cmd matches MpdCommand::Nl(NlCmd::Confirm { token, owner })
            && token@ == "nl-"@ + hex && owner == 0),
{
    let words = seq!["nl"@, "confirm"@, "nl-"@ + hex];
    if asks(words, cmd) {
        let a = seq!["confirm"@, "nl-"@ + hex];
        assert(seq!["nl"@] + a =~= words);
        read_as_nl(a, cmd);
        reveal_strlit("nl-");
        let t = "nl-"@ + hex;
        assert(t.subrange(0, 3) =~= "nl-"@);
        assert(t.skip(3) =~= hex);
        reveal_strlit("confirm");
        text::small_letters_stay("confirm"@);
    }
}

proof fn nl_cancel(hex: Seq<char>, cmd: MpdCommand)
    requires
        hex.len() > 0,
        forall|i: int| 0 <= i < hex.len() ==> '0' <= #[trigger] hex[i] <= '9'
            || 'a' <= hex[i] <= 'f',
    ensures
        asks(seq!["nl"@, "cancel"@, "nl-"@ + hex], cmd)
            ==> (cmd matches MpdCommand::Nl(NlCmd::Cancel { token, owner })
            && token@ == "nl-"@ + hex && owner == 0),
{
    let words = seq!["nl"@, "cancel"@, "nl-"@ + hex];
    if asks(words, cmd) {
        let a = seq!["cancel"@, "nl-"@ + hex];
        assert(seq!["nl"@] + a =~= words);
        read_as_nl(a, cmd);
        reveal_strlit("nl-");
        let t = "nl-"@ + hex;
        assert(t.subrange(0, 3) =~= "nl-"@);
        assert(t.skip(3) =~= hex);
        reveal_strlit("cancel");
        reveal_strlit("confirm");
        text::small_letters_stay("cancel"@);
        text::small_letters_stay("confirm"@);
        assert("cancel"@[1] == 'a' && "confirm"@[1] == 'o');
    }
}

/// Plans are listed by `plan list`, and the one of a number is cancelled by that number.
pub proof fn plans_are_cancelled_by_number(n: u64, cmd: MpdCommand)
    ensures
        asks(seq!["plan"@, "list"@], cmd) ==> cmd == MpdCommand::Plan(PlanCmd::List),
        asks(seq!["plan"@, "cancel"@, number::dec(n as nat)], cmd)
            ==> cmd == MpdCommand::Plan(PlanCmd::Cancel(PlanId(n))),
        asks(seq!["plan"@], cmd) ==> refused(seq!["plan"@], cmd),
{
    plan_list(n, cmd);
    plan_cancel(n, cmd);
    plan_alone(n, cmd);
}

proof fn plan_list(n: u64, cmd: MpdCommand)
    ensures
        asks(seq!["plan"@, "list"@], cmd) ==> cmd == MpdCommand::Plan(PlanCmd::List),
{
    let words = seq!["plan"@, "list"@];
    if asks(words, cmd) {
        let a = seq!["list"@];
        assert(seq!["plan"@] + a =~= words);
        read_as_plan(a, cmd);
        reveal_strlit("list");
        text::small_letters_stay("list"@);
    }
}

proof fn plan_cancel(n: u64, cmd: MpdCommand)
    ensures
        asks(seq!["plan"@, "cancel"@, number::dec(n as nat)], cmd)
            ==> cmd == MpdCommand::Plan(PlanCmd::Cancel(PlanId(n))),
{
    let words = seq!["plan"@, "cancel"@, number::dec(n as nat)];
    if asks(words, cmd) {
        let a = seq!["cancel"@, number::dec(n as nat)];
        assert(seq!["plan"@] + a =~= words);
        read_as_plan(a, cmd);
        reveal_strlit("cancel");
        text::small_letters_stay("cancel"@);
        reveal_strlit("list");
        reveal_strlit("cancel");
        reveal_strlit("add");
        reveal_strlit("replace");
        number::dec_is_unsigned(n as nat, u64::MAX as nat);
        assert("list"@.len() == 4);
    }
}

proof fn plan_alone(n: u64, cmd: MpdCommand)
    ensures
        asks(seq!["plan"@], cmd) ==> refused(seq!["plan"@], cmd),
{
    let words = seq!["plan"@];
    if asks(words, cmd) {
        let a = Seq::<Seq<char>>::empty();
        assert(seq!["plan"@] + a =~= words);
        read_as_plan(a, cmd);
        assert(seq!["plan"@] + a =~= seq!["plan"@]);
    }
}

/// The rating of a song is read, taken away, listed or set as asked; what exceeds five stars
/// counts as five.
pub proof fn a_rating_is_kept_as_given(x: Seq<char>, n: u8, cmd: MpdCommand)
    ensures
        asks(seq!["sticker"@, "get"@, "song"@, x, "rating"@], cmd)
            ==> (cmd matches MpdCommand::Sticker(StickerCmd::Get { uri }) && uri@ == x),
        asks(seq!["sticker"@, "delete"@, "song"@, x, "rating"@], cmd)
            ==> (cmd matches MpdCommand::Sticker(StickerCmd::Delete { uri }) && uri@ == x),
        asks(seq!["sticker"@, "list"@, "song"@, x], cmd)
            ==> (cmd matches MpdCommand::Sticker(StickerCmd::List { uri }) && uri@ == x),
        asks(seq!["sticker"@, "set"@, "song"@, x, "rating"@, number::dec(n as nat)], cmd)
            ==> (cmd matches MpdCommand::Sticker(StickerCmd::Rate { uri, value }) && uri@ == x
            && if n <= 5 { value == n } else { value == 5 }),
{
    sticker_get(x, n, cmd);
    sticker_delete(x, n, cmd);
    sticker_list(x, n, cmd);
    sticker_set(x, n, cmd);
}

proof fn sticker_get(x: Seq<char>, n: u8, cmd: MpdCommand)
    ensures
        asks(seq!["sticker"@, "get"@, "song"@, x, "rating"@], cmd)
            ==> (cmd matches MpdCommand::Sticker(StickerCmd::Get { uri }) && uri@ == x),
{
    let words = seq!["sticker"@, "get"@, "song"@, x, "rating"@];
    if asks(words, cmd) {
        let a = seq!["get"@, "song"@, x, "rating"@];
        assert(seq!["sticker"@] + a =~= words);
        read_as_sticker(a, cmd);
        reveal_strlit("get");
        reveal_strlit("rating");
        text::small_letters_stay("get"@);
        text::small_letters_stay("rating"@);
        reveal_strlit("get");
        reveal_strlit("delete");
        reveal_strlit("list");
        reveal_strlit("set");
        assert("get"@[0] == 'g' && "set"@[0] == 's' && "list"@.len() == 4 && "delete"@.len() == 6);
    }
}

proof fn sticker_delete(x: Seq<char>, n: u8, cmd: MpdCommand)
    ensures
        asks(seq!["sticker"@, "delete"@, "song"@, x, "rating"@], cmd)
            ==> (cmd matches MpdCommand::Sticker(StickerCmd::Delete { uri }) && uri@ == x),
{
    let words = seq!["sticker"@, "delete"@, "song"@, x, "rating"@];
    if asks(words, cmd) {
        let a = seq!["delete"@, "song"@, x, "rating"@];
        assert(seq!["sticker"@] + a =~= words);
        read_as_sticker(a, cmd);
        reveal_strlit("delete");
        reveal_strlit("rating");
        text::small_letters_stay("delete"@);
        text::small_letters_stay("rating"@);
        reveal_strlit("get");
        reveal_strlit("delete");
        reveal_strlit("list");
        reveal_strlit("set");
        assert("get"@[0] == 'g' && "set"@[0] == 's' && "list"@.len() == 4 && "delete"@.len() == 6);
    }
}

proof fn sticker_list(x: Seq<char>, n: u8, cmd: MpdCommand)
    ensures
        asks(seq!["sticker"@, "list"@, "song"@, x], cmd)
            ==> (cmd matches MpdCommand::Sticker(StickerCmd::List { uri }) && uri@ == x),
{
    let words = seq!["sticker"@, "list"@, "song"@, x];
    if asks(words, cmd) {
        let a = seq!["list"@, "song"@, x];
        assert(seq!["sticker"@] + a =~= words);
        read_as_sticker(a, cmd);
        reveal_strlit("list");
        reveal_strlit("rating");
        text::small_letters_stay("list"@);
        text::small_letters_stay("rating"@);
        reveal_strlit("get");
        reveal_strlit("delete");
        reveal_strlit("list");
        reveal_strlit("set");
        assert("get"@[0] == 'g' && "set"@[0] == 's' && "list"@.len() == 4 && "delete"@.len() == 6);
    }
}

proof fn sticker_set(x: Seq<char>, n: u8, cmd: MpdCommand)
    ensures
        asks(seq!["sticker"@, "set"@, "song"@, x, "rating"@, number::dec(n as nat)], cmd)
            ==> (cmd matches MpdCommand::Sticker(StickerCmd::Rate { uri, value }) && uri@ == x
            && if n <= 5 { value == n } else { value == 5 }),
{
    let words = seq!["sticker"@, "set"@, "song"@, x, "rating"@, number::dec(n as nat)];
    if asks(words, cmd) {
        let a = seq!["set"@, "song"@, x, "rating"@, number::dec(n as nat)];
        assert(seq!["sticker"@] + a =~= words);
        read_as_sticker(a, cmd);
        reveal_strlit("set");
        reveal_strlit("rating");
        text::small_letters_stay("set"@);
        text::small_letters_stay("rating"@);
        reveal_strlit("get");
        reveal_strlit("delete");
        reveal_strlit("list");
        reveal_strlit("set");
        assert("get"@[0] == 'g' && "set"@[0] == 's' && "list"@.len() == 4 && "delete"@.len() == 6);
        number::dec_is_unsigned(n as nat, u8::MAX as nat);
    }
}

/// A search looks for the value under the tag that is named before it, whether it shows or adds
/// what it finds.
pub proof fn a_search_looks_for_what_is_named(x: Seq<char>, cmd: MpdCommand)
    ensures
        asks(seq!["find"@, "artist"@, x], cmd) ==> (cmd matches MpdCommand::Find(f)
            && text::pairs(f@) == seq![("artist"@, x)]),
        asks(seq!["find"@, "any"@, x], cmd) ==> (cmd matches MpdCommand::Find(f)
            && text::pairs(f@) == seq![("any"@, x)]),
        asks(seq!["search"@, "artist"@, x], cmd) ==> (cmd matches MpdCommand::Search(f)
            && text::pairs(f@) == seq![("artist"@, x)]),
        asks(seq!["search"@, "any"@, x], cmd) ==> (cmd matches MpdCommand::Search(f)
            && text::pairs(f@) == seq![("any"@, x)]),
        asks(seq!["findadd"@, "artist"@, x], cmd) ==> (cmd matches MpdCommand::FindAdd(f)
            && text::pairs(f@) == seq![("artist"@, x)]),
        asks(seq!["findadd"@, "any"@, x], cmd) ==> (cmd matches MpdCommand::FindAdd(f)
            && text::pairs(f@) == seq![("any"@, x)]),
        asks(seq!["searchadd"@, "artist"@, x], cmd) ==> (cmd matches MpdCommand::SearchAdd(f)
            && text::pairs(f@) == seq![("artist"@, x)]),
        asks(seq!["searchadd"@, "any"@, x], cmd) ==> (cmd matches MpdCommand::SearchAdd(f)
            && text::pairs(f@) == seq![("any"@, x)]),
{
    find_by_artist(x, cmd);
    find_anywhere(x, cmd);
    search_by_artist(x, cmd);
    search_anywhere(x, cmd);
    findadd_by_artist(x, cmd);
    findadd_anywhere(x, cmd);
    searchadd_by_artist(x, cmd);
    searchadd_anywhere(x, cmd);
}

proof fn find_by_artist(x: Seq<char>, cmd: MpdCommand)
    ensures
        asks(seq!["find"@, "artist"@, x], cmd) ==> (cmd matches MpdCommand::Find(f)
            && text::pairs(f@) == seq![("artist"@, x)]),
{
    let words = seq!["find"@, "artist"@, x];
    if asks(words, cmd) {
        let a = seq!["artist"@, x];
        command::names_of_requests();
        reveal_strlit("find");
        assert(seq!["find"@] + a =~= words);
        read_by_name("find"@, a, cmd);
        filter::a_tag_takes_the_value_behind_it(a, 0);
        reveal_strlit("artist");
        text::small_letters_stay("artist"@);
        assert(filter::filters(a, 2) =~= Seq::empty());
        let want = seq![("artist"@, x)];
        assert(want + filter::filters(a, 2) =~= want);
    }
}

proof fn find_anywhere(x: Seq<char>, cmd: MpdCommand)
    ensures
        asks(seq!["find"@, "any"@, x], cmd) ==> (cmd matches MpdCommand::Find(f)
            && text::pairs(f@) == seq![("any"@, x)]),
{
    let words = seq!["find"@, "any"@, x];
    if asks(words, cmd) {
        let a = seq!["any"@, x];
        command::names_of_requests();
        reveal_strlit("find");
        assert(seq!["find"@] + a =~= words);
        read_by_name("find"@, a, cmd);
        filter::a_tag_takes_the_value_behind_it(a, 0);
        reveal_strlit("any");
        text::small_letters_stay("any"@);
        assert(filter::filters(a, 2) =~= Seq::empty());
        let want = seq![("any"@, x)];
        assert(want + filter::filters(a, 2) =~= want);
    }
}

proof fn search_by_artist(x: Seq<char>, cmd: MpdCommand)
    ensures
        asks(seq!["search"@, "artist"@, x], cmd) ==> (cmd matches MpdCommand::Search(f)
            && text::pairs(f@) == seq![("artist"@, x)]),
{
    let words = seq!["search"@, "artist"@, x];
    if asks(words, cmd) {
        let a = seq!["artist"@, x];
        command::names_of_requests();
        reveal_strlit("search");
        assert(seq!["search"@] + a =~= words);
        read_by_name("search"@, a, cmd);
        filter::a_tag_takes_the_value_behind_it(a, 0);
        reveal_strlit("artist");
        text::small_letters_stay("artist"@);
        assert(filter::filters(a, 2) =~= Seq::empty());
        let want = seq![("artist"@, x)];
        assert(want + filter::filters(a, 2) =~= want);
    }
}

proof fn search_anywhere(x: Seq<char>, cmd: MpdCommand)
    ensures
        asks(seq!["search"@, "any"@, x], cmd) ==> (cmd matches MpdCommand::Search(f)
            && text::pairs(f@) == seq![("any"@, x)]),
{
    let words = seq!["search"@, "any"@, x];
    if asks(words, cmd) {
        let a = seq!["any"@, x];
        command::names_of_requests();
        reveal_strlit("search");
        assert(seq!["search"@] + a =~= words);
        read_by_name("search"@, a, cmd);
        filter::a_tag_takes_the_value_behind_it(a, 0);
        reveal_strlit("any");
        text::small_letters_stay("any"@);
        assert(filter::filters(a, 2) =~= Seq::empty());
        let want = seq![("any"@, x)];
        assert(want + filter::filters(a, 2) =~= want);
    }
}

proof fn findadd_by_artist(x: Seq<char>, cmd: MpdCommand)
    ensures
        asks(seq!["findadd"@, "artist"@, x], cmd) ==> (cmd matches MpdCommand::FindAdd(f)
            && text::pairs(f@) == seq![("artist"@, x)]),
{
    let words = seq!["findadd"@, "artist"@, x];
    if asks(words, cmd) {
        let a = seq!["artist"@, x];
        command::names_of_requests();
        reveal_strlit("findadd");
        assert(seq!["findadd"@] + a =~= words);
        read_by_name("findadd"@, a, cmd);
        filter::a_tag_takes_the_value_behind_it(a, 0);
        reveal_strlit("artist");
        text::small_letters_stay("artist"@);
        assert(filter::filters(a, 2) =~= Seq::empty());
        let want = seq![("artist"@, x)];
        assert(want + filter::filters(a, 2) =~= want);
    }
}

proof fn findadd_anywhere(x: Seq<char>, cmd: MpdCommand)
    ensures
        asks(seq!["findadd"@, "any"@, x], cmd) ==> (cmd matches MpdCommand::FindAdd(f)
            && text::pairs(f@) == seq![("any"@, x)]),
{
    let words = seq!["findadd"@, "any"@, x];
    if asks(words, cmd) {
        let a = seq!["any"@, x];
        command::names_of_requests();
        reveal_strlit("findadd");
        assert(seq!["findadd"@] + a =~= words);
        read_by_name("findadd"@, a, cmd);
        filter::a_tag_takes_the_value_behind_it(a, 0);
        reveal_strlit("any");
        text::small_letters_stay("any"@);
        assert(filter::filters(a, 2) =~= Seq::empty());
        let want = seq![("any"@, x)];
        assert(want + filter::filters(a, 2) =~= want);
    }
}

proof fn searchadd_by_artist(x: Seq<char>, cmd: MpdCommand)
    ensures
        asks(seq!["searchadd"@, "artist"@, x], cmd) ==> (cmd matches MpdCommand::SearchAdd(f)
            && text::pairs(f@) == seq![("artist"@, x)]),
{
    let words = seq!["searchadd"@, "artist"@, x];
    if asks(words, cmd) {
        let a = seq!["artist"@, x];
        command::names_of_requests();
        reveal_strlit("searchadd");
        assert(seq!["searchadd"@] + a =~= words);
        read_by_name("searchadd"@, a, cmd);
        filter::a_tag_takes_the_value_behind_it(a, 0);
        reveal_strlit("artist");
        text::small_letters_stay("artist"@);
        assert(filter::filters(a, 2) =~= Seq::empty());
        let want = seq![("artist"@, x)];
        assert(want + filter::filters(a, 2) =~= want);
    }
}

proof fn searchadd_anywhere(x: Seq<char>, cmd: MpdCommand)
    ensures
        asks(seq!["searchadd"@, "any"@, x], cmd) ==> (cmd matches MpdCommand::SearchAdd(f)
            && text::pairs(f@) == seq![("any"@, x)]),
{
    let words = seq!["searchadd"@, "any"@, x];
    if asks(words, cmd) {
        let a = seq!["any"@, x];
        command::names_of_requests();
        reveal_strlit("searchadd");
        assert(seq!["searchadd"@] + a =~= words);
        read_by_name("searchadd"@, a, cmd);
        filter::a_tag_takes_the_value_behind_it(a, 0);
        reveal_strlit("any");
        text::small_letters_stay("any"@);
        assert(filter::filters(a, 2) =~= Seq::empty());
        let want = seq![("any"@, x)];
        assert(want + filter::filters(a, 2) =~= want);
    }
}

/// A plan that is added is the one that its words write, and a plan that replaces another
/// takes the number of that one; words that write no plan are refused.
pub proof fn a_plan_is_added_as_written(words: Seq<Seq<char>>, n: u64, cmd: MpdCommand)
    ensures
        asks(seq!["plan"@, "add"@] + words, cmd) ==> match cmd {
            MpdCommand::Plan(PlanCmd::Add(plan)) => dsl::reads_raw_plan(words, Some(plan)),
            _ => refused(seq!["plan"@, "add"@] + words, cmd) && dsl::reads_raw_plan(words, None),
        },
        asks(seq!["plan"@, "replace"@, number::dec(n as nat)] + words, cmd) ==> match cmd {
            MpdCommand::Plan(PlanCmd::Replace(id, plan)) => id == PlanId(n) && dsl::reads_raw_plan(
                words,
                Some(plan),
            ),
            _ => refused(seq!["plan"@, "replace"@, number::dec(n as nat)] + words, cmd)
                && dsl::reads_raw_plan(words, None),
        },
{
    plan_is_added(words, cmd);
    plan_is_replaced(words, n, cmd);
}

proof fn plan_is_added(words: Seq<Seq<char>>, cmd: MpdCommand)
    ensures
        asks(seq!["plan"@, "add"@] + words, cmd) ==> match cmd {
            MpdCommand::Plan(PlanCmd::Add(plan)) => dsl::reads_raw_plan(words, Some(plan)),
            _ => refused(seq!["plan"@, "add"@] + words, cmd) && dsl::reads_raw_plan(words, None),
        },
{
    let line = seq!["plan"@, "add"@] + words;
    if asks(line, cmd) {
        let a = seq!["add"@] + words;
        assert(seq!["plan"@] + a =~= line);
        read_as_plan(a, cmd);
        reveal_strlit("add");
        reveal_strlit("list");
        reveal_strlit("cancel");
        text::small_letters_stay("add"@);
        assert("list"@.len() == 4 && "cancel"@.len() == 6);
        assert(a[0] == "add"@);
        assert(a.skip(1) =~= words);
    }
}

proof fn plan_is_replaced(words: Seq<Seq<char>>, n: u64, cmd: MpdCommand)
    ensures
        asks(seq!["plan"@, "replace"@, number::dec(n as nat)] + words, cmd) ==> match cmd {
            MpdCommand::Plan(PlanCmd::Replace(id, plan)) => id == PlanId(n) && dsl::reads_raw_plan(
                words,
                Some(plan),
            ),
            _ => refused(seq!["plan"@, "replace"@, number::dec(n as nat)] + words, cmd)
                && dsl::reads_raw_plan(words, None),
        },
{
    let line = seq!["plan"@, "replace"@, number::dec(n as nat)] + words;
    if asks(line, cmd) {
        let a = seq!["replace"@, number::dec(n as nat)] + words;
        assert(seq!["plan"@] + a =~= line);
        read_as_plan(a, cmd);
        reveal_strlit("replace");
        reveal_strlit("add");
        reveal_strlit("list");
        reveal_strlit("cancel");
        text::small_letters_stay("replace"@);
        number::dec_is_unsigned(n as nat, u64::MAX as nat);
        assert("replace"@.len() == 7 && "add"@.len() == 3 && "list"@.len() == 4 && "cancel"@.len()
            == 6);
        assert(a[0] == "replace"@ && a[1] == number::dec(n as nat));
        assert(args::tail(a, 2) =~= words);
    }
}

/// The name of a request is known in letters of either case: what a line asks for, it asks
/// for in small letters too.
pub proof fn names_are_known_in_either_case(w: Seq<char>, a: Seq<Seq<char>>, cmd: MpdCommand)
    requires
        text::ascii(w),
        asks(seq![w] + a, cmd),
        !(cmd is Unsupported),
    ensures
        asks(seq![text::ascii_lower(w)] + a, cmd),
{
    reveal(asks);
    let l = text::ascii_lower(w);
    let none = Seq::<char>::empty();
    let one = seq![w] + a;
    let two = seq![l] + a;
    round_trip::line_reads_back(one, none);
    round_trip::line_reads_back(two, none);
    assert(echo::line_of(one) + none =~= echo::line_of(one));
    assert(echo::line_of(two) + none =~= echo::line_of(two));
    assert(tokens::tokens(none) =~= Seq::<Seq<char>>::empty());
    assert(one + tokens::tokens(none) =~= one);
    assert(two + tokens::tokens(none) =~= two);
    assert(text::ascii(l));
    assert(text::ascii_lower(l) =~= l);
    assert(one.skip(1) =~= a && two.skip(1) =~= a);
    assert(command::reads_command(l, a, echo::line_of(one), cmd));
    a_line_matters_to_refusals_alone(l, a, echo::line_of(one), echo::line_of(two), cmd);
}

#[verifier::spinoff_prover]
#[verifier::rlimit(60)]
proof fn a_line_matters_to_refusals_alone(
    name: Seq<char>,
    a: Seq<Seq<char>>,
    one: Seq<char>,
    two: Seq<char>,
    cmd: MpdCommand,
)
    requires
        command::reads_command(name, a, one, cmd),
        !(cmd is Unsupported),
    ensures
        command::reads_command(name, a, two, cmd),
{
}

/// A listing names its tag first, and is filtered by the expression behind it; so is a count.
pub proof fn a_listing_is_filtered_by_its_expression(tag: Seq<char>, v: Seq<char>, cmd: MpdCommand)
    requires
        tag.len() > 0,
        forall|i: int| 0 <= i < tag.len() ==> 'a' <= #[trigger] tag[i] <= 'z',
        v.len() > 0,
        v[0] != '"',
        v.last() != '"',
    ensures
        asks(seq!["list"@, "album"@, seq!['('] + tag + " == "@ + seq!['"'] + v + seq!['"', ')']],
            cmd) ==> (cmd matches MpdCommand::List { tag: t, filter } && t@ == "album"@
            && text::pairs(filter@) == seq![(tag, v)]),
        asks(seq!["list"@, "album"@], cmd) ==> (cmd matches MpdCommand::List { tag: t, filter }
            && t@ == "album"@ && filter@.len() == 0),
        asks(seq!["count"@, seq!['('] + tag + " == "@ + seq!['"'] + v + seq!['"', ')']], cmd)
            ==> (cmd matches MpdCommand::Count(f) && text::pairs(f@) == seq![(tag, v)]),
{
    list_of_albums(tag, v, cmd);
    list_of_tags(tag, v, cmd);
    count_by_expression(tag, v, cmd);
}

proof fn list_of_albums(tag: Seq<char>, v: Seq<char>, cmd: MpdCommand)
    requires
        tag.len() > 0,
        forall|i: int| 0 <= i < tag.len() ==> 'a' <= #[trigger] tag[i] <= 'z',
        v.len() > 0,
        v[0] != '"',
        v.last() != '"',
    ensures
        asks(seq!["list"@, "album"@, seq!['('] + tag + " == "@ + seq!['"'] + v + seq!['"', ')']],
            cmd) ==> (cmd matches MpdCommand::List { tag: t, filter } && t@ == "album"@
            && text::pairs(filter@) == seq![(tag, v)]),
{
    let words = seq!["list"@, "album"@, seq!['('] + tag + " == "@ + seq!['"'] + v + seq!['"', ')']];
    if asks(words, cmd) {
        let a = seq!["album"@, seq!['('] + tag + " == "@ + seq!['"'] + v + seq!['"', ')']];
        command::names_of_requests();
        reveal_strlit("list");
        assert(seq!["list"@] + a =~= words);
        read_by_name("list"@, a, cmd);
        filter::one_expression_is_a_filter(tag, v);
        reveal_strlit("album");
        text::small_letters_stay("album"@);
        assert(args::tail(a, 1) =~= seq![seq!['('] + tag + " == "@ + seq!['"'] + v + seq!['"',
            ')']]);
    }
}

proof fn list_of_tags(tag: Seq<char>, v: Seq<char>, cmd: MpdCommand)
    requires
        tag.len() > 0,
        forall|i: int| 0 <= i < tag.len() ==> 'a' <= #[trigger] tag[i] <= 'z',
        v.len() > 0,
        v[0] != '"',
        v.last() != '"',
    ensures
        asks(seq!["list"@, "album"@], cmd) ==> (cmd matches MpdCommand::List { tag: t, filter }
            && t@ == "album"@ && filter@.len() == 0),
{
    let words = seq!["list"@, "album"@];
    if asks(words, cmd) {
        let a = seq!["album"@];
        command::names_of_requests();
        reveal_strlit("list");
        assert(seq!["list"@] + a =~= words);
        read_by_name("list"@, a, cmd);
        reveal_strlit("album");
        text::small_letters_stay("album"@);
        assert(args::tail(a, 1) =~= Seq::<Seq<char>>::empty());
        assert(filter::ungrouped(args::tail(a, 1)) =~= Seq::<Seq<char>>::empty());
        if let MpdCommand::List { tag: t, filter: f } = cmd {
            assert(text::pairs(f@).len() == f@.len());
        }
    }
}

proof fn count_by_expression(tag: Seq<char>, v: Seq<char>, cmd: MpdCommand)
    requires
        tag.len() > 0,
        forall|i: int| 0 <= i < tag.len() ==> 'a' <= #[trigger] tag[i] <= 'z',
        v.len() > 0,
        v[0] != '"',
        v.last() != '"',
    ensures
        asks(seq!["count"@, seq!['('] + tag + " == "@ + seq!['"'] + v + seq!['"', ')']], cmd)
            ==> (cmd matches MpdCommand::Count(f) && text::pairs(f@) == seq![(tag, v)]),
{
    let words = seq!["count"@, seq!['('] + tag + " == "@ + seq!['"'] + v + seq!['"', ')']];
    if asks(words, cmd) {
        let a = seq![seq!['('] + tag + " == "@ + seq!['"'] + v + seq!['"', ')']];
        command::names_of_requests();
        reveal_strlit("count");
        assert(seq!["count"@] + a =~= words);
        read_by_name("count"@, a, cmd);
        filter::one_expression_is_a_filter(tag, v);
    }
}

/// A timer, an alarm or a fade that is asked for with a text that writes no time is refused.
pub proof fn what_is_no_time_is_refused(x: Seq<char>, cmd: MpdCommand)
    requires
        text::ascii(x),
        forall|i: int| 0 <= i < x.len() ==> !('0' <= #[trigger] x[i] <= '9'),
        text::lower(x) != "off"@,
        text::lower(x) != "cancel"@,
        text::lower(x) != "floor"@,
    ensures
        asks(seq!["sleep"@, x], cmd) ==> refused(seq!["sleep"@, x], cmd),
        asks(seq!["winddown"@, x], cmd) ==> refused(seq!["winddown"@, x], cmd),
        asks(seq!["wake"@, "in"@, x], cmd) ==> refused(seq!["wake"@, "in"@, x], cmd),
        asks(seq!["wake"@, "at"@, x], cmd) ==> refused(seq!["wake"@, "at"@, x], cmd),
        asks(seq!["fade"@, "out"@, x], cmd) ==> refused(seq!["fade"@, "out"@, x], cmd),
        asks(seq!["fade"@, "in"@, x], cmd) ==> refused(seq!["fade"@, "in"@, x], cmd),
        asks(seq!["fade"@, "to"@, x], cmd) ==> refused(seq!["fade"@, "to"@, x], cmd),
{
    sleep_for_no_time(x, cmd);
    winddown_for_no_time(x, cmd);
    wake_in_no_time(x, cmd);
    wake_at_no_time(x, cmd);
    fade_out_in_no_time(x, cmd);
    fade_in_in_no_time(x, cmd);
    fade_to_no_volume(x, cmd);
}

proof fn sleep_for_no_time(x: Seq<char>, cmd: MpdCommand)
    requires
        text::ascii(x),
        forall|i: int| 0 <= i < x.len() ==> !('0' <= #[trigger] x[i] <= '9'),
        text::lower(x) != "off"@,
        text::lower(x) != "cancel"@,
        text::lower(x) != "floor"@,
    ensures
        asks(seq!["sleep"@, x], cmd) ==> refused(seq!["sleep"@, x], cmd),
{
    let words = seq!["sleep"@, x];
    if asks(words, cmd) {
        let a = seq![x];
        assert(seq!["sleep"@] + a =~= words);
        read_as_sleep(a, cmd);
        command::without_digits_there_is_no_time(x);
    }
}

proof fn winddown_for_no_time(x: Seq<char>, cmd: MpdCommand)
    requires
        text::ascii(x),
        forall|i: int| 0 <= i < x.len() ==> !('0' <= #[trigger] x[i] <= '9'),
        text::lower(x) != "off"@,
        text::lower(x) != "cancel"@,
        text::lower(x) != "floor"@,
    ensures
        asks(seq!["winddown"@, x], cmd) ==> refused(seq!["winddown"@, x], cmd),
{
    let words = seq!["winddown"@, x];
    if asks(words, cmd) {
        let a = seq![x];
        assert(seq!["winddown"@] + a =~= words);
        read_as_winddown(a, cmd);
        command::without_digits_there_is_no_time(x);
    }
}

proof fn wake_in_no_time(x: Seq<char>, cmd: MpdCommand)
    requires
        text::ascii(x),
        forall|i: int| 0 <= i < x.len() ==> !('0' <= #[trigger] x[i] <= '9'),
        text::lower(x) != "off"@,
        text::lower(x) != "cancel"@,
        text::lower(x) != "floor"@,
    ensures
        asks(seq!["wake"@, "in"@, x], cmd) ==> refused(seq!["wake"@, "in"@, x], cmd),
{
    let words = seq!["wake"@, "in"@, x];
    if asks(words, cmd) {
        let a = seq!["in"@, x];
        assert(seq!["wake"@] + a =~= words);
        read_as_wake(a, cmd);
        command::without_digits_there_is_no_time(x);
        reveal_strlit("off");
        reveal_strlit("cancel");
        assert("off"@[0] == 'o' && "cancel"@[0] == 'c');
        reveal_strlit("in");
        text::small_letters_stay("in"@);
        reveal_strlit("list");
        reveal_strlit("at");
        assert("list"@.len() == 4 && "off"@.len() == 3 && "cancel"@.len() == 6 && "at"@[0] == 'a');
    }
}

proof fn wake_at_no_time(x: Seq<char>, cmd: MpdCommand)
    requires
        text::ascii(x),
        forall|i: int| 0 <= i < x.len() ==> !('0' <= #[trigger] x[i] <= '9'),
        text::lower(x) != "off"@,
        text::lower(x) != "cancel"@,
        text::lower(x) != "floor"@,
    ensures
        asks(seq!["wake"@, "at"@, x], cmd) ==> refused(seq!["wake"@, "at"@, x], cmd),
{
    let words = seq!["wake"@, "at"@, x];
    if asks(words, cmd) {
        let a = seq!["at"@, x];
        assert(seq!["wake"@] + a =~= words);
        read_as_wake(a, cmd);
        command::without_digits_there_is_no_time(x);
        reveal_strlit("off");
        reveal_strlit("cancel");
        assert("off"@[0] == 'o' && "cancel"@[0] == 'c');
        reveal_strlit("at");
        text::small_letters_stay("at"@);
        reveal_strlit("list");
        assert("list"@.len() == 4 && "off"@.len() == 3 && "cancel"@.len() == 6);
    }
}

proof fn fade_out_in_no_time(x: Seq<char>, cmd: MpdCommand)
    requires
        text::ascii(x),
        forall|i: int| 0 <= i < x.len() ==> !('0' <= #[trigger] x[i] <= '9'),
        text::lower(x) != "off"@,
        text::lower(x) != "cancel"@,
        text::lower(x) != "floor"@,
    ensures
        asks(seq!["fade"@, "out"@, x], cmd) ==> refused(seq!["fade"@, "out"@, x], cmd),
{
    let words = seq!["fade"@, "out"@, x];
    if asks(words, cmd) {
        let a = seq!["out"@, x];
        assert(seq!["fade"@] + a =~= words);
        read_as_fade(a, cmd);
        dsl::without_digits_there_are_no_seconds(x);
        reveal_strlit("out");
        text::small_letters_stay("out"@);
    }
}

proof fn fade_in_in_no_time(x: Seq<char>, cmd: MpdCommand)
    requires
        text::ascii(x),
        forall|i: int| 0 <= i < x.len() ==> !('0' <= #[trigger] x[i] <= '9'),
        text::lower(x) != "off"@,
        text::lower(x) != "cancel"@,
        text::lower(x) != "floor"@,
    ensures
        asks(seq!["fade"@, "in"@, x], cmd) ==> refused(seq!["fade"@, "in"@, x], cmd),
{
    let words = seq!["fade"@, "in"@, x];
    if asks(words, cmd) {
        let a = seq!["in"@, x];
        assert(seq!["fade"@] + a =~= words);
        read_as_fade(a, cmd);
        dsl::without_digits_there_are_no_seconds(x);
        reveal_strlit("in");
        text::small_letters_stay("in"@);
    }
}

proof fn fade_to_no_volume(x: Seq<char>, cmd: MpdCommand)
    requires
        text::ascii(x),
        forall|i: int| 0 <= i < x.len() ==> !('0' <= #[trigger] x[i] <= '9'),
        text::lower(x) != "off"@,
        text::lower(x) != "cancel"@,
        text::lower(x) != "floor"@,
    ensures
        asks(seq!["fade"@, "to"@, x], cmd) ==> refused(seq!["fade"@, "to"@, x], cmd),
{
    let words = seq!["fade"@, "to"@, x];
    if asks(words, cmd) {
        let a = seq!["to"@, x];
        assert(seq!["fade"@] + a =~= words);
        read_as_fade(a, cmd);
        number::without_digits_there_is_no_number(x, 1, 0);
        reveal_strlit("to");
        text::small_letters_stay("to"@);
        reveal_strlit("out");
        reveal_strlit("in");
        assert("out"@.len() == 3 && "in"@[0] == 'i');
        reveal_strlit("floor");
        text::small_letters_stay("floor"@);
    }
}

/// Any other word behind `fade` than those that it knows is refused.
pub proof fn other_words_of_fade_are_refused(x: Seq<char>, rest: Seq<char>, cmd: MpdCommand)
    requires
        text::lower(x) != "out"@,
        text::lower(x) != "in"@,
        text::lower(x) != "to"@,
    ensures
        asks(seq!["fade"@, x, rest], cmd) ==> refused(seq!["fade"@, x, rest], cmd),
{
    fade_of_another_word(x, rest, cmd);
}

proof fn fade_of_another_word(x: Seq<char>, rest: Seq<char>, cmd: MpdCommand)
    requires
        text::lower(x) != "out"@,
        text::lower(x) != "in"@,
        text::lower(x) != "to"@,
    ensures
        asks(seq!["fade"@, x, rest], cmd) ==> refused(seq!["fade"@, x, rest], cmd),
{
    let words = seq!["fade"@, x, rest];
    if asks(words, cmd) {
        let a = seq![x, rest];
        assert(seq!["fade"@] + a =~= words);
        read_as_fade(a, cmd);
    }
}

/// Any other word behind `plan` than those that it knows is refused.
pub proof fn other_words_of_plan_are_refused(x: Seq<char>, rest: Seq<char>, cmd: MpdCommand)
    requires
        text::lower(x) != "list"@,
        text::lower(x) != "cancel"@,
        text::lower(x) != "add"@,
        text::lower(x) != "replace"@,
    ensures
        asks(seq!["plan"@, x, rest], cmd) ==> refused(seq!["plan"@, x, rest], cmd),
{
    plan_of_another_word(x, rest, cmd);
}

proof fn plan_of_another_word(x: Seq<char>, rest: Seq<char>, cmd: MpdCommand)
    requires
        text::lower(x) != "list"@,
        text::lower(x) != "cancel"@,
        text::lower(x) != "add"@,
        text::lower(x) != "replace"@,
    ensures
        asks(seq!["plan"@, x, rest], cmd) ==> refused(seq!["plan"@, x, rest], cmd),
{
    let words = seq!["plan"@, x, rest];
    if asks(words, cmd) {
        let a = seq![x, rest];
        assert(seq!["plan"@] + a =~= words);
        read_as_plan(a, cmd);
    }
}

/// Any other word behind `wake` than those that it knows is refused.
pub proof fn other_words_of_wake_are_refused(x: Seq<char>, rest: Seq<char>, cmd: MpdCommand)
    requires
        text::lower(x) != "list"@,
        text::lower(x) != "off"@,
        text::lower(x) != "cancel"@,
        text::lower(x) != "at"@,
        text::lower(x) != "in"@,
    ensures
        asks(seq!["wake"@, x, rest], cmd) ==> refused(seq!["wake"@, x, rest], cmd),
{
    wake_of_another_word(x, rest, cmd);
}

proof fn wake_of_another_word(x: Seq<char>, rest: Seq<char>, cmd: MpdCommand)
    requires
        text::lower(x) != "list"@,
        text::lower(x) != "off"@,
        text::lower(x) != "cancel"@,
        text::lower(x) != "at"@,
        text::lower(x) != "in"@,
    ensures
        asks(seq!["wake"@, x, rest], cmd) ==> refused(seq!["wake"@, x, rest], cmd),
{
    let words = seq!["wake"@, x, rest];
    if asks(words, cmd) {
        let a = seq![x, rest];
        assert(seq!["wake"@] + a =~= words);
        read_as_wake(a, cmd);
    }
}

/// A mode is set by nothing but 0 and 1, and the knob is turned by nothing but its two ways.
pub proof fn other_settings_are_refused(x: Seq<char>, cmd: MpdCommand)
    requires
        x != "0"@,
        x != "1"@,
        x != "oneshot"@,
        x != "up"@,
        x != "down"@,
    ensures
        asks(seq!["pause"@, x], cmd) ==> refused(seq!["pause"@, x], cmd),
        asks(seq!["random"@, x], cmd) ==> refused(seq!["random"@, x], cmd),
        asks(seq!["repeat"@, x], cmd) ==> refused(seq!["repeat"@, x], cmd),
        asks(seq!["consume"@, x], cmd) ==> refused(seq!["consume"@, x], cmd),
        asks(seq!["single"@, x], cmd) ==> refused(seq!["single"@, x], cmd),
        asks(seq!["knob"@, x], cmd) ==> refused(seq!["knob"@, x], cmd),
{
    pause_of_another_word(x, cmd);
    random_of_another_word(x, cmd);
    repeat_of_another_word(x, cmd);
    consume_of_another_word(x, cmd);
    single_of_another_word(x, cmd);
    knob_of_another_word(x, cmd);
}

proof fn pause_of_another_word(x: Seq<char>, cmd: MpdCommand)
    requires
        x != "0"@,
        x != "1"@,
        x != "oneshot"@,
        x != "up"@,
        x != "down"@,
    ensures
        asks(seq!["pause"@, x], cmd) ==> refused(seq!["pause"@, x], cmd),
{
    let words = seq!["pause"@, x];
    if asks(words, cmd) {
        let a = seq![x];
        command::names_of_requests();
        reveal_strlit("pause");
        assert(seq!["pause"@] + a =~= words);
        read_by_name("pause"@, a, cmd);
    }
}

proof fn random_of_another_word(x: Seq<char>, cmd: MpdCommand)
    requires
        x != "0"@,
        x != "1"@,
        x != "oneshot"@,
        x != "up"@,
        x != "down"@,
    ensures
        asks(seq!["random"@, x], cmd) ==> refused(seq!["random"@, x], cmd),
{
    let words = seq!["random"@, x];
    if asks(words, cmd) {
        let a = seq![x];
        command::names_of_requests();
        reveal_strlit("random");
        assert(seq!["random"@] + a =~= words);
        read_by_name("random"@, a, cmd);
    }
}

proof fn repeat_of_another_word(x: Seq<char>, cmd: MpdCommand)
    requires
        x != "0"@,
        x != "1"@,
        x != "oneshot"@,
        x != "up"@,
        x != "down"@,
    ensures
        asks(seq!["repeat"@, x], cmd) ==> refused(seq!["repeat"@, x], cmd),
{
    let words = seq!["repeat"@, x];
    if asks(words, cmd) {
        let a = seq![x];
        command::names_of_requests();
        reveal_strlit("repeat");
        assert(seq!["repeat"@] + a =~= words);
        read_by_name("repeat"@, a, cmd);
    }
}

proof fn consume_of_another_word(x: Seq<char>, cmd: MpdCommand)
    requires
        x != "0"@,
        x != "1"@,
        x != "oneshot"@,
        x != "up"@,
        x != "down"@,
    ensures
        asks(seq!["consume"@, x], cmd) ==> refused(seq!["consume"@, x], cmd),
{
    let words = seq!["consume"@, x];
    if asks(words, cmd) {
        let a = seq![x];
        command::names_of_requests();
        reveal_strlit("consume");
        assert(seq!["consume"@] + a =~= words);
        read_by_name("consume"@, a, cmd);
    }
}

proof fn single_of_another_word(x: Seq<char>, cmd: MpdCommand)
    requires
        x != "0"@,
        x != "1"@,
        x != "oneshot"@,
        x != "up"@,
        x != "down"@,
    ensures
        asks(seq!["single"@, x], cmd) ==> refused(seq!["single"@, x], cmd),
{
    let words = seq!["single"@, x];
    if asks(words, cmd) {
        let a = seq![x];
        command::names_of_requests();
        reveal_strlit("single");
        assert(seq!["single"@] + a =~= words);
        read_by_name("single"@, a, cmd);
    }
}

proof fn knob_of_another_word(x: Seq<char>, cmd: MpdCommand)
    requires
        x != "0"@,
        x != "1"@,
        x != "oneshot"@,
        x != "up"@,
        x != "down"@,
    ensures
        asks(seq!["knob"@, x], cmd) ==> refused(seq!["knob"@, x], cmd),
{
    let words = seq!["knob"@, x];
    if asks(words, cmd) {
        let a = seq![x];
        command::names_of_requests();
        reveal_strlit("knob");
        assert(seq!["knob"@] + a =~= words);
        read_by_name("knob"@, a, cmd);
    }
}

} // verus!
