//! What a line that a user typed asks for: a control, or natural language.
//!
//! A control is meant only where nothing but its word, the one value that it takes and
//! filler stand there. Everything else is natural language.

use vstd::prelude::*;

use crate::number;
use crate::text;

verus! {

/// What is to be done.
#[derive(Clone, Debug, PartialEq, Eq)]
pub enum Action {
    /// Show what plays.
    NowPlaying,
    /// Show the queue.
    Queue,
    /// Send this request, and show what plays.
    Command(String),
    /// Clear the queue, if the user confirms it.
    ClearConfirm,
    /// Show the help.
    Help,
    /// Make the track that plays a favorite.
    FavoriteCurrent,
    /// Ask in natural language.
    Nl(String),
}

/// The words that make a favorite.
pub open spec fn favorite_verbs() -> Seq<Seq<char>> {
    seq!["fav"@, "favorite"@, "favourite"@, "star"@]
}

/// The words that resume.
pub open spec fn resume_verbs() -> Seq<Seq<char>> {
    seq!["resume"@, "unpause"@, "continue"@]
}

/// The nouns that stand for the track that plays.
pub open spec fn filler_nouns() -> Seq<Seq<char>> {
    seq!["song"@, "track"@, "this"@, "current"@, "one"@, "it"@]
}

/// More words that change nothing behind a control.
pub open spec fn filler_words() -> Seq<Seq<char>> {
    seq!["the"@, "a"@, "that"@, "my"@, "music"@, "tune"@, "playing"@, "now"@, "please"@]
}

/// More words that change nothing behind a resume.
pub open spec fn resume_fillers() -> Seq<Seq<char>> {
    seq!["playback"@, "again"@]
}

/// A word changes nothing behind a favorite.
pub open spec fn is_filler(w: Seq<char>) -> bool {
    text::is_any(w, filler_nouns()) || text::is_any(w, filler_words())
}

/// A word changes nothing behind a resume.
pub open spec fn fills_resume(w: Seq<char>) -> bool {
    is_filler(w) || text::is_any(w, resume_fillers())
}

/// The words ask for a favorite, and name nothing.
pub open spec fn bare_favorite(a: Seq<Seq<char>>) -> bool {
    &&& a.len() > 0
    &&& text::is_any(a[0], favorite_verbs())
    &&& forall|i: int| 1 <= i < a.len() ==> is_filler(#[trigger] a[i])
}

/// The words ask to resume, and name nothing.
pub open spec fn bare_resume(a: Seq<Seq<char>>) -> bool {
    &&& a.len() > 0
    &&& text::is_any(a[0], resume_verbs())
    &&& forall|i: int| 1 <= i < a.len() ==> fills_resume(#[trigger] a[i])
}

/// What an action sends or asks for, as text.
#[verifier::ext_equal]
pub enum Meant {
    /// Show what plays.
    NowPlaying,
    /// Show the queue.
    Queue,
    /// Send this request.
    Command(Seq<char>),
    /// Clear the queue.
    ClearConfirm,
    /// Show the help.
    Help,
    /// Make a favorite.
    FavoriteCurrent,
    /// Ask in natural language.
    Nl(Seq<char>),
}

impl Action {
    /// What this sends or asks for.
    pub open spec fn meant(self) -> Meant {
        match self {
            Action::NowPlaying => Meant::NowPlaying,
            Action::Queue => Meant::Queue,
            Action::Command(s) => Meant::Command(s@),
            Action::ClearConfirm => Meant::ClearConfirm,
            Action::Help => Meant::Help,
            Action::FavoriteCurrent => Meant::FavoriteCurrent,
            Action::Nl(s) => Meant::Nl(s@),
        }
    }
}

/// What one word asks for.
pub open spec fn one_word(w: Seq<char>) -> Meant {
    if w == "now"@ || w == "status"@ {
        Meant::NowPlaying
    } else if w == "queue"@ {
        Meant::Queue
    } else if w == "play"@ {
        Meant::Command("play"@)
    } else if w == "pause"@ {
        Meant::Command("pause"@)
    } else if text::is_any(w, resume_verbs()) {
        Meant::Command("pause 0"@)
    } else if w == "stop"@ {
        Meant::Command("stop"@)
    } else if w == "next"@ || w == "skip"@ {
        Meant::Command("next"@)
    } else if w == "prev"@ || w == "previous"@ || w == "back"@ {
        Meant::Command("previous"@)
    } else if text::is_any(w, favorite_verbs()) {
        Meant::FavoriteCurrent
    } else if w == "clear"@ {
        Meant::ClearConfirm
    } else if w == "help"@ {
        Meant::Help
    } else {
        Meant::Nl(w)
    }
}

/// The words as one phrase.
pub open spec fn phrase(a: Seq<Seq<char>>) -> Seq<char> {
    text::joined(a, " "@)
}

/// What two words ask for.
pub open spec fn two_words(a: Seq<Seq<char>>) -> Meant {
    let w = a[0];
    let x = a[1];
    if w == "vol"@ || w == "volume"@ {
        match number::unsigned_of(x, u32::MAX as nat) {
            Some(n) => if n <= 100 {
                Meant::Command("setvol "@ + number::dec(n))
            } else {
                Meant::Nl(phrase(a))
            },
            None => Meant::Nl(phrase(a)),
        }
    } else if !text::is_any(x, filler_nouns()) {
        Meant::Nl(phrase(a))
    } else if w == "next"@ || w == "skip"@ {
        Meant::Command("next"@)
    } else if w == "prev"@ || w == "previous"@ || w == "back"@ {
        Meant::Command("previous"@)
    } else if text::is_any(w, favorite_verbs()) {
        Meant::FavoriteCurrent
    } else {
        Meant::Nl(phrase(a))
    }
}

/// What words ask for.
pub open spec fn meaning(a: Seq<Seq<char>>) -> Meant {
    if bare_favorite(a) {
        Meant::FavoriteCurrent
    } else if bare_resume(a) {
        Meant::Command("pause 0"@)
    } else if a.len() == 0 {
        Meant::NowPlaying
    } else if a.len() == 1 {
        one_word(a[0])
    } else if a.len() == 2 {
        two_words(a)
    } else {
        Meant::Nl(phrase(a))
    }
}

fn is_favorite_verb(w: &str) -> (r: bool)
    ensures
        r == text::is_any(w@, favorite_verbs()),
{
    let words = vec!["fav", "favorite", "favourite", "star"];
    assert(text::views(words@) =~= favorite_verbs());
    text::is_one_of(w, &words)
}

fn is_resume_verb(w: &str) -> (r: bool)
    ensures
        r == text::is_any(w@, resume_verbs()),
{
    let words = vec!["resume", "unpause", "continue"];
    assert(text::views(words@) =~= resume_verbs());
    text::is_one_of(w, &words)
}

fn is_filler_noun(w: &str) -> (r: bool)
    ensures
        r == text::is_any(w@, filler_nouns()),
{
    let words = vec!["song", "track", "this", "current", "one", "it"];
    assert(text::views(words@) =~= filler_nouns());
    text::is_one_of(w, &words)
}

fn is_filler_word(w: &str) -> (r: bool)
    ensures
        r == is_filler(w@),
{
    let words = vec!["the", "a", "that", "my", "music", "tune", "playing", "now", "please"];
    assert(text::views(words@) =~= filler_words());
    is_filler_noun(w) || text::is_one_of(w, &words)
}

fn is_resume_filler(w: &str) -> (r: bool)
    ensures
        r == fills_resume(w@),
{
    let words = vec!["playback", "again"];
    assert(text::views(words@) =~= resume_fillers());
    is_filler_word(w) || text::is_one_of(w, &words)
}

fn is_bare_favorite(args: &[String]) -> (r: bool)
    ensures
        r == bare_favorite(text::texts(args@)),
{
    let ghost a = text::texts(args@);
    if args.len() == 0 || !is_favorite_verb(args[0].as_str()) {
        return false;
    }
    let mut i: usize = 1;
    while i < args.len()
        invariant
            1 <= i <= args@.len(),
            a == text::texts(args@),
            forall|k: int| 1 <= k < i ==> is_filler(#[trigger] a[k]),
        decreases args@.len() - i,
    {
        if !is_filler_word(args[i].as_str()) {
            assert(!is_filler(a[i as int]));
            return false;
        }
        i += 1;
    }
    true
}

fn is_bare_resume(args: &[String]) -> (r: bool)
    ensures
        r == bare_resume(text::texts(args@)),
{
    let ghost a = text::texts(args@);
    if args.len() == 0 || !is_resume_verb(args[0].as_str()) {
        return false;
    }
    let mut i: usize = 1;
    while i < args.len()
        invariant
            1 <= i <= args@.len(),
            a == text::texts(args@),
            forall|k: int| 1 <= k < i ==> fills_resume(#[trigger] a[k]),
        decreases args@.len() - i,
    {
        if !is_resume_filler(args[i].as_str()) {
            assert(!fills_resume(a[i as int]));
            return false;
        }
        i += 1;
    }
    true
}

fn send(line: &str) -> (r: Action)
    ensures
        r.meant() == Meant::Command(line@),
{
    Action::Command(line.to_owned())
}

fn route_one(w: &str) -> (r: Action)
    ensures
        r.meant() == one_word(w@),
{
    if text::same(w, "now") || text::same(w, "status") {
        Action::NowPlaying
    } else if text::same(w, "queue") {
        Action::Queue
    } else if text::same(w, "play") {
        send("play")
    } else if text::same(w, "pause") {
        send("pause")
    } else if is_resume_verb(w) {
        send("pause 0")
    } else if text::same(w, "stop") {
        send("stop")
    } else if text::same(w, "next") || text::same(w, "skip") {
        send("next")
    } else if text::same(w, "prev") || text::same(w, "previous") || text::same(w, "back") {
        send("previous")
    } else if is_favorite_verb(w) {
        Action::FavoriteCurrent
    } else if text::same(w, "clear") {
        Action::ClearConfirm
    } else if text::same(w, "help") {
        Action::Help
    } else {
        Action::Nl(w.to_owned())
    }
}

fn route_two(args: &[String]) -> (r: Action)
    requires
        args@.len() == 2,
    ensures
        r.meant() == two_words(text::texts(args@)),
{
    let w = args[0].as_str();
    let x = args[1].as_str();
    if text::same(w, "vol") || text::same(w, "volume") {
        if let Some(n) = number::parse_u32(x) {
            if n <= 100 {
                let mut s = "setvol ".to_owned();
                s.append(number::dec_u64(n as u64).as_str());
                return Action::Command(s);
            }
        }
        return Action::Nl(text::join(args, " "));
    }
    if is_filler_noun(x) {
        if text::same(w, "next") || text::same(w, "skip") {
            return send("next");
        }
        if text::same(w, "prev") || text::same(w, "previous") || text::same(w, "back") {
            return send("previous");
        }
        if is_favorite_verb(w) {
            return Action::FavoriteCurrent;
        }
    }
    Action::Nl(text::join(args, " "))
}

/// What words ask for.
pub fn route(args: &[String]) -> (r: Action)
    ensures
        r.meant() == meaning(text::texts(args@)),
{
    let ghost a = text::texts(args@);
    if is_bare_favorite(args) {
        return Action::FavoriteCurrent;
    }
    if is_bare_resume(args) {
        return send("pause 0");
    }
    if args.len() == 0 {
        Action::NowPlaying
    } else if args.len() == 1 {
        assert(a[0] == args@[0]@);
        route_one(args[0].as_str())
    } else if args.len() == 2 {
        route_two(args)
    } else {
        Action::Nl(text::join(args, " "))
    }
}

/// A phrase of three words or more is never taken for a control other than a favorite or
/// a resume that name nothing: it is asked in natural language, word for word.
pub proof fn long_phrases_are_natural_language(a: Seq<Seq<char>>)
    requires
        a.len() >= 3,
        !bare_favorite(a),
        !bare_resume(a),
    ensures
        meaning(a) == Meant::Nl(phrase(a)),
{
}

/// To resume is never to play anew: whatever begins with a word for it either goes on at
/// the position or is asked in natural language.
pub proof fn a_resume_does_not_restart(a: Seq<Seq<char>>)
    requires
        a.len() > 0,
        text::is_any(a[0], resume_verbs()),
    ensures
        meaning(a) == Meant::Command("pause 0"@) || meaning(a) == Meant::Nl(phrase(a)),
{
    reveal_strlit("resume");
    reveal_strlit("unpause");
    reveal_strlit("continue");
    reveal_strlit("fav");
    reveal_strlit("favorite");
    reveal_strlit("favourite");
    reveal_strlit("star");
    reveal_strlit("vol");
    reveal_strlit("volume");
    reveal_strlit("next");
    reveal_strlit("skip");
    reveal_strlit("prev");
    reveal_strlit("previous");
    reveal_strlit("back");
    let i = choose|i: int| 0 <= i < resume_verbs().len() && a[0] == #[trigger] resume_verbs()[i];
    let w = a[0];
    assert(w[0] == 'r' || w[0] == 'u' || w[0] == 'c');
    assert(!text::is_any(w, favorite_verbs())) by {
        assert forall|k: int| 0 <= k < favorite_verbs().len() implies w
            != #[trigger] favorite_verbs()[k] by {
            let f = favorite_verbs()[k];
            assert(f[0] == 'f' || f[0] == 's');
        }
    }
    assert("vol"@[0] == 'v' && "volume"@[0] == 'v' && "next"@[0] == 'n' && "skip"@[0] == 's'
        && "prev"@[0] == 'p' && "previous"@[0] == 'p' && "back"@[0] == 'b');
}

/// Playing is asked for by the word alone.
pub proof fn only_the_word_plays(a: Seq<Seq<char>>)
    requires
        meaning(a) == Meant::Command("play"@),
    ensures
        a.len() == 1,
        a[0] == "play"@,
{
    reveal_strlit("play");
    reveal_strlit("pause 0");
    reveal_strlit("pause");
    reveal_strlit("stop");
    reveal_strlit("next");
    reveal_strlit("previous");
    reveal_strlit("setvol ");
    assert("stop"@[0] == 's' && "next"@[0] == 'n' && "play"@[0] == 'p');
    assert("play"@.len() == 4 && "pause"@.len() == 5 && "pause 0"@.len() == 7 && "previous"@.len()
        == 8);
    if a.len() == 2 {
        match number::unsigned_of(a[1], u32::MAX as nat) {
            Some(n) => {
                assert(("setvol "@ + number::dec(n)).len() >= 7);
            },
            None => {},
        }
    }
}

proof fn control_words()
    ensures
        "now"@.len() == 3 && "now"@[0] == 'n' && "now"@[1] == 'o',
        "status"@.len() == 6 && "status"@[0] == 's' && "status"@[1] == 't',
        "queue"@.len() == 5 && "queue"@[0] == 'q' && "queue"@[1] == 'u',
        "play"@.len() == 4 && "play"@[0] == 'p' && "play"@[1] == 'l',
        "pause"@.len() == 5 && "pause"@[0] == 'p' && "pause"@[1] == 'a',
        "resume"@.len() == 6 && "resume"@[0] == 'r' && "resume"@[1] == 'e',
        "unpause"@.len() == 7 && "unpause"@[0] == 'u' && "unpause"@[1] == 'n',
        "continue"@.len() == 8 && "continue"@[0] == 'c' && "continue"@[1] == 'o',
        "stop"@.len() == 4 && "stop"@[0] == 's' && "stop"@[1] == 't',
        "next"@.len() == 4 && "next"@[0] == 'n' && "next"@[1] == 'e',
        "skip"@.len() == 4 && "skip"@[0] == 's' && "skip"@[1] == 'k',
        "prev"@.len() == 4 && "prev"@[0] == 'p' && "prev"@[1] == 'r',
        "previous"@.len() == 8 && "previous"@[0] == 'p' && "previous"@[1] == 'r',
        "back"@.len() == 4 && "back"@[0] == 'b' && "back"@[1] == 'a',
        "fav"@.len() == 3 && "fav"@[0] == 'f' && "fav"@[1] == 'a',
        "favorite"@.len() == 8 && "favorite"@[0] == 'f' && "favorite"@[1] == 'a',
        "favourite"@.len() == 9 && "favourite"@[0] == 'f' && "favourite"@[1] == 'a',
        "star"@.len() == 4 && "star"@[0] == 's' && "star"@[1] == 't',
        "clear"@.len() == 5 && "clear"@[0] == 'c' && "clear"@[1] == 'l',
        "help"@.len() == 4 && "help"@[0] == 'h' && "help"@[1] == 'e',
        "vol"@.len() == 3 && "vol"@[0] == 'v' && "vol"@[1] == 'o',
        "volume"@.len() == 6 && "volume"@[0] == 'v' && "volume"@[1] == 'o',
        "stop"@[2] == 'o' && "star"@[2] == 'a',
{
    reveal_strlit("now");
    reveal_strlit("status");
    reveal_strlit("queue");
    reveal_strlit("play");
    reveal_strlit("pause");
    reveal_strlit("resume");
    reveal_strlit("unpause");
    reveal_strlit("continue");
    reveal_strlit("stop");
    reveal_strlit("next");
    reveal_strlit("skip");
    reveal_strlit("prev");
    reveal_strlit("previous");
    reveal_strlit("back");
    reveal_strlit("fav");
    reveal_strlit("favorite");
    reveal_strlit("favourite");
    reveal_strlit("star");
    reveal_strlit("clear");
    reveal_strlit("help");
    reveal_strlit("vol");
    reveal_strlit("volume");
}

proof fn verbs_are_these(w: Seq<char>)
    ensures
        text::is_any(w, favorite_verbs()) == (w == "fav"@ || w == "favorite"@ || w == "favourite"@
            || w == "star"@),
        text::is_any(w, resume_verbs()) == (w == "resume"@ || w == "unpause"@ || w == "continue"@),
{
    assert(favorite_verbs()[0] == "fav"@);
    assert(favorite_verbs()[1] == "favorite"@);
    assert(favorite_verbs()[2] == "favourite"@);
    assert(favorite_verbs()[3] == "star"@);
    assert(resume_verbs()[0] == "resume"@);
    assert(resume_verbs()[1] == "unpause"@);
    assert(resume_verbs()[2] == "continue"@);
}

/// A word alone asks for the control that it names, any other word is asked in natural
/// language, and nothing said asks what plays.
pub proof fn a_word_is_its_control(w: Seq<char>)
    ensures
        meaning(Seq::empty()) == Meant::NowPlaying,
        w == "now"@ || w == "status"@ ==> meaning(seq![w]) == Meant::NowPlaying,
        w == "queue"@ ==> meaning(seq![w]) == Meant::Queue,
        w == "play"@ ==> meaning(seq![w]) == Meant::Command("play"@),
        w == "pause"@ ==> meaning(seq![w]) == Meant::Command("pause"@),
        w == "resume"@ || w == "unpause"@ || w == "continue"@
            ==> meaning(seq![w]) == Meant::Command("pause 0"@),
        w == "stop"@ ==> meaning(seq![w]) == Meant::Command("stop"@),
        w == "next"@ || w == "skip"@ ==> meaning(seq![w]) == Meant::Command("next"@),
        w == "prev"@ || w == "previous"@ || w == "back"@
            ==> meaning(seq![w]) == Meant::Command("previous"@),
        w == "fav"@ || w == "favorite"@ || w == "favourite"@ || w == "star"@
            ==> meaning(seq![w]) == Meant::FavoriteCurrent,
        w == "clear"@ ==> meaning(seq![w]) == Meant::ClearConfirm,
        w == "help"@ ==> meaning(seq![w]) == Meant::Help,
        !(w == "now"@ || w == "status"@ || w == "queue"@ || w == "play"@ || w == "pause"@
            || w == "resume"@ || w == "unpause"@ || w == "continue"@ || w == "stop"@ || w == "next"@
            || w == "skip"@ || w == "prev"@ || w == "previous"@ || w == "back"@ || w == "fav"@
            || w == "favorite"@ || w == "favourite"@ || w == "star"@ || w == "clear"@
            || w == "help"@) ==> meaning(seq![w]) == Meant::Nl(w),
{
    control_words();
    verbs_are_these(w);
}

/// A step to the next or the previous track may name the track that plays; so may a
/// favorite. Behind any other noun a phrase is asked in natural language.
pub proof fn a_noun_changes_nothing(w: Seq<char>, x: Seq<char>)
    ensures
        (w == "next"@ || w == "skip"@) && (x == "song"@ || x == "track"@ || x == "this"@
            || x == "current"@ || x == "one"@ || x == "it"@)
            ==> meaning(seq![w, x]) == Meant::Command("next"@),
        (w == "prev"@ || w == "previous"@ || w == "back"@) && (x == "song"@ || x == "track"@
            || x == "this"@ || x == "current"@ || x == "one"@ || x == "it"@) ==> meaning(seq![w, x])
            == Meant::Command("previous"@),
        (w == "fav"@ || w == "favorite"@ || w == "favourite"@ || w == "star"@) && (x == "song"@
            || x == "track"@ || x == "this"@ || x == "current"@ || x == "one"@ || x == "it"@)
            ==> meaning(seq![w, x]) == Meant::FavoriteCurrent,
        (w == "resume"@ || w == "unpause"@ || w == "continue"@) && (x == "song"@ || x == "track"@
            || x == "this"@ || x == "current"@ || x == "one"@ || x == "it"@)
            ==> meaning(seq![w, x]) == Meant::Command("pause 0"@),
        (w == "next"@ || w == "skip"@ || w == "prev"@ || w == "previous"@ || w == "back"@)
            && !(x == "song"@ || x == "track"@ || x == "this"@ || x == "current"@ || x == "one"@
            || x == "it"@) ==> meaning(seq![w, x])
            == Meant::Nl(text::joined(seq![w, x], " "@)),
{
    control_words();
    verbs_are_these(w);
    assert(filler_nouns()[0] == "song"@);
    assert(filler_nouns()[1] == "track"@);
    assert(filler_nouns()[2] == "this"@);
    assert(filler_nouns()[3] == "current"@);
    assert(filler_nouns()[4] == "one"@);
    assert(filler_nouns()[5] == "it"@);
    let a = seq![w, x];
    assert(forall|i: int| 1 <= i < a.len() ==> #[trigger] a[i] == x);
}

/// A volume from 0 to 100 is set as it is said; beyond that it is asked in natural
/// language.
pub proof fn a_volume_is_set_as_said(n: nat)
    requires
        n <= u32::MAX,
    ensures
        n <= 100 ==> meaning(seq!["vol"@, number::dec(n)]) == Meant::Command(
            "setvol "@ + number::dec(n),
        ),
        n <= 100 ==> meaning(seq!["volume"@, number::dec(n)]) == Meant::Command(
            "setvol "@ + number::dec(n),
        ),
        n > 100 ==> meaning(seq!["vol"@, number::dec(n)]) == Meant::Nl(
            text::joined(seq!["vol"@, number::dec(n)], " "@),
        ),
{
    control_words();
    verbs_are_these("vol"@);
    verbs_are_these("volume"@);
    number::dec_is_unsigned(n, u32::MAX as nat);
}

} // verus!
