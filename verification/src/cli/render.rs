//! What plays and the queue, as text.

use vstd::prelude::*;

use crate::client::model;
use crate::client::model::{ArmedFeatures, FieldState, NowPlaying, QueueItem};
use crate::number;
use crate::number::Real;
use crate::text;

verus! {

// ---------------------------------------------------------------------------
// The card
// ---------------------------------------------------------------------------

/// A line, where there is one.
pub open spec fn line(o: Option<Seq<char>>) -> Seq<Seq<char>> {
    match o {
        Some(s) => seq![s],
        None => Seq::empty(),
    }
}

/// What is armed, one after the other.
pub open spec fn armed_bits(a: ArmedFeatures) -> Seq<Seq<char>> {
    line(
        match a.sleep_remaining {
            Some(s) => Some("sleep "@ + model::remaining_text(s as nat)),
            None => None,
        },
    ) + line(
        if a.winddown_active {
            match a.winddown_remaining {
                Some(s) => Some("wind-down in "@ + model::remaining_text(s as nat)),
                None => Some("winding down"@),
            }
        } else {
            None
        },
    ) + line(
        match a.wake_remaining {
            Some(s) => Some("wake in "@ + model::remaining_text(s as nat)),
            None => None,
        },
    )
}

/// The line for what is armed, where anything is.
pub open spec fn armed_line(a: ArmedFeatures) -> Option<Seq<char>> {
    if a.sleep_remaining is Some || a.winddown_active || a.wake_remaining is Some {
        Some(text::joined(armed_bits(a), " | "@))
    } else {
        None
    }
}

/// A pull in words.
pub open spec fn pull_text(p: model::SaidPull) -> Seq<char> {
    "toward "@ + p.label + " "@ + number::dec(p.strength / 100) + "."@ + number::dec2(
        p.strength % 100,
    ) + " "@ + number::dec(p.age_mins) + "m"@
}

/// Pulls in words.
pub open spec fn pull_texts(pulls: Seq<model::SaidPull>) -> Seq<Seq<char>> {
    Seq::new(pulls.len(), |i: int| pull_text(pulls[i]))
}

/// The line for the pulls, where there are any.
pub open spec fn field_line(f: FieldState) -> Option<Seq<char>> {
    if f.pulls@.len() > 0 {
        Some(text::joined(pull_texts(model::said_pulls(f.pulls@)), " | "@))
    } else {
        None
    }
}

/// Whole seconds of a number, none below zero.
pub open spec fn whole_secs(d: Real) -> nat {
    match d {
        Real::Finite(n) => if n <= 0 {
            0
        } else {
            number::smaller(n as int / 1_000_000_000, u64::MAX as int) as nat
        },
        Real::PosInf => u64::MAX as nat,
        _ => 0,
    }
}

/// A length in words: minutes, a colon and seconds.
pub open spec fn length_text(d: Real) -> Seq<char> {
    number::dec(whole_secs(d) / 60) + ":"@ + number::dec2(whole_secs(d) % 60)
}

/// The word for a play state.
pub open spec fn state_text(s: Seq<char>) -> Seq<char> {
    if s == "play"@ {
        "playing"@
    } else if s == "pause"@ {
        "paused"@
    } else {
        s
    }
}

/// What stands on the line of states.
pub open spec fn status_bits(np: NowPlaying) -> Seq<Seq<char>> {
    line(
        match np.state {
            Some(s) => Some(state_text(s@)),
            None => None,
        },
    ) + line(
        match np.volume {
            Some(v) => if v >= 0 {
                Some("vol "@ + number::dec(v as nat) + "%"@)
            } else {
                None
            },
            None => None,
        },
    ) + line(
        match (np.song, np.playlistlength) {
            (Some(song), Some(m)) => Some(
                number::dec(number::smaller(song + 1, usize::MAX as int) as nat) + " of "@
                    + number::dec(m as nat),
            ),
            _ => None,
        },
    ) + line(
        match np.duration {
            Some(d) => Some(length_text(d)),
            None => None,
        },
    )
}

/// Bits as a line, where there are any.
pub open spec fn bits_line(bits: Seq<Seq<char>>, sep: Seq<char>) -> Option<Seq<char>> {
    if bits.len() > 0 {
        Some(text::joined(bits, sep))
    } else {
        None
    }
}

/// Nothing plays, as far as the card is concerned.
pub open spec fn is_idle(np: NowPlaying) -> bool {
    (np.state matches Some(s) && s@ == "stop"@) || (np.title is None && np.artist is None
        && np.album is None)
}

/// The line for the station behind the queue.
pub open spec fn station_line(np: NowPlaying) -> Option<Seq<char>> {
    match np.continuation {
        Some(s) => Some("then: "@ + s@),
        None => None,
    }
}

/// The lines of the card.
pub open spec fn card_lines(np: NowPlaying) -> Seq<Seq<char>> {
    if is_idle(np) {
        seq!["nothing playing"@] + line(armed_line(np.armed)) + line(field_line(np.field)) + line(
            match np.hint {
                Some(h) => Some(h.words()),
                None => None,
            },
        ) + line(station_line(np))
    } else {
        line(
            match np.title {
                Some(t) => Some(
                    if np.starred {
                        "\u{2665}\u{FE0E} "@ + t@
                    } else {
                        t@
                    },
                ),
                None => None,
            },
        ) + line(
            bits_line(line(text::opt(np.artist)) + line(text::opt(np.album)), " - "@),
        ) + line(bits_line(status_bits(np), " | "@)) + line(armed_line(np.armed)) + line(
            field_line(np.field),
        ) + line(station_line(np))
    }
}

fn push_line(lines: &mut Vec<String>, o: Option<String>)
    ensures
        text::texts(final(lines)@) == text::texts(old(lines)@) + line(text::opt(o)),
{
    broadcast use text::texts_push;

    let ghost before = text::texts(lines@);
    match o {
        Some(s) => {
            lines.push(s);
            assert(text::texts(lines@) =~= before + line(text::opt(o)));
        },
        None => {
            assert(text::texts(lines@) =~= before + line(text::opt(o)));
        },
    }
}

fn two(a: &str, b: &str) -> (r: String)
    ensures
        r@ == a@ + b@,
{
    let mut s = a.to_owned();
    s.append(b);
    s
}

fn bits_as_line(bits: &Vec<String>, sep: &str) -> (r: Option<String>)
    ensures
        text::opt(r) == bits_line(text::texts(bits@), sep@),
{
    assert(text::texts(bits@).len() == bits@.len());
    if bits.len() > 0 {
        Some(text::join(bits.as_slice(), sep))
    } else {
        None
    }
}

fn render_armed(a: &ArmedFeatures) -> (r: Option<String>)
    ensures
        text::opt(r) == armed_line(*a),
{
    if !a.any() {
        return None;
    }
    let mut bits: Vec<String> = Vec::new();
    assert(text::texts(bits@) =~= Seq::<Seq<char>>::empty());
    push_line(
        &mut bits,
        match a.sleep_remaining {
            Some(s) => Some(two("sleep ", model::fmt_remaining(s).as_str())),
            None => None,
        },
    );
    push_line(
        &mut bits,
        if a.winddown_active {
            match a.winddown_remaining {
                Some(s) => Some(two("wind-down in ", model::fmt_remaining(s).as_str())),
                None => Some("winding down".to_owned()),
            }
        } else {
            None
        },
    );
    push_line(
        &mut bits,
        match a.wake_remaining {
            Some(s) => Some(two("wake in ", model::fmt_remaining(s).as_str())),
            None => None,
        },
    );
    assert(text::texts(bits@) =~= armed_bits(*a));
    Some(text::join(bits.as_slice(), " | "))
}

fn render_field(f: &FieldState) -> (r: Option<String>)
    ensures
        text::opt(r) == field_line(*f),
{
    if !f.active() {
        return None;
    }
    let ghost all = pull_texts(model::said_pulls(f.pulls@));
    let mut bits: Vec<String> = Vec::new();
    let mut i: usize = 0;
    assert(text::texts(bits@) =~= all.take(0));
    while i < f.pulls.len()
        invariant
            i <= f.pulls@.len() == all.len(),
            all == pull_texts(model::said_pulls(f.pulls@)),
            text::texts(bits@) == all.take(i as int),
        decreases f.pulls@.len() - i,
    {
        broadcast use text::texts_push;

        let p = &f.pulls[i];
        let n: u64 = p.strength as u64;
        let mut s = "toward ".to_owned();
        s.append(p.label.as_str());
        s.append(" ");
        s.append(number::dec_u64(n / 100).as_str());
        s.append(".");
        s.append(number::dec2_u64(n % 100).as_str());
        s.append(" ");
        s.append(number::dec_u64(p.age_mins).as_str());
        s.append("m");
        assert(s@ =~= all[i as int]);
        bits.push(s);
        i += 1;
        assert(all.take(i as int) =~= all.take(i - 1).push(all[i - 1]));
    }
    assert(all.take(i as int) =~= all);
    Some(text::join(bits.as_slice(), " | "))
}

/// A length in words.
pub fn fmt_dur(secs: Real) -> (r: String)
    ensures
        r@ == length_text(secs),
{
    let total: u64 = match secs {
        Real::Finite(n) => if n <= 0 {
            0
        } else {
            let whole: i128 = n / 1_000_000_000;
            if whole > u64::MAX as i128 {
                u64::MAX
            } else {
                whole as u64
            }
        },
        Real::PosInf => u64::MAX,
        _ => 0,
    };
    let mut s = number::dec_u64(total / 60);
    s.append(":");
    s.append(number::dec2_u64(total % 60).as_str());
    s
}

fn render_status(np: &NowPlaying) -> (r: Option<String>)
    ensures
        text::opt(r) == bits_line(status_bits(*np), " | "@),
{
    let mut bits: Vec<String> = Vec::new();
    assert(text::texts(bits@) =~= Seq::<Seq<char>>::empty());
    push_line(
        &mut bits,
        match &np.state {
            Some(s) => if text::same(s.as_str(), "play") {
                Some("playing".to_owned())
            } else if text::same(s.as_str(), "pause") {
                Some("paused".to_owned())
            } else {
                Some(s.clone())
            },
            None => None,
        },
    );
    push_line(
        &mut bits,
        match np.volume {
            Some(v) => if v >= 0 {
                let mut s = two("vol ", number::dec_u64(v as u64).as_str());
                s.append("%");
                Some(s)
            } else {
                None
            },
            None => None,
        },
    );
    push_line(
        &mut bits,
        match (np.song, np.playlistlength) {
            (Some(song), Some(m)) => {
                let at: usize = if song < usize::MAX {
                    song + 1
                } else {
                    song
                };
                let mut s = number::dec_usize(at);
                s.append(" of ");
                s.append(number::dec_usize(m).as_str());
                Some(s)
            },
            _ => None,
        },
    );
    push_line(
        &mut bits,
        match np.duration {
            Some(d) => Some(fmt_dur(d)),
            None => None,
        },
    );
    assert(text::texts(bits@) =~= status_bits(*np));
    bits_as_line(&bits, " | ")
}

fn render_station(np: &NowPlaying) -> (r: Option<String>)
    ensures
        text::opt(r) == station_line(*np),
{
    match &np.continuation {
        Some(s) => Some(two("then: ", s.as_str())),
        None => None,
    }
}

/// The card for what plays.
pub fn render_card(np: &NowPlaying) -> (r: String)
    ensures
        r@ == text::joined(card_lines(*np), "\n"@),
{
    let stopped = match &np.state {
        Some(s) => text::same(s.as_str(), "stop"),
        None => false,
    };
    let empty = np.title.is_none() && np.artist.is_none() && np.album.is_none();
    let mut lines: Vec<String> = Vec::new();
    assert(text::texts(lines@) =~= Seq::<Seq<char>>::empty());
    if stopped || empty {
        push_line(&mut lines, Some("nothing playing".to_owned()));
        push_line(&mut lines, render_armed(&np.armed));
        push_line(&mut lines, render_field(&np.field));
        push_line(
            &mut lines,
            match &np.hint {
                Some(h) => Some(h.phrase()),
                None => None,
            },
        );
        push_line(&mut lines, render_station(np));
        assert(text::texts(lines@) =~= card_lines(*np));
        return text::join(lines.as_slice(), "\n");
    }
    push_line(
        &mut lines,
        match &np.title {
            Some(t) => Some(
                if np.starred {
                    two("\u{2665}\u{FE0E} ", t.as_str())
                } else {
                    t.clone()
                },
            ),
            None => None,
        },
    );
    let mut sub: Vec<String> = Vec::new();
    assert(text::texts(sub@) =~= Seq::<Seq<char>>::empty());
    push_line(&mut sub, text::copy_opt(&np.artist));
    push_line(&mut sub, text::copy_opt(&np.album));
    assert(text::texts(sub@) =~= line(text::opt(np.artist)) + line(text::opt(np.album)));
    push_line(&mut lines, bits_as_line(&sub, " - "));
    push_line(&mut lines, render_status(np));
    push_line(&mut lines, render_armed(&np.armed));
    push_line(&mut lines, render_field(&np.field));
    push_line(&mut lines, render_station(np));
    assert(text::texts(lines@) =~= card_lines(*np));
    text::join(lines.as_slice(), "\n")
}

// ---------------------------------------------------------------------------
// The queue
// ---------------------------------------------------------------------------

/// An entry of the queue in words.
pub open spec fn item_text(it: QueueItem) -> Seq<char> {
    number::dec((it.pos + 1) as nat) + ". "@ + it.title@ + match it.artist {
        Some(a) => " - "@ + a@,
        None => Seq::empty(),
    }
}

/// Entries of the queue in words.
pub open spec fn item_texts(items: Seq<QueueItem>) -> Seq<Seq<char>> {
    Seq::new(items.len(), |i: int| item_text(items[i]))
}

/// The queue in words.
pub open spec fn queue_text(items: Seq<QueueItem>) -> Seq<char> {
    if items.len() == 0 {
        "queue is empty"@
    } else {
        text::joined(item_texts(items), "\n"@)
    }
}

/// Entries of the queue in words.
pub fn render_items(items: &[QueueItem]) -> (r: String)
    ensures
        r@ == queue_text(items@),
{
    if items.len() == 0 {
        return "queue is empty".to_owned();
    }
    let ghost all = item_texts(items@);
    let mut lines: Vec<String> = Vec::new();
    let mut i: usize = 0;
    assert(text::texts(lines@) =~= all.take(0));
    while i < items.len()
        invariant
            i <= items@.len() == all.len(),
            all == item_texts(items@),
            text::texts(lines@) == all.take(i as int),
        decreases items@.len() - i,
    {
        broadcast use text::texts_push;

        let it = &items[i];
        let mut s = String::new();
        number::push_dec(&mut s, it.pos as u128 + 1);
        s.append(". ");
        s.append(it.title.as_str());
        if let Some(a) = &it.artist {
            s.append(" - ");
            s.append(a.as_str());
        }
        assert(s@ =~= all[i as int]);
        lines.push(s);
        i += 1;
        assert(all.take(i as int) =~= all.take(i - 1).push(all[i - 1]));
    }
    assert(all.take(i as int) =~= all);
    text::join(lines.as_slice(), "\n")
}

/// The queue in words, from the answer to `playlistinfo`.
pub fn render_queue(pairs: &[(String, String)]) -> (r: String)
    ensures
        exists|items: Seq<QueueItem>|
            {
                &&& items.len() == model::blocks(pairs@).len()
                &&& forall|i: int|
                    0 <= i < items.len() ==> model::item_of(
                        #[trigger] items[i],
                        model::blocks(pairs@)[i],
                        i,
                    )
                &&& r@ == #[trigger] queue_text(items)
            },
{
    let items = model::parse_queue(pairs);
    render_items(items.as_slice())
}

// ---------------------------------------------------------------------------
// Laws
// ---------------------------------------------------------------------------

/// Where nothing plays, no title, artist or album is left on the card.
pub proof fn an_idle_card_shows_no_track(np: NowPlaying, other: NowPlaying)
    requires
        is_idle(np),
        is_idle(other),
        np.armed == other.armed,
        np.field == other.field,
        np.hint == other.hint,
        np.continuation == other.continuation,
    ensures
        card_lines(np) == card_lines(other),
        card_lines(np)[0] == "nothing playing"@,
{
}

/// A card on which something plays shows no hint.
pub proof fn a_playing_card_shows_no_hint(np: NowPlaying, hint: Option<model::Hint>)
    requires
        !is_idle(np),
    ensures
        card_lines(np) == card_lines(NowPlaying { hint, ..np }),
{
}

/// What is armed is on the card, whether something plays or not.
pub proof fn what_is_armed_is_shown(np: NowPlaying)
    requires
        armed_line(np.armed) is Some,
    ensures
        card_lines(np).contains(armed_line(np.armed)->0),
{
    let a = armed_line(np.armed)->0;
    if is_idle(np) {
        assert(card_lines(np)[1] == a);
    } else {
        let front = line(
            match np.title {
                Some(t) => Some(
                    if np.starred {
                        "\u{2665}\u{FE0E} "@ + t@
                    } else {
                        t@
                    },
                ),
                None => None,
            },
        ) + line(
            bits_line(line(text::opt(np.artist)) + line(text::opt(np.album)), " - "@),
        ) + line(bits_line(status_bits(np), " | "@));
        assert(card_lines(np)[front.len() as int] == a);
    }
}

/// A length is told in minutes and seconds; what is less than a second is dropped.
pub proof fn a_length_is_told_in_minutes(m: nat, s: nat, part: nat)
    requires
        s < 60,
        part < 1_000_000_000,
        60 * m + s <= u64::MAX,
    ensures
        length_text(Real::Finite(((60 * m + s) * 1_000_000_000 + part) as i128)) == number::dec(m)
            + ":"@ + number::dec2(s),
{
    let t = 60 * m + s;
    let n = t * 1_000_000_000 + part;
    assert(n / 1_000_000_000 == t);
    assert(t / 60 == m && t % 60 == s);
}

/// An entry of the queue is shown under its place, counted from one, with its title and
/// who plays it; the entries stand in their order, one on a line, and an empty queue says
/// that it is empty.
pub proof fn the_queue_is_shown_in_order(items: Seq<QueueItem>, i: int)
    requires
        0 <= i < items.len(),
    ensures
        ({
            let it = items[i];
            let head = number::dec((it.pos + 1) as nat) + ". "@ + it.title@;
            &&& it.artist matches Some(a) ==> item_texts(items)[i] == head + (" - "@ + a@)
            &&& it.artist is None ==> item_texts(items)[i] == head
            &&& item_texts(items).len() == items.len()
            &&& queue_text(items) == text::joined(item_texts(items), "\n"@)
            &&& queue_text(Seq::empty()) == "queue is empty"@
        }),
{
    let it = items[i];
    let head = number::dec((it.pos + 1) as nat) + ". "@ + it.title@;
    if it.artist is None {
        assert(item_texts(items)[i] =~= head);
    }
}

/// The card tells the state in words, the volume in percent unless it is below zero, and
/// the place in the queue, counted from one.
pub proof fn the_card_tells_where_it_stands(np: NowPlaying)
    requires
        np.state is Some,
        np.volume is Some,
        np.volume->0 >= 0,
        np.song is Some,
        np.song->0 < usize::MAX,
        np.playlistlength is Some,
    ensures
        ({
            let bits = status_bits(np);
            &&& bits.len() >= 3
            &&& np.state->0@ == "play"@ ==> bits[0] == "playing"@
            &&& np.state->0@ == "pause"@ ==> bits[0] == "paused"@
            &&& bits[1] == "vol "@ + number::dec(np.volume->0 as nat) + "%"@
            &&& bits[2] == number::dec((np.song->0 + 1) as nat) + " of "@ + number::dec(
                np.playlistlength->0 as nat,
            )
        }),
{
    reveal_strlit("play");
    reveal_strlit("pause");
    assert("play"@.len() == 4 && "pause"@.len() == 5);
}

/// What is armed is told in its order, the time to sleep, the wind-down and the alarm, each
/// with what is left of it.
pub proof fn what_is_armed_is_told_with_its_time(a: ArmedFeatures)
    ensures
        ({
            let bits = armed_bits(a);
            let k: int = if a.sleep_remaining is Some {
                1
            } else {
                0
            };
            let m: int = if a.winddown_active {
                k + 1
            } else {
                k
            };
            &&& a.sleep_remaining matches Some(s) ==> bits[0] == "sleep "@ + model::remaining_text(
                s as nat,
            )
            &&& a.winddown_active && a.winddown_remaining is None ==> bits[k] == "winding down"@
            &&& a.winddown_active ==> (a.winddown_remaining matches Some(s) ==> bits[k]
                == "wind-down in "@ + model::remaining_text(s as nat))
            &&& a.wake_remaining matches Some(s) ==> bits[m] == "wake in "@ + model::remaining_text(
                s as nat,
            )
            &&& bits.len() == m + if a.wake_remaining is Some {
                1int
            } else {
                0
            }
        }),
        armed_line(a) is None <==> a.sleep_remaining is None && !a.winddown_active
            && a.wake_remaining is None,
{
}

/// Where something plays its title leads the card, with a heart before it where it is a
/// favorite.
pub proof fn a_title_leads_the_card(np: NowPlaying)
    requires
        np.title is Some,
        np.state matches Some(s) ==> s@ != "stop"@,
    ensures
        np.starred ==> card_lines(np)[0] == "\u{2665}\u{FE0E} "@ + np.title->0@,
        !np.starred ==> card_lines(np)[0] == np.title->0@,
{
}

} // verus!
