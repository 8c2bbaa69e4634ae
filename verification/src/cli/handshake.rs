//! Asking in natural language, step by step: the plan is shown, and armed only if the
//! user confirms it.

use vstd::prelude::*;

use crate::client::mpd::MpdError;
use crate::client::nl;
use crate::text;

verus! {

/// What follows from the answer to a phrase.
#[derive(Debug)]
pub enum Heard {
    /// Say this, and be done.
    Say(String),
    /// Show these lines, and ask whether to arm the plan under this token.
    Ask {
        /// The lines.
        lines: Vec<String>,
        /// The token.
        token: String,
    },
    /// Give up with this error.
    Fail(MpdError),
}

/// The lines that show a plan: who translated, the steps, and what is to be noted.
pub open spec fn shown_lines(p: nl::Parts) -> Seq<Seq<char>> {
    (match p.trust {
        Some(t) => seq!["("@ + t + ")"@],
        None => Seq::empty(),
    }) + p.steps + match p.note {
        Some(n) => seq!["\n! "@ + n],
        None => Seq::empty(),
    }
}

fn show_parts(p: nl::EchoParts) -> (r: Vec<String>)
    ensures
        text::texts(r@) == shown_lines(p.parts()),
{
    broadcast use text::texts_push;

    let mut r: Vec<String> = Vec::new();
    assert(text::texts(r@) =~= Seq::<Seq<char>>::empty());
    if let Some(t) = &p.trust {
        let mut s = "(".to_owned();
        s.append(t.as_str());
        s.append(")");
        r.push(s);
    }
    let ghost head = text::texts(r@);
    let ghost steps = text::texts(p.steps@);
    let mut i: usize = 0;
    assert(text::texts(r@) =~= head + steps.take(0));
    while i < p.steps.len()
        invariant
            i <= p.steps@.len(),
            steps == text::texts(p.steps@),
            text::texts(r@) == head + steps.take(i as int),
        decreases p.steps@.len() - i,
    {
        broadcast use text::texts_push;

        r.push(p.steps[i].clone());
        i += 1;
        assert(head + steps.take(i as int) =~= (head + steps.take(i - 1)).push(steps[i - 1]));
    }
    assert(steps.take(i as int) =~= steps);
    if let Some(n) = &p.note {
        let mut s = "\n! ".to_owned();
        s.append(n.as_str());
        r.push(s);
    }
    assert(text::texts(r@) =~= shown_lines(p.parts()));
    r
}

/// What follows from the answer to a phrase. A plan is asked about only under the token
/// that came with it.
pub fn on_translation(reply: Result<Vec<(String, String)>, MpdError>) -> (r: Heard)
    ensures
        match reply {
            Err(MpdError::Ack(why)) => r matches Heard::Say(s) && s@ == nl::help_for(why@),
            Err(e) => r == Heard::Fail(e),
            Ok(pairs) => match nl::value_of(pairs@, "nl_token"@) {
                None => r matches Heard::Say(s) && s@
                    == "the server did not return a plan to confirm"@,
                Some(t) => {
                    &&& r matches Heard::Ask { lines, token }
                    &&& token@ == t
                    &&& text::texts(lines@) == (match nl::value_of(pairs@, "nl_echo"@) {
                        Some(e) => shown_lines(nl::parts_of(text::pieces(e, " | "@))),
                        None => Seq::empty(),
                    })
                },
            },
        },
{
    match reply {
        Err(MpdError::Ack(why)) => Heard::Say(nl::map_ack_reason(why.as_str())),
        Err(e) => Heard::Fail(e),
        Ok(pairs) => match nl::token_from_pairs(pairs.as_slice()) {
            None => Heard::Say("the server did not return a plan to confirm".to_owned()),
            Some(token) => {
                let lines: Vec<String> = match nl::echo_from_pairs(pairs.as_slice()) {
                    Some(e) => show_parts(nl::split_echo(e.as_str())),
                    None => {
                        let none: Vec<String> = Vec::new();
                        assert(text::texts(none@) =~= Seq::<Seq<char>>::empty());
                        none
                    },
                };
                Heard::Ask { lines, token }
            },
        },
    }
}

/// The request that follows from the user's answer: the plan is armed if they confirmed
/// it, and dropped if not.
pub fn on_answer(confirmed: bool, token: &str) -> (r: String)
    ensures
        r@ == (if confirmed {
            "nl confirm "@ + token@
        } else {
            "nl cancel "@ + token@
        }),
{
    let mut s = if confirmed {
        "nl confirm ".to_owned()
    } else {
        "nl cancel ".to_owned()
    };
    s.append(token);
    s
}

/// What follows from the answer to a confirmation.
#[derive(Debug)]
pub enum Confirmed {
    /// Show these lines, and what plays.
    Armed(Vec<String>),
    /// Say this, and be done.
    Say(String),
    /// Give up with this error.
    Fail(MpdError),
}

/// The lines for the plans that were armed.
pub open spec fn armed_lines(pairs: Seq<(String, String)>) -> Seq<Seq<char>>
    decreases pairs.len(),
{
    if pairs.len() == 0 {
        Seq::empty()
    } else {
        let before = armed_lines(pairs.drop_last());
        if pairs.last().0@ == "plan_id"@ {
            before.push("armed (plan "@ + pairs.last().1@ + ")"@)
        } else {
            before
        }
    }
}

/// What follows from the answer to a confirmation.
pub fn on_confirmation(reply: Result<Vec<(String, String)>, MpdError>) -> (r: Confirmed)
    ensures
        match reply {
            Ok(pairs) => r matches Confirmed::Armed(lines) && text::texts(lines@) == armed_lines(
                pairs@,
            ),
            Err(MpdError::Ack(why)) => r matches Confirmed::Say(s) && s@ == nl::help_for(why@),
            Err(e) => r == Confirmed::Fail(e),
        },
{
    match reply {
        Ok(pairs) => {
            let mut lines: Vec<String> = Vec::new();
            let mut i: usize = 0;
            proof {
                assert(pairs@.take(0) =~= Seq::<(String, String)>::empty());
                assert(text::texts(lines@) =~= Seq::<Seq<char>>::empty());
            }
            while i < pairs.len()
                invariant
                    i <= pairs@.len(),
                    text::texts(lines@) == armed_lines(pairs@.take(i as int)),
                decreases pairs@.len() - i,
            {
                broadcast use text::texts_push;

                assert(pairs@.take(i + 1).drop_last() =~= pairs@.take(i as int));
                assert(pairs@.take(i + 1).last() == pairs@[i as int]);
                if text::same(pairs[i].0.as_str(), "plan_id") {
                    lines.push(nl::armed_line(pairs[i].1.as_str()));
                }
                i += 1;
            }
            assert(pairs@.take(i as int) =~= pairs@);
            Confirmed::Armed(lines)
        },
        Err(MpdError::Ack(why)) => Confirmed::Say(nl::map_ack_reason(why.as_str())),
        Err(e) => Confirmed::Fail(e),
    }
}

/// The request that makes the track that plays a favorite. Only a song of the library
/// can be one: a stream cannot.
pub fn favorite_request(file: Option<&str>) -> (r: Option<String>)
    ensures
        match file {
            Some(uri) => if text::begins(uri@, "song/"@) {
                text::opt(r) == Some("playlistadd Starred "@ + nl::quoted_arg(uri@))
            } else {
                r is None
            },
            None => r is None,
        },
{
    match file {
        Some(uri) => if text::starts_with(uri, "song/") {
            let mut s = "playlistadd Starred ".to_owned();
            s.append(nl::quote_arg(uri).as_str());
            Some(s)
        } else {
            None
        },
        None => None,
    }
}

/// A plan is shown with who translated it first, its steps in order, and what is to be noted
/// last.
pub proof fn a_plan_is_shown_whole(p: nl::Parts, i: int)
    requires
        0 <= i < p.steps.len(),
    ensures
        p.trust matches Some(t) ==> shown_lines(p)[0] == "("@ + t + ")"@ && shown_lines(p)[i + 1]
            == p.steps[i],
        p.trust is None ==> shown_lines(p)[i] == p.steps[i],
        p.note matches Some(n) ==> shown_lines(p).last() == "\n! "@ + n,
        shown_lines(p).len() == p.steps.len() + (if p.trust is Some {
            1int
        } else {
            0
        }) + (if p.note is Some {
            1int
        } else {
            0
        }),
{
}

/// Every plan that was armed is told with its number, in order, and nothing else is.
pub proof fn every_armed_plan_is_told(pairs: Seq<(String, String)>, p: (String, String))
    ensures
        p.0@ == "plan_id"@ ==> armed_lines(pairs.push(p)) == armed_lines(pairs).push(
            "armed (plan "@ + p.1@ + ")"@,
        ),
        p.0@ != "plan_id"@ ==> armed_lines(pairs.push(p)) == armed_lines(pairs),
        armed_lines(Seq::empty()).len() == 0,
{
    assert(pairs.push(p).drop_last() =~= pairs);
    assert(pairs.push(p).last() == p);
}

} // verus!
