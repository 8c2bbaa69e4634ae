//! The levels that the daemon shows.

use vstd::prelude::*;

use crate::number;
use crate::number::Real;
use crate::text;

verus! {

/// What the daemon says first where it shows levels.
pub const VIZ_GREETING_PREFIX: &'static str = "OK HYPODJ-VIZ";

/// Whether a line is the greeting of a daemon that shows levels.
pub fn is_viz_greeting(line: &str) -> (r: bool)
    ensures
        r == text::begins(line@, VIZ_GREETING_PREFIX@),
{
    text::starts_with(line, VIZ_GREETING_PREFIX)
}

/// A level of the sound.
#[derive(Clone, Copy, Debug, PartialEq, Eq)]
pub struct VizSample {
    /// The mean level before the volume is applied.
    pub rms_db: Real,
    /// The peak level before the volume is applied.
    pub peak_db: Real,
    /// What the volume adds to both.
    pub gain_db: Real,
    /// Whether sound is flowing.
    pub playing: bool,
}

/// The sum of two numbers.
pub open spec fn sum(a: Real, b: Real) -> Real {
    match (a, b) {
        (Real::Finite(x), Real::Finite(y)) => Real::Finite((x + y) as i128),
        (Real::Nan, _) => Real::Nan,
        (_, Real::Nan) => Real::Nan,
        (Real::PosInf, Real::NegInf) => Real::Nan,
        (Real::NegInf, Real::PosInf) => Real::Nan,
        (Real::PosInf, _) => Real::PosInf,
        (_, Real::PosInf) => Real::PosInf,
        (Real::NegInf, _) => Real::NegInf,
        (_, Real::NegInf) => Real::NegInf,
    }
}

impl VizSample {
    /// Its numbers are within the limit.
    pub open spec fn wf(self) -> bool {
        self.rms_db.wf() && self.peak_db.wf() && self.gain_db.wf()
    }

    /// The mean level that is heard.
    pub fn post_gain_db(&self) -> (r: Real)
        requires
            self.wf(),
        ensures
            r == sum(self.rms_db, self.gain_db),
    {
        match (self.rms_db, self.gain_db) {
            (Real::Finite(x), Real::Finite(y)) => Real::Finite(x + y),
            (Real::Nan, _) => Real::Nan,
            (_, Real::Nan) => Real::Nan,
            (Real::PosInf, Real::NegInf) => Real::Nan,
            (Real::NegInf, Real::PosInf) => Real::Nan,
            (Real::PosInf, _) => Real::PosInf,
            (_, Real::PosInf) => Real::PosInf,
            (Real::NegInf, _) => Real::NegInf,
            (_, Real::NegInf) => Real::NegInf,
        }
    }
}

/// The level that a line of words tells.
pub open spec fn sample_of(w: Seq<Seq<char>>) -> Option<VizSample> {
    if w.len() != 4 || (w[3] != "1"@ && w[3] != "0"@) {
        None
    } else {
        match (number::real_of(w[0]), number::real_of(w[1]), number::real_of(w[2])) {
            (Some(rms_db), Some(peak_db), Some(gain_db)) => Some(
                VizSample { rms_db, peak_db, gain_db, playing: w[3] == "1"@ },
            ),
            _ => None,
        }
    }
}

/// The level that a line tells: three numbers, and whether sound is flowing. A line of
/// another form tells none.
pub fn decode_frame(line: &str) -> (r: Option<VizSample>)
    ensures
        r == sample_of(text::words(line@)),
        r matches Some(s) ==> s.wf(),
{
    let w = text::split_whitespace(line);
    let ghost v = text::texts(w@);
    if w.len() != 4 {
        return None;
    }
    assert(v[0] == w@[0]@ && v[1] == w@[1]@ && v[2] == w@[2]@ && v[3] == w@[3]@);
    let playing = if text::same(w[3].as_str(), "1") {
        true
    } else if text::same(w[3].as_str(), "0") {
        proof {
            reveal_strlit("0");
            reveal_strlit("1");
            assert("0"@[0] != "1"@[0]);
        }
        false
    } else {
        return None;
    };
    let rms_db = match number::parse_real(w[0].as_str()) {
        Some(x) => x,
        None => return None,
    };
    let peak_db = match number::parse_real(w[1].as_str()) {
        Some(x) => x,
        None => return None,
    };
    let gain_db = match number::parse_real(w[2].as_str()) {
        Some(x) => x,
        None => return None,
    };
    Some(VizSample { rms_db, peak_db, gain_db, playing })
}

/// The levels are told in order: the mean, the peak, what the volume adds, and whether
/// sound is flowing. Any other word in the last place tells nothing.
pub proof fn levels_are_told_in_order(rms: i128, peak: i128, gain: i128, last: Seq<char>)
    requires
        -number::REAL_LIMIT <= rms <= number::REAL_LIMIT,
        -number::REAL_LIMIT <= peak <= number::REAL_LIMIT,
        -number::REAL_LIMIT <= gain <= number::REAL_LIMIT,
    ensures
        ({
            let told = sample_of(
                seq![
                    number::show_real(Real::Finite(rms)),
                    number::show_real(Real::Finite(peak)),
                    number::show_real(Real::Finite(gain)),
                    last,
                ],
            );
            &&& last == "1"@ || last == "0"@ ==> told == Some(
                VizSample {
                    rms_db: Real::Finite(rms),
                    peak_db: Real::Finite(peak),
                    gain_db: Real::Finite(gain),
                    playing: last == "1"@,
                },
            )
            &&& last != "1"@ && last != "0"@ ==> told is None
        }),
{
    number::shown_real_reads_back(Real::Finite(rms));
    number::shown_real_reads_back(Real::Finite(peak));
    number::shown_real_reads_back(Real::Finite(gain));
}

/// What is heard is the level and what the volume adds, whichever is said first; silence
/// stays silence under any gain.
pub proof fn a_gain_is_added(x: i128, y: i128)
    requires
        -number::REAL_LIMIT <= x <= number::REAL_LIMIT,
        -number::REAL_LIMIT <= y <= number::REAL_LIMIT,
    ensures
        sum(Real::Finite(x), Real::Finite(y)) matches Real::Finite(z) && z == x + y,
        sum(Real::NegInf, Real::Finite(y)) == Real::NegInf,
        sum(Real::Finite(x), Real::NegInf) == Real::NegInf,
        sum(Real::PosInf, Real::Finite(y)) == Real::PosInf,
        sum(Real::NegInf, Real::PosInf) == Real::Nan,
        sum(Real::Nan, Real::Finite(y)) == Real::Nan,
{
}

} // verus!
