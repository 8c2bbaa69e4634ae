//! What plays on a raw stream, as a recognizer tells it.

use vstd::prelude::*;

use crate::text;

verus! {

/// How many seconds one recognition may take.
pub const RECOGNIZE_TIMEOUT_SECS: u64 = 40;

/// A recognized track. What was not told is `None`.
#[derive(Clone, Debug, PartialEq, Eq)]
pub struct RecognizedTrack {
    /// Who plays.
    pub artist: Option<String>,
    /// What is played.
    pub title: Option<String>,
    /// The album that it is on.
    pub album: Option<String>,
    /// Where its cover is.
    pub cover_url: Option<String>,
}

impl Default for RecognizedTrack {
    fn default() -> (r: Self)
        ensures
            r == (RecognizedTrack { artist: None, title: None, album: None, cover_url: None }),
    {
        RecognizedTrack { artist: None, title: None, album: None, cover_url: None }
    }
}

/// Why nothing could be recognized.
#[derive(Debug, PartialEq, Eq)]
pub enum RecognizeError {
    /// A tool could not be run, and why.
    Spawn(&'static str, String),
    /// The stream could not be captured.
    Capture,
    /// It took too long.
    Timeout,
}

impl RecognizeError {
    /// The sentence that tells of the error.
    pub open spec fn sentence(self) -> Seq<char> {
        match self {
            RecognizeError::Spawn(tool, why) => "could not run "@ + tool@ + ": "@ + why@,
            RecognizeError::Capture => "stream capture failed"@,
            RecognizeError::Timeout => "recognition timed out"@,
        }
    }

    /// The sentence that tells of the error.
    pub fn message(&self) -> (r: String)
        ensures
            r@ == self.sentence(),
    {
        match self {
            RecognizeError::Spawn(tool, why) => {
                let mut s = "could not run ".to_owned();
                s.append(*tool);
                s.append(": ");
                s.append(why.as_str());
                s
            },
            RecognizeError::Capture => "stream capture failed".to_owned(),
            RecognizeError::Timeout => "recognition timed out".to_owned(),
        }
    }
}

/// One row of a section.
#[derive(Debug, PartialEq, Eq)]
pub struct MetaRow {
    /// Its name.
    pub title: Option<String>,
    /// Its value.
    pub text: Option<String>,
}

/// One section of what a recognizer tells.
#[derive(Debug, PartialEq, Eq)]
pub struct Section {
    /// Its kind.
    pub section_type: Option<String>,
    /// Its rows.
    pub metadata: Vec<MetaRow>,
}

/// What a recognizer tells of a track.
#[derive(Debug, PartialEq, Eq)]
pub struct Told {
    /// The title.
    pub title: Option<String>,
    /// Who plays.
    pub subtitle: Option<String>,
    /// More about it.
    pub sections: Vec<Section>,
    /// The cover.
    pub coverart: Option<String>,
    /// The cover, larger.
    pub coverarthq: Option<String>,
}

/// A text without the white space around it, where it is more than that.
pub open spec fn visible(s: Option<String>) -> Option<Seq<char>> {
    match s {
        Some(t) => if text::trimmed(t@).len() == 0 {
            None
        } else {
            Some(text::trimmed(t@))
        },
        None => None,
    }
}

/// A text without the white space around it, or `None` for a blank one.
pub fn non_blank(s: &Option<String>) -> (r: Option<String>)
    ensures
        text::opt(r) == visible(*s),
{
    match s {
        Some(t) => {
            let trimmed = text::trim(t.as_str());
            let n: usize = text::chars(trimmed.as_str()).len();
            if n == 0 {
                None
            } else {
                Some(trimmed)
            }
        },
        None => None,
    }
}

/// The text is this one.
pub open spec fn says(s: Option<String>, what: Seq<char>) -> bool {
    s matches Some(t) && t@ == what
}

fn is_text(s: &Option<String>, what: &str) -> (r: bool)
    ensures
        r == says(*s, what@),
{
    match s {
        Some(t) => text::same(t.as_str(), what),
        None => false,
    }
}

/// The first row at or after `i` that names the album.
pub open spec fn album_row(rows: Seq<MetaRow>, i: int) -> Option<int>
    decreases rows.len() - i,
{
    if i >= rows.len() {
        None
    } else if says(rows[i].title, "Album"@) {
        Some(i)
    } else {
        album_row(rows, i + 1)
    }
}

/// The album in the sections from `i` on: the value of the first row that names it, in
/// a section about a song.
pub open spec fn album_from(sections: Seq<Section>, i: int) -> Option<Seq<char>>
    decreases sections.len() - i,
{
    if i >= sections.len() {
        None
    } else {
        let s = sections[i];
        match album_row(s.metadata@, 0) {
            Some(k) => if says(s.section_type, "SONG"@) {
                visible(s.metadata@[k].text)
            } else {
                album_from(sections, i + 1)
            },
            None => album_from(sections, i + 1),
        }
    }
}

fn find_album_row(rows: &[MetaRow]) -> (r: Option<usize>)
    ensures
        match r {
            Some(i) => i < rows@.len() && album_row(rows@, 0) == Some(i as int),
            None => album_row(rows@, 0) is None,
        },
{
    let mut i: usize = 0;
    while i < rows.len()
        invariant
            i <= rows@.len(),
            album_row(rows@, 0) == album_row(rows@, i as int),
        decreases rows@.len() - i,
    {
        if is_text(&rows[i].title, "Album") {
            return Some(i);
        }
        i += 1;
    }
    None
}

fn find_album(sections: &[Section]) -> (r: Option<String>)
    ensures
        text::opt(r) == album_from(sections@, 0),
{
    let mut i: usize = 0;
    while i < sections.len()
        invariant
            i <= sections@.len(),
            album_from(sections@, 0) == album_from(sections@, i as int),
        decreases sections@.len() - i,
    {
        let s = &sections[i];
        if is_text(&s.section_type, "SONG") {
            if let Some(k) = find_album_row(s.metadata.as_slice()) {
                return non_blank(&s.metadata[k].text);
            }
        }
        i += 1;
    }
    None
}

/// The cover: the larger one, where there is one.
pub open spec fn cover_of(t: Told) -> Option<Seq<char>> {
    if visible(t.coverarthq) is Some {
        visible(t.coverarthq)
    } else {
        visible(t.coverart)
    }
}

/// What was recognized in what a recognizer told: a track needs a title or an artist.
/// Blank texts are not told at all.
pub fn recognized(told: &Told) -> (r: Option<RecognizedTrack>)
    ensures
        r is None <==> visible(told.title) is None && visible(told.subtitle) is None,
        r matches Some(t) ==> {
            &&& text::opt(t.title) == visible(told.title)
            &&& text::opt(t.artist) == visible(told.subtitle)
            &&& text::opt(t.album) == album_from(told.sections@, 0)
            &&& text::opt(t.cover_url) == cover_of(*told)
        },
{
    let title = non_blank(&told.title);
    let artist = non_blank(&told.subtitle);
    if title.is_none() && artist.is_none() {
        return None;
    }
    let album = find_album(told.sections.as_slice());
    let cover_url = match non_blank(&told.coverarthq) {
        Some(c) => Some(c),
        None => non_blank(&told.coverart),
    };
    Some(RecognizedTrack { artist, title, album, cover_url })
}

/// The line for a recognized track: artist, a dash and the title, or the one that is
/// known.
pub open spec fn line_of(t: RecognizedTrack) -> Option<Seq<char>> {
    match (t.artist, t.title) {
        (Some(a), Some(n)) => Some(a@ + " - "@ + n@),
        (None, Some(n)) => Some(n@),
        (Some(a), None) => Some(a@),
        (None, None) => None,
    }
}

/// The line for a recognized track.
pub fn now_playing_title(track: &RecognizedTrack) -> (r: Option<String>)
    ensures
        text::opt(r) == line_of(*track),
{
    match (&track.artist, &track.title) {
        (Some(a), Some(n)) => {
            let mut s = a.clone();
            s.append(" - ");
            s.append(n.as_str());
            Some(s)
        },
        (None, Some(n)) => Some(n.clone()),
        (Some(a), None) => Some(a.clone()),
        (None, None) => None,
    }
}

/// A recognized track always has a line.
pub proof fn a_hit_has_a_line(told: Told, t: RecognizedTrack)
    requires
        visible(told.title) is Some || visible(told.subtitle) is Some,
        text::opt(t.title) == visible(told.title),
        text::opt(t.artist) == visible(told.subtitle),
    ensures
        line_of(t) is Some,
{
}

/// The line for a track is its artist and its title, or the one that is known.
pub proof fn a_line_names_the_track(t: RecognizedTrack)
    ensures
        t.artist matches Some(a) ==> t.title matches Some(n) ==> line_of(t) == Some(
            a@ + " - "@ + n@,
        ),
        t.artist is None ==> (t.title matches Some(n) ==> line_of(t) == Some(n@)),
        t.title is None ==> (t.artist matches Some(a) ==> line_of(t) == Some(a@)),
        t.artist is None && t.title is None ==> line_of(t) is None,
{
}

/// The cover is the larger one where it is told, and else the other; a blank text is not
/// told, and no white space is kept around one that is.
pub proof fn the_larger_cover_is_taken(told: Told)
    ensures
        told.coverarthq matches Some(c) ==> text::trimmed(c@).len() > 0 ==> cover_of(told) == Some(
            text::trimmed(c@),
        ),
        told.coverarthq is None ==> (told.coverart matches Some(c) ==> text::trimmed(c@).len() > 0
            ==> cover_of(told) == Some(text::trimmed(c@))),
        told.coverarthq is None && told.coverart is None ==> cover_of(told) is None,
{
}

/// The album is the value of the first row that names one, in the first section about a
/// song that has such a row.
pub proof fn the_album_is_named_in_a_song(sections: Seq<Section>, i: int, k: int)
    requires
        0 <= i < sections.len(),
        sections[i].section_type matches Some(t) && t@ == "SONG"@,
        0 <= k < sections[i].metadata@.len(),
        sections[i].metadata@[k].title matches Some(t) && t@ == "Album"@,
        forall|j: int|
            0 <= j < k ==> !((#[trigger] sections[i].metadata@[j]).title matches Some(t) && t@
                == "Album"@),
        forall|j: int|
            0 <= j < i ==> !((#[trigger] sections[j]).section_type matches Some(t)
                && t@ == "SONG"@),
    ensures
        album_from(sections, 0) == visible(sections[i].metadata@[k].text),
{
    first_album_row(sections[i].metadata@, 0, k);
    first_album(sections, 0, i);
}

proof fn first_album_row(rows: Seq<MetaRow>, i: int, k: int)
    requires
        0 <= i <= k < rows.len(),
        says(rows[k].title, "Album"@),
        forall|j: int| i <= j < k ==> !says((#[trigger] rows[j]).title, "Album"@),
    ensures
        album_row(rows, i) == Some(k),
    decreases k - i,
{
    if i < k {
        first_album_row(rows, i + 1, k);
    }
}

proof fn first_album(sections: Seq<Section>, i: int, k: int)
    requires
        0 <= i <= k < sections.len(),
        says(sections[k].section_type, "SONG"@),
        album_row(sections[k].metadata@, 0) is Some,
        forall|j: int| i <= j < k ==> !says((#[trigger] sections[j]).section_type, "SONG"@),
    ensures
        album_from(sections, i) == visible(
            sections[k].metadata@[album_row(sections[k].metadata@, 0)->0].text,
        ),
    decreases k - i,
{
    if i < k {
        first_album(sections, i + 1, k);
    }
}

} // verus!
