//! What the library holds, gathered for a translator.

use vstd::prelude::*;

use crate::echo;
use crate::mpd::tokens;
use crate::round_trip;
use crate::text;

verus! {

/// How many genres are gathered at most.
pub const GENRE_LIMIT: usize = 40;

// ---------------------------------------------------------------------------
// Genres
// ---------------------------------------------------------------------------

/// The genres that the pairs name, but for blank ones.
pub open spec fn genres_in(pairs: Seq<(String, String)>) -> Seq<Seq<char>>
    decreases pairs.len(),
{
    if pairs.len() == 0 {
        Seq::empty()
    } else {
        let before = genres_in(pairs.drop_last());
        let p = pairs.last();
        if p.0@ == "Genre"@ && text::trimmed(p.1@).len() > 0 {
            before.push(p.1@)
        } else {
            before
        }
    }
}

/// The first `n` of a row.
pub open spec fn first<A>(s: Seq<A>, n: int) -> Seq<A> {
    if s.len() > n {
        s.take(n)
    } else {
        s
    }
}

/// The genres that an answer to `list genre` names, as many as are gathered.
pub fn genres_from_pairs(pairs: &[(String, String)]) -> (r: Vec<String>)
    ensures
        text::texts(r@) == first(genres_in(pairs@), GENRE_LIMIT as int),
{
    let mut r: Vec<String> = Vec::new();
    let mut i: usize = 0;
    proof {
        assert(pairs@.take(0) =~= Seq::<(String, String)>::empty());
        assert(text::texts(r@) =~= Seq::<Seq<char>>::empty());
    }
    while i < pairs.len()
        invariant
            i <= pairs@.len(),
            text::texts(r@) == genres_in(pairs@.take(i as int)),
        decreases pairs@.len() - i,
    {
        broadcast use text::texts_push;

        assert(pairs@.take(i + 1).drop_last() =~= pairs@.take(i as int));
        assert(pairs@.take(i + 1).last() == pairs@[i as int]);
        if text::same(pairs[i].0.as_str(), "Genre") {
            let t = text::trim(pairs[i].1.as_str());
            let n: usize = text::chars(t.as_str()).len();
            if n > 0 {
                r.push(pairs[i].1.clone());
            }
        }
        i += 1;
    }
    assert(pairs@.take(i as int) =~= pairs@);
    let ghost all = r@;
    assert(text::texts(all).len() == all.len());
    if r.len() > GENRE_LIMIT {
        r.truncate(GENRE_LIMIT);
        assert(text::texts(r@) =~= text::texts(all).take(GENRE_LIMIT as int));
    }
    r
}

// ---------------------------------------------------------------------------
// Labels
// ---------------------------------------------------------------------------

/// The label of a song: its artist, a dash and its title, or the one that is known.
pub open spec fn label_of(artist: Option<Seq<char>>, title: Option<Seq<char>>) -> Seq<char> {
    text::trimmed(
        match (artist, title) {
            (Some(a), Some(t)) => a + " - "@ + t,
            (None, Some(t)) => t,
            (Some(a), None) => a,
            (None, None) => Seq::empty(),
        },
    )
}

/// The labels with one more, unless it is blank or among them.
pub open spec fn with_label(labels: Seq<Seq<char>>, label: Seq<char>) -> Seq<Seq<char>> {
    if label.len() > 0 && !labels.contains(label) {
        labels.push(label)
    } else {
        labels
    }
}

/// The labels that were read, and the song that is being read.
#[verifier::ext_equal]
pub struct Reading {
    /// The labels.
    pub labels: Seq<Seq<char>>,
    /// The artist of the song.
    pub artist: Option<Seq<char>>,
    /// The title of the song.
    pub title: Option<Seq<char>>,
}

/// What was read with one more pair.
pub open spec fn read_on(r: Reading, key: Seq<char>, value: Seq<char>) -> Reading {
    if key == "file"@ {
        Reading {
            labels: with_label(r.labels, label_of(r.artist, r.title)),
            artist: None,
            title: None,
        }
    } else if key == "Title"@ {
        Reading { title: Some(value), ..r }
    } else if key == "Artist"@ && r.artist is None {
        Reading { artist: Some(value), ..r }
    } else {
        r
    }
}

/// What was read in the pairs. A song begins at each `file`.
pub open spec fn reading(pairs: Seq<(String, String)>) -> Reading
    decreases pairs.len(),
{
    if pairs.len() == 0 {
        Reading { labels: Seq::empty(), artist: None, title: None }
    } else {
        read_on(reading(pairs.drop_last()), pairs.last().0@, pairs.last().1@)
    }
}

/// The labels of the songs in the pairs, each once.
pub open spec fn labels_in(pairs: Seq<(String, String)>) -> Seq<Seq<char>> {
    let r = reading(pairs);
    with_label(r.labels, label_of(r.artist, r.title))
}

/// What was read stays at the front of what is read on.
proof fn labels_stay(pairs: Seq<(String, String)>, k: int)
    requires
        0 <= k <= pairs.len(),
    ensures
        reading(pairs.take(k)).labels.len() <= labels_in(pairs).len(),
        labels_in(pairs).take(reading(pairs.take(k)).labels.len() as int) == reading(
            pairs.take(k),
        ).labels,
    decreases pairs.len() - k,
{
    let a = reading(pairs.take(k)).labels;
    if k == pairs.len() {
        assert(pairs.take(k) =~= pairs);
        assert(labels_in(pairs).take(a.len() as int) =~= a);
    } else {
        labels_stay(pairs, k + 1);
        assert(pairs.take(k + 1).drop_last() =~= pairs.take(k));
        let b = reading(pairs.take(k + 1)).labels;
        let all = labels_in(pairs);
        assert(a.len() <= b.len() && b.take(a.len() as int) =~= a);
        assert(all.take(a.len() as int) =~= all.take(b.len() as int).take(a.len() as int));
    }
}

fn has_label(labels: &Vec<String>, label: &str) -> (r: bool)
    ensures
        r == text::texts(labels@).contains(label@),
{
    let ghost v = text::texts(labels@);
    let mut i: usize = 0;
    while i < labels.len()
        invariant
            i <= labels@.len(),
            v == text::texts(labels@),
            forall|k: int| 0 <= k < i ==> #[trigger] v[k] != label@,
        decreases labels@.len() - i,
    {
        if text::same(labels[i].as_str(), label) {
            assert(v[i as int] == label@);
            return true;
        }
        i += 1;
    }
    false
}

fn push_label(labels: &mut Vec<String>, artist: &Option<String>, title: &Option<String>)
    ensures
        text::texts(final(labels)@) == with_label(
            text::texts(old(labels)@),
            label_of(text::opt(*artist), text::opt(*title)),
        ),
{
    broadcast use text::texts_push;

    let raw = match (artist, title) {
        (Some(a), Some(t)) => {
            let mut s = a.clone();
            s.append(" - ");
            s.append(t.as_str());
            s
        },
        (None, Some(t)) => t.clone(),
        (Some(a), None) => a.clone(),
        (None, None) => String::new(),
    };
    let label = text::trim(raw.as_str());
    assert(raw@ =~= match (text::opt(*artist), text::opt(*title)) {
        (Some(a), Some(t)) => a + " - "@ + t,
        (None, Some(t)) => t,
        (Some(a), None) => a,
        (None, None) => Seq::empty(),
    });
    let n: usize = text::chars(label.as_str()).len();
    if n > 0 && !has_label(labels, label.as_str()) {
        labels.push(label);
    }
}

/// The labels of the songs in an answer, each once, and no more than `limit`.
pub fn labels_from_song_pairs(pairs: &[(String, String)], limit: usize) -> (r: Vec<String>)
    ensures
        text::texts(r@) == first(labels_in(pairs@), limit as int),
{
    let mut labels: Vec<String> = Vec::new();
    let mut artist: Option<String> = None;
    let mut title: Option<String> = None;
    let mut i: usize = 0;
    proof {
        assert(pairs@.take(0) =~= Seq::<(String, String)>::empty());
        assert(text::texts(labels@) =~= Seq::<Seq<char>>::empty());
    }
    while i < pairs.len()
        invariant
            i <= pairs@.len(),
            text::texts(labels@) == reading(pairs@.take(i as int)).labels,
            text::opt(artist) == reading(pairs@.take(i as int)).artist,
            text::opt(title) == reading(pairs@.take(i as int)).title,
            i > 0 ==> labels@.len() < limit,
        decreases pairs@.len() - i,
    {
        proof {
            assert(pairs@.take(i + 1).drop_last() =~= pairs@.take(i as int));
            assert(pairs@.take(i + 1).last() == pairs@[i as int]);
            assert(text::texts(labels@).len() == labels@.len());
        }
        let key = pairs[i].0.as_str();
        if text::same(key, "file") {
            push_label(&mut labels, &artist, &title);
            artist = None;
            title = None;
        } else if text::same(key, "Title") {
            title = Some(pairs[i].1.clone());
        } else if text::same(key, "Artist") && artist.is_none() {
            artist = Some(pairs[i].1.clone());
        }
        i += 1;
        assert(text::texts(labels@).len() == labels@.len());
        if labels.len() >= limit {
            proof {
                labels_stay(pairs@, i as int);
                assert(text::texts(labels@) =~= first(labels_in(pairs@), limit as int));
            }
            return labels;
        }
    }
    assert(pairs@.take(i as int) =~= pairs@);
    push_label(&mut labels, &artist, &title);
    let ghost all = labels@;
    assert(text::texts(all).len() == all.len());
    if labels.len() > limit {
        labels.truncate(limit);
        assert(text::texts(labels@) =~= text::texts(all).take(limit as int));
    }
    labels
}

// ---------------------------------------------------------------------------
// Keywords
// ---------------------------------------------------------------------------

/// The words that say nothing of what is looked for.
pub open spec fn stopwords() -> Seq<Seq<char>> {
    seq![
        "play"@,
        "queue"@,
        "add"@,
        "put"@,
        "on"@,
        "some"@,
        "a"@,
        "an"@,
        "the"@,
        "few"@,
        "couple"@,
        "bunch"@,
        "of"@,
        "track"@,
        "tracks"@,
        "song"@,
        "songs"@,
        "music"@,
        "please"@,
        "at"@,
        "end"@,
        "next"@,
        "now"@,
        "after"@,
        "current"@,
        "me"@,
        "something"@,
        "stuff"@,
        "and"@,
        "to"@,
        "for"@,
        "up"@,
        "more"@,
        "bit"@,
        "little"@,
        "playing"@,
        "start"@,
        "with"@,
    ]
}

fn is_stopword(w: &str) -> (r: bool)
    ensures
        r == text::is_any(w@, stopwords()),
{
    let words = vec![
        "play",
        "queue",
        "add",
        "put",
        "on",
        "some",
        "a",
        "an",
        "the",
        "few",
        "couple",
        "bunch",
        "of",
        "track",
        "tracks",
        "song",
        "songs",
        "music",
        "please",
        "at",
        "end",
        "next",
        "now",
        "after",
        "current",
        "me",
        "something",
        "stuff",
        "and",
        "to",
        "for",
        "up",
        "more",
        "bit",
        "little",
        "playing",
        "start",
        "with",
    ];
    assert(text::views(words@) =~= stopwords());
    text::is_one_of(w, &words)
}

/// The runs of letters and numbers of a text, empty ones included, between all its other
/// characters.
pub open spec fn runs(s: Seq<char>) -> Seq<Seq<char>>
    decreases s.len(),
{
    if s.len() == 0 {
        seq![Seq::empty()]
    } else {
        let before = runs(s.drop_last());
        if text::alphanumeric(s.last()) {
            before.drop_last().push(before.last().push(s.last()))
        } else {
            before.push(Seq::empty())
        }
    }
}

/// A word says something: it is no stopword, and more than a single character.
pub open spec fn is_content(w: Seq<char>) -> bool {
    w.len() > 1 && !text::is_any(w, stopwords())
}

/// The words of a row that say something, in lower case.
pub open spec fn content_of(words: Seq<Seq<char>>) -> Seq<Seq<char>>
    decreases words.len(),
{
    if words.len() == 0 {
        Seq::empty()
    } else {
        let before = content_of(words.drop_last());
        let w = text::lower(words.last());
        if is_content(w) {
            before.push(w)
        } else {
            before
        }
    }
}

/// The words of a text that say something.
pub open spec fn keywords_of(s: Seq<char>) -> Seq<Seq<char>> {
    content_of(runs(s))
}

fn says_something(w: &str) -> (r: bool)
    ensures
        r == is_content(w@),
{
    let n: usize = text::chars(w).len();
    n > 1 && !is_stopword(w)
}

fn split_runs(s: &str) -> (r: Vec<String>)
    ensures
        text::texts(r@) == runs(s@),
{
    let v = text::chars(s);
    let n: usize = v.len();
    let mut r: Vec<String> = Vec::new();
    let mut cur = String::new();
    let mut i: usize = 0;
    proof {
        assert(v@.take(0) =~= Seq::<char>::empty());
        assert(text::texts(r@).push(cur@) =~= seq![Seq::empty()]);
    }
    while i < n
        invariant
            i <= n == v@.len(),
            v@ == s@,
            text::texts(r@).push(cur@) == runs(v@.take(i as int)),
        decreases n - i,
    {
        broadcast use text::texts_push;

        let ghost done = text::texts(r@);
        let ghost was = cur@;
        assert(v@.take(i + 1).drop_last() =~= v@.take(i as int));
        assert(v@.take(i + 1).last() == v@[i as int]);
        assert(done.push(was).drop_last() =~= done);
        if text::is_alphanumeric(v[i]) {
            cur.push(v[i]);
            assert(text::texts(r@).push(cur@) =~= runs(v@.take(i + 1)));
        } else {
            r.push(cur);
            cur = String::new();
            assert(text::texts(r@).push(cur@) =~= runs(v@.take(i + 1)));
        }
        i += 1;
    }
    assert(v@.take(n as int) =~= s@);
    {
        broadcast use text::texts_push;

        r.push(cur);
    }
    r
}

/// The words of an utterance that say something.
pub fn search_words(utterance: &str) -> (r: Vec<String>)
    ensures
        text::texts(r@) == keywords_of(utterance@),
{
    let parts = split_runs(utterance);
    let ghost all = text::texts(parts@);
    let mut r: Vec<String> = Vec::new();
    let mut i: usize = 0;
    proof {
        assert(all.take(0) =~= Seq::<Seq<char>>::empty());
        assert(text::texts(r@) =~= Seq::<Seq<char>>::empty());
    }
    while i < parts.len()
        invariant
            i <= parts@.len(),
            all == text::texts(parts@),
            text::texts(r@) == content_of(all.take(i as int)),
        decreases parts@.len() - i,
    {
        broadcast use text::texts_push;

        assert(all.take(i + 1).drop_last() =~= all.take(i as int));
        assert(all.take(i + 1).last() == parts@[i as int]@);
        let w = text::to_lower(parts[i].as_str());
        if says_something(w.as_str()) {
            r.push(w);
        }
        i += 1;
    }
    assert(all.take(i as int) =~= all);
    r
}

/// The words of an utterance that say something, with spaces between them.
pub fn content_keywords(utterance: &str) -> (r: String)
    ensures
        r@ == text::joined(keywords_of(utterance@), " "@),
{
    text::join(search_words(utterance).as_slice(), " ")
}

// ---------------------------------------------------------------------------
// Searching
// ---------------------------------------------------------------------------

/// A value with a backslash before each quote and backslash.
pub fn mpd_escape(s: &str) -> (r: String)
    ensures
        r@ == echo::escaped(s@),
{
    let v = text::chars(s);
    let n: usize = v.len();
    let mut out = String::new();
    let mut i: usize = 0;
    assert(v@.take(0) =~= Seq::<char>::empty());
    assert(out@ =~= echo::escaped(v@.take(0)));
    while i < n
        invariant
            i <= n == v@.len(),
            v@ == s@,
            out@ == echo::escaped(v@.take(i as int)),
        decreases n - i,
    {
        assert(v@.take(i + 1).drop_last() =~= v@.take(i as int));
        assert(v@.take(i + 1).last() == v@[i as int]);
        if v[i] == '"' || v[i] == '\\' {
            out.push('\\');
        }
        out.push(v[i]);
        i += 1;
        assert(out@ =~= echo::escaped(v@.take(i as int)));
    }
    assert(v@.take(n as int) =~= s@);
    out
}

/// The request that searches for a word.
pub open spec fn search_request(kw: Seq<char>) -> Seq<char> {
    "search any \""@ + echo::escaped(kw) + "\""@
}

/// The request that searches for a word.
pub fn search_line(kw: &str) -> (r: String)
    ensures
        r@ == search_request(kw@),
{
    let mut s = "search any \"".to_owned();
    s.append(mpd_escape(kw).as_str());
    s.append("\"");
    s
}

/// The labels with more, each once, and no more than `limit`.
pub open spec fn merged(labels: Seq<Seq<char>>, more: Seq<Seq<char>>, limit: int) -> Seq<Seq<char>>
    decreases more.len(),
{
    if more.len() == 0 {
        labels
    } else {
        let before = merged(labels, more.drop_last(), limit);
        if before.len() < limit && !before.contains(more.last()) {
            before.push(more.last())
        } else {
            before
        }
    }
}

/// A search for labels, word by word: a song is found that any of them names.
#[derive(Debug)]
pub struct LabelSearch {
    /// The words that are still to be searched for.
    pub words: Vec<String>,
    /// The labels that were found.
    pub labels: Vec<String>,
    /// How many labels are gathered at most.
    pub limit: usize,
}

impl LabelSearch {
    /// A search for what an utterance names.
    pub fn begin(utterance: &str, limit: usize) -> (r: LabelSearch)
        ensures
            text::texts(r.words@) == keywords_of(utterance@),
            text::texts(r.labels@) == Seq::<Seq<char>>::empty(),
            r.limit == limit,
    {
        let r = LabelSearch { words: search_words(utterance), labels: Vec::new(), limit };
        assert(text::texts(r.labels@) =~= Seq::<Seq<char>>::empty());
        r
    }

    /// The next request. There is none where no word is left or enough was found.
    pub fn next_line(&mut self) -> (r: Option<String>)
        ensures
            final(self).labels == old(self).labels,
            final(self).limit == old(self).limit,
            match r {
                Some(line) => {
                    &&& old(self).words@.len() > 0
                    &&& old(self).labels@.len() < old(self).limit
                    &&& line@ == search_request(old(self).words@[0]@)
                    &&& final(self).words@ == old(self).words@.drop_first()
                },
                None => {
                    &&& old(self).words@.len() == 0 || old(self).labels@.len() >= old(self).limit
                    &&& final(self).words@ == old(self).words@
                },
            },
    {
        if self.words.len() == 0 || self.labels.len() >= self.limit {
            return None;
        }
        let w = self.words.remove(0);
        assert(self.words@ =~= old(self).words@.drop_first());
        Some(search_line(w.as_str()))
    }

    /// The answer to the last request, or `None` where it failed: another word may still
    /// find something.
    pub fn on_reply(&mut self, pairs: Option<&[(String, String)]>)
        ensures
            final(self).words == old(self).words,
            final(self).limit == old(self).limit,
            text::texts(final(self).labels@) == (match pairs {
                Some(p) => merged(
                    text::texts(old(self).labels@),
                    first(labels_in(p@), old(self).limit as int),
                    old(self).limit as int,
                ),
                None => text::texts(old(self).labels@),
            }),
    {
        if let Some(p) = pairs {
            let more = labels_from_song_pairs(p, self.limit);
            let ghost all = text::texts(more@);
            let ghost start = text::texts(self.labels@);
            let mut i: usize = 0;
            assert(all.take(0) =~= Seq::<Seq<char>>::empty());
            while i < more.len()
                invariant
                    i <= more@.len(),
                    all == text::texts(more@),
                    self.words == old(self).words,
                    self.limit == old(self).limit,
                    text::texts(self.labels@) == merged(
                        start,
                        all.take(i as int),
                        self.limit as int,
                    ),
                decreases more@.len() - i,
            {
                broadcast use text::texts_push;

                assert(all.take(i + 1).drop_last() =~= all.take(i as int));
                assert(all.take(i + 1).last() == more@[i as int]@);
                assert(text::texts(self.labels@).len() == self.labels@.len());
                if self.labels.len() < self.limit && !has_label(&self.labels, more[i].as_str()) {
                    self.labels.push(more[i].clone());
                }
                i += 1;
            }
            assert(all.take(i as int) =~= all);
        }
    }
}

// ---------------------------------------------------------------------------
// Laws
// ---------------------------------------------------------------------------

/// A text of ASCII letters and digits.
spec fn is_run(w: Seq<char>) -> bool {
    forall|i: int| 0 <= i < w.len() ==> text::alphanumeric(#[trigger] w[i]) && (w[i] as u32) < 128
}

proof fn runs_are_runs(s: Seq<char>)
    requires
        text::ascii(s),
    ensures
        runs(s).len() > 0,
        forall|i: int| 0 <= i < runs(s).len() ==> is_run(#[trigger] runs(s)[i]),
    decreases s.len(),
{
    if s.len() > 0 {
        let init = s.drop_last();
        assert(text::ascii(init)) by {
            assert forall|i: int| 0 <= i < init.len() implies (#[trigger] init[i] as u32) < 128 by {
                assert(init[i] == s[i]);
            }
        }
        runs_are_runs(init);
        let before = runs(init);
        assert((s[s.len() - 1] as u32) < 128);
        assert forall|i: int| 0 <= i < runs(s).len() implies is_run(#[trigger] runs(s)[i]) by {
            if i < before.len() - 1 {
                assert(runs(s)[i] == before[i]);
            } else {
                assert(is_run(before[before.len() - 1]));
            }
        }
    }
}

proof fn lower_runs(w: Seq<char>)
    requires
        is_run(w),
    ensures
        is_run(text::lower(w)),
        text::lower(text::lower(w)) == text::lower(w),
{
    let l = text::lower(w);
    assert(text::ascii(w)) by {
        assert forall|i: int| 0 <= i < w.len() implies (#[trigger] w[i] as u32) < 128 by {
            assert(text::alphanumeric(w[i]));
        }
    }
    assert forall|i: int| 0 <= i < l.len() implies text::alphanumeric(#[trigger] l[i]) && (
    l[i] as u32) < 128 by {
        assert(text::alphanumeric(w[i]));
    }
    assert(text::ascii(l)) by {
        assert forall|i: int| 0 <= i < l.len() implies (#[trigger] l[i] as u32) < 128 by {
            assert(text::alphanumeric(l[i]));
        }
    }
    assert(text::lower(l) =~= l);
}

/// A word that is a keyword of itself.
spec fn is_settled(w: Seq<char>) -> bool {
    is_run(w) && text::lower(w) == w && is_content(w)
}

proof fn content_is_settled(words: Seq<Seq<char>>)
    requires
        forall|i: int| 0 <= i < words.len() ==> is_run(#[trigger] words[i]),
    ensures
        forall|i: int| 0 <= i < content_of(words).len() ==> is_settled(#[trigger] content_of(words)[i]),
    decreases words.len(),
{
    if words.len() > 0 {
        let init = words.drop_last();
        assert forall|i: int| 0 <= i < init.len() implies is_run(#[trigger] init[i]) by {
            assert(init[i] == words[i]);
        }
        content_is_settled(init);
        assert(is_run(words[words.len() - 1]));
        lower_runs(words.last());
        let before = content_of(init);
        assert forall|i: int| 0 <= i < content_of(words).len() implies is_settled(
            #[trigger] content_of(words)[i],
        ) by {
            if i < before.len() {
                assert(content_of(words)[i] == before[i]);
            }
        }
    }
}

proof fn settled_words_stay(words: Seq<Seq<char>>)
    requires
        forall|i: int| 0 <= i < words.len() ==> is_settled(#[trigger] words[i]),
    ensures
        content_of(words) == words,
    decreases words.len(),
{
    if words.len() > 0 {
        let init = words.drop_last();
        assert forall|i: int| 0 <= i < init.len() implies is_settled(#[trigger] init[i]) by {
            assert(init[i] == words[i]);
        }
        settled_words_stay(init);
        assert(is_settled(words[words.len() - 1]));
        assert(init.push(words.last()) =~= words);
    } else {
        assert(content_of(words) =~= words);
    }
}

/// A run behind a space is a run of its own.
proof fn run_behind_a_space(a: Seq<char>, w: Seq<char>)
    requires
        is_run(w),
    ensures
        runs(a + seq![' '] + w) == runs(a).push(w),
    decreases w.len(),
{
    let s = a + seq![' '] + w;
    if w.len() == 0 {
        assert(s.drop_last() =~= a);
        assert(s.last() == ' ');
        assert(w =~= Seq::<char>::empty());
    } else {
        let v = w.drop_last();
        assert(is_run(v)) by {
            assert forall|i: int| 0 <= i < v.len() implies text::alphanumeric(#[trigger] v[i]) && (
            v[i] as u32) < 128 by {
                assert(text::alphanumeric(w[i]));
            }
        }
        run_behind_a_space(a, v);
        assert(s.drop_last() =~= a + seq![' '] + v);
        assert(text::alphanumeric(w[w.len() - 1]));
        assert(s.last() == w.last());
        assert(runs(a).push(v).drop_last() =~= runs(a));
        assert(v.push(w.last()) =~= w);
    }
}

proof fn run_alone(w: Seq<char>)
    requires
        is_run(w),
    ensures
        runs(w) == seq![w],
    decreases w.len(),
{
    if w.len() == 0 {
        assert(w =~= Seq::<char>::empty());
    } else {
        let v = w.drop_last();
        assert(is_run(v)) by {
            assert forall|i: int| 0 <= i < v.len() implies text::alphanumeric(#[trigger] v[i]) && (
            v[i] as u32) < 128 by {
                assert(text::alphanumeric(w[i]));
            }
        }
        run_alone(v);
        assert(text::alphanumeric(w[w.len() - 1]));
        assert(v.push(w.last()) =~= w);
        assert(runs(w) =~= seq![w]);
    }
}

proof fn joined_runs(v: Seq<Seq<char>>)
    requires
        v.len() > 0,
        forall|i: int| 0 <= i < v.len() ==> is_run(#[trigger] v[i]),
    ensures
        runs(text::joined(v, " "@)) == v,
    decreases v.len(),
{
    reveal_strlit(" ");
    assert(is_run(v[v.len() - 1]));
    if v.len() == 1 {
        run_alone(v[0]);
        assert(v =~= seq![v[0]]);
    } else {
        let init = v.drop_last();
        assert forall|i: int| 0 <= i < init.len() implies is_run(#[trigger] init[i]) by {
            assert(init[i] == v[i]);
        }
        joined_runs(init);
        let a = text::joined(init, " "@);
        assert(" "@ =~= seq![' ']);
        run_behind_a_space(a, v.last());
        assert(init.push(v.last()) =~= v);
    }
}

/// The keywords of the keywords of an ASCII text are the same keywords.
pub proof fn keywords_are_their_own_keywords(s: Seq<char>)
    requires
        text::ascii(s),
    ensures
        keywords_of(text::joined(keywords_of(s), " "@)) == keywords_of(s),
{
    let v = keywords_of(s);
    runs_are_runs(s);
    content_is_settled(runs(s));
    settled_words_stay(v);
    if v.len() > 0 {
        assert forall|i: int| 0 <= i < v.len() implies is_run(#[trigger] v[i]) by {
            assert(is_settled(v[i]));
        }
        joined_runs(v);
    } else {
        let none = Seq::<char>::empty();
        assert(runs(none) =~= seq![none]);
        assert(text::lower(none) =~= none);
        assert(seq![none].drop_last() =~= Seq::<Seq<char>>::empty());
        assert(content_of(seq![none].drop_last()) =~= Seq::<Seq<char>>::empty());
        assert(content_of(seq![none]) =~= v);
    }
}

/// What is searched for reaches the daemon as the word that it is.
pub proof fn a_search_is_read_as_its_word(kw: Seq<char>)
    ensures
        tokens::tokens(search_request(kw)) == seq!["search"@, "any"@, kw],
{
    reveal_strlit("search any \"");
    reveal_strlit("\"");
    reveal_strlit("search");
    reveal_strlit("any");
    let none = Seq::<char>::empty();
    let q = seq!['"'] + echo::escaped(kw) + seq!['"'];
    let r1 = seq![' '] + q;
    let r0 = seq![' '] + ("any"@ + r1);
    assert(search_request(kw) =~= "search"@ + r0);
    assert(!echo::needs_quotes("search"@)) by {
        assert(forall|i: int| 0 <= i < 6 ==> !echo::is_special(#[trigger] "search"@[i]));
    }
    assert(!echo::needs_quotes("any"@)) by {
        assert(forall|i: int| 0 <= i < 3 ==> !echo::is_special(#[trigger] "any"@[i]));
    }
    round_trip::token_reads_back("search"@, r0);
    round_trip::token_reads_back("any"@, r1);
    round_trip::quoted_reads_back(kw, none);
    assert(r0.drop_first() =~= "any"@ + r1);
    assert(r1.drop_first() =~= q);
    assert(q.drop_first() =~= echo::escaped(kw) + seq!['"'] + none);
    assert(tokens::tokens(none) =~= Seq::<Seq<char>>::empty());
    assert(tokens::tokens(q) =~= seq![kw]);
    assert(tokens::tokens(search_request(kw)) =~= seq!["search"@, "any"@, kw]);
}

/// No label occurs twice.
pub open spec fn once_each(labels: Seq<Seq<char>>) -> bool {
    forall|i: int, j: int| 0 <= i < j < labels.len() ==> #[trigger] labels[i] != #[trigger] labels[j]
}

proof fn reading_is_once_each(pairs: Seq<(String, String)>)
    ensures
        once_each(reading(pairs).labels),
    decreases pairs.len(),
{
    if pairs.len() > 0 {
        reading_is_once_each(pairs.drop_last());
    }
}

/// The labels that are found name each song once, and there are no more than asked for.
pub proof fn labels_are_distinct(pairs: Seq<(String, String)>, limit: int)
    requires
        0 <= limit,
    ensures
        once_each(first(labels_in(pairs), limit)),
        first(labels_in(pairs), limit).len() <= limit,
{
    reading_is_once_each(pairs);
}

/// A search never gathers more than it was asked for, nor a label twice.
pub proof fn a_search_is_bounded(labels: Seq<Seq<char>>, more: Seq<Seq<char>>, limit: int)
    requires
        once_each(labels),
        labels.len() <= limit,
    ensures
        once_each(merged(labels, more, limit)),
        merged(labels, more, limit).len() <= limit,
    decreases more.len(),
{
    if more.len() > 0 {
        a_search_is_bounded(labels, more.drop_last(), limit);
    }
}

proof fn stopwords_are_these(w: Seq<char>)
    ensures
        text::is_any(w, stopwords()) == (w == "play"@ || w == "queue"@ || w == "add"@ || w == "put"@
            || w == "on"@ || w == "some"@ || w == "a"@ || w == "an"@ || w == "the"@ || w == "few"@
            || w == "couple"@ || w == "bunch"@ || w == "of"@ || w == "track"@ || w == "tracks"@
            || w == "song"@ || w == "songs"@ || w == "music"@ || w == "please"@ || w == "at"@
            || w == "end"@ || w == "next"@ || w == "now"@ || w == "after"@ || w == "current"@
            || w == "me"@ || w == "something"@ || w == "stuff"@ || w == "and"@ || w == "to"@
            || w == "for"@ || w == "up"@ || w == "more"@ || w == "bit"@ || w == "little"@
            || w == "playing"@ || w == "start"@ || w == "with"@),
{
    let list = stopwords();
    assert(list[0] == "play"@);
    assert(list[1] == "queue"@);
    assert(list[2] == "add"@);
    assert(list[3] == "put"@);
    assert(list[4] == "on"@);
    assert(list[5] == "some"@);
    assert(list[6] == "a"@);
    assert(list[7] == "an"@);
    assert(list[8] == "the"@);
    assert(list[9] == "few"@);
    assert(list[10] == "couple"@);
    assert(list[11] == "bunch"@);
    assert(list[12] == "of"@);
    assert(list[13] == "track"@);
    assert(list[14] == "tracks"@);
    assert(list[15] == "song"@);
    assert(list[16] == "songs"@);
    assert(list[17] == "music"@);
    assert(list[18] == "please"@);
    assert(list[19] == "at"@);
    assert(list[20] == "end"@);
    assert(list[21] == "next"@);
    assert(list[22] == "now"@);
    assert(list[23] == "after"@);
    assert(list[24] == "current"@);
    assert(list[25] == "me"@);
    assert(list[26] == "something"@);
    assert(list[27] == "stuff"@);
    assert(list[28] == "and"@);
    assert(list[29] == "to"@);
    assert(list[30] == "for"@);
    assert(list[31] == "up"@);
    assert(list[32] == "more"@);
    assert(list[33] == "bit"@);
    assert(list[34] == "little"@);
    assert(list[35] == "playing"@);
    assert(list[36] == "start"@);
    assert(list[37] == "with"@);
}

/// A word says something where it is more than one character and none of the words that
/// every request is made of.
pub proof fn what_says_something(w: Seq<char>)
    ensures
        is_content(w) <==> w.len() > 1 && !(w == "play"@ || w == "queue"@ || w == "add"@
            || w == "put"@ || w == "on"@ || w == "some"@ || w == "a"@ || w == "an"@ || w == "the"@
            || w == "few"@ || w == "couple"@ || w == "bunch"@ || w == "of"@ || w == "track"@
            || w == "tracks"@ || w == "song"@ || w == "songs"@ || w == "music"@ || w == "please"@
            || w == "at"@ || w == "end"@ || w == "next"@ || w == "now"@ || w == "after"@
            || w == "current"@ || w == "me"@ || w == "something"@ || w == "stuff"@ || w == "and"@
            || w == "to"@ || w == "for"@ || w == "up"@ || w == "more"@ || w == "bit"@
            || w == "little"@ || w == "playing"@ || w == "start"@ || w == "with"@),
{
    stopwords_are_these(w);
}

/// Each word that says something is kept, in lower case and in its order, and every other is
/// dropped.
pub proof fn words_that_say_something_are_kept(words: Seq<Seq<char>>, w: Seq<char>)
    ensures
        is_content(text::lower(w)) ==> content_of(words.push(w)) == content_of(words).push(
            text::lower(w),
        ),
        !is_content(text::lower(w)) ==> content_of(words.push(w)) == content_of(words),
        content_of(Seq::empty()).len() == 0,
{
    assert(words.push(w).drop_last() =~= words);
    assert(words.push(w).last() == w);
}

/// A letter or a number goes on with the word before it, and anything else ends that word.
pub proof fn words_end_at_other_characters(s: Seq<char>, c: char)
    ensures
        runs(s).len() > 0,
        text::alphanumeric(c) ==> runs(s.push(c))
            == runs(s).drop_last().push(runs(s).last().push(c)),
        !text::alphanumeric(c) ==> runs(s.push(c)) == runs(s).push(Seq::empty()),
    decreases s.len(),
{
    assert(s.push(c).drop_last() =~= s);
    if s.len() > 0 {
        words_end_at_other_characters(s.drop_last(), s.last());
        assert(s.drop_last().push(s.last()) =~= s);
    }
}

/// A song is labelled by its artist and its title, or by the one that is known; each label
/// is told once, where it first came, and blank ones are not told.
pub proof fn a_label_is_told_once(
    labels: Seq<Seq<char>>,
    label: Seq<char>,
    artist: Seq<char>,
    title: Seq<char>,
)
    ensures
        label_of(Some(artist), Some(title)) == text::trimmed(artist + " - "@ + title),
        label_of(None, Some(title)) == text::trimmed(title),
        label_of(Some(artist), None) == text::trimmed(artist),
        label_of(None, None).len() == 0,
        label.len() > 0 ==> with_label(labels, label).contains(label),
        labels.contains(label) ==> with_label(labels, label) == labels,
        label.len() == 0 ==> with_label(labels, label) == labels,
        !labels.contains(label) && label.len() > 0 ==> with_label(labels, label) == labels.push(
            label,
        ),
{
    if label.len() > 0 && !labels.contains(label) {
        let l = labels.push(label);
        assert(l[labels.len() as int] == label);
    }
}

/// A song begins at each `file`; its title is the last one said and its artist the first.
pub proof fn a_song_is_read_to_the_next(r: Reading, value: Seq<char>)
    ensures
        ({
            let n = read_on(r, "file"@, value);
            &&& n.artist is None && n.title is None
            &&& n.labels == with_label(r.labels, label_of(r.artist, r.title))
        }),
        ({
            let n = read_on(r, "Title"@, value);
            n.title == Some(value) && n.artist == r.artist && n.labels == r.labels
        }),
        ({
            let n = read_on(r, "Artist"@, value);
            &&& n.title == r.title && n.labels == r.labels
            &&& r.artist is None ==> n.artist == Some(value)
            &&& r.artist is Some ==> n.artist == r.artist
        }),
{
    reveal_strlit("file");
    reveal_strlit("Title");
    reveal_strlit("Artist");
    assert("file"@.len() == 4 && "Title"@.len() == 5 && "Artist"@.len() == 6);
}

/// Genres are gathered in order, as they are written; other pairs and blank ones are passed
/// over.
pub proof fn genres_are_gathered_in_order(pairs: Seq<(String, String)>, p: (String, String))
    ensures
        p.0@ == "Genre"@ && text::trimmed(p.1@).len() > 0 ==> genres_in(pairs.push(p))
            == genres_in(pairs).push(p.1@),
        p.0@ != "Genre"@ || text::trimmed(p.1@).len() == 0 ==> genres_in(pairs.push(p))
            == genres_in(pairs),
{
    assert(pairs.push(p).drop_last() =~= pairs);
    assert(pairs.push(p).last() == p);
}

/// Labels that are found later come behind those found before, each once, and none beyond
/// the limit.
pub proof fn more_labels_come_behind(
    labels: Seq<Seq<char>>,
    more: Seq<Seq<char>>,
    label: Seq<char>,
    limit: int,
)
    ensures
        ({
            let before = merged(labels, more, limit);
            let now = merged(labels, more.push(label), limit);
            &&& before.len() < limit && !before.contains(label) ==> now == before.push(label)
            &&& before.len() >= limit || before.contains(label) ==> now == before
            &&& merged(labels, Seq::empty(), limit) == labels
        }),
{
    assert(more.push(label).drop_last() =~= more);
    assert(more.push(label).last() == label);
}

/// Of a row as many are taken as fit, from its front; of the genres, forty.
pub proof fn the_first_are_taken<A>(s: Seq<A>, n: int, i: int)
    requires
        0 <= n,
        0 <= i,
    ensures
        s.len() <= n ==> first(s, n) == s,
        s.len() > n ==> first(s, n).len() == n,
        s.len() > n && i < n ==> first(s, n)[i] == s[i],
        s.len() > 40 ==> first(s, GENRE_LIMIT as int).len() == 40,
        s.len() <= 40 ==> first(s, GENRE_LIMIT as int) == s,
{
}

} // verus!
