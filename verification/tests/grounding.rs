use hypodj::client::grounding::{
    content_keywords, genres_from_pairs, labels_from_song_pairs, mpd_escape, search_line, LabelSearch,
    GENRE_LIMIT,
};
use hypodj::mpd::tokens::tokenize;

fn pairs(items: &[(&str, &str)]) -> Vec<(String, String)> {
    items.iter().map(|(k, v)| (k.to_string(), v.to_string())).collect()
}

#[test]
fn keywords_strip_command_and_filler_words() {
    assert_eq!(content_keywords("play some calm music"), "calm");
    assert_eq!(content_keywords("queue a few bossa nova tracks"), "bossa nova");
    assert_eq!(content_keywords("add three upbeat songs after the current track"), "three upbeat");
    assert_eq!(content_keywords("play some music"), "");
}

#[test]
fn labels_group_per_song_dedup_and_cap() {
    let p = pairs(&[
        ("file", "song/1"),
        ("Title", "Blue in Green"),
        ("Artist", "Bill Evans"),
        ("Album", "Kind of Blue"),
        ("file", "song/2"),
        ("Title", "So What"),
        ("Artist", "Miles Davis"),
        ("file", "song/3"),
        ("Title", "Blue in Green"),
        ("Artist", "Bill Evans"),
    ]);
    let got = labels_from_song_pairs(&p, 10);
    assert_eq!(got, vec!["Bill Evans - Blue in Green", "Miles Davis - So What"]);
    assert_eq!(labels_from_song_pairs(&p, 1).len(), 1);
}

#[test]
fn labels_tolerate_title_only_rows() {
    let p = pairs(&[("file", "song/9"), ("Title", "Untitled")]);
    assert_eq!(labels_from_song_pairs(&p, 5), vec!["Untitled"]);
    assert!(labels_from_song_pairs(&[], 5).is_empty());
}

#[test]
fn multi_keyword_utterance_yields_separate_search_words() {
    let keywords = content_keywords("queue some upbeat funk tracks");
    let words: Vec<&str> = keywords.split_whitespace().collect();
    assert_eq!(words, vec!["upbeat", "funk"]);
}

#[test]
fn genre_cap_is_bounded() {
    assert!(GENRE_LIMIT >= 1);
    assert!(GENRE_LIMIT <= 100);
}

#[test]
fn escape_quotes_and_backslashes() {
    assert_eq!(mpd_escape(r#"a"b\c"#), r#"a\"b\\c"#);
}

#[test]
fn a_search_reaches_the_server_as_one_word() {
    let line = search_line(r#"a"b\c"#);
    let (name, args) = tokenize(&line).unwrap();
    assert_eq!(name, "search");
    assert_eq!(args.last().unwrap(), r#"a"b\c"#);
}

#[test]
fn a_search_asks_word_by_word_until_it_has_enough() {
    let mut s = LabelSearch::begin("queue some upbeat funk tracks", 2);
    assert_eq!(s.next_line(), Some(search_line("upbeat")));
    s.on_reply(Some(&pairs(&[("file", "song/1"), ("Title", "A"), ("Artist", "X")])));
    assert_eq!(s.next_line(), Some(search_line("funk")));
    s.on_reply(Some(&pairs(&[
        ("file", "song/1"),
        ("Title", "A"),
        ("Artist", "X"),
        ("file", "song/2"),
        ("Title", "B"),
        ("file", "song/3"),
        ("Title", "C"),
    ])));
    assert_eq!(s.labels, vec!["X - A".to_string(), "B".to_string()]);
    assert_eq!(s.next_line(), None);
}

#[test]
fn genres_are_the_named_ones() {
    let p = pairs(&[("Genre", "Jazz"), ("Title", "x"), ("Genre", "Funk")]);
    assert_eq!(genres_from_pairs(&p), vec!["Jazz".to_string(), "Funk".to_string()]);
}

#[test]
fn a_single_character_says_nothing() {
    assert_eq!(content_keywords("play é"), "");
    assert_eq!(content_keywords("play éa x"), "éa");
}

#[test]
fn keywords_keep_their_keywords() {
    for s in ["Play some CALM, bossa-nova!", "", "a b c", "U2 at 11pm"] {
        let k = content_keywords(s);
        assert_eq!(content_keywords(&k), k);
    }
    assert_eq!(content_keywords("Play some CALM, bossa-nova!"), "calm bossa nova");
}
