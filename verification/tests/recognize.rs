use hypodj::recognize::{
    non_blank, now_playing_title, recognized, MetaRow, RecognizeError, RecognizedTrack, Section, Told,
};
use serde_json::Value;

fn text_in(v: &Value, key: &str) -> Option<String> {
    v.get(key)?.as_str().map(|s| s.to_string())
}

fn items_in(v: &Value, key: &str) -> Vec<Value> {
    v.get(key).and_then(|s| s.as_array()).cloned().unwrap_or_default()
}

fn told(track: &Value) -> Told {
    let images = track.get("images").cloned().unwrap_or(Value::Null);
    Told {
        title: text_in(track, "title"),
        subtitle: text_in(track, "subtitle"),
        sections: items_in(track, "sections")
            .iter()
            .map(|s| Section {
                section_type: text_in(s, "type"),
                metadata: items_in(s, "metadata")
                    .iter()
                    .map(|m| MetaRow { title: text_in(m, "title"), text: text_in(m, "text") })
                    .collect(),
            })
            .collect(),
        coverart: text_in(&images, "coverart"),
        coverarthq: text_in(&images, "coverarthq"),
    }
}

fn parse_recognize_json(stdout: &str) -> Option<RecognizedTrack> {
    let v: Value = serde_json::from_str(stdout.trim()).ok()?;
    recognized(&told(v.get("track")?))
}

const REAL_HIT: &str = r#"{
  "track": {
    "title": "Blessings",
    "subtitle": "Calvin Harris & Clementine Douglas",
    "sections": [
      {
        "type": "SONG",
        "metadata": [
          { "title": "Album", "text": "Blessings" },
          { "title": "Label", "text": "Columbia" },
          { "title": "Released", "text": "2024" }
        ]
      },
      { "type": "LYRICS", "text": ["la la"] }
    ],
    "images": {
      "coverart": "https://is1.example/400x400.jpg",
      "coverarthq": "https://is1.example/hq.jpg"
    },
    "key": "12345",
    "share": { "subject": "Blessings - Calvin Harris & Clementine Douglas" }
  }
}"#;

#[test]
fn parse_recognize_json_extracts_fields() {
    let t = parse_recognize_json(REAL_HIT).expect("a hit");
    assert_eq!(t.title.as_deref(), Some("Blessings"));
    assert_eq!(t.artist.as_deref(), Some("Calvin Harris & Clementine Douglas"));
    assert_eq!(t.album.as_deref(), Some("Blessings"));
    assert_eq!(t.cover_url.as_deref(), Some("https://is1.example/hq.jpg"));
}

#[test]
fn parse_recognize_no_match_is_none() {
    assert_eq!(parse_recognize_json(""), None);
    assert_eq!(parse_recognize_json("   \n  "), None);
}

#[test]
fn parse_recognize_malformed_is_none() {
    assert_eq!(parse_recognize_json("not json at all"), None);
    assert_eq!(parse_recognize_json("{ \"track\": "), None);
    assert_eq!(parse_recognize_json("{}"), None);
    assert_eq!(parse_recognize_json(r#"{"track":{"images":{}}}"#), None);
}

#[test]
fn parse_recognize_blank_fields_drop_out() {
    let json = r#"{"track":{"title":"Yelle","subtitle":"   ","images":{"coverarthq":"  "}}}"#;
    let t = parse_recognize_json(json).expect("title alone is a hit");
    assert_eq!(t.title.as_deref(), Some("Yelle"));
    assert_eq!(t.artist, None);
    assert_eq!(t.cover_url, None);
    assert_eq!(t.album, None);
}

#[test]
fn now_playing_title_follows_icy_convention() {
    let full = RecognizedTrack {
        artist: Some("Yelle".into()),
        title: Some("Qui est cette fille?".into()),
        ..Default::default()
    };
    assert_eq!(now_playing_title(&full).as_deref(), Some("Yelle - Qui est cette fille?"));

    let title_only = RecognizedTrack { title: Some("Just A Title".into()), ..Default::default() };
    assert_eq!(now_playing_title(&title_only).as_deref(), Some("Just A Title"));

    let artist_only = RecognizedTrack { artist: Some("Just An Artist".into()), ..Default::default() };
    assert_eq!(now_playing_title(&artist_only).as_deref(), Some("Just An Artist"));

    assert_eq!(now_playing_title(&RecognizedTrack::default()), None);
}

#[test]
fn an_album_stands_in_a_section_about_a_song() {
    let row = |t: &str| MetaRow { title: Some("Album".into()), text: Some(t.into()) };
    let t = Told {
        title: Some("T".into()),
        subtitle: None,
        sections: vec![
            Section { section_type: Some("LYRICS".into()), metadata: vec![row("no")] },
            Section { section_type: Some("SONG".into()), metadata: vec![] },
            Section { section_type: Some("SONG".into()), metadata: vec![row("yes"), row("late")] },
        ],
        coverart: Some("small".into()),
        coverarthq: None,
    };
    let r = recognized(&t).unwrap();
    assert_eq!(r.album.as_deref(), Some("yes"));
    assert_eq!(r.cover_url.as_deref(), Some("small"));
}

#[test]
fn every_failure_has_its_words() {
    assert!(RecognizeError::Spawn("songrec", "not found".into()).message().contains("songrec"));
    assert_ne!(RecognizeError::Capture.message(), RecognizeError::Timeout.message());
}

#[test]
fn kept_texts_are_trimmed() {
    assert_eq!(non_blank(&Some("  Yelle  ".to_string())), Some("Yelle".to_string()));
    assert_eq!(non_blank(&Some(" \t".to_string())), None);
    assert_eq!(non_blank(&None), None);
    let t = recognized(&Told {
        title: Some("  Yelle  ".to_string()),
        subtitle: None,
        sections: vec![],
        coverart: None,
        coverarthq: Some(" ".to_string()),
    })
    .unwrap();
    assert_eq!(t.title.as_deref(), Some("Yelle"));
    assert_eq!(t.cover_url, None);
}
