use hypodj::event::Moment;
use hypodj::intelligence::{
    energy_score, lexicon_pull, pull_reweight, valence_score, FeatureStore, MetadataStore, Pull, PullField,
    ENERGETIC, LEXICON_PULL_STRENGTH, PULL_PRUNE_EPSILON, WHOLE,
};
use hypodj::model::{Song, SongId};

fn share(x: f64) -> i64 {
    (x * 1e9).round() as i64
}

fn at(secs: u128) -> Moment {
    Moment { nanos: (1_000 + secs) * 1_000_000_000 }
}

fn song_with(genre: Option<&str>, year: Option<u32>) -> Song {
    Song {
        id: SongId("s1".into()),
        title: "t".into(),
        album: None,
        album_id: None,
        artist: None,
        track: None,
        duration_secs: None,
        cover_art: None,
        starred: false,
        musicbrainz_id: None,
        disc: None,
        year,
        genre: genre.map(|g| g.to_string()),
        bitrate: None,
        comment: None,
        user_rating: None,
        composer: None,
        performer: None,
    }
}

#[test]
fn energy_orders_calm_below_mid_below_energetic() {
    let calm = energy_score(&song_with(Some("ambient"), None));
    let calm2 = energy_score(&song_with(Some("Classical"), None));
    let calm3 = energy_score(&song_with(Some("jazz"), None));
    let mid = energy_score(&song_with(Some("pop"), None));
    let mid2 = energy_score(&song_with(Some("Indie Rock"), None));
    let energetic = energy_score(&song_with(Some("metal"), None));
    let energetic2 = energy_score(&song_with(Some("Techno"), None));
    let energetic3 = energy_score(&song_with(Some("EDM"), None));
    for c in [calm, calm2, calm3] {
        assert!((0..=WHOLE as i64).contains(&c));
        assert!(c < mid, "calm {c} < mid {mid}");
        assert!(c < mid2);
    }
    for m in [mid, mid2] {
        assert!(m < energetic && m < energetic2 && m < energetic3);
    }
    for e in [energetic, energetic2, energetic3] {
        assert!((0..=WHOLE as i64).contains(&e));
    }
}

#[test]
fn absent_or_empty_genre_is_exactly_neutral() {
    assert_eq!(energy_score(&song_with(None, None)), share(0.5));
    assert_eq!(energy_score(&song_with(Some(""), None)), share(0.5));
    assert_eq!(energy_score(&song_with(Some("   "), None)), share(0.5));
    assert_eq!(energy_score(&song_with(Some("polka-mystery"), None)), share(0.5));
}

#[test]
fn multi_token_takes_max_bucket_and_is_case_insensitive() {
    let dm = energy_score(&song_with(Some("Death Metal"), None));
    assert_eq!(dm, ENERGETIC);
    let dmj = energy_score(&song_with(Some("death METAL jazz"), None));
    assert_eq!(dmj, ENERGETIC);
}

#[test]
fn deterministic_and_year_tiebreak_bounded() {
    let s = song_with(Some("pop"), Some(2005));
    assert_eq!(energy_score(&s), energy_score(&s));
    let old_pop = energy_score(&song_with(Some("pop"), Some(1965)));
    let new_pop = energy_score(&song_with(Some("pop"), Some(2020)));
    assert!((new_pop - old_pop).abs() <= share(0.06));
    let newest_calm = energy_score(&song_with(Some("ambient"), Some(2024)));
    let oldest_mid = energy_score(&song_with(Some("pop"), Some(1960)));
    assert!(newest_calm < oldest_mid);
}

#[test]
fn metadata_store_energy_matches_score_and_no_embedding() {
    let s = song_with(Some("techno"), Some(2018));
    let f = MetadataStore.features(&s).unwrap();
    assert_eq!(f.energy, energy_score(&s));
    assert_eq!(f.valence, valence_score(&s));
    assert!(f.embedding.is_none());
}

fn song(id: &str) -> Song {
    Song {
        id: SongId(id.into()),
        title: id.into(),
        album: None,
        album_id: None,
        artist: None,
        track: None,
        duration_secs: None,
        cover_art: None,
        starred: false,
        musicbrainz_id: None,
        disc: None,
        year: None,
        genre: None,
        bitrate: None,
        comment: None,
        user_rating: None,
        composer: None,
        performer: None,
    }
}

#[test]
fn lexicon_negation_inverts_direction() {
    let now = at(0);
    let less_energy = lexicon_pull("less energy", share(0.6) as u64, now).expect("negated term still pulls");
    assert!(less_energy.axes[0] < 0, "less energy pulls DOWN in energy: {:?}", less_energy.axes);
    let not_warm = lexicon_pull("not warmer", share(0.6) as u64, now).expect("negated term still pulls");
    assert!(not_warm.axes[1] < 0, "not warmer pulls DOWN in valence: {:?}", not_warm.axes);
    assert!(lexicon_pull("less", share(0.6) as u64, now).is_none());
}

#[test]
fn lexicon_maps_words() {
    let now = at(0);
    let calmer = lexicon_pull("calmer", share(0.6) as u64, now).unwrap();
    assert_eq!(calmer.axes, vec![-1, 0]);
    let energy = lexicon_pull("more energy", share(0.6) as u64, now).unwrap();
    assert_eq!(energy.axes, vec![1, 0]);
    let warmer = lexicon_pull("warmer", share(0.6) as u64, now).unwrap();
    assert_eq!(warmer.axes, vec![0, 1]);
    assert!(lexicon_pull("banana sandwich", share(0.6) as u64, now).is_none());
    assert!(lexicon_pull("", share(0.6) as u64, now).is_none());
}

#[test]
fn expanded_lexicon_maps_to_right_axis() {
    let now = at(0);
    for w in ["punchier", "faster", "driving", "intense"] {
        let p = lexicon_pull(w, share(0.6) as u64, now).unwrap_or_else(|| panic!("{w} pulls"));
        assert_eq!(p.axes, vec![1, 0], "{w} pulls up in energy");
    }
    for w in ["slower", "spacier", "chiller"] {
        let p = lexicon_pull(w, share(0.6) as u64, now).unwrap_or_else(|| panic!("{w} pulls"));
        assert_eq!(p.axes, vec![-1, 0], "{w} pulls down in energy");
    }
    for w in ["dreamier", "sweeter"] {
        let p = lexicon_pull(w, share(0.6) as u64, now).unwrap_or_else(|| panic!("{w} pulls"));
        assert_eq!(p.axes, vec![0, 1], "{w} pulls up in valence");
    }
    for w in ["gloomier", "bleaker"] {
        let p = lexicon_pull(w, share(0.6) as u64, now).unwrap_or_else(|| panic!("{w} pulls"));
        assert_eq!(p.axes, vec![0, -1], "{w} pulls down in valence");
    }
}

fn order(songs: &[Song]) -> Vec<&str> {
    songs.iter().map(|s| s.id.0.as_str()).collect()
}

fn incoming() -> Vec<Song> {
    vec![song("loud"), song("mid"), song("calm")]
}

fn bonuses(strength: f64) -> Vec<i64> {
    [0.9, 0.5, 0.1].iter().map(|e| share(-(e - 0.5) * strength)).collect()
}

#[test]
fn reweight_reorders_toward_pull() {
    let out = pull_reweight(WHOLE, &bonuses(1.0), incoming());
    assert_eq!(order(&out), vec!["calm", "mid", "loud"]);
}

#[test]
fn reweight_fade_weakens_ordering_before_death() {
    let hot = pull_reweight(WHOLE, &bonuses(1.0), incoming());
    assert_eq!(order(&hot), vec!["calm", "mid", "loud"]);
    let faded = pull_reweight(share(0.0625) as u64, &bonuses(0.0625), incoming());
    assert_ne!(order(&faded), vec!["calm", "mid", "loud"], "decay must weaken the reorder");
    assert_eq!(
        order(&faded),
        vec!["loud", "mid", "calm"],
        "near-dead pull returns to incoming order"
    );
}

#[test]
fn empty_field_is_byte_identical() {
    let field = PullField::new();
    assert!(!field.is_active(&[]));
    let out = pull_reweight(field.max_strength(&[]), &[0, 0, 0], vec![song("a"), song("b"), song("c")]);
    assert_eq!(order(&out), vec!["a", "b", "c"]);
}

#[test]
fn reinforce_merges_not_stacks() {
    let now = at(0);
    let mut field = PullField::new();
    field.add(Pull::new("calmer".into(), vec![-1, 0], share(0.5) as u64, now), &[], now);
    field.add(
        Pull::new("calmer".into(), vec![-1, 0], share(0.4) as u64, now),
        &[share(0.5) as u64],
        now,
    );
    assert_eq!(field.describe(&[share(0.9) as u64], now).len(), 1, "same direction merges");
    assert_eq!(field.pulls[0].strength, share(0.9) as u64);
    field.add(
        Pull::new("warmer".into(), vec![0, 1], share(0.5) as u64, now),
        &[share(0.9) as u64],
        now,
    );
    assert_eq!(
        field.describe(&[share(0.9) as u64, share(0.5) as u64], now).len(),
        2,
        "orthogonal direction adds an entry"
    );
}

#[test]
fn lexicon_label_is_matched_token_not_whole_phrase() {
    let now = at(0);
    let p = lexicon_pull("play something calmer", LEXICON_PULL_STRENGTH, now).unwrap();
    assert_eq!(p.label, "calmer", "label is the matched token, not the sentence");
    assert_eq!(p.strength, LEXICON_PULL_STRENGTH);
    let n = lexicon_pull("give me less energy please", share(0.6) as u64, now).unwrap();
    assert_eq!(n.label, "less energy");
    let mut field = PullField::new();
    field.add(p, &[], now);
    let line = &field.describe(&[LEXICON_PULL_STRENGTH], now)[0];
    assert!(line.contains("toward calmer"), "{line}");
    assert!(line.contains("from the ask"), "{line}");
}

#[test]
fn field_render_shows_provenance() {
    let mut field = PullField::new();
    field.add(Pull::new("calmer".into(), vec![-1, 0], share(0.6) as u64, at(0)), &[], at(0));
    let lines = field.describe(&[share(0.487) as u64], at(180));
    assert_eq!(lines.len(), 1);
    assert!(lines[0].contains("calmer"), "{}", lines[0]);
    assert!(lines[0].contains("3 min ago"), "{}", lines[0]);
    assert!(lines[0].contains("fading"), "{}", lines[0]);
    let snap = field.snapshot(&[share(0.487) as u64], at(180));
    assert_eq!(snap, vec![("calmer".to_string(), 49u8, 3u128)]);
}

#[test]
fn reinforce_updates_recency_order() {
    let now = at(0);
    let s = share(0.6) as u64;
    let mut field = PullField::new();
    field.add(Pull::new("calmer".into(), vec![-1, 0], s, now), &[], now);
    field.add(Pull::new("warmer".into(), vec![0, 1], s, now), &[s], now);
    field.add(Pull::new("calmer".into(), vec![-1, 0], share(0.2) as u64, now), &[s, s], now);
    let lines = field.describe(&[s, share(0.8) as u64], now);
    assert!(lines.last().unwrap().contains("calmer"), "{:?}", lines);
    let label = field.nudge_recent(500, &[s, share(0.8) as u64], now).unwrap();
    assert_eq!(label, "calmer");
}

#[test]
fn nudge_attenuates_most_recent() {
    let now = at(0);
    let mut field = PullField::new();
    field.add(Pull::new("warmer".into(), vec![0, 1], share(0.8) as u64, now), &[], now);
    let label = field.nudge_recent(500, &[share(0.8) as u64], now).unwrap();
    assert_eq!(label, "warmer");
    assert_eq!(field.pulls[0].strength, share(0.4) as u64);
}

#[test]
fn what_is_no_longer_felt_is_dropped() {
    let now = at(0);
    let mut field = PullField::new();
    field.add(Pull::new("calmer".into(), vec![-1, 0], WHOLE, now), &[], now);
    field.add(Pull::new("warmer".into(), vec![0, 1], WHOLE, now), &[WHOLE], now);
    assert_eq!(field.prune(&[PULL_PRUNE_EPSILON - 1, PULL_PRUNE_EPSILON]), vec![PULL_PRUNE_EPSILON]);
    assert_eq!(field.pulls[0].label, "warmer");
    field.clear();
    assert_eq!(field.nudge_recent(500, &[], now), None);
}

#[test]
fn only_what_is_felt_has_strength() {
    let mut field = PullField::new();
    field.add(Pull::new("calmer".into(), vec![-1, 0], WHOLE, at(0)), &[], at(0));
    assert_eq!(field.max_strength(&[1]), 0);
    assert_eq!(field.max_strength(&[PULL_PRUNE_EPSILON - 1]), 0);
    assert_eq!(field.max_strength(&[PULL_PRUNE_EPSILON]), PULL_PRUNE_EPSILON);
}
