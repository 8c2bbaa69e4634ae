use hypodj::cli::render::{fmt_dur, render_card, render_queue};
use hypodj::client::model::now_playing;
use hypodj::number::Real;

fn p(pairs: &[(&str, &str)]) -> Vec<(String, String)> {
    pairs.iter().map(|(k, v)| (k.to_string(), v.to_string())).collect()
}

#[test]
fn card_playing() {
    let status = p(&[
        ("volume", "70"),
        ("playlistlength", "12"),
        ("state", "play"),
        ("song", "2"),
        ("duration", "215.000"),
    ]);
    let current = p(&[
        ("file", "song/42"),
        ("Title", "Blue in Green"),
        ("Artist", "Miles Davis"),
        ("Album", "Kind of Blue"),
        ("Pos", "2"),
    ]);
    let card = render_card(&now_playing(&status, &current));
    assert!(card.contains("Blue in Green"));
    assert!(card.contains("Miles Davis - Kind of Blue"));
    assert!(card.contains("playing"));
    assert!(card.contains("vol 70%"));
    assert!(card.contains("3 of 12"));
    assert!(card.contains("3:35"));
    assert!(!card.to_lowercase().contains("elapsed"));
}

#[test]
fn card_prepends_heart_when_starred() {
    let status = p(&[("state", "play")]);
    let current = p(&[
        ("file", "song/42"),
        ("Title", "Blue in Green"),
        ("X-Starred", "1"),
    ]);
    let card = render_card(&now_playing(&status, &current));
    assert!(card.contains("\u{2665}\u{FE0E} Blue in Green"));
    let plain = render_card(&now_playing(&status, &p(&[
        ("file", "song/42"),
        ("Title", "Blue in Green"),
    ])));
    assert!(!plain.contains('\u{2665}'));
    assert!(plain.contains("Blue in Green"));
}

#[test]
fn card_stopped() {
    let status = p(&[("volume", "50"), ("playlistlength", "3"), ("state", "stop")]);
    assert_eq!(render_card(&now_playing(&status, &[])), "nothing playing");
}

#[test]
fn card_empty_currentsong() {
    let status = p(&[("volume", "50"), ("playlistlength", "0"), ("state", "play")]);
    assert_eq!(render_card(&now_playing(&status, &[])), "nothing playing");
}

#[test]
fn card_shows_ambient_hint_when_stopped() {
    let status = p(&[
        ("state", "stop"),
        ("X-hypodj-hint-kind", "just-finished"),
        ("X-hypodj-hint-title", "303 (Ninajirachi Remix)"),
    ]);
    let card = render_card(&now_playing(&status, &[]));
    assert!(card.starts_with("nothing playing"));
    assert!(card.contains("just finished 303 (Ninajirachi Remix)"));
    assert!(card.ends_with("just finished 303 (Ninajirachi Remix)"));
}

#[test]
fn card_up_next_hint_when_empty_deck() {
    let status = p(&[
        ("state", "play"),
        ("playlistlength", "0"),
        ("X-hypodj-hint-kind", "up-next"),
        ("X-hypodj-hint-title", "Blue in Green"),
    ]);
    let card = render_card(&now_playing(&status, &[]));
    assert!(card.contains("up next Blue in Green"));
}

#[test]
fn card_shows_continuation_hint_when_armed() {
    let status = p(&[
        ("state", "stop"),
        ("X-hypodj-continuation", "on"),
        ("X-hypodj-continuation-station", "NTS 1"),
    ]);
    let out = render_card(&now_playing(&status, &[]));
    assert!(out.contains("then: NTS 1"), "continuation hint line present:\n{out}");
    let np = now_playing(&p(&[("state", "stop")]), &[]);
    assert!(!render_card(&np).contains("then:"));
}

#[test]
fn card_no_hint_line_when_absent() {
    let status = p(&[("state", "stop")]);
    assert_eq!(render_card(&now_playing(&status, &[])), "nothing playing");
}

#[test]
fn card_playing_never_renders_hint() {
    let status = p(&[
        ("state", "play"),
        ("song", "0"),
        ("playlistlength", "1"),
        ("X-hypodj-hint-kind", "just-finished"),
        ("X-hypodj-hint-title", "Some Other Track"),
    ]);
    let current = p(&[("file", "song/42"), ("Title", "Now Playing Track")]);
    let card = render_card(&now_playing(&status, &current));
    assert!(card.contains("Now Playing Track"));
    assert!(!card.contains("just finished"));
    assert!(!card.contains("Some Other Track"));
}

#[test]
fn card_shows_armed_features() {
    let status = p(&[
        ("volume", "70"),
        ("playlistlength", "12"),
        ("state", "play"),
        ("song", "0"),
        ("X-hypodj-sleep-remaining", "720"),
        ("X-hypodj-wake-remaining", "25200"),
    ]);
    let current = p(&[("file", "song/1"), ("Title", "X"), ("Artist", "Y")]);
    let card = render_card(&now_playing(&status, &current));
    assert!(card.contains("sleep 12m"), "card: {card}");
    assert!(card.contains("wake in 7h 00m"), "card: {card}");
}

#[test]
fn card_stopped_still_shows_armed_wake() {
    let status = p(&[
        ("volume", "50"),
        ("state", "stop"),
        ("X-hypodj-wake-remaining", "25200"),
    ]);
    let card = render_card(&now_playing(&status, &[]));
    assert!(card.contains("nothing playing"));
    assert!(card.contains("wake in 7h 00m"), "card: {card}");
}

#[test]
fn card_no_armed_line_when_nothing_armed() {
    let status = p(&[("volume", "70"), ("state", "play"), ("song", "0")]);
    let current = p(&[("file", "song/1"), ("Title", "X"), ("Artist", "Y")]);
    let card = render_card(&now_playing(&status, &current));
    assert!(!card.contains("sleep"));
    assert!(!card.contains("wake"));
}

#[test]
fn card_shows_field_pull_line() {
    let status = p(&[
        ("state", "play"),
        ("song", "0"),
        ("X-hypodj-field-count", "2"),
        ("X-hypodj-field-0-label", "calmer"),
        ("X-hypodj-field-0-strength", "58"),
        ("X-hypodj-field-0-age", "3"),
        ("X-hypodj-field-1-label", "warmer"),
        ("X-hypodj-field-1-strength", "41"),
        ("X-hypodj-field-1-age", "1"),
    ]);
    let current = p(&[("file", "song/1"), ("Title", "X"), ("Artist", "Y")]);
    let card = render_card(&now_playing(&status, &current));
    assert!(card.contains("toward calmer 0.58 3m"), "card: {card}");
    assert!(card.contains("toward warmer 0.41 1m"), "card: {card}");
    assert!(card.contains("toward calmer 0.58 3m | toward warmer 0.41 1m"), "card: {card}");
}

#[test]
fn card_no_field_line_at_rest() {
    let status = p(&[("state", "play"), ("song", "0")]);
    let current = p(&[("file", "song/1"), ("Title", "X"), ("Artist", "Y")]);
    let card = render_card(&now_playing(&status, &current));
    assert!(!card.contains("toward"), "no field line at rest: {card}");
}

#[test]
fn card_stopped_still_shows_held_pull() {
    let status = p(&[
        ("state", "stop"),
        ("X-hypodj-field-count", "1"),
        ("X-hypodj-field-0-label", "calmer"),
        ("X-hypodj-field-0-strength", "58"),
        ("X-hypodj-field-0-age", "3"),
    ]);
    let card = render_card(&now_playing(&status, &[]));
    assert!(card.contains("nothing playing"));
    assert!(card.contains("toward calmer 0.58 3m"), "card: {card}");
}

#[test]
fn card_hides_unknown_volume() {
    let status = p(&[("volume", "-1"), ("playlistlength", "1"), ("state", "play"), ("song", "0")]);
    let current = p(&[("file", "song/1"), ("Title", "X"), ("Artist", "Y")]);
    let card = render_card(&now_playing(&status, &current));
    assert!(!card.contains("vol"));
    assert!(card.contains("1 of 1"));
}

#[test]
fn queue_render() {
    let pairs = p(&[
        ("file", "song/1"),
        ("Title", "One"),
        ("Artist", "A"),
        ("Pos", "0"),
        ("file", "song/2"),
        ("Title", "Two"),
        ("Artist", "B"),
        ("Pos", "1"),
    ]);
    assert_eq!(render_queue(&pairs), "1. One - A\n2. Two - B");
}

#[test]
fn queue_empty() {
    assert_eq!(render_queue(&[]), "queue is empty");
}

#[test]
fn a_card_in_full() {
    let status = p(&[
        ("volume", "70"),
        ("playlistlength", "12"),
        ("state", "pause"),
        ("song", "2"),
        ("duration", "215.000"),
        ("X-hypodj-sleep-remaining", "720"),
        ("X-hypodj-winddown-active", "1"),
        ("X-hypodj-continuation", "on"),
        ("X-hypodj-continuation-station", "NTS 1"),
    ]);
    let current = p(&[
        ("file", "song/42"),
        ("Title", "Blue in Green"),
        ("Artist", "Miles Davis"),
        ("Album", "Kind of Blue"),
        ("X-Starred", "1"),
    ]);
    assert_eq!(
        render_card(&now_playing(&status, &current)),
        "\u{2665}\u{FE0E} Blue in Green\nMiles Davis - Kind of Blue\npaused | vol 70% | 3 of 12 | 3:35\nsleep 12m | winding down\nthen: NTS 1"
    );
}

#[test]
fn a_length_is_minutes_and_seconds() {
    assert_eq!(fmt_dur(Real::Finite(59_999_999_999)), "0:59");
    assert_eq!(fmt_dur(Real::Finite(3_605_000_000_000)), "60:05");
    assert_eq!(fmt_dur(Real::Finite(-1)), "0:00");
    assert_eq!(fmt_dur(Real::Nan), "0:00");
}
