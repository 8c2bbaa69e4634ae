use hypodj::client::route::{route, Action};

fn r(s: &str) -> Action {
    let args: Vec<String> = s.split_whitespace().map(str::to_string).collect();
    route(&args)
}

#[test]
fn route_bare_verb_alone() {
    assert_eq!(r(""), Action::NowPlaying);
    assert_eq!(r("now"), Action::NowPlaying);
    assert_eq!(r("status"), Action::NowPlaying);
    assert_eq!(r("queue"), Action::Queue);
    assert_eq!(r("play"), Action::Command("play".into()));
    assert_eq!(r("pause"), Action::Command("pause".into()));
    assert_eq!(r("stop"), Action::Command("stop".into()));
    assert_eq!(r("next"), Action::Command("next".into()));
    assert_eq!(r("prev"), Action::Command("previous".into()));
    assert_eq!(r("previous"), Action::Command("previous".into()));
    assert_eq!(r("clear"), Action::ClearConfirm);
    assert_eq!(r("help"), Action::Help);
}

#[test]
fn route_resume_is_deterministic_pause_zero() {
    assert_eq!(r("resume"), Action::Command("pause 0".into()));
    assert_eq!(r("unpause"), Action::Command("pause 0".into()));
    assert_eq!(r("continue"), Action::Command("pause 0".into()));
    assert_eq!(r("play"), Action::Command("play".into()));
    assert_eq!(r("pause"), Action::Command("pause".into()));
}

#[test]
fn route_resume_natural_multiword_phrases() {
    assert_eq!(r("continue playing"), Action::Command("pause 0".into()));
    assert_eq!(r("resume playback"), Action::Command("pause 0".into()));
    assert_eq!(r("resume the track"), Action::Command("pause 0".into()));
    assert_eq!(r("resume this"), Action::Command("pause 0".into()));
    assert_eq!(r("unpause it"), Action::Command("pause 0".into()));
    assert_eq!(r("resume the current song"), Action::Command("pause 0".into()));
    assert_eq!(r("continue playing now"), Action::Command("pause 0".into()));
    assert_eq!(r("resume playback please"), Action::Command("pause 0".into()));
    assert_eq!(r("resume jazz"), Action::Nl("resume jazz".into()));
    assert_eq!(r("continue at 30"), Action::Nl("continue at 30".into()));
}

#[test]
fn route_vol() {
    assert_eq!(r("vol 40"), Action::Command("setvol 40".into()));
    assert_eq!(r("volume 40"), Action::Command("setvol 40".into()));
    assert_eq!(r("vol 0"), Action::Command("setvol 0".into()));
    assert_eq!(r("vol 100"), Action::Command("setvol 100".into()));
    assert_eq!(r("vol"), Action::Nl("vol".into()));
    assert_eq!(r("vol loud"), Action::Nl("vol loud".into()));
    assert_eq!(r("vol 200"), Action::Nl("vol 200".into()));
}

#[test]
fn route_play_something_calmer_goes_to_nl() {
    assert_eq!(r("play something calmer"), Action::Nl("play something calmer".into()));
    assert_eq!(r("play jazz"), Action::Nl("play jazz".into()));
}

#[test]
fn route_natural_transport_phrasing() {
    assert_eq!(r("skip"), Action::Command("next".into()));
    assert_eq!(r("back"), Action::Command("previous".into()));
    assert_eq!(r("next song"), Action::Command("next".into()));
    assert_eq!(r("next track"), Action::Command("next".into()));
    assert_eq!(r("skip this"), Action::Command("next".into()));
    assert_eq!(r("previous song"), Action::Command("previous".into()));
    assert_eq!(r("prev track"), Action::Command("previous".into()));
    assert_eq!(r("next 3 songs"), Action::Nl("next 3 songs".into()));
    assert_eq!(r("skip 2"), Action::Nl("skip 2".into()));
}

#[test]
fn route_favorite() {
    assert_eq!(r("fav"), Action::FavoriteCurrent);
    assert_eq!(r("favorite"), Action::FavoriteCurrent);
    assert_eq!(r("favourite"), Action::FavoriteCurrent);
    assert_eq!(r("star"), Action::FavoriteCurrent);
    assert_eq!(r("fav current"), Action::FavoriteCurrent);
    assert_eq!(r("favorite current"), Action::FavoriteCurrent);
    assert_eq!(r("favorite this"), Action::FavoriteCurrent);
    assert_eq!(r("star song"), Action::FavoriteCurrent);
    assert_eq!(r("favorite miles davis"), Action::Nl("favorite miles davis".into()));
}

#[test]
fn route_bare_favorite_natural_phrases() {
    assert_eq!(r("favorite this song"), Action::FavoriteCurrent);
    assert_eq!(r("star the current track"), Action::FavoriteCurrent);
    assert_eq!(r("fav this one"), Action::FavoriteCurrent);
    assert_eq!(r("favourite this"), Action::FavoriteCurrent);
    assert_eq!(r("star this song"), Action::FavoriteCurrent);
    assert_eq!(r("favorite jazz"), Action::Nl("favorite jazz".into()));
    assert_eq!(r("star rating 5"), Action::Nl("star rating 5".into()));
    assert_eq!(r("queue jazz"), Action::Nl("queue jazz".into()));
}

#[test]
fn route_bare_favorite_widened_filler_vocab() {
    assert_eq!(r("fav current music"), Action::FavoriteCurrent);
    assert_eq!(r("favorite this tune"), Action::FavoriteCurrent);
    assert_eq!(r("favorite the tune playing now"), Action::FavoriteCurrent);
    assert_eq!(r("star this one please"), Action::FavoriteCurrent);
    assert_eq!(r("favorite the music playing"), Action::FavoriteCurrent);
    assert_eq!(r("fav this now"), Action::FavoriteCurrent);
    assert_eq!(r("favorite jazz"), Action::Nl("favorite jazz".into()));
    assert_eq!(
        r("favorite miles davis"),
        Action::Nl("favorite miles davis".into())
    );
    assert_eq!(r("star rating 5"), Action::Nl("star rating 5".into()));
    assert_eq!(r("queue jazz"), Action::Nl("queue jazz".into()));
}

#[test]
fn route_multiword_and_unknown_first_word() {
    assert_eq!(r("stop after this album"), Action::Nl("stop after this album".into()));
    assert_eq!(r("wake me at 7 with jazz"), Action::Nl("wake me at 7 with jazz".into()));
    assert_eq!(r("fade the 3rd track"), Action::Nl("fade the 3rd track".into()));
    assert_eq!(r("next 3 songs"), Action::Nl("next 3 songs".into()));
    assert_eq!(r("queue jazz"), Action::Nl("queue jazz".into()));
    assert_eq!(r("shuffle"), Action::Nl("shuffle".into()));
}
