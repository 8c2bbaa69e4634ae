use hypodj::model::{AlbumId, ArtistId, Favorite, SongId};

#[test]
fn favorite_from_uri_routes_each_kind_by_prefix() {
    assert_eq!(
        Favorite::from_uri("song/so-1"),
        Some(Favorite::Song(SongId("so-1".into())))
    );
    assert_eq!(
        Favorite::from_uri("album/al-1"),
        Some(Favorite::Album(AlbumId("al-1".into())))
    );
    assert_eq!(
        Favorite::from_uri("artist/ar-1"),
        Some(Favorite::Artist(ArtistId("ar-1".into())))
    );
}

#[test]
fn favorite_from_uri_rejects_unknown_and_prefixless() {
    assert_eq!(Favorite::from_uri("genre/x"), None);
    assert_eq!(Favorite::from_uri("al-1"), None);
    assert_eq!(Favorite::from_uri(""), None);
}

#[test]
fn favorite_uri_round_trips_for_all_variants() {
    for f in [
        Favorite::Song(SongId("so-1".into())),
        Favorite::Album(AlbumId("al-1".into())),
        Favorite::Artist(ArtistId("ar-1".into())),
    ] {
        assert_eq!(Favorite::from_uri(&f.uri()), Some(f));
    }
}
