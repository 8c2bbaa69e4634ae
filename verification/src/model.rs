//! The domain model: library entities, favorites and queue entries.

use vstd::prelude::*;

use crate::text;

verus! {

/// The server-side id of a song.
#[derive(Debug, PartialEq, Eq, Hash)]
pub struct SongId(pub String);

/// The server-side id of an album.
#[derive(Debug, PartialEq, Eq, Hash)]
pub struct AlbumId(pub String);

/// The server-side id of an artist.
#[derive(Debug, PartialEq, Eq, Hash)]
pub struct ArtistId(pub String);

impl Clone for SongId {
    fn clone(&self) -> (r: Self)
        ensures
            r == *self,
    {
        SongId(self.0.clone())
    }
}

impl Clone for AlbumId {
    fn clone(&self) -> (r: Self)
        ensures
            r == *self,
    {
        AlbumId(self.0.clone())
    }
}

impl Clone for ArtistId {
    fn clone(&self) -> (r: Self)
        ensures
            r == *self,
    {
        ArtistId(self.0.clone())
    }
}

/// One entity that can be a favorite.
///
/// The prefix of its uri carries the kind, so that a gesture can never reach the
/// wrong kind of entity.
#[derive(Debug, PartialEq, Eq)]
pub enum Favorite {
    /// A song.
    Song(SongId),
    /// An album.
    Album(AlbumId),
    /// An artist.
    Artist(ArtistId),
}

/// The kind of a favorite and its id, as its uri spells them.
pub enum FavoriteView {
    /// A song.
    Song(Seq<char>),
    /// An album.
    Album(Seq<char>),
    /// An artist.
    Artist(Seq<char>),
}

impl View for Favorite {
    type V = FavoriteView;

    open spec fn view(&self) -> FavoriteView {
        match self {
            Favorite::Song(id) => FavoriteView::Song(id.0@),
            Favorite::Album(id) => FavoriteView::Album(id.0@),
            Favorite::Artist(id) => FavoriteView::Artist(id.0@),
        }
    }
}

impl Clone for Favorite {
    fn clone(&self) -> (r: Self)
        ensures
            r == *self,
    {
        match self {
            Favorite::Song(id) => Favorite::Song(id.clone()),
            Favorite::Album(id) => Favorite::Album(id.clone()),
            Favorite::Artist(id) => Favorite::Artist(id.clone()),
        }
    }
}

/// The uri of a favorite.
pub open spec fn favorite_uri(f: FavoriteView) -> Seq<char> {
    match f {
        FavoriteView::Song(id) => "song/"@ + id,
        FavoriteView::Album(id) => "album/"@ + id,
        FavoriteView::Artist(id) => "artist/"@ + id,
    }
}

/// The favorite that a uri names by its prefix.
pub open spec fn favorite_of(uri: Seq<char>) -> Option<FavoriteView> {
    if text::begins(uri, "song/"@) {
        Some(FavoriteView::Song(uri.skip("song/"@.len() as int)))
    } else if text::begins(uri, "album/"@) {
        Some(FavoriteView::Album(uri.skip("album/"@.len() as int)))
    } else if text::begins(uri, "artist/"@) {
        Some(FavoriteView::Artist(uri.skip("artist/"@.len() as int)))
    } else {
        None
    }
}

impl Favorite {
    /// The uri of this favorite: `song/`, `album/` or `artist/` and the id.
    pub fn uri(&self) -> (r: String)
        ensures
            r@ == favorite_uri(self@),
    {
        match self {
            Favorite::Song(id) => {
                let mut s = "song/".to_owned();
                s.append(id.0.as_str());
                s
            },
            Favorite::Album(id) => {
                let mut s = "album/".to_owned();
                s.append(id.0.as_str());
                s
            },
            Favorite::Artist(id) => {
                let mut s = "artist/".to_owned();
                s.append(id.0.as_str());
                s
            },
        }
    }

    /// The favorite that a uri names. A uri with none of the three prefixes names
    /// none.
    pub fn from_uri(uri: &str) -> (r: Option<Favorite>)
        ensures
            (match r {
                Some(f) => Some(f@),
                None => None,
            }) == favorite_of(uri@),
    {
        if let Some(id) = text::strip_prefix(uri, "song/") {
            Some(Favorite::Song(SongId(id)))
        } else if let Some(id) = text::strip_prefix(uri, "album/") {
            Some(Favorite::Album(AlbumId(id)))
        } else if let Some(id) = text::strip_prefix(uri, "artist/") {
            Some(Favorite::Artist(ArtistId(id)))
        } else {
            None
        }
    }
}

/// The uri of a favorite names that favorite: the two directions are inverse.
pub proof fn favorite_uri_round_trip(f: FavoriteView)
    ensures
        favorite_of(favorite_uri(f)) == Some(f),
{
    reveal_strlit("song/");
    reveal_strlit("album/");
    reveal_strlit("artist/");
    let u = favorite_uri(f);
    match f {
        FavoriteView::Song(id) => {
            assert(u.subrange(0, 5) =~= "song/"@);
            assert(u.skip(5) =~= id);
        },
        FavoriteView::Album(id) => {
            assert(u.subrange(0, 6) =~= "album/"@);
            assert(u.subrange(0, 5)[0] == 'a');
            assert("song/"@[0] == 's');
            assert(u.skip(6) =~= id);
        },
        FavoriteView::Artist(id) => {
            assert(u.subrange(0, 7) =~= "artist/"@);
            assert(u.subrange(0, 5)[0] == 'a');
            assert("song/"@[0] == 's');
            assert(u.subrange(0, 6)[1] == 'r');
            assert("album/"@[1] == 'l');
            assert(u.skip(7) =~= id);
        },
    }
}

/// An artist of the library.
#[derive(Debug, Clone)]
pub struct Artist {
    /// The id.
    pub id: ArtistId,
    /// The display name.
    pub name: String,
    /// How many albums the library holds.
    pub album_count: u32,
    /// Whether the user has starred the artist.
    pub starred: bool,
    /// The id of the cover art.
    pub cover_art: Option<String>,
}

/// An album of the library.
#[derive(Debug, Clone)]
pub struct Album {
    /// The id.
    pub id: AlbumId,
    /// The display name.
    pub name: String,
    /// The display name of the artist.
    pub artist: String,
    /// The id of the artist.
    pub artist_id: Option<ArtistId>,
    /// The year of release.
    pub year: Option<u32>,
    /// The genre.
    pub genre: Option<String>,
    /// The id of the cover art.
    pub cover_art: Option<String>,
    /// How many songs the album holds.
    pub song_count: u32,
}

/// A song of the library.
#[derive(Debug, Clone)]
pub struct Song {
    /// The id.
    pub id: SongId,
    /// The title.
    pub title: String,
    /// The name of the album.
    pub album: Option<String>,
    /// The id of the album.
    pub album_id: Option<AlbumId>,
    /// The name of the artist.
    pub artist: Option<String>,
    /// The track number.
    pub track: Option<u32>,
    /// The length in seconds.
    pub duration_secs: Option<u32>,
    /// The id of the cover art, which is not the id of the song.
    pub cover_art: Option<String>,
    /// Whether the user has starred the song.
    pub starred: bool,
    /// The MusicBrainz id.
    pub musicbrainz_id: Option<String>,
    /// The disc number.
    pub disc: Option<u32>,
    /// The year of release.
    pub year: Option<u32>,
    /// The genre.
    pub genre: Option<String>,
    /// The bit rate in kilobits per second.
    pub bitrate: Option<u32>,
    /// A free comment.
    pub comment: Option<String>,
    /// The user's rating, from none to five.
    pub user_rating: Option<u8>,
    /// The composer.
    pub composer: Option<String>,
    /// The performer.
    pub performer: Option<String>,
}

/// What can stand in the play queue.
#[derive(Debug, Clone)]
pub enum QueueEntry {
    /// A song of the library.
    Song(Song),
    /// A raw stream: it has no song id and is never scrobbled.
    Stream {
        /// The address, which the player is handed as it stands.
        url: String,
        /// The title to display.
        title: String,
    },
}

impl QueueEntry {
    /// The title of this entry.
    pub open spec fn title_text(self) -> Seq<char> {
        match self {
            QueueEntry::Song(s) => s.title@,
            QueueEntry::Stream { url, title } => title@,
        }
    }

    /// The title of this entry.
    pub fn title(&self) -> (r: &str)
        ensures
            r@ == self.title_text(),
    {
        match self {
            QueueEntry::Song(s) => s.title.as_str(),
            QueueEntry::Stream { url: _, title } => title.as_str(),
        }
    }
}

/// A genre and how much of the library it covers.
#[derive(Debug, Clone)]
pub struct Genre {
    /// The name.
    pub name: String,
    /// How many songs carry it.
    pub song_count: u32,
    /// How many albums carry it.
    pub album_count: u32,
}

/// A uri names a song, an album or an artist by what stands before its id, and nothing
/// without such a prefix.
pub proof fn a_uri_names_by_its_prefix(id: Seq<char>, uri: Seq<char>)
    ensures
        favorite_of("song/"@ + id) == Some(FavoriteView::Song(id)),
        favorite_of("album/"@ + id) == Some(FavoriteView::Album(id)),
        favorite_of("artist/"@ + id) == Some(FavoriteView::Artist(id)),
        !text::begins(uri, "song/"@) && !text::begins(uri, "album/"@) && !text::begins(
            uri,
            "artist/"@,
        ) ==> favorite_of(uri) is None,
{
    favorite_uri_round_trip(FavoriteView::Song(id));
    favorite_uri_round_trip(FavoriteView::Album(id));
    favorite_uri_round_trip(FavoriteView::Artist(id));
}

} // verus!
