//! Metadata-provider data: the closed provider identifier and the
//! search result shapes every provider maps into.

use vstd::prelude::*;
use vstd::string::{StrSliceExecFns, StringExecFns};

use crate::parse::clone_opt_string;
use crate::text::{lower_str, str_eq};

verus! {

/// Metadata provider identifier: a closed enum, resolved once per
/// session, in place of stringly-typed backend selection.
#[derive(Clone, Copy, PartialEq, Eq, Structural, Debug)]
pub enum Provider {
    MusicBrainz,
    LastFm,
}

impl Default for Provider {
    /// The default provider.
    fn default() -> (r: Self)
        ensures
            r == Provider::MusicBrainz,
    {
        Provider::MusicBrainz
    }
}

impl Provider {
    /// The identifier under which this provider is configured.
    pub fn as_str(&self) -> (r: &'static str)
        ensures
            *self == Provider::MusicBrainz ==> r@ == "musicbrainz"@,
            *self == Provider::LastFm ==> r@ == "lastfm"@,
    {
        match self {
            Provider::MusicBrainz => "musicbrainz",
            Provider::LastFm => "lastfm",
        }
    }

    /// Resolve a configured identifier, case-insensitively; an
    /// unknown identifier is an error carrying no provider.
    pub fn parse(s: &str) -> (r: Option<Provider>)
        ensures
            r == Some(Provider::MusicBrainz) <==> crate::text::lower(s@) == "musicbrainz"@,
            r == Some(Provider::LastFm) <==> crate::text::lower(s@) == "lastfm"@,
            r is None <==> (crate::text::lower(s@) != "musicbrainz"@ && crate::text::lower(s@)
                != "lastfm"@),
    {
        proof {
            reveal_strlit("musicbrainz");
            reveal_strlit("lastfm");
            assert("musicbrainz"@.len() != "lastfm"@.len());
        }
        let l = lower_str(s);
        if str_eq(l.as_str(), "musicbrainz") {
            Some(Provider::MusicBrainz)
        } else if str_eq(l.as_str(), "lastfm") {
            Some(Provider::LastFm)
        } else {
            None
        }
    }
}

impl core::str::FromStr for Provider {
    type Err = String;

    /// Resolve a configured identifier through [`Provider::parse`];
    /// an unknown identifier is refused with its name.
    fn from_str(s: &str) -> Result<Provider, String> {
        match Provider::parse(s) {
            Some(p) => Ok(p),
            None => {
                let mut e = <String as vstd::string::StringExecFns>::from_str("Unknown provider: ");
                e.append(s);
                Err(e)
            },
        }
    }
}

/// A track from a metadata provider.
pub struct Track {
    /// Provider-specific identifier for lookups.
    pub id: String,
    pub title: String,
    pub artist: String,
    pub album_id: Option<String>,
    pub album_title: Option<String>,
    /// The release date of the album, as the provider formats it.
    pub release_date: Option<String>,
    /// The duration as a formatted `MM:SS` string.
    pub duration: Option<String>,
    /// The MusicBrainz recording identifier, if known.
    pub mbid: Option<String>,
    /// The MusicBrainz release identifier for the album, if known.
    pub release_mbid: Option<String>,
}

impl Clone for Track {
    fn clone(&self) -> (r: Self)
        ensures
            r == *self,
    {
        Track {
            id: self.id.clone(),
            title: self.title.clone(),
            artist: self.artist.clone(),
            album_id: clone_opt_string(&self.album_id),
            album_title: clone_opt_string(&self.album_title),
            release_date: clone_opt_string(&self.release_date),
            duration: clone_opt_string(&self.duration),
            mbid: clone_opt_string(&self.mbid),
            release_mbid: clone_opt_string(&self.release_mbid),
        }
    }
}

/// An album from a metadata provider.
pub struct Album {
    /// Provider-specific identifier for lookups.
    pub id: String,
    pub title: String,
    pub artist: String,
    pub release_date: Option<String>,
    /// The MusicBrainz release identifier, if known.
    pub mbid: Option<String>,
    /// URL of the album cover image.
    pub cover_url: Option<String>,
}

impl Clone for Album {
    fn clone(&self) -> (r: Self)
        ensures
            r == *self,
    {
        Album {
            id: self.id.clone(),
            title: self.title.clone(),
            artist: self.artist.clone(),
            release_date: clone_opt_string(&self.release_date),
            mbid: clone_opt_string(&self.mbid),
            cover_url: clone_opt_string(&self.cover_url),
        }
    }
}

/// One search hit: a track or an album.
pub enum SearchResult {
    Track(Track),
    Album(Album),
}

/// Search results together with the provider that produced them.
pub struct SearchResults {
    pub provider: Provider,
    pub results: Vec<SearchResult>,
}

/// An album with its full track listing.
pub struct AlbumWithTracks {
    pub album: Album,
    pub tracks: Vec<Track>,
}

} // verus!
