//! MusicBrainz search result shapes: the provider-independent
//! precursors of the richer metadata records, kept for callers that
//! speak MusicBrainz identifiers directly.

use vstd::prelude::*;

use crate::parse::clone_opt_string;

verus! {

/// A track found on MusicBrainz.
pub struct Track {
    /// The MusicBrainz identifier.
    pub id: String,
    pub title: String,
    pub artist: String,
    /// The MusicBrainz identifier of the album the track belongs to.
    pub album_id: Option<String>,
    pub album_title: Option<String>,
    /// The release date of the album, `YYYY-MM-DD`.
    pub release_date: Option<String>,
    /// The duration as a formatted `MM:SS` string.
    pub duration: Option<String>,
}

impl Clone for Track {
    fn clone(&self) -> (r: Self)
        ensures
            r == *self,
    {
        Track {
            id: self.id.clone(),
            title: self.title.clone(),
            artist: self.artist.clone(),
            album_id: clone_opt_string(&self.album_id),
            album_title: clone_opt_string(&self.album_title),
            release_date: clone_opt_string(&self.release_date),
            duration: clone_opt_string(&self.duration),
        }
    }
}

/// An album found on MusicBrainz.
pub struct Album {
    /// The MusicBrainz identifier.
    pub id: String,
    pub title: String,
    pub artist: String,
    /// The release date, `YYYY-MM-DD`.
    pub release_date: Option<String>,
}

impl Clone for Album {
    fn clone(&self) -> (r: Self)
        ensures
            r == *self,
    {
        Album {
            id: self.id.clone(),
            title: self.title.clone(),
            artist: self.artist.clone(),
            release_date: clone_opt_string(&self.release_date),
        }
    }
}

/// One search hit: a track or an album.
pub enum SearchResult {
    Track(Track),
    Album(Album),
}

/// An album with its full track listing.
pub struct AlbumWithTracks {
    pub album: Album,
    pub tracks: Vec<Track>,
}

} // verus!
