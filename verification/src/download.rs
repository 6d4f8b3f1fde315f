//! The download query a client hands to the acquisition engine: an
//! optional album and the tracks wanted from it.

use vstd::prelude::*;

use crate::musicbrainz::{Album, Track};

verus! {

/// What a client asks the engine to acquire: the album it found, if
/// any, and the wanted tracks.
pub struct DownloadQuery {
    pub album: Option<Album>,
    pub tracks: Vec<Track>,
}

impl DownloadQuery {
    /// The query for one single track, with no album context.
    pub fn from(track: Track) -> (r: DownloadQuery)
        ensures
            r.album is None,
            r.tracks@.len() == 1,
            r.tracks@[0] == track,
    {
        let mut tracks: Vec<Track> = Vec::new();
        tracks.push(track);
        DownloadQuery { album: None, tracks }
    }
}

} // verus!
