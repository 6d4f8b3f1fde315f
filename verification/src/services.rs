//! The closed registry of backends: which metadata providers and
//! download backends this build knows, by identifier and display
//! name.

use vstd::prelude::*;

verus! {

/// Identifier of the MusicBrainz metadata provider.
pub const MUSICBRAINZ: &'static str = "musicbrainz";

/// Identifier of the Last.fm metadata provider.
pub const LASTFM: &'static str = "lastfm";

/// Identifier of the Soulseek download backend.
pub const SLSKD: &'static str = "slskd";

/// The metadata providers this build offers, as identifier and
/// display-name pairs.
pub fn available_metadata_providers() -> (r: Vec<(&'static str, &'static str)>)
    ensures
        r@.len() == 2,
        r@[0].0@ == "musicbrainz"@ && r@[0].1@ == "MusicBrainz"@,
        r@[1].0@ == "lastfm"@ && r@[1].1@ == "Last.fm"@,
{
    let mut v: Vec<(&'static str, &'static str)> = Vec::new();
    v.push(("musicbrainz", "MusicBrainz"));
    v.push(("lastfm", "Last.fm"));
    v
}

/// The download backends this build offers, as identifier and
/// display-name pairs.
pub fn available_download_backends() -> (r: Vec<(&'static str, &'static str)>)
    ensures
        r@.len() == 1,
        r@[0].0@ == "slskd"@ && r@[0].1@ == "Soulseek"@,
{
    let mut v: Vec<(&'static str, &'static str)> = Vec::new();
    v.push(("slskd", "Soulseek"));
    v
}

} // verus!
