//! Last.fm response shapes and the pure helpers that map them into
//! the crate's metadata records: cover-image selection, duration
//! formatting, and the synthetic identifiers used when the provider
//! reports no MusicBrainz identifier. The HTTP requests themselves
//! are the caller's business.

use vstd::prelude::*;
use vstd::string::{StrSliceExecFns, StringExecFns};

use crate::metadata::{Album, AlbumWithTracks, Track};
use crate::parse::{clone_opt_string, opt_chars};
use crate::text::{find_first_from, lower, str_eq, string_from_chars, CharClass};

verus! {

/// One cover image offered by the provider, with its size label.
pub struct LastFmImage {
    pub url: String,
    pub size: String,
}

/// The index of the first image with the given size label, or `-1`.
pub open spec fn first_with_size(imgs: Seq<LastFmImage>, size: Seq<char>) -> int
    decreases imgs.len(),
{
    if imgs.len() == 0 {
        -1
    } else if imgs[0].size@ == size {
        0
    } else {
        let r = first_with_size(imgs.drop_first(), size);
        if r == -1 {
            -1
        } else {
            1 + r
        }
    }
}

/// The index of the first image with a nonempty URL, or `-1`.
pub open spec fn first_nonempty(imgs: Seq<LastFmImage>) -> int
    decreases imgs.len(),
{
    if imgs.len() == 0 {
        -1
    } else if imgs[0].url@.len() > 0 {
        0
    } else {
        let r = first_nonempty(imgs.drop_first());
        if r == -1 {
            -1
        } else {
            1 + r
        }
    }
}

/// Whether one size label's candidate decides the pick: its first
/// image exists and has a nonempty URL.
pub open spec fn size_candidate(imgs: Seq<LastFmImage>, size: Seq<char>) -> Option<Seq<char>> {
    let i = first_with_size(imgs, size);
    if i >= 0 && imgs[i].url@.len() > 0 {
        Some(imgs[i].url@)
    } else {
        None
    }
}

/// The URL of the largest usable image: the size labels are tried
/// from largest to smallest, each contributing its first image when
/// that image's URL is nonempty; with no labelled hit, the first
/// image with a nonempty URL wins; with none at all, there is no
/// cover.
pub open spec fn largest_image(imgs: Seq<LastFmImage>) -> Option<Seq<char>> {
    if size_candidate(imgs, "extralarge"@) is Some {
        size_candidate(imgs, "extralarge"@)
    } else if size_candidate(imgs, "large"@) is Some {
        size_candidate(imgs, "large"@)
    } else if size_candidate(imgs, "medium"@) is Some {
        size_candidate(imgs, "medium"@)
    } else if size_candidate(imgs, "small"@) is Some {
        size_candidate(imgs, "small"@)
    } else {
        let f = first_nonempty(imgs);
        if f >= 0 {
            Some(imgs[f].url@)
        } else {
            None
        }
    }
}

/// Find the first image with the given size label.
fn find_first_with_size(imgs: &Vec<LastFmImage>, size: &str) -> (r: Option<usize>)
    ensures
        match r {
            Some(i) => first_with_size(imgs@, size@) == i && i < imgs@.len(),
            None => first_with_size(imgs@, size@) == -1,
        },
{
    let mut i: usize = 0;
    while i < imgs.len()
        invariant
            0 <= i <= imgs@.len(),
            forall|j: int| 0 <= j < i ==> (#[trigger] imgs@[j]).size@ != size@,
        decreases imgs@.len() - i,
    {
        if str_eq(imgs[i].size.as_str(), size) {
            proof {
                lemma_first_with_size_unique(imgs@, size@, i as int);
            }
            return Some(i);
        }
        i += 1;
    }
    proof {
        lemma_first_with_size_unique(imgs@, size@, -1);
    }
    None
}

/// Any index whose image matches the label, with none before it, is
/// `first_with_size`; `-1` when no image matches.
proof fn lemma_first_with_size_unique(imgs: Seq<LastFmImage>, size: Seq<char>, i: int)
    requires
        -1 <= i < imgs.len(),
        i >= 0 ==> imgs[i].size@ == size,
        forall|j: int| 0 <= j < (if i >= 0 { i } else { imgs.len() as int }) ==> (#[trigger] imgs[j]).size@ != size,
    ensures
        first_with_size(imgs, size) == i,
    decreases imgs.len(),
{
    if imgs.len() > 0 && imgs[0].size@ != size {
        assert(forall|j: int|
            0 <= j < imgs.len() - 1 ==> imgs.drop_first()[j] == imgs[j + 1]);
        if i >= 1 {
            lemma_first_with_size_unique(imgs.drop_first(), size, i - 1);
        } else {
            lemma_first_with_size_unique(imgs.drop_first(), size, -1);
        }
    }
}

/// Find the first image with a nonempty URL.
fn find_first_nonempty(imgs: &Vec<LastFmImage>) -> (r: Option<usize>)
    ensures
        match r {
            Some(i) => first_nonempty(imgs@) == i && i < imgs@.len(),
            None => first_nonempty(imgs@) == -1,
        },
{
    let mut i: usize = 0;
    while i < imgs.len()
        invariant
            0 <= i <= imgs@.len(),
            forall|j: int| 0 <= j < i ==> (#[trigger] imgs@[j]).url@.len() == 0,
        decreases imgs@.len() - i,
    {
        if imgs[i].url.as_str().unicode_len() > 0 {
            proof {
                lemma_first_nonempty_unique(imgs@, i as int);
            }
            return Some(i);
        }
        i += 1;
    }
    proof {
        lemma_first_nonempty_unique(imgs@, -1);
    }
    None
}

/// Any index whose image has a nonempty URL, with none before it, is
/// `first_nonempty`; `-1` when every URL is empty.
proof fn lemma_first_nonempty_unique(imgs: Seq<LastFmImage>, i: int)
    requires
        -1 <= i < imgs.len(),
        i >= 0 ==> imgs[i].url@.len() > 0,
        forall|j: int| 0 <= j < (if i >= 0 { i } else { imgs.len() as int }) ==> (#[trigger] imgs[j]).url@.len() == 0,
    ensures
        first_nonempty(imgs) == i,
    decreases imgs.len(),
{
    if imgs.len() > 0 && imgs[0].url@.len() == 0 {
        assert(forall|j: int|
            0 <= j < imgs.len() - 1 ==> imgs.drop_first()[j] == imgs[j + 1]);
        if i >= 1 {
            lemma_first_nonempty_unique(imgs.drop_first(), i - 1);
        } else {
            lemma_first_nonempty_unique(imgs.drop_first(), -1);
        }
    }
}

/// The candidate URL of one size label, when its first image is
/// usable.
fn size_candidate_of(imgs: &Vec<LastFmImage>, size: &str) -> (r: Option<String>)
    ensures
        crate::parse::opt_chars(r) == size_candidate(imgs@, size@),
{
    match find_first_with_size(imgs, size) {
        Some(i) => {
            if imgs[i].url.as_str().unicode_len() > 0 {
                Some(imgs[i].url.clone())
            } else {
                None
            }
        },
        None => None,
    }
}

impl LastFmImage {
    /// The URL of the largest usable cover image among those offered:
    /// size labels from largest to smallest, then any image with a
    /// URL at all.
    pub fn get_largest(images: &Vec<LastFmImage>) -> (r: Option<String>)
        ensures
            crate::parse::opt_chars(r) == largest_image(images@),
    {
        let e = size_candidate_of(images, "extralarge");
        if e.is_some() {
            return e;
        }
        let l = size_candidate_of(images, "large");
        if l.is_some() {
            return l;
        }
        let m = size_candidate_of(images, "medium");
        if m.is_some() {
            return m;
        }
        let s = size_candidate_of(images, "small");
        if s.is_some() {
            return s;
        }
        match find_first_nonempty(images) {
            Some(i) => Some(images[i].url.clone()),
            None => None,
        }
    }
}

/// The decimal rendering of a number.
pub open spec fn dec_str(n: nat) -> Seq<char>
    decreases n,
{
    if n < 10 {
        seq![((48 + n) as u8) as char]
    } else {
        dec_str(n / 10).push(((48 + (n % 10)) as u8) as char)
    }
}

/// A number rendered with at least two digits, zero-padded.
pub open spec fn two_digits(n: nat) -> Seq<char> {
    if n < 10 {
        seq!['0'] + dec_str(n)
    } else {
        dec_str(n)
    }
}

/// A duration in seconds rendered as `MM:SS`, both fields zero-padded
/// to two digits; an unreported duration stays unreported.
pub open spec fn duration_view(d: Option<u32>) -> Option<Seq<char>> {
    match d {
        Some(s) => Some(two_digits((s / 60) as nat) + seq![':'] + two_digits((s % 60) as nat)),
        None => None,
    }
}

/// Append the decimal rendering of `n` to a character buffer.
fn push_dec(n: u32, out: &mut Vec<char>)
    ensures
        final(out)@ == old(out)@ + dec_str(n as nat),
    decreases n,
{
    if n < 10 {
        out.push(((48 + n) as u8) as char);
        proof {
            assert(final(out)@ =~= old(out)@ + dec_str(n as nat));
        }
    } else {
        push_dec(n / 10, out);
        out.push(((48 + (n % 10)) as u8) as char);
        proof {
            assert(final(out)@ =~= old(out)@ + dec_str(n as nat));
        }
    }
}

/// Format a duration in seconds as `MM:SS`, both fields zero-padded
/// to two digits; an unreported duration stays unreported.
pub fn format_duration(seconds: Option<u32>) -> (r: Option<String>)
    ensures
        opt_chars(r) == duration_view(seconds),
{
    match seconds {
        Some(s) => {
            let minutes = s / 60;
            let secs = s % 60;
            let mut buf: Vec<char> = Vec::new();
            if minutes < 10 {
                buf.push('0');
            }
            push_dec(minutes, &mut buf);
            buf.push(':');
            if secs < 10 {
                buf.push('0');
            }
            push_dec(secs, &mut buf);
            proof {
                assert(buf@ =~= two_digits((s / 60) as nat) + seq![':'] + two_digits(
                    (s % 60) as nat,
                ));
            }
            Some(string_from_chars(&buf))
        },
        None => None,
    }
}

/// The synthetic identifier used for a Last.fm record that reports no
/// MusicBrainz identifier: provider tag, artist and name, lower-cased
/// (ASCII letters).
pub fn generate_lastfm_id(artist: &str, name: &str) -> (r: String)
    ensures
        r@ == "lastfm:"@ + lower(artist@) + ":"@ + lower(name@),
{
    let mut id = String::from_str("lastfm:");
    let la = crate::text::lower_str(artist);
    id.append(la.as_str());
    id.append(":");
    let ln = crate::text::lower_str(name);
    id.append(ln.as_str());
    proof {
        assert(id@ =~= "lastfm:"@ + lower(artist@) + ":"@ + lower(name@));
    }
    id
}


/// An optional string with empty values discarded, viewed as
/// characters: the provider reports missing identifiers as empty
/// strings.
pub open spec fn nonempty_view(o: Option<String>) -> Option<Seq<char>> {
    match o {
        Some(s) => if s@.len() > 0 {
            Some(s@)
        } else {
            None
        },
        None => None,
    }
}

/// Discard an empty optional string.
pub fn nonempty_opt(o: Option<String>) -> (r: Option<String>)
    ensures
        opt_chars(r) == nonempty_view(o),
{
    match o {
        Some(s) => {
            if s.as_str().unicode_len() > 0 {
                Some(s)
            } else {
                None
            }
        },
        None => None,
    }
}

/// The artist and album parts of a synthetic identifier
/// `lastfm:<artist>:<album>`, split at the first colon after the tag;
/// anything else has no parts.
pub open spec fn lastfm_id_parts(id: Seq<char>) -> Option<(Seq<char>, Seq<char>)> {
    if id.len() >= 7 && id.subrange(0, 7) == "lastfm:"@ {
        let rest = id.subrange(7, id.len() as int);
        let k = crate::text::first_in(rest, CharClass::Colon);
        if k < rest.len() {
            Some((rest.subrange(0, k), rest.subrange(k + 1, rest.len() as int)))
        } else {
            None
        }
    } else {
        None
    }
}

/// Split a synthetic identifier into its artist and album parts.
pub fn parse_lastfm_id(id: &str) -> (r: Option<(String, String)>)
    ensures
        match r {
            Some(p) => lastfm_id_parts(id@) matches Some(q) && p.0@ == q.0 && p.1@ == q.1,
            None => lastfm_id_parts(id@) is None,
        },
{
    let len = id.unicode_len();
    if len < 7 {
        return None;
    }
    if !str_eq(id.substring_char(0, 7), "lastfm:") {
        return None;
    }
    let rest = id.substring_char(7, len);
    let rlen = rest.unicode_len();
    let k = find_first_from(rest, 0, CharClass::Colon);
    proof {
        assert(rest@.subrange(0, rest@.len() as int) =~= rest@);
    }
    if k < rlen {
        let artist = String::from_str(rest.substring_char(0, k));
        let album = String::from_str(rest.substring_char(k + 1, rlen));
        Some((artist, album))
    } else {
        None
    }
}

/// One album hit of an album search, as the provider reports it.
pub struct LastFmAlbum {
    pub name: String,
    pub artist: String,
    pub url: String,
    pub mbid: Option<String>,
    pub image: Vec<LastFmImage>,
}

/// One track hit of a track search, as the provider reports it.
pub struct LastFmTrack {
    pub name: String,
    pub artist: String,
    pub url: String,
    pub mbid: Option<String>,
    pub listeners: Option<String>,
}

/// Map one album search hit into the crate's album record: a nonempty
/// MusicBrainz identifier becomes both the lookup identifier and the
/// recorded identifier; without one, the synthetic identifier stands
/// in; the cover is the largest usable image.
pub fn album_search_hit(a: LastFmAlbum) -> (r: Album)
    ensures
        r.title == a.name,
        r.artist == a.artist,
        r.release_date is None,
        opt_chars(r.mbid) == nonempty_view(a.mbid),
        opt_chars(r.cover_url) == largest_image(a.image@),
        r.id@ == (match nonempty_view(a.mbid) {
            Some(m) => m,
            None => "lastfm:"@ + lower(a.artist@) + ":"@ + lower(a.name@),
        }),
{
    let cover_url = LastFmImage::get_largest(&a.image);
    let mbid = nonempty_opt(a.mbid);
    let id = match &mbid {
        Some(m) => m.clone(),
        None => generate_lastfm_id(a.artist.as_str(), a.name.as_str()),
    };
    Album { id, title: a.name, artist: a.artist, release_date: None, mbid, cover_url }
}

/// Map one track search hit into the crate's track record, under the
/// same identifier rule as albums; a bare search hit carries no album
/// or duration.
pub fn track_search_hit(t: LastFmTrack) -> (r: Track)
    ensures
        r.title == t.name,
        r.artist == t.artist,
        r.album_id is None,
        r.album_title is None,
        r.release_date is None,
        r.duration is None,
        r.release_mbid is None,
        opt_chars(r.mbid) == nonempty_view(t.mbid),
        r.id@ == (match nonempty_view(t.mbid) {
            Some(m) => m,
            None => "lastfm:"@ + lower(t.artist@) + ":"@ + lower(t.name@),
        }),
{
    let mbid = nonempty_opt(t.mbid);
    let id = match &mbid {
        Some(m) => m.clone(),
        None => generate_lastfm_id(t.artist.as_str(), t.name.as_str()),
    };
    Track {
        id,
        title: t.name,
        artist: t.artist,
        album_id: None,
        album_title: None,
        release_date: None,
        duration: None,
        mbid,
        release_mbid: None,
    }
}

/// The artist credited on one album track.
pub struct LastFmTrackArtist {
    pub name: String,
}

/// The rank attribute of one album track.
pub struct TrackAttr {
    pub rank: u32,
}

/// One track of an album lookup.
pub struct LastFmAlbumTrack {
    pub name: String,
    pub duration: Option<u32>,
    pub mbid: Option<String>,
    pub artist: Option<LastFmTrackArtist>,
    pub attr: Option<TrackAttr>,
}

/// The provider returns either a single track object or an array.
pub enum LastFmTrackList {
    Single(Box<LastFmAlbumTrack>),
    Multiple(Vec<LastFmAlbumTrack>),
}

/// The wiki block of an album lookup.
pub struct LastFmWiki {
    pub published: Option<String>,
}

/// The track-list wrapper of an album lookup.
pub struct LastFmTracks {
    pub track: LastFmTrackList,
}

/// One full album lookup, as the provider reports it.
pub struct LastFmAlbumInfo {
    pub name: String,
    pub artist: String,
    pub mbid: Option<String>,
    pub url: String,
    pub image: Vec<LastFmImage>,
    pub tracks: Option<LastFmTracks>,
    pub wiki: Option<LastFmWiki>,
}

impl LastFmTrackList {
    /// The track listing as one vector, however the provider shaped
    /// it.
    pub fn into_vec(self) -> (r: Vec<LastFmAlbumTrack>)
        ensures
            match self {
                LastFmTrackList::Single(t) => r@.len() == 1 && r@[0] == *t,
                LastFmTrackList::Multiple(v) => r == v,
            },
    {
        match self {
            LastFmTrackList::Single(track) => {
                let mut v: Vec<LastFmAlbumTrack> = Vec::new();
                v.push(*track);
                v
            },
            LastFmTrackList::Multiple(tracks) => tracks,
        }
    }
}


/// The publication date of an album lookup, as characters.
pub open spec fn wiki_published(w: Option<LastFmWiki>) -> Option<Seq<char>> {
    match w {
        Some(wk) => match wk.published {
            Some(p) => Some(p@),
            None => None,
        },
        None => None,
    }
}

/// The flattened track listing of an album lookup.
pub open spec fn info_tracks(t: Option<LastFmTracks>) -> Seq<LastFmAlbumTrack> {
    match t {
        None => Seq::empty(),
        Some(lt) => match lt.track {
            LastFmTrackList::Single(b) => seq![*b],
            LastFmTrackList::Multiple(v) => v@,
        },
    }
}

/// Map an album lookup into the crate's album-with-tracks record. The
/// album takes the lookup identifier, the reported name, artist,
/// publication date and nonempty MusicBrainz identifier, and the
/// largest usable cover. Each track takes a synthetic identifier from
/// the album artist and its own name, its credited artist or the
/// album's, the album's identifier, title, date and MusicBrainz
/// identifier, its formatted duration, and its own nonempty
/// MusicBrainz identifier.
pub fn album_with_tracks(id: &str, info: LastFmAlbumInfo) -> (r: AlbumWithTracks)
    ensures
        r.album.id@ == id@,
        r.album.title == info.name,
        r.album.artist == info.artist,
        opt_chars(r.album.release_date) == wiki_published(info.wiki),
        opt_chars(r.album.mbid) == nonempty_view(info.mbid),
        opt_chars(r.album.cover_url) == largest_image(info.image@),
        r.tracks@.len() == info_tracks(info.tracks).len(),
        forall|i: int|
            0 <= i < r.tracks@.len() ==> {
                let t = #[trigger] r.tracks@[i];
                let s = info_tracks(info.tracks)[i];
                &&& t.id@ == "lastfm:"@ + lower(info.artist@) + ":"@ + lower(s.name@)
                &&& t.title == s.name
                &&& t.artist@ == (match s.artist {
                    Some(a) => a.name@,
                    None => info.artist@,
                })
                &&& opt_chars(t.album_id) == Some(id@)
                &&& opt_chars(t.album_title) == Some(info.name@)
                &&& opt_chars(t.release_date) == wiki_published(info.wiki)
                &&& opt_chars(t.duration) == duration_view(s.duration)
                &&& opt_chars(t.mbid) == nonempty_view(s.mbid)
                &&& opt_chars(t.release_mbid) == nonempty_view(info.mbid)
            },
{
    let LastFmAlbumInfo { name, artist, mbid, url: _, image, tracks, wiki } = info;
    let album_mbid = nonempty_opt(mbid);
    let cover_url = LastFmImage::get_largest(&image);
    let published: Option<String> = match wiki {
        Some(w) => w.published,
        None => None,
    };
    let mut raw: Vec<LastFmAlbumTrack> = match tracks {
        Some(lt) => lt.track.into_vec(),
        None => Vec::new(),
    };
    let ghost orig = raw@;
    proof {
        assert(orig =~= info_tracks(info.tracks));
    }
    let mut out: Vec<Track> = Vec::new();
    while raw.len() > 0
        invariant
            out@.len() + raw@.len() == orig.len(),
            raw@ =~= orig.subrange(out@.len() as int, orig.len() as int),
            artist == info.artist,
            name == info.name,
            opt_chars(published) == wiki_published(info.wiki),
            opt_chars(album_mbid) == nonempty_view(info.mbid),
            forall|i: int|
                0 <= i < out@.len() ==> {
                    let t = #[trigger] out@[i];
                    let s = orig[i];
                    &&& t.id@ == "lastfm:"@ + lower(info.artist@) + ":"@ + lower(s.name@)
                    &&& t.title == s.name
                    &&& t.artist@ == (match s.artist {
                        Some(a) => a.name@,
                        None => info.artist@,
                    })
                    &&& opt_chars(t.album_id) == Some(id@)
                    &&& opt_chars(t.album_title) == Some(info.name@)
                    &&& opt_chars(t.release_date) == wiki_published(info.wiki)
                    &&& opt_chars(t.duration) == duration_view(s.duration)
                    &&& opt_chars(t.mbid) == nonempty_view(s.mbid)
                    &&& opt_chars(t.release_mbid) == nonempty_view(info.mbid)
                },
        decreases raw@.len(),
    {
        let s = raw.remove(0);
        let track_id = generate_lastfm_id(artist.as_str(), s.name.as_str());
        let track_artist = match s.artist {
            Some(a) => a.name,
            None => artist.clone(),
        };
        out.push(
            Track {
                id: track_id,
                title: s.name,
                artist: track_artist,
                album_id: Some(String::from_str(id)),
                album_title: Some(name.clone()),
                release_date: clone_opt_string(&published),
                duration: format_duration(s.duration),
                mbid: nonempty_opt(s.mbid),
                release_mbid: clone_opt_string(&album_mbid),
            },
        );
    }
    AlbumWithTracks {
        album: Album {
            id: String::from_str(id),
            title: name,
            artist,
            release_date: published,
            mbid: album_mbid,
            cover_url,
        },
        tracks: out,
    }
}

} // verus!
