//! Raw peer-shared file listings and their quality scoring.
//!
//! A listing is one file offered by one remote peer. Scoring combines
//! a format weight with bitrate, availability and congestion
//! adjustments. Scores are fixed-point integers: 100 units are one
//! whole point, so the weight table `{flac: 1.0, mp3: 0.8, ogg: 0.7,
//! aac: 0.6, wma: 0.5, other: 0.3}` is held as `{100, 80, 70, 60, 50,
//! 30}`. A score is clamped to at most 100; there is deliberately no
//! lower clamp.

use vstd::prelude::*;
use vstd::string::StrSliceExecFns;

use crate::text::{
    find_last_in, last_in, lower, lower_str, str_eq, CharClass,
};

verus! {

/// One file offered by one remote peer, as reported by the download
/// service's search.
pub struct SearchResult {
    pub username: String,
    pub filename: String,
    pub size: i64,
    pub bitrate: Option<i32>,
    pub duration: Option<i32>,
    pub has_free_upload_slot: bool,
    pub upload_speed: i32,
    pub queue_length: i32,
}

impl Clone for SearchResult {
    fn clone(&self) -> (r: Self)
        ensures
            r == *self,
    {
        SearchResult {
            username: self.username.clone(),
            filename: self.filename.clone(),
            size: self.size,
            bitrate: self.bitrate,
            duration: self.duration,
            has_free_upload_slot: self.has_free_upload_slot,
            upload_speed: self.upload_speed,
            queue_length: self.queue_length,
        }
    }
}

/// The last path segment of a file path, where both slashes separate.
pub open spec fn file_name(s: Seq<char>) -> Seq<char> {
    s.subrange(last_in(s, CharClass::PathSep) + 1, s.len() as int)
}

/// Whether the last path segment carries an extension: a dot at an
/// index of at least one, so a leading dot alone names a hidden file,
/// not an extension.
pub open spec fn has_extension(seg: Seq<char>) -> bool {
    last_in(seg, CharClass::Dot) >= 1
}

/// The extension of a path segment: what follows the last dot.
pub open spec fn extension_of(seg: Seq<char>) -> Seq<char> {
    seg.subrange(last_in(seg, CharClass::Dot) + 1, seg.len() as int)
}

/// The stem of a path segment: what precedes the last dot, or the
/// whole segment when it has no extension.
pub open spec fn stem_of(seg: Seq<char>) -> Seq<char> {
    if has_extension(seg) {
        seg.subrange(0, last_in(seg, CharClass::Dot))
    } else {
        seg
    }
}

/// The quality label of a listing: its lower-cased file extension, or
/// `"unknown"` when the name has none.
pub open spec fn quality_spec(filename: Seq<char>) -> Seq<char> {
    let seg = file_name(filename);
    if has_extension(seg) {
        lower(extension_of(seg))
    } else {
        "unknown"@
    }
}

/// Whether a quality label is in the format weight table.
pub open spec fn is_known_format(q: Seq<char>) -> bool {
    q == "flac"@ || q == "mp3"@ || q == "ogg"@ || q == "aac"@ || q == "wma"@
}

/// The format weight table, in score units.
pub open spec fn format_weight(q: Seq<char>) -> int {
    if q == "flac"@ {
        100
    } else if q == "mp3"@ {
        80
    } else if q == "ogg"@ {
        70
    } else if q == "aac"@ {
        60
    } else if q == "wma"@ {
        50
    } else {
        30
    }
}

/// Bitrate adjustment: +20 units at or above 320 kbps, +10 at or
/// above 256, -20 below 128, and none in the 128..=255 gap or when
/// the bitrate is unreported.
pub open spec fn bitrate_adjust(b: Option<i32>) -> int {
    match b {
        Some(br) => if br >= 320 {
            20
        } else if br >= 256 {
            10
        } else if br < 128 {
            -20
        } else {
            0
        },
        None => 0,
    }
}

/// Peer adjustment: +10 units for a free upload slot, +5 for upload
/// speed above 100, -10 for a queue deeper than 10.
pub open spec fn peer_adjust(free_slot: bool, speed: i32, queue: i32) -> int {
    (if free_slot {
        10int
    } else {
        0int
    }) + (if speed > 100 {
        5int
    } else {
        0int
    }) - (if queue > 10 {
        10int
    } else {
        0int
    })
}

/// A score clamped to the one-point ceiling of 100 units; no lower
/// clamp is applied.
pub open spec fn clamp_score(x: int) -> int {
    if x > 100 {
        100
    } else {
        x
    }
}

/// The unclamped score of a listing.
pub open spec fn raw_track_score(r: SearchResult) -> int {
    format_weight(quality_spec(r.filename@)) + bitrate_adjust(r.bitrate) + peer_adjust(
        r.has_free_upload_slot,
        r.upload_speed,
        r.queue_length,
    )
}

/// The score of a listing: the clamped sum of format weight, bitrate
/// adjustment and peer adjustment.
pub open spec fn track_score(r: SearchResult) -> int {
    clamp_score(raw_track_score(r))
}

/// Weight lookup for a quality label held in a string.
pub fn weight_of_quality(q: &str) -> (w: i64)
    ensures
        w == format_weight(q@),
{
    if str_eq(q, "flac") {
        100
    } else if str_eq(q, "mp3") {
        80
    } else if str_eq(q, "ogg") {
        70
    } else if str_eq(q, "aac") {
        60
    } else if str_eq(q, "wma") {
        50
    } else {
        30
    }
}

impl SearchResult {
    /// The lower-cased extension of the listing's filename, or
    /// `"unknown"` when it has none.
    pub fn quality(&self) -> (r: String)
        ensures
            r@ == quality_spec(self.filename@),
    {
        let f = self.filename.as_str();
        let len = f.unicode_len();
        let name_start: usize = match find_last_in(f, CharClass::PathSep) {
            Some(i) => i + 1,
            None => 0,
        };
        let name = f.substring_char(name_start, len);
        let nlen = name.unicode_len();
        match find_last_in(name, CharClass::Dot) {
            Some(d) if d >= 1 => lower_str(name.substring_char(d + 1, nlen)),
            _ => {
                let r = String::from_str("unknown");
                r
            },
        }
    }

    /// The quality score of this listing, in fixed-point units of one
    /// hundredth of a point: the format weight adjusted for bitrate,
    /// free-slot availability, upload speed and queue depth, clamped
    /// to at most 100 with no lower clamp.
    pub fn quality_score(&self) -> (r: i64)
        ensures
            r == track_score(*self),
            0 <= r <= 100,
    {
        let q = self.quality();
        let mut score = weight_of_quality(q.as_str());
        match self.bitrate {
            Some(br) => {
                if br >= 320 {
                    score += 20;
                } else if br >= 256 {
                    score += 10;
                } else if br < 128 {
                    score -= 20;
                }
            },
            None => {},
        }
        if self.has_free_upload_slot {
            score += 10;
        }
        if self.upload_speed > 100 {
            score += 5;
        }
        if self.queue_length > 10 {
            score -= 10;
        }
        if score > 100 {
            100
        } else {
            score
        }
    }
}

/// Law: a listing with a known format, a bitrate of at least 320, a
/// free upload slot, upload speed above 100 and a queue no deeper
/// than 10 earns every bonus: its unclamped score is exactly the
/// format weight plus 35 units, and whenever that sum does not exceed
/// the ceiling the clamped score is at least the format weight plus
/// 35.
pub proof fn lemma_well_served_listing_score(r: SearchResult)
    requires
        is_known_format(quality_spec(r.filename@)),
        r.bitrate matches Some(br) && br >= 320,
        r.has_free_upload_slot,
        r.upload_speed > 100,
        r.queue_length <= 10,
    ensures
        raw_track_score(r) == format_weight(quality_spec(r.filename@)) + 35,
        format_weight(quality_spec(r.filename@)) + 35 <= 100 ==> track_score(r)
            >= format_weight(quality_spec(r.filename@)) + 35,
{
}

/// Law: a listing whose quality label is outside the weight table is
/// scored from the default base weight of 30 units (0.3 points),
/// before the bitrate and peer adjustments.
pub proof fn lemma_unknown_format_base_weight(r: SearchResult)
    requires
        !is_known_format(quality_spec(r.filename@)),
    ensures
        format_weight(quality_spec(r.filename@)) == 30,
        raw_track_score(r) == 30 + bitrate_adjust(r.bitrate) + peer_adjust(
            r.has_free_upload_slot,
            r.upload_speed,
            r.queue_length,
        ),
{
}

} // verus!
