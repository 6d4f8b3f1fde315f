//! Inference of title, artist, track number and album name from the
//! path of a peer-shared file.
//!
//! The grammar tries three patterns over the filename stem, in order,
//! and stops at the first that matches:
//!
//! 1. a leading run of decimal digits, optional whitespace, a hyphen
//!    or dot, then an artist, a hyphen or en-dash, and a title;
//! 2. an artist, a hyphen or en-dash, and a title;
//! 3. a leading run of decimal digits, optional whitespace, a hyphen
//!    or dot, and a title.
//!
//! The artist/title separator in patterns 1 and 2 is the first hyphen
//! or en-dash that has at least one character before it (after the
//! track prefix, where there is one) and at least one character after
//! it; artist and title are trimmed of surrounding whitespace after
//! the split. When no pattern matches, the title defaults to the
//! whole stem and artist and track number stay unset. The album name
//! is the second-to-last path segment when it is longer than three
//! characters and does not start with an at-sign.

use vstd::prelude::*;
use vstd::string::StrSliceExecFns;

use crate::listing::{file_name, stem_of, SearchResult};
use crate::text::{
    class_test, find_first_from, find_last_in, first_from, first_in, in_class, is_digit,
    is_track_sep, last_in, trim, trim_str, CharClass,
};

verus! {

/// The view of an optional string, as an optional character sequence.
pub open spec fn opt_chars(o: Option<String>) -> Option<Seq<char>> {
    match o {
        Some(s) => Some(s@),
        None => None,
    }
}

/// The least index `j` of a hyphen or en-dash with `from <= j` and at
/// least one character after it, or `-1` when there is none. This is
/// where patterns 1 and 2 split an artist from a title.
pub open spec fn split_dash(s: Seq<char>, from: int) -> int {
    if s.len() < 2 || from < 0 || from > s.len() - 2 {
        -1
    } else {
        let w = s.subrange(from, s.len() - 1);
        let k = first_in(w, CharClass::Dash);
        if k == w.len() {
            -1
        } else {
            from + k
        }
    }
}

/// End of the leading digit run of a stem.
pub open spec fn digits_end(stem: Seq<char>) -> int {
    first_in(stem, CharClass::NonDigit)
}

/// Index of the first non-whitespace character after the leading
/// digit run: the candidate track separator.
pub open spec fn sep_idx(stem: Seq<char>) -> int {
    first_from(stem, digits_end(stem), CharClass::NonWs)
}

/// Whether a stem starts with a track prefix: a nonempty digit run,
/// optional whitespace, then a hyphen or dot.
pub open spec fn has_track_prefix(stem: Seq<char>) -> bool {
    digits_end(stem) >= 1 && sep_idx(stem) < stem.len() && is_track_sep(stem[sep_idx(stem)])
}

/// Pattern 1: a track prefix followed by an artist, a dash and a
/// title.
pub open spec fn p1_matches(stem: Seq<char>) -> bool {
    has_track_prefix(stem) && split_dash(stem, sep_idx(stem) + 2) >= 0
}

/// Pattern 2: an artist, a dash and a title.
pub open spec fn p2_matches(stem: Seq<char>) -> bool {
    split_dash(stem, 1) >= 0
}

/// Pattern 3: a track prefix followed by a title.
pub open spec fn p3_matches(stem: Seq<char>) -> bool {
    has_track_prefix(stem) && sep_idx(stem) + 1 < stem.len()
}

/// The digit run captured as a track number, or `None` when the
/// matched pattern has none.
pub open spec fn parsed_track_digits(stem: Seq<char>) -> Option<Seq<char>> {
    if p1_matches(stem) {
        Some(stem.subrange(0, digits_end(stem)))
    } else if p2_matches(stem) {
        None
    } else if p3_matches(stem) {
        Some(stem.subrange(0, digits_end(stem)))
    } else {
        None
    }
}

/// The artist captured by the first matching pattern, trimmed.
pub open spec fn parsed_artist(stem: Seq<char>) -> Option<Seq<char>> {
    if p1_matches(stem) {
        let j = split_dash(stem, sep_idx(stem) + 2);
        Some(trim(stem.subrange(sep_idx(stem) + 1, j)))
    } else if p2_matches(stem) {
        let j = split_dash(stem, 1);
        Some(trim(stem.subrange(0, j)))
    } else {
        None
    }
}

/// The title captured by the first matching pattern, trimmed; the
/// whole stem when no pattern matches.
pub open spec fn parsed_title(stem: Seq<char>) -> Seq<char> {
    if p1_matches(stem) {
        let j = split_dash(stem, sep_idx(stem) + 2);
        trim(stem.subrange(j + 1, stem.len() as int))
    } else if p2_matches(stem) {
        let j = split_dash(stem, 1);
        trim(stem.subrange(j + 1, stem.len() as int))
    } else if p3_matches(stem) {
        trim(stem.subrange(sep_idx(stem) + 1, stem.len() as int))
    } else {
        stem
    }
}

/// The value of a run of decimal digits.
pub open spec fn dec_val(s: Seq<char>) -> int
    decreases s.len(),
{
    if s.len() == 0 {
        0
    } else {
        dec_val(s.drop_last()) * 10 + ((s.last() as u32) - ('0' as u32))
    }
}

/// A digit run read as a track number; overflow of `i32` reads as
/// `None`.
pub open spec fn track_number_of(digits: Seq<char>) -> Option<i32> {
    if dec_val(digits) <= i32::MAX {
        Some(dec_val(digits) as i32)
    } else {
        None
    }
}

/// The track number inferred from a stem.
pub open spec fn parsed_track(stem: Seq<char>) -> Option<i32> {
    match parsed_track_digits(stem) {
        Some(d) => track_number_of(d),
        None => None,
    }
}

/// The album name inferred from a full path: its second-to-last
/// segment, when that is longer than three characters and does not
/// start with an at-sign.
pub open spec fn album_of(filename: Seq<char>) -> Option<Seq<char>> {
    let k = last_in(filename, CharClass::PathSep);
    if k < 0 {
        None
    } else {
        let part = file_name(filename.subrange(0, k));
        if part.len() > 3 && part[0] != '@' {
            Some(part)
        } else {
            None
        }
    }
}

/// Find the dash that splits an artist from a title: the first hyphen
/// or en-dash at or after `from` that is not the last character.
pub fn find_split_dash(s: &str, from: usize) -> (r: Option<usize>)
    ensures
        match r {
            Some(j) => split_dash(s@, from as int) == j && from <= j && j + 1 < s@.len(),
            None => split_dash(s@, from as int) == -1,
        },
{
    let len = s.unicode_len();
    if len < 2 || from > len - 2 {
        return None;
    }
    let ghost w = s@.subrange(from as int, s@.len() - 1);
    let end = len - 1;
    let mut i: usize = from;
    while i < end
        invariant
            from <= i <= end,
            end == s@.len() - 1,
            len == s@.len(),
            w == s@.subrange(from as int, s@.len() - 1),
            forall|j: int| from <= j < i ==> !in_class(CharClass::Dash, s@[j]),
        decreases end - i,
    {
        if class_test(CharClass::Dash, s.get_char(i)) {
            proof {
                assert(forall|j: int| 0 <= j < w.len() ==> w[j] == s@[j + from]);
                crate::text::lemma_first_in_unique(w, CharClass::Dash, i - from);
            }
            return Some(i);
        }
        i += 1;
    }
    proof {
        assert(forall|j: int| 0 <= j < w.len() ==> w[j] == s@[j + from]);
        crate::text::lemma_first_in_unique(w, CharClass::Dash, i - from);
    }
    None
}

/// Read a run of decimal digits as an `i32`; `None` on overflow.
pub fn parse_track_digits(digits: &str) -> (r: Option<i32>)
    requires
        digits@.len() >= 1,
        forall|i: int| 0 <= i < digits@.len() ==> is_digit(#[trigger] digits@[i]),
    ensures
        r == track_number_of(digits@),
{
    let len = digits.unicode_len();
    let mut acc: i64 = 0;
    let mut i: usize = 0;
    while i < len
        invariant
            0 <= i <= len,
            len == digits@.len(),
            forall|j: int| 0 <= j < len ==> is_digit(#[trigger] digits@[j]),
            acc == dec_val(digits@.subrange(0, i as int)),
            0 <= acc <= i32::MAX,
        decreases len - i,
    {
        let c = digits.get_char(i);
        assert(is_digit(c));
        let d: i64 = ((c as u32) - 48) as i64;
        acc = acc * 10 + d;
        proof {
            assert(digits@.subrange(0, i + 1).drop_last() =~= digits@.subrange(0, i as int));
        }
        i += 1;
        if acc > i32::MAX as i64 {
            proof {
                lemma_dec_val_monotonic(digits@, i as int);
            }
            return None;
        }
    }
    proof {
        assert(digits@.subrange(0, len as int) =~= digits@);
    }
    Some(acc as i32)
}

/// Digit sequences only grow in value as they extend: the value of a
/// prefix bounds the value of the whole run from below.
proof fn lemma_dec_val_monotonic(s: Seq<char>, i: int)
    requires
        0 <= i <= s.len(),
        forall|j: int| 0 <= j < s.len() ==> is_digit(#[trigger] s[j]),
    ensures
        dec_val(s) >= dec_val(s.subrange(0, i)),
        dec_val(s) >= 0,
    decreases s.len(),
{
    if s.len() == 0 {
        assert(s.subrange(0, i) =~= s);
    } else if i == s.len() {
        assert(s.subrange(0, i) =~= s);
        lemma_dec_val_monotonic(s.drop_last(), s.len() - 1);
    } else {
        lemma_dec_val_monotonic(s.drop_last(), i);
        assert(s.drop_last().subrange(0, i) =~= s.subrange(0, i));
    }
}

/// A listing enriched with the metadata inferred from its filename.
pub struct TrackResult {
    pub base: SearchResult,
    pub artist: Option<String>,
    pub title: Option<String>,
    pub album: Option<String>,
    pub track_number: Option<i32>,
}

/// Clone an optional string, preserving its characters.
pub fn clone_opt_string(o: &Option<String>) -> (r: Option<String>)
    ensures
        r == *o,
{
    match o {
        Some(s) => Some(s.clone()),
        None => None,
    }
}

impl Clone for TrackResult {
    fn clone(&self) -> (r: Self)
        ensures
            r == *self,
    {
        TrackResult {
            base: self.base.clone(),
            artist: clone_opt_string(&self.artist),
            title: clone_opt_string(&self.title),
            album: clone_opt_string(&self.album),
            track_number: self.track_number,
        }
    }
}

impl TrackResult {
    /// Enrich a raw listing with the title, artist, track number and
    /// album name inferred from its filename.
    pub fn new(base: SearchResult) -> (r: TrackResult)
        ensures
            r.base == base,
            opt_chars(r.title) == Some(parsed_title(stem_of(file_name(base.filename@)))),
            opt_chars(r.artist) == parsed_artist(stem_of(file_name(base.filename@))),
            r.track_number == parsed_track(stem_of(file_name(base.filename@))),
            opt_chars(r.album) == album_of(base.filename@),
    {
        let (artist, title, track_number) = parse_stem_metadata(&base.filename);
        let album = infer_album(&base.filename);
        TrackResult { base, artist, title, album, track_number }
    }
}

/// Infer artist, title and track number from the stem of a path's
/// last segment, by the module's three-pattern grammar.
fn parse_stem_metadata(filename: &String) -> (r: (Option<String>, Option<String>, Option<i32>))
    ensures
        ({
            let stem = stem_of(file_name(filename@));
            &&& opt_chars(r.0) == parsed_artist(stem)
            &&& opt_chars(r.1) == Some(parsed_title(stem))
            &&& r.2 == parsed_track(stem)
        }),
{
    let f = filename.as_str();
    let len = f.unicode_len();
    let name_start: usize = match find_last_in(f, CharClass::PathSep) {
        Some(i) => i + 1,
        None => 0,
    };
    let name = f.substring_char(name_start, len);
    assert(name@ == file_name(f@));
    let nlen = name.unicode_len();
    let stem: &str = match find_last_in(name, CharClass::Dot) {
        Some(d) if d >= 1 => name.substring_char(0, d),
        _ => name,
    };
    assert(stem@ == stem_of(file_name(f@)));
    let slen = stem.unicode_len();

    let d = find_first_from(stem, 0, CharClass::NonDigit);
    let i1 = find_first_from(stem, d, CharClass::NonWs);
    proof {
        assert(stem@.subrange(0, stem@.len() as int) =~= stem@);
    }
    assert(d == digits_end(stem@));
    assert(i1 == sep_idx(stem@));
    let track_prefix = d >= 1 && i1 < slen && class_test(CharClass::TrackSep, stem.get_char(i1));
    assert(track_prefix == has_track_prefix(stem@));

    let p1_dash: Option<usize> = if track_prefix && slen - i1 >= 2 {
        find_split_dash(stem, i1 + 2)
    } else {
        None
    };
    if track_prefix && slen - i1 < 2 {
        assert(split_dash(stem@, sep_idx(stem@) + 2) == -1);
    }

    if track_prefix && p1_dash.is_some() {
        let j = p1_dash.unwrap();
        let artist = String::from_str(trim_str(stem.substring_char(i1 + 1, j)));
        let title = String::from_str(trim_str(stem.substring_char(j + 1, slen)));
        let track = parse_track_digits(stem.substring_char(0, d));
        (Some(artist), Some(title), track)
    } else {
        match find_split_dash(stem, 1) {
            Some(j) => {
                let artist = String::from_str(trim_str(stem.substring_char(0, j)));
                let title = String::from_str(trim_str(stem.substring_char(j + 1, slen)));
                (Some(artist), Some(title), None)
            },
            None => {
                if track_prefix && i1 + 1 < slen {
                    let title = String::from_str(trim_str(stem.substring_char(i1 + 1, slen)));
                    let track = parse_track_digits(stem.substring_char(0, d));
                    (None, Some(title), track)
                } else {
                    (None, Some(String::from_str(stem)), None)
                }
            },
        }
    }
}

/// Infer the album name from a full path: its second-to-last segment,
/// when acceptable.
fn infer_album(filename: &String) -> (r: Option<String>)
    ensures
        opt_chars(r) == album_of(filename@),
{
    let f = filename.as_str();
    match find_last_in(f, CharClass::PathSep) {
        Some(k) => {
            let head = f.substring_char(0, k);
            let hlen = head.unicode_len();
            let p: usize = match find_last_in(head, CharClass::PathSep) {
                Some(p) => p + 1,
                None => 0,
            };
            let part = head.substring_char(p, hlen);
            assert(part@ == file_name(f@.subrange(0, k as int)));
            let plen = part.unicode_len();
            if plen > 3 && part.get_char(0) != '@' {
                Some(String::from_str(part))
            } else {
                None
            }
        },
        None => None,
    }
}

} // verus!
