//! Album bundles: grouping scored tracks by peer and path prefix,
//! electing a dominant format, scoring the bundle and ordering
//! candidate lists.
//!
//! An album bundle holds the tracks that share one peer and one
//! directory. Its dominant quality is the most frequent quality label
//! among its tracks, ties broken in favour of the earliest track. Its
//! score uses the same fixed-point scale as track scoring: the weight
//! of the dominant format, a track-count adjustment, and the peer
//! adjustments, clamped to at most 100 units.

use vstd::prelude::*;
use vstd::seq_lib::{to_multiset_insert, to_multiset_remove};
use vstd::string::StrSliceExecFns;

use crate::listing::{
    clamp_score, file_name, format_weight, peer_adjust, quality_spec,
};
use crate::parse::{clone_opt_string, TrackResult};
use crate::text::{find_last_in, last_in, str_eq, CharClass};

verus! {

/// A set of scored tracks sharing one peer and one path prefix.
pub struct AlbumResult {
    pub username: String,
    pub album_path: String,
    pub album_title: String,
    pub artist: Option<String>,
    pub track_count: usize,
    pub total_size: i64,
    pub tracks: Vec<TrackResult>,
    pub dominant_quality: String,
    pub year: Option<String>,
    pub has_free_upload_slot: bool,
    pub upload_speed: i32,
    pub queue_length: i32,
}

/// Track-count adjustment of an album score: +10 units for a count in
/// `[8, 20]`, +5 above 20, none below 8.
pub open spec fn track_count_adjust(n: int) -> int {
    if 8 <= n <= 20 {
        10
    } else if n > 20 {
        5
    } else {
        0
    }
}

/// The unclamped score of an album bundle.
pub open spec fn album_raw_score(a: AlbumResult) -> int {
    format_weight(a.dominant_quality@) + track_count_adjust(a.track_count as int) + peer_adjust(
        a.has_free_upload_slot,
        a.upload_speed,
        a.queue_length,
    )
}

/// The score of an album bundle: the clamped sum of the dominant
/// format's weight, the track-count adjustment and the peer
/// adjustment.
pub open spec fn album_score(a: AlbumResult) -> int {
    clamp_score(album_raw_score(a))
}

/// The directory prefix of a path: the characters before its last
/// separator, empty when it has none.
pub open spec fn dir_of(path: Seq<char>) -> Seq<char> {
    let k = last_in(path, CharClass::PathSep);
    if k < 0 {
        Seq::empty()
    } else {
        path.subrange(0, k)
    }
}

/// The directory a track's file lies in.
pub open spec fn track_dir(t: TrackResult) -> Seq<char> {
    dir_of(t.base.filename@)
}

/// Whether a track belongs to the group of one peer and one
/// directory.
pub open spec fn same_group(t: TrackResult, user: Seq<char>, dir: Seq<char>) -> bool {
    t.base.username@ == user && track_dir(t) == dir
}

/// The subsequence of tracks belonging to one group, in input order.
pub open spec fn group_of(ts: Seq<TrackResult>, user: Seq<char>, dir: Seq<char>) -> Seq<
    TrackResult,
>
    decreases ts.len(),
{
    if ts.len() == 0 {
        Seq::empty()
    } else {
        let rest = group_of(ts.drop_last(), user, dir);
        if same_group(ts.last(), user, dir) {
            rest.push(ts.last())
        } else {
            rest
        }
    }
}

/// The index of a group's first member track; `ts.len()` when the
/// group has none.
pub open spec fn first_member(ts: Seq<TrackResult>, user: Seq<char>, dir: Seq<char>) -> int
    decreases ts.len(),
{
    if ts.len() == 0 {
        0
    } else if same_group(ts[0], user, dir) {
        0
    } else {
        1 + first_member(ts.drop_first(), user, dir)
    }
}

/// `first_member` is the least index of a member.
proof fn lemma_first_member(ts: Seq<TrackResult>, user: Seq<char>, dir: Seq<char>)
    ensures
        0 <= first_member(ts, user, dir) <= ts.len(),
        first_member(ts, user, dir) < ts.len() ==> same_group(
            ts[first_member(ts, user, dir)],
            user,
            dir,
        ),
        forall|j: int| 0 <= j < first_member(ts, user, dir) ==> !same_group(ts[j], user, dir),
    decreases ts.len(),
{
    if ts.len() > 0 && !same_group(ts[0], user, dir) {
        lemma_first_member(ts.drop_first(), user, dir);
        assert forall|j: int| 1 <= j < first_member(ts, user, dir) implies !same_group(
            ts[j],
            user,
            dir,
        ) by {
            assert(ts.drop_first()[j - 1] == ts[j]);
        }
    }
}

/// Any least member index is `first_member`.
proof fn lemma_first_member_unique(ts: Seq<TrackResult>, user: Seq<char>, dir: Seq<char>, i: int)
    requires
        0 <= i <= ts.len(),
        i < ts.len() ==> same_group(ts[i], user, dir),
        forall|j: int| 0 <= j < i ==> !same_group(ts[j], user, dir),
    ensures
        first_member(ts, user, dir) == i,
    decreases ts.len(),
{
    if ts.len() == 0 {
    } else if same_group(ts[0], user, dir) {
        assert(i == 0);
    } else {
        assert(i >= 1);
        assert(forall|j: int|
            0 <= j < i - 1 ==> ts.drop_first()[j] == ts[j + 1] && !same_group(
                ts[j + 1],
                user,
                dir,
            ));
        lemma_first_member_unique(ts.drop_first(), user, dir, i - 1);
    }
}

/// Total byte size of a sequence of tracks.
pub open spec fn sum_sizes(ts: Seq<TrackResult>) -> int
    decreases ts.len(),
{
    if ts.len() == 0 {
        0
    } else {
        sum_sizes(ts.drop_last()) + ts.last().base.size
    }
}

/// The quality labels of a sequence of tracks.
pub open spec fn qualities(ts: Seq<TrackResult>) -> Seq<Seq<char>> {
    ts.map_values(|t: TrackResult| quality_spec(t.base.filename@))
}

/// How many labels of `qs` equal `q`.
pub open spec fn count_q(qs: Seq<Seq<char>>, q: Seq<char>) -> int
    decreases qs.len(),
{
    if qs.len() == 0 {
        0
    } else {
        count_q(qs.drop_last(), q) + if qs.last() == q {
            1int
        } else {
            0int
        }
    }
}

/// Whether `q` is a most frequent label of `qs`.
pub open spec fn is_dominant(q: Seq<char>, qs: Seq<Seq<char>>) -> bool {
    exists|i: int|
        0 <= i < qs.len() && qs[i] == q && (forall|j: int|
            0 <= j < qs.len() ==> count_q(qs, #[trigger] qs[j]) <= count_q(qs, q))
}

/// The internal consistency of an album bundle: the counted and
/// summed fields agree with the track list, every track belongs to
/// the bundle's peer and directory, the dominant quality is a most
/// frequent label, the peer fields and artist come from the first
/// track, and the title is the directory's own name.
pub open spec fn album_wf(a: AlbumResult) -> bool {
    &&& a.track_count == a.tracks@.len()
    &&& a.track_count >= 1
    &&& a.total_size == sum_sizes(a.tracks@)
    &&& forall|i: int|
        0 <= i < a.tracks@.len() ==> same_group(#[trigger] a.tracks@[i], a.username@, a.album_path@)
    &&& is_dominant(a.dominant_quality@, qualities(a.tracks@))
    &&& a.has_free_upload_slot == a.tracks@[0].base.has_free_upload_slot
    &&& a.upload_speed == a.tracks@[0].base.upload_speed
    &&& a.queue_length == a.tracks@[0].base.queue_length
    &&& a.artist == a.tracks@[0].artist
    &&& a.album_title@ == file_name(a.album_path@)
    &&& a.year is None
}

impl AlbumResult {
    /// The album's score, in fixed-point units of one hundredth of a
    /// point: the dominant format's weight adjusted for track count,
    /// free-slot availability, upload speed and queue depth, clamped
    /// to at most 100 with no lower clamp.
    pub fn quality_score(&self) -> (r: i64)
        ensures
            r == album_score(*self),
            r <= 100,
    {
        let w = crate::listing::weight_of_quality(self.dominant_quality.as_str());
        let mut score = w;
        if 8 <= self.track_count && self.track_count <= 20 {
            score += 10;
        } else if self.track_count > 20 {
            score += 5;
        }
        if self.has_free_upload_slot {
            score += 10;
        }
        if self.upload_speed > 100 {
            score += 5;
        }
        if self.queue_length > 10 {
            score -= 10;
        }
        if score > 100 {
            100
        } else {
            score
        }
    }

    /// Total size in whole mebibytes, rounded down.
    pub fn size_mb(&self) -> (r: i64)
        requires
            self.total_size >= 0,
        ensures
            r == self.total_size / 0x100000,
    {
        self.total_size / (1024 * 1024)
    }

    /// Average track size in hundredths of a mebibyte, rounded down;
    /// zero for an empty bundle.
    pub fn average_track_size_mb(&self) -> (r: i64)
        requires
            self.total_size >= 0,
            self.track_count <= i64::MAX,
        ensures
            self.track_count > 0 ==> r == (self.total_size as int / 0x100000) * 100 / (
            self.track_count as int),
            self.track_count == 0 ==> r == 0,
    {
        if self.track_count > 0 {
            let mb = self.size_mb();
            proof {
                vstd::arithmetic::div_mod::lemma_div_is_ordered(
                    self.total_size as int,
                    i64::MAX as int,
                    0x100000,
                );
                vstd::arithmetic::div_mod::lemma_div_pos_is_pos(self.total_size as int, 0x100000);
            }
            assert(0 <= mb <= i64::MAX as int / 0x100000);
            let cnt = self.track_count as i64;
            (mb * 100) / cnt
        } else {
            0
        }
    }
}

/// The directory prefix of a path, as an owned string.
pub fn dir_string(path: &str) -> (r: String)
    ensures
        r@ == dir_of(path@),
{
    match find_last_in(path, CharClass::PathSep) {
        Some(k) => String::from_str(path.substring_char(0, k)),
        None => {
            let r = String::new();
            r
        },
    }
}

/// The last segment of a path, as an owned string.
pub fn file_name_string(path: &str) -> (r: String)
    ensures
        r@ == file_name(path@),
{
    let len = path.unicode_len();
    let start: usize = match find_last_in(path, CharClass::PathSep) {
        Some(k) => k + 1,
        None => 0,
    };
    String::from_str(path.substring_char(start, len))
}

/// Whether a track belongs to the group of `user` and `dir`.
fn track_in_group(t: &TrackResult, user: &str, dir: &str) -> (r: bool)
    ensures
        r == same_group(*t, user@, dir@),
{
    if !str_eq(t.base.username.as_str(), user) {
        return false;
    }
    let d = dir_string(t.base.filename.as_str());
    str_eq(d.as_str(), dir)
}

/// The tracks of one group, cloned out of the input in order.
fn collect_group(ts: &Vec<TrackResult>, user: &str, dir: &str) -> (r: Vec<TrackResult>)
    ensures
        r@ == group_of(ts@, user@, dir@),
{
    let mut out: Vec<TrackResult> = Vec::new();
    let mut i: usize = 0;
    while i < ts.len()
        invariant
            0 <= i <= ts@.len(),
            out@ == group_of(ts@.subrange(0, i as int), user@, dir@),
        decreases ts@.len() - i,
    {
        proof {
            assert(ts@.subrange(0, i + 1).drop_last() =~= ts@.subrange(0, i as int));
        }
        if track_in_group(&ts[i], user, dir) {
            out.push(ts[i].clone());
        }
        i += 1;
    }
    proof {
        assert(ts@.subrange(0, ts@.len() as int) =~= ts@);
    }
    out
}

/// A group member witnesses that its group is nonempty.
proof fn lemma_group_of_nonempty(ts: Seq<TrackResult>, user: Seq<char>, dir: Seq<char>, i: int)
    requires
        0 <= i < ts.len(),
        same_group(ts[i], user, dir),
    ensures
        group_of(ts, user, dir).len() >= 1,
    decreases ts.len(),
{
    if i < ts.len() - 1 {
        assert(ts.drop_last()[i] == ts[i]);
        lemma_group_of_nonempty(ts.drop_last(), user, dir, i);
    }
}

/// Sizes of a group are bounded by the sizes of the whole input.
proof fn lemma_group_sum_bound(ts: Seq<TrackResult>, user: Seq<char>, dir: Seq<char>)
    requires
        forall|i: int| 0 <= i < ts.len() ==> (#[trigger] ts[i]).base.size >= 0,
    ensures
        0 <= sum_sizes(group_of(ts, user, dir)) <= sum_sizes(ts),
    decreases ts.len(),
{
    if ts.len() > 0 {
        assert(forall|i: int|
            0 <= i < ts.len() - 1 ==> (#[trigger] ts.drop_last()[i]).base.size >= 0);
        lemma_group_sum_bound(ts.drop_last(), user, dir);
        assert((#[trigger] ts[ts.len() - 1]).base.size >= 0);
        let rest = group_of(ts.drop_last(), user, dir);
        if same_group(ts.last(), user, dir) {
            assert(rest.push(ts.last()).drop_last() =~= rest);
        }
    }
}

/// A prefix of a track sequence never outweighs the whole.
proof fn lemma_sum_prefix(ts: Seq<TrackResult>, i: int)
    requires
        0 <= i <= ts.len(),
        forall|j: int| 0 <= j < ts.len() ==> (#[trigger] ts[j]).base.size >= 0,
    ensures
        sum_sizes(ts.subrange(0, i)) <= sum_sizes(ts),
        sum_sizes(ts.subrange(0, i)) >= 0,
    decreases ts.len(),
{
    if i == ts.len() {
        assert(ts.subrange(0, i) =~= ts);
        if ts.len() > 0 {
            assert(forall|j: int|
                0 <= j < ts.len() - 1 ==> (#[trigger] ts.drop_last()[j]).base.size >= 0);
            lemma_sum_prefix(ts.drop_last(), ts.len() - 1);
        }
    } else {
        assert(forall|j: int|
            0 <= j < ts.len() - 1 ==> (#[trigger] ts.drop_last()[j]).base.size >= 0);
        lemma_sum_prefix(ts.drop_last(), i);
        assert(ts.drop_last().subrange(0, i) =~= ts.subrange(0, i));
    }
}

/// Sum the byte sizes of a group of tracks.
fn total_size_of(ts: &Vec<TrackResult>) -> (r: i64)
    requires
        forall|i: int| 0 <= i < ts@.len() ==> (#[trigger] ts@[i]).base.size >= 0,
        sum_sizes(ts@) <= i64::MAX,
    ensures
        r == sum_sizes(ts@),
        r >= 0,
{
    let mut acc: i64 = 0;
    let mut i: usize = 0;
    while i < ts.len()
        invariant
            0 <= i <= ts@.len(),
            forall|j: int| 0 <= j < ts@.len() ==> (#[trigger] ts@[j]).base.size >= 0,
            sum_sizes(ts@) <= i64::MAX,
            acc == sum_sizes(ts@.subrange(0, i as int)),
            acc >= 0,
        decreases ts@.len() - i,
    {
        proof {
            assert(ts@.subrange(0, i + 1).drop_last() =~= ts@.subrange(0, i as int));
            assert(ts@.subrange(0, i + 1).last() == ts@[i as int]);
            lemma_sum_prefix(ts@, i + 1);
        }
        acc = acc + ts[i].base.size;
        i += 1;
    }
    proof {
        assert(ts@.subrange(0, ts@.len() as int) =~= ts@);
    }
    acc
}

/// The views of a vector of strings.
pub open spec fn views(ss: Seq<String>) -> Seq<Seq<char>> {
    ss.map_values(|s: String| s@)
}

/// The quality labels of a group of tracks, as owned strings.
fn qualities_of(ts: &Vec<TrackResult>) -> (r: Vec<String>)
    ensures
        views(r@) == qualities(ts@),
{
    let mut out: Vec<String> = Vec::new();
    let mut i: usize = 0;
    while i < ts.len()
        invariant
            0 <= i <= ts@.len(),
            out@.len() == i,
            forall|j: int| 0 <= j < i ==> (#[trigger] out@[j])@ == quality_spec(ts@[j].base.filename@),
        decreases ts@.len() - i,
    {
        out.push(ts[i].base.quality());
        i += 1;
    }
    proof {
        assert(views(out@) =~= qualities(ts@));
    }
    out
}

/// How many labels of `qs` read as `q`.
fn count_quality(qs: &Vec<String>, q: &str) -> (r: usize)
    ensures
        r == count_q(views(qs@), q@),
{
    let mut cnt: usize = 0;
    let mut i: usize = 0;
    while i < qs.len()
        invariant
            0 <= i <= qs@.len(),
            cnt == count_q(views(qs@.subrange(0, i as int)), q@),
            cnt <= i,
        decreases qs@.len() - i,
    {
        proof {
            assert(views(qs@.subrange(0, i + 1)).drop_last() =~= views(qs@.subrange(0, i as int)));
            assert(views(qs@.subrange(0, i + 1)).last() == qs@[i as int]@);
        }
        if str_eq(qs[i].as_str(), q) {
            cnt += 1;
        }
        i += 1;
    }
    proof {
        assert(qs@.subrange(0, qs@.len() as int) =~= qs@);
    }
    cnt
}

/// The most frequent label of a nonempty list, ties broken in favour
/// of the earliest occurrence.
fn dominant_of(qs: &Vec<String>) -> (r: String)
    requires
        qs@.len() >= 1,
    ensures
        is_dominant(r@, views(qs@)),
        exists|i: int| 0 <= i < qs@.len() && qs@[i]@ == r@,
{
    let mut best: usize = 0;
    let mut best_cnt = count_quality(qs, qs[0].as_str());
    let mut i: usize = 1;
    while i < qs.len()
        invariant
            1 <= i <= qs@.len(),
            best < i,
            best_cnt == count_q(views(qs@), qs@[best as int]@),
            forall|j: int| 0 <= j < i ==> count_q(views(qs@), (#[trigger] qs@[j])@) <= best_cnt,
        decreases qs@.len() - i,
    {
        let cnt = count_quality(qs, qs[i].as_str());
        if cnt > best_cnt {
            best = i;
            best_cnt = cnt;
        }
        i += 1;
    }
    proof {
        assert(views(qs@)[best as int] == qs@[best as int]@);
        assert(forall|j: int|
            0 <= j < views(qs@).len() ==> views(qs@)[j] == (#[trigger] qs@[j])@);
    }
    qs[best].clone()
}

/// One peer-and-directory key drawn from the tracks, in first-seen
/// order.
fn keys_contain(keys: &Vec<(String, String)>, user: &str, dir: &str) -> (r: bool)
    ensures
        r == exists|k: int|
            0 <= k < keys@.len() && (#[trigger] keys@[k]).0@ == user@ && keys@[k].1@ == dir@,
{
    let mut i: usize = 0;
    while i < keys.len()
        invariant
            0 <= i <= keys@.len(),
            forall|k: int|
                0 <= k < i ==> !((#[trigger] keys@[k]).0@ == user@ && keys@[k].1@ == dir@),
        decreases keys@.len() - i,
    {
        if str_eq(keys[i].0.as_str(), user) && str_eq(keys[i].1.as_str(), dir) {
            return true;
        }
        i += 1;
    }
    false
}

/// Group scored tracks into album bundles: one bundle per peer and
/// directory, each holding that group's tracks in input order, with
/// counted size, elected dominant quality and peer fields from the
/// group's first track. Bundles of distinct groups never share a key,
/// and every track's group is represented.
pub fn group_albums(tracks: &Vec<TrackResult>) -> (r: Vec<AlbumResult>)
    requires
        forall|i: int| 0 <= i < tracks@.len() ==> (#[trigger] tracks@[i]).base.size >= 0,
        sum_sizes(tracks@) <= i64::MAX,
    ensures
        forall|k: int|
            0 <= k < r@.len() ==> (#[trigger] r@[k]).tracks@ == group_of(
                tracks@,
                r@[k].username@,
                r@[k].album_path@,
            ),
        forall|k: int| 0 <= k < r@.len() ==> album_wf(#[trigger] r@[k]),
        forall|k1: int, k2: int|
            0 <= k1 < k2 < r@.len() ==> !((#[trigger] r@[k1]).username@ == (
            #[trigger] r@[k2]).username@ && r@[k1].album_path@ == r@[k2].album_path@),
        forall|i: int|
            0 <= i < tracks@.len() ==> exists|k: int|
                0 <= k < r@.len() && same_group(#[trigger] tracks@[i], r@[k].username@, r@[k].album_path@),
        forall|k1: int, k2: int|
            0 <= k1 < k2 < r@.len() ==> first_member(
                tracks@,
                (#[trigger] r@[k1]).username@,
                r@[k1].album_path@,
            ) < first_member(tracks@, (#[trigger] r@[k2]).username@, r@[k2].album_path@),
{
    let mut keys: Vec<(String, String)> = Vec::new();
    let mut i: usize = 0;
    while i < tracks.len()
        invariant
            0 <= i <= tracks@.len(),
            forall|k1: int, k2: int|
                0 <= k1 < k2 < keys@.len() ==> !((#[trigger] keys@[k1]).0@ == (
                #[trigger] keys@[k2]).0@ && keys@[k1].1@ == keys@[k2].1@),
            forall|j: int|
                0 <= j < i ==> exists|k: int|
                    0 <= k < keys@.len() && same_group(
                        #[trigger] tracks@[j],
                        keys@[k].0@,
                        keys@[k].1@,
                    ),
            forall|k: int|
                0 <= k < keys@.len() ==> exists|j: int|
                    0 <= j < tracks@.len() && same_group(
                        tracks@[j],
                        (#[trigger] keys@[k]).0@,
                        keys@[k].1@,
                    ),
            forall|k: int|
                0 <= k < keys@.len() ==> first_member(
                    tracks@,
                    (#[trigger] keys@[k]).0@,
                    keys@[k].1@,
                ) < i,
            forall|k1: int, k2: int|
                0 <= k1 < k2 < keys@.len() ==> first_member(
                    tracks@,
                    (#[trigger] keys@[k1]).0@,
                    keys@[k1].1@,
                ) < first_member(tracks@, (#[trigger] keys@[k2]).0@, keys@[k2].1@),
        decreases tracks@.len() - i,
    {
        let ghost prev = keys@;
        let dir = dir_string(tracks[i].base.filename.as_str());
        if !keys_contain(&keys, tracks[i].base.username.as_str(), dir.as_str()) {
            let user = tracks[i].base.username.clone();
            keys.push((user, dir));
            proof {
                assert(keys@.len() == prev.len() + 1);
                assert(forall|k: int| 0 <= k < prev.len() ==> keys@[k] == prev[k]);
                assert(same_group(
                    tracks@[i as int],
                    keys@[keys@.len() - 1].0@,
                    keys@[keys@.len() - 1].1@,
                ));
                let nu = keys@[keys@.len() - 1].0@;
                let nd = keys@[keys@.len() - 1].1@;
                assert forall|j: int| 0 <= j < i implies !same_group(tracks@[j], nu, nd) by {
                    if same_group(tracks@[j], nu, nd) {
                        let k = choose|k: int|
                            0 <= k < prev.len() && same_group(tracks@[j], prev[k].0@, prev[k].1@);
                        assert(prev[k].0@ == nu && prev[k].1@ == nd);
                    }
                }
                lemma_first_member_unique(tracks@, nu, nd, i as int);
                assert forall|j: int| 0 <= j < i + 1 implies exists|k: int|
                    0 <= k < keys@.len() && same_group(
                        #[trigger] tracks@[j],
                        keys@[k].0@,
                        keys@[k].1@,
                    ) by {
                    if j < i {
                        let k = choose|k: int|
                            0 <= k < prev.len() && same_group(tracks@[j], prev[k].0@, prev[k].1@);
                        assert(same_group(tracks@[j], keys@[k].0@, keys@[k].1@));
                    } else {
                        assert(same_group(
                            tracks@[j],
                            keys@[keys@.len() - 1].0@,
                            keys@[keys@.len() - 1].1@,
                        ));
                    }
                }
            }
        } else {
            proof {
                let k = choose|k: int|
                    0 <= k < keys@.len() && (#[trigger] keys@[k]).0@ == tracks@[i as int].base.username@
                        && keys@[k].1@ == dir@;
                assert(same_group(tracks@[i as int], keys@[k].0@, keys@[k].1@));
            }
        }
        i += 1;
    }

    let mut albums: Vec<AlbumResult> = Vec::new();
    let mut k: usize = 0;
    while k < keys.len()
        invariant
            0 <= k <= keys@.len(),
            albums@.len() == k,
            forall|i: int| 0 <= i < tracks@.len() ==> (#[trigger] tracks@[i]).base.size >= 0,
            sum_sizes(tracks@) <= i64::MAX,
            forall|a: int|
                0 <= a < k ==> (#[trigger] albums@[a]).username@ == keys@[a].0@ && albums@[a].album_path@
                    == keys@[a].1@,
            forall|a: int|
                0 <= a < k ==> (#[trigger] albums@[a]).tracks@ == group_of(
                    tracks@,
                    albums@[a].username@,
                    albums@[a].album_path@,
                ),
            forall|a: int| 0 <= a < k ==> album_wf(#[trigger] albums@[a]),
            forall|k1: int, k2: int|
                0 <= k1 < k2 < keys@.len() ==> !((#[trigger] keys@[k1]).0@ == (
                #[trigger] keys@[k2]).0@ && keys@[k1].1@ == keys@[k2].1@),
            forall|k2: int|
                0 <= k2 < keys@.len() ==> exists|j: int|
                    0 <= j < tracks@.len() && same_group(
                        tracks@[j],
                        (#[trigger] keys@[k2]).0@,
                        keys@[k2].1@,
                    ),
        decreases keys@.len() - k,
    {
        let user = keys[k].0.clone();
        let dir = keys[k].1.clone();
        let group = collect_group(tracks, user.as_str(), dir.as_str());
        proof {
            assert(exists|j: int|
                0 <= j < tracks@.len() && same_group(
                    tracks@[j],
                    (#[trigger] keys@[k as int]).0@,
                    keys@[k as int].1@,
                ));
            let j = choose|j: int|
                0 <= j < tracks@.len() && same_group(
                    tracks@[j],
                    keys@[k as int].0@,
                    keys@[k as int].1@,
                );
            lemma_group_of_nonempty(tracks@, user@, dir@, j);
            lemma_group_sum_bound(tracks@, user@, dir@);
            lemma_group_of_members(tracks@, user@, dir@);
        }
        let qs = qualities_of(&group);
        proof {
            assert(qs@.len() == views(qs@).len());
            assert(qualities(group@).len() == group@.len());
        }
        let dq = dominant_of(&qs);
        let total = total_size_of(&group);
        let title = file_name_string(dir.as_str());
        let artist = clone_opt_string(&group[0].artist);
        let has_free_upload_slot = group[0].base.has_free_upload_slot;
        let upload_speed = group[0].base.upload_speed;
        let queue_length = group[0].base.queue_length;
        let track_count = group.len();
        let album = AlbumResult {
            username: user,
            album_path: dir,
            album_title: title,
            artist,
            track_count,
            total_size: total,
            tracks: group,
            dominant_quality: dq,
            year: None,
            has_free_upload_slot,
            upload_speed,
            queue_length,
        };
        proof {
            lemma_group_of_members(tracks@, album.username@, album.album_path@);
            assert(album_wf(album));
        }
        let ghost prev_albums = albums@;
        albums.push(album);
        proof {
            assert(forall|a: int| 0 <= a < prev_albums.len() ==> albums@[a] == prev_albums[a]);
        }
        k += 1;
    }
    proof {
        assert forall|i: int| 0 <= i < tracks@.len() implies exists|kk: int|
            0 <= kk < albums@.len() && same_group(
                #[trigger] tracks@[i],
                albums@[kk].username@,
                albums@[kk].album_path@,
            ) by {
            let kk = choose|kk: int|
                0 <= kk < keys@.len() && same_group(tracks@[i], keys@[kk].0@, keys@[kk].1@);
            assert(albums@[kk].username@ == keys@[kk].0@ && albums@[kk].album_path@
                == keys@[kk].1@);
            assert(same_group(tracks@[i], albums@[kk].username@, albums@[kk].album_path@));
        }
        assert forall|k1: int, k2: int| 0 <= k1 < k2 < albums@.len() implies !((
        #[trigger] albums@[k1]).username@ == (#[trigger] albums@[k2]).username@
            && albums@[k1].album_path@ == albums@[k2].album_path@) by {
            assert(albums@[k1].username@ == keys@[k1].0@ && albums@[k1].album_path@
                == keys@[k1].1@);
            assert(albums@[k2].username@ == keys@[k2].0@ && albums@[k2].album_path@
                == keys@[k2].1@);
        }
        assert forall|k1: int, k2: int| 0 <= k1 < k2 < albums@.len() implies first_member(
            tracks@,
            (#[trigger] albums@[k1]).username@,
            albums@[k1].album_path@,
        ) < first_member(tracks@, (#[trigger] albums@[k2]).username@, albums@[k2].album_path@) by {
            assert(albums@[k1].username@ == keys@[k1].0@ && albums@[k1].album_path@
                == keys@[k1].1@);
            assert(albums@[k2].username@ == keys@[k2].0@ && albums@[k2].album_path@
                == keys@[k2].1@);
            assert(first_member(tracks@, keys@[k1].0@, keys@[k1].1@) < first_member(
                tracks@,
                keys@[k2].0@,
                keys@[k2].1@,
            ));
        }
    }
    albums
}

/// Every member of a group satisfies the group predicate, and the
/// group's sizes come from the input.
proof fn lemma_group_of_members(ts: Seq<TrackResult>, user: Seq<char>, dir: Seq<char>)
    requires
        forall|i: int| 0 <= i < ts.len() ==> (#[trigger] ts[i]).base.size >= 0,
    ensures
        forall|i: int|
            0 <= i < group_of(ts, user, dir).len() ==> same_group(
                #[trigger] group_of(ts, user, dir)[i],
                user,
                dir,
            ) && group_of(ts, user, dir)[i].base.size >= 0,
    decreases ts.len(),
{
    if ts.len() > 0 {
        assert(forall|i: int|
            0 <= i < ts.len() - 1 ==> (#[trigger] ts.drop_last()[i]).base.size >= 0);
        lemma_group_of_members(ts.drop_last(), user, dir);
    }
}


/// The subsequence of albums carrying one given score, in order.
pub open spec fn score_class(albums: Seq<AlbumResult>, s: int) -> Seq<AlbumResult>
    decreases albums.len(),
{
    if albums.len() == 0 {
        Seq::empty()
    } else {
        let rest = score_class(albums.drop_last(), s);
        if album_score(albums.last()) == s {
            rest.push(albums.last())
        } else {
            rest
        }
    }
}

/// A score class distributes over concatenation.
proof fn lemma_class_concat(a: Seq<AlbumResult>, b: Seq<AlbumResult>, s: int)
    ensures
        score_class(a + b, s) == score_class(a, s) + score_class(b, s),
    decreases b.len(),
{
    if b.len() == 0 {
        assert(a + b =~= a);
        assert(score_class(a, s) + score_class(b, s) =~= score_class(a, s));
    } else {
        lemma_class_concat(a, b.drop_last(), s);
        assert((a + b).drop_last() =~= a + b.drop_last());
        assert((a + b).last() == b.last());
        if album_score(b.last()) == s {
            assert((score_class(a, s) + score_class(b.drop_last(), s)).push(b.last())
                =~= score_class(a, s) + score_class(b.drop_last(), s).push(b.last()));
        }
    }
}

/// A sequence without the score has an empty class for it.
proof fn lemma_class_none(m: Seq<AlbumResult>, s: int)
    requires
        forall|x: int| 0 <= x < m.len() ==> album_score(#[trigger] m[x]) != s,
    ensures
        score_class(m, s) == Seq::<AlbumResult>::empty(),
    decreases m.len(),
{
    if m.len() > 0 {
        assert(forall|x: int|
            0 <= x < m.len() - 1 ==> album_score(#[trigger] m.drop_last()[x]) != s);
        lemma_class_none(m.drop_last(), s);
        assert(album_score(m[m.len() - 1]) != s);
    }
}

/// The score class of a single album.
proof fn lemma_class_single(e: AlbumResult, s: int)
    ensures
        score_class(seq![e], s) == (if album_score(e) == s {
            seq![e]
        } else {
            Seq::<AlbumResult>::empty()
        }),
{
    reveal_with_fuel(score_class, 2);
    assert(seq![e].drop_last() =~= Seq::<AlbumResult>::empty());
    assert(seq![e].last() == e);
    if album_score(e) == s {
        assert(score_class(seq![e], s) =~= seq![e]);
    } else {
        assert(score_class(seq![e], s) =~= Seq::<AlbumResult>::empty());
    }
}

/// Moving one element left over a run of strictly lower-scored
/// neighbours never changes any score class: this is why the
/// insertion sort below is stable.
proof fn lemma_class_remove_insert(pre: Seq<AlbumResult>, i: int, j: int)
    requires
        0 <= j < i < pre.len(),
        forall|x: int| j <= x < i ==> album_score(#[trigger] pre[x]) < album_score(pre[i]),
    ensures
        forall|s: int|
            score_class(#[trigger] pre.remove(i).insert(j, pre[i]), s) == score_class(pre, s),
{
    let e = pre[i];
    let a = pre.subrange(0, j);
    let m = pre.subrange(j, i);
    let t = pre.subrange(i + 1, pre.len() as int);
    let cur = pre.remove(i).insert(j, e);
    assert(pre =~= a + m + seq![e] + t);
    assert(cur =~= a + seq![e] + m + t);
    assert forall|s: int|
        score_class(#[trigger] pre.remove(i).insert(j, e), s) == score_class(pre, s) by {
        lemma_class_concat(a + m + seq![e], t, s);
        lemma_class_concat(a + m, seq![e], s);
        lemma_class_concat(a, m, s);
        lemma_class_concat(a + seq![e] + m, t, s);
        lemma_class_concat(a + seq![e], m, s);
        lemma_class_concat(a, seq![e], s);
        lemma_class_single(e, s);
        if s == album_score(e) {
            assert(forall|x: int| 0 <= x < m.len() ==> album_score(#[trigger] m[x]) != s);
            lemma_class_none(m, s);
            assert(score_class(cur, s) =~= score_class(pre, s));
        } else {
            assert(score_class(cur, s) =~= score_class(pre, s));
        }
    }
}

/// Sort album bundles by descending score, stably: the result is a
/// permutation of the input, no lower-scored bundle precedes a
/// higher-scored one, and the bundles of each score keep their
/// original relative order.
pub fn sort_albums_by_score(albums: &mut Vec<AlbumResult>)
    ensures
        final(albums)@.to_multiset() == old(albums)@.to_multiset(),
        final(albums)@.len() == old(albums)@.len(),
        forall|i: int, j: int|
            0 <= i < j < final(albums)@.len() ==> album_score(#[trigger] final(albums)@[i])
                >= album_score(#[trigger] final(albums)@[j]),
        forall|s: int| #[trigger] score_class(final(albums)@, s) == score_class(old(albums)@, s),
{
    let mut i: usize = 1;
    while i < albums.len()
        invariant
            1 <= i <= albums@.len() || albums@.len() == 0,
            albums@.to_multiset() == old(albums)@.to_multiset(),
            albums@.len() == old(albums)@.len(),
            forall|s: int| #[trigger] score_class(albums@, s) == score_class(old(albums)@, s),
            forall|a: int, b: int|
                0 <= a < b < i ==> album_score(#[trigger] albums@[a]) >= album_score(
                    #[trigger] albums@[b],
                ),
        decreases albums@.len() - i,
    {
        let item_score = albums[i].quality_score();
        let mut j: usize = i;
        while j > 0 && albums[j - 1].quality_score() < item_score
            invariant
                0 <= j <= i < albums@.len(),
                item_score == album_score(albums@[i as int]),
                forall|a: int, b: int|
                    0 <= a < b < i ==> album_score(#[trigger] albums@[a]) >= album_score(
                        #[trigger] albums@[b],
                    ),
                forall|a: int| j <= a < i ==> album_score(#[trigger] albums@[a]) < item_score,
            decreases j,
        {
            j -= 1;
        }
        if j < i {
            let ghost pre = albums@;
            let item = albums.remove(i);
            albums.insert(j, item);
            proof {
                broadcast use vstd::seq_lib::group_to_multiset_ensures;

                to_multiset_remove(pre, i as int);
                to_multiset_insert(pre.remove(i as int), j as int, item);
                let cur = albums@;
                assert(cur == pre.remove(i as int).insert(j as int, item));
                assert(pre.contains(pre[i as int]));
                assert(pre.to_multiset().count(pre[i as int]) > 0);
                assert(cur.to_multiset() =~= pre.to_multiset());
                lemma_class_remove_insert(pre, i as int, j as int);
                assert forall|s: int| #[trigger] score_class(cur, s) == score_class(
                    old(albums)@,
                    s,
                ) by {
                    assert(score_class(pre.remove(i as int).insert(j as int, pre[i as int]), s)
                        == score_class(pre, s));
                    assert(score_class(pre, s) == score_class(old(albums)@, s));
                }
                assert forall|a: int, b: int|
                    0 <= a < b < i + 1 implies album_score(#[trigger] cur[a]) >= album_score(
                    #[trigger] cur[b],
                ) by {
                    assert(forall|x: int|
                        0 <= x < j ==> #[trigger] cur[x] == pre[x]);
                    assert(cur[j as int] == item);
                    assert(forall|x: int|
                        j < x < i + 1 ==> #[trigger] cur[x] == pre[x - 1]);
                    if j > 0 {
                        assert(album_score(cur[j - 1]) >= album_score(item));
                    }
                }
            }
        }
        i += 1;
    }
}

} // verus!
