//! Scoring and filename-inference behaviour of the matcher.

use soulbeet::album::{group_albums, sort_albums_by_score};
use soulbeet::listing::SearchResult;
use soulbeet::parse::TrackResult;

fn listing(filename: &str) -> SearchResult {
    SearchResult {
        username: String::from("peer"),
        filename: String::from(filename),
        size: 1_000_000,
        bitrate: None,
        duration: None,
        has_free_upload_slot: false,
        upload_speed: 0,
        queue_length: 0,
    }
}

#[test]
fn quality_is_the_lowercased_extension() {
    assert_eq!(listing("Music/Album/01 - Song.FLAC").quality(), "flac");
    assert_eq!(listing("a\\b\\song.Mp3").quality(), "mp3");
    assert_eq!(listing("song.ogg").quality(), "ogg");
}

#[test]
fn quality_without_extension_is_unknown() {
    assert_eq!(listing("Music/Album/song").quality(), "unknown");
    assert_eq!(listing("Music/Album/.hidden").quality(), "unknown");
}

#[test]
fn flac_with_every_bonus_clamps_to_one_point() {
    let mut l = listing("x/y/a.flac");
    l.bitrate = Some(320);
    l.has_free_upload_slot = true;
    l.upload_speed = 150;
    l.queue_length = 2;
    assert_eq!(l.quality_score(), 100);
}

#[test]
fn wma_with_every_bonus_earns_base_plus_35() {
    let mut l = listing("x/y/a.wma");
    l.bitrate = Some(320);
    l.has_free_upload_slot = true;
    l.upload_speed = 101;
    l.queue_length = 10;
    assert_eq!(l.quality_score(), 50 + 20 + 10 + 5);
}

#[test]
fn unknown_extension_scores_from_base_30() {
    let l = listing("x/y/a.xyz");
    assert_eq!(l.quality_score(), 30);
    let mut better = listing("x/y/a.xyz");
    better.bitrate = Some(320);
    assert_eq!(better.quality_score(), 50);
}

#[test]
fn bitrate_tiers_adjust_the_score() {
    let mut l = listing("a.mp3");
    l.bitrate = Some(320);
    assert_eq!(l.quality_score(), 100);
    l.bitrate = Some(256);
    assert_eq!(l.quality_score(), 90);
    l.bitrate = Some(200);
    assert_eq!(l.quality_score(), 80);
    l.bitrate = Some(127);
    assert_eq!(l.quality_score(), 60);
}

#[test]
fn score_has_no_lower_clamp_shelter() {
    let mut l = listing("a.xyz");
    l.bitrate = Some(64);
    l.queue_length = 50;
    assert_eq!(l.quality_score(), 0);
}

#[test]
fn deep_queue_and_slow_peer_lose_points() {
    let mut l = listing("a.flac");
    l.queue_length = 11;
    assert_eq!(l.quality_score(), 90);
    l.upload_speed = 101;
    assert_eq!(l.quality_score(), 95);
    l.has_free_upload_slot = true;
    assert_eq!(l.quality_score(), 100);
}

#[test]
fn numbered_artist_title_pattern_parses() {
    let t = TrackResult::new(listing("Music/Album/01 - Artist - Title.flac"));
    assert_eq!(t.track_number, Some(1));
    assert_eq!(t.artist.as_deref(), Some("Artist"));
    assert_eq!(t.title.as_deref(), Some("Title"));
}

#[test]
fn artist_title_pattern_parses() {
    let t = TrackResult::new(listing("Artist - Title.mp3"));
    assert_eq!(t.artist.as_deref(), Some("Artist"));
    assert_eq!(t.title.as_deref(), Some("Title"));
    assert_eq!(t.track_number, None);
}

#[test]
fn unmatched_stem_falls_back_to_title_only() {
    let t = TrackResult::new(listing("weird_name.mp3"));
    assert_eq!(t.title.as_deref(), Some("weird_name"));
    assert_eq!(t.artist, None);
    assert_eq!(t.track_number, None);
}

#[test]
fn numbered_title_pattern_parses() {
    let t = TrackResult::new(listing("02. Interlude.flac"));
    assert_eq!(t.track_number, Some(2));
    assert_eq!(t.artist, None);
    assert_eq!(t.title.as_deref(), Some("Interlude"));
}

#[test]
fn en_dash_separates_artist_and_title() {
    let t = TrackResult::new(listing("Artist \u{2013} Title.mp3"));
    assert_eq!(t.artist.as_deref(), Some("Artist"));
    assert_eq!(t.title.as_deref(), Some("Title"));
}

#[test]
fn lazy_artist_takes_the_first_dash() {
    let t = TrackResult::new(listing("03 - A-B - C.flac"));
    assert_eq!(t.track_number, Some(3));
    assert_eq!(t.artist.as_deref(), Some("A"));
    assert_eq!(t.title.as_deref(), Some("B - C"));
}

#[test]
fn huge_track_number_reads_as_none() {
    let t = TrackResult::new(listing("99999999999 - Artist - Title.flac"));
    assert_eq!(t.track_number, None);
    assert_eq!(t.artist.as_deref(), Some("Artist"));
}

#[test]
fn album_is_the_second_to_last_segment() {
    let t = TrackResult::new(listing("Music/Greatest Hits/01 - A - B.flac"));
    assert_eq!(t.album.as_deref(), Some("Greatest Hits"));
}

#[test]
fn short_or_virtual_album_folders_are_ignored()
{
    let t = TrackResult::new(listing("abc/01 - A - B.flac"));
    assert_eq!(t.album, None);
    let t = TrackResult::new(listing("stuff/@eaDir/01 - A - B.flac"));
    assert_eq!(t.album, None);
    let t = TrackResult::new(listing("01 - A - B.flac"));
    assert_eq!(t.album, None);
}

fn album_track(filename: &str, username: &str) -> TrackResult {
    let mut base = listing(filename);
    base.username = String::from(username);
    base.has_free_upload_slot = true;
    base.upload_speed = 150;
    base.queue_length = 2;
    TrackResult::new(base)
}

#[test]
fn ten_flac_tracks_form_one_album_with_count_bonus() {
    let mut tracks = Vec::new();
    for i in 0..10 {
        let name = format!("Music/The Album/{:02} - Artist - Song {}.flac", i + 1, i + 1);
        tracks.push(album_track(&name, "peer"));
    }
    let albums = group_albums(&tracks);
    assert_eq!(albums.len(), 1);
    let a = &albums[0];
    assert_eq!(a.dominant_quality, "flac");
    assert_eq!(a.track_count, 10);
    assert_eq!(a.total_size, 10_000_000);
    assert_eq!(a.album_title, "The Album");
    // flac weight 100, +10 track-count bonus, +10 slot, +5 speed,
    // clamped to the one-point ceiling
    assert_eq!(a.quality_score(), 100);
}

#[test]
fn track_count_bonus_shows_below_the_ceiling() {
    let mut tracks = Vec::new();
    for i in 0..10 {
        let name = format!("Music/The Album/{:02} - Artist - Song {}.wma", i + 1, i + 1);
        let mut base = listing(&name);
        base.username = String::from("peer");
        tracks.push(TrackResult::new(base));
    }
    let albums = group_albums(&tracks);
    assert_eq!(albums.len(), 1);
    // wma weight 50 plus the [8, 20] track-count bonus of 10
    assert_eq!(albums[0].quality_score(), 60);
}

#[test]
fn grouping_splits_by_peer_and_directory() {
    let tracks = vec![
        album_track("Music/Album One/01 - A - B.flac", "alice"),
        album_track("Music/Album One/02 - A - C.flac", "alice"),
        album_track("Music/Album Two/01 - A - D.flac", "alice"),
        album_track("Music/Album One/01 - A - B.flac", "bob"),
    ];
    let albums = group_albums(&tracks);
    assert_eq!(albums.len(), 3);
    assert_eq!(albums[0].username, "alice");
    assert_eq!(albums[0].track_count, 2);
    assert_eq!(albums[1].track_count, 1);
    assert_eq!(albums[2].username, "bob");
}

#[test]
fn dominant_quality_ties_break_first_seen() {
    let tracks = vec![
        album_track("Music/Mixed/01 - A - B.mp3", "peer"),
        album_track("Music/Mixed/02 - A - C.flac", "peer"),
        album_track("Music/Mixed/03 - A - D.mp3", "peer"),
        album_track("Music/Mixed/04 - A - E.flac", "peer"),
    ];
    let albums = group_albums(&tracks);
    assert_eq!(albums.len(), 1);
    assert_eq!(albums[0].dominant_quality, "mp3");
}

#[test]
fn size_helpers_round_down() {
    let tracks = vec![album_track("Music/The Album/01 - A - B.flac", "peer")];
    let mut albums = group_albums(&tracks);
    albums[0].total_size = 3 * 1024 * 1024 + 512 * 1024;
    albums[0].track_count = 2;
    assert_eq!(albums[0].size_mb(), 3);
    assert_eq!(albums[0].average_track_size_mb(), 150);
}

#[test]
fn candidates_sort_by_descending_score() {
    let tracks = vec![
        album_track("Music/Worse/01 - A - B.wma", "peer"),
        album_track("Music/Best/01 - A - B.flac", "peer"),
        album_track("Music/Mid/01 - A - B.ogg", "peer"),
    ];
    let mut albums = group_albums(&tracks);
    sort_albums_by_score(&mut albums);
    assert_eq!(albums[0].dominant_quality, "flac");
    assert_eq!(albums[1].dominant_quality, "ogg");
    assert_eq!(albums[2].dominant_quality, "wma");
}

#[test]
fn equal_scores_keep_their_order() {
    let tracks = vec![
        album_track("Music/First/01 - A - B.mp3", "peer"),
        album_track("Music/Second/01 - A - B.mp3", "peer"),
        album_track("Music/Third/01 - A - B.flac", "peer"),
    ];
    let mut albums = group_albums(&tracks);
    sort_albums_by_score(&mut albums);
    assert_eq!(albums[0].album_title, "Third");
    assert_eq!(albums[1].album_title, "First");
    assert_eq!(albums[2].album_title, "Second");
}

#[test]
fn a_dangling_dash_still_splits_artist_and_title() {
    let t = TrackResult::new(listing("Artist - .mp3"));
    assert_eq!(t.artist.as_deref(), Some("Artist"));
    assert_eq!(t.title.as_deref(), Some(""));
}

#[test]
fn a_broken_track_prefix_falls_back_to_the_artist_pattern() {
    let t = TrackResult::new(listing("1 -- Title.mp3"));
    assert_eq!(t.track_number, None);
    assert_eq!(t.artist.as_deref(), Some("1"));
    assert_eq!(t.title.as_deref(), Some("- Title"));
}

#[test]
fn whitespace_before_a_dash_leaves_an_empty_artist() {
    let t = TrackResult::new(listing(" - Title.mp3"));
    assert_eq!(t.artist.as_deref(), Some(""));
    assert_eq!(t.title.as_deref(), Some("Title"));
}

#[test]
fn a_hidden_file_is_its_own_title() {
    let t = TrackResult::new(listing("Music/Album Dir/.hidden"));
    assert_eq!(t.title.as_deref(), Some(".hidden"));
    assert_eq!(t.artist, None);
    assert_eq!(t.album.as_deref(), Some("Album Dir"));
}
