//! Configuration, settings, authentication and metadata helpers.

use soulbeet::auth::Claims;
use soulbeet::config::{parse_bool_value, AppConfig};
use soulbeet::download::DownloadQuery;
use soulbeet::import::import_args;
use soulbeet::lastfm::{album_search_hit, album_with_tracks, format_duration, generate_lastfm_id,
    parse_lastfm_id, track_search_hit, LastFmAlbum, LastFmAlbumInfo, LastFmAlbumTrack,
    LastFmImage, LastFmTrack, LastFmTrackArtist, LastFmTrackList, LastFmTracks, LastFmWiki};
use soulbeet::metadata::Provider;
use soulbeet::musicbrainz::Track;
use soulbeet::services::{available_download_backends, available_metadata_providers};
use soulbeet::settings::{UpdateUserSettings, UserSettings};

#[test]
fn boolean_settings_parse_case_insensitively() {
    assert!(parse_bool_value("true", false));
    assert!(parse_bool_value("YES", false));
    assert!(parse_bool_value("1", false));
    assert!(!parse_bool_value("False", true));
    assert!(!parse_bool_value("no", true));
    assert!(!parse_bool_value("0", true));
    assert!(parse_bool_value("whatever", true));
    assert!(!parse_bool_value("whatever", false));
}

#[test]
fn missing_configuration_values_take_their_defaults() {
    let c = AppConfig::from_values(None, None, None, None, None, None, None);
    assert_eq!(c.database_url(), "sqlite:soulbeet.db");
    assert_eq!(c.secret_key(), "secret");
    assert_eq!(c.download_path(), "/downloads");
    assert_eq!(c.beets_config(), "beets_config.yaml");
    assert!(!c.is_album_mode());
    assert_eq!(c.port, 9765);
    assert_eq!(c.ip, "0.0.0.0");
}

#[test]
fn supplied_configuration_values_win() {
    let c = AppConfig::from_values(
        Some(String::from("sqlite:other.db")),
        Some(String::from("a-real-key")),
        Some(String::from("/music")),
        Some(String::from("beets.yaml")),
        Some(String::from("yes")),
        Some(8080),
        Some(String::from("127.0.0.1")),
    );
    assert_eq!(c.database_url(), "sqlite:other.db");
    assert_eq!(c.download_path(), "/music");
    assert!(c.is_album_mode());
    assert_eq!(c.port, 8080);
}

#[test]
fn access_and_refresh_claims_have_their_lifetimes() {
    let a = Claims::access(String::from("u1"), String::from("alice"), 1_000_000);
    assert_eq!(a.iat, 1_000_000);
    assert_eq!(a.exp, 1_003_600);
    assert_eq!(a.purpose, "access");
    let r = Claims::refresh(String::from("u1"), String::from("alice"), 1_000_000);
    assert_eq!(r.exp, 1_604_800);
    assert_eq!(r.purpose, "refresh");
    assert!(a.purpose_matches("access"));
    assert!(!a.purpose_matches("refresh"));
}

#[test]
fn user_settings_default_and_merge() {
    let s = UserSettings::defaults(String::from("u1"));
    assert_eq!(s.default_metadata_provider.as_deref(), Some("musicbrainz"));
    assert_eq!(s.last_search_type.as_deref(), Some("album"));
    let merged = s.merged(UpdateUserSettings {
        default_metadata_provider: Some(String::from("lastfm")),
        last_search_type: None,
    });
    assert_eq!(merged.user_id, "u1");
    assert_eq!(merged.default_metadata_provider.as_deref(), Some("lastfm"));
    assert_eq!(merged.last_search_type.as_deref(), Some("album"));
}

#[test]
fn provider_identifiers_round_trip() {
    assert_eq!(Provider::parse("MusicBrainz"), Some(Provider::MusicBrainz));
    assert_eq!(Provider::parse("lastfm"), Some(Provider::LastFm));
    assert_eq!(Provider::parse("unknown"), None);
    assert_eq!(Provider::MusicBrainz.as_str(), "musicbrainz");
    assert_eq!(Provider::LastFm.as_str(), "lastfm");
    assert_eq!(Provider::default(), Provider::MusicBrainz);
}

#[test]
fn backend_registries_list_what_this_build_offers() {
    let m = available_metadata_providers();
    assert_eq!(m, vec![("musicbrainz", "MusicBrainz"), ("lastfm", "Last.fm")]);
    let d = available_download_backends();
    assert_eq!(d, vec![("slskd", "Soulseek")]);
}

fn image(url: &str, size: &str) -> LastFmImage {
    LastFmImage { url: String::from(url), size: String::from(size) }
}

#[test]
fn largest_image_prefers_extralarge() {
    let images = vec![
        image("s.jpg", "small"),
        image("xl.jpg", "extralarge"),
        image("l.jpg", "large"),
    ];
    assert_eq!(LastFmImage::get_largest(&images).as_deref(), Some("xl.jpg"));
}

#[test]
fn an_empty_url_falls_through_to_the_next_size() {
    let images = vec![image("", "extralarge"), image("l.jpg", "large")];
    assert_eq!(LastFmImage::get_largest(&images).as_deref(), Some("l.jpg"));
}

#[test]
fn unlabelled_images_still_yield_a_cover() {
    let images = vec![image("", "odd"), image("any.jpg", "odd")];
    assert_eq!(LastFmImage::get_largest(&images).as_deref(), Some("any.jpg"));
    let none: Vec<LastFmImage> = vec![image("", "odd")];
    assert_eq!(LastFmImage::get_largest(&none), None);
}

#[test]
fn durations_format_as_zero_padded_minutes_and_seconds() {
    assert_eq!(format_duration(Some(0)).as_deref(), Some("00:00"));
    assert_eq!(format_duration(Some(65)).as_deref(), Some("01:05"));
    assert_eq!(format_duration(Some(3600)).as_deref(), Some("60:00"));
    assert_eq!(format_duration(Some(7265)).as_deref(), Some("121:05"));
    assert_eq!(format_duration(None), None);
}

#[test]
fn synthetic_identifiers_lower_case_their_parts() {
    assert_eq!(generate_lastfm_id("The Artist", "Some Album"), "lastfm:the artist:some album");
}

#[test]
fn track_lists_flatten_single_and_multiple() {
    let single = LastFmTrackList::Single(Box::new(LastFmAlbumTrack {
        name: String::from("One"),
        duration: Some(61),
        mbid: None,
        artist: None,
        attr: None,
    }));
    let v = single.into_vec();
    assert_eq!(v.len(), 1);
    assert_eq!(v[0].name, "One");
    let multiple = LastFmTrackList::Multiple(Vec::new());
    assert_eq!(multiple.into_vec().len(), 0);
}

#[test]
fn a_single_track_query_has_no_album() {
    let track = Track {
        id: String::from("t1"),
        title: String::from("Title"),
        artist: String::from("Artist"),
        album_id: None,
        album_title: None,
        release_date: None,
        duration: None,
    };
    let q = DownloadQuery::from(track);
    assert!(q.album.is_none());
    assert_eq!(q.tracks.len(), 1);
    assert_eq!(q.tracks[0].title, "Title");
}

#[test]
fn importer_arguments_stand_in_order() {
    let sources = vec![String::from("/dl/a"), String::from("/dl/b")];
    let args = import_args("beets.yaml", "/library", &sources, false);
    assert_eq!(
        args,
        vec!["-c", "beets.yaml", "import", "-q", "-d", "/library", "/dl/a", "/dl/b"]
    );
    let args = import_args("beets.yaml", "/library", &sources, true);
    assert_eq!(args.last().map(|s| s.as_str()), Some("-s"));
}

#[test]
fn synthetic_identifiers_split_back_into_their_parts() {
    let parts = parse_lastfm_id("lastfm:the artist:the album");
    assert_eq!(
        parts,
        Some((String::from("the artist"), String::from("the album")))
    );
    assert_eq!(parse_lastfm_id("lastfm:no-album-part"), None);
    assert_eq!(parse_lastfm_id("mbid-1234"), None);
    assert_eq!(parse_lastfm_id("lastfm:a:b:c"), Some((String::from("a"), String::from("b:c"))));
}

#[test]
fn album_hits_prefer_a_real_identifier() {
    let hit = album_search_hit(LastFmAlbum {
        name: String::from("Album"),
        artist: String::from("Artist"),
        url: String::from("http://example"),
        mbid: Some(String::from("mb-1")),
        image: vec![],
    });
    assert_eq!(hit.id, "mb-1");
    assert_eq!(hit.mbid.as_deref(), Some("mb-1"));
    assert_eq!(hit.cover_url, None);

    let hit = album_search_hit(LastFmAlbum {
        name: String::from("Album"),
        artist: String::from("Artist"),
        url: String::from("http://example"),
        mbid: Some(String::from("")),
        image: vec![],
    });
    assert_eq!(hit.id, "lastfm:artist:album");
    assert_eq!(hit.mbid, None);
}

#[test]
fn track_hits_carry_no_album_context() {
    let hit = track_search_hit(LastFmTrack {
        name: String::from("Song"),
        artist: String::from("Artist"),
        url: String::from("http://example"),
        mbid: None,
        listeners: Some(String::from("10")),
    });
    assert_eq!(hit.id, "lastfm:artist:song");
    assert_eq!(hit.album_id, None);
    assert_eq!(hit.duration, None);
}

#[test]
fn album_lookups_map_into_albums_with_tracks() {
    let info = LastFmAlbumInfo {
        name: String::from("The Album"),
        artist: String::from("The Artist"),
        mbid: Some(String::from("mb-album")),
        url: String::from("http://example"),
        image: vec![],
        tracks: Some(LastFmTracks {
            track: LastFmTrackList::Multiple(vec![
                LastFmAlbumTrack {
                    name: String::from("One"),
                    duration: Some(61),
                    mbid: Some(String::from("mb-one")),
                    artist: None,
                    attr: None,
                },
                LastFmAlbumTrack {
                    name: String::from("Two"),
                    duration: None,
                    mbid: Some(String::from("")),
                    artist: Some(LastFmTrackArtist { name: String::from("Guest") }),
                    attr: None,
                },
            ]),
        }),
        wiki: Some(LastFmWiki { published: Some(String::from("01 Jan 2001")) }),
    };
    let r = album_with_tracks("lastfm:the artist:the album", info);
    assert_eq!(r.album.id, "lastfm:the artist:the album");
    assert_eq!(r.album.title, "The Album");
    assert_eq!(r.album.mbid.as_deref(), Some("mb-album"));
    assert_eq!(r.album.release_date.as_deref(), Some("01 Jan 2001"));
    assert_eq!(r.tracks.len(), 2);
    assert_eq!(r.tracks[0].id, "lastfm:the artist:one");
    assert_eq!(r.tracks[0].artist, "The Artist");
    assert_eq!(r.tracks[0].duration.as_deref(), Some("01:01"));
    assert_eq!(r.tracks[0].mbid.as_deref(), Some("mb-one"));
    assert_eq!(r.tracks[0].release_mbid.as_deref(), Some("mb-album"));
    assert_eq!(r.tracks[1].artist, "Guest");
    assert_eq!(r.tracks[1].mbid, None);
    assert_eq!(r.tracks[1].album_title.as_deref(), Some("The Album"));
}
