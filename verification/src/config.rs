//! Application configuration: the values the server reads once at
//! startup, with their defaulting rules. Reading the environment is
//! the caller's business; the defaulting and validation live here.

use vstd::prelude::*;
use vstd::string::StrSliceExecFns;

use crate::text::{lower, lower_str, str_eq};

verus! {

/// What a boolean configuration string means: `true`/`1`/`yes` and
/// `false`/`0`/`no` (any case) decide; anything else falls back to
/// the default.
pub open spec fn bool_value_spec(v: Seq<char>, default: bool) -> bool {
    let l = lower(v);
    if l == "true"@ || l == "1"@ || l == "yes"@ {
        true
    } else if l == "false"@ || l == "0"@ || l == "no"@ {
        false
    } else {
        default
    }
}

/// Parse a boolean configuration value, case-insensitively, falling
/// back to the default on anything unrecognized.
pub fn parse_bool_value(v: &str, default: bool) -> (r: bool)
    ensures
        r == bool_value_spec(v@, default),
{
    let l = lower_str(v);
    let ls = l.as_str();
    if str_eq(ls, "true") || str_eq(ls, "1") || str_eq(ls, "yes") {
        true
    } else if str_eq(ls, "false") || str_eq(ls, "0") || str_eq(ls, "no") {
        false
    } else {
        default
    }
}

/// Application configuration, loaded once at startup.
pub struct AppConfig {
    pub database_url: String,
    pub secret_key: String,
    pub download_path: String,
    pub beets_config: String,
    pub beets_album_mode: bool,
    /// HTTP server port.
    pub port: u16,
    /// HTTP server bind address.
    pub ip: String,
}

impl AppConfig {
    /// Build a configuration from the raw values the environment
    /// offered, applying each setting's default where the value is
    /// missing: database `"sqlite:soulbeet.db"`, secret `"secret"`,
    /// downloads under `"/downloads"`, importer configuration
    /// `"beets_config.yaml"`, album mode off, port 9765, address
    /// `"0.0.0.0"`.
    pub fn from_values(
        database_url: Option<String>,
        secret_key: Option<String>,
        download_path: Option<String>,
        beets_config: Option<String>,
        album_mode: Option<String>,
        port: Option<u16>,
        ip: Option<String>,
    ) -> (r: AppConfig)
        ensures
            r.database_url@ == (match database_url {
                Some(s) => s@,
                None => "sqlite:soulbeet.db"@,
            }),
            r.secret_key@ == (match secret_key {
                Some(s) => s@,
                None => "secret"@,
            }),
            r.download_path@ == (match download_path {
                Some(s) => s@,
                None => "/downloads"@,
            }),
            r.beets_config@ == (match beets_config {
                Some(s) => s@,
                None => "beets_config.yaml"@,
            }),
            r.beets_album_mode == (match album_mode {
                Some(s) => bool_value_spec(s@, false),
                None => false,
            }),
            r.port == (match port {
                Some(p) => p,
                None => 9765u16,
            }),
            r.ip@ == (match ip {
                Some(s) => s@,
                None => "0.0.0.0"@,
            }),
    {
        let beets_album_mode = match &album_mode {
            Some(s) => parse_bool_value(s.as_str(), false),
            None => false,
        };
        AppConfig {
            database_url: or_default(database_url, "sqlite:soulbeet.db"),
            secret_key: or_default(secret_key, "secret"),
            download_path: or_default(download_path, "/downloads"),
            beets_config: or_default(beets_config, "beets_config.yaml"),
            beets_album_mode,
            port: match port {
                Some(p) => p,
                None => 9765,
            },
            ip: or_default(ip, "0.0.0.0"),
        }
    }

    /// Get the database URL.
    pub fn database_url(&self) -> (r: &str)
        ensures
            r@ == self.database_url@,
    {
        self.database_url.as_str()
    }

    /// Get the token-signing secret.
    pub fn secret_key(&self) -> (r: &str)
        ensures
            r@ == self.secret_key@,
    {
        self.secret_key.as_str()
    }

    /// Get the download directory path.
    pub fn download_path(&self) -> (r: &str)
        ensures
            r@ == self.download_path@,
    {
        self.download_path.as_str()
    }

    /// Get the importer configuration path.
    pub fn beets_config(&self) -> (r: &str)
        ensures
            r@ == self.beets_config@,
    {
        self.beets_config.as_str()
    }

    /// Whether the importer groups tracks by folder.
    pub fn is_album_mode(&self) -> (r: bool)
        ensures
            r == self.beets_album_mode,
    {
        self.beets_album_mode
    }
}

/// An optional value, or an owned copy of the default.
fn or_default(v: Option<String>, default: &str) -> (r: String)
    ensures
        r@ == (match v {
            Some(s) => s@,
            None => default@,
        }),
{
    match v {
        Some(s) => s,
        None => String::from_str(default),
    }
}

} // verus!
