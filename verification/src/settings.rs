//! Stored settings: the application's key-value configuration rows
//! and each user's preferences, with the defaulting and merge rules
//! the storage layer applies. The queries themselves are the caller's
//! business.

use vstd::prelude::*;
use vstd::string::StrSliceExecFns;

use crate::parse::clone_opt_string;

verus! {

/// Configuration key for the metadata provider's API key.
pub const LASTFM_API_KEY: &'static str = "lastfm_api_key";

/// Configuration key for the download service's API key.
pub const SLSKD_API_KEY: &'static str = "slskd_api_key";

/// Configuration key for the download service's base URL.
pub const SLSKD_URL: &'static str = "slskd_url";

/// One application configuration row.
pub struct AppConfig {
    pub key: String,
    pub value: String,
}

/// One user's stored preferences.
pub struct UserSettings {
    pub user_id: String,
    pub default_metadata_provider: Option<String>,
    pub last_search_type: Option<String>,
}

/// A partial update of a user's preferences: absent fields keep their
/// stored value.
pub struct UpdateUserSettings {
    pub default_metadata_provider: Option<String>,
    pub last_search_type: Option<String>,
}

impl UserSettings {
    /// The settings of a user with no stored row: the default
    /// provider and search type.
    pub fn defaults(user_id: String) -> (r: UserSettings)
        ensures
            r.user_id == user_id,
            r.default_metadata_provider matches Some(p) && p@ == "musicbrainz"@,
            r.last_search_type matches Some(t) && t@ == "album"@,
    {
        UserSettings {
            user_id,
            default_metadata_provider: Some(String::from_str("musicbrainz")),
            last_search_type: Some(String::from_str("album")),
        }
    }

    /// Merge a partial update over the stored settings: each present
    /// field of the update wins, each absent one keeps the stored
    /// value.
    pub fn merged(self, update: UpdateUserSettings) -> (r: UserSettings)
        ensures
            r.user_id == self.user_id,
            r.default_metadata_provider == (match update.default_metadata_provider {
                Some(p) => Some(p),
                None => self.default_metadata_provider,
            }),
            r.last_search_type == (match update.last_search_type {
                Some(t) => Some(t),
                None => self.last_search_type,
            }),
    {
        let provider = match update.default_metadata_provider {
            Some(p) => Some(p),
            None => self.default_metadata_provider,
        };
        let search_type = match update.last_search_type {
            Some(t) => Some(t),
            None => self.last_search_type,
        };
        UserSettings {
            user_id: self.user_id,
            default_metadata_provider: provider,
            last_search_type: search_type,
        }
    }
}

impl Clone for UserSettings {
    fn clone(&self) -> (r: Self)
        ensures
            r == *self,
    {
        UserSettings {
            user_id: self.user_id.clone(),
            default_metadata_provider: clone_opt_string(&self.default_metadata_provider),
            last_search_type: clone_opt_string(&self.last_search_type),
        }
    }
}

} // verus!
