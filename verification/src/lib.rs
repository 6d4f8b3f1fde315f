//! Download acquisition and import orchestration engine for a music
//! library manager.
//!
//! The crate scores raw peer-shared file listings against wanted
//! tracks and albums ([`listing`], [`parse`], [`album`]), plans
//! rate-limited batch submissions to an external download service
//! with bounded retries ([`submit`]), tracks each batch to completion
//! through a polling monitor with a hard attempt ceiling
//! ([`monitor`]), and drives the terminal handoff into an external
//! importer, including compensating cleanup of partial artifacts on
//! every non-success path ([`import`]). Scores are fixed-point
//! integers: 100 units are one whole point.
//!
//! The engine owns no clock, no network and no filesystem: the
//! submitter, monitor and coordinator are state machines whose caller
//! performs each commanded request, sleep or deletion and reports
//! what happened.

pub mod album;
pub mod auth;
pub mod config;
pub mod download;
pub mod import;
pub mod lastfm;
pub mod listing;
pub mod metadata;
pub mod monitor;
pub mod musicbrainz;
pub mod parse;
pub mod progress;
pub mod services;
pub mod settings;
pub mod status;
pub mod submit;
pub mod text;
