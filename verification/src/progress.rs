//! Acquisition entries and their lifecycle.
//!
//! One entry is one file the user chose to acquire. Its state only
//! ever advances along `Queued -> Submitted -> Downloading ->
//! {Succeeded | Failed | Cancelled | Errored} -> Importing ->
//! {Imported | ImportSkipped | Failed}`; no entry is resurrected into
//! an earlier state. Progress snapshots handed to subscribers are
//! vectors of these entries.

use vstd::prelude::*;

use crate::parse::clone_opt_string;

verus! {

/// The lifecycle state of one acquisition entry. `Failed` carries the
/// human-readable reason.
pub enum EntryState {
    Queued,
    Submitted,
    Downloading,
    Succeeded,
    Failed(String),
    Cancelled,
    Errored,
    Importing,
    Imported,
    ImportSkipped,
}

impl Clone for EntryState {
    fn clone(&self) -> (r: Self)
        ensures
            r == *self,
    {
        match self {
            EntryState::Queued => EntryState::Queued,
            EntryState::Submitted => EntryState::Submitted,
            EntryState::Downloading => EntryState::Downloading,
            EntryState::Succeeded => EntryState::Succeeded,
            EntryState::Failed(reason) => EntryState::Failed(reason.clone()),
            EntryState::Cancelled => EntryState::Cancelled,
            EntryState::Errored => EntryState::Errored,
            EntryState::Importing => EntryState::Importing,
            EntryState::Imported => EntryState::Imported,
            EntryState::ImportSkipped => EntryState::ImportSkipped,
        }
    }
}

/// How far along its lifecycle a state lies. Transitions may only
/// keep or raise the rank.
pub open spec fn state_rank(s: EntryState) -> int {
    match s {
        EntryState::Queued => 0,
        EntryState::Submitted => 1,
        EntryState::Downloading => 2,
        EntryState::Succeeded => 3,
        EntryState::Cancelled => 3,
        EntryState::Errored => 3,
        EntryState::Importing => 4,
        EntryState::Imported => 5,
        EntryState::ImportSkipped => 5,
        EntryState::Failed(_) => 5,
    }
}

/// One file chosen for acquisition: its remote path, the peer that
/// offers it, its size, and where it stands in the lifecycle.
pub struct AcquisitionEntry {
    pub item: String,
    pub username: String,
    pub size: i64,
    pub state: EntryState,
    pub error: Option<String>,
}

impl Clone for AcquisitionEntry {
    fn clone(&self) -> (r: Self)
        ensures
            r == *self,
    {
        AcquisitionEntry {
            item: self.item.clone(),
            username: self.username.clone(),
            size: self.size,
            state: self.state.clone(),
            error: clone_opt_string(&self.error),
        }
    }
}

impl AcquisitionEntry {
    /// A freshly selected entry: queued, with no error.
    pub fn new(item: String, username: String, size: i64) -> (r: Self)
        ensures
            r.item == item,
            r.username == username,
            r.size == size,
            r.state == EntryState::Queued,
            r.error is None,
    {
        AcquisitionEntry { item, username, size, state: EntryState::Queued, error: None }
    }
}

} // verus!
