//! Status reports of the download service: the state vocabulary of
//! one transfer, and the status record one poll returns per file.

use vstd::prelude::*;
use vstd::string::StrSliceExecFns;

use crate::text::{find_first_from, str_eq, trim, trim_str, CharClass};

verus! {

/// The state flags the download service reports for one transfer. A
/// report may carry several flags at once; a transfer is settled when
/// any of them is terminal.
#[derive(Clone, Copy, PartialEq, Eq, Structural, Debug)]
pub enum DownloadState {
    Requested,
    Queued,
    Initializing,
    InProgress,
    Succeeded,
    Completed,
    Aborted,
    Cancelled,
    Errored,
}

/// Terminal states: no further transition occurs from these.
pub open spec fn is_terminal_state(s: DownloadState) -> bool {
    match s {
        DownloadState::Succeeded
        | DownloadState::Completed
        | DownloadState::Aborted
        | DownloadState::Cancelled
        | DownloadState::Errored => true,
        _ => false,
    }
}

/// Successful terminal states.
pub open spec fn is_success_state(s: DownloadState) -> bool {
    match s {
        DownloadState::Succeeded | DownloadState::Completed => true,
        _ => false,
    }
}

/// Executable test for a terminal state.
pub fn terminal_state(s: DownloadState) -> (r: bool)
    ensures
        r == is_terminal_state(s),
{
    match s {
        DownloadState::Succeeded
        | DownloadState::Completed
        | DownloadState::Aborted
        | DownloadState::Cancelled
        | DownloadState::Errored => true,
        _ => false,
    }
}

/// Executable test for a successful state.
pub fn success_state(s: DownloadState) -> (r: bool)
    ensures
        r == is_success_state(s),
{
    match s {
        DownloadState::Succeeded | DownloadState::Completed => true,
        _ => false,
    }
}

/// One file's status as reported by the download service. The
/// progress is held in hundredths of a percent; speeds and sizes as
/// the service reports them.
pub struct DownloadStatus {
    pub id: String,
    pub filename: String,
    pub username: String,
    pub state: Vec<DownloadState>,
    pub progress: i64,
    pub size: i64,
    pub transferred: i64,
    pub speed: i32,
    pub time_remaining: Option<i32>,
}

/// Whether a status report carries any terminal flag.
pub open spec fn status_terminal(st: DownloadStatus) -> bool {
    exists|i: int| 0 <= i < st.state@.len() && is_terminal_state(#[trigger] st.state@[i])
}

/// Whether a status report carries any successful flag.
pub open spec fn status_successful(st: DownloadStatus) -> bool {
    exists|i: int| 0 <= i < st.state@.len() && is_success_state(#[trigger] st.state@[i])
}


/// The state a trimmed token of the service's state field names, if
/// any.
pub open spec fn state_of_name(t: Seq<char>) -> Option<DownloadState> {
    if t == "Requested"@ {
        Some(DownloadState::Requested)
    } else if t == "Queued"@ {
        Some(DownloadState::Queued)
    } else if t == "Initializing"@ {
        Some(DownloadState::Initializing)
    } else if t == "InProgress"@ {
        Some(DownloadState::InProgress)
    } else if t == "Succeeded"@ {
        Some(DownloadState::Succeeded)
    } else if t == "Completed"@ {
        Some(DownloadState::Completed)
    } else if t == "Aborted"@ {
        Some(DownloadState::Aborted)
    } else if t == "Cancelled"@ {
        Some(DownloadState::Cancelled)
    } else if t == "Errored"@ {
        Some(DownloadState::Errored)
    } else {
        None
    }
}

/// The flags named by a comma-separated state field: each segment is
/// trimmed and read as a state name; unknown names are ignored.
pub open spec fn flags_of_field(s: Seq<char>) -> Seq<DownloadState>
    decreases s.len(),
{
    let k = crate::text::first_in(s, CharClass::Comma);
    if 0 <= k < s.len() {
        let head = (match state_of_name(trim(s.subrange(0, k))) {
            Some(f) => seq![f],
            None => Seq::<DownloadState>::empty(),
        });
        head + flags_of_field(s.subrange(k + 1, s.len() as int))
    } else {
        match state_of_name(trim(s)) {
            Some(f) => seq![f],
            None => Seq::<DownloadState>::empty(),
        }
    }
}

/// Read one trimmed token as a state name.
fn state_name(t: &str) -> (r: Option<DownloadState>)
    ensures
        r == state_of_name(t@),
{
    if str_eq(t, "Requested") {
        Some(DownloadState::Requested)
    } else if str_eq(t, "Queued") {
        Some(DownloadState::Queued)
    } else if str_eq(t, "Initializing") {
        Some(DownloadState::Initializing)
    } else if str_eq(t, "InProgress") {
        Some(DownloadState::InProgress)
    } else if str_eq(t, "Succeeded") {
        Some(DownloadState::Succeeded)
    } else if str_eq(t, "Completed") {
        Some(DownloadState::Completed)
    } else if str_eq(t, "Aborted") {
        Some(DownloadState::Aborted)
    } else if str_eq(t, "Cancelled") {
        Some(DownloadState::Cancelled)
    } else if str_eq(t, "Errored") {
        Some(DownloadState::Errored)
    } else {
        None
    }
}

/// Parse the service's comma-separated state field into flags; tokens
/// naming no known state are ignored.
pub fn parse_state_flags(s: &str) -> (r: Vec<DownloadState>)
    ensures
        r@ == flags_of_field(s@),
    decreases s@.len(),
{
    let len = s.unicode_len();
    let k = find_first_from(s, 0, CharClass::Comma);
    proof {
        assert(s@.subrange(0, s@.len() as int) =~= s@);
    }
    proof {
        crate::text::lemma_first_in(s@, CharClass::Comma);
    }
    let head = state_name(trim_str(s.substring_char(0, k)));
    if k == len {
        proof {
            assert(s@.subrange(0, k as int) =~= s@);
        }
        match head {
            Some(f) => {
                let mut v: Vec<DownloadState> = Vec::new();
                v.push(f);
                proof {
                    assert(v@ =~= flags_of_field(s@));
                }
                v
            },
            None => {
                let v: Vec<DownloadState> = Vec::new();
                proof {
                    assert(v@ =~= flags_of_field(s@));
                }
                v
            },
        }
    } else {
        let mut rest = parse_state_flags(s.substring_char(k + 1, len));
        match head {
            Some(f) => {
                rest.insert(0, f);
                proof {
                    assert(rest@ =~= flags_of_field(s@));
                }
                rest
            },
            None => {
                proof {
                    assert(rest@ =~= flags_of_field(s@));
                }
                rest
            },
        }
    }
}

impl DownloadStatus {
    /// Whether this transfer has settled: any reported flag is
    /// terminal.
    pub fn is_terminal(&self) -> (r: bool)
        ensures
            r == status_terminal(*self),
    {
        let mut i: usize = 0;
        while i < self.state.len()
            invariant
                0 <= i <= self.state@.len(),
                forall|j: int| 0 <= j < i ==> !is_terminal_state(#[trigger] self.state@[j]),
            decreases self.state@.len() - i,
        {
            if terminal_state(self.state[i]) {
                return true;
            }
            i += 1;
        }
        false
    }

    /// Whether this transfer settled successfully: any reported flag
    /// is a success.
    pub fn is_successful(&self) -> (r: bool)
        ensures
            r == status_successful(*self),
    {
        let mut i: usize = 0;
        while i < self.state.len()
            invariant
                0 <= i <= self.state@.len(),
                forall|j: int| 0 <= j < i ==> !is_success_state(#[trigger] self.state@[j]),
            decreases self.state@.len() - i,
        {
            if success_state(self.state[i]) {
                return true;
            }
            i += 1;
        }
        false
    }
}

} // verus!
