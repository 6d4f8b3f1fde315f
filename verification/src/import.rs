//! The import coordinator: the terminal handoff of a settled batch
//! into the external importer, the broadcast snapshots around it, and
//! the compensating cleanup of partial artifacts on every non-success
//! path.
//!
//! The coordinator is a small machine: it first announces the batch
//! as `Importing` (the announcement precedes any terminal snapshot),
//! then resolves the importer's outcome into the final per-entry
//! snapshot and the decision whether to run cleanup. Cleanup removes
//! each entry's source file and the batch's parent directory exactly
//! when nothing survives in it.

use vstd::prelude::*;
use vstd::string::StringExecFns;

use crate::album::views;
use crate::progress::{state_rank, AcquisitionEntry, EntryState};
use crate::status::DownloadStatus;
use crate::text::str_eq;

verus! {

/// What the importer reports for one group of source paths.
pub enum ImportOutcome {
    Success,
    Skipped,
    Failed(String),
    TimedOut,
}

/// A snapshot whose entries carry the given state, with paths, peers,
/// sizes and recorded errors preserved.
pub open spec fn retagged(
    oldg: Seq<AcquisitionEntry>,
    newg: Seq<AcquisitionEntry>,
    st: EntryState,
) -> bool {
    &&& newg.len() == oldg.len()
    &&& forall|i: int|
        0 <= i < newg.len() ==> {
            let n = #[trigger] newg[i];
            let o = oldg[i];
            n.item == o.item && n.username == o.username && n.size == o.size && n.error == o.error
                && n.state == st
        }
}

/// A snapshot whose entries are `Failed` with the given message, the
/// message also recorded as each entry's error; paths, peers and
/// sizes preserved.
pub open spec fn failed_tag(
    oldg: Seq<AcquisitionEntry>,
    newg: Seq<AcquisitionEntry>,
    msg: Seq<char>,
) -> bool {
    &&& newg.len() == oldg.len()
    &&& forall|i: int|
        0 <= i < newg.len() ==> {
            let n = #[trigger] newg[i];
            let o = oldg[i];
            n.item == o.item && n.username == o.username && n.size == o.size && (n.state matches
                EntryState::Failed(m) && m@ == msg) && (n.error matches Some(e) && e@ == msg)
        }
}

/// Retag a snapshot with one state for every entry.
fn retag_entries(entries: &Vec<AcquisitionEntry>, st: &EntryState) -> (r: Vec<AcquisitionEntry>)
    ensures
        retagged(entries@, r@, *st),
{
    let mut out: Vec<AcquisitionEntry> = Vec::new();
    let mut i: usize = 0;
    while i < entries.len()
        invariant
            0 <= i <= entries@.len(),
            out@.len() == i,
            forall|j: int|
                0 <= j < i ==> {
                    let n = #[trigger] out@[j];
                    let o = entries@[j];
                    n.item == o.item && n.username == o.username && n.size == o.size && n.error
                        == o.error && n.state == *st
                },
        decreases entries@.len() - i,
    {
        let e = &entries[i];
        out.push(
            AcquisitionEntry {
                item: e.item.clone(),
                username: e.username.clone(),
                size: e.size,
                state: st.clone(),
                error: crate::parse::clone_opt_string(&e.error),
            },
        );
        i += 1;
    }
    out
}

/// Mark a snapshot failed with one message for every entry.
pub fn mark_failed(entries: &Vec<AcquisitionEntry>, msg: &String) -> (r: Vec<AcquisitionEntry>)
    ensures
        failed_tag(entries@, r@, msg@),
{
    let mut out: Vec<AcquisitionEntry> = Vec::new();
    let mut i: usize = 0;
    while i < entries.len()
        invariant
            0 <= i <= entries@.len(),
            out@.len() == i,
            forall|j: int|
                0 <= j < i ==> {
                    let n = #[trigger] out@[j];
                    let o = entries@[j];
                    n.item == o.item && n.username == o.username && n.size == o.size && (n.state
                        matches EntryState::Failed(m) && m@ == msg@) && (n.error matches Some(e)
                        && e@ == msg@)
                },
        decreases entries@.len() - i,
    {
        let e = &entries[i];
        out.push(
            AcquisitionEntry {
                item: e.item.clone(),
                username: e.username.clone(),
                size: e.size,
                state: EntryState::Failed(msg.clone()),
                error: Some(msg.clone()),
            },
        );
        i += 1;
    }
    out
}

/// Entries for the successful reports of a settled batch, ready for
/// the import phase.
pub fn succeeded_entries(sts: &Vec<DownloadStatus>) -> (r: Vec<AcquisitionEntry>)
    ensures
        r@.len() == sts@.len(),
        forall|i: int|
            0 <= i < r@.len() ==> {
                let n = #[trigger] r@[i];
                let o = sts@[i];
                n.item == o.filename && n.username == o.username && n.size == o.size && n.state
                    == EntryState::Succeeded && n.error is None
            },
{
    let mut out: Vec<AcquisitionEntry> = Vec::new();
    let mut i: usize = 0;
    while i < sts.len()
        invariant
            0 <= i <= sts@.len(),
            out@.len() == i,
            forall|j: int|
                0 <= j < i ==> {
                    let n = #[trigger] out@[j];
                    let o = sts@[j];
                    n.item == o.filename && n.username == o.username && n.size == o.size && n.state
                        == EntryState::Succeeded && n.error is None
                },
        decreases sts@.len() - i,
    {
        let s = &sts[i];
        out.push(
            AcquisitionEntry {
                item: s.filename.clone(),
                username: s.username.clone(),
                size: s.size,
                state: EntryState::Succeeded,
                error: None,
            },
        );
        i += 1;
    }
    out
}

/// The coordinator for one settled batch: its successful entries, and
/// how far the handoff has come.
pub struct ImportCoordinator {
    pub entries: Vec<AcquisitionEntry>,
    pub announced: bool,
    pub resolved: bool,
}

impl ImportCoordinator {
    /// A coordinator holding the batch's successful entries, with
    /// nothing announced or resolved yet.
    pub fn new(entries: Vec<AcquisitionEntry>) -> (r: Self)
        ensures
            r.entries == entries,
            !r.announced,
            !r.resolved,
    {
        ImportCoordinator { entries, announced: false, resolved: false }
    }

    /// The snapshot to broadcast before invoking the importer: every
    /// entry tagged `Importing`. It must precede the terminal
    /// snapshot, which [`Self::resolve`] only hands out afterwards.
    pub fn announce(&mut self) -> (snapshot: Vec<AcquisitionEntry>)
        requires
            !old(self).announced,
            !old(self).resolved,
        ensures
            final(self).entries == old(self).entries,
            final(self).announced,
            !final(self).resolved,
            retagged(old(self).entries@, snapshot@, EntryState::Importing),
    {
        self.announced = true;
        retag_entries(&self.entries, &EntryState::Importing)
    }

    /// Resolve the importer's outcome into the terminal snapshot and
    /// the cleanup decision. Success imports every entry and cleans
    /// nothing; a skip, a failure, an importer timeout and an
    /// importer error all fail or skip the entries verbatim and
    /// demand cleanup.
    pub fn resolve(&mut self, outcome: Result<ImportOutcome, String>) -> (r: (
        Vec<AcquisitionEntry>,
        bool,
    ))
        requires
            old(self).announced,
            !old(self).resolved,
        ensures
            final(self).resolved,
            final(self).entries == old(self).entries,
            r.1 == !(outcome matches Ok(ImportOutcome::Success)),
            match outcome {
                Ok(ImportOutcome::Success) => retagged(
                    old(self).entries@,
                    r.0@,
                    EntryState::Imported,
                ),
                Ok(ImportOutcome::Skipped) => retagged(
                    old(self).entries@,
                    r.0@,
                    EntryState::ImportSkipped,
                ),
                Ok(ImportOutcome::Failed(e)) => failed_tag(
                    old(self).entries@,
                    r.0@,
                    "Import failed: "@ + e@,
                ),
                Ok(ImportOutcome::TimedOut) => failed_tag(
                    old(self).entries@,
                    r.0@,
                    "Import timed out"@,
                ),
                Err(e) => failed_tag(old(self).entries@, r.0@, "Import error: "@ + e@),
            },
    {
        self.resolved = true;
        match outcome {
            Ok(ImportOutcome::Success) => {
                let snap = retag_entries(&self.entries, &EntryState::Imported);
                (snap, false)
            },
            Ok(ImportOutcome::Skipped) => {
                let snap = retag_entries(&self.entries, &EntryState::ImportSkipped);
                (snap, true)
            },
            Ok(ImportOutcome::Failed(e)) => {
                let mut msg = String::from_str("Import failed: ");
                msg.append(e.as_str());
                let snap = mark_failed(&self.entries, &msg);
                (snap, true)
            },
            Ok(ImportOutcome::TimedOut) => {
                let msg = String::from_str("Import timed out");
                let snap = mark_failed(&self.entries, &msg);
                (snap, true)
            },
            Err(e) => {
                let mut msg = String::from_str("Import error: ");
                msg.append(e.as_str());
                let snap = mark_failed(&self.entries, &msg);
                (snap, true)
            },
        }
    }
}

/// Law: announcing never resurrects an entry — a settled download
/// state is strictly outranked by the `Importing` tag the coordinator
/// broadcasts, so the lifecycle only advances into the import phase.
pub proof fn lemma_announce_advances_lifecycle(
    settled: Seq<AcquisitionEntry>,
    snapshot: Seq<AcquisitionEntry>,
)
    requires
        retagged(settled, snapshot, EntryState::Importing),
        forall|i: int| 0 <= i < settled.len() ==> state_rank((#[trigger] settled[i]).state) <= 3,
    ensures
        forall|i: int|
            0 <= i < snapshot.len() ==> state_rank((#[trigger] snapshot[i]).state) > state_rank(
                settled[i].state,
            ),
{
}

/// Law: resolution is terminal — whatever the importer reported,
/// every entry of the final snapshot stands at the end of its
/// lifecycle, past the `Importing` stage it was announced in.
pub proof fn lemma_resolution_is_terminal(
    announced: Seq<AcquisitionEntry>,
    finals: Seq<AcquisitionEntry>,
    st: EntryState,
    msg: Seq<char>,
)
    requires
        (retagged(announced, finals, st) && state_rank(st) == 5) || failed_tag(
            announced,
            finals,
            msg,
        ),
    ensures
        forall|i: int| 0 <= i < finals.len() ==> state_rank((#[trigger] finals[i]).state) == 5,
        forall|i: int|
            0 <= i < announced.len() && state_rank(announced[i].state) == 4 ==> state_rank(
                (#[trigger] finals[i]).state,
            ) > state_rank(announced[i].state),
{
}

/// Whether a batch holds an entry whose source file has this path.
pub open spec fn contains_item(items: Seq<AcquisitionEntry>, f: Seq<char>) -> bool {
    exists|i: int| 0 <= i < items.len() && (#[trigger] items[i]).item@ == f
}

/// The files of a directory listing that survive deleting a batch's
/// source files.
pub open spec fn surviving(dir: Seq<String>, items: Seq<AcquisitionEntry>) -> Seq<String>
    decreases dir.len(),
{
    if dir.len() == 0 {
        Seq::empty()
    } else {
        let rest = surviving(dir.drop_last(), items);
        if !contains_item(items, dir.last()@) {
            rest.push(dir.last())
        } else {
            rest
        }
    }
}

/// Whether a batch names this path among its source files.
fn items_contain(items: &Vec<AcquisitionEntry>, f: &str) -> (r: bool)
    ensures
        r == contains_item(items@, f@),
{
    let mut i: usize = 0;
    while i < items.len()
        invariant
            0 <= i <= items@.len(),
            forall|j: int| 0 <= j < i ==> (#[trigger] items@[j]).item@ != f@,
        decreases items@.len() - i,
    {
        if str_eq(items[i].item.as_str(), f) {
            return true;
        }
        i += 1;
    }
    false
}

/// Plan the cleanup of a batch: which files of the parent directory
/// survive deleting every entry's source file, and whether the
/// directory should then be removed — exactly when nothing survives,
/// so one surviving sibling file keeps the directory alive.
pub fn plan_cleanup(dir_files: &Vec<String>, entries: &Vec<AcquisitionEntry>) -> (r: (
    Vec<String>,
    bool,
))
    ensures
        r.0@ == surviving(dir_files@, entries@),
        r.1 == (surviving(dir_files@, entries@).len() == 0),
{
    let mut out: Vec<String> = Vec::new();
    let mut i: usize = 0;
    while i < dir_files.len()
        invariant
            0 <= i <= dir_files@.len(),
            out@ == surviving(dir_files@.subrange(0, i as int), entries@),
        decreases dir_files@.len() - i,
    {
        proof {
            assert(dir_files@.subrange(0, i + 1).drop_last() =~= dir_files@.subrange(0, i as int));
        }
        if !items_contain(entries, dir_files[i].as_str()) {
            out.push(dir_files[i].clone());
        }
        i += 1;
    }
    proof {
        assert(dir_files@.subrange(0, dir_files@.len() as int) =~= dir_files@);
    }
    let remove = out.len() == 0;
    (out, remove)
}

/// Law: after deleting a batch's source files, the parent directory
/// falls exactly when every file it held was one of the batch's own —
/// one sibling file outside the batch keeps it alive.
pub proof fn lemma_dir_removed_iff_all_deleted(dir: Seq<String>, items: Seq<AcquisitionEntry>)
    ensures
        surviving(dir, items).len() == 0 <==> (forall|i: int|
            0 <= i < dir.len() ==> contains_item(items, (#[trigger] dir[i])@)),
    decreases dir.len(),
{
    if dir.len() > 0 {
        lemma_dir_removed_iff_all_deleted(dir.drop_last(), items);
        assert(forall|i: int| 0 <= i < dir.len() - 1 ==> dir.drop_last()[i] == dir[i]);
        if surviving(dir, items).len() == 0 {
            assert(contains_item(items, dir[dir.len() - 1]@));
        }
    }
}

/// The argument list of one importer invocation: the configuration
/// flag, quiet mode, the destination, the source paths, and the
/// singleton flag when grouping is off.
pub fn import_args(config_path: &str, target: &str, sources: &Vec<String>, singleton: bool) -> (r:
    Vec<String>)
    ensures
        views(r@) == seq![
            "-c"@,
            config_path@,
            "import"@,
            "-q"@,
            "-d"@,
            target@,
        ] + views(sources@) + (if singleton {
            seq!["-s"@]
        } else {
            Seq::<Seq<char>>::empty()
        }),
{
    let mut args: Vec<String> = Vec::new();
    args.push(String::from_str("-c"));
    args.push(String::from_str(config_path));
    args.push(String::from_str("import"));
    args.push(String::from_str("-q"));
    args.push(String::from_str("-d"));
    args.push(String::from_str(target));
    let mut i: usize = 0;
    while i < sources.len()
        invariant
            0 <= i <= sources@.len(),
            args@.len() == 6 + i,
            args@[0]@ == "-c"@,
            args@[1]@ == config_path@,
            args@[2]@ == "import"@,
            args@[3]@ == "-q"@,
            args@[4]@ == "-d"@,
            args@[5]@ == target@,
            forall|j: int| 0 <= j < i ==> (#[trigger] args@[6 + j])@ == sources@[j]@,
        decreases sources@.len() - i,
    {
        args.push(sources[i].clone());
        i += 1;
    }
    let ghost pre = args@;
    if singleton {
        args.push(String::from_str("-s"));
    }
    proof {
        let tail: Seq<Seq<char>> = if singleton {
            seq!["-s"@]
        } else {
            Seq::<Seq<char>>::empty()
        };
        let expected = seq!["-c"@, config_path@, "import"@, "-q"@, "-d"@, target@] + views(
            sources@,
        ) + tail;
        assert(args@.len() == expected.len());
        assert forall|k: int| 0 <= k < args@.len() implies views(args@)[k] == expected[k] by {
            if k < pre.len() {
                assert(args@[k] == pre[k]);
            }
            if 6 <= k < 6 + sources@.len() {
                assert(pre[6 + (k - 6)]@ == sources@[k - 6]@);
                assert(views(sources@)[k - 6] == sources@[k - 6]@);
            }
        }
        assert(views(args@) =~= expected);
    }
    args
}

} // verus!
