//! The completion monitor: a state machine, one per submitted batch,
//! that consumes one status poll per tick until every file of the
//! batch settles, the batch vanishes from the service's view, or the
//! attempt budget runs out.
//!
//! The caller owns the clock and the network: on each tick it fetches
//! the service's full status list (or reports that the fetch failed)
//! and hands it to [`CompletionMonitor::tick`]. The machine decides,
//! and the decision is exact: it times out on the first tick past the
//! attempt ceiling, exits `Lost` when the filtered batch view is
//! empty, exits `AllTerminal` with the successful and unsuccessful
//! partitions when every batch file has settled, and continues
//! otherwise — a failed fetch merely spends the tick.

use vstd::prelude::*;

use crate::status::{status_successful, status_terminal, DownloadStatus};
use crate::text::{contains_str, names_contain};

verus! {

/// A monitor watching one batch, identified by its filenames.
pub struct CompletionMonitor {
    pub filenames: Vec<String>,
    pub attempts: u64,
    pub max_attempts: u64,
}

/// How a monitor ends.
pub enum MonitorExit {
    /// The batch vanished from the service's view: treat it as
    /// completed with nothing to import.
    Lost,
    /// Every batch file settled; the reports are partitioned into the
    /// successful and the unsuccessful.
    AllTerminal { successful: Vec<DownloadStatus>, unsuccessful: Vec<DownloadStatus> },
    /// The attempt ceiling was reached before the batch settled.
    TimedOut,
}

/// What one tick decides.
pub enum MonitorStep {
    Continue,
    Exit(MonitorExit),
}

/// The status reports belonging to a batch, in the service's order.
pub open spec fn batch_statuses(all: Seq<DownloadStatus>, names: Seq<String>) -> Seq<
    DownloadStatus,
>
    decreases all.len(),
{
    if all.len() == 0 {
        Seq::empty()
    } else {
        let rest = batch_statuses(all.drop_last(), names);
        if contains_str(names, all.last().filename@) {
            rest.push(all.last())
        } else {
            rest
        }
    }
}

/// The successful reports of a list, in order.
pub open spec fn successes_of(sts: Seq<DownloadStatus>) -> Seq<DownloadStatus>
    decreases sts.len(),
{
    if sts.len() == 0 {
        Seq::empty()
    } else {
        let rest = successes_of(sts.drop_last());
        if status_successful(sts.last()) {
            rest.push(sts.last())
        } else {
            rest
        }
    }
}

/// The unsuccessful reports of a list, in order.
pub open spec fn failures_of(sts: Seq<DownloadStatus>) -> Seq<DownloadStatus>
    decreases sts.len(),
{
    if sts.len() == 0 {
        Seq::empty()
    } else {
        let rest = failures_of(sts.drop_last());
        if !status_successful(sts.last()) {
            rest.push(sts.last())
        } else {
            rest
        }
    }
}

/// Whether every report of a list is terminal.
pub open spec fn all_terminal(sts: Seq<DownloadStatus>) -> bool {
    forall|i: int| 0 <= i < sts.len() ==> status_terminal(#[trigger] sts[i])
}

/// What one tick must decide, given the state before the tick and the
/// poll it consumed (`None` stands for a failed status request).
pub open spec fn tick_decision(
    m: CompletionMonitor,
    poll: Option<Seq<DownloadStatus>>,
    r: MonitorStep,
) -> bool {
    if m.attempts + 1 > m.max_attempts {
        r == MonitorStep::Exit(MonitorExit::TimedOut)
    } else {
        match poll {
            None => r == MonitorStep::Continue,
            Some(all) => {
                let batch = batch_statuses(all, m.filenames@);
                if batch.len() == 0 {
                    r == MonitorStep::Exit(MonitorExit::Lost)
                } else if all_terminal(batch) {
                    r matches MonitorStep::Exit(MonitorExit::AllTerminal { successful, unsuccessful })
                        && successful@ == successes_of(batch) && unsuccessful@ == failures_of(batch)
                } else {
                    r == MonitorStep::Continue
                }
            },
        }
    }
}

/// The view of an owned poll result.
pub open spec fn poll_view(poll: Option<Vec<DownloadStatus>>) -> Option<Seq<DownloadStatus>> {
    match poll {
        Some(v) => Some(v@),
        None => None,
    }
}

/// Filter the service's full status list down to one batch, moving
/// the matching reports out.
fn filter_batch(all: Vec<DownloadStatus>, names: &Vec<String>) -> (r: Vec<DownloadStatus>)
    ensures
        r@ == batch_statuses(all@, names@),
{
    let ghost orig = all@;
    let mut rest = all;
    let mut out: Vec<DownloadStatus> = Vec::new();
    while rest.len() > 0
        invariant
            batch_statuses(orig, names@) == batch_statuses(rest@, names@) + out@,
        decreases rest@.len(),
    {
        let ghost prev = rest@;
        let st = rest.pop().unwrap();
        if names_contain(names, st.filename.as_str()) {
            out.insert(0, st);
            proof {
                assert(batch_statuses(prev, names@) == batch_statuses(prev.drop_last(), names@)
                    .push(st));
                assert(batch_statuses(prev.drop_last(), names@).push(st) + out@.drop_first()
                    =~= batch_statuses(prev.drop_last(), names@) + out@);
            }
        } else {
            proof {
                assert(batch_statuses(prev, names@) == batch_statuses(prev.drop_last(), names@));
            }
        }
    }
    proof {
        assert(batch_statuses(rest@, names@) + out@ =~= out@);
    }
    out
}

/// Partition a list of settled reports into successes and failures,
/// moving each report into its side.
fn partition_by_success(sts: Vec<DownloadStatus>) -> (r: (Vec<DownloadStatus>, Vec<
    DownloadStatus,
>))
    ensures
        r.0@ == successes_of(sts@),
        r.1@ == failures_of(sts@),
{
    let ghost orig = sts@;
    let mut rest = sts;
    let mut succ: Vec<DownloadStatus> = Vec::new();
    let mut fail: Vec<DownloadStatus> = Vec::new();
    while rest.len() > 0
        invariant
            successes_of(orig) == successes_of(rest@) + succ@,
            failures_of(orig) == failures_of(rest@) + fail@,
        decreases rest@.len(),
    {
        let ghost prev = rest@;
        let st = rest.pop().unwrap();
        if st.is_successful() {
            succ.insert(0, st);
            proof {
                assert(successes_of(prev.drop_last()).push(st) + succ@.drop_first()
                    =~= successes_of(prev.drop_last()) + succ@);
            }
        } else {
            fail.insert(0, st);
            proof {
                assert(failures_of(prev.drop_last()).push(st) + fail@.drop_first()
                    =~= failures_of(prev.drop_last()) + fail@);
            }
        }
    }
    proof {
        assert(successes_of(rest@) + succ@ =~= succ@);
        assert(failures_of(rest@) + fail@ =~= fail@);
    }
    (succ, fail)
}

impl CompletionMonitor {
    /// A fresh monitor for one batch with a given attempt ceiling.
    pub fn new(filenames: Vec<String>, max_attempts: u64) -> (r: Self)
        ensures
            r.filenames == filenames,
            r.attempts == 0,
            r.max_attempts == max_attempts,
    {
        CompletionMonitor { filenames, attempts: 0, max_attempts }
    }

    /// Consume one tick. `poll` is the service's full status list, or
    /// `None` when the status request failed; a failed request spends
    /// the tick and nothing else. The decision is exactly
    /// [`tick_decision`]: timeout strictly past the ceiling, `Lost`
    /// on an empty batch view, `AllTerminal` with the partition when
    /// everything settled, `Continue` otherwise.
    pub fn tick(&mut self, poll: Option<Vec<DownloadStatus>>) -> (r: MonitorStep)
        requires
            old(self).attempts < u64::MAX,
        ensures
            final(self).filenames == old(self).filenames,
            final(self).max_attempts == old(self).max_attempts,
            final(self).attempts == old(self).attempts + 1,
            tick_decision(*old(self), poll_view(poll), r),
    {
        self.attempts = self.attempts + 1;
        if self.attempts > self.max_attempts {
            return MonitorStep::Exit(MonitorExit::TimedOut);
        }
        match poll {
            None => MonitorStep::Continue,
            Some(all) => {
                let ghost all_view = all@;
                let batch = filter_batch(all, &self.filenames);
                if batch.len() == 0 {
                    return MonitorStep::Exit(MonitorExit::Lost);
                }
                let mut i: usize = 0;
                while i < batch.len()
                    invariant
                        0 <= i <= batch@.len(),
                        batch@.len() > 0,
                        poll_view(poll) == Some(all_view),
                        batch@ == batch_statuses(all_view, old(self).filenames@),
                        self.filenames == old(self).filenames,
                        self.max_attempts == old(self).max_attempts,
                        self.attempts == old(self).attempts + 1,
                        self.attempts <= self.max_attempts,
                        forall|j: int| 0 <= j < i ==> status_terminal(#[trigger] batch@[j]),
                    decreases batch@.len() - i,
                {
                    if !batch[i].is_terminal() {
                        proof {
                            let batchs = batch_statuses(all_view, old(self).filenames@);
                            assert(!status_terminal(batchs[i as int]));
                            assert(!all_terminal(batchs));
                        }
                        return MonitorStep::Continue;
                    }
                    i += 1;
                }
                let (successful, unsuccessful) = partition_by_success(batch);
                MonitorStep::Exit(MonitorExit::AllTerminal { successful, unsuccessful })
            },
        }
    }
}

/// Law: a run of ticks exits `TimedOut` exactly on the first tick
/// past the ceiling, never earlier — a monitor that has not yet spent
/// its budget never reports a timeout.
pub proof fn lemma_timeout_exactly_at_ceiling(
    m: CompletionMonitor,
    poll: Option<Seq<DownloadStatus>>,
    r: MonitorStep,
)
    requires
        tick_decision(m, poll, r),
    ensures
        m.attempts + 1 > m.max_attempts <==> r == MonitorStep::Exit(MonitorExit::TimedOut),
{
    if m.attempts + 1 <= m.max_attempts {
        match poll {
            None => {},
            Some(all) => {
                let batch = batch_statuses(all, m.filenames@);
                if batch.len() == 0 {
                } else if all_terminal(batch) {
                    assert(r matches MonitorStep::Exit(MonitorExit::AllTerminal { .. }));
                }
            },
        }
    }
}

} // verus!
