//! The batch submitter: a state machine that issues acquisition
//! requests in fixed-size batches with an inter-batch delay, retrying
//! a failed batch with exponential backoff up to a bounded attempt
//! count.
//!
//! The caller owns the network and the clock: it asks the machine for
//! the next [`SubmitCommand`], performs it (issue the request for a
//! group, or sleep), and reports what happened. A group whose every
//! attempt failed has each of its entries marked `Errored` with the
//! last error, and its failure never aborts sibling groups.

use vstd::prelude::*;

use crate::progress::{AcquisitionEntry, EntryState};

verus! {

/// Immutable submission policy, supplied once per acquisition
/// session: batch size, inter-batch delay, retry budget and base
/// backoff delay.
#[derive(Clone, Copy, PartialEq, Eq, Structural, Debug)]
pub struct DownloadConfig {
    pub batch_size: usize,
    pub batch_delay_ms: u64,
    pub max_retries: u32,
    pub retry_base_delay_ms: u64,
}

/// Concatenation of a sequence of entry groups.
pub open spec fn flatten_groups(gs: Seq<Vec<AcquisitionEntry>>) -> Seq<AcquisitionEntry>
    decreases gs.len(),
{
    if gs.len() == 0 {
        Seq::empty()
    } else {
        flatten_groups(gs.drop_last()) + gs.last()@
    }
}

/// Partition entries into consecutive groups of at most `batch_size`:
/// concatenating the groups gives the input back, every group but the
/// last is full, and no group is empty.
pub fn partition_batches(entries: Vec<AcquisitionEntry>, batch_size: usize) -> (r: Vec<
    Vec<AcquisitionEntry>,
>)
    requires
        batch_size >= 1,
    ensures
        flatten_groups(r@) == entries@,
        forall|g: int| 0 <= g < r@.len() ==> 1 <= (#[trigger] r@[g])@.len() <= batch_size,
        forall|g: int| 0 <= g < r@.len() - 1 ==> (#[trigger] r@[g])@.len() == batch_size,
{
    let ghost orig = entries@;
    let mut rest = entries;
    let mut groups: Vec<Vec<AcquisitionEntry>> = Vec::new();
    let mut cur: Vec<AcquisitionEntry> = Vec::new();
    while rest.len() > 0
        invariant
            batch_size >= 1,
            flatten_groups(groups@) + cur@ + rest@ == orig,
            cur@.len() < batch_size,
            forall|g: int| 0 <= g < groups@.len() ==> (#[trigger] groups@[g])@.len() == batch_size,
        decreases rest@.len(),
    {
        let ghost prev_rest = rest@;
        let ghost prev_cur = cur@;
        let e = rest.remove(0);
        cur.push(e);
        proof {
            assert(prev_rest =~= seq![prev_rest[0]] + prev_rest.drop_first());
            assert((flatten_groups(groups@) + prev_cur.push(e)) + prev_rest.drop_first()
                =~= (flatten_groups(groups@) + prev_cur) + prev_rest);
        }
        if cur.len() == batch_size {
            let ghost prev_groups = groups@;
            let full = cur;
            groups.push(full);
            cur = Vec::new();
            proof {
                assert(groups@.drop_last() =~= prev_groups);
                assert(flatten_groups(groups@) + cur@ =~= flatten_groups(prev_groups)
                    + groups@.last()@);
                assert(forall|g: int|
                    0 <= g < prev_groups.len() ==> groups@[g] == prev_groups[g]);
            }
        }
    }
    if cur.len() > 0 {
        let ghost prev_groups = groups@;
        groups.push(cur);
        proof {
            assert(groups@.drop_last() =~= prev_groups);
            assert(forall|g: int| 0 <= g < prev_groups.len() ==> groups@[g] == prev_groups[g]);
            assert(flatten_groups(groups@) =~= orig);
        }
    } else {
        proof {
            assert(flatten_groups(groups@) =~= orig);
        }
    }
    groups
}

/// The exponential backoff delay before retry `k + 1`: the base delay
/// doubled `k` times, saturating at the largest representable delay.
pub open spec fn backoff_delay_spec(base: u64, k: nat) -> u64
    decreases k,
{
    if k == 0 {
        base
    } else {
        let p = backoff_delay_spec(base, (k - 1) as nat);
        if p > u64::MAX / 2 {
            u64::MAX
        } else {
            (2 * p) as u64
        }
    }
}

/// Compute the backoff delay after `attempt + 1` failed attempts,
/// before attempt `attempt + 2`; `attempt` counts from zero.
pub fn backoff_delay(base: u64, attempt: u32) -> (r: u64)
    ensures
        r == backoff_delay_spec(base, attempt as nat),
{
    let mut d: u64 = base;
    let mut k: u32 = 0;
    while k < attempt
        invariant
            0 <= k <= attempt,
            d == backoff_delay_spec(base, k as nat),
        decreases attempt - k,
    {
        if d > u64::MAX / 2 {
            d = u64::MAX;
        } else {
            d = 2 * d;
        }
        k += 1;
    }
    d
}

/// What the driver must do next.
pub enum SubmitCommand {
    /// Issue the acquisition request for the group at this index.
    Send(usize),
    /// Sleep this many milliseconds, then report the wait.
    Sleep(u64),
    /// The submission is over.
    Stop,
}

/// Where the machine stands.
#[derive(Clone, Copy, PartialEq, Eq, Structural, Debug)]
pub enum SubmitPhase {
    /// The current group's request should be issued now.
    Send,
    /// The current group's request failed; back off, then resend.
    Retry,
    /// The current group is resolved; wait the inter-batch delay,
    /// then move to the next group.
    NextGroup,
    /// Every group is resolved.
    Done,
}

/// A group rewritten as submitted: every entry's state is
/// `Submitted`, everything else unchanged.
pub open spec fn group_submitted(oldg: Seq<AcquisitionEntry>, newg: Seq<AcquisitionEntry>) -> bool {
    &&& newg.len() == oldg.len()
    &&& forall|i: int|
        0 <= i < newg.len() ==> {
            let n = #[trigger] newg[i];
            let o = oldg[i];
            n.item == o.item && n.username == o.username && n.size == o.size && n.error == o.error
                && n.state == EntryState::Submitted
        }
}

/// A group rewritten as errored: every entry's state is `Errored` and
/// its error records the given message, everything else unchanged.
pub open spec fn group_errored(
    oldg: Seq<AcquisitionEntry>,
    newg: Seq<AcquisitionEntry>,
    msg: Seq<char>,
) -> bool {
    &&& newg.len() == oldg.len()
    &&& forall|i: int|
        0 <= i < newg.len() ==> {
            let n = #[trigger] newg[i];
            let o = oldg[i];
            n.item == o.item && n.username == o.username && n.size == o.size && n.state
                == EntryState::Errored && (n.error matches Some(e) && e@ == msg)
        }
}

/// The submitter: the partitioned groups, the policy, the group being
/// worked, how many attempts it has cost so far, and the phase.
pub struct BatchSubmitter {
    pub groups: Vec<Vec<AcquisitionEntry>>,
    pub config: DownloadConfig,
    pub group: usize,
    pub attempt: u32,
    pub phase: SubmitPhase,
}

/// Internal consistency of a submitter.
pub open spec fn submitter_wf(s: BatchSubmitter) -> bool {
    &&& s.config.batch_size >= 1
    &&& (s.phase == SubmitPhase::Done ==> s.group <= s.groups@.len())
    &&& (s.phase != SubmitPhase::Done ==> s.group < s.groups@.len())
    &&& (s.phase == SubmitPhase::NextGroup ==> s.group + 1 < s.groups@.len())
    &&& (s.phase == SubmitPhase::Retry ==> 1 <= s.attempt)
    &&& s.attempt <= s.config.max_retries
}

impl BatchSubmitter {
    /// Partition the chosen entries and stand ready to send the first
    /// group, or finished when there is nothing to send.
    pub fn new(entries: Vec<AcquisitionEntry>, config: DownloadConfig) -> (r: Self)
        requires
            config.batch_size >= 1,
        ensures
            submitter_wf(r),
            flatten_groups(r.groups@) == entries@,
            forall|g: int|
                0 <= g < r.groups@.len() ==> 1 <= (#[trigger] r.groups@[g])@.len()
                    <= config.batch_size,
            forall|g: int|
                0 <= g < r.groups@.len() - 1 ==> (#[trigger] r.groups@[g])@.len()
                    == config.batch_size,
            r.config == config,
            r.group == 0,
            r.attempt == 0,
            r.phase == (if r.groups@.len() == 0 {
                SubmitPhase::Done
            } else {
                SubmitPhase::Send
            }),
    {
        let groups = partition_batches(entries, config.batch_size);
        let phase = if groups.len() == 0 {
            SubmitPhase::Done
        } else {
            SubmitPhase::Send
        };
        BatchSubmitter { groups, config, group: 0, attempt: 0, phase }
    }

    /// What to do now: send the current group, sleep a backoff or the
    /// inter-batch delay, or stop.
    pub fn command(&self) -> (r: SubmitCommand)
        requires
            submitter_wf(*self),
        ensures
            self.phase == SubmitPhase::Send ==> r == SubmitCommand::Send(self.group),
            self.phase == SubmitPhase::Retry ==> r == SubmitCommand::Sleep(
                backoff_delay_spec(self.config.retry_base_delay_ms, (self.attempt - 1) as nat),
            ),
            self.phase == SubmitPhase::NextGroup ==> r == SubmitCommand::Sleep(
                self.config.batch_delay_ms,
            ),
            self.phase == SubmitPhase::Done ==> r == SubmitCommand::Stop,
    {
        match self.phase {
            SubmitPhase::Send => SubmitCommand::Send(self.group),
            SubmitPhase::Retry => SubmitCommand::Sleep(
                backoff_delay(self.config.retry_base_delay_ms, self.attempt - 1),
            ),
            SubmitPhase::NextGroup => SubmitCommand::Sleep(self.config.batch_delay_ms),
            SubmitPhase::Done => SubmitCommand::Stop,
        }
    }

    /// The current group's request was acknowledged: its entries
    /// advance to `Submitted`, and the machine moves on — through the
    /// inter-batch delay when groups remain, else to the end.
    pub fn on_send_ok(&mut self)
        requires
            submitter_wf(*old(self)),
            old(self).phase == SubmitPhase::Send,
        ensures
            submitter_wf(*final(self)),
            final(self).config == old(self).config,
            final(self).group == old(self).group,
            final(self).attempt == 0,
            final(self).groups@.len() == old(self).groups@.len(),
            forall|g: int|
                0 <= g < final(self).groups@.len() && g != old(self).group
                    ==> final(self).groups@[g] == old(self).groups@[g],
            group_submitted(
                old(self).groups@[old(self).group as int]@,
                final(self).groups@[old(self).group as int]@,
            ),
            final(self).phase == (if old(self).group + 1 < old(self).groups@.len() {
                SubmitPhase::NextGroup
            } else {
                SubmitPhase::Done
            }),
    {
        let g = self.group;
        let grp = self.groups.remove(g);
        let marked = mark_submitted(grp);
        self.groups.insert(g, marked);
        self.attempt = 0;
        let n = self.groups.len();
        assert(self.group < n);
        if self.group + 1 < n {
            self.phase = SubmitPhase::NextGroup;
        } else {
            self.phase = SubmitPhase::Done;
        }
    }

    /// The current group's request failed. While the retry budget
    /// lasts, the machine backs off and resends; once it is spent,
    /// every entry of the group is marked `Errored` with this last
    /// error, and the machine moves on to the next group — a failed
    /// group never aborts its siblings.
    pub fn on_send_err(&mut self, error: String)
        requires
            submitter_wf(*old(self)),
            old(self).phase == SubmitPhase::Send,
        ensures
            submitter_wf(*final(self)),
            final(self).config == old(self).config,
            final(self).groups@.len() == old(self).groups@.len(),
            if old(self).attempt < old(self).config.max_retries {
                &&& final(self).groups == old(self).groups
                &&& final(self).group == old(self).group
                &&& final(self).attempt == old(self).attempt + 1
                &&& final(self).phase == SubmitPhase::Retry
            } else {
                &&& forall|g: int|
                    0 <= g < final(self).groups@.len() && g != old(self).group
                        ==> final(self).groups@[g] == old(self).groups@[g]
                &&& group_errored(
                    old(self).groups@[old(self).group as int]@,
                    final(self).groups@[old(self).group as int]@,
                    error@,
                )
                &&& final(self).group == old(self).group
                &&& final(self).attempt == 0
                &&& final(self).phase == (if old(self).group + 1 < old(self).groups@.len() {
                    SubmitPhase::NextGroup
                } else {
                    SubmitPhase::Done
                })
            },
    {
        if self.attempt < self.config.max_retries {
            self.attempt = self.attempt + 1;
            self.phase = SubmitPhase::Retry;
        } else {
            let g = self.group;
            let grp = self.groups.remove(g);
            let marked = mark_errored(grp, &error);
            self.groups.insert(g, marked);
            self.attempt = 0;
            let n = self.groups.len();
            assert(self.group < n);
            if self.group + 1 < n {
                self.phase = SubmitPhase::NextGroup;
            } else {
                self.phase = SubmitPhase::Done;
            }
        }
    }

    /// The commanded sleep elapsed: resend after a backoff, or start
    /// the next group after the inter-batch delay.
    pub fn on_waited(&mut self)
        requires
            submitter_wf(*old(self)),
            old(self).phase == SubmitPhase::Retry || old(self).phase == SubmitPhase::NextGroup,
        ensures
            submitter_wf(*final(self)),
            final(self).config == old(self).config,
            final(self).groups == old(self).groups,
            final(self).phase == SubmitPhase::Send,
            old(self).phase == SubmitPhase::Retry ==> final(self).group == old(self).group
                && final(self).attempt == old(self).attempt,
            old(self).phase == SubmitPhase::NextGroup ==> final(self).group == old(self).group + 1
                && final(self).attempt == 0,
    {
        match self.phase {
            SubmitPhase::Retry => {
                self.phase = SubmitPhase::Send;
            },
            _ => {
                let n = self.groups.len();
                assert(self.group + 1 < n);
                self.group = self.group + 1;
                self.attempt = 0;
                self.phase = SubmitPhase::Send;
            },
        }
    }

    /// Whether the submission is over.
    pub fn is_done(&self) -> (r: bool)
        ensures
            r == (self.phase == SubmitPhase::Done),
    {
        match self.phase {
            SubmitPhase::Done => true,
            _ => false,
        }
    }

    /// Hand the entries back, in their original order, with the
    /// states the submission gave them.
    pub fn take_entries(self) -> (r: Vec<AcquisitionEntry>)
        ensures
            r@ == flatten_groups(self.groups@),
    {
        let ghost orig = self.groups@;
        let mut gs = self.groups;
        let mut out: Vec<AcquisitionEntry> = Vec::new();
        while gs.len() > 0
            invariant
                flatten_groups(orig) == out@ + flatten_groups(gs@),
            decreases gs@.len(),
        {
            let ghost prev = gs@;
            let mut grp = gs.remove(0);
            proof {
                lemma_flatten_first(prev);
                assert((out@ + prev[0]@) + flatten_groups(prev.drop_first())
                    =~= out@ + (prev[0]@ + flatten_groups(prev.drop_first())));
            }
            out.append(&mut grp);
        }
        proof {
            assert(out@ + flatten_groups(gs@) =~= out@);
        }
        out
    }
}

/// Flattening takes the first group first.
proof fn lemma_flatten_first(gs: Seq<Vec<AcquisitionEntry>>)
    requires
        gs.len() > 0,
    ensures
        flatten_groups(gs) == gs[0]@ + flatten_groups(gs.drop_first()),
    decreases gs.len(),
{
    if gs.len() == 1 {
        assert(gs.drop_last() =~= Seq::empty());
        assert(gs.drop_first() =~= Seq::<Vec<AcquisitionEntry>>::empty());
        assert(flatten_groups(gs) =~= gs[0]@ + flatten_groups(gs.drop_first()));
    } else {
        lemma_flatten_first(gs.drop_last());
        assert(gs.drop_last()[0] == gs[0]);
        assert(gs.drop_last().drop_first() =~= gs.drop_first().drop_last());
        assert(gs.drop_first().last() == gs.last());
        assert(gs[0]@ + flatten_groups(gs.drop_first()) =~= gs[0]@ + (flatten_groups(
            gs.drop_first().drop_last(),
        ) + gs.last()@));
        assert(flatten_groups(gs) =~= (gs[0]@ + flatten_groups(gs.drop_first().drop_last()))
            + gs.last()@);
    }
}

/// Rewrite a group as submitted, preserving everything but the state.
fn mark_submitted(grp: Vec<AcquisitionEntry>) -> (r: Vec<AcquisitionEntry>)
    ensures
        group_submitted(grp@, r@),
{
    let ghost orig = grp@;
    let mut rest = grp;
    let mut out: Vec<AcquisitionEntry> = Vec::new();
    while rest.len() > 0
        invariant
            out@.len() + rest@.len() == orig.len(),
            rest@ =~= orig.subrange(out@.len() as int, orig.len() as int),
            forall|i: int|
                0 <= i < out@.len() ==> {
                    let n = #[trigger] out@[i];
                    let o = orig[i];
                    n.item == o.item && n.username == o.username && n.size == o.size && n.error
                        == o.error && n.state == EntryState::Submitted
                },
        decreases rest@.len(),
    {
        let e = rest.remove(0);
        out.push(
            AcquisitionEntry {
                item: e.item,
                username: e.username,
                size: e.size,
                state: EntryState::Submitted,
                error: e.error,
            },
        );
    }
    out
}

/// Rewrite a group as errored with the given message, preserving
/// everything but the state and the recorded error.
fn mark_errored(grp: Vec<AcquisitionEntry>, error: &String) -> (r: Vec<AcquisitionEntry>)
    ensures
        group_errored(grp@, r@, error@),
{
    let ghost orig = grp@;
    let mut rest = grp;
    let mut out: Vec<AcquisitionEntry> = Vec::new();
    while rest.len() > 0
        invariant
            out@.len() + rest@.len() == orig.len(),
            rest@ =~= orig.subrange(out@.len() as int, orig.len() as int),
            forall|i: int|
                0 <= i < out@.len() ==> {
                    let n = #[trigger] out@[i];
                    let o = orig[i];
                    n.item == o.item && n.username == o.username && n.size == o.size && n.state
                        == EntryState::Errored && (n.error matches Some(m) && m@ == error@)
                },
        decreases rest@.len(),
    {
        let e = rest.remove(0);
        out.push(
            AcquisitionEntry {
                item: e.item,
                username: e.username,
                size: e.size,
                state: EntryState::Errored,
                error: Some(error.clone()),
            },
        );
    }
    out
}

} // verus!
