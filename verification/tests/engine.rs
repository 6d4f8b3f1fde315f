//! The acquisition engine end to end: batch submission, completion
//! monitoring, and import coordination with cleanup.

use soulbeet::import::{plan_cleanup, ImportCoordinator, ImportOutcome};
use soulbeet::monitor::{CompletionMonitor, MonitorExit, MonitorStep};
use soulbeet::progress::{AcquisitionEntry, EntryState};
use soulbeet::status::{parse_state_flags, DownloadState, DownloadStatus};
use soulbeet::submit::{backoff_delay, BatchSubmitter, DownloadConfig, SubmitCommand, SubmitPhase};

fn entry(item: &str) -> AcquisitionEntry {
    AcquisitionEntry::new(String::from(item), String::from("peer"), 1000)
}

fn entries(n: usize) -> Vec<AcquisitionEntry> {
    (0..n).map(|i| entry(&format!("file{}.flac", i))).collect()
}

fn config(batch_size: usize, max_retries: u32) -> DownloadConfig {
    DownloadConfig {
        batch_size,
        batch_delay_ms: 3000,
        max_retries,
        retry_base_delay_ms: 1000,
    }
}

fn status(filename: &str, states: Vec<DownloadState>) -> DownloadStatus {
    DownloadStatus {
        id: String::from("id"),
        filename: String::from(filename),
        username: String::from("peer"),
        state: states,
        progress: 0,
        size: 1000,
        transferred: 0,
        speed: 0,
        time_remaining: None,
    }
}

#[test]
fn seven_entries_with_batch_size_three_submit_three_groups() {
    let mut s = BatchSubmitter::new(entries(7), config(3, 2));
    let mut sends = 0;
    let mut sleeps = Vec::new();
    loop {
        match s.command() {
            SubmitCommand::Send(g) => {
                assert_eq!(g, sends);
                sends += 1;
                s.on_send_ok();
            }
            SubmitCommand::Sleep(ms) => {
                sleeps.push(ms);
                s.on_waited();
            }
            SubmitCommand::Stop => break,
        }
    }
    assert_eq!(sends, 3);
    // one inter-batch delay between each pair of consecutive groups
    assert_eq!(sleeps, vec![3000, 3000]);
    let done = s.take_entries();
    assert_eq!(done.len(), 7);
    for e in &done {
        assert!(matches!(e.state, EntryState::Submitted));
    }
}

#[test]
fn group_sizes_are_three_three_one() {
    let s = BatchSubmitter::new(entries(7), config(3, 2));
    assert_eq!(s.groups.len(), 3);
    assert_eq!(s.groups[0].len(), 3);
    assert_eq!(s.groups[1].len(), 3);
    assert_eq!(s.groups[2].len(), 1);
}

#[test]
fn a_group_failing_every_attempt_costs_three_tries_and_ends_errored() {
    let mut s = BatchSubmitter::new(entries(2), config(3, 2));
    let mut sends = 0;
    loop {
        match s.command() {
            SubmitCommand::Send(_) => {
                sends += 1;
                s.on_send_err(String::from("connection reset"));
            }
            SubmitCommand::Sleep(_) => s.on_waited(),
            SubmitCommand::Stop => break,
        }
    }
    // the initial attempt plus max_retries retries
    assert_eq!(sends, 3);
    let done = s.take_entries();
    assert_eq!(done.len(), 2);
    for e in &done {
        assert!(matches!(e.state, EntryState::Errored));
        assert_eq!(e.error.as_deref(), Some("connection reset"));
    }
}

#[test]
fn a_failed_group_does_not_abort_its_siblings() {
    let mut s = BatchSubmitter::new(entries(4), config(2, 0));
    let mut send_count = 0;
    loop {
        match s.command() {
            SubmitCommand::Send(g) => {
                send_count += 1;
                if g == 0 {
                    s.on_send_err(String::from("boom"));
                } else {
                    s.on_send_ok();
                }
            }
            SubmitCommand::Sleep(_) => s.on_waited(),
            SubmitCommand::Stop => break,
        }
    }
    assert_eq!(send_count, 2);
    let done = s.take_entries();
    assert!(matches!(done[0].state, EntryState::Errored));
    assert!(matches!(done[1].state, EntryState::Errored));
    assert!(matches!(done[2].state, EntryState::Submitted));
    assert!(matches!(done[3].state, EntryState::Submitted));
}

#[test]
fn backoff_doubles_from_the_base_delay() {
    assert_eq!(backoff_delay(1000, 0), 1000);
    assert_eq!(backoff_delay(1000, 1), 2000);
    assert_eq!(backoff_delay(1000, 2), 4000);
    assert_eq!(backoff_delay(u64::MAX / 2 + 1, 1), u64::MAX);
}

#[test]
fn retry_sleeps_follow_the_backoff_schedule() {
    let mut s = BatchSubmitter::new(entries(1), config(1, 2));
    let mut sleeps = Vec::new();
    loop {
        match s.command() {
            SubmitCommand::Send(_) => s.on_send_err(String::from("down")),
            SubmitCommand::Sleep(ms) => {
                sleeps.push(ms);
                s.on_waited();
            }
            SubmitCommand::Stop => break,
        }
    }
    assert_eq!(sleeps, vec![1000, 2000]);
}

#[test]
fn no_entries_means_nothing_to_do() {
    let s = BatchSubmitter::new(Vec::new(), config(3, 2));
    assert!(matches!(s.phase, SubmitPhase::Done));
    assert!(matches!(s.command(), SubmitCommand::Stop));
}

#[test]
fn empty_first_poll_exits_lost() {
    let mut m = CompletionMonitor::new(vec![String::from("file0.flac")], 600);
    let step = m.tick(Some(vec![status("other.flac", vec![DownloadState::InProgress])]));
    assert!(matches!(step, MonitorStep::Exit(MonitorExit::Lost)));
    assert_eq!(m.attempts, 1);
}

#[test]
fn all_succeeded_on_poll_five_exits_all_terminal() {
    let names = vec![String::from("a.flac"), String::from("b.flac")];
    let mut m = CompletionMonitor::new(names, 600);
    for _ in 0..4 {
        let step = m.tick(Some(vec![
            status("a.flac", vec![DownloadState::InProgress]),
            status("b.flac", vec![DownloadState::Queued]),
        ]));
        assert!(matches!(step, MonitorStep::Continue));
    }
    let step = m.tick(Some(vec![
        status("a.flac", vec![DownloadState::Completed, DownloadState::Succeeded]),
        status("b.flac", vec![DownloadState::Succeeded]),
        status("other.flac", vec![DownloadState::InProgress]),
    ]));
    match step {
        MonitorStep::Exit(MonitorExit::AllTerminal { successful, unsuccessful }) => {
            assert_eq!(successful.len(), 2);
            assert_eq!(unsuccessful.len(), 0);
        }
        _ => panic!("expected an AllTerminal exit"),
    }
    assert_eq!(m.attempts, 5);
    assert!(m.attempts <= m.max_attempts);
}

#[test]
fn mixed_terminal_batch_partitions_by_success() {
    let names = vec![String::from("a.flac"), String::from("b.flac")];
    let mut m = CompletionMonitor::new(names, 600);
    let step = m.tick(Some(vec![
        status("a.flac", vec![DownloadState::Succeeded]),
        status("b.flac", vec![DownloadState::Aborted]),
    ]));
    match step {
        MonitorStep::Exit(MonitorExit::AllTerminal { successful, unsuccessful }) => {
            assert_eq!(successful.len(), 1);
            assert_eq!(successful[0].filename, "a.flac");
            assert_eq!(unsuccessful.len(), 1);
            assert_eq!(unsuccessful[0].filename, "b.flac");
        }
        _ => panic!("expected an AllTerminal exit"),
    }
}

#[test]
fn never_terminal_times_out_exactly_at_the_ceiling() {
    let mut m = CompletionMonitor::new(vec![String::from("a.flac")], 600);
    for _ in 0..600 {
        let step = m.tick(Some(vec![status("a.flac", vec![DownloadState::InProgress])]));
        assert!(matches!(step, MonitorStep::Continue));
    }
    let step = m.tick(Some(vec![status("a.flac", vec![DownloadState::InProgress])]));
    assert!(matches!(step, MonitorStep::Exit(MonitorExit::TimedOut)));
    assert_eq!(m.attempts, 601);
}

#[test]
fn a_failed_status_request_only_spends_the_tick() {
    let mut m = CompletionMonitor::new(vec![String::from("a.flac")], 600);
    let step = m.tick(None);
    assert!(matches!(step, MonitorStep::Continue));
    assert_eq!(m.attempts, 1);
}

fn import_entries() -> Vec<AcquisitionEntry> {
    vec![entry("dl/album/a.flac"), entry("dl/album/b.flac")]
}

#[test]
fn success_imports_every_entry_and_cleans_nothing() {
    let mut c = ImportCoordinator::new(import_entries());
    let announced = c.announce();
    for e in &announced {
        assert!(matches!(e.state, EntryState::Importing));
    }
    let (finals, cleanup) = c.resolve(Ok(ImportOutcome::Success));
    assert!(!cleanup);
    assert_eq!(finals.len(), 2);
    for e in &finals {
        assert!(matches!(e.state, EntryState::Imported));
        assert_eq!(e.error, None);
    }
}

#[test]
fn skipped_imports_broadcast_and_demand_cleanup() {
    let mut c = ImportCoordinator::new(import_entries());
    let _ = c.announce();
    let (finals, cleanup) = c.resolve(Ok(ImportOutcome::Skipped));
    assert!(cleanup);
    for e in &finals {
        assert!(matches!(e.state, EntryState::ImportSkipped));
    }
}

#[test]
fn failed_imports_carry_the_reason() {
    let mut c = ImportCoordinator::new(import_entries());
    let _ = c.announce();
    let (finals, cleanup) = c.resolve(Ok(ImportOutcome::Failed(String::from("bad tags"))));
    assert!(cleanup);
    for e in &finals {
        match &e.state {
            EntryState::Failed(msg) => assert_eq!(msg, "Import failed: bad tags"),
            _ => panic!("expected a Failed state"),
        }
        assert_eq!(e.error.as_deref(), Some("Import failed: bad tags"));
    }
}

#[test]
fn timed_out_imports_fail_with_the_fixed_message() {
    let mut c = ImportCoordinator::new(import_entries());
    let _ = c.announce();
    let (finals, cleanup) = c.resolve(Ok(ImportOutcome::TimedOut));
    assert!(cleanup);
    for e in &finals {
        match &e.state {
            EntryState::Failed(msg) => assert_eq!(msg, "Import timed out"),
            _ => panic!("expected a Failed state"),
        }
    }
}

#[test]
fn an_unavailable_importer_fails_with_its_error() {
    let mut c = ImportCoordinator::new(import_entries());
    let _ = c.announce();
    let (finals, cleanup) = c.resolve(Err(String::from("no importer")));
    assert!(cleanup);
    for e in &finals {
        match &e.state {
            EntryState::Failed(msg) => assert_eq!(msg, "Import error: no importer"),
            _ => panic!("expected a Failed state"),
        }
    }
}

#[test]
fn cleanup_spares_the_directory_while_a_sibling_survives() {
    let dir = vec![
        String::from("dl/album/a.flac"),
        String::from("dl/album/b.flac"),
        String::from("dl/album/cover.jpg"),
    ];
    let (remaining, remove) = plan_cleanup(&dir, &import_entries());
    assert_eq!(remaining, vec![String::from("dl/album/cover.jpg")]);
    assert!(!remove);
}

#[test]
fn cleanup_removes_the_directory_once_emptied() {
    let dir = vec![String::from("dl/album/a.flac"), String::from("dl/album/b.flac")];
    let (remaining, remove) = plan_cleanup(&dir, &import_entries());
    assert!(remaining.is_empty());
    assert!(remove);
}

#[test]
fn two_albums_with_batch_size_one_run_independent_pipelines() {
    // Two selected albums, one file each, submitted as two batches
    // separated by the inter-batch delay.
    let chosen = vec![entry("dl/good/a.flac"), entry("dl/bad/b.flac")];
    let mut s = BatchSubmitter::new(chosen, config(1, 2));
    let mut sends = Vec::new();
    let mut sleeps = 0;
    loop {
        match s.command() {
            SubmitCommand::Send(g) => {
                sends.push(g);
                s.on_send_ok();
            }
            SubmitCommand::Sleep(ms) => {
                assert_eq!(ms, 3000);
                sleeps += 1;
                s.on_waited();
            }
            SubmitCommand::Stop => break,
        }
    }
    assert_eq!(sends, vec![0, 1]);
    assert_eq!(sleeps, 1);

    // First batch: every file succeeds at tick 3.
    let mut m1 = CompletionMonitor::new(vec![String::from("dl/good/a.flac")], 600);
    for _ in 0..2 {
        let step = m1.tick(Some(vec![status("dl/good/a.flac", vec![DownloadState::InProgress])]));
        assert!(matches!(step, MonitorStep::Continue));
    }
    let step = m1.tick(Some(vec![status("dl/good/a.flac", vec![DownloadState::Succeeded])]));
    let successful = match step {
        MonitorStep::Exit(MonitorExit::AllTerminal { successful, unsuccessful }) => {
            assert!(unsuccessful.is_empty());
            successful
        }
        _ => panic!("expected an AllTerminal exit"),
    };
    let good = soulbeet::import::succeeded_entries(&successful);
    let mut c = ImportCoordinator::new(good);
    let announced = c.announce();
    assert!(matches!(announced[0].state, EntryState::Importing));
    let (finals, cleanup) = c.resolve(Ok(ImportOutcome::Success));
    assert!(!cleanup);
    assert!(matches!(finals[0].state, EntryState::Imported));

    // Second batch: aborted at tick 1, no importer call, cleanup run.
    let mut m2 = CompletionMonitor::new(vec![String::from("dl/bad/b.flac")], 600);
    let step = m2.tick(Some(vec![status("dl/bad/b.flac", vec![DownloadState::Aborted])]));
    let unsuccessful = match step {
        MonitorStep::Exit(MonitorExit::AllTerminal { successful, unsuccessful }) => {
            assert!(successful.is_empty());
            unsuccessful
        }
        _ => panic!("expected an AllTerminal exit"),
    };
    assert_eq!(unsuccessful.len(), 1);
    let failed_batch = vec![entry("dl/bad/b.flac")];
    let reason = String::from("Download failed");
    let finals = soulbeet::import::mark_failed(&failed_batch, &reason);
    assert!(matches!(finals[0].state, EntryState::Failed(_)));
    let dir = vec![String::from("dl/bad/b.flac")];
    let (remaining, remove) = plan_cleanup(&dir, &failed_batch);
    assert!(remaining.is_empty());
    assert!(remove);
}

#[test]
fn the_service_state_field_parses_into_flags() {
    let flags = parse_state_flags("Completed, Succeeded");
    assert_eq!(flags, vec![DownloadState::Completed, DownloadState::Succeeded]);
    let flags = parse_state_flags("InProgress");
    assert_eq!(flags, vec![DownloadState::InProgress]);
    let flags = parse_state_flags("Completed, Oddball, Errored");
    assert_eq!(flags, vec![DownloadState::Completed, DownloadState::Errored]);
    assert_eq!(parse_state_flags(""), vec![]);
}
