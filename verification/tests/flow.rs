//! Tests of the command-driven flow, with a scripted runner standing in
//! for the outside world: listing, transfer fallback, pruning, and the
//! end-to-end run scenarios.

use snapshot_backup::catalog::Catalog;
use snapshot_backup::catalog::SnapshotCatalog;
use snapshot_backup::command::BackupCommand;
use snapshot_backup::command::BackupError;
use snapshot_backup::command::CmdOutput;
use snapshot_backup::command::CommandRunner;
use snapshot_backup::orchestrator::create_snapshot_command;
use snapshot_backup::orchestrator::Orchestrator;
use snapshot_backup::prune::delete_commands;
use snapshot_backup::prune::prune;
use snapshot_backup::snapshot::snapshot_at;
use snapshot_backup::snapshot::Snapshot;
use snapshot_backup::timestamp::Timestamp;
use snapshot_backup::transfer::send_with_attempts;
use snapshot_backup::transfer::transfer_command;
use snapshot_backup::transfer::TransferOutcome;

fn ts(year: u32, month: u32, day: u32, hour: u32, minute: u32, second: u32) -> Timestamp {
    Timestamp { year, month, day, hour, minute, second }
}

/// A runner that answers from a fixed script and records every command it
/// was asked to run.
struct ScriptRunner {
    replies: Vec<CmdOutput>,
    next: usize,
    calls: Vec<BackupCommand>,
}

impl ScriptRunner {
    fn new(replies: Vec<(bool, &str, &str)>) -> ScriptRunner {
        ScriptRunner {
            replies: replies
                .into_iter()
                .map(|(exited_ok, stdout, stderr)| CmdOutput {
                    exited_ok,
                    stdout: stdout.to_string(),
                    stderr: stderr.to_string(),
                })
                .collect(),
            next: 0,
            calls: Vec::new(),
        }
    }
}

impl CommandRunner for ScriptRunner {
    fn run(&mut self, cmd: &BackupCommand) -> CmdOutput {
        self.calls.push(cmd.clone());
        assert!(self.next < self.replies.len(), "unexpected extra command");
        let reply = &self.replies[self.next];
        self.next += 1;
        CmdOutput {
            exited_ok: reply.exited_ok,
            stdout: reply.stdout.clone(),
            stderr: reply.stderr.clone(),
        }
    }
}

fn two_prior_snapshots() -> (Snapshot, Snapshot) {
    (
        snapshot_at("/.backup", &ts(2023, 1, 1, 0, 0, 0)),
        snapshot_at("/.backup", &ts(2024, 1, 1, 0, 0, 0)),
    )
}

#[test]
fn list_sorts_unsorted_listing_ascending() {
    // `ls -t` hands the entries newest first; the catalog reorders them.
    let listing = "pad.2024-05-01T10:00:00Z\npad.2023-01-01T00:00:00Z\npad.2024-01-01T00:00:00Z\n";
    let mut runner = ScriptRunner::new(vec![(true, listing, "")]);
    let lister = SnapshotCatalog { root: "/.backup".to_string() };
    let catalog = lister.list(&mut runner).unwrap();
    let paths: Vec<&str> = catalog.entries.iter().map(|s| s.path.as_str()).collect();
    assert_eq!(
        paths,
        vec![
            "/.backup/pad.2023-01-01T00:00:00Z",
            "/.backup/pad.2024-01-01T00:00:00Z",
            "/.backup/pad.2024-05-01T10:00:00Z",
        ]
    );
    assert_eq!(runner.calls, vec![BackupCommand::ListDir { path: "/.backup".to_string() }]);
}

#[test]
fn list_creates_missing_root_and_returns_empty() {
    let mut runner =
        ScriptRunner::new(vec![(false, "", "ls: cannot access"), (true, "", "")]);
    let lister = SnapshotCatalog { root: "/.backup".to_string() };
    let catalog = lister.list(&mut runner).unwrap();
    assert!(catalog.entries.is_empty());
    assert_eq!(
        runner.calls,
        vec![
            BackupCommand::ListDir { path: "/.backup".to_string() },
            BackupCommand::MakeDir { path: "/.backup".to_string() },
        ]
    );
}

#[test]
fn list_fails_when_root_cannot_be_created() {
    let mut runner = ScriptRunner::new(vec![
        (false, "", "ls: cannot access"),
        (false, "", "mkdir: permission denied"),
    ]);
    let lister = SnapshotCatalog { root: "/.backup".to_string() };
    match lister.list(&mut runner) {
        Err(BackupError::CommandFailed { diagnostic }) => {
            // The root could not be created, so it was not missing: the
            // listing failure itself was fatal and its diagnostic surfaces.
            assert_eq!(diagnostic, "ls: cannot access");
        }
        other => panic!("expected a fatal command failure, got {:?}", other.is_ok()),
    }
}

#[test]
fn transfer_command_carries_exactly_the_operands() {
    let (s1, _s2) = two_prior_snapshots();
    let new_snapshot = snapshot_at("/.backup", &ts(2024, 5, 1, 10, 0, 0));
    assert_eq!(
        transfer_command(&new_snapshot, Some(&s1), "remote:/backups"),
        BackupCommand::Transfer {
            snapshot: "/.backup/pad.2024-05-01T10:00:00Z".to_string(),
            base: Some("/.backup/pad.2023-01-01T00:00:00Z".to_string()),
            dest: "remote:/backups".to_string(),
        }
    );
    assert_eq!(
        transfer_command(&new_snapshot, None, "dest"),
        BackupCommand::Transfer {
            snapshot: "/.backup/pad.2024-05-01T10:00:00Z".to_string(),
            base: None,
            dest: "dest".to_string(),
        }
    );
}

#[test]
fn create_snapshot_command_snapshots_the_root_at_the_new_path() {
    let new_snapshot = snapshot_at("/.backup", &ts(2024, 5, 1, 10, 0, 0));
    assert_eq!(
        create_snapshot_command(&new_snapshot),
        BackupCommand::CreateSnapshot {
            source: "/".to_string(),
            dest: "/.backup/pad.2024-05-01T10:00:00Z".to_string(),
        }
    );
}

#[test]
fn send_makes_zero_attempts_on_empty_catalog() {
    let mut runner = ScriptRunner::new(vec![]);
    let new_snapshot = snapshot_at("/.backup", &ts(2024, 5, 1, 10, 0, 0));
    let catalog = Catalog { entries: Vec::new() };
    let (outcome, attempts) = send_with_attempts(&mut runner, &new_snapshot, &catalog, "dest");
    assert!(matches!(outcome, TransferOutcome::NoMatchingBase));
    assert_eq!(attempts, 0);
    assert!(runner.calls.is_empty());
}

#[test]
fn send_stops_at_the_first_success() {
    let (s1, s2) = two_prior_snapshots();
    let mut runner = ScriptRunner::new(vec![(true, "sent", "")]);
    let new_snapshot = snapshot_at("/.backup", &ts(2024, 5, 1, 10, 0, 0));
    let catalog = Catalog { entries: vec![s1, s2] };
    let (outcome, attempts) =
        send_with_attempts(&mut runner, &new_snapshot, &catalog, "remote:/backups");
    match outcome {
        TransferOutcome::Sent { base } => {
            assert_eq!(base.path, "/.backup/pad.2023-01-01T00:00:00Z");
        }
        TransferOutcome::NoMatchingBase => panic!("expected a successful transfer"),
    }
    assert_eq!(attempts, 1);
    assert_eq!(
        runner.calls,
        vec![BackupCommand::Transfer {
            snapshot: "/.backup/pad.2024-05-01T10:00:00Z".to_string(),
            base: Some("/.backup/pad.2023-01-01T00:00:00Z".to_string()),
            dest: "remote:/backups".to_string(),
        }]
    );
}

#[test]
fn send_advances_to_the_next_candidate_on_failure() {
    let (s1, s2) = two_prior_snapshots();
    let mut runner =
        ScriptRunner::new(vec![(false, "", "no common parent"), (true, "sent", "")]);
    let new_snapshot = snapshot_at("/.backup", &ts(2024, 5, 1, 10, 0, 0));
    let catalog = Catalog { entries: vec![s1, s2] };
    let (outcome, attempts) = send_with_attempts(&mut runner, &new_snapshot, &catalog, "dest");
    match outcome {
        TransferOutcome::Sent { base } => {
            assert_eq!(base.path, "/.backup/pad.2024-01-01T00:00:00Z");
        }
        TransferOutcome::NoMatchingBase => panic!("expected a successful transfer"),
    }
    assert_eq!(attempts, 2);
    assert_eq!(runner.calls.len(), 2);
}

#[test]
fn send_exhausts_every_candidate() {
    let (s1, s2) = two_prior_snapshots();
    let mut runner =
        ScriptRunner::new(vec![(false, "", "unreachable"), (false, "", "unreachable")]);
    let new_snapshot = snapshot_at("/.backup", &ts(2024, 5, 1, 10, 0, 0));
    let catalog = Catalog { entries: vec![s1, s2] };
    let (outcome, attempts) = send_with_attempts(&mut runner, &new_snapshot, &catalog, "dest");
    assert!(matches!(outcome, TransferOutcome::NoMatchingBase));
    assert_eq!(attempts, 2);
    assert_eq!(runner.calls.len(), 2);
}

#[test]
fn delete_commands_name_catalog_paths_in_order() {
    let (s1, s2) = two_prior_snapshots();
    let catalog = Catalog { entries: vec![s1, s2] };
    let plan = delete_commands(&catalog);
    assert_eq!(
        plan,
        vec![
            BackupCommand::Delete { path: "/.backup/pad.2023-01-01T00:00:00Z".to_string() },
            BackupCommand::Delete { path: "/.backup/pad.2024-01-01T00:00:00Z".to_string() },
        ]
    );
}

#[test]
fn prune_deletes_exactly_in_order() {
    let (s1, s2) = two_prior_snapshots();
    let mut runner = ScriptRunner::new(vec![(true, "", ""), (true, "", "")]);
    let catalog = Catalog { entries: vec![s1, s2] };
    assert!(prune(&mut runner, &catalog).is_ok());
    assert_eq!(
        runner.calls,
        vec![
            BackupCommand::Delete { path: "/.backup/pad.2023-01-01T00:00:00Z".to_string() },
            BackupCommand::Delete { path: "/.backup/pad.2024-01-01T00:00:00Z".to_string() },
        ]
    );
}

#[test]
fn prune_halts_at_the_first_failure() {
    let (s1, s2) = two_prior_snapshots();
    let mut runner = ScriptRunner::new(vec![(false, "", "busy")]);
    let catalog = Catalog { entries: vec![s1, s2] };
    match prune(&mut runner, &catalog) {
        Err(BackupError::PruneFailed { path, diagnostic }) => {
            assert_eq!(path, "/.backup/pad.2023-01-01T00:00:00Z");
            assert_eq!(diagnostic, "busy");
        }
        other => panic!("expected a prune failure, got {:?}", other.is_ok()),
    }
    assert_eq!(runner.calls.len(), 1);
}

#[test]
fn scenario_first_run_on_empty_root_finds_no_base() {
    // Empty catalog: the new snapshot is created, then the fallback loop
    // makes zero attempts and the run aborts before any pruning.
    let mut runner = ScriptRunner::new(vec![(true, "", ""), (true, "", "")]);
    let orchestrator = Orchestrator { root: "/.backup".to_string() };
    let outcome = orchestrator.run_backup_at(&mut runner, "dest", true, ts(2024, 5, 1, 10, 0, 0));
    assert!(matches!(outcome, Err(BackupError::NoMatchingBase)));
    assert_eq!(
        runner.calls,
        vec![
            BackupCommand::ListDir { path: "/.backup".to_string() },
            BackupCommand::CreateSnapshot {
                source: "/".to_string(),
                dest: "/.backup/pad.2024-05-01T10:00:00Z".to_string(),
            },
        ]
    );
}

#[test]
fn scenario_missing_root_is_created_then_first_run_proceeds() {
    let mut runner = ScriptRunner::new(vec![
        (false, "", "ls: cannot access"),
        (true, "", ""),
        (true, "", ""),
    ]);
    let orchestrator = Orchestrator { root: "/.backup".to_string() };
    let outcome =
        orchestrator.run_backup_at(&mut runner, "dest", false, ts(2024, 5, 1, 10, 0, 0));
    assert!(matches!(outcome, Err(BackupError::NoMatchingBase)));
    assert_eq!(runner.calls.len(), 3);
    assert!(matches!(runner.calls[1], BackupCommand::MakeDir { .. }));
    assert!(matches!(runner.calls[2], BackupCommand::CreateSnapshot { .. }));
}

#[test]
fn scenario_one_prior_snapshot_succeeds_without_pruning() {
    let listing = "pad.2023-01-01T00:00:00Z\n";
    let mut runner =
        ScriptRunner::new(vec![(true, listing, ""), (true, "", ""), (true, "sent", "")]);
    let orchestrator = Orchestrator { root: "/.backup".to_string() };
    let report = orchestrator
        .run_backup_at(&mut runner, "remote:/backups", false, ts(2024, 5, 1, 10, 0, 0))
        .unwrap();
    assert_eq!(report.new_snapshot.path, "/.backup/pad.2024-05-01T10:00:00Z");
    assert_eq!(report.base_used.path, "/.backup/pad.2023-01-01T00:00:00Z");
    // With pruning disabled nothing is deleted: both snapshots remain.
    assert_eq!(runner.calls.len(), 3);
    assert!(!runner.calls.iter().any(|c| matches!(c, BackupCommand::Delete { .. })));
}

#[test]
fn scenario_two_priors_with_pruning_deletes_both() {
    // `ls -t` newest first; the transfer succeeds with the oldest base,
    // then exactly the pre-run catalog is pruned, oldest first.
    let listing = "pad.2024-01-01T00:00:00Z\npad.2023-01-01T00:00:00Z\n";
    let mut runner = ScriptRunner::new(vec![
        (true, listing, ""),
        (true, "", ""),
        (true, "sent", ""),
        (true, "", ""),
        (true, "", ""),
    ]);
    let orchestrator = Orchestrator { root: "/.backup".to_string() };
    let report = orchestrator
        .run_backup_at(&mut runner, "dest", true, ts(2024, 5, 1, 10, 0, 0))
        .unwrap();
    assert_eq!(report.base_used.path, "/.backup/pad.2023-01-01T00:00:00Z");
    assert_eq!(
        runner.calls[2],
        BackupCommand::Transfer {
            snapshot: "/.backup/pad.2024-05-01T10:00:00Z".to_string(),
            base: Some("/.backup/pad.2023-01-01T00:00:00Z".to_string()),
            dest: "dest".to_string(),
        }
    );
    assert_eq!(
        &runner.calls[3..],
        &[
            BackupCommand::Delete { path: "/.backup/pad.2023-01-01T00:00:00Z".to_string() },
            BackupCommand::Delete { path: "/.backup/pad.2024-01-01T00:00:00Z".to_string() },
        ]
    );
}

#[test]
fn run_backup_names_the_new_snapshot_from_the_clock() {
    // The clock-driven entry point: whatever time the clock reads, the new
    // snapshot is created under the root with the constant prefix and a
    // twenty-character timestamp.
    let mut runner = ScriptRunner::new(vec![(true, "", ""), (true, "", "")]);
    let orchestrator = Orchestrator { root: "/.backup".to_string() };
    let outcome = orchestrator.run_backup(&mut runner, "dest", false);
    assert!(matches!(outcome, Err(BackupError::NoMatchingBase)));
    match &runner.calls[1] {
        BackupCommand::CreateSnapshot { source, dest } => {
            assert_eq!(source, "/");
            assert!(dest.starts_with("/.backup/pad."));
            assert_eq!(dest.len(), "/.backup/pad.".len() + 20);
            assert!(dest.ends_with('Z'));
        }
        other => panic!("expected a snapshot creation, got {:?}", other),
    }
}

#[test]
fn scenario_fallback_exhaustion_never_prunes() {
    let listing = "pad.2024-01-01T00:00:00Z\npad.2023-01-01T00:00:00Z\n";
    let mut runner = ScriptRunner::new(vec![
        (true, listing, ""),
        (true, "", ""),
        (false, "", "destination unreachable"),
        (false, "", "destination unreachable"),
    ]);
    let orchestrator = Orchestrator { root: "/.backup".to_string() };
    let outcome = orchestrator.run_backup_at(&mut runner, "dest", true, ts(2024, 5, 1, 10, 0, 0));
    assert!(matches!(outcome, Err(BackupError::NoMatchingBase)));
    let transfers =
        runner.calls.iter().filter(|c| matches!(c, BackupCommand::Transfer { .. })).count();
    assert_eq!(transfers, 2);
    assert!(!runner.calls.iter().any(|c| matches!(c, BackupCommand::Delete { .. })));
}
