//! The end-to-end run: list, create, transfer, optionally prune.
//!
//! A run lists the catalog first, then creates the new snapshot, then
//! transfers it with the pre-listing catalog as the fallback candidates,
//! and only then — only if requested, and only after a successful
//! transfer — prunes exactly that pre-listing catalog. The first fatal
//! error aborts the rest: a failed transfer is never followed by pruning.

use crate::catalog::SnapshotCatalog;
use crate::clock::timestamp_now;
use crate::command::interpret_output;
use crate::command::BackupCommand;
use crate::command::BackupError;
use crate::command::CommandRunner;
use crate::prune::prune;
use crate::snapshot::snapshot_at;
use crate::snapshot::spec_path;
use crate::snapshot::Snapshot;
use crate::timestamp::Timestamp;
use crate::transfer::send;
use crate::transfer::TransferOutcome;
use vstd::prelude::*;
use vstd::string::StringExecFns;

verus! {

/// The fixed configuration of a run: the backup root under which
/// snapshots live.
pub struct Orchestrator {
    pub root: String,
}

/// What a successful run reports: the snapshot it created and the base
/// snapshot the transfer used.
pub struct RunReport {
    pub new_snapshot: Snapshot,
    pub base_used: Snapshot,
}

/// The one command that creates a run's snapshot: a read-only snapshot
/// of the filesystem root, stored at exactly the new snapshot's path.
pub fn create_snapshot_command(new_snapshot: &Snapshot) -> (c: BackupCommand)
    ensures
        (c matches BackupCommand::CreateSnapshot { source, dest } && source@ == "/"@ && dest@
            == new_snapshot.path@),
{
    BackupCommand::CreateSnapshot {
        source: String::from_str("/"),
        dest: new_snapshot.path.clone(),
    }
}

impl Orchestrator {
    /// One full run, started at time `now`: list, create, transfer,
    /// optionally prune. On success the new snapshot is the one this run
    /// created — stamped `now`, directly under the root — and the base
    /// used is a well-formed catalog entry under the same root. A prune
    /// failure can only be reported when pruning was requested.
    pub fn run_backup_at<R: CommandRunner>(
        &self,
        runner: &mut R,
        dest: &str,
        prune_requested: bool,
        now: Timestamp,
    ) -> (r: Result<RunReport, BackupError>)
        requires
            now.wf(),
        ensures
            r matches Ok(report) ==> report.new_snapshot@.stamp == now
                && report.new_snapshot@.path == spec_path(self.root@, now)
                && report.base_used@.stamp.wf() && report.base_used@.path == spec_path(
                self.root@,
                report.base_used@.stamp,
            ),
            r matches Err(e) && e is PruneFailed ==> prune_requested,
    {
        let lister = SnapshotCatalog { root: self.root.clone() };
        let catalog = match lister.list(runner) {
            Ok(c) => c,
            Err(e) => { return Err(e); },
        };
        let new_snapshot = snapshot_at(self.root.as_str(), &now);
        let cmd = create_snapshot_command(&new_snapshot);
        let created = runner.run(&cmd);
        match interpret_output(created) {
            Ok(_output) => {},
            Err(diagnostic) => { return Err(BackupError::CommandFailed { diagnostic }); },
        }
        let base_used = match send(runner, &new_snapshot, &catalog, dest) {
            TransferOutcome::Sent { base } => base,
            TransferOutcome::NoMatchingBase => { return Err(BackupError::NoMatchingBase); },
        };
        if prune_requested {
            match prune(runner, &catalog) {
                Ok(_done) => {},
                Err(e) => { return Err(e); },
            }
        }
        Ok(RunReport { new_snapshot, base_used })
    }

    /// One full run at the clock's current time. The snapshot created is
    /// stamped with a well-formed time and lives directly under the root,
    /// whatever the clock read.
    pub fn run_backup<R: CommandRunner>(
        &self,
        runner: &mut R,
        dest: &str,
        prune_requested: bool,
    ) -> (r: Result<RunReport, BackupError>)
        ensures
            r matches Ok(report) ==> report.new_snapshot@.stamp.wf() && report.new_snapshot@.path
                == spec_path(self.root@, report.new_snapshot@.stamp)
                && report.base_used@.stamp.wf() && report.base_used@.path == spec_path(
                self.root@,
                report.base_used@.stamp,
            ),
            r matches Err(e) && e is PruneFailed ==> prune_requested,
    {
        let now = timestamp_now();
        self.run_backup_at(runner, dest, prune_requested, now)
    }
}

} // verus!
