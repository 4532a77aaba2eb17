//! Transferring a new snapshot with delta-base fallback.
//!
//! Each catalog entry is attempted in the catalog's stored order — oldest
//! first, favouring the longest-lived common ancestor — as the delta base
//! for one composite send-into-receive operation; the first success wins
//! and the rest are skipped. If every candidate fails, or none exists, the
//! transfer reports that no base matched. No attempt is ever made with a
//! base outside the catalog, and never more than one attempt per entry.

use crate::catalog::Catalog;
use crate::command::interpret_output;
use crate::command::BackupCommand;
use crate::command::CommandRunner;
use crate::snapshot::Snapshot;
use vstd::prelude::*;
use vstd::string::StringExecFns;

verus! {

/// How a transfer ended: sent, with the base snapshot that was used, or
/// fallback exhausted with no matching base.
pub enum TransferOutcome {
    Sent { base: Snapshot },
    NoMatchingBase,
}

/// The one command a transfer attempt hands to the outside world: send
/// exactly `snapshot` into exactly `dest`, as a delta against exactly the
/// given base when there is one, in full otherwise.
pub fn transfer_command(snapshot: &Snapshot, base: Option<&Snapshot>, dest: &str) -> (c:
    BackupCommand)
    ensures
        (c matches BackupCommand::Transfer { snapshot: s, base: b, dest: d } && s@
            == snapshot.path@ && d@ == dest@ && (match base {
            None => b is None,
            Some(x) => (b matches Some(p) && p@ == x.path@),
        })),
{
    let base_path = match base {
        None => None,
        Some(b) => Some(b.path.clone()),
    };
    BackupCommand::Transfer {
        snapshot: snapshot.path.clone(),
        base: base_path,
        dest: String::from_str(dest),
    }
}

/// Performs a single transfer of `snapshot` to `dest` — a delta against
/// `base` when one is given, full otherwise — and reports the captured
/// standard output on success or the diagnostic text on failure, exactly
/// as the underlying mechanism reported it. The command issued is exactly
/// [`transfer_command`]'s; whether it succeeds is the runner's to decide,
/// so callers must cope with both answers.
pub fn send_one<R: CommandRunner>(
    runner: &mut R,
    snapshot: &Snapshot,
    base: Option<&Snapshot>,
    dest: &str,
) -> Result<String, String> {
    let cmd = transfer_command(snapshot, base, dest);
    let out = runner.run(&cmd);
    interpret_output(out)
}

/// Attempts each candidate in catalog order and stops at the first
/// success; also reports how many attempts were performed. At most one
/// attempt per candidate is made; an empty candidate list makes zero
/// attempts and yields no matching base; on success the base used is the
/// candidate of the last attempt made.
pub fn send_with_attempts<R: CommandRunner>(
    runner: &mut R,
    new_snapshot: &Snapshot,
    candidates: &Catalog,
    dest: &str,
) -> (r: (TransferOutcome, usize))
    ensures
        r.1 <= candidates@.len(),
        r.0 is NoMatchingBase ==> r.1 == candidates@.len(),
        r.0 matches TransferOutcome::Sent { base } ==> 1 <= r.1 && base@ == candidates@[r.1 - 1],
        candidates@.len() == 0 ==> r.0 is NoMatchingBase && r.1 == 0,
{
    let n = candidates.entries.len();
    let mut i: usize = 0;
    while i < n
        invariant
            i <= n,
            n == candidates@.len(),
        decreases n - i,
    {
        match send_one(runner, new_snapshot, Some(&candidates.entries[i]), dest) {
            Ok(_output) => {
                return (TransferOutcome::Sent { base: candidates.entries[i].duplicate() }, i + 1);
            },
            Err(_diagnostic) => {},
        }
        i += 1;
    }
    (TransferOutcome::NoMatchingBase, n)
}

/// Sends `new_snapshot` to `dest`, falling back through `candidates` in
/// catalog order. Success always carries one of the candidates as its
/// base; an empty candidate list can only yield no matching base.
pub fn send<R: CommandRunner>(
    runner: &mut R,
    new_snapshot: &Snapshot,
    candidates: &Catalog,
    dest: &str,
) -> (r: TransferOutcome)
    ensures
        r matches TransferOutcome::Sent { base } ==> exists|i: int|
            0 <= i < candidates@.len() && base@ == #[trigger] candidates@[i],
        candidates@.len() == 0 ==> r is NoMatchingBase,
{
    let (outcome, _attempts) = send_with_attempts(runner, new_snapshot, candidates, dest);
    outcome
}

} // verus!
