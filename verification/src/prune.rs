//! Pruning superseded snapshots.
//!
//! A prune deletes exactly the entries of the catalog it is given, in the
//! catalog's order, and halts at the first failed deletion with no
//! recovery and no rollback. The catalog handed to a prune is always the
//! one listed before the run's new snapshot was created, so the new
//! snapshot is never a prune candidate; the lemmas below pin that down.

use crate::catalog::Catalog;
use crate::command::interpret_output;
use crate::command::BackupCommand;
use crate::command::BackupError;
use crate::command::CommandRunner;
use crate::snapshot::entry_wf;
use crate::snapshot::lemma_path_determines_stamp;
use crate::snapshot::spec_path;
use crate::snapshot::Entry;
use crate::timestamp::Timestamp;
use vstd::prelude::*;

verus! {

/// `cmds` is the deletion plan for `es`: one deletion per entry, in the
/// same order, naming exactly that entry's path.
pub open spec fn is_delete_plan(cmds: Seq<BackupCommand>, es: Seq<Entry>) -> bool {
    cmds.len() == es.len() && forall|i: int|
        0 <= i < es.len() ==> ((#[trigger] cmds[i]) matches BackupCommand::Delete { path } && path@
            == es[i].path)
}

/// The deletions a prune of `catalog` performs, as data: exactly the
/// catalog's entries, in order.
pub fn delete_commands(catalog: &Catalog) -> (r: Vec<BackupCommand>)
    ensures
        is_delete_plan(r@, catalog@),
{
    let mut r: Vec<BackupCommand> = Vec::new();
    let mut i: usize = 0;
    while i < catalog.entries.len()
        invariant
            i <= catalog.entries@.len(),
            r@.len() == i,
            forall|j: int|
                0 <= j < i ==> ((#[trigger] r@[j]) matches BackupCommand::Delete { path } && path@
                    == catalog@[j].path),
        decreases catalog.entries@.len() - i,
    {
        r.push(BackupCommand::Delete { path: catalog.entries[i].path.clone() });
        i += 1;
    }
    r
}

/// Deletes every snapshot in `catalog`, in order; the first failed
/// deletion is fatal and halts the rest. A failure always names one of
/// the catalog's own paths — nothing outside the catalog is ever deleted
/// — so pruning an empty catalog cannot fail.
pub fn prune<R: CommandRunner>(runner: &mut R, catalog: &Catalog) -> (r: Result<(), BackupError>)
    ensures
        catalog@.len() == 0 ==> r is Ok,
        r matches Err(e) ==> (e matches BackupError::PruneFailed { path, .. } && exists|i: int|
            0 <= i < catalog@.len() && path@ == (#[trigger] catalog@[i]).path),
{
    let plan = delete_commands(catalog);
    let mut i: usize = 0;
    while i < catalog.entries.len()
        invariant
            i <= catalog.entries@.len(),
            plan@.len() == catalog@.len(),
            is_delete_plan(plan@, catalog@),
        decreases catalog.entries@.len() - i,
    {
        let out = runner.run(&plan[i]);
        match interpret_output(out) {
            Ok(_output) => {},
            Err(diagnostic) => {
                proof {
                    assert(catalog@[i as int].path == catalog.entries@[i as int].path@);
                }
                return Err(
                    BackupError::PruneFailed { path: catalog.entries[i].path.clone(), diagnostic },
                );
            },
        }
        i += 1;
    }
    Ok(())
}

/// A deletion plan for entries that all lie off a given path never
/// deletes that path: pruning the pre-run catalog cannot touch the
/// snapshot created in the same run.
pub proof fn lemma_plan_spares_path(cmds: Seq<BackupCommand>, es: Seq<Entry>, new_path: Seq<char>)
    requires
        is_delete_plan(cmds, es),
        forall|i: int| 0 <= i < es.len() ==> (#[trigger] es[i]).path != new_path,
    ensures
        forall|i: int|
            0 <= i < cmds.len() ==> ((#[trigger] cmds[i]) matches BackupCommand::Delete { path }
                && path@ != new_path),
{
}

/// Pruning deletes exactly the catalog's entries, in order, and never
/// the snapshot created in the same run: the pre-run catalog cannot
/// contain a snapshot stamped with the run's own creation time, since
/// distinct creation times make distinct paths.
pub proof fn lemma_prune_never_deletes_new(
    plan: Seq<BackupCommand>,
    c: Catalog,
    root: Seq<char>,
    now: Timestamp,
)
    requires
        is_delete_plan(plan, c@),
        c.wf(root),
        now.wf(),
        forall|i: int| 0 <= i < c@.len() ==> (#[trigger] c@[i]).stamp.key() != now.key(),
    ensures
        plan.len() == c@.len(),
        forall|i: int|
            0 <= i < plan.len() ==> ((#[trigger] plan[i]) matches BackupCommand::Delete { path }
                && path@ == c@[i].path && path@ != spec_path(root, now)),
{
    lemma_fresh_stamp_off_catalog(c@, root, now);
    lemma_plan_spares_path(plan, c@, spec_path(root, now));
}

/// A catalog whose creation times all differ from the run's own cannot
/// contain the run's new snapshot: distinct times mean distinct paths.
pub proof fn lemma_fresh_stamp_off_catalog(es: Seq<Entry>, root: Seq<char>, now: Timestamp)
    requires
        now.wf(),
        forall|i: int| 0 <= i < es.len() ==> entry_wf(#[trigger] es[i], root),
        forall|i: int| 0 <= i < es.len() ==> (#[trigger] es[i]).stamp.key() != now.key(),
    ensures
        forall|i: int| 0 <= i < es.len() ==> (#[trigger] es[i]).path != spec_path(root, now),
{
    assert forall|i: int| 0 <= i < es.len() implies (#[trigger] es[i]).path != spec_path(
        root,
        now,
    ) by {
        if es[i].path == spec_path(root, now) {
            lemma_path_determines_stamp(root, es[i].stamp, now);
        }
    };
}

} // verus!
