//! The command-runner capability and the error taxonomy.
//!
//! Every external effect of a run — listing the backup root, creating it,
//! creating a snapshot, transferring one, deleting one — is described by a
//! structured [`BackupCommand`] value and performed by an implementation of
//! [`CommandRunner`] supplied from outside. Nothing is assumed of what a
//! runner returns, so everything proved here holds whatever the outside
//! world does; the decision logic is stated over the structured result.

use vstd::prelude::*;
use vstd::string::StringExecFns;

verus! {

/// One external operation, with every operand spelled out as data: no
/// command line is assembled inside the core, so there is nothing to
/// inject into.
#[derive(Clone, Debug, PartialEq, Eq)]
pub enum BackupCommand {
    /// List the entry names under `path`, one per line, in any order.
    ListDir { path: String },
    /// Create the directory `path`.
    MakeDir { path: String },
    /// Create a read-only snapshot of the filesystem tree at `source`,
    /// stored at `dest`.
    CreateSnapshot { source: String, dest: String },
    /// Send the snapshot at `snapshot` into `dest` — as a delta against
    /// `base` when one is given, in full otherwise. The producing and the
    /// consuming side form one composite operation that succeeds or fails
    /// as a whole.
    Transfer { snapshot: String, base: Option<String>, dest: String },
    /// Delete the snapshot at `path`.
    Delete { path: String },
}

/// What running a command yielded: whether it exited successfully, and the
/// captured output of each stream.
pub struct CmdOutput {
    pub exited_ok: bool,
    pub stdout: String,
    pub stderr: String,
}

/// The capability to run commands. Implementations live outside the
/// verified core (the real one spawns processes; tests script answers), so
/// no contract constrains them: every caller in the core must cope with
/// every possible output.
pub trait CommandRunner {
    fn run(&mut self, cmd: &BackupCommand) -> CmdOutput;
}

/// How a run fails, by kind, so a caller can tell the conditions apart
/// without reading message text.
#[derive(Debug)]
pub enum BackupError {
    /// An external command exited unsuccessfully; carries its diagnostic
    /// output.
    CommandFailed { diagnostic: String },
    /// Every transfer candidate failed, or none existed.
    NoMatchingBase,
    /// A deletion failed; carries the path that would not go and the
    /// diagnostic output.
    PruneFailed { path: String, diagnostic: String },
}

/// Reads a command's structured result: the captured standard output on
/// success, the captured diagnostic on failure — success exactly when the
/// command reported it.
pub fn interpret_output(out: CmdOutput) -> (r: Result<String, String>)
    ensures
        r is Ok <==> out.exited_ok,
        r matches Ok(s) ==> s@ == out.stdout@,
        r matches Err(e) ==> e@ == out.stderr@,
{
    if out.exited_ok {
        Ok(out.stdout)
    } else {
        Err(out.stderr)
    }
}

/// Combines the two stages of a transfer pipeline — the producing side
/// and the consuming side — into the one composite result the transfer
/// reports: the composite succeeds exactly when both stages did, its
/// output is the consuming side's, and its diagnostic is both stages'
/// diagnostics in stage order, so a failure can be attributed to its
/// side.
pub fn combine_pipeline(producer: CmdOutput, consumer: CmdOutput) -> (r: CmdOutput)
    ensures
        r.exited_ok == (producer.exited_ok && consumer.exited_ok),
        r.stdout@ == consumer.stdout@,
        r.stderr@ == producer.stderr@ + consumer.stderr@,
{
    let mut stderr = producer.stderr;
    stderr.append(consumer.stderr.as_str());
    CmdOutput {
        exited_ok: producer.exited_ok && consumer.exited_ok,
        stdout: consumer.stdout,
        stderr,
    }
}

impl BackupError {
    /// A human-readable account of the failure.
    pub fn message(&self) -> (r: String)
        ensures
            *self is NoMatchingBase ==> r@ == "no matching base snapshot"@,
            self matches BackupError::CommandFailed { diagnostic } ==> r@ == "command failed: "@
                + diagnostic@,
            self matches BackupError::PruneFailed { path, diagnostic } ==> r@
                == "could not delete "@ + path@ + ": "@ + diagnostic@,
    {
        match self {
            BackupError::CommandFailed { diagnostic } => {
                let mut m = String::from_str("command failed: ");
                m.append(diagnostic.as_str());
                m
            },
            BackupError::NoMatchingBase => String::from_str("no matching base snapshot"),
            BackupError::PruneFailed { path, diagnostic } => {
                let mut m = String::from_str("could not delete ");
                m.append(path.as_str());
                m.append(": ");
                m.append(diagnostic.as_str());
                m
            },
        }
    }
}

} // verus!
