//! The error taxonomy of the orchestration core.

use vstd::prelude::*;

verus! {

/// The space-separated join of the first `k` argument strings.
pub open spec fn joined_args(args: Seq<String>, k: int) -> Seq<char>
    decreases k,
{
    if k <= 0 {
        Seq::empty()
    } else if k == 1 {
        args[0]@
    } else {
        joined_args(args, k - 1) + seq![' '] + args[k - 1]@
    }
}

/// Errors of the process-execution helpers.
#[derive(Debug, Clone, PartialEq, Eq)]
pub enum UtilsError {
    /// A command failed: the full command line, and the cause.
    ExecError(String, String),
    /// A path could not be represented as UTF-8 text; carries its lossy
    /// rendering.
    PathNotUtf8(String),
}

impl UtilsError {
    /// The error for a command that could not be run, from the reported
    /// cause.
    pub fn from_exec_stderr(cmd: &str, args: &Vec<String>, cause: String) -> (r: UtilsError)
        ensures
            (r matches UtilsError::ExecError(c, z) && c@ == cmd@ + seq![' '] + joined_args(
                args@,
                args@.len() as int,
            ) && z == cause),
    {
        let mut command = cmd.to_owned();
        command.append(" ");
        proof {
            reveal_strlit(" ");
            assert(" "@ =~= seq![' ']);
        }
        let n = args.len();
        let mut k: usize = 0;
        while k < n
            invariant
                n == args@.len(),
                k <= n,
                command@ == cmd@ + seq![' '] + joined_args(args@, k as int),
            decreases n - k,
        {
            if k > 0 {
                command.append(" ");
                proof {
                    reveal_strlit(" ");
                    assert(" "@ =~= seq![' ']);
                }
            }
            command.append(args[k].as_str());
            k = k + 1;
        }
        UtilsError::ExecError(command, cause)
    }

    /// The error for a command that ran and reported a failing status,
    /// rendered by the caller.
    pub fn from_exec_status(cmd: &str, args: &Vec<String>, status: String) -> (r: UtilsError)
        ensures
            (r matches UtilsError::ExecError(c, z) && c@ == cmd@ + seq![' '] + joined_args(
                args@,
                args@.len() as int,
            ) && z == status),
    {
        UtilsError::from_exec_stderr(cmd, args, status)
    }
}

/// Errors reported by the orchestration core.
///
/// `BlockUnknown` is fatal for a whole invocation and is produced before any
/// work starts; `CannotExecute` reports a process that could not be spawned;
/// `FailDockerBuilder` aborts the remaining blocks of a run; `DpushFailed` is
/// fatal for a single block only.
#[derive(Debug, Clone, PartialEq, Eq)]
pub enum KddError {
    /// An explicitly requested block name matched no configured block.
    BlockUnknown(String),
    /// A builder's command specification had no command.
    NoExecCmd,
    /// A builder declaration carried an invalid property value.
    InvalidBuilder(String, String),
    /// A builder's command specification carried an invalid property value.
    InvalidBuilderExec(String, String),
    /// A builder process could not be spawned or its command line could not
    /// be resolved.
    CannotExecute(String),
    /// The container image build for a block failed.
    FailDockerBuilder(String),
    /// Pushing a block's image to a registry failed past recovery.
    DpushFailed(String),
    /// A push was requested while no realm is current.
    DpushFailNoRealm,
    /// A realm name matched no configured realm.
    RealmNotFound(String),
    /// The realm has no cluster context configured.
    RealmHasNoContext(String),
}

} // verus!
