//! Builders: conditionally triggered build steps, and the command
//! specification (`Exec`) that resolves to a concrete process invocation.

use vstd::prelude::*;

use crate::error::KddError;
use crate::text::{eq_str, is_prefix_of, starts_with_str};

verus! {

/// How often a builder runs within one build invocation.
#[derive(Debug, Clone, Copy, PartialEq, Eq, Structural)]
pub enum RunOccurrence {
    /// Once per block that triggers it (the default).
    Block,
    /// At most once per invocation, however many blocks trigger it.
    Session,
}

/// Where a command is looked up.
#[derive(Debug, Clone)]
pub enum Cmd {
    /// A bare name, resolved through the system search path, e.g. `npm`.
    Global(String),
    /// A path with a separator but no `./` prefix, resolved against the
    /// configuration root, e.g. `node_modules/.bin/tsc`.
    Base(String),
    /// A `./`-prefixed path, resolved against the directory the process is
    /// launched from.
    Relative(String),
}

impl Cmd {
    /// The declared command text, whatever the locator kind.
    pub fn name(&self) -> (r: &str)
        ensures
            r@ == cmd_text(*self),
    {
        match self {
            Cmd::Global(val) => val.as_str(),
            Cmd::Base(val) => val.as_str(),
            Cmd::Relative(val) => val.as_str(),
        }
    }
}

/// The declared command text of a locator.
pub open spec fn cmd_text(cmd: Cmd) -> Seq<char> {
    match cmd {
        Cmd::Global(val) => val@,
        Cmd::Base(val) => val@,
        Cmd::Relative(val) => val@,
    }
}

/// The working-directory policy of a command.
#[derive(Debug, Clone, Copy, PartialEq, Eq, Structural)]
pub enum Cwd {
    /// Launch from the block's directory (the default).
    Block,
    /// Launch from the configuration root.
    Base,
}

/// A command specification: locator, working-directory policy, default
/// arguments, and an optional distinct argument list for watch mode.
#[derive(Debug, Clone)]
pub struct Exec {
    pub cmd: Cmd,
    pub cwd: Cwd,
    pub args: Vec<String>,
    pub watch_args: Option<Vec<String>>,
}

/// A fully resolved process invocation: the command string handed to the
/// operating system, the working directory, and the argument list.
#[derive(Debug)]
pub struct Invocation {
    pub cmd: String,
    pub cwd: String,
    pub args: Vec<String>,
}

/// A conditionally triggered build step.
///
/// A builder without a `when_file` never fires; that is diagnosed when the
/// configuration is loaded, not at build time. `replace` names another
/// builder that this one supersedes wherever both are triggered for the
/// same block. Declaration order is significant: it is the execution order
/// among the builders matched for a block.
#[derive(Debug)]
pub struct Builder {
    pub name: String,
    pub when_file: Option<String>,
    pub run: RunOccurrence,
    pub replace: Option<String>,
    pub command: Exec,
}

/// A command name written `./…` resolves relative to the launch directory.
pub open spec fn is_relative_cmd(name: Seq<char>) -> bool {
    is_prefix_of(seq!['.', '/'], name)
}

/// A command name with a path separator but no `./` prefix resolves against
/// the configuration root.
pub open spec fn is_base_cmd(name: Seq<char>) -> bool {
    !is_relative_cmd(name) && (exists|i: int| 0 <= i < name.len() && name[i] == '/')
}

/// Classify a declared command string into its locator kind.
pub fn classify_cmd(cmd_name: String) -> (r: Cmd)
    ensures
        is_relative_cmd(cmd_name@) ==> r == Cmd::Relative(cmd_name),
        is_base_cmd(cmd_name@) ==> r == Cmd::Base(cmd_name),
        !is_relative_cmd(cmd_name@) && !is_base_cmd(cmd_name@) ==> r == Cmd::Global(cmd_name),
{
    proof {
        reveal_strlit("./");
        assert("./"@ =~= seq!['.', '/']);
        reveal_strlit("/");
        assert("/"@ =~= seq!['/']);
    }
    if starts_with_str(cmd_name.as_str(), "./") {
        Cmd::Relative(cmd_name)
    } else if crate::text::contains_str(cmd_name.as_str(), "/") {
        proof {
            let i = choose|i: int| crate::text::occurs_at(cmd_name@, seq!['/'], i);
            assert(cmd_name@.subrange(i, i + 1)[0] == cmd_name@[i]);
        }
        Cmd::Base(cmd_name)
    } else {
        proof {
            assert forall|i: int| 0 <= i < cmd_name@.len() implies cmd_name@[i] != '/' by {
                if cmd_name@[i] == '/' {
                    assert(cmd_name@.subrange(i, i + 1) =~= seq!['/']);
                    assert(crate::text::occurs_at(cmd_name@, seq!['/'], i));
                }
            }
        }
        Cmd::Global(cmd_name)
    }
}

/// Parse the declared working-directory policy: absent or `block_dir` means
/// the block directory, `base_dir` the configuration root, anything else is
/// an invalid command specification.
pub fn parse_cwd(val: Option<&String>, cmd_name: &String) -> (r: Result<Cwd, KddError>)
    ensures
        match val {
            None => r == Ok::<Cwd, KddError>(Cwd::Block),
            Some(v) => {
                &&& v@ == "block_dir"@ ==> r == Ok::<Cwd, KddError>(Cwd::Block)
                &&& v@ == "base_dir"@ ==> r == Ok::<Cwd, KddError>(Cwd::Base)
                &&& v@ != "block_dir"@ && v@ != "base_dir"@ ==> (r matches Err(
                    KddError::InvalidBuilderExec(n, _),
                ) && n@ == cmd_name@)
            },
        },
{
    proof {
        reveal_strlit("block_dir");
        reveal_strlit("base_dir");
        assert("block_dir"@.len() == 9);
        assert("base_dir"@.len() == 8);
    }
    match val {
        None => Ok(Cwd::Block),
        Some(v) => {
            if eq_str(v.as_str(), "block_dir") {
                Ok(Cwd::Block)
            } else if eq_str(v.as_str(), "base_dir") {
                Ok(Cwd::Base)
            } else {
                Err(
                    KddError::InvalidBuilderExec(
                        cmd_name.clone(),
                        String::from_str("'cwd' can only be 'block_dir' or 'base_dir'."),
                    ),
                )
            }
        },
    }
}

/// Parse the declared run occurrence: absent or `block` means once per
/// block, `session` at most once per invocation, anything else is an
/// invalid builder declaration.
pub fn parse_run_occurrence(val: Option<&String>, builder_name: &String) -> (r: Result<
    RunOccurrence,
    KddError,
>)
    ensures
        match val {
            None => r == Ok::<RunOccurrence, KddError>(RunOccurrence::Block),
            Some(v) => {
                &&& v@ == "block"@ ==> r == Ok::<RunOccurrence, KddError>(RunOccurrence::Block)
                &&& v@ == "session"@ ==> r == Ok::<RunOccurrence, KddError>(RunOccurrence::Session)
                &&& v@ != "block"@ && v@ != "session"@ ==> (r matches Err(
                    KddError::InvalidBuilder(n, _),
                ) && n@ == builder_name@)
            },
        },
{
    proof {
        reveal_strlit("block");
        reveal_strlit("session");
        assert("block"@.len() == 5);
        assert("session"@.len() == 7);
    }
    match val {
        None => Ok(RunOccurrence::Block),
        Some(v) => {
            if eq_str(v.as_str(), "block") {
                Ok(RunOccurrence::Block)
            } else if eq_str(v.as_str(), "session") {
                Ok(RunOccurrence::Session)
            } else {
                Err(
                    KddError::InvalidBuilder(
                        builder_name.clone(),
                        String::from_str("'run' can only be 'block' or 'session'."),
                    ),
                )
            }
        },
    }
}

/// What `pathdiff::diff_paths(target, base)` yields: the relative path
/// from `base` up to `target`, a function of the two strings alone.
pub uninterp spec fn diff_of(target: Seq<char>, base: Seq<char>) -> Option<Seq<char>>;

/// Relies on pathdiff::diff_paths: the relative path from `base` up to
/// `target`, computed from the two strings alone.
#[verifier::external_body]
fn diff_rel(target: &String, base: &String) -> (r: Option<String>)
    ensures
        r.deep_view() == diff_of(target@, base@),
{
    pathdiff::diff_paths(target.as_str(), base.as_str())
        .and_then(|p| p.to_str().map(|s| s.to_string()))
}

/// The effective working directory of a command: the block directory by
/// default, the configuration root when the builder says so.
pub open spec fn exec_cwd_spec(e: Exec, kdd_dir: Seq<char>, block_dir: Seq<char>) -> Seq<char> {
    match e.cwd {
        Cwd::Base => kdd_dir,
        Cwd::Block => block_dir,
    }
}

/// The effective argument list: the watch-mode list when in watch mode and
/// one is configured, else the default list.
pub open spec fn exec_args_spec(e: Exec, watch: bool) -> Seq<Seq<char>> {
    if watch && e.watch_args is Some {
        e.watch_args->0.deep_view()
    } else {
        e.args.deep_view()
    }
}

/// The command string handed to the operating system: a global or
/// `./`-relative command passes through; a base-relative command is
/// joined under the path from the working directory back to the
/// configuration root, which can fail to exist.
pub open spec fn exec_cmd_spec(e: Exec, kdd_dir: Seq<char>, cwd: Seq<char>) -> Option<Seq<char>> {
    match e.cmd {
        Cmd::Global(val) => Some(val@),
        Cmd::Relative(val) => Some(val@),
        Cmd::Base(val) => match diff_of(kdd_dir, cwd) {
            Some(d) => Some(crate::text::join_path_spec(d, val@)),
            None => None,
        },
    }
}

/// Clone a list of strings.
pub fn clone_strings(v: &Vec<String>) -> (r: Vec<String>)
    ensures
        r.deep_view() == v.deep_view(),
{
    let n = v.len();
    let mut r: Vec<String> = Vec::new();
    let mut i: usize = 0;
    while i < n
        invariant
            n == v@.len(),
            i <= n,
            r@.len() == i,
            forall|k: int| 0 <= k < i ==> r@[k]@ == v@[k]@,
        decreases n - i,
    {
        r.push(v[i].clone());
        i = i + 1;
    }
    proof {
        assert(r.deep_view() =~= v.deep_view());
    }
    r
}

impl Exec {
    /// Resolve this command specification into a concrete invocation for a
    /// block, choosing working directory, command string and argument list.
    /// Fails only when a base-relative command has no path from the working
    /// directory back to the configuration root.
    pub fn resolve_invocation(&self, kdd_dir: &String, block_dir: &String, watch: bool) -> (r:
        Result<Invocation, KddError>)
        ensures
            ({
                let cwd = exec_cwd_spec(*self, kdd_dir@, block_dir@);
                match r {
                    Ok(inv) => {
                        &&& exec_cmd_spec(*self, kdd_dir@, cwd) == Some(inv.cmd@)
                        &&& inv.cwd@ == cwd
                        &&& inv.args.deep_view() == exec_args_spec(*self, watch)
                    },
                    Err(e) => {
                        &&& exec_cmd_spec(*self, kdd_dir@, cwd) is None
                        &&& e is CannotExecute
                    },
                }
            }),
    {
        let cwd: String = match self.cwd {
            Cwd::Block => block_dir.clone(),
            Cwd::Base => kdd_dir.clone(),
        };
        let cmd: String = match &self.cmd {
            Cmd::Global(val) => val.clone(),
            Cmd::Relative(val) => val.clone(),
            Cmd::Base(val) => {
                match diff_rel(kdd_dir, &cwd) {
                    Some(d) => crate::text::join_path(d.as_str(), val.as_str()),
                    None => {
                        return Err(
                            KddError::CannotExecute(
                                String::from_str("no relative path back to the base directory"),
                            ),
                        );
                    },
                }
            },
        };
        let args: Vec<String> = if watch {
            match &self.watch_args {
                Some(wa) => clone_strings(wa),
                None => clone_strings(&self.args),
            }
        } else {
            clone_strings(&self.args)
        };
        Ok(Invocation { cmd, cwd, args })
    }
}

} // verus!
