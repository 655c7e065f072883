//! Build and publish orchestration for a system of named code units
//! ("blocks"), each built by conditionally triggered build steps
//! ("builders") and optionally packaged and pushed to the registry of a
//! deployment environment ("realm").

mod block;
mod builder;
mod docker;
mod error;
mod kdd;
mod kevents;
mod matcher;
mod orchestrate;
mod pods;
mod realm;
mod text;
mod vars;
mod version;
mod watch;

pub use block::Block;
pub use builder::{classify_cmd, parse_cwd, parse_run_occurrence, Builder, Cmd, Cwd, Exec, Invocation, RunOccurrence};
pub use docker::{missing_repositories, PushAction, PushBatch, PushPhase, PushProtocol};
pub use error::{KddError, UtilsError};
pub use kdd::Kdd;
pub use kevents::KubeEventData;
pub use matcher::{is_candidate, is_matched, lemma_replace_excludes_replaced, matched_builders, matched_seq, name_replaced};
pub use orchestrate::{compute_schedule, count_runs, lemma_session_builder_at_most_once, lemma_session_builder_exactly_once, schedule_spec, BuildRun, BuildStep};
pub use pods::{Pod, PodsProvider};
pub use realm::{AwsProvider, CommonProvider, GcpProvider, Realm, RealmProvider};
pub use text::{contains_str, eq_str, join_path, split_names, starts_with_str, trim_slashes};
pub use vars::{get_str, merge_vars, set_var, FileVarsSource};
pub use version::Version;
pub use watch::{watch_plan, WatchTask};

