//! The build orchestrator: for each target block, its declared dependencies
//! are built first (each at most once per invocation), then the block's
//! matched builders run in declaration order with once-per-session
//! deduplication, then — when packaging is requested — the block's container
//! image is built and, while still enabled, pushed to the local registry.
//!
//! The whole invocation is computed here as an explicit step schedule; the
//! driver around the core performs one step at a time and reports process
//! outcomes back, which decide abortion (a failed image build) and the
//! sticky auto-publish flag (a failed local push).

use vstd::prelude::*;

use crate::builder::{Builder, RunOccurrence};
use crate::error::KddError;
use crate::kdd::{all_names_resolve, find_block, target_selection, unknown_name_error, Kdd};
use crate::matcher::{matched_builders, matched_seq, seq_has_string};

verus! {

/// One step of a build invocation.
#[derive(Debug, Clone, Copy, PartialEq, Eq, Structural)]
pub enum BuildStep {
    /// Execute builder `builder` for block `block` and wait; the process's
    /// exit status is deliberately not inspected.
    RunBuilder { block: usize, builder: usize },
    /// Builder `builder` matched block `block` but already ran this
    /// invocation and runs at most once per session: log and move on.
    SkipSessionBuilder { block: usize, builder: usize },
    /// Build the container image of block `block`; failure aborts the rest
    /// of the invocation.
    DockerBuild { block: usize },
    /// Push block `block`'s image to the local registry; failure disables
    /// pushing for the rest of the invocation.
    PushLocal { block: usize },
    /// A push that is skipped because pushing is disabled; never part of a
    /// schedule, only handed out in place of a disabled `PushLocal`.
    SkipPush { block: usize },
}

/// The builder-level session state: the steps emitted so far and the names
/// of the builders already executed this invocation.
pub struct BuilderState {
    pub steps: Seq<BuildStep>,
    pub executed: Seq<String>,
}

/// The full session state: steps, builders executed, and blocks built.
pub struct SessionState {
    pub steps: Seq<BuildStep>,
    pub executed: Seq<String>,
    pub built: Seq<String>,
}

/// What one matched builder contributes: a skip step when it is a session
/// builder that already ran, else a run step and a record of its name.
pub open spec fn builder_step(builders: Seq<Builder>, b: usize, j: usize, s: BuilderState) -> BuilderState {
    if builders[j as int].run is Session && seq_has_string(s.executed, builders[j as int].name@) {
        BuilderState {
            steps: s.steps.push(BuildStep::SkipSessionBuilder { block: b, builder: j }),
            executed: s.executed,
        }
    } else {
        BuilderState {
            steps: s.steps.push(BuildStep::RunBuilder { block: b, builder: j }),
            executed: s.executed.push(builders[j as int].name),
        }
    }
}

/// The first `k` matched builders of block `b` applied in order.
pub open spec fn block_builders_sched(
    builders: Seq<Builder>,
    matched: Seq<usize>,
    b: usize,
    k: int,
    s: BuilderState,
) -> BuilderState
    decreases k,
{
    if k <= 0 {
        s
    } else {
        builder_step(builders, b, matched[k - 1], block_builders_sched(builders, matched, b, k - 1, s))
    }
}

/// Building one block: run its matched builders, then mark it built.
pub open spec fn block_sched(kdd: Kdd, trig: Seq<Seq<bool>>, b: usize, s: SessionState) -> SessionState {
    let matched = matched_seq(kdd.builders@, trig[b as int], kdd.builders@.len() as int);
    let bs = block_builders_sched(
        kdd.builders@,
        matched,
        b,
        matched.len() as int,
        BuilderState { steps: s.steps, executed: s.executed },
    );
    SessionState { steps: bs.steps, executed: bs.executed, built: s.built.push(kdd.blocks@[b as int].name) }
}

/// One declared dependency name: already built means skip; a known block is
/// built; an unknown name is skipped with a log line, not an error.
pub open spec fn dep_sched(kdd: Kdd, trig: Seq<Seq<bool>>, dep_name: Seq<char>, s: SessionState) -> SessionState {
    if seq_has_string(s.built, dep_name) {
        s
    } else {
        match find_block(kdd.blocks@, dep_name) {
            Some(d) => block_sched(kdd, trig, d as usize, s),
            None => s,
        }
    }
}

/// The first `k` dependency names applied in order.
pub open spec fn deps_sched(
    kdd: Kdd,
    trig: Seq<Seq<bool>>,
    deps: Seq<String>,
    k: int,
    s: SessionState,
) -> SessionState
    decreases k,
{
    if k <= 0 {
        s
    } else {
        dep_sched(kdd, trig, deps[k - 1]@, deps_sched(kdd, trig, deps, k - 1, s))
    }
}

/// One target block: its declared dependencies first, then the block itself
/// (unconditionally), then — when packaging — its image build and push.
pub open spec fn target_sched(kdd: Kdd, trig: Seq<Seq<bool>>, t: usize, docker: bool, s: SessionState) -> SessionState {
    let deps = match kdd.blocks@[t as int].dependencies {
        Some(d) => d@,
        None => Seq::<String>::empty(),
    };
    let s1 = deps_sched(kdd, trig, deps, deps.len() as int, s);
    let s2 = block_sched(kdd, trig, t, s1);
    if docker {
        SessionState {
            steps: s2.steps.push(BuildStep::DockerBuild { block: t }).push(
                BuildStep::PushLocal { block: t },
            ),
            ..s2
        }
    } else {
        s2
    }
}

/// The first `k` target blocks applied in resolved order.
pub open spec fn run_sched(
    kdd: Kdd,
    trig: Seq<Seq<bool>>,
    targets: Seq<usize>,
    k: int,
    docker: bool,
    s: SessionState,
) -> SessionState
    decreases k,
{
    if k <= 0 {
        s
    } else {
        target_sched(kdd, trig, targets[k - 1], docker, run_sched(kdd, trig, targets, k - 1, docker, s))
    }
}

/// The session state every invocation starts from: nothing built, nothing
/// executed.
pub open spec fn empty_session() -> SessionState {
    SessionState { steps: Seq::empty(), executed: Seq::empty(), built: Seq::empty() }
}

/// The full step schedule of one build invocation.
pub open spec fn schedule_spec(kdd: Kdd, trig: Seq<Seq<bool>>, targets: Seq<usize>, docker: bool) -> Seq<BuildStep> {
    run_sched(kdd, trig, targets, targets.len() as int, docker, empty_session()).steps
}

/// The trigger matrix has one row per block and one flag per builder.
pub open spec fn trig_wf(kdd: Kdd, triggers: Seq<Vec<bool>>) -> bool {
    &&& triggers.len() == kdd.blocks@.len()
    &&& forall|b: int| 0 <= b < triggers.len() ==> (#[trigger] triggers[b])@.len() == kdd.builders@.len()
}

impl Kdd {
    /// The builders that fire for block `b`, by index in declaration order,
    /// given the trigger row computed for that block.
    pub fn builders_for_block(&self, trig_row: &Vec<bool>) -> (r: Vec<usize>)
        requires
            trig_row@.len() == self.builders@.len(),
        ensures
            r@ == matched_seq(self.builders@, trig_row@, self.builders@.len() as int),
            forall|x: int|
                0 <= x < r@.len() ==> crate::matcher::is_matched(
                    self.builders@,
                    trig_row@,
                    #[trigger] r@[x] as int,
                ),
    {
        matched_builders(&self.builders, trig_row)
    }
}

/// Run one block's matched builders, extending the step list and the set of
/// executed builder names exactly as the schedule of that block says.
fn run_block_builders(
    kdd: &Kdd,
    trig_row: &Vec<bool>,
    b: usize,
    steps: &mut Vec<BuildStep>,
    executed: &mut Vec<String>,
)
    requires
        trig_row@.len() == kdd.builders@.len(),
    ensures
        ({
            let matched = matched_seq(kdd.builders@, trig_row@, kdd.builders@.len() as int);
            let out = block_builders_sched(
                kdd.builders@,
                matched,
                b,
                matched.len() as int,
                BuilderState { steps: old(steps)@, executed: old(executed)@ },
            );
            final(steps)@ == out.steps && final(executed)@ == out.executed
        }),
{
    let matched = kdd.builders_for_block(trig_row);
    let n = matched.len();
    let ghost m = matched@;
    let ghost s0 = BuilderState { steps: steps@, executed: executed@ };
    let mut x: usize = 0;
    while x < n
        invariant
            n == matched@.len(),
            matched@ == m,
            x <= n,
            trig_row@.len() == kdd.builders@.len(),
            forall|y: int|
                0 <= y < n ==> crate::matcher::is_matched(
                    kdd.builders@,
                    trig_row@,
                    #[trigger] matched@[y] as int,
                ),
            (BuilderState { steps: steps@, executed: executed@ }) == block_builders_sched(
                kdd.builders@,
                m,
                b,
                x as int,
                s0,
            ),
        decreases n - x,
    {
        let j = matched[x];
        let is_session = match kdd.builders[j].run {
            RunOccurrence::Session => true,
            RunOccurrence::Block => false,
        };
        let ghost before = BuilderState { steps: steps@, executed: executed@ };
        if is_session && crate::matcher::contains_string(executed, &kdd.builders[j].name) {
            steps.push(BuildStep::SkipSessionBuilder { block: b, builder: j });
        } else {
            steps.push(BuildStep::RunBuilder { block: b, builder: j });
            executed.push(kdd.builders[j].name.clone());
        }
        proof {
            assert(BuilderState { steps: steps@, executed: executed@ } == builder_step(
                kdd.builders@,
                b,
                j,
                before,
            ));
        }
        x = x + 1;
    }
}

/// Build one block: run its matched builders, then record it as built.
fn build_one(
    kdd: &Kdd,
    triggers: &Vec<Vec<bool>>,
    b: usize,
    steps: &mut Vec<BuildStep>,
    executed: &mut Vec<String>,
    built: &mut Vec<String>,
)
    requires
        b < kdd.blocks@.len(),
        trig_wf(*kdd, triggers@),
    ensures
        ({
            let out = block_sched(
                *kdd,
                triggers.deep_view(),
                b,
                SessionState { steps: old(steps)@, executed: old(executed)@, built: old(built)@ },
            );
            final(steps)@ == out.steps && final(executed)@ == out.executed && final(built)@
                == out.built
        }),
{
    proof {
        assert(triggers.deep_view()[b as int] =~= triggers@[b as int]@);
    }
    run_block_builders(kdd, &triggers[b], b, steps, executed);
    built.push(kdd.blocks[b].name.clone());
}

/// Compute the full step schedule of one invocation over the resolved
/// target blocks.
pub fn compute_schedule(
    kdd: &Kdd,
    targets: &Vec<usize>,
    triggers: &Vec<Vec<bool>>,
    docker: bool,
) -> (r: Vec<BuildStep>)
    requires
        trig_wf(*kdd, triggers@),
        forall|x: int| 0 <= x < targets@.len() ==> #[trigger] targets@[x] < kdd.blocks@.len(),
    ensures
        r@ == schedule_spec(*kdd, triggers.deep_view(), targets@, docker),
{
    let mut steps: Vec<BuildStep> = Vec::new();
    let mut executed: Vec<String> = Vec::new();
    let mut built: Vec<String> = Vec::new();
    let n = targets.len();
    let mut i: usize = 0;
    while i < n
        invariant
            n == targets@.len(),
            trig_wf(*kdd, triggers@),
            forall|x: int| 0 <= x < n ==> #[trigger] targets@[x] < kdd.blocks@.len(),
            i <= n,
            (SessionState { steps: steps@, executed: executed@, built: built@ }) == run_sched(
                *kdd,
                triggers.deep_view(),
                targets@,
                i as int,
                docker,
                empty_session(),
            ),
        decreases n - i,
    {
        let t = targets[i];
        let ghost before_target = SessionState { steps: steps@, executed: executed@, built: built@ };

        // Dependencies first, each at most once per invocation.
        let ghost deps_view: Seq<String> = match kdd.blocks@[t as int].dependencies {
            Some(d) => d@,
            None => Seq::<String>::empty(),
        };
        match &kdd.blocks[t].dependencies {
            Some(deps) => {
                let dn = deps.len();
                let mut k: usize = 0;
                while k < dn
                    invariant
                        dn == deps_view.len(),
                        kdd.blocks@[t as int].dependencies matches Some(dv) && dv@ == deps_view,
                        deps@ == deps_view,
                        trig_wf(*kdd, triggers@),
                        t < kdd.blocks@.len(),
                        k <= dn,
                        (SessionState { steps: steps@, executed: executed@, built: built@ })
                            == deps_sched(
                            *kdd,
                            triggers.deep_view(),
                            deps_view,
                            k as int,
                            before_target,
                        ),
                    decreases dn - k,
                {
                    let dep_name = &deps[k];
                    if crate::matcher::contains_string(&built, dep_name) {
                        // Already built this invocation: skipped.
                    } else {
                        match kdd.find_block_index(dep_name) {
                            Some(d) => {
                                build_one(kdd, triggers, d, &mut steps, &mut executed, &mut built);
                            },
                            None => {
                                // Not a known block name: skipped.
                            },
                        }
                    }
                    k = k + 1;
                }
            },
            None => {},
        }

        // The target block itself, unconditionally.
        build_one(kdd, triggers, t, &mut steps, &mut executed, &mut built);

        // The packaging steps, when requested.
        if docker {
            steps.push(BuildStep::DockerBuild { block: t });
            steps.push(BuildStep::PushLocal { block: t });
        }
        proof {
            assert(SessionState { steps: steps@, executed: executed@, built: built@ }
                == target_sched(*kdd, triggers.deep_view(), t, docker, before_target));
        }
        i = i + 1;
    }
    steps
}

/// How a schedule step is handed out: a local push while pushing is
/// disabled becomes an explicit skip.
pub open spec fn step_view(s: BuildStep, push_enabled: bool) -> BuildStep {
    match s {
        BuildStep::PushLocal { block } => if push_enabled {
            s
        } else {
            BuildStep::SkipPush { block }
        },
        _ => s,
    }
}

/// Spec view of an optional requested-name list.
pub open spec fn names_view(names: Option<&Vec<String>>) -> Option<Seq<String>> {
    match names {
        Some(ns) => Some(ns@),
        None => None,
    }
}

/// One build invocation in progress: the precomputed step schedule, the
/// cursor, the sticky auto-publish flag, and whether a fatal image-build
/// failure has aborted the run.
#[derive(Debug)]
pub struct BuildRun {
    pub schedule: Vec<BuildStep>,
    pub pos: usize,
    pub push_enabled: bool,
    pub aborted: bool,
}

impl BuildRun {
    /// Resolve the requested names and lay out the whole invocation.
    ///
    /// An unknown requested name is fatal before any work starts. Pushing
    /// starts enabled exactly when the current realm is known to have a
    /// local registry.
    pub fn new(
        kdd: &Kdd,
        names: Option<&Vec<String>>,
        docker_build: bool,
        has_descriptor: &Vec<bool>,
        triggers: &Vec<Vec<bool>>,
        realm_is_local: Option<bool>,
    ) -> (r: Result<BuildRun, KddError>)
        requires
            docker_build ==> has_descriptor@.len() == kdd.blocks@.len(),
            trig_wf(*kdd, triggers@),
        ensures
            (match names {
                Some(ns) => r is Ok <==> all_names_resolve(kdd.blocks@, ns@),
                None => r is Ok,
            }),
            r matches Err(e) ==> (names matches Some(ns) && unknown_name_error(
                kdd.blocks@,
                ns@,
                e,
            )),
            r matches Ok(run) ==> {
                &&& run.schedule@ == schedule_spec(
                    *kdd,
                    triggers.deep_view(),
                    target_selection(
                        kdd.blocks@,
                        names_view(names),
                        docker_build,
                        has_descriptor@,
                    ),
                    docker_build,
                )
                &&& run.pos == 0
                &&& run.push_enabled == (realm_is_local == Some(true))
                &&& !run.aborted
            },
    {
        let targets = match kdd.blocks_for_names(names, docker_build, has_descriptor) {
            Ok(t) => t,
            Err(e) => {
                return Err(e);
            },
        };
        let push_enabled = match realm_is_local {
            Some(true) => true,
            _ => false,
        };
        let schedule = compute_schedule(kdd, &targets, triggers, docker_build);
        Ok(BuildRun { schedule, pos: 0, push_enabled, aborted: false })
    }

    /// Hand out the next step, advancing the cursor: nothing once the run is
    /// aborted or exhausted, and a disabled local push as an explicit skip.
    pub fn next_step(&mut self) -> (r: Option<BuildStep>)
        ensures
            final(self).schedule == old(self).schedule,
            final(self).push_enabled == old(self).push_enabled,
            final(self).aborted == old(self).aborted,
            old(self).aborted || old(self).pos >= old(self).schedule@.len() ==> {
                &&& r is None
                &&& final(self).pos == old(self).pos
            },
            !old(self).aborted && old(self).pos < old(self).schedule@.len() ==> {
                &&& final(self).pos == old(self).pos + 1
                &&& r == Some(
                    step_view(old(self).schedule@[old(self).pos as int], old(self).push_enabled),
                )
            },
    {
        if self.aborted || self.pos >= self.schedule.len() {
            return None;
        }
        let s = self.schedule[self.pos];
        self.pos = self.pos + 1;
        match s {
            BuildStep::PushLocal { block } => {
                if self.push_enabled {
                    Some(BuildStep::PushLocal { block })
                } else {
                    Some(BuildStep::SkipPush { block })
                }
            },
            _ => Some(s),
        }
    }

    /// Record the outcome of a local push: one failure disables pushing for
    /// the rest of the invocation, permanently.
    pub fn report_push_result(&mut self, ok: bool)
        ensures
            final(self).schedule == old(self).schedule,
            final(self).pos == old(self).pos,
            final(self).aborted == old(self).aborted,
            final(self).push_enabled == (old(self).push_enabled && ok),
    {
        if !ok {
            self.push_enabled = false;
        }
    }

    /// Record the outcome of a container image build: failure is fatal and
    /// aborts the remainder of the invocation.
    pub fn report_docker_result(&mut self, ok: bool)
        ensures
            final(self).schedule == old(self).schedule,
            final(self).pos == old(self).pos,
            final(self).push_enabled == old(self).push_enabled,
            final(self).aborted == (old(self).aborted || !ok),
    {
        if !ok {
            self.aborted = true;
        }
    }

    /// Whether the invocation has run into a fatal image-build failure.
    pub fn is_aborted(&self) -> (r: bool)
        ensures
            r == self.aborted,
    {
        self.aborted
    }
}

/// How many steps of a schedule run builder `j`.
pub open spec fn count_runs(steps: Seq<BuildStep>, j: usize) -> nat
    decreases steps.len(),
{
    if steps.len() == 0 {
        0
    } else {
        count_runs(steps.drop_last(), j) + (if (steps.last() matches BuildStep::RunBuilder {
            block: _,
            builder,
        } && builder == j) {
            1nat
        } else {
            0nat
        })
    }
}

/// The once-per-session invariant for builder `j`: it has run at most once,
/// and once it has run its name is recorded among the executed builders.
pub open spec fn session_once(
    builders: Seq<Builder>,
    steps: Seq<BuildStep>,
    executed: Seq<String>,
    j: usize,
) -> bool {
    &&& count_runs(steps, j) <= 1
    &&& (count_runs(steps, j) == 1 ==> seq_has_string(executed, builders[j as int].name@))
}

/// Membership among executed builder names only ever grows.
pub open spec fn executed_extends(a: Seq<String>, b: Seq<String>) -> bool {
    forall|name: Seq<char>| #[trigger] seq_has_string(a, name) ==> seq_has_string(b, name)
}

proof fn lemma_has_string_push(a: Seq<String>, x: String)
    ensures
        executed_extends(a, a.push(x)),
        seq_has_string(a.push(x), x@),
{
    assert forall|name: Seq<char>| #[trigger]
        seq_has_string(a, name) implies seq_has_string(a.push(x), name) by {
        let i = choose|i: int| 0 <= i < a.len() && (#[trigger] a[i])@ == name;
        assert(a.push(x)[i] == a[i]);
    }
    assert(a.push(x)[a.len() as int] == x);
}

proof fn lemma_builder_step_session(
    builders: Seq<Builder>,
    b: usize,
    jj: usize,
    s: BuilderState,
    j: usize,
)
    requires
        builders[j as int].run is Session,
        session_once(builders, s.steps, s.executed, j),
    ensures
        ({
            let s1 = builder_step(builders, b, jj, s);
            session_once(builders, s1.steps, s1.executed, j) && executed_extends(
                s.executed,
                s1.executed,
            )
        }),
{
    let s1 = builder_step(builders, b, jj, s);
    assert(s1.steps.drop_last() =~= s.steps);
    if builders[jj as int].run is Session && seq_has_string(s.executed, builders[jj as int].name@) {
        assert(count_runs(s1.steps, j) == count_runs(s.steps, j));
    } else {
        lemma_has_string_push(s.executed, builders[jj as int].name);
        if jj == j {
            assert(!seq_has_string(s.executed, builders[j as int].name@));
            assert(count_runs(s.steps, j) == 0);
            assert(count_runs(s1.steps, j) == 1);
        } else {
            assert(count_runs(s1.steps, j) == count_runs(s.steps, j));
        }
    }
}

proof fn lemma_block_builders_session(
    builders: Seq<Builder>,
    matched: Seq<usize>,
    b: usize,
    k: int,
    s: BuilderState,
    j: usize,
)
    requires
        builders[j as int].run is Session,
        session_once(builders, s.steps, s.executed, j),
    ensures
        ({
            let s1 = block_builders_sched(builders, matched, b, k, s);
            session_once(builders, s1.steps, s1.executed, j) && executed_extends(
                s.executed,
                s1.executed,
            )
        }),
    decreases k,
{
    if k > 0 {
        lemma_block_builders_session(builders, matched, b, k - 1, s, j);
        let sp = block_builders_sched(builders, matched, b, k - 1, s);
        lemma_builder_step_session(builders, b, matched[k - 1], sp, j);
    }
}

proof fn lemma_block_sched_session(kdd: Kdd, trig: Seq<Seq<bool>>, b: usize, s: SessionState, j: usize)
    requires
        kdd.builders@[j as int].run is Session,
        session_once(kdd.builders@, s.steps, s.executed, j),
    ensures
        ({
            let s1 = block_sched(kdd, trig, b, s);
            session_once(kdd.builders@, s1.steps, s1.executed, j) && executed_extends(
                s.executed,
                s1.executed,
            )
        }),
{
    let matched = matched_seq(kdd.builders@, trig[b as int], kdd.builders@.len() as int);
    lemma_block_builders_session(
        kdd.builders@,
        matched,
        b,
        matched.len() as int,
        BuilderState { steps: s.steps, executed: s.executed },
        j,
    );
}

proof fn lemma_dep_sched_session(
    kdd: Kdd,
    trig: Seq<Seq<bool>>,
    dep_name: Seq<char>,
    s: SessionState,
    j: usize,
)
    requires
        kdd.builders@[j as int].run is Session,
        session_once(kdd.builders@, s.steps, s.executed, j),
    ensures
        ({
            let s1 = dep_sched(kdd, trig, dep_name, s);
            session_once(kdd.builders@, s1.steps, s1.executed, j) && executed_extends(
                s.executed,
                s1.executed,
            )
        }),
{
    if !seq_has_string(s.built, dep_name) {
        match find_block(kdd.blocks@, dep_name) {
            Some(d) => {
                lemma_block_sched_session(kdd, trig, d as usize, s, j);
            },
            None => {},
        }
    }
}

proof fn lemma_deps_sched_session(
    kdd: Kdd,
    trig: Seq<Seq<bool>>,
    deps: Seq<String>,
    k: int,
    s: SessionState,
    j: usize,
)
    requires
        kdd.builders@[j as int].run is Session,
        session_once(kdd.builders@, s.steps, s.executed, j),
    ensures
        ({
            let s1 = deps_sched(kdd, trig, deps, k, s);
            session_once(kdd.builders@, s1.steps, s1.executed, j) && executed_extends(
                s.executed,
                s1.executed,
            )
        }),
    decreases k,
{
    if k > 0 {
        lemma_deps_sched_session(kdd, trig, deps, k - 1, s, j);
        let sp = deps_sched(kdd, trig, deps, k - 1, s);
        lemma_dep_sched_session(kdd, trig, deps[k - 1]@, sp, j);
    }
}

proof fn lemma_target_sched_session(
    kdd: Kdd,
    trig: Seq<Seq<bool>>,
    t: usize,
    docker: bool,
    s: SessionState,
    j: usize,
)
    requires
        kdd.builders@[j as int].run is Session,
        session_once(kdd.builders@, s.steps, s.executed, j),
    ensures
        ({
            let s1 = target_sched(kdd, trig, t, docker, s);
            session_once(kdd.builders@, s1.steps, s1.executed, j) && executed_extends(
                s.executed,
                s1.executed,
            )
        }),
{
    let deps = match kdd.blocks@[t as int].dependencies {
        Some(d) => d@,
        None => Seq::<String>::empty(),
    };
    lemma_deps_sched_session(kdd, trig, deps, deps.len() as int, s, j);
    let s1 = deps_sched(kdd, trig, deps, deps.len() as int, s);
    lemma_block_sched_session(kdd, trig, t, s1, j);
    let s2 = block_sched(kdd, trig, t, s1);
    if docker {
        let p1 = s2.steps.push(BuildStep::DockerBuild { block: t });
        let p2 = p1.push(BuildStep::PushLocal { block: t });
        assert(p1.drop_last() =~= s2.steps);
        assert(p2.drop_last() =~= p1);
        assert(count_runs(p2, j) == count_runs(p1, j));
        assert(count_runs(p1, j) == count_runs(s2.steps, j));
    }
}

proof fn lemma_run_sched_session(
    kdd: Kdd,
    trig: Seq<Seq<bool>>,
    targets: Seq<usize>,
    k: int,
    docker: bool,
    s: SessionState,
    j: usize,
)
    requires
        kdd.builders@[j as int].run is Session,
        session_once(kdd.builders@, s.steps, s.executed, j),
    ensures
        ({
            let s1 = run_sched(kdd, trig, targets, k, docker, s);
            session_once(kdd.builders@, s1.steps, s1.executed, j) && executed_extends(
                s.executed,
                s1.executed,
            )
        }),
    decreases k,
{
    if k > 0 {
        lemma_run_sched_session(kdd, trig, targets, k - 1, docker, s, j);
        let sp = run_sched(kdd, trig, targets, k - 1, docker, s);
        lemma_target_sched_session(kdd, trig, targets[k - 1], docker, sp, j);
    }
}

/// Once-per-session law: a builder declared to run once per session is run
/// at most once by any build invocation's schedule, however many blocks
/// trigger it.
pub proof fn lemma_session_builder_at_most_once(
    kdd: Kdd,
    trig: Seq<Seq<bool>>,
    targets: Seq<usize>,
    docker: bool,
    j: usize,
)
    requires
        j < kdd.builders@.len(),
        kdd.builders@[j as int].run is Session,
    ensures
        count_runs(schedule_spec(kdd, trig, targets, docker), j) <= 1,
{
    lemma_run_sched_session(kdd, trig, targets, targets.len() as int, docker, empty_session(), j);
}

/// Every builder carries its own name.
pub open spec fn unique_builder_names(builders: Seq<Builder>) -> bool {
    forall|i: int, k: int|
        0 <= i < builders.len() && 0 <= k < builders.len() && i != k ==> builders[i].name@
            != builders[k].name@
}

proof fn lemma_has_string_push_iff(a: Seq<String>, x: String, n: Seq<char>)
    ensures
        seq_has_string(a.push(x), n) <==> (seq_has_string(a, n) || x@ == n),
{
    if seq_has_string(a.push(x), n) {
        let i = choose|i: int| 0 <= i < a.push(x).len() && (#[trigger] a.push(x)[i])@ == n;
        if i < a.len() {
            assert(a[i]@ == n);
        } else {
            assert(a.push(x)[i] == x);
        }
    }
    if seq_has_string(a, n) {
        let i = choose|i: int| 0 <= i < a.len() && (#[trigger] a[i])@ == n;
        assert(a.push(x)[i] == a[i]);
    }
    if x@ == n {
        assert(a.push(x)[a.len() as int] == x);
    }
}

/// The strict once-per-session invariant for builder `j`, under unique
/// builder names: the run count is at most one, and is one exactly when
/// `j`'s name is recorded among the executed builders.
pub open spec fn session_exact(
    builders: Seq<Builder>,
    steps: Seq<BuildStep>,
    executed: Seq<String>,
    j: usize,
) -> bool {
    &&& count_runs(steps, j) <= 1
    &&& (count_runs(steps, j) == 1 <==> seq_has_string(executed, builders[j as int].name@))
}

proof fn lemma_builder_step_exact(
    builders: Seq<Builder>,
    b: usize,
    jj: usize,
    s: BuilderState,
    j: usize,
)
    requires
        unique_builder_names(builders),
        jj < builders.len(),
        j < builders.len(),
        builders[j as int].run is Session,
        session_exact(builders, s.steps, s.executed, j),
    ensures
        ({
            let s1 = builder_step(builders, b, jj, s);
            &&& session_exact(builders, s1.steps, s1.executed, j)
            &&& executed_extends(s.executed, s1.executed)
            &&& (jj == j ==> seq_has_string(s1.executed, builders[j as int].name@))
        }),
{
    let s1 = builder_step(builders, b, jj, s);
    assert(s1.steps.drop_last() =~= s.steps);
    let name_j = builders[j as int].name@;
    if builders[jj as int].run is Session && seq_has_string(s.executed, builders[jj as int].name@) {
        assert(count_runs(s1.steps, j) == count_runs(s.steps, j));
    } else {
        lemma_has_string_push(s.executed, builders[jj as int].name);
        lemma_has_string_push_iff(s.executed, builders[jj as int].name, name_j);
        if jj == j {
            assert(!seq_has_string(s.executed, name_j));
            assert(count_runs(s.steps, j) == 0);
            assert(count_runs(s1.steps, j) == 1);
        } else {
            assert(builders[jj as int].name@ != name_j);
            assert(count_runs(s1.steps, j) == count_runs(s.steps, j));
            assert(seq_has_string(s1.executed, name_j) == seq_has_string(s.executed, name_j));
        }
    }
}

/// The matched indices are in range, and a matched builder is among them.
proof fn lemma_matched_seq_elements(builders: Seq<Builder>, trig: Seq<bool>, n: int, j: usize)
    requires
        0 <= n <= builders.len(),
    ensures
        forall|x: int|
            0 <= x < matched_seq(builders, trig, n).len() ==> #[trigger] matched_seq(
                builders,
                trig,
                n,
            )[x] < n,
        crate::matcher::is_matched(builders, trig, j as int) && (j as int) < n ==> exists|x: int|
            0 <= x < matched_seq(builders, trig, n).len() && #[trigger] matched_seq(
                builders,
                trig,
                n,
            )[x] == j,
    decreases n,
{
    if n > 0 {
        lemma_matched_seq_elements(builders, trig, n - 1, j);
        let prev = matched_seq(builders, trig, n - 1);
        let cur = matched_seq(builders, trig, n);
        if crate::matcher::is_matched(builders, trig, n - 1) {
            assert(cur == prev.push((n - 1) as usize));
            assert(forall|x: int| 0 <= x < prev.len() ==> #[trigger] cur[x] == prev[x]);
            assert(cur[prev.len() as int] == (n - 1) as usize);
        }
        if crate::matcher::is_matched(builders, trig, j as int) && (j as int) < n {
            if (j as int) == n - 1 {
                assert(cur[prev.len() as int] == j);
            } else {
                let x0 = choose|x: int|
                    0 <= x < prev.len() && #[trigger] prev[x] == j;
                assert(cur[x0] == j);
            }
        }
    }
}

proof fn lemma_block_builders_exact(
    builders: Seq<Builder>,
    matched: Seq<usize>,
    b: usize,
    k: int,
    s: BuilderState,
    j: usize,
)
    requires
        unique_builder_names(builders),
        forall|x: int| 0 <= x < matched.len() ==> #[trigger] matched[x] < builders.len(),
        j < builders.len(),
        k <= matched.len(),
        builders[j as int].run is Session,
        session_exact(builders, s.steps, s.executed, j),
    ensures
        ({
            let s1 = block_builders_sched(builders, matched, b, k, s);
            &&& session_exact(builders, s1.steps, s1.executed, j)
            &&& executed_extends(s.executed, s1.executed)
            &&& ((exists|m: int| 0 <= m < k && #[trigger] matched[m] == j)
                ==> seq_has_string(s1.executed, builders[j as int].name@))
        }),
    decreases k,
{
    if k > 0 {
        lemma_block_builders_exact(builders, matched, b, k - 1, s, j);
        let sp = block_builders_sched(builders, matched, b, k - 1, s);
        lemma_builder_step_exact(builders, b, matched[k - 1], sp, j);
        let s1 = block_builders_sched(builders, matched, b, k, s);
        if exists|m: int| 0 <= m < k && #[trigger] matched[m] == j {
            let m = choose|m: int| 0 <= m < k && #[trigger] matched[m] == j;
            if m < k - 1 {
                assert(seq_has_string(sp.executed, builders[j as int].name@));
            } else {
                assert(matched[k - 1] == j);
            }
        }
    }
}

proof fn lemma_block_sched_exact(kdd: Kdd, trig: Seq<Seq<bool>>, b: usize, s: SessionState, j: usize)
    requires
        unique_builder_names(kdd.builders@),
        j < kdd.builders@.len(),
        kdd.builders@[j as int].run is Session,
        session_exact(kdd.builders@, s.steps, s.executed, j),
    ensures
        ({
            let s1 = block_sched(kdd, trig, b, s);
            &&& session_exact(kdd.builders@, s1.steps, s1.executed, j)
            &&& executed_extends(s.executed, s1.executed)
            &&& (crate::matcher::is_matched(kdd.builders@, trig[b as int], j as int)
                ==> seq_has_string(s1.executed, kdd.builders@[j as int].name@))
        }),
{
    let n = kdd.builders@.len() as int;
    let matched = matched_seq(kdd.builders@, trig[b as int], n);
    lemma_matched_seq_elements(kdd.builders@, trig[b as int], n, j);
    lemma_block_builders_exact(
        kdd.builders@,
        matched,
        b,
        matched.len() as int,
        BuilderState { steps: s.steps, executed: s.executed },
        j,
    );
}

proof fn lemma_deps_sched_exact(
    kdd: Kdd,
    trig: Seq<Seq<bool>>,
    deps: Seq<String>,
    k: int,
    s: SessionState,
    j: usize,
)
    requires
        unique_builder_names(kdd.builders@),
        j < kdd.builders@.len(),
        kdd.builders@[j as int].run is Session,
        session_exact(kdd.builders@, s.steps, s.executed, j),
    ensures
        ({
            let s1 = deps_sched(kdd, trig, deps, k, s);
            &&& session_exact(kdd.builders@, s1.steps, s1.executed, j)
            &&& executed_extends(s.executed, s1.executed)
        }),
    decreases k,
{
    if k > 0 {
        lemma_deps_sched_exact(kdd, trig, deps, k - 1, s, j);
        let sp = deps_sched(kdd, trig, deps, k - 1, s);
        if !seq_has_string(sp.built, deps[k - 1]@) {
            match find_block(kdd.blocks@, deps[k - 1]@) {
                Some(d) => {
                    lemma_block_sched_exact(kdd, trig, d as usize, sp, j);
                },
                None => {},
            }
        }
    }
}

proof fn lemma_target_sched_exact(
    kdd: Kdd,
    trig: Seq<Seq<bool>>,
    t: usize,
    docker: bool,
    s: SessionState,
    j: usize,
)
    requires
        unique_builder_names(kdd.builders@),
        j < kdd.builders@.len(),
        kdd.builders@[j as int].run is Session,
        session_exact(kdd.builders@, s.steps, s.executed, j),
    ensures
        ({
            let s1 = target_sched(kdd, trig, t, docker, s);
            &&& session_exact(kdd.builders@, s1.steps, s1.executed, j)
            &&& executed_extends(s.executed, s1.executed)
            &&& (crate::matcher::is_matched(kdd.builders@, trig[t as int], j as int)
                ==> seq_has_string(s1.executed, kdd.builders@[j as int].name@))
        }),
{
    let deps = match kdd.blocks@[t as int].dependencies {
        Some(d) => d@,
        None => Seq::<String>::empty(),
    };
    lemma_deps_sched_exact(kdd, trig, deps, deps.len() as int, s, j);
    let s1 = deps_sched(kdd, trig, deps, deps.len() as int, s);
    lemma_block_sched_exact(kdd, trig, t, s1, j);
    let s2 = block_sched(kdd, trig, t, s1);
    if docker {
        let p1 = s2.steps.push(BuildStep::DockerBuild { block: t });
        let p2 = p1.push(BuildStep::PushLocal { block: t });
        assert(p1.drop_last() =~= s2.steps);
        assert(p2.drop_last() =~= p1);
        assert(count_runs(p2, j) == count_runs(p1, j));
        assert(count_runs(p1, j) == count_runs(s2.steps, j));
    }
}

proof fn lemma_run_sched_exact(
    kdd: Kdd,
    trig: Seq<Seq<bool>>,
    targets: Seq<usize>,
    k: int,
    docker: bool,
    s: SessionState,
    j: usize,
)
    requires
        unique_builder_names(kdd.builders@),
        j < kdd.builders@.len(),
        k <= targets.len(),
        kdd.builders@[j as int].run is Session,
        session_exact(kdd.builders@, s.steps, s.executed, j),
    ensures
        ({
            let s1 = run_sched(kdd, trig, targets, k, docker, s);
            &&& session_exact(kdd.builders@, s1.steps, s1.executed, j)
            &&& executed_extends(s.executed, s1.executed)
            &&& ((exists|x: int|
                0 <= x < k && crate::matcher::is_matched(
                    kdd.builders@,
                    trig[#[trigger] targets[x] as int],
                    j as int,
                )) ==> seq_has_string(s1.executed, kdd.builders@[j as int].name@))
        }),
    decreases k,
{
    if k > 0 {
        lemma_run_sched_exact(kdd, trig, targets, k - 1, docker, s, j);
        let sp = run_sched(kdd, trig, targets, k - 1, docker, s);
        lemma_target_sched_exact(kdd, trig, targets[k - 1], docker, sp, j);
        let s1 = run_sched(kdd, trig, targets, k, docker, s);
        if exists|x: int|
            0 <= x < k && crate::matcher::is_matched(
                kdd.builders@,
                trig[#[trigger] targets[x] as int],
                j as int,
            ) {
            let x = choose|x: int|
                0 <= x < k && crate::matcher::is_matched(
                    kdd.builders@,
                    trig[#[trigger] targets[x] as int],
                    j as int,
                );
            if x < k - 1 {
                assert(seq_has_string(sp.executed, kdd.builders@[j as int].name@));
            } else {
                assert(targets[k - 1] == targets[x]);
            }
        }
    }
}

/// Strict once-per-session law: under unique builder names, a builder
/// declared to run once per session, and matched for at least one target
/// block of the invocation, is run exactly once by the schedule — however
/// many blocks trigger it.
pub proof fn lemma_session_builder_exactly_once(
    kdd: Kdd,
    trig: Seq<Seq<bool>>,
    targets: Seq<usize>,
    docker: bool,
    j: usize,
    x: int,
)
    requires
        unique_builder_names(kdd.builders@),
        j < kdd.builders@.len(),
        kdd.builders@[j as int].run is Session,
        0 <= x < targets.len(),
        crate::matcher::is_matched(kdd.builders@, trig[targets[x] as int], j as int),
    ensures
        count_runs(schedule_spec(kdd, trig, targets, docker), j) == 1,
{
    lemma_run_sched_exact(kdd, trig, targets, targets.len() as int, docker, empty_session(), j);
}

} // verus!
