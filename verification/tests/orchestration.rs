//! End-to-end tests of dependency resolution, builder matching and the
//! build schedule.

use kdd::{Block, BuildRun, BuildStep, Builder, Cmd, Cwd, Exec, Kdd, KddError, Pod, PodsProvider,
    RunOccurrence};

fn simple_exec(cmd: &str) -> Exec {
    Exec {
        cmd: Cmd::Global(cmd.to_string()),
        cwd: Cwd::Block,
        args: vec!["run".to_string()],
        watch_args: None,
    }
}

fn block(name: &str, deps: &[&str]) -> Block {
    Block {
        name: name.to_string(),
        dir: None,
        dependencies: if deps.is_empty() {
            None
        } else {
            Some(deps.iter().map(|d| d.to_string()).collect())
        },
    }
}

fn builder(name: &str, when_file: Option<&str>, run: RunOccurrence, replace: Option<&str>) -> Builder {
    Builder {
        name: name.to_string(),
        when_file: when_file.map(|w| w.to_string()),
        run,
        replace: replace.map(|r| r.to_string()),
        command: simple_exec("make"),
    }
}

fn kdd_with(blocks: Vec<Block>, builders: Vec<Builder>) -> Kdd {
    Kdd {
        vars: Vec::new(),
        dir: "/base".to_string(),
        system: "sys".to_string(),
        block_base_dir: None,
        image_tag: None,
        realms: Vec::new(),
        blocks,
        builders,
        versions: Vec::new(),
        pods_provider: PodsProvider { system: "sys".to_string() },
    }
}

/// One row of trigger flags per block, every builder triggered everywhere.
fn all_triggered(kdd: &Kdd) -> Vec<Vec<bool>> {
    (0..kdd.blocks.len()).map(|_| vec![true; kdd.builders.len()]).collect()
}

fn drain(run: &mut BuildRun) -> Vec<BuildStep> {
    let mut steps = Vec::new();
    while let Some(s) = run.next_step() {
        steps.push(s);
    }
    steps
}

#[test]
fn resolve_keeps_request_order() {
    let kdd = kdd_with(vec![block("a", &[]), block("b", &[]), block("c", &[])], Vec::new());
    let names = vec!["c".to_string(), "a".to_string()];
    let sel = kdd.blocks_for_names(Some(&names), false, &Vec::new()).unwrap();
    assert_eq!(sel, vec![2, 0]);
}

#[test]
fn resolve_without_names_takes_declaration_order() {
    let kdd = kdd_with(vec![block("a", &[]), block("b", &[]), block("c", &[])], Vec::new());
    let sel = kdd.blocks_for_names(None, false, &Vec::new()).unwrap();
    assert_eq!(sel, vec![0, 1, 2]);
}

#[test]
fn resolve_unknown_name_is_fatal() {
    let kdd = kdd_with(vec![block("a", &[]), block("b", &[])], Vec::new());
    let names = vec!["a".to_string(), "nope".to_string(), "b".to_string()];
    let err = kdd.blocks_for_names(Some(&names), false, &Vec::new()).unwrap_err();
    assert_eq!(err, KddError::BlockUnknown("nope".to_string()));
}

#[test]
fn packaging_filter_drops_blocks_without_descriptor() {
    let kdd = kdd_with(vec![block("a", &[]), block("b", &[]), block("c", &[])], Vec::new());
    let flags = vec![true, false, true];
    let sel = kdd.blocks_for_names(None, true, &flags).unwrap();
    assert_eq!(sel, vec![0, 2]);
    let names = vec!["b".to_string()];
    let sel = kdd.blocks_for_names(Some(&names), true, &flags).unwrap();
    assert!(sel.is_empty());
}

#[test]
fn replace_excludes_replaced_builder() {
    let builders = vec![
        builder("tsc", Some("tsconfig.json"), RunOccurrence::Block, None),
        builder("rollup", Some("rollup.config.js"), RunOccurrence::Block, Some("tsc")),
    ];
    let trig = vec![true, true];
    let matched = kdd::matched_builders(&builders, &trig);
    assert_eq!(matched, vec![1]);
}

#[test]
fn untriggered_replacer_leaves_replaced_in_place() {
    let builders = vec![
        builder("tsc", Some("tsconfig.json"), RunOccurrence::Block, None),
        builder("rollup", Some("rollup.config.js"), RunOccurrence::Block, Some("tsc")),
    ];
    let trig = vec![true, false];
    let matched = kdd::matched_builders(&builders, &trig);
    assert_eq!(matched, vec![0]);
}

#[test]
fn builder_without_trigger_path_never_matches() {
    let builders = vec![builder("quiet", None, RunOccurrence::Block, None)];
    let trig = vec![true];
    let matched = kdd::matched_builders(&builders, &trig);
    assert!(matched.is_empty());
}

#[test]
fn session_builder_runs_exactly_once_across_blocks() {
    let kdd = kdd_with(
        vec![block("a", &[]), block("b", &[])],
        vec![builder("npm_install", Some("package.json"), RunOccurrence::Session, None)],
    );
    let triggers = all_triggered(&kdd);
    let mut run = BuildRun::new(&kdd, None, false, &Vec::new(), &triggers, None).unwrap();
    let steps = drain(&mut run);
    assert_eq!(
        steps,
        vec![
            BuildStep::RunBuilder { block: 0, builder: 0 },
            BuildStep::SkipSessionBuilder { block: 1, builder: 0 },
        ]
    );
}

#[test]
fn dependency_builds_before_target_each_once() {
    let kdd = kdd_with(
        vec![block("db", &[]), block("web", &["db"])],
        vec![builder("make_all", Some("Makefile"), RunOccurrence::Block, None)],
    );
    let triggers = all_triggered(&kdd);
    let names = vec!["web".to_string()];
    let mut run = BuildRun::new(&kdd, Some(&names), false, &Vec::new(), &triggers, None).unwrap();
    let steps = drain(&mut run);
    assert_eq!(
        steps,
        vec![
            BuildStep::RunBuilder { block: 0, builder: 0 },
            BuildStep::RunBuilder { block: 1, builder: 0 },
        ]
    );
}

#[test]
fn shared_dependency_builds_once_in_total() {
    let kdd = kdd_with(
        vec![block("db", &[]), block("web", &["db"]), block("web2", &["db"])],
        vec![builder("make_all", Some("Makefile"), RunOccurrence::Block, None)],
    );
    let triggers = all_triggered(&kdd);
    let names = vec!["web".to_string(), "web2".to_string()];
    let mut run = BuildRun::new(&kdd, Some(&names), false, &Vec::new(), &triggers, None).unwrap();
    let steps = drain(&mut run);
    let db_runs = steps
        .iter()
        .filter(|s| matches!(s, BuildStep::RunBuilder { block: 0, .. }))
        .count();
    assert_eq!(db_runs, 1);
    assert_eq!(
        steps,
        vec![
            BuildStep::RunBuilder { block: 0, builder: 0 },
            BuildStep::RunBuilder { block: 1, builder: 0 },
            BuildStep::RunBuilder { block: 2, builder: 0 },
        ]
    );
}

#[test]
fn unknown_dependency_is_skipped_not_fatal() {
    let kdd = kdd_with(
        vec![block("web", &["ghost"])],
        vec![builder("make_all", Some("Makefile"), RunOccurrence::Block, None)],
    );
    let triggers = all_triggered(&kdd);
    let mut run = BuildRun::new(&kdd, None, false, &Vec::new(), &triggers, None).unwrap();
    let steps = drain(&mut run);
    assert_eq!(steps, vec![BuildStep::RunBuilder { block: 0, builder: 0 }]);
}

#[test]
fn docker_failure_aborts_remaining_blocks() {
    let kdd = kdd_with(vec![block("a", &[]), block("b", &[])], Vec::new());
    let triggers = all_triggered(&kdd);
    let flags = vec![true, true];
    let mut run = BuildRun::new(&kdd, None, true, &flags, &triggers, Some(true)).unwrap();
    assert_eq!(run.next_step(), Some(BuildStep::DockerBuild { block: 0 }));
    run.report_docker_result(false);
    assert!(run.is_aborted());
    assert_eq!(run.next_step(), None);
}

#[test]
fn failed_local_push_disables_later_pushes() {
    let kdd = kdd_with(vec![block("a", &[]), block("b", &[])], Vec::new());
    let triggers = all_triggered(&kdd);
    let flags = vec![true, true];
    let mut run = BuildRun::new(&kdd, None, true, &flags, &triggers, Some(true)).unwrap();
    assert_eq!(run.next_step(), Some(BuildStep::DockerBuild { block: 0 }));
    run.report_docker_result(true);
    assert_eq!(run.next_step(), Some(BuildStep::PushLocal { block: 0 }));
    run.report_push_result(false);
    assert_eq!(run.next_step(), Some(BuildStep::DockerBuild { block: 1 }));
    run.report_docker_result(true);
    assert_eq!(run.next_step(), Some(BuildStep::SkipPush { block: 1 }));
    assert_eq!(run.next_step(), None);
}

#[test]
fn no_realm_means_no_pushes_from_the_start() {
    let kdd = kdd_with(vec![block("a", &[])], Vec::new());
    let triggers = all_triggered(&kdd);
    let flags = vec![true];
    let mut run = BuildRun::new(&kdd, None, true, &flags, &triggers, None).unwrap();
    assert_eq!(run.next_step(), Some(BuildStep::DockerBuild { block: 0 }));
    run.report_docker_result(true);
    assert_eq!(run.next_step(), Some(BuildStep::SkipPush { block: 0 }));
}

#[test]
fn watch_plan_spawns_one_task_per_matched_builder() {
    let kdd = kdd_with(
        vec![block("a", &[]), block("b", &[])],
        vec![
            builder("tsc", Some("tsconfig.json"), RunOccurrence::Session, None),
            builder("quiet", None, RunOccurrence::Block, None),
        ],
    );
    let triggers = all_triggered(&kdd);
    let tasks = kdd::watch_plan(&kdd, None, &triggers).unwrap();
    let pairs: Vec<(usize, usize)> = tasks.iter().map(|t| (t.block, t.builder)).collect();
    // Session semantics are ignored in watch mode: one watcher per pair.
    assert_eq!(pairs, vec![(0, 0), (1, 0)]);
    assert_eq!(tasks[0].invocation.cmd, "make");
    assert_eq!(tasks[0].invocation.cwd, "/base/a");
}

#[test]
fn watch_plan_unknown_name_is_fatal() {
    let kdd = kdd_with(vec![block("a", &[])], Vec::new());
    let triggers = all_triggered(&kdd);
    let names = vec!["zzz".to_string()];
    let err = kdd::watch_plan(&kdd, Some(&names), &triggers).unwrap_err();
    assert!(matches!(err, KddError::BlockUnknown(n) if n == "zzz"));
}

#[test]
fn pods_filter_matches_full_service_names() {
    let provider = PodsProvider { system: "cstar".to_string() };
    let pods = vec![
        Pod { name: "p1".to_string(), service_name: "cstar-cmd".to_string() },
        Pod { name: "p2".to_string(), service_name: "cstar-cmd-rs".to_string() },
        Pod { name: "p3".to_string(), service_name: "cstar-web".to_string() },
    ];
    let names = Some(vec!["cmd".to_string()]);
    let kept = provider.get_pods_by_service_names(pods, &names);
    assert_eq!(kept.len(), 1);
    assert_eq!(kept[0].name, "p1");
}

#[test]
fn pods_filter_without_names_keeps_all() {
    let provider = PodsProvider { system: "cstar".to_string() };
    let pods = vec![Pod { name: "p1".to_string(), service_name: "cstar-cmd".to_string() }];
    let kept = provider.get_pods_by_service_names(pods, &None);
    assert_eq!(kept.len(), 1);
}
