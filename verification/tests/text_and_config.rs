//! Tests of the text utilities, command resolution (including the real
//! relative-path computation), variables and file classification.

use kdd::{Block, Builder, Cmd, Cwd, Exec, FileVarsSource, Invocation, Kdd, KddError, KubeEventData,
    PodsProvider, RunOccurrence, UtilsError};

fn kdd_at(dir: &str, base: Option<&str>) -> Kdd {
    Kdd {
        vars: Vec::new(),
        dir: dir.to_string(),
        system: "sys".to_string(),
        block_base_dir: base.map(|b| b.to_string()),
        image_tag: None,
        realms: Vec::new(),
        blocks: vec![Block { name: "web".to_string(), dir: None, dependencies: None }],
        builders: Vec::new(),
        versions: Vec::new(),
        pods_provider: PodsProvider { system: "sys".to_string() },
    }
}

#[test]
fn string_utilities() {
    assert!(kdd::eq_str("abc", "abc"));
    assert!(!kdd::eq_str("abc", "abd"));
    assert!(kdd::starts_with_str("./tool", "./"));
    assert!(!kdd::starts_with_str("tool", "./"));
    assert!(kdd::contains_str("eu.gcr.io/localhost/x", "localhost"));
    assert!(!kdd::contains_str("remote", "localhost"));
    assert_eq!(kdd::trim_slashes("reg.io///"), "reg.io");
    assert_eq!(kdd::trim_slashes("reg.io"), "reg.io");
    assert_eq!(kdd::join_path("/base", "x"), "/base/x");
    assert_eq!(kdd::join_path("/base/", "x"), "/base/x");
    assert_eq!(kdd::join_path("/base", "/abs"), "/abs");
    assert_eq!(kdd::join_path("", "x"), "x");
}

#[test]
fn split_names_splits_on_commas() {
    assert_eq!(kdd::split_names(None), None);
    let joined = "db,web,admin".to_string();
    assert_eq!(
        kdd::split_names(Some(&joined)),
        Some(vec!["db".to_string(), "web".to_string(), "admin".to_string()])
    );
    let single = "db".to_string();
    assert_eq!(kdd::split_names(Some(&single)), Some(vec!["db".to_string()]));
    let trailing = "db,".to_string();
    assert_eq!(kdd::split_names(Some(&trailing)), Some(vec!["db".to_string(), "".to_string()]));
}

#[test]
fn block_dir_derivation() {
    let kdd = kdd_at("/root", None);
    assert_eq!(kdd.get_block_dir(&kdd.blocks[0]), "/root/web");
    let kdd = kdd_at("/root", Some("services"));
    assert_eq!(kdd.get_block_dir(&kdd.blocks[0]), "/root/services/web");
    let explicit = Block {
        name: "web".to_string(),
        dir: Some("frontends/web".to_string()),
        dependencies: None,
    };
    assert_eq!(kdd.get_block_dir(&explicit), "/root/frontends/web");
}

#[test]
fn rel_path_resolution() {
    let kdd = kdd_at("/root", None);
    let b = &kdd.blocks[0];
    assert_eq!(kdd.get_rel_path(b, "./tsconfig.json"), "/root/web/tsconfig.json");
    assert_eq!(kdd.get_rel_path(b, "package.json"), "/root/package.json");
}

#[test]
fn command_classification() {
    assert!(matches!(kdd::Cmd::Global("npm".to_string()).name(), "npm"));
    let exec = Exec {
        cmd: Cmd::Global("npm".to_string()),
        cwd: Cwd::Block,
        args: vec!["install".to_string()],
        watch_args: Some(vec!["watch".to_string()]),
    };
    let inv: Invocation = exec.resolve_invocation(&"/b".to_string(), &"/b/web".to_string(), false).unwrap();
    assert_eq!(inv.cmd, "npm");
    assert_eq!(inv.cwd, "/b/web");
    assert_eq!(inv.args, vec!["install"]);
    let winv = exec.resolve_invocation(&"/b".to_string(), &"/b/web".to_string(), true).unwrap();
    assert_eq!(winv.args, vec!["watch"]);
}

#[test]
fn base_relative_command_walks_back_to_base_dir() {
    // The declared command lives at the configuration root; launched from
    // the block's directory the command string must climb back up first.
    let exec = Exec {
        cmd: Cmd::Base("node_modules/.bin/tsc".to_string()),
        cwd: Cwd::Block,
        args: Vec::new(),
        watch_args: None,
    };
    let inv = exec
        .resolve_invocation(&"/base".to_string(), &"/base/svc/web".to_string(), false)
        .unwrap();
    assert_eq!(inv.cmd, "../../node_modules/.bin/tsc");
    assert_eq!(inv.cwd, "/base/svc/web");
    // Launched from the base directory itself nothing needs prefixing.
    let exec2 = Exec {
        cmd: Cmd::Base("node_modules/.bin/tsc".to_string()),
        cwd: Cwd::Base,
        args: Vec::new(),
        watch_args: None,
    };
    let inv2 = exec2
        .resolve_invocation(&"/base".to_string(), &"/base/svc/web".to_string(), false)
        .unwrap();
    assert_eq!(inv2.cmd, "node_modules/.bin/tsc");
    assert_eq!(inv2.cwd, "/base");
}

#[test]
fn relative_command_passes_through() {
    let exec = Exec {
        cmd: Cmd::Relative("./scripts/build.sh".to_string()),
        cwd: Cwd::Block,
        args: Vec::new(),
        watch_args: None,
    };
    let inv = exec.resolve_invocation(&"/base".to_string(), &"/base/web".to_string(), false).unwrap();
    assert_eq!(inv.cmd, "./scripts/build.sh");
}

#[test]
fn cwd_and_run_parsing() {
    let cmd = "npm".to_string();
    assert_eq!(kdd::parse_cwd(None, &cmd), Ok(Cwd::Block));
    assert_eq!(kdd::parse_cwd(Some(&"block_dir".to_string()), &cmd), Ok(Cwd::Block));
    assert_eq!(kdd::parse_cwd(Some(&"base_dir".to_string()), &cmd), Ok(Cwd::Base));
    assert!(matches!(
        kdd::parse_cwd(Some(&"weird".to_string()), &cmd),
        Err(KddError::InvalidBuilderExec(n, _)) if n == "npm"
    ));
    let name = "tsc".to_string();
    assert_eq!(kdd::parse_run_occurrence(None, &name), Ok(RunOccurrence::Block));
    assert_eq!(
        kdd::parse_run_occurrence(Some(&"session".to_string()), &name),
        Ok(RunOccurrence::Session)
    );
    assert!(matches!(
        kdd::parse_run_occurrence(Some(&"hourly".to_string()), &name),
        Err(KddError::InvalidBuilder(n, _)) if n == "tsc"
    ));
}

#[test]
fn classify_cmd_by_shape() {
    assert!(matches!(kdd::classify_cmd("npm".to_string()), Cmd::Global(v) if v == "npm"));
    assert!(matches!(
        kdd::classify_cmd("node_modules/.bin/tsc".to_string()),
        Cmd::Base(v) if v == "node_modules/.bin/tsc"
    ));
    assert!(matches!(
        kdd::classify_cmd("./scripts/run.sh".to_string()),
        Cmd::Relative(v) if v == "./scripts/run.sh"
    ));
}

#[test]
fn vars_lookup_and_merge() {
    let mut vars = vec![("a".to_string(), "1".to_string())];
    assert_eq!(kdd::get_str(&vars, "a"), Some("1"));
    assert_eq!(kdd::get_str(&vars, "b"), None);
    kdd::merge_vars(
        &mut vars,
        vec![("a".to_string(), "2".to_string()), ("b".to_string(), "3".to_string())],
    );
    assert_eq!(kdd::get_str(&vars, "a"), Some("2"));
    assert_eq!(kdd::get_str(&vars, "b"), Some("3"));
    assert_eq!(vars.len(), 2);
}

#[test]
fn file_vars_source_by_extension() {
    assert_eq!(
        FileVarsSource::from_path("conf/vars.json".to_string()),
        FileVarsSource::Json("conf/vars.json".to_string())
    );
    assert_eq!(
        FileVarsSource::from_path("conf/vars.JSON".to_string()),
        FileVarsSource::Json("conf/vars.JSON".to_string())
    );
    assert_eq!(
        FileVarsSource::from_path("conf/vars.yaml".to_string()),
        FileVarsSource::NotSupported("conf/vars.yaml".to_string())
    );
    assert_eq!(
        FileVarsSource::from_path("conf/.json".to_string()),
        FileVarsSource::NotSupported("conf/.json".to_string())
    );
    assert_eq!(
        FileVarsSource::from_path("noext".to_string()),
        FileVarsSource::NotSupported("noext".to_string())
    );
}

#[test]
fn kube_event_kind() {
    let ev = KubeEventData {
        kind: "Pod".to_string(),
        name: "web-1".to_string(),
        reason: "Started".to_string(),
        message: "ok".to_string(),
        timestamp: "t".to_string(),
    };
    assert!(ev.is_pod());
    let other = KubeEventData { kind: "Node".to_string(), ..ev };
    assert!(!other.is_pod());
}

#[test]
fn exec_error_carries_full_command_line() {
    let args = vec!["build".to_string(), "-t".to_string()];
    let e = UtilsError::from_exec_stderr("docker", &args, "boom".to_string());
    assert_eq!(e, UtilsError::ExecError("docker build -t".to_string(), "boom".to_string()));
    let e2 = UtilsError::from_exec_status("docker", &Vec::new(), "exit 1".to_string());
    assert_eq!(e2, UtilsError::ExecError("docker ".to_string(), "exit 1".to_string()));
}

#[test]
fn triggers_report_real_files() {
    // The process's own status file exists wherever the tests run; a
    // made-up name does not. This drives the real filesystem probe.
    let kdd = Kdd {
        vars: Vec::new(),
        dir: "/proc/self".to_string(),
        system: "sys".to_string(),
        block_base_dir: None,
        image_tag: None,
        realms: Vec::new(),
        blocks: vec![Block { name: "here".to_string(), dir: Some(".".to_string()), dependencies: None }],
        builders: vec![
            Builder {
                name: "present".to_string(),
                when_file: Some("status".to_string()),
                run: RunOccurrence::Block,
                replace: None,
                command: Exec {
                    cmd: Cmd::Global("true".to_string()),
                    cwd: Cwd::Block,
                    args: Vec::new(),
                    watch_args: None,
                },
            },
            Builder {
                name: "absent".to_string(),
                when_file: Some("no-such-file-here.xyz".to_string()),
                run: RunOccurrence::Block,
                replace: None,
                command: Exec {
                    cmd: Cmd::Global("true".to_string()),
                    cwd: Cwd::Block,
                    args: Vec::new(),
                    watch_args: None,
                },
            },
        ],
        versions: Vec::new(),
        pods_provider: PodsProvider { system: "sys".to_string() },
    };
    let trig = kdd.compute_triggers();
    assert_eq!(trig, vec![vec![true, false]]);
    let desc = kdd.compute_descriptors();
    assert_eq!(desc, vec![false]);
}

#[test]
fn version_rule_is_plain_data() {
    let v = kdd::Version {
        val: "v=(.*?)".to_string(),
        replace: "(v=).+?".to_string(),
        by: "DROP-999".to_string(),
        files: vec!["index.html".to_string()],
    };
    assert_eq!(v.files.len(), 1);
    assert_eq!(v.by, "DROP-999");
}
