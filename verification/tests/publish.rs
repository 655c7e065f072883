//! Tests of the containerize/publish path: image references, the push
//! recovery protocol, the publish batch and repository reconciliation.

use kdd::{AwsProvider, Block, CommonProvider, GcpProvider, Kdd, KddError, PodsProvider, PushAction,
    PushBatch, PushProtocol, Realm, RealmProvider};

fn realm_with_registry(registry: Option<&str>) -> Realm {
    Realm {
        name: "dev".to_string(),
        confirm_delete: false,
        vars: Vec::new(),
        registry: registry.map(|r| r.to_string()),
        profile: None,
        project: None,
        default_configurations: None,
        provider: RealmProvider::Common(CommonProvider),
        yaml_dirs: vec!["k8s/dev".to_string()],
        context: Some("docker-desktop".to_string()),
    }
}

fn small_kdd() -> Kdd {
    Kdd {
        vars: Vec::new(),
        dir: ".".to_string(),
        system: "cstar".to_string(),
        block_base_dir: None,
        image_tag: Some("DROP-002".to_string()),
        realms: vec![realm_with_registry(Some("localhost:5000"))],
        blocks: vec![Block { name: "db".to_string(), dir: None, dependencies: None }],
        builders: Vec::new(),
        versions: Vec::new(),
        pods_provider: PodsProvider { system: "cstar".to_string() },
    }
}

#[test]
fn image_uri_uses_local_registry_by_default() {
    let kdd = small_kdd();
    let uri = kdd.image_uri(&kdd.blocks[0], None);
    assert_eq!(uri, "localhost:5000/cstar-db:DROP-002");
}

#[test]
fn image_uri_trims_trailing_slash_of_registry() {
    let kdd = small_kdd();
    let realm = realm_with_registry(Some("eu.gcr.io/my-proj/"));
    let uri = kdd.image_uri(&kdd.blocks[0], Some(&realm));
    assert_eq!(uri, "eu.gcr.io/my-proj/cstar-db:DROP-002");
}

#[test]
fn image_tag_defaults_to_default() {
    let mut kdd = small_kdd();
    kdd.image_tag = None;
    assert_eq!(kdd.image_tag(), "default");
    assert_eq!(kdd.image_name(&kdd.blocks[0]), "cstar-db");
}

#[test]
fn docker_command_lines_are_exact() {
    let kdd = small_kdd();
    let realm = realm_with_registry(Some("remote.example.com"));
    let (args, cwd) = kdd.docker_build_args(&kdd.blocks[0]);
    assert_eq!(args, vec!["build", "--rm", "-t", "localhost:5000/cstar-db:DROP-002", "."]);
    assert_eq!(cwd, "./db");
    let tag = kdd.docker_tag_args(&kdd.blocks[0], &realm);
    assert_eq!(
        tag,
        vec!["tag", "localhost:5000/cstar-db:DROP-002", "remote.example.com/cstar-db:DROP-002"]
    );
    let push = kdd.docker_push_args(&kdd.blocks[0], &realm);
    assert_eq!(push, vec!["push", "remote.example.com/cstar-db:DROP-002"]);
}

#[test]
fn local_push_failure_gets_no_auth_retry() {
    let mut p = PushProtocol::new(true);
    assert_eq!(p.next_action(), PushAction::Push);
    p.record_push(false);
    assert_eq!(p.next_action(), PushAction::Stop);
    assert_eq!(p.outcome(), Some(false));
    assert_eq!(p.attempts, 1);
    assert_eq!(p.auth_refreshes, 0);
}

#[test]
fn failed_block_does_not_stop_the_batch() {
    let mut batch = PushBatch::new(vec![3, 5]);
    assert_eq!(batch.current(), Some(3));
    batch.record_block_result(false);
    assert_eq!(batch.current(), Some(5));
    batch.record_block_result(true);
    assert_eq!(batch.current(), None);
    assert_eq!(batch.failed, vec![3]);
}

#[test]
fn remote_push_recovers_with_exactly_one_auth_refresh() {
    let mut p = PushProtocol::new(false);
    assert_eq!(p.next_action(), PushAction::Push);
    p.record_push(false);
    assert_eq!(p.next_action(), PushAction::AuthThenPush);
    p.record_push(true);
    assert_eq!(p.next_action(), PushAction::Stop);
    assert_eq!(p.outcome(), Some(true));
    assert_eq!(p.attempts, 2);
    assert_eq!(p.auth_refreshes, 1);
}

#[test]
fn remote_push_second_failure_is_final() {
    let mut p = PushProtocol::new(false);
    p.record_push(false);
    p.record_push(false);
    assert_eq!(p.outcome(), Some(false));
    assert_eq!(p.attempts, 2);
    assert_eq!(p.auth_refreshes, 1);
}

#[test]
fn first_push_success_needs_no_recovery() {
    let mut p = PushProtocol::new(false);
    p.record_push(true);
    assert_eq!(p.outcome(), Some(true));
    assert_eq!(p.attempts, 1);
    assert_eq!(p.auth_refreshes, 0);
}

#[test]
fn missing_repositories_skips_existing_and_duplicates() {
    let blocks = vec![
        Block { name: "db".to_string(), dir: None, dependencies: None },
        Block { name: "web".to_string(), dir: None, dependencies: None },
    ];
    let sel = vec![0, 1, 0];
    let existing = vec!["cstar-web".to_string()];
    let missing =
        kdd::missing_repositories(&"cstar".to_string(), &blocks, &sel, &existing);
    assert_eq!(missing, vec!["cstar-db"]);
}

#[test]
fn provider_is_selected_from_context_string() {
    assert!(matches!(
        Realm::provider_from_ctx("arn:aws:eks:us-west-2:12:cluster/one"),
        Ok(RealmProvider::Aws(AwsProvider))
    ));
    assert!(matches!(
        Realm::provider_from_ctx("gke_my-proj_us-west1_cluster"),
        Ok(RealmProvider::Gcp(GcpProvider))
    ));
    assert!(matches!(
        Realm::provider_from_ctx("docker-desktop"),
        Ok(RealmProvider::Common(CommonProvider))
    ));
}

#[test]
fn local_registry_detection() {
    assert!(realm_with_registry(None).is_local_registry());
    assert!(realm_with_registry(Some("localhost:5000")).is_local_registry());
    assert!(realm_with_registry(Some("127.0.0.1:5000")).is_local_registry());
    assert!(!realm_with_registry(Some("eu.gcr.io/my-proj")).is_local_registry());
}

#[test]
fn realm_accessors() {
    let mut realm = realm_with_registry(None);
    assert_eq!(realm.profile(), "default");
    realm.profile = Some("jc-root".to_string());
    assert_eq!(realm.profile(), "jc-root");
    assert_eq!(realm.k8s_out_dir(), "k8s/dev/.out/dev");
    assert!(realm.default_configurations().is_none());
    realm.default_configurations = Some(vec!["web-server".to_string()]);
    assert_eq!(realm.default_configurations(), Some(vec!["web-server".to_string()]));
}

#[test]
fn realm_set_plan_decides_context_change() {
    let mut kdd = small_kdd();
    assert_eq!(kdd.realm_set_plan(&"dev".to_string()), Ok("docker-desktop".to_string()));
    assert_eq!(
        kdd.realm_set_plan(&"prod".to_string()),
        Err(KddError::RealmNotFound("prod".to_string()))
    );
    kdd.realms[0].context = None;
    assert_eq!(
        kdd.realm_set_plan(&"dev".to_string()),
        Err(KddError::RealmHasNoContext("dev".to_string()))
    );
}

#[test]
fn realm_for_ctx_finds_configured_realm() {
    let kdd = small_kdd();
    assert_eq!(kdd.realm_for_ctx("docker-desktop").map(|r| r.name.as_str()), Some("dev"));
    assert!(kdd.realm_for_ctx("other").is_none());
}
