//! Realms: deployment target environments, each with its registry, cluster
//! context and cloud provider, selected from the context string.

use vstd::prelude::*;

use crate::error::KddError;
use crate::text::{contains_seq, contains_str, is_prefix_of, join_path, join_path_spec,
    starts_with_str};

verus! {

/// The provider adapter for clusters on AWS.
#[derive(Debug, Clone, Copy, PartialEq, Eq, Structural)]
pub struct AwsProvider;

/// The provider adapter for clusters on GCP.
#[derive(Debug, Clone, Copy, PartialEq, Eq, Structural)]
pub struct GcpProvider;

/// The provider adapter for every other cluster, with no special behaviour.
#[derive(Debug, Clone, Copy, PartialEq, Eq, Structural)]
pub struct CommonProvider;

/// The cloud provider of a realm, a pure function of its context string.
#[derive(Debug, Clone, Copy, PartialEq, Eq, Structural)]
pub enum RealmProvider {
    Aws(AwsProvider),
    Gcp(GcpProvider),
    Common(CommonProvider),
}

/// A deployment target environment.
///
/// `registry` absent, or naming a loopback host, means a local desktop
/// registry. `vars` are the realm's template variables in insertion order.
/// There is always at least one entry in `yaml_dirs` for a realm built by
/// the configuration loader.
#[derive(Debug)]
pub struct Realm {
    pub name: String,
    pub confirm_delete: bool,
    pub vars: Vec<(String, String)>,
    pub registry: Option<String>,
    pub profile: Option<String>,
    pub project: Option<String>,
    pub default_configurations: Option<Vec<String>>,
    pub provider: RealmProvider,
    pub yaml_dirs: Vec<String>,
    pub context: Option<String>,
}

/// Whether a realm's registry is a local desktop registry: no registry at
/// all, or one whose address names a loopback host.
pub open spec fn is_local_registry_spec(realm: Realm) -> bool {
    match realm.registry {
        Some(reg) => contains_seq(reg@, "localhost"@) || contains_seq(reg@, "127.0.0.1"@),
        None => true,
    }
}

impl Realm {
    /// The provider a context string selects: `arn:aws…` is AWS, `gke…` is
    /// GCP, anything else the common provider.
    pub fn provider_from_ctx(ctx: &str) -> (r: Result<RealmProvider, KddError>)
        ensures
            is_prefix_of("arn:aws"@, ctx@) ==> r == Ok::<RealmProvider, KddError>(
                RealmProvider::Aws(AwsProvider),
            ),
            !is_prefix_of("arn:aws"@, ctx@) && is_prefix_of("gke"@, ctx@) ==> r == Ok::<
                RealmProvider,
                KddError,
            >(RealmProvider::Gcp(GcpProvider)),
            !is_prefix_of("arn:aws"@, ctx@) && !is_prefix_of("gke"@, ctx@) ==> r == Ok::<
                RealmProvider,
                KddError,
            >(RealmProvider::Common(CommonProvider)),
    {
        if starts_with_str(ctx, "arn:aws") {
            Ok(RealmProvider::Aws(AwsProvider))
        } else if starts_with_str(ctx, "gke") {
            Ok(RealmProvider::Gcp(GcpProvider))
        } else {
            Ok(RealmProvider::Common(CommonProvider))
        }
    }

    /// The provider this realm was configured with.
    pub fn provider(&self) -> (r: &RealmProvider)
        ensures
            *r == self.provider,
    {
        &self.provider
    }

    /// Whether pushes go to a local desktop registry: true when no registry
    /// is configured or the registry address names a loopback host.
    pub fn is_local_registry(&self) -> (r: bool)
        ensures
            r == is_local_registry_spec(*self),
    {
        match &self.registry {
            Some(reg) => {
                contains_str(reg.as_str(), "localhost") || contains_str(reg.as_str(), "127.0.0.1")
            },
            None => true,
        }
    }

    /// Whether this realm is a desktop environment: the question the push
    /// recovery path asks, and the same test as `is_local_registry`.
    pub fn is_desktop(&self) -> (r: bool)
        ensures
            r == is_local_registry_spec(*self),
    {
        self.is_local_registry()
    }

    /// The configured cloud profile, or `default` when none is set.
    pub fn profile(&self) -> (r: String)
        ensures
            match self.profile {
                Some(p) => r@ == p@,
                None => r@ == "default"@,
            },
    {
        match &self.profile {
            Some(p) => p.clone(),
            None => String::from_str("default"),
        }
    }

    /// The directory rendered manifests are written to: `.out/<name>` under
    /// the realm's first manifest directory.
    pub fn k8s_out_dir(&self) -> (r: String)
        requires
            self.yaml_dirs@.len() > 0,
        ensures
            r@ == join_path_spec(join_path_spec(self.yaml_dirs@[0]@, ".out/"@), self.name@),
    {
        let base = join_path(self.yaml_dirs[0].as_str(), ".out/");
        join_path(base.as_str(), self.name.as_str())
    }

    /// The configured default manifest names, if any.
    pub fn default_configurations(&self) -> (r: Option<Vec<String>>)
        ensures
            match self.default_configurations {
                Some(ref names) => r matches Some(v) && v.deep_view() == names.deep_view(),
                None => r is None,
            },
    {
        match &self.default_configurations {
            Some(names) => Some(crate::builder::clone_strings(names)),
            None => None,
        }
    }
}

} // verus!
