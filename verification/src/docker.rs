//! Containerize and publish: the docker command lines for image build, tag
//! and push, the one-shot authentication-retry recovery protocol for a
//! push, the per-block publish batch, and the pre-publish repository
//! reconciliation.

use vstd::prelude::*;

use crate::block::Block;
use crate::kdd::{block_dir_spec, image_uri_spec, registry_view, Kdd};
use crate::matcher::{contains_string, seq_has_string};
use crate::realm::Realm;

verus! {

/// What the publisher should do next for one block.
#[derive(Debug, Clone, Copy, PartialEq, Eq, Structural)]
pub enum PushAction {
    /// Push the image.
    Push,
    /// Refresh the registry credential with the realm's provider, then push
    /// again.
    AuthThenPush,
    /// This block's publish is decided; nothing more to do.
    Stop,
}

/// Where one block's publish stands.
#[derive(Debug, Clone, Copy, PartialEq, Eq, Structural)]
pub enum PushPhase {
    /// No push attempted yet.
    FirstAttempt,
    /// The first push failed on a remote realm: one authentication refresh
    /// and one retry are owed.
    RecoveryAttempt,
    /// A push went through.
    Succeeded,
    /// The publish failed past recovery: fatal for this block only.
    Failed,
}

/// The publish protocol for one block: at most two push attempts, at most
/// one authentication refresh, and none of either recovery step on a local
/// realm — a failed push to a local registry has nothing to authenticate.
#[derive(Debug, Clone, Copy, PartialEq, Eq, Structural)]
pub struct PushProtocol {
    pub local: bool,
    pub attempts: u64,
    pub auth_refreshes: u64,
    pub phase: PushPhase,
}

impl PushProtocol {
    /// The protocol invariant, which every step keeps: never more than two
    /// attempts or one refresh, and on a local realm never any refresh and
    /// never a second attempt.
    pub open spec fn wf(self) -> bool {
        &&& self.attempts <= 2
        &&& self.auth_refreshes <= 1
        &&& (self.local ==> self.auth_refreshes == 0 && self.attempts <= 1)
        &&& (self.phase is FirstAttempt ==> self.attempts == 0 && self.auth_refreshes == 0)
        &&& (self.phase is RecoveryAttempt ==> self.attempts == 1 && self.auth_refreshes == 0
            && !self.local)
    }

    /// Start the publish of one block, for a local or remote realm.
    pub fn new(local: bool) -> (p: PushProtocol)
        ensures
            p.local == local,
            p.attempts == 0,
            p.auth_refreshes == 0,
            p.phase is FirstAttempt,
            p.wf(),
    {
        PushProtocol { local, attempts: 0, auth_refreshes: 0, phase: PushPhase::FirstAttempt }
    }

    /// What to do next: push, recover with one authentication refresh and
    /// push again, or stop because the outcome is decided.
    pub fn next_action(&self) -> (a: PushAction)
        ensures
            self.phase is FirstAttempt ==> a == PushAction::Push,
            self.phase is RecoveryAttempt ==> a == PushAction::AuthThenPush,
            self.phase is Succeeded || self.phase is Failed ==> a == PushAction::Stop,
    {
        match self.phase {
            PushPhase::FirstAttempt => PushAction::Push,
            PushPhase::RecoveryAttempt => PushAction::AuthThenPush,
            PushPhase::Succeeded => PushAction::Stop,
            PushPhase::Failed => PushAction::Stop,
        }
    }

    /// Record the outcome of the push the protocol asked for.
    ///
    /// A first failure ends a local publish at once — no retry, nothing to
    /// authenticate — and sends a remote publish into exactly one
    /// authentication refresh and one retry, whose failure is final.
    pub fn record_push(&mut self, ok: bool)
        requires
            old(self).wf(),
            old(self).phase is FirstAttempt || old(self).phase is RecoveryAttempt,
        ensures
            final(self).wf(),
            final(self).local == old(self).local,
            old(self).phase is FirstAttempt ==> {
                &&& final(self).attempts == 1
                &&& final(self).auth_refreshes == 0
                &&& (ok ==> final(self).phase is Succeeded)
                &&& (!ok && old(self).local ==> final(self).phase is Failed)
                &&& (!ok && !old(self).local ==> final(self).phase is RecoveryAttempt)
            },
            old(self).phase is RecoveryAttempt ==> {
                &&& final(self).attempts == 2
                &&& final(self).auth_refreshes == 1
                &&& (ok ==> final(self).phase is Succeeded)
                &&& (!ok ==> final(self).phase is Failed)
            },
    {
        match self.phase {
            PushPhase::FirstAttempt => {
                self.attempts = 1;
                if ok {
                    self.phase = PushPhase::Succeeded;
                } else if self.local {
                    self.phase = PushPhase::Failed;
                } else {
                    self.phase = PushPhase::RecoveryAttempt;
                }
            },
            _ => {
                self.attempts = 2;
                self.auth_refreshes = 1;
                if ok {
                    self.phase = PushPhase::Succeeded;
                } else {
                    self.phase = PushPhase::Failed;
                }
            },
        }
    }

    /// The decided outcome: a success or a failure once the protocol has
    /// stopped, nothing while a push is still owed.
    pub fn outcome(&self) -> (r: Option<bool>)
        ensures
            self.phase is Succeeded ==> r == Some(true),
            self.phase is Failed ==> r == Some(false),
            self.phase is FirstAttempt || self.phase is RecoveryAttempt ==> r is None,
    {
        match self.phase {
            PushPhase::Succeeded => Some(true),
            PushPhase::Failed => Some(false),
            _ => None,
        }
    }
}

/// A publish batch over resolved block indices: one block's failed publish
/// is recorded and the batch moves on to the next block regardless.
#[derive(Debug)]
pub struct PushBatch {
    pub blocks: Vec<usize>,
    pub pos: usize,
    pub failed: Vec<usize>,
}

impl PushBatch {
    /// A batch over the given blocks, none attempted yet.
    pub fn new(blocks: Vec<usize>) -> (b: PushBatch)
        ensures
            b.blocks == blocks,
            b.pos == 0,
            b.failed@ == Seq::<usize>::empty(),
    {
        PushBatch { blocks, pos: 0, failed: Vec::new() }
    }

    /// The block whose publish is up next, if any is left.
    pub fn current(&self) -> (r: Option<usize>)
        ensures
            self.pos < self.blocks@.len() ==> r == Some(self.blocks@[self.pos as int]),
            self.pos >= self.blocks@.len() ==> r is None,
    {
        if self.pos < self.blocks.len() {
            Some(self.blocks[self.pos])
        } else {
            None
        }
    }

    /// Record one block's decided publish outcome and move to the next
    /// block: a failure is noted, never propagated to its siblings.
    pub fn record_block_result(&mut self, ok: bool)
        requires
            old(self).pos < old(self).blocks@.len(),
        ensures
            final(self).blocks == old(self).blocks,
            final(self).pos == old(self).pos + 1,
            ok ==> final(self).failed@ == old(self).failed@,
            !ok ==> final(self).failed@ == old(self).failed@.push(
                old(self).blocks@[old(self).pos as int],
            ),
    {
        let n = self.blocks.len();
        if !ok {
            let b = self.blocks[self.pos];
            self.failed.push(b);
        }
        proof {
            assert(self.pos < n);
        }
        self.pos = self.pos + 1;
    }
}

/// Some character sequence in the list reads `name`.
pub open spec fn seq_has_chars(v: Seq<Seq<char>>, name: Seq<char>) -> bool {
    exists|i: int| 0 <= i < v.len() && v[i] == name
}

/// The repository names that must be created before a publish: for the
/// first `k` selected blocks in order, `<system>-<name>` where no remote
/// repository of that name exists yet, each name listed once.
pub open spec fn missing_repo_names(
    system: Seq<char>,
    blocks: Seq<Block>,
    sel: Seq<usize>,
    existing: Seq<String>,
    k: int,
) -> Seq<Seq<char>>
    decreases k,
{
    if k <= 0 {
        Seq::empty()
    } else {
        let prev = missing_repo_names(system, blocks, sel, existing, k - 1);
        let nm = system + seq!['-'] + blocks[sel[k - 1] as int].name@;
        if seq_has_string(existing, nm) || seq_has_chars(prev, nm) {
            prev
        } else {
            prev.push(nm)
        }
    }
}

/// The remote repositories to create before pushing the selected blocks:
/// each selected block's repository name that the registry does not already
/// have, in selection order, without duplicates.
pub fn missing_repositories(
    system: &String,
    blocks: &Vec<Block>,
    sel: &Vec<usize>,
    existing: &Vec<String>,
) -> (r: Vec<String>)
    requires
        forall|x: int| 0 <= x < sel@.len() ==> #[trigger] sel@[x] < blocks@.len(),
    ensures
        r.deep_view() == missing_repo_names(system@, blocks@, sel@, existing@, sel@.len() as int),
{
    let n = sel.len();
    let mut r: Vec<String> = Vec::new();
    let mut k: usize = 0;
    while k < n
        invariant
            n == sel@.len(),
            forall|x: int| 0 <= x < n ==> #[trigger] sel@[x] < blocks@.len(),
            k <= n,
            r.deep_view() == missing_repo_names(system@, blocks@, sel@, existing@, k as int),
        decreases n - k,
    {
        let b = sel[k];
        let mut nm = system.clone();
        nm.append("-");
        nm.append(blocks[b].name.as_str());
        proof {
            reveal_strlit("-");
            assert("-"@ =~= seq!['-']);
            assert(nm@ =~= system@ + seq!['-'] + blocks@[b as int].name@);
        }
        let ghost prev = r.deep_view();
        if !contains_string(existing, &nm) && !contains_string(&r, &nm) {
            r.push(nm);
            proof {
                assert(r.deep_view() =~= prev.push(
                    system@ + seq!['-'] + blocks@[sel@[k as int] as int].name@,
                ));
            }
        } else {
            proof {
                if seq_has_string(r@, nm@) {
                    let x = choose|x: int| 0 <= x < r@.len() && (#[trigger] r@[x])@ == nm@;
                    assert(r.deep_view()[x] == nm@);
                    assert(seq_has_chars(prev, nm@));
                }
            }
        }
        k = k + 1;
    }
    r
}

impl Kdd {
    /// The docker arguments that build a block's image, tagged for the
    /// local registry, and the directory to run them from.
    pub fn docker_build_args(&self, block: &Block) -> (r: (Vec<String>, String))
        ensures
            r.0.deep_view() == seq![
                "build"@,
                "--rm"@,
                "-t"@,
                image_uri_spec(*self, *block, None),
                "."@,
            ],
            r.1@ == block_dir_spec(*self, *block),
    {
        let cwd = self.get_block_dir(block);
        let uri = self.image_uri(block, None);
        let mut args: Vec<String> = Vec::new();
        args.push(String::from_str("build"));
        args.push(String::from_str("--rm"));
        args.push(String::from_str("-t"));
        args.push(uri);
        args.push(String::from_str("."));
        proof {
            assert(args.deep_view() =~= seq![
                "build"@,
                "--rm"@,
                "-t"@,
                image_uri_spec(*self, *block, None),
                "."@,
            ]);
        }
        (args, cwd)
    }

    /// The docker arguments that tag a block's local image with its remote
    /// reference for the realm's registry.
    pub fn docker_tag_args(&self, block: &Block, realm: &Realm) -> (r: Vec<String>)
        ensures
            r.deep_view() == seq![
                "tag"@,
                image_uri_spec(*self, *block, None),
                image_uri_spec(*self, *block, registry_view(Some(realm))),
            ],
    {
        let local_uri = self.image_uri(block, None);
        let remote_uri = self.image_uri(block, Some(realm));
        let mut args: Vec<String> = Vec::new();
        args.push(String::from_str("tag"));
        args.push(local_uri);
        args.push(remote_uri);
        proof {
            assert(args.deep_view() =~= seq![
                "tag"@,
                image_uri_spec(*self, *block, None),
                image_uri_spec(*self, *block, registry_view(Some(realm))),
            ]);
        }
        args
    }

    /// The docker arguments that push a block's image to the realm's
    /// registry.
    pub fn docker_push_args(&self, block: &Block, realm: &Realm) -> (r: Vec<String>)
        ensures
            r.deep_view() == seq![
                "push"@,
                image_uri_spec(*self, *block, registry_view(Some(realm))),
            ],
    {
        let remote_uri = self.image_uri(block, Some(realm));
        let mut args: Vec<String> = Vec::new();
        args.push(String::from_str("push"));
        args.push(remote_uri);
        proof {
            assert(args.deep_view() =~= seq![
                "push"@,
                image_uri_spec(*self, *block, registry_view(Some(realm))),
            ]);
        }
        args
    }
}

} // verus!
