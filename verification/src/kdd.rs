//! The system description: every configured block, builder, realm and
//! version rule, with the path, image-naming and block-resolution logic.

use vstd::prelude::*;

use crate::block::Block;
use crate::builder::Builder;
use crate::error::KddError;
use crate::pods::PodsProvider;
use crate::realm::Realm;
use crate::text::{is_prefix_of, join_path, join_path_spec, starts_with_str, trim_slashes,
    trim_trailing_slashes};
use crate::version::Version;

verus! {

/// One loaded system: immutable for the lifetime of the process.
#[derive(Debug)]
pub struct Kdd {
    pub vars: Vec<(String, String)>,
    pub dir: String,
    pub system: String,
    pub block_base_dir: Option<String>,
    pub image_tag: Option<String>,
    pub realms: Vec<Realm>,
    pub blocks: Vec<Block>,
    pub builders: Vec<Builder>,
    pub versions: Vec<Version>,
    pub pods_provider: PodsProvider,
}

/// Relies on std::path::Path::is_file: whether a regular file exists at
/// `path` on this machine right now; nothing is assumed of the answer.
#[verifier::external_body]
fn path_is_file(path: &String) -> bool {
    std::path::Path::new(path.as_str()).is_file()
}

/// Index of the first block at or after `j` whose name is `name`.
pub open spec fn find_block_from(blocks: Seq<Block>, name: Seq<char>, j: int) -> Option<int>
    decreases blocks.len() - j,
{
    if j < 0 || j >= blocks.len() {
        None
    } else if blocks[j].name@ == name {
        Some(j)
    } else {
        find_block_from(blocks, name, j + 1)
    }
}

/// Index of the first block whose name is `name`.
pub open spec fn find_block(blocks: Seq<Block>, name: Seq<char>) -> Option<int> {
    find_block_from(blocks, name, 0)
}

/// Every requested name matches some block.
pub open spec fn all_names_resolve(blocks: Seq<Block>, names: Seq<String>) -> bool {
    forall|i: int| 0 <= i < names.len() ==> find_block(blocks, #[trigger] names[i]@) is Some
}

/// The block index each requested name resolves to, in request order.
pub open spec fn resolved_indices(blocks: Seq<Block>, names: Seq<String>) -> Seq<usize> {
    Seq::new(names.len(), |i: int| find_block(blocks, names[i]@)->0 as usize)
}

/// Every block index in declaration order.
pub open spec fn all_block_indices(n: nat) -> Seq<usize> {
    Seq::new(n, |i: int| i as usize)
}

/// The first `k` entries of `base` whose flag is set, in order.
pub open spec fn keep_flagged(base: Seq<usize>, flags: Seq<bool>, k: int) -> Seq<usize>
    decreases k,
{
    if k <= 0 {
        Seq::empty()
    } else {
        let prev = keep_flagged(base, flags, k - 1);
        if flags[base[k - 1] as int] {
            prev.push(base[k - 1])
        } else {
            prev
        }
    }
}

/// The blocks one build invocation targets: the requested names in request
/// order (or every block in declaration order), restricted, when packaging
/// is requested, to exactly the blocks whose flag says they carry a
/// packaging descriptor.
pub open spec fn target_selection(
    blocks: Seq<Block>,
    names: Option<Seq<String>>,
    packaging: bool,
    flags: Seq<bool>,
) -> Seq<usize> {
    let base = match names {
        Some(ns) => resolved_indices(blocks, ns),
        None => all_block_indices(blocks.len()),
    };
    if packaging {
        keep_flagged(base, flags, base.len() as int)
    } else {
        base
    }
}

/// Index of the first realm at or after `j` configured with context `ctx`.
pub open spec fn find_realm_ctx_from(realms: Seq<Realm>, ctx: Seq<char>, j: int) -> Option<int>
    decreases realms.len() - j,
{
    if j < 0 || j >= realms.len() {
        None
    } else if realms[j].context is Some && realms[j].context->0@ == ctx {
        Some(j)
    } else {
        find_realm_ctx_from(realms, ctx, j + 1)
    }
}

/// Index of the first realm configured with context `ctx`.
pub open spec fn find_realm_ctx(realms: Seq<Realm>, ctx: Seq<char>) -> Option<int> {
    find_realm_ctx_from(realms, ctx, 0)
}

/// Index of the first realm at or after `j` named `name`.
pub open spec fn find_realm_name_from(realms: Seq<Realm>, name: Seq<char>, j: int) -> Option<int>
    decreases realms.len() - j,
{
    if j < 0 || j >= realms.len() {
        None
    } else if realms[j].name@ == name {
        Some(j)
    } else {
        find_realm_name_from(realms, name, j + 1)
    }
}

/// Index of the first realm named `name`.
pub open spec fn find_realm_name(realms: Seq<Realm>, name: Seq<char>) -> Option<int> {
    find_realm_name_from(realms, name, 0)
}

/// The error reported when a requested name matches no block: it names the
/// first unresolvable name, every name before it resolving.
pub open spec fn unknown_name_error(blocks: Seq<Block>, names: Seq<String>, e: KddError) -> bool {
    exists|i: int|
        {
            &&& 0 <= i < names.len()
            &&& find_block(blocks, #[trigger] names[i]@) is None
            &&& (e matches KddError::BlockUnknown(m) && m@ == names[i]@)
            &&& forall|k: int|
                0 <= k < i ==> find_block(blocks, #[trigger] names[k]@) is Some
        }
}

/// The directory of a block: its explicit directory when given, else the
/// configured base directory joined with the block name, else the name
/// itself; always under the system root.
pub open spec fn block_dir_spec(kdd: Kdd, block: Block) -> Seq<char> {
    let rel = match block.dir {
        Some(d) => d@,
        None => match kdd.block_base_dir {
            Some(base) => join_path_spec(base@, block.name@),
            None => block.name@,
        },
    };
    join_path_spec(kdd.dir@, rel)
}

/// A `./`-prefixed path resolves under the block's directory, any other
/// under the system root.
pub open spec fn rel_path_spec(kdd: Kdd, block: Block, path: Seq<char>) -> Seq<char> {
    if is_prefix_of(seq!['.', '/'], path) {
        join_path_spec(block_dir_spec(kdd, block), path.skip(2))
    } else {
        join_path_spec(kdd.dir@, path)
    }
}

/// The configured image tag, or `default`.
pub open spec fn image_tag_spec(kdd: Kdd) -> Seq<char> {
    match kdd.image_tag {
        Some(t) => t@,
        None => "default"@,
    }
}

/// The registry string of a realm, when one names a realm with a registry.
pub open spec fn registry_view(realm: Option<&Realm>) -> Option<Seq<char>> {
    match realm {
        Some(rl) => match rl.registry {
            Some(reg) => Some(reg@),
            None => None,
        },
        None => None,
    }
}

/// The full image reference of a block:
/// `<registry>/<system>-<name>:<tag>`, with `localhost:5000` standing in
/// where no registry is configured, and trailing slashes trimmed off the
/// registry.
pub open spec fn image_uri_spec(kdd: Kdd, block: Block, registry: Option<Seq<char>>) -> Seq<char> {
    let reg_raw = match registry {
        Some(s) => s,
        None => "localhost:5000"@,
    };
    trim_trailing_slashes(reg_raw) + seq!['/'] + kdd.system@ + seq!['-'] + block.name@ + seq![':']
        + image_tag_spec(kdd)
}

impl Kdd {
    /// The directory of a block, relative to the working directory the
    /// process was started from.
    pub fn get_block_dir(&self, block: &Block) -> (r: String)
        ensures
            r@ == block_dir_spec(*self, *block),
    {
        let rel: String = match &block.dir {
            Some(d) => d.clone(),
            None => match &self.block_base_dir {
                Some(base) => join_path(base.as_str(), block.name.as_str()),
                None => block.name.clone(),
            },
        };
        join_path(self.dir.as_str(), rel.as_str())
    }

    /// Resolve a configured path: `./…` is relative to the block's
    /// directory, anything else to the system root.
    pub fn get_rel_path(&self, block: &Block, path: &str) -> (r: String)
        ensures
            r@ == rel_path_spec(*self, *block, path@),
    {
        proof {
            reveal_strlit("./");
            assert("./"@ =~= seq!['.', '/']);
        }
        if starts_with_str(path, "./") {
            let block_dir = self.get_block_dir(block);
            let len = path.unicode_len();
            let rest = path.substring_char(2, len);
            proof {
                assert(rest@ =~= path@.skip(2));
            }
            join_path(block_dir.as_str(), rest)
        } else {
            join_path(self.dir.as_str(), path)
        }
    }

    /// The configured image tag, or `default`.
    pub fn image_tag(&self) -> (r: String)
        ensures
            r@ == image_tag_spec(*self),
    {
        match &self.image_tag {
            Some(t) => t.clone(),
            None => String::from_str("default"),
        }
    }

    /// The image name of a block: `<system>-<name>`.
    pub fn image_name(&self, block: &Block) -> (r: String)
        ensures
            r@ == self.system@ + seq!['-'] + block.name@,
    {
        let mut r = self.system.clone();
        r.append("-");
        r.append(block.name.as_str());
        proof {
            reveal_strlit("-");
            assert("-"@ =~= seq!['-']);
            assert(r@ =~= self.system@ + seq!['-'] + block.name@);
        }
        r
    }

    /// The full image reference of a block for a realm's registry, or for
    /// the local desktop registry when no realm or registry is given.
    pub fn image_uri(&self, block: &Block, realm: Option<&Realm>) -> (r: String)
        ensures
            r@ == image_uri_spec(*self, *block, registry_view(realm)),
    {
        let reg_raw: String = match realm {
            Some(rl) => match &rl.registry {
                Some(reg) => reg.clone(),
                None => String::from_str("localhost:5000"),
            },
            None => String::from_str("localhost:5000"),
        };
        let mut r = trim_slashes(reg_raw.as_str());
        r.append("/");
        r.append(self.system.as_str());
        r.append("-");
        r.append(block.name.as_str());
        r.append(":");
        let tag = self.image_tag();
        r.append(tag.as_str());
        proof {
            reveal_strlit("/");
            reveal_strlit("-");
            reveal_strlit(":");
            assert("/"@ =~= seq!['/']);
            assert("-"@ =~= seq!['-']);
            assert(":"@ =~= seq![':']);
            assert(r@ =~= image_uri_spec(*self, *block, registry_view(realm)));
        }
        r
    }

    /// Index of the first block with this name, if any.
    pub fn find_block_index(&self, name: &String) -> (r: Option<usize>)
        ensures
            match r {
                Some(b) => b < self.blocks@.len() && find_block(self.blocks@, name@) == Some(
                    b as int,
                ),
                None => find_block(self.blocks@, name@) is None,
            },
    {
        let n = self.blocks.len();
        let mut i: usize = 0;
        while i < n
            invariant
                n == self.blocks@.len(),
                i <= n,
                find_block(self.blocks@, name@) == find_block_from(self.blocks@, name@, i as int),
            decreases n - i,
        {
            if crate::text::eq_str(self.blocks[i].name.as_str(), name.as_str()) {
                return Some(i);
            }
            i = i + 1;
        }
        None
    }

    /// Expand the requested names into the blocks one invocation targets.
    ///
    /// With names given, each is looked up in request order and any miss is
    /// a fatal `BlockUnknown` for the first unresolvable name, with no
    /// partial result; without names, every block is targeted in
    /// declaration order. When packaging is requested, the target set is
    /// then restricted to exactly the blocks whose descriptor flag is set —
    /// an empty result is not an error.
    pub fn blocks_for_names(
        &self,
        names: Option<&Vec<String>>,
        docker_block: bool,
        has_descriptor: &Vec<bool>,
    ) -> (r: Result<Vec<usize>, KddError>)
        requires
            docker_block ==> has_descriptor@.len() == self.blocks@.len(),
        ensures
            match names {
                Some(ns) => {
                    &&& r is Ok <==> all_names_resolve(self.blocks@, ns@)
                    &&& r matches Ok(sel) ==> sel@ == target_selection(
                        self.blocks@,
                        Some(ns@),
                        docker_block,
                        has_descriptor@,
                    )
                    &&& r matches Err(e) ==> unknown_name_error(self.blocks@, ns@, e)
                },
                None => (r matches Ok(sel) && sel@ == target_selection(
                    self.blocks@,
                    None,
                    docker_block,
                    has_descriptor@,
                )),
            },
            r matches Ok(sel) ==> forall|x: int|
                0 <= x < sel@.len() ==> #[trigger] sel@[x] < self.blocks@.len(),
    {
        let mut base: Vec<usize> = Vec::new();
        match names {
            Some(ns) => {
                let n = ns.len();
                let mut i: usize = 0;
                while i < n
                    invariant
                        names == Some(ns),
                        n == ns@.len(),
                        i <= n,
                        base@.len() == i,
                        forall|k: int| 0 <= k < i ==> #[trigger] base@[k] < self.blocks@.len(),
                        forall|k: int|
                            0 <= k < i ==> find_block(self.blocks@, #[trigger] ns@[k]@) is Some,
                        forall|k: int|
                            0 <= k < i ==> base@[k] as int == find_block(
                                self.blocks@,
                                #[trigger] ns@[k]@,
                            )->0,
                    decreases n - i,
                {
                    match self.find_block_index(&ns[i]) {
                        Some(b) => base.push(b),
                        None => {
                            let miss = ns[i].clone();
                            proof {
                                assert(!all_names_resolve(self.blocks@, ns@)) by {
                                    if all_names_resolve(self.blocks@, ns@) {
                                        assert(find_block(self.blocks@, ns@[i as int]@) is Some);
                                    }
                                }
                                assert(unknown_name_error(
                                    self.blocks@,
                                    ns@,
                                    KddError::BlockUnknown(miss),
                                )) by {
                                    assert(0 <= (i as int) && (i as int) < ns@.len()
                                        && find_block(self.blocks@, ns@[i as int]@) is None
                                        && miss@ == ns@[i as int]@);
                                };
                            }
                            return Err(KddError::BlockUnknown(miss));
                        },
                    }
                    i = i + 1;
                }
                proof {
                    assert(base@ =~= resolved_indices(self.blocks@, ns@));
                }
            },
            None => {
                let n = self.blocks.len();
                let mut i: usize = 0;
                while i < n
                    invariant
                        n == self.blocks@.len(),
                        i <= n,
                        base@.len() == i,
                        forall|k: int| 0 <= k < i ==> #[trigger] base@[k] as int == k,
                        forall|k: int| 0 <= k < i ==> #[trigger] base@[k] < self.blocks@.len(),
                    decreases n - i,
                {
                    base.push(i);
                    i = i + 1;
                }
                proof {
                    assert(base@ =~= all_block_indices(self.blocks@.len()));
                }
            },
        }
        if docker_block {
            let ghost base_view = base@;
            let m = base.len();
            let mut sel: Vec<usize> = Vec::new();
            let mut k: usize = 0;
            while k < m
                invariant
                    m == base@.len(),
                    base@ == base_view,
                    k <= m,
                    forall|j: int| 0 <= j < m ==> base@[j] < has_descriptor@.len(),
                    forall|j: int| 0 <= j < m ==> base@[j] < self.blocks@.len(),
                    sel@ == keep_flagged(base@, has_descriptor@, k as int),
                    forall|x: int| 0 <= x < sel@.len() ==> #[trigger] sel@[x] < self.blocks@.len(),
                decreases m - k,
            {
                let b = base[k];
                if has_descriptor[b] {
                    sel.push(b);
                }
                k = k + 1;
            }
            Ok(sel)
        } else {
            Ok(base)
        }
    }

    /// Every configured realm, in declaration order.
    pub fn realms(&self) -> (r: &Vec<Realm>)
        ensures
            r == &self.realms,
    {
        &self.realms
    }

    /// The pod selector for this system.
    pub fn get_pods_provider(&self) -> (r: PodsProvider)
        ensures
            r.system@ == self.pods_provider.system@,
    {
        PodsProvider { system: self.pods_provider.system.clone() }
    }

    /// Filter a pod listing by service names within this system; see
    /// the selector's own method for the exact selection.
    pub fn get_pods_by_service_names(
        &self,
        pods: Vec<crate::pods::Pod>,
        service_names: &Option<Vec<String>>,
    ) -> (r: Vec<crate::pods::Pod>)
        ensures
            match service_names {
                Some(names) => r@ == crate::pods::selected_pods(
                    self.pods_provider.system@,
                    names@,
                    pods@,
                    pods@.len() as int,
                ),
                None => r@ == pods@,
            },
    {
        self.pods_provider.get_pods_by_service_names(pods, service_names)
    }

    /// The realm configured for a cluster context, if any.
    pub fn realm_for_ctx(&self, ctx: &str) -> (r: Option<&Realm>)
        ensures
            match r {
                Some(realm) => find_realm_ctx(self.realms@, ctx@) matches Some(j) && *realm
                    == self.realms@[j],
                None => find_realm_ctx(self.realms@, ctx@) is None,
            },
    {
        let n = self.realms.len();
        let mut i: usize = 0;
        while i < n
            invariant
                n == self.realms@.len(),
                i <= n,
                find_realm_ctx(self.realms@, ctx@) == find_realm_ctx_from(
                    self.realms@,
                    ctx@,
                    i as int,
                ),
            decreases n - i,
        {
            let hit: bool = match &self.realms[i].context {
                Some(c) => crate::text::eq_str(c.as_str(), ctx),
                None => false,
            };
            if hit {
                return Some(&self.realms[i]);
            }
            i = i + 1;
        }
        None
    }

    /// The realm configured under a name, if any.
    pub fn realm_by_name(&self, name: &str) -> (r: Option<&Realm>)
        ensures
            match r {
                Some(realm) => find_realm_name(self.realms@, name@) matches Some(j) && *realm
                    == self.realms@[j],
                None => find_realm_name(self.realms@, name@) is None,
            },
    {
        let n = self.realms.len();
        let mut i: usize = 0;
        while i < n
            invariant
                n == self.realms@.len(),
                i <= n,
                find_realm_name(self.realms@, name@) == find_realm_name_from(
                    self.realms@,
                    name@,
                    i as int,
                ),
            decreases n - i,
        {
            if crate::text::eq_str(self.realms[i].name.as_str(), name) {
                return Some(&self.realms[i]);
            }
            i = i + 1;
        }
        None
    }

    /// Decide a realm change: the cluster context to switch to, or why the
    /// change is refused — an unknown realm name, or a realm that has no
    /// context configured.
    pub fn realm_set_plan(&self, name: &String) -> (r: Result<String, KddError>)
        ensures
            match find_realm_name(self.realms@, name@) {
                None => (r matches Err(KddError::RealmNotFound(m)) && m@ == name@),
                Some(j) => match self.realms@[j].context {
                    Some(c) => (r matches Ok(ctx) && ctx@ == c@),
                    None => (r matches Err(KddError::RealmHasNoContext(m)) && m@ == name@),
                },
            },
    {
        match self.realm_by_name(name.as_str()) {
            None => Err(KddError::RealmNotFound(name.clone())),
            Some(realm) => match &realm.context {
                Some(c) => Ok(c.clone()),
                None => Err(KddError::RealmHasNoContext(name.clone())),
            },
        }
    }

    /// Which builder trigger files exist right now: one flag per block and
    /// builder, resolved relative to the block; a builder without a trigger
    /// path gets no flag anywhere.
    pub fn compute_triggers(&self) -> (r: Vec<Vec<bool>>)
        ensures
            r@.len() == self.blocks@.len(),
            forall|b: int| 0 <= b < r@.len() ==> #[trigger] r@[b]@.len() == self.builders@.len(),
            forall|b: int, j: int|
                0 <= b < r@.len() && 0 <= j < r@[b]@.len() && self.builders@[j].when_file is None
                    ==> !(#[trigger] r@[b]@[j]),
    {
        let nb = self.blocks.len();
        let nj = self.builders.len();
        let mut r: Vec<Vec<bool>> = Vec::new();
        let mut b: usize = 0;
        while b < nb
            invariant
                nb == self.blocks@.len(),
                nj == self.builders@.len(),
                b <= nb,
                r@.len() == b,
                forall|x: int| 0 <= x < b ==> #[trigger] r@[x]@.len() == nj,
                forall|x: int, j: int|
                    0 <= x < b && 0 <= j < nj && self.builders@[j].when_file is None ==> !(
                    #[trigger] r@[x]@[j]),
            decreases nb - b,
        {
            let mut row: Vec<bool> = Vec::new();
            let mut j: usize = 0;
            while j < nj
                invariant
                    nb == self.blocks@.len(),
                    nj == self.builders@.len(),
                    b < nb,
                    j <= nj,
                    row@.len() == j,
                    forall|k: int|
                        0 <= k < j && self.builders@[k].when_file is None ==> !(#[trigger] row@[k]),
                decreases nj - j,
            {
                let flag: bool = match &self.builders[j].when_file {
                    Some(wf) => {
                        let p = self.get_rel_path(&self.blocks[b], wf.as_str());
                        path_is_file(&p)
                    },
                    None => false,
                };
                row.push(flag);
                j = j + 1;
            }
            r.push(row);
            b = b + 1;
        }
        r
    }

    /// Which blocks carry a packaging descriptor (`Dockerfile`) in their
    /// directory right now: one flag per block.
    pub fn compute_descriptors(&self) -> (r: Vec<bool>)
        ensures
            r@.len() == self.blocks@.len(),
    {
        let nb = self.blocks.len();
        let mut r: Vec<bool> = Vec::new();
        let mut b: usize = 0;
        while b < nb
            invariant
                nb == self.blocks@.len(),
                b <= nb,
                r@.len() == b,
            decreases nb - b,
        {
            let dir = self.get_block_dir(&self.blocks[b]);
            let p = join_path(dir.as_str(), "Dockerfile");
            r.push(path_is_file(&p));
            b = b + 1;
        }
        r
    }
}

} // verus!
