//! The watch scheduler: one long-lived watcher process per (block, builder)
//! pair, laid out as a plan of fully resolved watch-mode invocations that
//! the driver spawns concurrently.

use vstd::prelude::*;

use crate::builder::{exec_args_spec, exec_cmd_spec, exec_cwd_spec, Invocation};
use crate::error::KddError;
use crate::kdd::{all_names_resolve, block_dir_spec, target_selection, unknown_name_error, Kdd};
use crate::matcher::matched_seq;
use crate::orchestrate::{names_view, trig_wf};

verus! {

/// One watcher to start: a block, the builder matched for it, and the
/// watch-mode invocation to run as a long-lived process.
#[derive(Debug)]
pub struct WatchTask {
    pub block: usize,
    pub builder: usize,
    pub invocation: Invocation,
}

/// Whether a watcher for this (block, builder) pair can be laid out: its
/// command string resolves.
pub open spec fn watch_task_included(kdd: Kdd, b: usize, j: usize) -> bool {
    let e = kdd.builders@[j as int].command;
    let cwd = exec_cwd_spec(e, kdd.dir@, block_dir_spec(kdd, kdd.blocks@[b as int]));
    exec_cmd_spec(e, kdd.dir@, cwd) is Some
}

/// A task's invocation is the watch-mode resolution of its builder's
/// command for its block.
pub open spec fn watch_task_valid(kdd: Kdd, t: WatchTask) -> bool {
    &&& t.block < kdd.blocks@.len()
    &&& t.builder < kdd.builders@.len()
    &&& {
        let e = kdd.builders@[t.builder as int].command;
        let cwd = exec_cwd_spec(e, kdd.dir@, block_dir_spec(kdd, kdd.blocks@[t.block as int]));
        &&& exec_cmd_spec(e, kdd.dir@, cwd) == Some(t.invocation.cmd@)
        &&& t.invocation.cwd@ == cwd
        &&& t.invocation.args.deep_view() == exec_args_spec(e, true)
    }
}

/// The (block, builder) pair of each task, in order.
pub open spec fn task_pairs(tasks: Seq<WatchTask>) -> Seq<(usize, usize)> {
    tasks.map_values(|t: WatchTask| (t.block, t.builder))
}

/// The (block, builder) pairs of the watchers for one block: its matched
/// builders in declaration order — run occurrence is ignored, every matched
/// builder gets its own watcher — those whose command resolves.
pub open spec fn watch_pairs_for_block(
    kdd: Kdd,
    b: usize,
    matched: Seq<usize>,
    k: int,
) -> Seq<(usize, usize)>
    decreases k,
{
    if k <= 0 {
        Seq::empty()
    } else {
        let prev = watch_pairs_for_block(kdd, b, matched, k - 1);
        if watch_task_included(kdd, b, matched[k - 1]) {
            prev.push((b, matched[k - 1]))
        } else {
            prev
        }
    }
}

/// The (block, builder) pairs of all watchers, over the first `k` target
/// blocks in order.
pub open spec fn watch_pairs(kdd: Kdd, trig: Seq<Seq<bool>>, targets: Seq<usize>, k: int) -> Seq<
    (usize, usize),
>
    decreases k,
{
    if k <= 0 {
        Seq::empty()
    } else {
        let t = targets[k - 1];
        let matched = matched_seq(kdd.builders@, trig[t as int], kdd.builders@.len() as int);
        watch_pairs(kdd, trig, targets, k - 1) + watch_pairs_for_block(
            kdd,
            t,
            matched,
            matched.len() as int,
        )
    }
}

/// Lay out one watch invocation: every requested block (unknown names are
/// fatal, exactly as for a build), every builder matched for it, each as an
/// independent watch-mode task.
pub fn watch_plan(kdd: &Kdd, names: Option<&Vec<String>>, triggers: &Vec<Vec<bool>>) -> (r: Result<
    Vec<WatchTask>,
    KddError,
>)
    requires
        trig_wf(*kdd, triggers@),
    ensures
        (match names {
            Some(ns) => r is Ok <==> all_names_resolve(kdd.blocks@, ns@),
            None => r is Ok,
        }),
        r matches Err(e) ==> (names matches Some(ns) && unknown_name_error(kdd.blocks@, ns@, e)),
        r matches Ok(tasks) ==> {
            &&& task_pairs(tasks@) == watch_pairs(
                *kdd,
                triggers.deep_view(),
                target_selection(kdd.blocks@, names_view(names), false, Seq::empty()),
                target_selection(kdd.blocks@, names_view(names), false, Seq::empty()).len() as int,
            )
            &&& forall|x: int|
                0 <= x < tasks@.len() ==> watch_task_valid(*kdd, #[trigger] tasks@[x])
        },
{
    let no_flags: Vec<bool> = Vec::new();
    let targets = match kdd.blocks_for_names(names, false, &no_flags) {
        Ok(t) => t,
        Err(e) => {
            return Err(e);
        },
    };
    proof {
        assert(targets@ == target_selection(kdd.blocks@, names_view(names), false, Seq::empty()));
    }
    let mut tasks: Vec<WatchTask> = Vec::new();
    let n = targets.len();
    let mut i: usize = 0;
    while i < n
        invariant
            n == targets@.len(),
            trig_wf(*kdd, triggers@),
            forall|x: int| 0 <= x < n ==> #[trigger] targets@[x] < kdd.blocks@.len(),
            i <= n,
            task_pairs(tasks@) == watch_pairs(
                *kdd,
                triggers.deep_view(),
                targets@,
                i as int,
            ),
            forall|x: int| 0 <= x < tasks@.len() ==> watch_task_valid(*kdd, #[trigger] tasks@[x]),
        decreases n - i,
    {
        let t = targets[i];
        proof {
            assert(triggers.deep_view()[t as int] =~= triggers@[t as int]@);
        }
        let matched = kdd.builders_for_block(&triggers[t]);
        let block_dir = kdd.get_block_dir(&kdd.blocks[t]);
        let m = matched.len();
        let ghost mv = matched@;
        let mut y: usize = 0;
        while y < m
            invariant
                m == matched@.len(),
                matched@ == mv,
                mv == matched_seq(
                    kdd.builders@,
                    triggers.deep_view()[t as int],
                    kdd.builders@.len() as int,
                ),
                forall|z: int|
                    0 <= z < m ==> crate::matcher::is_matched(
                        kdd.builders@,
                        triggers.deep_view()[t as int],
                        #[trigger] mv[z] as int,
                    ),
                t < kdd.blocks@.len(),
                block_dir@ == block_dir_spec(*kdd, kdd.blocks@[t as int]),
                y <= m,
                task_pairs(tasks@) == watch_pairs(
                    *kdd,
                    triggers.deep_view(),
                    targets@,
                    i as int,
                ) + watch_pairs_for_block(*kdd, t, mv, y as int),
                forall|x: int|
                    0 <= x < tasks@.len() ==> watch_task_valid(*kdd, #[trigger] tasks@[x]),
            decreases m - y,
        {
            let j = matched[y];
            let ghost old_tasks = tasks@;
            match kdd.builders[j].command.resolve_invocation(&kdd.dir, &block_dir, true) {
                Ok(inv) => {
                    proof {
                        assert(watch_task_included(*kdd, t, j));
                        assert(watch_pairs_for_block(*kdd, t, mv, y + 1)
                            == watch_pairs_for_block(*kdd, t, mv, y as int).push((t, j)));
                    }
                    tasks.push(WatchTask { block: t, builder: j, invocation: inv });
                    proof {
                        assert(tasks@ == old_tasks.push(
                            WatchTask { block: t, builder: j, invocation: tasks@.last().invocation },
                        ));
                        assert(task_pairs(tasks@) =~= task_pairs(old_tasks).push((t, j)));
                        assert(task_pairs(tasks@) =~= (watch_pairs(
                            *kdd,
                            triggers.deep_view(),
                            targets@,
                            i as int,
                        ) + watch_pairs_for_block(*kdd, t, mv, y + 1)));
                    }
                },
                Err(_) => {
                    proof {
                        assert(!watch_task_included(*kdd, t, j));
                    }
                },
            }
            y = y + 1;
        }
        proof {
            assert(task_pairs(tasks@) == watch_pairs(*kdd, triggers.deep_view(), targets@, i + 1));
        }
        i = i + 1;
    }
    Ok(tasks)
}

} // verus!
