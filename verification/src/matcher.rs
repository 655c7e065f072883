//! The builder matcher: which configured builders fire for one block, by
//! trigger-file detection and override (`replace`) exclusion.

use vstd::prelude::*;

use crate::builder::Builder;

verus! {

/// A builder is a candidate for a block when it has a trigger path and that
/// path, resolved relative to the block, names an existing file (`trig[j]`).
pub open spec fn is_candidate(builders: Seq<Builder>, trig: Seq<bool>, j: int) -> bool {
    &&& 0 <= j < builders.len()
    &&& builders[j].when_file is Some
    &&& trig[j]
}

/// Some candidate among the first `j` declares that it replaces a builder
/// of this name.
pub open spec fn name_replaced_upto(
    builders: Seq<Builder>,
    trig: Seq<bool>,
    name: Seq<char>,
    j: int,
) -> bool {
    exists|k: int|
        is_candidate(builders, trig, k) && k < j && ((#[trigger] builders[k].replace) matches Some(
            r,
        ) && r@ == name)
}

/// Some candidate declares that it replaces a builder of this name.
pub open spec fn name_replaced(builders: Seq<Builder>, trig: Seq<bool>, name: Seq<char>) -> bool {
    name_replaced_upto(builders, trig, name, builders.len() as int)
}

/// A builder fires for the block: it is a candidate and no candidate
/// replaces it.
pub open spec fn is_matched(builders: Seq<Builder>, trig: Seq<bool>, j: int) -> bool {
    is_candidate(builders, trig, j) && !name_replaced(builders, trig, builders[j].name@)
}

/// The indices of the builders that fire, among the first `n`, in
/// declaration order.
pub open spec fn matched_seq(builders: Seq<Builder>, trig: Seq<bool>, n: int) -> Seq<usize>
    decreases n,
{
    if n <= 0 {
        Seq::empty()
    } else {
        let prev = matched_seq(builders, trig, n - 1);
        if is_matched(builders, trig, n - 1) {
            prev.push((n - 1) as usize)
        } else {
            prev
        }
    }
}

/// Some string in the list reads `name`.
pub open spec fn seq_has_string(strings: Seq<String>, name: Seq<char>) -> bool {
    exists|x: int| 0 <= x < strings.len() && (#[trigger] strings[x])@ == name
}

/// Whether some string in the list equals `s`.
pub fn contains_string(strings: &Vec<String>, s: &String) -> (r: bool)
    ensures
        r == seq_has_string(strings@, s@),
{
    let n = strings.len();
    let mut i: usize = 0;
    while i < n
        invariant
            n == strings@.len(),
            i <= n,
            forall|x: int| 0 <= x < i ==> (#[trigger] strings@[x])@ != s@,
        decreases n - i,
    {
        if crate::text::eq_str(strings[i].as_str(), s.as_str()) {
            return true;
        }
        i = i + 1;
    }
    false
}

/// The builders that fire for one block, by index in declaration order.
///
/// `trig[j]` says whether builder `j`'s trigger file exists relative to the
/// block. Candidates are the builders with an existing trigger file; a
/// candidate named as the `replace` target of any candidate is excluded.
pub fn matched_builders(builders: &Vec<Builder>, trig: &Vec<bool>) -> (r: Vec<usize>)
    requires
        trig@.len() == builders@.len(),
    ensures
        r@ == matched_seq(builders@, trig@, builders@.len() as int),
        forall|x: int|
            0 <= x < r@.len() ==> is_matched(builders@, trig@, #[trigger] r@[x] as int),
{
    let n = builders.len();

    // Collect the replace targets declared by candidates.
    let mut replace_names: Vec<String> = Vec::new();
    let mut j: usize = 0;
    while j < n
        invariant
            n == builders@.len(),
            trig@.len() == n,
            j <= n,
            forall|x: int|
                0 <= x < replace_names@.len() ==> name_replaced(
                    builders@,
                    trig@,
                    (#[trigger] replace_names@[x])@,
                ),
            forall|name: Seq<char>|
                #[trigger] name_replaced_upto(builders@, trig@, name, j as int) ==> seq_has_string(
                    replace_names@,
                    name,
                ),
        decreases n - j,
    {
        let ghost old_names = replace_names@;
        let mut pushed = false;
        if trig[j] {
            match (&builders[j].when_file, &builders[j].replace) {
                (Some(_), Some(rep)) => {
                    replace_names.push(rep.clone());
                    pushed = true;
                    proof {
                        assert(is_candidate(builders@, trig@, j as int));
                        assert(replace_names@[replace_names@.len() - 1]@ == builders@[j as int].replace->0@);
                        assert(name_replaced(builders@, trig@, builders@[j as int].replace->0@));
                        assert forall|x: int| 0 <= x < replace_names@.len() implies name_replaced(
                            builders@,
                            trig@,
                            (#[trigger] replace_names@[x])@,
                        ) by {
                            if x < old_names.len() {
                                assert(replace_names@[x] == old_names[x]);
                            }
                        }
                    }
                },
                _ => {},
            }
        }
        proof {
            assert forall|name: Seq<char>| #[trigger]
                name_replaced_upto(builders@, trig@, name, j + 1) implies seq_has_string(
                replace_names@,
                name,
            ) by {
                let k = choose|k: int|
                    is_candidate(builders@, trig@, k) && k < j + 1 && ((
                    #[trigger] builders@[k].replace) matches Some(r) && r@ == name);
                if k < j {
                    assert(name_replaced_upto(builders@, trig@, name, j as int));
                    assert(seq_has_string(old_names, name));
                    let x = choose|x: int|
                        0 <= x < old_names.len() && (#[trigger] old_names[x])@ == name;
                    assert(replace_names@[x]@ == name);
                } else {
                    assert(k == j);
                    assert(pushed);
                    assert(replace_names@[replace_names@.len() - 1]@ == name);
                }
            }
        }
        j = j + 1;
    }

    // Keep the candidates whose own name no candidate replaces.
    let mut r: Vec<usize> = Vec::new();
    let mut j: usize = 0;
    while j < n
        invariant
            n == builders@.len(),
            trig@.len() == n,
            j <= n,
            forall|x: int|
                0 <= x < replace_names@.len() ==> name_replaced(
                    builders@,
                    trig@,
                    (#[trigger] replace_names@[x])@,
                ),
            forall|name: Seq<char>|
                #[trigger] name_replaced_upto(builders@, trig@, name, n as int) ==> seq_has_string(
                    replace_names@,
                    name,
                ),
            r@ == matched_seq(builders@, trig@, j as int),
            forall|x: int|
                0 <= x < r@.len() ==> is_matched(builders@, trig@, #[trigger] r@[x] as int),
        decreases n - j,
    {
        let candidate: bool = match &builders[j].when_file {
            Some(_) => trig[j],
            None => false,
        };
        if candidate {
            if !contains_string(&replace_names, &builders[j].name) {
                proof {
                    assert(!name_replaced(builders@, trig@, builders@[j as int].name@));
                    assert(is_matched(builders@, trig@, j as int));
                }
                r.push(j);
            } else {
                proof {
                    let x = choose|x: int|
                        0 <= x < replace_names@.len() && (#[trigger] replace_names@[x])@
                            == builders@[j as int].name@;
                    assert(name_replaced(builders@, trig@, replace_names@[x]@));
                    assert(!is_matched(builders@, trig@, j as int));
                }
            }
        }
        j = j + 1;
    }
    r
}

/// Override law: where builder `b` declares it replaces builder `a`'s name
/// and both are triggered for a block, `a` does not fire there, and `b`
/// does, provided no candidate replaces `b`'s own name in turn.
pub proof fn lemma_replace_excludes_replaced(
    builders: Seq<Builder>,
    trig: Seq<bool>,
    a: int,
    b: int,
)
    requires
        is_candidate(builders, trig, a),
        is_candidate(builders, trig, b),
        builders[b].replace matches Some(r) && r@ == builders[a].name@,
    ensures
        !is_matched(builders, trig, a),
        !name_replaced(builders, trig, builders[b].name@) ==> is_matched(builders, trig, b),
{
    assert(name_replaced(builders, trig, builders[a].name@));
}

} // verus!
