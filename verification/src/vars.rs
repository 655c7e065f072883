//! Template variables as an association list of `(key, value)` pairs, in
//! insertion order, with first-match lookup and overwriting merge.

use vstd::prelude::*;

verus! {

/// A variables file, by what its path's extension says it holds.
#[derive(Debug, Clone, PartialEq, Eq)]
pub enum FileVarsSource {
    /// A JSON file, usable as a variable source.
    Json(String),
    /// Any other file: not a supported variable source.
    NotSupported(String),
}

/// Position of the last occurrence of `c` at or before `j`, if any.
pub open spec fn find_last_from(s: Seq<char>, c: char, j: int) -> Option<int>
    decreases j + 1,
{
    if j < 0 || j >= s.len() {
        None
    } else if s[j] == c {
        Some(j)
    } else {
        find_last_from(s, c, j - 1)
    }
}

/// Where the extension of a path starts: right after the last dot of the
/// last component, provided that dot does not open the component's name.
pub open spec fn path_ext_start(s: Seq<char>) -> Option<int> {
    let comp_start: int = match find_last_from(s, '/', s.len() - 1) {
        Some(i) => i + 1,
        None => 0,
    };
    match find_last_from(s, '.', s.len() - 1) {
        Some(d) => if d > comp_start {
            Some(d + 1)
        } else {
            None
        },
        None => None,
    }
}

/// The four characters of `json`, either case.
pub open spec fn is_json_ext(s: Seq<char>) -> bool {
    &&& s.len() == 4
    &&& (s[0] == 'j' || s[0] == 'J')
    &&& (s[1] == 's' || s[1] == 'S')
    &&& (s[2] == 'o' || s[2] == 'O')
    &&& (s[3] == 'n' || s[3] == 'N')
}

/// The path carries a `json` extension, compared without regard to case.
pub open spec fn is_json_path(s: Seq<char>) -> bool {
    match path_ext_start(s) {
        Some(e) => is_json_ext(s.skip(e)),
        None => false,
    }
}

/// Position of the last occurrence of `c` in `s`, if any.
fn rfind_char(s: &str, c: char) -> (r: Option<usize>)
    ensures
        match r {
            Some(i) => i < s@.len() && find_last_from(s@, c, s@.len() - 1) == Some(i as int),
            None => find_last_from(s@, c, s@.len() - 1) is None,
        },
{
    let len = s.unicode_len();
    let mut j: usize = len;
    while j > 0
        invariant
            len == s@.len(),
            j <= len,
            find_last_from(s@, c, len - 1) == find_last_from(s@, c, j - 1),
        decreases j,
    {
        if s.get_char(j - 1) == c {
            return Some(j - 1);
        }
        j = j - 1;
    }
    None
}

impl FileVarsSource {
    /// Classify a variables file by its path: a `json` extension, in any
    /// case, is the one supported source.
    pub fn from_path(path: String) -> (r: FileVarsSource)
        ensures
            is_json_path(path@) ==> r == FileVarsSource::Json(path),
            !is_json_path(path@) ==> r == FileVarsSource::NotSupported(path),
    {
        let len = path.as_str().unicode_len();
        let comp_start: usize = match rfind_char(path.as_str(), '/') {
            Some(i) => i + 1,
            None => 0,
        };
        let dot: Option<usize> = rfind_char(path.as_str(), '.');
        match dot {
            Some(d) => {
                if d > comp_start && len - (d + 1) == 4 {
                    let c0 = path.as_str().get_char(d + 1);
                    let c1 = path.as_str().get_char(d + 2);
                    let c2 = path.as_str().get_char(d + 3);
                    let c3 = path.as_str().get_char(d + 4);
                    let ext_is_json = (c0 == 'j' || c0 == 'J') && (c1 == 's' || c1 == 'S') && (c2
                        == 'o' || c2 == 'O') && (c3 == 'n' || c3 == 'N');
                    proof {
                        assert(path@.skip(d + 1).len() == 4);
                        assert(path@.skip(d + 1)[0] == path@[d + 1]);
                        assert(path@.skip(d + 1)[1] == path@[d + 2]);
                        assert(path@.skip(d + 1)[2] == path@[d + 3]);
                        assert(path@.skip(d + 1)[3] == path@[d + 4]);
                    }
                    if ext_is_json {
                        FileVarsSource::Json(path)
                    } else {
                        FileVarsSource::NotSupported(path)
                    }
                } else {
                    FileVarsSource::NotSupported(path)
                }
            },
            None => FileVarsSource::NotSupported(path),
        }
    }
}

/// Index of the first pair at or after `j` whose key is `key`.
pub open spec fn var_index_from(vars: Seq<(String, String)>, key: Seq<char>, j: int) -> Option<
    int,
>
    decreases vars.len() - j,
{
    if j < 0 || j >= vars.len() {
        None
    } else if vars[j].0@ == key {
        Some(j)
    } else {
        var_index_from(vars, key, j + 1)
    }
}

/// Index of the first pair whose key is `key`.
pub open spec fn var_index(vars: Seq<(String, String)>, key: Seq<char>) -> Option<int> {
    var_index_from(vars, key, 0)
}

/// Look a key up, returning the value of the first pair that carries it.
pub fn get_str<'a>(vars: &'a Vec<(String, String)>, key: &str) -> (r: Option<&'a str>)
    ensures
        match r {
            Some(v) => {
                &&& var_index(vars@, key@) is Some
                &&& v@ == vars@[var_index(vars@, key@)->0].1@
            },
            None => var_index(vars@, key@) is None,
        },
{
    let n = vars.len();
    let mut i: usize = 0;
    while i < n
        invariant
            n == vars@.len(),
            i <= n,
            var_index(vars@, key@) == var_index_from(vars@, key@, i as int),
        decreases n - i,
    {
        if crate::text::eq_str(vars[i].0.as_str(), key) {
            return Some(vars[i].1.as_str());
        }
        i = i + 1;
    }
    None
}

/// What upserting one pair does: the first pair with the same key is
/// overwritten, else the pair is appended.
pub open spec fn upsert_var(
    vars: Seq<(String, String)>,
    key: String,
    val: String,
) -> Seq<(String, String)> {
    match var_index(vars, key@) {
        Some(i) => vars.update(i, (key, val)),
        None => vars.push((key, val)),
    }
}

/// The `vars` pairs upserted into `root`, first `k` pairs applied.
pub open spec fn merged_vars(
    root: Seq<(String, String)>,
    vars: Seq<(String, String)>,
    k: int,
) -> Seq<(String, String)>
    decreases k,
{
    if k <= 0 {
        root
    } else {
        let prev = merged_vars(root, vars, k - 1);
        upsert_var(prev, vars[k - 1].0, vars[k - 1].1)
    }
}

/// Set one variable, overwriting the first pair with the same key if any.
pub fn set_var(vars: &mut Vec<(String, String)>, key: String, val: String)
    ensures
        final(vars)@ == upsert_var(old(vars)@, key, val),
{
    let n = vars.len();
    let mut i: usize = 0;
    while i < n
        invariant
            n == vars@.len(),
            i <= n,
            *vars == *old(vars),
            var_index(vars@, key@) == var_index_from(vars@, key@, i as int),
        decreases n - i,
    {
        if crate::text::eq_str(vars[i].0.as_str(), key.as_str()) {
            vars.set(i, (key, val));
            return ;
        }
        i = i + 1;
    }
    vars.push((key, val));
}

/// Merge `vars` into `root_vars`, later pairs overwriting earlier values
/// under the same key.
pub fn merge_vars(root_vars: &mut Vec<(String, String)>, vars: Vec<(String, String)>)
    ensures
        final(root_vars)@ == merged_vars(old(root_vars)@, vars@, vars@.len() as int),
{
    let n = vars.len();
    let mut k: usize = 0;
    while k < n
        invariant
            n == vars@.len(),
            k <= n,
            root_vars@ == merged_vars(old(root_vars)@, vars@, k as int),
        decreases n - k,
    {
        let key = vars[k].0.clone();
        let val = vars[k].1.clone();
        proof {
            assert((key, val) == vars@[k as int]);
        }
        set_var(root_vars, key, val);
        k = k + 1;
    }
}

} // verus!
