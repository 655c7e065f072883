//! Verified text utilities: prefix and substring tests, path joining on
//! string paths, and trimming, used by the rest of the core.

use vstd::prelude::*;

verus! {

/// `p` is a prefix of `s`.
pub open spec fn is_prefix_of(p: Seq<char>, s: Seq<char>) -> bool {
    p.len() <= s.len() && s.subrange(0, p.len() as int) == p
}

/// `n` occurs in `h` starting at position `i`.
pub open spec fn occurs_at(h: Seq<char>, n: Seq<char>, i: int) -> bool {
    0 <= i && i + n.len() <= h.len() && h.subrange(i, i + n.len() as int) == n
}

/// `n` occurs somewhere in `h`.
pub open spec fn contains_seq(h: Seq<char>, n: Seq<char>) -> bool {
    exists|i: int| occurs_at(h, n, i)
}

/// What joining a relative path under a base directory yields: an absolute
/// path stands alone; otherwise the two are separated by exactly one `/`.
pub open spec fn join_path_spec(base: Seq<char>, rel: Seq<char>) -> Seq<char> {
    if rel.len() > 0 && rel[0] == '/' {
        rel
    } else if base.len() == 0 {
        rel
    } else if base[base.len() - 1] == '/' {
        base + rel
    } else {
        base + seq!['/'] + rel
    }
}

/// `s` with every trailing `/` removed.
pub open spec fn trim_trailing_slashes(s: Seq<char>) -> Seq<char>
    decreases s.len(),
{
    if s.len() > 0 && s[s.len() - 1] == '/' {
        trim_trailing_slashes(s.drop_last())
    } else {
        s
    }
}

/// Position of the first comma at or after `i`, or the length if none.
pub open spec fn find_comma(s: Seq<char>, i: int) -> int
    decreases s.len() - i,
{
    if i < 0 || i >= s.len() {
        i
    } else if s[i] == ',' {
        i
    } else {
        find_comma(s, i + 1)
    }
}

/// The comma-separated pieces of `s`, in order; the empty string is one
/// empty piece.
pub open spec fn split_commas(s: Seq<char>) -> Seq<Seq<char>>
    decreases s.len(),
{
    let i = find_comma(s, 0);
    if 0 <= i && i < s.len() {
        seq![s.take(i)] + split_commas(s.skip(i + 1))
    } else {
        seq![s]
    }
}

/// Split an optional comma-delimited list into its pieces.
pub fn split_names(val: Option<&String>) -> (r: Option<Vec<String>>)
    ensures
        match val {
            Some(s) => (r matches Some(pieces) && pieces.deep_view() == split_commas(s@)),
            None => r is None,
        },
{
    let s = match val {
        Some(s) => s,
        None => {
            return None;
        },
    };
    let len = s.as_str().unicode_len();
    let mut pieces: Vec<String> = Vec::new();
    let mut start: usize = 0;
    let mut i: usize = 0;
    proof {
        assert(s@.skip(0) =~= s@);
    }
    while i < len
        invariant
            len == s@.len(),
            start <= i <= len,
            split_commas(s@) =~= pieces.deep_view() + split_commas(s@.skip(start as int)),
            forall|k: int| start <= k < i ==> s@[k] != ',',
        decreases len - i,
    {
        if s.as_str().get_char(i) == ',' {
            let piece = s.as_str().substring_char(start, i);
            let ghost old_pieces = pieces.deep_view();
            pieces.push(piece.to_owned());
            proof {
                let tail = s@.skip(start as int);
                assert(find_comma(tail, 0) == i - start) by {
                    lemma_find_comma_scan(tail, 0, i - start);
                }
                assert(tail.take(i - start) =~= s@.subrange(start as int, i as int));
                assert(tail.skip(i - start + 1) =~= s@.skip(i + 1));
                assert(split_commas(tail) =~= seq![s@.subrange(start as int, i as int)]
                    + split_commas(s@.skip(i + 1)));
                assert(pieces.deep_view() =~= old_pieces.push(
                    s@.subrange(start as int, i as int),
                ));
                assert(pieces.deep_view() + split_commas(s@.skip(i + 1)) =~= old_pieces + (seq![
                    s@.subrange(start as int, i as int),
                ] + split_commas(s@.skip(i + 1))));
            }
            start = i + 1;
        }
        i = i + 1;
    }
    let last = s.as_str().substring_char(start, len);
    let ghost old_pieces = pieces.deep_view();
    pieces.push(last.to_owned());
    proof {
        let tail = s@.skip(start as int);
        assert(find_comma(tail, 0) == len - start) by {
            lemma_find_comma_scan(tail, 0, len - start);
        }
        assert(tail =~= s@.subrange(start as int, len as int));
        assert(split_commas(tail) =~= seq![s@.subrange(start as int, len as int)]);
        assert(pieces.deep_view() =~= old_pieces.push(s@.subrange(start as int, len as int)));
        assert(pieces.deep_view() =~= split_commas(s@));
    }
    Some(pieces)
}

/// In a sequence whose first `upto` characters are not commas and whose
/// character at `upto` (if within bounds) is one, the first comma at or
/// after `i <= upto` is at `upto`.
proof fn lemma_find_comma_scan(s: Seq<char>, i: int, upto: int)
    requires
        0 <= i <= upto <= s.len(),
        forall|k: int| i <= k < upto ==> s[k] != ',',
        upto < s.len() ==> s[upto] == ',',
    ensures
        find_comma(s, i) == upto,
    decreases upto - i,
{
    if i < upto {
        lemma_find_comma_scan(s, i + 1, upto);
    }
}

/// Character-for-character string equality.
pub fn eq_str(a: &str, b: &str) -> (r: bool)
    ensures
        r == (a@ == b@),
{
    let a_len = a.unicode_len();
    let b_len = b.unicode_len();
    if a_len != b_len {
        return false;
    }
    let mut i: usize = 0;
    while i < a_len
        invariant
            a_len == a@.len(),
            b_len == b@.len(),
            a_len == b_len,
            i <= a_len,
            forall|k: int| 0 <= k < i ==> a@[k] == b@[k],
        decreases a_len - i,
    {
        if a.get_char(i) != b.get_char(i) {
            return false;
        }
        i = i + 1;
    }
    proof {
        assert(a@ =~= b@);
    }
    true
}

/// Whether `p` is a prefix of `s`.
pub fn starts_with_str(s: &str, p: &str) -> (r: bool)
    ensures
        r == is_prefix_of(p@, s@),
{
    let s_len = s.unicode_len();
    let p_len = p.unicode_len();
    if p_len > s_len {
        return false;
    }
    let mut i: usize = 0;
    while i < p_len
        invariant
            s_len == s@.len(),
            p_len == p@.len(),
            p_len <= s_len,
            i <= p_len,
            forall|k: int| 0 <= k < i ==> s@[k] == p@[k],
        decreases p_len - i,
    {
        if s.get_char(i) != p.get_char(i) {
            proof {
                assert(s@.subrange(0, p@.len() as int)[i as int] == s@[i as int]);
            }
            return false;
        }
        i = i + 1;
    }
    proof {
        assert(s@.subrange(0, p@.len() as int) =~= p@);
    }
    true
}

/// Whether `n` occurs in `s` at position `i`.
fn occurs_at_pos(s: &str, n: &str, i: usize) -> (r: bool)
    requires
        i + n@.len() <= s@.len(),
        s@.len() <= usize::MAX,
    ensures
        r == occurs_at(s@, n@, i as int),
{
    let n_len = n.unicode_len();
    let mut k: usize = 0;
    while k < n_len
        invariant
            n_len == n@.len(),
            i + n_len <= s@.len(),
            s@.len() <= usize::MAX,
            k <= n_len,
            forall|m: int| 0 <= m < k ==> s@[i + m] == n@[m],
        decreases n_len - k,
    {
        if s.get_char(i + k) != n.get_char(k) {
            proof {
                assert(s@.subrange(i as int, i + n@.len() as int)[k as int] == s@[i + k]);
            }
            return false;
        }
        k = k + 1;
    }
    proof {
        assert(s@.subrange(i as int, i + n@.len() as int) =~= n@);
    }
    true
}

/// Whether `n` occurs anywhere in `s`.
pub fn contains_str(s: &str, n: &str) -> (r: bool)
    ensures
        r == contains_seq(s@, n@),
{
    let s_len = s.unicode_len();
    let n_len = n.unicode_len();
    if n_len > s_len {
        return false;
    }
    if n_len == 0 {
        proof {
            assert(s@.subrange(0, 0) =~= n@);
            assert(occurs_at(s@, n@, 0));
        }
        return true;
    }
    let mut i: usize = 0;
    while i <= s_len - n_len
        invariant
            s_len == s@.len(),
            n_len == n@.len(),
            0 < n_len <= s_len,
            i <= s_len - n_len + 1,
            forall|j: int| 0 <= j < i ==> !occurs_at(s@, n@, j),
        decreases s_len + 1 - i,
    {
        if occurs_at_pos(s, n, i) {
            return true;
        }
        i = i + 1;
    }
    false
}

/// Join a relative path under a base directory, both given as strings.
pub fn join_path(base: &str, rel: &str) -> (r: String)
    ensures
        r@ == join_path_spec(base@, rel@),
{
    let rel_len = rel.unicode_len();
    let base_len = base.unicode_len();
    if rel_len > 0 && rel.get_char(0) == '/' {
        rel.to_owned()
    } else if base_len == 0 {
        rel.to_owned()
    } else if base.get_char(base_len - 1) == '/' {
        let mut r = base.to_owned();
        r.append(rel);
        r
    } else {
        let mut r = base.to_owned();
        r.append("/");
        r.append(rel);
        proof {
            reveal_strlit("/");
            assert(r@ =~= base@ + seq!['/'] + rel@);
        }
        r
    }
}

/// `s` with every trailing `/` removed.
pub fn trim_slashes(s: &str) -> (r: String)
    ensures
        r@ == trim_trailing_slashes(s@),
{
    let len = s.unicode_len();
    let mut k: usize = len;
    proof {
        assert(s@.subrange(0, len as int) =~= s@);
    }
    while k > 0 && s.get_char(k - 1) == '/'
        invariant
            len == s@.len(),
            k <= len,
            trim_trailing_slashes(s@) == trim_trailing_slashes(s@.subrange(0, k as int)),
        decreases k,
    {
        proof {
            assert(s@.subrange(0, k as int).drop_last() =~= s@.subrange(0, k - 1));
        }
        k = k - 1;
    }
    proof {
        assert(trim_trailing_slashes(s@.subrange(0, k as int)) == s@.subrange(0, k as int));
    }
    let r = s.substring_char(0, k);
    r.to_owned()
}

} // verus!
