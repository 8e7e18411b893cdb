//! The allowlist of host paths that workloads may mount.

use vstd::prelude::*;
use crate::text::{
    chars_of, lemma_seq_lt_irreflexive, lemma_seq_lt_total, lemma_seq_lt_transitive, seq_lt,
    split_char, split_char_ranges, str_lt, str_eq, string_of_range, strs_view, trim, trim_bounds,
};

verus! {

/// `s` without its trailing `/` characters.
pub open spec fn trim_trailing_slashes(s: Seq<char>) -> Seq<char>
    decreases s.len(),
{
    if s.len() > 0 && s.last() == '/' {
        trim_trailing_slashes(s.drop_last())
    } else {
        s
    }
}

/// The path has a `..` component.
pub open spec fn has_parent_dir(p: Seq<char>) -> bool {
    split_char(p, '/').contains(".."@)
}

/// A trimmed entry with its trailing slashes normalised: removed, except
/// that an entry of slashes alone is the root `/`.
pub open spec fn normalized_entry(s: Seq<char>) -> Seq<char> {
    if s.len() > 1 {
        if trim_trailing_slashes(s).len() == 0 {
            seq!['/']
        } else {
            trim_trailing_slashes(s)
        }
    } else {
        s
    }
}

/// A non-empty text whose trailing slashes are all it has starts with `/`.
proof fn lemma_all_slashes_start(s: Seq<char>)
    requires
        s.len() > 0,
        trim_trailing_slashes(s).len() == 0,
    ensures
        s[0] == '/',
    decreases s.len(),
{
    if s.len() > 1 {
        lemma_all_slashes_start(s.drop_last());
    }
}

/// What one comma-separated entry contributes: the trimmed path with its
/// trailing slashes normalised (`/`, and any run of slashes alone, is the
/// root), if it is absolute and free of `..`.
pub open spec fn accepted_entry(raw: Seq<char>) -> Option<Seq<char>> {
    let s = trim(raw);
    if s.len() == 0 {
        None
    } else {
        let n = normalized_entry(s);
        if !(n.len() > 0 && n[0] == '/') || has_parent_dir(n) {
            None
        } else {
            Some(n)
        }
    }
}

/// `n` is what some entry of `value` contributes.
pub open spec fn listed_path(value: Seq<char>, n: Seq<char>) -> bool {
    exists|i: int|
        0 <= i < split_char(value, ',').len() && #[trigger] accepted_entry(split_char(value, ',')[i])
            == Some(n)
}

/// Strictly increasing: sorted, with no duplicates.
pub open spec fn strictly_sorted(v: Seq<Seq<char>>) -> bool {
    forall|i: int, j: int| 0 <= i < j < v.len() ==> seq_lt(#[trigger] v[i], #[trigger] v[j])
}

fn normalize_entry(raw: &Vec<char>, a: usize, b: usize) -> (r: Option<String>)
    requires
        a <= b <= raw@.len(),
    ensures
        match (r, accepted_entry(raw@.subrange(a as int, b as int))) {
            (Some(x), Some(y)) => x@ == y,
            (None, None) => true,
            _ => false,
        },
{
    let piece = string_of_range(raw, a, b);
    let pv = chars_of(piece.as_str());
    let (s0, s1) = trim_bounds(&pv);
    let ghost s = trim(pv@);
    if s1 == s0 {
        return None;
    }
    let mut end = s1;
    if s1 - s0 > 1 {
        assert(pv@.subrange(s0 as int, end as int) == s);
        while end > s0 && pv[end - 1] == '/'
            invariant
                s0 <= end <= s1 <= pv@.len(),
                s == pv@.subrange(s0 as int, s1 as int),
                trim_trailing_slashes(pv@.subrange(s0 as int, end as int)) == trim_trailing_slashes(s),
            decreases end,
        {
            assert(pv@.subrange(s0 as int, end as int).drop_last() =~= pv@.subrange(s0 as int, end - 1));
            end -= 1;
        }
        assert(trim_trailing_slashes(pv@.subrange(s0 as int, end as int)) == pv@.subrange(s0 as int, end as int));
        if end == s0 {
            proof {
                assert(pv@.subrange(s0 as int, end as int) =~= Seq::<char>::empty());
                lemma_all_slashes_start(s);
                assert(pv@[s0 as int] == s[0]);
                assert(pv@.subrange(s0 as int, s0 + 1) =~= seq!['/']);
            }
            end = s0 + 1;
        }
    }
    let ghost n = pv@.subrange(s0 as int, end as int);
    assert(n == normalized_entry(s));
    if end == s0 || pv[s0] != '/' {
        return None;
    }
    let normalized = string_of_range(&pv, s0, end);
    let nv = chars_of(normalized.as_str());
    let comps = split_char_ranges(&nv, '/');
    let mut k: usize = 0;
    assert(accepted_entry(raw@.subrange(a as int, b as int)) == if has_parent_dir(n) {
        None
    } else {
        Some(n)
    });
    while k < comps.len()
        invariant
            accepted_entry(raw@.subrange(a as int, b as int)) == if has_parent_dir(n) {
                None
            } else {
                Some(n)
            },
            nv@ == n,
            Seq::new(comps@.len(), |q: int| nv@.subrange(comps@[q].0 as int, comps@[q].1 as int))
                == split_char(n, '/'),
            forall|q: int| 0 <= q < comps@.len() ==> #[trigger] comps@[q].0 <= comps@[q].1 <= nv@.len(),
            k <= comps@.len(),
            forall|q: int| 0 <= q < k ==> split_char(n, '/')[q] != ".."@,
        decreases comps@.len() - k,
    {
        let c = string_of_range(&nv, comps[k].0, comps[k].1);
        assert(c@ == split_char(n, '/')[k as int]);
        if str_eq(c.as_str(), "..") {
            assert(split_char(n, '/')[k as int] == ".."@);
            assert(has_parent_dir(n));
            return None;
        }
        k += 1;
    }
    Some(normalized)
}

/// Insert `x` into a strictly sorted list, unless it is there.
fn insert_sorted(out: &mut Vec<String>, x: String)
    requires
        strictly_sorted(strs_view(old(out)@)),
    ensures
        strictly_sorted(strs_view(final(out)@)),
        forall|y: Seq<char>|
            strs_view(final(out)@).contains(y) <==> (strs_view(old(out)@).contains(y) || y == x@),
{
    let ghost o = strs_view(out@);
    let mut p: usize = 0;
    while p < out.len() && str_lt(out[p].as_str(), x.as_str())
        invariant
            o == strs_view(out@),
            p <= out@.len(),
            forall|q: int| 0 <= q < p ==> seq_lt(#[trigger] o[q], x@),
        decreases out@.len() - p,
    {
        p += 1;
    }
    if p < out.len() && str_eq(out[p].as_str(), x.as_str()) {
        assert(o[p as int] == x@);
        return;
    }
    proof {
        if p < o.len() {
            lemma_seq_lt_total(o[p as int], x@);
        }
    }
    let ghost xv = x@;
    out.insert(p, x);
    let ghost nv = strs_view(out@);
    assert(nv =~= o.insert(p as int, xv));
    proof {
        assert forall|i: int, j: int| 0 <= i < j < nv.len() implies seq_lt(#[trigger] nv[i], #[trigger] nv[j]) by {
            if j < p {
            } else if j == p {
            } else if i == p {
                // x before the old element at p, which is before the one at j - 1
                if j - 1 > p {
                    lemma_seq_lt_transitive(xv, o[p as int], o[j - 1]);
                }
            } else if i < p {
                lemma_seq_lt_transitive(o[i], xv, o[p as int]);
                if j - 1 > p {
                    lemma_seq_lt_transitive(o[i], o[p as int], o[j - 1]);
                }
            }
        }
        assert forall|y: Seq<char>| nv.contains(y) <==> (o.contains(y) || y == xv) by {
            if nv.contains(y) {
                let i = choose|i: int| 0 <= i < nv.len() && nv[i] == y;
                if i < p {
                    assert(o[i] == y);
                } else if i > p {
                    assert(o[i - 1] == y);
                }
            }
            if o.contains(y) {
                let i = choose|i: int| 0 <= i < o.len() && o[i] == y;
                if i < p {
                    assert(nv[i] == y);
                } else {
                    assert(nv[i + 1] == y);
                }
            }
            if y == xv {
                assert(nv[p as int] == y);
            }
        }
    }
}

/// Parse a comma-separated allowlist of host paths: entries are trimmed,
/// lose their trailing slashes, and are dropped unless absolute and free of
/// `..`; the result is sorted and without duplicates.
pub fn parse_allowed_host_paths_csv(value: &str) -> (r: Vec<String>)
    ensures
        strictly_sorted(strs_view(r@)),
        forall|n: Seq<char>| strs_view(r@).contains(n) <==> listed_path(value@, n),
{
    let v = chars_of(value);
    let ranges = split_char_ranges(&v, ',');
    let ghost pieces = split_char(value@, ',');
    let mut out: Vec<String> = Vec::new();
    let mut i: usize = 0;
    while i < ranges.len()
        invariant
            v@ == value@,
            pieces == split_char(value@, ','),
            Seq::new(ranges@.len(), |q: int| v@.subrange(ranges@[q].0 as int, ranges@[q].1 as int))
                == pieces,
            forall|q: int| 0 <= q < ranges@.len() ==> #[trigger] ranges@[q].0 <= ranges@[q].1 <= v@.len(),
            i <= ranges@.len(),
            strictly_sorted(strs_view(out@)),
            forall|n: Seq<char>|
                strs_view(out@).contains(n) <==> exists|q: int|
                    0 <= q < i && #[trigger] accepted_entry(pieces[q]) == Some(n),
        decreases ranges@.len() - i,
    {
        let (a, b) = ranges[i];
        assert(v@.subrange(a as int, b as int) == pieces[i as int]);
        let ghost before = strs_view(out@);
        match normalize_entry(&v, a, b) {
            Some(x) => {
                let ghost xv = x@;
                insert_sorted(&mut out, x);
                proof {
                    assert forall|n: Seq<char>|
                        strs_view(out@).contains(n) <==> exists|q: int|
                            0 <= q < i + 1 && #[trigger] accepted_entry(pieces[q]) == Some(n) by {
                        if n == xv {
                            assert(accepted_entry(pieces[i as int]) == Some(n));
                        }
                        if exists|q: int| 0 <= q < i + 1 && #[trigger] accepted_entry(pieces[q]) == Some(n) {
                            let q = choose|q: int| 0 <= q < i + 1 && #[trigger] accepted_entry(pieces[q]) == Some(n);
                            if q < i {
                                assert(before.contains(n));
                            }
                        }
                    }
                }
            },
            None => {
                proof {
                    assert forall|n: Seq<char>|
                        strs_view(out@).contains(n) <==> exists|q: int|
                            0 <= q < i + 1 && #[trigger] accepted_entry(pieces[q]) == Some(n) by {
                        if exists|q: int| 0 <= q < i + 1 && #[trigger] accepted_entry(pieces[q]) == Some(n) {
                            let q = choose|q: int| 0 <= q < i + 1 && #[trigger] accepted_entry(pieces[q]) == Some(n);
                            assert(q < i);
                        }
                    }
                }
            },
        }
        i += 1;
    }
    out
}

} // verus!
