//! Host toolchains: reading a runtime's version from its output, comparing
//! versions against constraints, and the cache of runtimes fetched on demand.

use vstd::prelude::*;
use crate::storage::{join_path, path_join};
use crate::strmap::StrMap;
use crate::text::{
    all_ascii_digits, ascii_lower, chars_of, contains_seq, find_first, find_from, is_ws, is_ws_exec,
    lemma_find_first_bounds, matches_at, push_char, split_char, split_char_ranges, starts_with, str_eq,
    string_of_range, strs_contain, to_ascii_lower, trim, trim_str, vec_contains_str,
};

verus! {

// ---------------------------------------------------------------------------
// Numbers and version parts

/// Value of a string of decimal digits.
pub open spec fn dec_value(s: Seq<char>) -> int
    decreases s.len(),
{
    if s.len() == 0 {
        0
    } else {
        dec_value(s.drop_last()) * 10 + (s.last() as int - 48)
    }
}

/// `str::parse::<u32>`: an optional `+`, then at least one ASCII digit, for a
/// value that fits.
pub open spec fn parse_u32(s: Seq<char>) -> Option<u32> {
    let d = if s.len() > 0 && s[0] == '+' {
        s.drop_first()
    } else {
        s
    };
    if d.len() > 0 && all_ascii_digits(d) && dec_value(d) <= u32::MAX {
        Some(dec_value(d) as u32)
    } else {
        None
    }
}

proof fn lemma_dec_value_nonneg(s: Seq<char>)
    requires
        all_ascii_digits(s),
    ensures
        dec_value(s) >= 0,
    decreases s.len(),
{
    if s.len() > 0 {
        lemma_dec_value_nonneg(s.drop_last());
    }
}

proof fn lemma_dec_value_mono(s: Seq<char>, i: int)
    requires
        all_ascii_digits(s),
        0 <= i <= s.len(),
    ensures
        dec_value(s.take(i)) <= dec_value(s),
    decreases s.len() - i,
{
    if i < s.len() {
        lemma_dec_value_mono(s, i + 1);
        assert(s.take(i + 1).drop_last() =~= s.take(i));
        lemma_dec_value_nonneg(s.take(i));
    } else {
        assert(s.take(i) =~= s);
    }
}

pub fn parse_u32_exec(s: &str) -> (r: Option<u32>)
    ensures
        r == parse_u32(s@),
{
    let v = chars_of(s);
    let start: usize = if v.len() > 0 && v[0] == '+' { 1 } else { 0 };
    let ghost d = if s@.len() > 0 && s@[0] == '+' { s@.drop_first() } else { s@ };
    assert(d =~= v@.skip(start as int));
    if start == v.len() {
        return None;
    }
    let mut acc: u64 = 0;
    let mut i: usize = start;
    while i < v.len()
        invariant
            v@ == s@,
            start <= i <= v@.len(),
            d == v@.skip(start as int),
            d == if s@.len() > 0 && s@[0] == '+' { s@.drop_first() } else { s@ },
            all_ascii_digits(v@.subrange(start as int, i as int)),
            acc == dec_value(v@.subrange(start as int, i as int)),
            acc <= u32::MAX,
        decreases v@.len() - i,
    {
        let c = v[i];
        if !('0' <= c && c <= '9') {
            assert(!all_ascii_digits(d)) by {
                assert(d[i - start] == c);
            }
            return None;
        }
        assert(v@.subrange(start as int, i + 1).drop_last() =~= v@.subrange(start as int, i as int));
        let digit: u64 = (c as u64) - 48;
        let next: u64 = acc * 10 + digit;
        if next > 4294967295 {
            proof {
                assert(all_ascii_digits(v@.subrange(start as int, i + 1)));
                if all_ascii_digits(d) {
                    assert(v@.subrange(start as int, i + 1) =~= d.take(i + 1 - start));
                    lemma_dec_value_mono(d, i + 1 - start);
                }
            }
            return None;
        }
        acc = next;
        i += 1;
    }
    assert(v@.subrange(start as int, v@.len() as int) =~= d);
    Some(acc as u32)
}

/// The numeric parts of a version: its `.`-separated pieces that parse as
/// numbers, others left out.
pub open spec fn parts_of(pieces: Seq<Seq<char>>) -> Seq<u32>
    decreases pieces.len(),
{
    if pieces.len() == 0 {
        Seq::empty()
    } else {
        parts_of(pieces.drop_last()) + match parse_u32(pieces.last()) {
            Some(n) => seq![n],
            None => Seq::empty(),
        }
    }
}

pub open spec fn version_parts(v: Seq<char>) -> Seq<u32> {
    parts_of(split_char(v, '.'))
}

pub fn parse_version_parts(version: &str) -> (r: Vec<u32>)
    ensures
        r@ == version_parts(version@),
{
    let v = chars_of(version);
    let ranges = split_char_ranges(&v, '.');
    let ghost pieces = split_char(version@, '.');
    let mut out: Vec<u32> = Vec::new();
    let mut i: usize = 0;
    while i < ranges.len()
        invariant
            v@ == version@,
            pieces == split_char(version@, '.'),
            Seq::new(ranges@.len(), |q: int| v@.subrange(ranges@[q].0 as int, ranges@[q].1 as int))
                == pieces,
            forall|q: int| 0 <= q < ranges@.len() ==> #[trigger] ranges@[q].0 <= ranges@[q].1 <= v@.len(),
            i <= ranges@.len(),
            out@ == parts_of(pieces.take(i as int)),
        decreases ranges@.len() - i,
    {
        let piece = string_of_range(&v, ranges[i].0, ranges[i].1);
        assert(piece@ == pieces[i as int]);
        assert(pieces.take(i + 1).drop_last() =~= pieces.take(i as int));
        match parse_u32_exec(piece.as_str()) {
            Some(n) => {
                out.push(n);
            },
            None => {},
        }
        assert(out@ =~= parts_of(pieces.take(i + 1)));
        i += 1;
    }
    assert(pieces.take(pieces.len() as int) =~= pieces);
    out
}

// ---------------------------------------------------------------------------
// Ordering of versions

/// `a >= b`, comparing parts pairwise and, when one runs out, by length.
pub open spec fn parts_gte(a: Seq<u32>, b: Seq<u32>) -> bool
    decreases a.len(),
{
    if a.len() == 0 || b.len() == 0 {
        a.len() >= b.len()
    } else if a[0] > b[0] {
        true
    } else if a[0] < b[0] {
        false
    } else {
        parts_gte(a.drop_first(), b.drop_first())
    }
}

/// `a > b` in the same order.
pub open spec fn parts_gt(a: Seq<u32>, b: Seq<u32>) -> bool
    decreases a.len(),
{
    if a.len() == 0 || b.len() == 0 {
        a.len() > b.len()
    } else if a[0] > b[0] {
        true
    } else if a[0] < b[0] {
        false
    } else {
        parts_gt(a.drop_first(), b.drop_first())
    }
}

/// Versions are ordered by their first differing part, however long the
/// common prefix: where `a` and `b` agree on `s` and then `a` has the smaller
/// part, `a` is below `b`, whatever follows in either.
pub proof fn lemma_first_difference_decides(s: Seq<u32>, x: u32, y: u32, t: Seq<u32>, u: Seq<u32>)
    requires
        x < y,
    ensures
        !parts_gte(s.push(x) + t, s.push(y) + u),
        !parts_gt(s.push(x) + t, s.push(y) + u),
        parts_gte(s.push(y) + u, s.push(x) + t),
        parts_gt(s.push(y) + u, s.push(x) + t),
    decreases s.len(),
{
    let a = s.push(x) + t;
    let b = s.push(y) + u;
    if s.len() == 0 {
        assert(a[0] == x);
        assert(b[0] == y);
    } else {
        lemma_first_difference_decides(s.drop_first(), x, y, t, u);
        assert(a[0] == s[0]);
        assert(b[0] == s[0]);
        assert(a.drop_first() =~= s.drop_first().push(x) + t);
        assert(b.drop_first() =~= s.drop_first().push(y) + u);
    }
}

/// Every version is at least itself.
pub proof fn lemma_parts_gte_reflexive(a: Seq<u32>)
    ensures
        parts_gte(a, a),
        !parts_gt(a, a),
    decreases a.len(),
{
    if a.len() > 0 {
        lemma_parts_gte_reflexive(a.drop_first());
    }
}

/// `a > b` exactly when `b >= a` fails: the two orders are converse.
pub proof fn lemma_parts_gt_converse(a: Seq<u32>, b: Seq<u32>)
    ensures
        parts_gt(a, b) == !parts_gte(b, a),
    decreases a.len(),
{
    if a.len() > 0 && b.len() > 0 && a[0] == b[0] {
        lemma_parts_gt_converse(a.drop_first(), b.drop_first());
    }
}

/// Greater implies at least.
pub proof fn lemma_parts_gt_implies_gte(a: Seq<u32>, b: Seq<u32>)
    ensures
        parts_gt(a, b) ==> parts_gte(a, b),
    decreases a.len(),
{
    if a.len() > 0 && b.len() > 0 && a[0] == b[0] {
        lemma_parts_gt_implies_gte(a.drop_first(), b.drop_first());
    }
}

/// Any two versions are ordered one way or the other.
pub proof fn lemma_parts_gte_total(a: Seq<u32>, b: Seq<u32>)
    ensures
        parts_gte(a, b) || parts_gte(b, a),
    decreases a.len(),
{
    if a.len() > 0 && b.len() > 0 && a[0] == b[0] {
        lemma_parts_gte_total(a.drop_first(), b.drop_first());
    }
}

fn compare_parts(a: &Vec<u32>, b: &Vec<u32>, strict: bool) -> (r: bool)
    ensures
        r == if strict {
            parts_gt(a@, b@)
        } else {
            parts_gte(a@, b@)
        },
{
    let mut i: usize = 0;
    assert(a@.skip(0) =~= a@);
    assert(b@.skip(0) =~= b@);
    while i < a.len() && i < b.len()
        invariant
            i <= a@.len(),
            i <= b@.len(),
            parts_gte(a@, b@) == parts_gte(a@.skip(i as int), b@.skip(i as int)),
            parts_gt(a@, b@) == parts_gt(a@.skip(i as int), b@.skip(i as int)),
        decreases a@.len() - i,
    {
        assert(a@.skip(i as int)[0] == a@[i as int]);
        assert(b@.skip(i as int)[0] == b@[i as int]);
        if a[i] > b[i] {
            return true;
        }
        if a[i] < b[i] {
            return false;
        }
        assert(a@.skip(i as int).drop_first() =~= a@.skip(i + 1));
        assert(b@.skip(i as int).drop_first() =~= b@.skip(i + 1));
        i += 1;
    }
    if strict {
        a.len() > b.len()
    } else {
        a.len() >= b.len()
    }
}

/// `version >= required`, by numeric parts.
pub fn version_gte(version: &str, required: &str) -> (b: bool)
    ensures
        b == parts_gte(version_parts(version@), version_parts(required@)),
{
    let v = parse_version_parts(version);
    let r = parse_version_parts(required);
    compare_parts(&v, &r, false)
}

/// `version > required`, by numeric parts.
pub fn version_gt(version: &str, required: &str) -> (b: bool)
    ensures
        b == parts_gt(version_parts(version@), version_parts(required@)),
{
    let v = parse_version_parts(version);
    let r = parse_version_parts(required);
    compare_parts(&v, &r, true)
}

/// `version <= required`: not greater.
pub fn version_lte(version: &str, required: &str) -> (b: bool)
    ensures
        b == !parts_gt(version_parts(version@), version_parts(required@)),
{
    !version_gt(version, required)
}

/// `version < required`: not at least.
pub fn version_lt(version: &str, required: &str) -> (b: bool)
    ensures
        b == !parts_gte(version_parts(version@), version_parts(required@)),
{
    !version_gte(version, required)
}

/// Same major version and at least the required one.
pub open spec fn compatible(version: Seq<char>, required: Seq<char>) -> bool {
    let v = version_parts(version);
    let r = version_parts(required);
    v.len() > 0 && r.len() > 0 && v[0] == r[0] && parts_gte(v, r)
}

pub fn version_compatible(version: &str, required: &str) -> (b: bool)
    ensures
        b == compatible(version@, required@),
{
    let v = parse_version_parts(version);
    let r = parse_version_parts(required);
    if v.len() == 0 || r.len() == 0 {
        return false;
    }
    if v[0] != r[0] {
        return false;
    }
    compare_parts(&v, &r, false)
}

/// `s` with every leading copy of `p` removed (`str::trim_start_matches`).
pub open spec fn strip_all(s: Seq<char>, p: Seq<char>) -> Seq<char>
    decreases s.len(),
{
    if p.len() > 0 && starts_with(s, p) {
        strip_all(s.skip(p.len() as int), p)
    } else {
        s
    }
}

fn strip_all_exec(s: &str, p: &str) -> (r: String)
    requires
        p@.len() > 0,
    ensures
        r@ == strip_all(s@, p@),
{
    let v = chars_of(s);
    let pv = chars_of(p);
    let mut i: usize = 0;
    assert(v@.skip(0) =~= v@);
    while i <= v.len() && matches_at(&v, i, &pv)
        invariant
            v@ == s@,
            pv@ == p@,
            p@.len() > 0,
            i <= v@.len(),
            strip_all(s@, p@) == strip_all(v@.skip(i as int), p@),
        decreases v@.len() - i,
    {
        assert(v@.skip(i as int).skip(pv@.len() as int) =~= v@.skip(i + pv@.len()));
        i = i + pv.len();
    }
    let r = string_of_range(&v, i, v.len());
    assert(r@ =~= v@.skip(i as int));
    r
}

/// Whether `version` meets `constraint`: `^x` same major and at least `x`;
/// `>=x`, `>x`, `<=x`, `<x` by numeric parts; anything else a prefix of the
/// version. No constraint accepts any version.
pub open spec fn matches_constraint(version: Seq<char>, constraint: Option<Seq<char>>) -> bool {
    match constraint {
        None => true,
        Some(c0) => {
            let c = trim(c0);
            let v = version_parts(version);
            if starts_with(c, "^"@) {
                compatible(version, strip_all(c, "^"@))
            } else if starts_with(c, ">="@) {
                parts_gte(v, version_parts(strip_all(c, ">="@)))
            } else if starts_with(c, ">"@) {
                parts_gt(v, version_parts(strip_all(c, ">"@)))
            } else if starts_with(c, "<="@) {
                !parts_gt(v, version_parts(strip_all(c, "<="@)))
            } else if starts_with(c, "<"@) {
                !parts_gte(v, version_parts(strip_all(c, "<"@)))
            } else {
                starts_with(version, c) || version == c
            }
        },
    }
}

fn starts_with_str(s: &str, p: &str) -> (b: bool)
    ensures
        b == starts_with(s@, p@),
{
    let v = chars_of(s);
    let pv = chars_of(p);
    assert(v@.skip(0) =~= v@);
    matches_at(&v, 0, &pv)
}

pub fn version_matches(version: &str, constraint: Option<&str>) -> (b: bool)
    ensures
        b == matches_constraint(version@, match constraint {
            Some(c) => Some(c@),
            None => None,
        }),
{
    let c0 = match constraint {
        Some(c) => c,
        None => {
            return true;
        },
    };
    proof {
        reveal_strlit("^");
        reveal_strlit(">=");
        reveal_strlit(">");
        reveal_strlit("<=");
        reveal_strlit("<");
    }
    let ct = trim_str(c0);
    let c = ct.as_str();
    if starts_with_str(c, "^") {
        let req = strip_all_exec(c, "^");
        version_compatible(version, req.as_str())
    } else if starts_with_str(c, ">=") {
        let req = strip_all_exec(c, ">=");
        version_gte(version, req.as_str())
    } else if starts_with_str(c, ">") {
        let req = strip_all_exec(c, ">");
        version_gt(version, req.as_str())
    } else if starts_with_str(c, "<=") {
        let req = strip_all_exec(c, "<=");
        version_lte(version, req.as_str())
    } else if starts_with_str(c, "<") {
        let req = strip_all_exec(c, "<");
        version_lt(version, req.as_str())
    } else {
        starts_with_str(version, c) || str_eq(version, c)
    }
}


// ---------------------------------------------------------------------------
// Versions printed by runtimes

/// `s` without the prefix `p`, if it has it.
pub open spec fn strip_prefix(s: Seq<char>, p: Seq<char>) -> Option<Seq<char>> {
    if starts_with(s, p) {
        Some(s.skip(p.len() as int))
    } else {
        None
    }
}

/// Number of leading whitespace characters.
pub open spec fn leading_ws(s: Seq<char>) -> nat
    decreases s.len(),
{
    if s.len() > 0 && is_ws(s[0]) {
        1 + leading_ws(s.drop_first())
    } else {
        0
    }
}

/// Length of the leading run of non-whitespace characters.
pub open spec fn word_len(s: Seq<char>) -> nat
    decreases s.len(),
{
    if s.len() > 0 && !is_ws(s[0]) {
        1 + word_len(s.drop_first())
    } else {
        0
    }
}

/// `s.split_whitespace().next()`: the first word, if any.
pub open spec fn first_word(s: Seq<char>) -> Option<Seq<char>> {
    let t = s.skip(leading_ws(s) as int);
    if t.len() == 0 {
        None
    } else {
        Some(t.take(word_len(t) as int))
    }
}

/// `s.split(p).nth(1)`: the text between the first and the second `p`.
pub open spec fn second_piece(s: Seq<char>, p: Seq<char>) -> Option<Seq<char>> {
    match find_first(s, p) {
        Some(i) => {
            let after = s.skip(i + p.len());
            match find_first(after, p) {
                Some(j) => Some(after.take(j)),
                None => Some(after),
            }
        },
        None => None,
    }
}

/// The version a runtime prints with `--version`, by language:
/// `Python 3.11.4`, `v18.17.0`, `deno 1.36.0`, `ruby 3.2.0 ...`, and perl's
/// `This is perl 5, version 36, ...` or `perl, v5.36.0 ...`; other languages
/// print the bare version.
pub open spec fn version_from_output(language: Seq<char>, output: Seq<char>) -> Option<Seq<char>> {
    let t = trim(output);
    let l = ascii_lower(language);
    if l == "python"@ {
        match strip_prefix(t, "Python "@) {
            Some(x) => Some(trim(x)),
            None => None,
        }
    } else if l == "node"@ || l == "nodejs"@ {
        match strip_prefix(t, "v"@) {
            Some(x) => Some(trim(x)),
            None => None,
        }
    } else if l == "deno"@ {
        match strip_prefix(t, "deno "@) {
            Some(x) => Some(trim(x)),
            None => None,
        }
    } else if l == "ruby"@ {
        match strip_prefix(t, "ruby "@) {
            Some(x) => first_word(x),
            None => None,
        }
    } else if l == "perl"@ {
        if contains_seq(t, "version"@) {
            match second_piece(t, "version"@) {
                Some(x) => Some("5."@ + trim(split_char(x, ',')[0])),
                None => None,
            }
        } else {
            match second_piece(t, "v"@) {
                Some(x) => first_word(x),
                None => None,
            }
        }
    } else {
        Some(t)
    }
}

fn strip_prefix_exec(s: &str, p: &str) -> (r: Option<String>)
    ensures
        match (r, strip_prefix(s@, p@)) {
            (Some(a), Some(b)) => a@ == b,
            (None, None) => true,
            _ => false,
        },
{
    let v = chars_of(s);
    let pv = chars_of(p);
    assert(v@.skip(0) =~= v@);
    if matches_at(&v, 0, &pv) {
        let r = string_of_range(&v, pv.len(), v.len());
        assert(r@ =~= v@.skip(pv@.len() as int));
        Some(r)
    } else {
        None
    }
}

fn first_word_exec(s: &str) -> (r: Option<String>)
    ensures
        match (r, first_word(s@)) {
            (Some(a), Some(b)) => a@ == b,
            (None, None) => true,
            _ => false,
        },
{
    let v = chars_of(s);
    let n = v.len();
    let mut i: usize = 0;
    assert(v@.skip(0) =~= v@);
    while i < n && is_ws_exec(v[i])
        invariant
            v@ == s@,
            n == v@.len(),
            i <= n,
            i + leading_ws(v@.skip(i as int)) == leading_ws(s@),
        decreases n - i,
    {
        assert(v@.skip(i as int).drop_first() =~= v@.skip(i + 1));
        i += 1;
    }
    assert(leading_ws(v@.skip(i as int)) == 0);
    let ghost t = v@.skip(i as int);
    if i == n {
        return None;
    }
    let mut j: usize = i;
    assert(t.skip(0) =~= t);
    while j < n && !is_ws_exec(v[j])
        invariant
            v@ == s@,
            n == v@.len(),
            t == v@.skip(i as int),
            i <= j <= n,
            (j - i) + word_len(v@.skip(j as int)) == word_len(t),
        decreases n - j,
    {
        assert(v@.skip(j as int).drop_first() =~= v@.skip(j + 1));
        j += 1;
    }
    assert(word_len(v@.skip(j as int)) == 0);
    let r = string_of_range(&v, i, j);
    assert(r@ =~= t.take(word_len(t) as int));
    Some(r)
}

fn second_piece_exec(s: &str, p: &str) -> (r: Option<String>)
    requires
        p@.len() > 0,
    ensures
        match (r, second_piece(s@, p@)) {
            (Some(a), Some(b)) => a@ == b,
            (None, None) => true,
            _ => false,
        },
{
    let v = chars_of(s);
    let pv = chars_of(p);
    let n = v.len();
    assert(v@.skip(0) =~= v@);
    match find_from(&v, &pv, 0) {
        None => None,
        Some(i) => {
            proof {
                lemma_find_first_bounds(v@, p@);
                assert(find_first(v@, p@) == Some(i as int));
            }
            let a = i + pv.len();
            let ghost after = v@.skip(a as int);
            match find_from(&v, &pv, a) {
                Some(j) => {
                    proof {
                        lemma_find_first_bounds(after, p@);
                    }
                    let r = string_of_range(&v, a, j);
                    assert(r@ =~= after.take(j - a));
                    Some(r)
                },
                None => {
                    let r = string_of_range(&v, a, n);
                    assert(r@ =~= after);
                    Some(r)
                },
            }
        },
    }
}

fn first_comma_piece(s: &str) -> (r: String)
    ensures
        r@ == split_char(s@, ',')[0],
{
    let v = chars_of(s);
    let ranges = split_char_ranges(&v, ',');
    string_of_range(&v, ranges[0].0, ranges[0].1)
}

fn trimmed(s: Option<String>) -> (r: Option<String>)
    ensures
        match (r, s) {
            (Some(a), Some(b)) => a@ == trim(b@),
            (None, None) => true,
            _ => false,
        },
{
    match s {
        Some(x) => Some(trim_str(x.as_str())),
        None => None,
    }
}

/// Read the version from a runtime's `--version` output.
pub fn parse_version(language: &str, output: &str) -> (r: Option<String>)
    ensures
        match (r, version_from_output(language@, output@)) {
            (Some(a), Some(b)) => a@ == b,
            (None, None) => true,
            _ => false,
        },
{
    let t = trim_str(output);
    let ts = t.as_str();
    let lower = to_ascii_lower(language);
    let l = lower.as_str();
    if str_eq(l, "python") {
        trimmed(strip_prefix_exec(ts, "Python "))
    } else if str_eq(l, "node") || str_eq(l, "nodejs") {
        trimmed(strip_prefix_exec(ts, "v"))
    } else if str_eq(l, "deno") {
        trimmed(strip_prefix_exec(ts, "deno "))
    } else if str_eq(l, "ruby") {
        match strip_prefix_exec(ts, "ruby ") {
            Some(x) => first_word_exec(x.as_str()),
            None => None,
        }
    } else if str_eq(l, "perl") {
        proof {
            reveal_strlit("version");
            reveal_strlit("v");
        }
        let tv = chars_of(ts);
        let ver = chars_of("version");
        assert(tv@.skip(0) =~= tv@);
        if find_from(&tv, &ver, 0).is_some() {
            match second_piece_exec(ts, "version") {
                Some(x) => {
                    let c = first_comma_piece(x.as_str());
                    let ct = trim_str(c.as_str());
                    let mut r = String::from_str("5.");
                    r.append(ct.as_str());
                    Some(r)
                },
                None => None,
            }
        } else {
            match second_piece_exec(ts, "v") {
                Some(x) => first_word_exec(x.as_str()),
                None => None,
            }
        }
    } else {
        Some(t)
    }
}

// ---------------------------------------------------------------------------
// Toolchains on the host

/// A toolchain found on the host.
#[derive(Debug)]
pub struct ToolchainInfo {
    pub language: String,
    pub version: String,
    pub path: String,
}

/// What a look-up in the toolchain cache finds.
#[derive(Debug)]
pub enum ToolchainLookup {
    /// A cached toolchain that meets the constraint.
    Found(ToolchainInfo),
    /// The language is cached as missing.
    Missing,
    /// The cache cannot answer: the host must be searched.
    Detect,
}

/// Remembers what was found on the host, per language.
#[derive(Debug)]
pub struct ToolchainManager {
    pub cache: StrMap<Option<ToolchainInfo>>,
}

/// Binaries that provide a language, and the version flag; unknown languages
/// have none.
pub open spec fn language_binaries(language: Seq<char>) -> Seq<Seq<char>> {
    let l = ascii_lower(language);
    if l == "python"@ {
        seq!["python3"@, "python"@]
    } else if l == "node"@ || l == "nodejs"@ {
        seq!["node"@]
    } else if l == "deno"@ {
        seq!["deno"@]
    } else if l == "bun"@ {
        seq!["bun"@]
    } else if l == "ruby"@ {
        seq!["ruby"@]
    } else if l == "perl"@ {
        seq!["perl"@]
    } else {
        Seq::empty()
    }
}

fn copy_info(i: &ToolchainInfo) -> (r: ToolchainInfo)
    ensures
        r.language@ == i.language@,
        r.version@ == i.version@,
        r.path@ == i.path@,
{
    ToolchainInfo { language: i.language.clone(), version: i.version.clone(), path: i.path.clone() }
}

/// What a search of the host finds, from the `i`-th binary on: the path and
/// version of the first binary that was found, ran, and printed a version
/// the language's format gives. `probes[i]` is what running
/// `language_binaries(language)[i]` gave: its path and output, or nothing
/// when it was not found or failed.
pub open spec fn detected_from(
    language: Seq<char>,
    probes: Seq<Option<(String, String)>>,
    i: int,
) -> Option<(Seq<char>, Seq<char>)>
    decreases probes.len() - i,
{
    if i < 0 || i >= language_binaries(language).len() || i >= probes.len() {
        None
    } else {
        match probes[i] {
            Some(p) => match version_from_output(language, p.1@) {
                Some(v) => Some((p.0@, v)),
                None => detected_from(language, probes, i + 1),
            },
            None => detected_from(language, probes, i + 1),
        }
    }
}

/// The toolchain a search of the host found, given what running each of the
/// language's binaries gave (see `detected_from`). An unknown language has
/// no binaries and so no toolchain.
pub fn detect_from_probes(language: &str, probes: &Vec<Option<(String, String)>>) -> (r: Option<ToolchainInfo>)
    ensures
        match (r, detected_from(language@, probes@, 0)) {
            (Some(info), Some(d)) => info.language@ == language@ && info.path@ == d.0 && info.version@ == d.1,
            (None, None) => true,
            _ => false,
        },
        language_binaries(language@).len() == 0 ==> r is None,
{
    let bins = ToolchainManager::binaries_for(language);
    let n = if bins.len() < probes.len() { bins.len() } else { probes.len() };
    let mut i: usize = 0;
    while i < n
        invariant
            n <= probes@.len(),
            n <= language_binaries(language@).len(),
            bins@.len() == language_binaries(language@).len(),
            n == bins@.len() || n == probes@.len(),
            i <= n,
            detected_from(language@, probes@, 0) == detected_from(language@, probes@, i as int),
        decreases n - i,
    {
        match &probes[i] {
            Some(p) => {
                match parse_version(language, p.1.as_str()) {
                    Some(v) => {
                        return Some(ToolchainInfo { language: language.to_owned(), version: v, path: p.0.clone() });
                    },
                    None => {},
                }
            },
            None => {},
        }
        i += 1;
    }
    None
}

impl ToolchainManager {
    pub fn new() -> (m: Self)
        ensures
            m.cache.view_map() == Map::<Seq<char>, Option<ToolchainInfo>>::empty(),
    {
        ToolchainManager { cache: StrMap::new() }
    }

    /// Binaries to search for a language.
    pub fn binaries_for(language: &str) -> (r: Vec<&'static str>)
        ensures
            r@.len() == language_binaries(language@).len(),
            forall|i: int| 0 <= i < r@.len() ==> #[trigger] r@[i]@ == language_binaries(language@)[i],
    {
        let lower = to_ascii_lower(language);
        let l = lower.as_str();
        if str_eq(l, "python") {
            vec!["python3", "python"]
        } else if str_eq(l, "node") || str_eq(l, "nodejs") {
            vec!["node"]
        } else if str_eq(l, "deno") {
            vec!["deno"]
        } else if str_eq(l, "bun") {
            vec!["bun"]
        } else if str_eq(l, "ruby") {
            vec!["ruby"]
        } else if str_eq(l, "perl") {
            vec!["perl"]
        } else {
            Vec::new()
        }
    }

    /// Look a language up in the cache: a cached toolchain that meets the
    /// constraint is found; a language cached as missing stays missing; an
    /// unknown language, or a cached toolchain that misses the constraint,
    /// must be searched for.
    pub fn find_toolchain(&self, language: &str, version_constraint: Option<&str>) -> (r: ToolchainLookup)
        ensures
            !self.cache.view_map().dom().contains(language@) ==> r is Detect,
            self.cache.view_map().dom().contains(language@) ==> match self.cache.view_map()[language@] {
                None => r is Missing,
                Some(info) => if matches_constraint(info.version@, match version_constraint {
                    Some(c) => Some(c@),
                    None => None,
                }) {
                    r matches ToolchainLookup::Found(f) && f.language@ == info.language@
                        && f.version@ == info.version@ && f.path@ == info.path@
                } else {
                    r is Detect
                },
            },
    {
        match self.cache.get(language) {
            None => ToolchainLookup::Detect,
            Some(None) => ToolchainLookup::Missing,
            Some(Some(info)) => {
                if version_matches(info.version.as_str(), version_constraint) {
                    ToolchainLookup::Found(copy_info(info))
                } else {
                    ToolchainLookup::Detect
                }
            },
        }
    }

    /// Record what a search of the host found for a language, and answer the
    /// look-up: the toolchain if it meets the constraint.
    pub fn record_detection(
        &mut self,
        language: &str,
        detected: Option<ToolchainInfo>,
        version_constraint: Option<&str>,
    ) -> (r: Option<ToolchainInfo>)
        ensures
            final(self).cache.view_map().dom() == old(self).cache.view_map().dom().insert(language@),
            match (final(self).cache.view_map()[language@], detected) {
                (None, None) => true,
                (Some(a), Some(b)) => a.language@ == b.language@ && a.version@ == b.version@
                    && a.path@ == b.path@,
                _ => false,
            },
            match detected {
                None => r is None,
                Some(info) => if matches_constraint(info.version@, match version_constraint {
                    Some(c) => Some(c@),
                    None => None,
                }) {
                    r matches Some(f) && f.language@ == info.language@ && f.version@ == info.version@
                        && f.path@ == info.path@
                } else {
                    r is None
                },
            },
    {
        let answer = match &detected {
            Some(info) => {
                if version_matches(info.version.as_str(), version_constraint) {
                    Some(copy_info(info))
                } else {
                    None
                }
            },
            None => None,
        };
        self.cache.insert(language.to_owned(), detected);
        answer
    }
}

// ---------------------------------------------------------------------------
// Runtimes fetched on demand

/// The cache of runtimes downloaded on demand.
#[derive(Debug)]
pub struct RuntimeFetcher {
    cache_dir: String,
}

/// The fetcher responsible for a language.
pub open spec fn fetcher_key(language: Seq<char>) -> Option<Seq<char>> {
    let l = ascii_lower(language);
    if l == "python"@ {
        Some("python"@)
    } else if l == "node"@ || l == "nodejs"@ {
        Some("node"@)
    } else if l == "deno"@ {
        Some("deno"@)
    } else if l == "bun"@ {
        Some("bun"@)
    } else {
        None
    }
}

/// A character kept in a lock file name; others become `_`.
pub open spec fn lock_char(c: char) -> char {
    if ('a' <= c && c <= 'z') || ('A' <= c && c <= 'Z') || ('0' <= c && c <= '9') || c == '.'
        || c == '-' || c == '_' {
        c
    } else {
        '_'
    }
}

pub open spec fn lock_component(s: Seq<char>) -> Seq<char> {
    Seq::new(s.len(), |i: int| lock_char(s[i]))
}

impl RuntimeFetcher {
    pub closed spec fn dir(&self) -> Seq<char> {
        self.cache_dir@
    }

    /// A fetcher over the given cache directory (creating it is left to the
    /// caller).
    pub fn with_cache_dir(cache_dir: String) -> (f: Self)
        ensures
            f.dir() == cache_dir@,
    {
        RuntimeFetcher { cache_dir }
    }

    pub fn cache_dir(&self) -> (r: &String)
        ensures
            r@ == self.dir(),
    {
        &self.cache_dir
    }

    pub fn canonical_fetcher_key(language: &str) -> (r: Option<&'static str>)
        ensures
            match (r, fetcher_key(language@)) {
                (Some(a), Some(b)) => a@ == b,
                (None, None) => true,
                _ => false,
            },
    {
        let lower = to_ascii_lower(language);
        let l = lower.as_str();
        if str_eq(l, "python") {
            Some("python")
        } else if str_eq(l, "node") || str_eq(l, "nodejs") {
            Some("node")
        } else if str_eq(l, "deno") {
            Some("deno")
        } else if str_eq(l, "bun") {
            Some("bun")
        } else {
            None
        }
    }

    pub fn sanitize_lock_component(s: &str) -> (r: String)
        ensures
            r@ == lock_component(s@),
    {
        let v = chars_of(s);
        let mut out = String::new();
        let mut i: usize = 0;
        while i < v.len()
            invariant
                v@ == s@,
                i <= v@.len(),
                out@ == lock_component(v@.take(i as int)),
            decreases v@.len() - i,
        {
            let c = v[i];
            let d = if ('a' <= c && c <= 'z') || ('A' <= c && c <= 'Z') || ('0' <= c && c <= '9')
                || c == '.' || c == '-' || c == '_' {
                c
            } else {
                '_'
            };
            crate::text::push_char(&mut out, d);
            i += 1;
            assert(out@ =~= lock_component(v@.take(i as int)));
        }
        assert(v@.take(v@.len() as int) =~= v@);
        out
    }

    /// `<cache>/.locks/<language>-<version>.lock`, the version sanitized.
    pub fn lock_path(&self, language: &str, version: &str) -> (r: String)
        ensures
            r@ == path_join(
                path_join(self.dir(), ".locks"@),
                language@ + "-"@ + lock_component(version@) + ".lock"@,
            ),
    {
        let dir = join_path(self.cache_dir.as_str(), ".locks");
        let v = RuntimeFetcher::sanitize_lock_component(version);
        let mut name = language.to_owned();
        name.append("-");
        name.append(v.as_str());
        name.append(".lock");
        join_path(dir.as_str(), name.as_str())
    }

    /// `<cache>/<language>-<version>`.
    pub fn get_runtime_path(&self, language: &str, version: &str) -> (r: String)
        ensures
            r@ == path_join(self.dir(), language@ + "-"@ + version@),
    {
        let mut name = language.to_owned();
        name.append("-");
        name.append(version);
        join_path(self.cache_dir.as_str(), name.as_str())
    }
}

impl RuntimeFetcher {
    /// Whether a runtime is cached: whether its directory (`get_runtime_path`)
    /// is among `existing_dirs`, the directories found on disk.
    pub fn is_cached(&self, language: &str, version: &str, existing_dirs: &Vec<String>) -> (r: bool)
        ensures
            r == strs_contain(existing_dirs@, path_join(self.dir(), language@ + "-"@ + version@)),
    {
        let p = self.get_runtime_path(language, version);
        vec_contains_str(existing_dirs, p.as_str())
    }
}

} // verus!
