//! Character-level helpers on strings, with their specifications.

use vstd::prelude::*;

verus! {

/// ASCII lowercase of one character (other characters are unchanged).
pub open spec fn ascii_lower_char(c: char) -> char {
    if 'A' <= c && c <= 'Z' {
        ((c as u32) + 32) as char
    } else {
        c
    }
}

pub fn to_ascii_lower_char(c: char) -> (r: char)
    ensures
        r == ascii_lower_char(c),
{
    if 'A' <= c && c <= 'Z' {
        let v: u8 = (c as u8) + 32;
        v as char
    } else {
        c
    }
}

} // verus!
verus! {

pub fn chars_of(s: &str) -> (v: Vec<char>)
    ensures
        v@ == s@,
{
    let mut v: Vec<char> = Vec::new();
    for c in it: s.chars()
        invariant
            v@ == it.seq().take(it.index() as int),
    {
        v.push(c);
    }
    v
}

} // verus!
verus! {

/// `String::push`: appends one character to the string.
#[verifier::external_body]
pub(crate) fn push_char(s: &mut String, c: char)
    ensures
        final(s)@ == old(s)@.push(c),
{
    s.push(c);
}

pub fn string_of(v: &Vec<char>) -> (s: String)
    ensures
        s@ == v@,
{
    let mut s = String::new();
    let mut i: usize = 0;
    while i < v.len()
        invariant
            i <= v.len(),
            s@ == v@.take(i as int),
        decreases v.len() - i,
    {
        push_char(&mut s, v[i]);
        i += 1;
        assert(s@ =~= v@.take(i as int));
    }
    assert(v@.take(v.len() as int) =~= v@);
    s
}

pub fn str_to_string(s: &str) -> (r: String)
    ensures
        r@ == s@,
{
    s.to_owned()
}

} // verus!
verus! {

/// Two strings are equal when they hold the same characters.
pub(crate) fn str_eq(a: &str, b: &str) -> (r: bool)
    ensures
        r == (a@ == b@),
{
    let va = chars_of(a);
    let vb = chars_of(b);
    if va.len() != vb.len() {
        return false;
    }
    let mut i: usize = 0;
    while i < va.len()
        invariant
            va@ == a@,
            vb@ == b@,
            va@.len() == vb@.len(),
            i <= va@.len(),
            forall|k: int| 0 <= k < i ==> va@[k] == vb@[k],
        decreases va@.len() - i,
    {
        if va[i] != vb[i] {
            return false;
        }
        i += 1;
    }
    assert(va@ =~= vb@);
    true
}

} // verus!
verus! {

/// Character views of a list of strings.
pub open spec fn strs_view(v: Seq<String>) -> Seq<Seq<char>> {
    Seq::new(v.len(), |i: int| v[i]@)
}

/// `a` comes strictly before `b` in lexicographic order of characters.
pub open spec fn seq_lt(a: Seq<char>, b: Seq<char>) -> bool {
    exists|i: int|
        0 <= i <= a.len() && i <= b.len() && a.take(i) == b.take(i) && (
        (i == a.len() && i < b.len()) || (i < a.len() && i < b.len() && (a[i] as int) < (b[i]
            as int)))
}

pub fn str_lt(a: &str, b: &str) -> (r: bool)
    ensures
        r == seq_lt(a@, b@),
{
    let av = chars_of(a);
    let bv = chars_of(b);
    let mut i: usize = 0;
    while i < av.len() && i < bv.len()
        invariant
            i <= av@.len(),
            i <= bv@.len(),
            av@ == a@,
            bv@ == b@,
            av@.take(i as int) == bv@.take(i as int),
        decreases av@.len() - i,
    {
        if av[i] != bv[i] {
            let r = av[i] < bv[i];
            proof {
                if !r {
                    assert forall|j: int|
                        0 <= j <= a@.len() && j <= b@.len() && a@.take(j) == b@.take(j) implies !(
                        (j == a@.len() && j < b@.len()) || (j < a@.len() && j < b@.len() && (
                        a@[j] as int) < (b@[j] as int))) by {
                        if j > i {
                            assert(a@.take(j)[i as int] == a@[i as int]);
                            assert(b@.take(j)[i as int] == b@[i as int]);
                        } else if j < i {
                            assert(a@.take(i as int)[j] == a@[j]);
                            assert(b@.take(i as int)[j] == b@[j]);
                        }
                    }
                }
            }
            return r;
        }
        assert(av@.take(i + 1) =~= av@.take(i as int).push(av@[i as int]));
        assert(bv@.take(i + 1) =~= bv@.take(i as int).push(bv@[i as int]));
        i += 1;
    }
    let r = i == av.len() && i < bv.len();
    proof {
        if !r {
            assert forall|j: int|
                0 <= j <= a@.len() && j <= b@.len() && a@.take(j) == b@.take(j) implies !((j
                == a@.len() && j < b@.len()) || (j < a@.len() && j < b@.len() && (a@[j] as int)
                < (b@[j] as int))) by {
                if j < i {
                    assert(a@.take(i as int)[j] == a@[j]);
                    assert(b@.take(i as int)[j] == b@[j]);
                }
            }
        }
    }
    r
}

} // verus!
verus! {

/// Unicode `White_Space` characters (what `char::is_whitespace` accepts).
pub open spec fn is_ws(c: char) -> bool {
    let u = c as u32;
    (9 <= u <= 13) || u == 32 || u == 0x85 || u == 0xA0 || u == 0x1680 || (0x2000 <= u <= 0x200A)
        || u == 0x2028 || u == 0x2029 || u == 0x202F || u == 0x205F || u == 0x3000
}

pub fn is_ws_exec(c: char) -> (r: bool)
    ensures
        r == is_ws(c),
{
    let u = c as u32;
    (9 <= u && u <= 13) || u == 32 || u == 0x85 || u == 0xA0 || u == 0x1680 || (0x2000 <= u && u
        <= 0x200A) || u == 0x2028 || u == 0x2029 || u == 0x202F || u == 0x205F || u == 0x3000
}

/// Leading whitespace removed.
pub open spec fn trim_start(s: Seq<char>) -> Seq<char>
    decreases s.len(),
{
    if s.len() > 0 && is_ws(s[0]) {
        trim_start(s.drop_first())
    } else {
        s
    }
}

/// Trailing whitespace removed.
pub open spec fn trim_end(s: Seq<char>) -> Seq<char>
    decreases s.len(),
{
    if s.len() > 0 && is_ws(s.last()) {
        trim_end(s.drop_last())
    } else {
        s
    }
}

/// `str::trim`.
pub open spec fn trim(s: Seq<char>) -> Seq<char> {
    trim_end(trim_start(s))
}

/// Bounds of the trimmed part of `v`.
pub fn trim_bounds(v: &Vec<char>) -> (r: (usize, usize))
    ensures
        r.0 <= r.1 <= v@.len(),
        v@.subrange(r.0 as int, r.1 as int) == trim(v@),
{
    let mut i: usize = 0;
    assert(v@.skip(0) =~= v@);
    while i < v.len() && is_ws_exec(v[i])
        invariant
            i <= v@.len(),
            trim_start(v@.skip(i as int)) == trim_start(v@),
        decreases v@.len() - i,
    {
        assert(v@.skip(i as int).drop_first() =~= v@.skip(i + 1));
        i += 1;
    }
    let mut j: usize = v.len();
    assert(v@.subrange(i as int, j as int) =~= v@.skip(i as int));
    while j > i && is_ws_exec(v[j - 1])
        invariant
            i <= j <= v@.len(),
            trim_end(v@.subrange(i as int, j as int)) == trim(v@),
        decreases j,
    {
        assert(v@.subrange(i as int, j as int).drop_last() =~= v@.subrange(i as int, j - 1));
        j -= 1;
    }
    (i, j)
}

/// The characters `v[a..b]` as a string.
pub fn string_of_range(v: &Vec<char>, a: usize, b: usize) -> (s: String)
    requires
        a <= b <= v@.len(),
    ensures
        s@ == v@.subrange(a as int, b as int),
{
    let mut s = String::new();
    let mut i: usize = a;
    while i < b
        invariant
            a <= i <= b <= v@.len(),
            s@ == v@.subrange(a as int, i as int),
        decreases b - i,
    {
        push_char(&mut s, v[i]);
        i += 1;
        assert(s@ =~= v@.subrange(a as int, i as int));
    }
    s
}

pub fn trim_str(s: &str) -> (r: String)
    ensures
        r@ == trim(s@),
{
    let v = chars_of(s);
    let (a, b) = trim_bounds(&v);
    string_of_range(&v, a, b)
}

/// `p` occurs in `s` at position `i`.
pub open spec fn occurs_at(s: Seq<char>, p: Seq<char>, i: int) -> bool {
    0 <= i && i + p.len() <= s.len() && s.subrange(i, i + p.len()) == p
}

/// Position of the first occurrence of `p` in `s` (`str::find`).
pub open spec fn find_first(s: Seq<char>, p: Seq<char>) -> Option<int>
    decreases s.len(),
{
    if s.len() < p.len() {
        None
    } else if s.take(p.len() as int) == p {
        Some(0)
    } else if s.len() == 0 {
        None
    } else {
        match find_first(s.drop_first(), p) {
            Some(i) => Some(i + 1),
            None => None,
        }
    }
}

/// `s` starts with `p`.
pub open spec fn starts_with(s: Seq<char>, p: Seq<char>) -> bool {
    p.len() <= s.len() && s.take(p.len() as int) == p
}

/// `s` contains `p`.
pub open spec fn contains_seq(s: Seq<char>, p: Seq<char>) -> bool {
    find_first(s, p) is Some
}

/// `v[at..]` starts with `p`.
pub fn matches_at(v: &Vec<char>, at: usize, p: &Vec<char>) -> (r: bool)
    requires
        at <= v@.len(),
    ensures
        r == starts_with(v@.skip(at as int), p@),
{
    if p.len() > v.len() - at {
        return false;
    }
    let mut k: usize = 0;
    while k < p.len()
        invariant
            v@.len() <= usize::MAX,
            at + p@.len() <= v@.len(),
            k <= p@.len(),
            forall|m: int| 0 <= m < k ==> v@[at + m] == p@[m],
        decreases p@.len() - k,
    {
        if v[at + k] != p[k] {
            assert(v@.skip(at as int).take(p@.len() as int)[k as int] != p@[k as int]);
            return false;
        }
        k += 1;
    }
    assert(v@.skip(at as int).take(p@.len() as int) =~= p@);
    true
}

/// First position at or after `from` where `p` occurs in `v`.
pub fn find_from(v: &Vec<char>, p: &Vec<char>, from: usize) -> (r: Option<usize>)
    requires
        from <= v@.len(),
    ensures
        match r {
            Some(i) => from <= i <= v@.len() && find_first(v@.skip(from as int), p@) == Some(
                (i - from) as int,
            ),
            None => find_first(v@.skip(from as int), p@) is None,
        },
{
    let mut i: usize = from;
    while i < v.len()
        invariant
            from <= i <= v@.len(),
            find_first(v@.skip(from as int), p@) == match find_first(v@.skip(i as int), p@) {
                Some(x) => Some(x + (i - from)),
                None => None,
            },
        decreases v@.len() - i,
    {
        if matches_at(v, i, p) {
            assert(find_first(v@.skip(i as int), p@) == Some(0int));
            return Some(i);
        }
        assert(v@.skip(i as int).drop_first() =~= v@.skip(i + 1));
        i += 1;
    }
    if matches_at(v, i, p) {
        assert(find_first(v@.skip(i as int), p@) == Some(0int));
        Some(i)
    } else {
        assert(v@.skip(i as int).len() == 0);
        None
    }
}

} // verus!
verus! {

/// The character of decimal digit `d`.
pub open spec fn digit_char(d: int) -> char {
    (48 + d) as char
}

/// Decimal notation of `n` (`u64::to_string`).
pub open spec fn dec(n: nat) -> Seq<char>
    decreases n,
{
    if n < 10 {
        seq![digit_char(n as int)]
    } else {
        dec(n / 10).push(digit_char((n % 10) as int))
    }
}

fn push_dec(n: u64, out: &mut String)
    ensures
        final(out)@ == old(out)@ + dec(n as nat),
    decreases n,
{
    if n >= 10 {
        push_dec(n / 10, out);
    }
    let d: u8 = (n % 10) as u8;
    let c: char = (48u8 + d) as char;
    assert(c == digit_char((n % 10) as int));
    push_char(out, c);
    proof {
        if n < 10 {
            assert(old(out)@ + dec(n as nat) =~= old(out)@.push(c));
        } else {
            assert((old(out)@ + dec((n / 10) as nat)).push(c) =~= old(out)@ + dec(n as nat));
        }
    }
}

/// `n.to_string()`.
pub fn u64_to_string(n: u64) -> (s: String)
    ensures
        s@ == dec(n as nat),
{
    let mut s = String::new();
    push_dec(n, &mut s);
    assert(Seq::<char>::empty() + dec(n as nat) =~= dec(n as nat));
    s
}

/// ASCII decimal digit.
pub open spec fn is_ascii_digit(c: char) -> bool {
    '0' <= c && c <= '9'
}

/// Every character is an ASCII digit.
pub open spec fn all_ascii_digits(s: Seq<char>) -> bool {
    forall|i: int| 0 <= i < s.len() ==> is_ascii_digit(#[trigger] s[i])
}

pub fn all_ascii_digits_exec(v: &Vec<char>) -> (r: bool)
    ensures
        r == all_ascii_digits(v@),
{
    let mut i: usize = 0;
    while i < v.len()
        invariant
            i <= v@.len(),
            forall|k: int| 0 <= k < i ==> is_ascii_digit(#[trigger] v@[k]),
        decreases v@.len() - i,
    {
        if !('0' <= v[i] && v[i] <= '9') {
            return false;
        }
        i += 1;
    }
    true
}

/// `s.split(c)`: the pieces between occurrences of `c`.
pub open spec fn split_char(s: Seq<char>, c: char) -> Seq<Seq<char>>
    decreases s.len(),
{
    match find_first(s, seq![c]) {
        Some(i) => if 0 <= i < s.len() {
            seq![s.take(i)] + split_char(s.skip(i + 1), c)
        } else {
            seq![s]
        },
        None => seq![s],
    }
}

} // verus!
verus! {

/// Bounds of the pieces of `v` between occurrences of `c` (`str::split`).
pub fn split_char_ranges(v: &Vec<char>, c: char) -> (r: Vec<(usize, usize)>)
    ensures
        r@.len() >= 1,
        forall|k: int| 0 <= k < r@.len() ==> #[trigger] r@[k].0 <= r@[k].1 <= v@.len(),
        Seq::new(r@.len(), |k: int| v@.subrange(r@[k].0 as int, r@[k].1 as int)) == split_char(
            v@,
            c,
        ),
{
    let sep: Vec<char> = vec![c];
    assert(sep@ =~= seq![c]);
    let mut out: Vec<(usize, usize)> = Vec::new();
    let mut pos: usize = 0;
    let n = v.len();
    assert(v@.skip(0) =~= v@);
    loop
        invariant
            n == v@.len(),
            sep@ == seq![c],
            pos <= v@.len(),
            forall|k: int| 0 <= k < out@.len() ==> #[trigger] out@[k].0 <= out@[k].1 <= v@.len(),
            Seq::new(out@.len(), |k: int| v@.subrange(out@[k].0 as int, out@[k].1 as int))
                + split_char(v@.skip(pos as int), c) == split_char(v@, c),
        decreases v@.len() - pos,
    {
        let ghost pieces = Seq::new(out@.len(), |k: int| v@.subrange(out@[k].0 as int, out@[k].1 as int));
        let ghost rest = v@.skip(pos as int);
        match find_from(v, &sep, pos) {
            Some(i) => {
                let ghost j = i - pos;
                assert(find_first(rest, seq![c]) == Some(j as int));
                proof {
                    lemma_find_first_bounds(rest, seq![c]);
                }
                assert(i < v@.len());
                out.push((pos, i));
                assert(rest.take(j as int) =~= v@.subrange(pos as int, i as int));
                assert(rest.skip(j + 1) =~= v@.skip(i + 1));
                assert(split_char(rest, c) == seq![rest.take(j as int)] + split_char(rest.skip(j + 1), c));
                assert(Seq::new(out@.len(), |k: int| v@.subrange(out@[k].0 as int, out@[k].1 as int))
                    =~= pieces.push(v@.subrange(pos as int, i as int)));
                assert(pieces.push(v@.subrange(pos as int, i as int)) + split_char(v@.skip(i + 1), c)
                    =~= pieces + split_char(rest, c));
                pos = i + 1;
            },
            None => {
                out.push((pos, v.len()));
                assert(rest =~= v@.subrange(pos as int, v@.len() as int));
                assert(Seq::new(out@.len(), |k: int| v@.subrange(out@[k].0 as int, out@[k].1 as int))
                    =~= pieces.push(rest));
                assert(pieces.push(rest) =~= pieces + split_char(rest, c));
                return out;
            },
        }
    }
}

/// A found occurrence lies within the searched sequence.
pub proof fn lemma_find_first_bounds(s: Seq<char>, p: Seq<char>)
    ensures
        match find_first(s, p) {
            Some(i) => 0 <= i && i + p.len() <= s.len() && s.subrange(i, i + p.len()) == p,
            None => true,
        },
    decreases s.len(),
{
    if s.len() < p.len() {
    } else if s.take(p.len() as int) == p {
    } else if s.len() == 0 {
    } else {
        lemma_find_first_bounds(s.drop_first(), p);
        match find_first(s.drop_first(), p) {
            Some(i) => {
                assert(s.drop_first().subrange(i, i + p.len()) =~= s.subrange(i + 1, i + 1 + p.len()));
            },
            None => {},
        }
    }
}

} // verus!
verus! {

/// ASCII lowercase of a whole string.
pub open spec fn ascii_lower(s: Seq<char>) -> Seq<char> {
    Seq::new(s.len(), |i: int| ascii_lower_char(s[i]))
}

pub fn to_ascii_lower(s: &str) -> (r: String)
    ensures
        r@ == ascii_lower(s@),
{
    let v = chars_of(s);
    let mut out = String::new();
    let mut i: usize = 0;
    while i < v.len()
        invariant
            v@ == s@,
            i <= v@.len(),
            out@ == ascii_lower(v@.take(i as int)),
        decreases v@.len() - i,
    {
        let c = to_ascii_lower_char(v[i]);
        push_char(&mut out, c);
        i += 1;
        assert(out@ =~= ascii_lower(v@.take(i as int)));
    }
    assert(v@.take(v@.len() as int) =~= v@);
    out
}

} // verus!
verus! {

/// `str::to_lowercase` of a string (full Unicode lowercasing).
pub uninterp spec fn unicode_lower(s: Seq<char>) -> Seq<char>;

/// Every character is ASCII.
pub open spec fn all_ascii(s: Seq<char>) -> bool {
    forall|i: int| 0 <= i < s.len() ==> (#[trigger] s[i] as u32) < 128
}

/// `str::to_lowercase`: Unicode lowercasing. Its result is named; on ASCII
/// text it is stated: only `A`-`Z` change, to `a`-`z` (as the documentation
/// of `to_lowercase` and `to_ascii_lowercase` shows).
#[verifier::external_body]
pub(crate) fn to_lowercase(s: &str) -> (r: String)
    ensures
        r@ == unicode_lower(s@),
        all_ascii(s@) ==> r@ == ascii_lower(s@),
{
    s.to_lowercase()
}

/// A list of strings holds `s`.
pub open spec fn strs_contain(v: Seq<String>, s: Seq<char>) -> bool {
    exists|i: int| 0 <= i < v.len() && #[trigger] v[i]@ == s
}

pub fn vec_contains_str(v: &Vec<String>, s: &str) -> (r: bool)
    ensures
        r == strs_contain(v@, s@),
{
    let mut i: usize = 0;
    while i < v.len()
        invariant
            i <= v@.len(),
            forall|k: int| 0 <= k < i ==> #[trigger] v@[k]@ != s@,
        decreases v@.len() - i,
    {
        if str_eq(v[i].as_str(), s) {
            return true;
        }
        i += 1;
    }
    false
}

/// A copy of an optional string.
pub fn copy_opt_string(s: &Option<String>) -> (r: Option<String>)
    ensures
        match (r, *s) {
            (Some(a), Some(b)) => a@ == b@,
            (None, None) => true,
            _ => false,
        },
{
    match s {
        Some(x) => Some(x.clone()),
        None => None,
    }
}

/// A copy of a list of strings.
pub fn copy_strings(v: &Vec<String>) -> (r: Vec<String>)
    ensures
        strs_view(r@) == strs_view(v@),
{
    let mut r: Vec<String> = Vec::new();
    let mut i: usize = 0;
    while i < v.len()
        invariant
            i <= v@.len(),
            r@.len() == i,
            forall|k: int| 0 <= k < i ==> #[trigger] r@[k]@ == v@[k]@,
        decreases v@.len() - i,
    {
        r.push(v[i].clone());
        i += 1;
    }
    assert(strs_view(r@) =~= strs_view(v@));
    r
}

/// Two optional strings hold the same characters.
pub open spec fn opt_str_same(a: Option<String>, b: Option<String>) -> bool {
    match (a, b) {
        (Some(x), Some(y)) => x@ == y@,
        (None, None) => true,
        _ => false,
    }
}

} // verus!
verus! {

/// Lexicographic order never puts a string before itself.
pub proof fn lemma_seq_lt_irreflexive(a: Seq<char>)
    ensures
        !seq_lt(a, a),
{
}

/// Of two different strings, one comes before the other.
pub proof fn lemma_seq_lt_total(a: Seq<char>, b: Seq<char>)
    requires
        a != b,
    ensures
        seq_lt(a, b) || seq_lt(b, a),
    decreases a.len(),
{
    if a.len() == 0 {
        assert(b.len() > 0) by {
            if b.len() == 0 {
                assert(a =~= b);
            }
        }
        assert(a.take(0) =~= b.take(0));
    } else if b.len() == 0 {
        assert(a.take(0) =~= b.take(0));
    } else if a[0] != b[0] {
        assert(a.take(0) =~= b.take(0));
        assert((a[0] as int) != (b[0] as int));
    } else {
        let a1 = a.drop_first();
        let b1 = b.drop_first();
        assert(a1 != b1) by {
            if a1 == b1 {
                assert(a =~= seq![a[0]] + a1);
                assert(b =~= seq![b[0]] + b1);
            }
        }
        lemma_seq_lt_total(a1, b1);
        if seq_lt(a1, b1) {
            let i = choose|i: int|
                0 <= i <= a1.len() && i <= b1.len() && a1.take(i) == b1.take(i) && ((i == a1.len()
                    && i < b1.len()) || (i < a1.len() && i < b1.len() && (a1[i] as int)
                    < (b1[i] as int)));
            assert(a.take(i + 1) =~= seq![a[0]] + a1.take(i));
            assert(b.take(i + 1) =~= seq![b[0]] + b1.take(i));
            assert(a[i + 1] == a1[i] || i == a1.len());
            assert(seq_lt(a, b));
        } else {
            let i = choose|i: int|
                0 <= i <= b1.len() && i <= a1.len() && b1.take(i) == a1.take(i) && ((i == b1.len()
                    && i < a1.len()) || (i < b1.len() && i < a1.len() && (b1[i] as int)
                    < (a1[i] as int)));
            assert(a.take(i + 1) =~= seq![a[0]] + a1.take(i));
            assert(b.take(i + 1) =~= seq![b[0]] + b1.take(i));
            assert(seq_lt(b, a));
        }
    }
}

/// Lexicographic order is transitive.
pub proof fn lemma_seq_lt_transitive(a: Seq<char>, b: Seq<char>, c: Seq<char>)
    requires
        seq_lt(a, b),
        seq_lt(b, c),
    ensures
        seq_lt(a, c),
{
    let i = choose|i: int|
        0 <= i <= a.len() && i <= b.len() && a.take(i) == b.take(i) && ((i == a.len() && i
            < b.len()) || (i < a.len() && i < b.len() && (a[i] as int) < (b[i] as int)));
    let j = choose|j: int|
        0 <= j <= b.len() && j <= c.len() && b.take(j) == c.take(j) && ((j == b.len() && j
            < c.len()) || (j < b.len() && j < c.len() && (b[j] as int) < (c[j] as int)));
    if i < j {
        assert(b.take(i) =~= b.take(j).take(i));
        assert(c.take(i) =~= c.take(j).take(i));
        assert(b[i] == b.take(j)[i]);
        assert(c[i] == c.take(j)[i]);
        assert(a.take(i) == c.take(i));
    } else if i > j {
        assert(a.take(j) =~= a.take(i).take(j));
        assert(b.take(j) =~= b.take(i).take(j));
        assert(a[j] == a.take(i)[j]);
        assert(b[j] == b.take(i)[j]);
        assert(a.take(j) == c.take(j));
    } else {
        assert(a.take(i) == c.take(i));
    }
}

} // verus!
verus! {


/// Length of a character in UTF-8.
pub open spec fn utf8_len(c: char) -> nat {
    let u = c as u32;
    if u < 0x80 {
        1
    } else if u < 0x800 {
        2
    } else if u < 0x10000 {
        3
    } else {
        4
    }
}

/// Length of a string in UTF-8 bytes (`str::len`).
pub open spec fn byte_len(s: Seq<char>) -> nat
    decreases s.len(),
{
    if s.len() == 0 {
        0
    } else {
        byte_len(s.drop_last()) + utf8_len(s.last())
    }
}

/// Byte `n` of `s` starts a character (or ends the string).
pub open spec fn char_boundary(s: Seq<char>, n: nat) -> bool {
    exists|k: int| 0 <= k <= s.len() && #[trigger] byte_len(s.take(k)) == n
}

/// The most characters of `s` that fit in `n` bytes.
pub open spec fn fits(s: Seq<char>, n: nat, k: int) -> bool {
    0 <= k <= s.len() && byte_len(s.take(k)) <= n && (k == s.len() || byte_len(s.take(k + 1)) > n)
}

/// `s` cut to the characters that fit in its first `n` bytes (a character
/// that straddles byte `n` is left out) and marked with `...` when longer.
pub open spec fn truncated(s: Seq<char>, n: nat) -> Seq<char> {
    if byte_len(s) <= n {
        s
    } else {
        s.take(choose|k: int| #[trigger] fits(s, n, k)) + "..."@
    }
}

/// Only one prefix length fits.
pub proof fn lemma_fits_unique(s: Seq<char>, n: nat, a: int, b: int)
    requires
        fits(s, n, a),
        fits(s, n, b),
    ensures
        a == b,
{
    if a < b {
        lemma_byte_len_take_mono(s, a + 1, b);
    } else if b < a {
        lemma_byte_len_take_mono(s, b + 1, a);
    }
}

pub proof fn lemma_byte_len_take_mono(s: Seq<char>, a: int, b: int)
    requires
        0 <= a <= b <= s.len(),
    ensures
        byte_len(s.take(a)) <= byte_len(s.take(b)),
        a < b ==> byte_len(s.take(a)) < byte_len(s.take(b)),
    decreases b - a,
{
    if a < b {
        lemma_byte_len_take_mono(s, a, b - 1);
        assert(s.take(b).drop_last() =~= s.take(b - 1));
    }
}

pub fn char_utf8_len(c: char) -> (n: usize)
    ensures
        n == utf8_len(c),
{
    let u = c as u32;
    if u < 0x80 {
        1
    } else if u < 0x800 {
        2
    } else if u < 0x10000 {
        3
    } else {
        4
    }
}

/// Byte length of `s`, or `None` once it passes `limit`.
pub fn byte_len_upto(v: &Vec<char>, limit: usize) -> (r: (usize, usize))
    requires
        limit < usize::MAX - 4,
    ensures
        r.1 <= v@.len(),
        r.0 == byte_len(v@.take(r.1 as int)),
        r.1 == v@.len() || r.0 >= limit,
        r.1 < v@.len() ==> byte_len(v@.take(r.1 as int)) >= limit,
        forall|k: int| 0 <= k < r.1 ==> byte_len(#[trigger] v@.take(k)) < limit,
{
    let mut total: usize = 0;
    let mut k: usize = 0;
    while k < v.len() && total < limit
        invariant
            k <= v@.len(),
            limit < usize::MAX - 4,
            total == byte_len(v@.take(k as int)),
            total <= limit + 4,
            forall|j: int| 0 <= j < k ==> byte_len(#[trigger] v@.take(j)) < limit,
        decreases v@.len() - k,
    {
        assert(v@.take(k + 1).drop_last() =~= v@.take(k as int));
        total = total + char_utf8_len(v[k]);
        k += 1;
    }
    (total, k)
}


/// Only one prefix of a string has a given byte length.
pub proof fn lemma_byte_prefix_unique(s: Seq<char>, a: int, b: int)
    requires
        0 <= a <= s.len(),
        0 <= b <= s.len(),
        byte_len(s.take(a)) == byte_len(s.take(b)),
    ensures
        a == b,
{
    if a < b {
        lemma_byte_len_take_mono(s, a, b);
    } else if b < a {
        lemma_byte_len_take_mono(s, b, a);
    }
}

/// The number of characters that make up the first `n` bytes.
pub fn char_index_of_byte(v: &Vec<char>, n: usize) -> (k: usize)
    requires
        char_boundary(v@, n as nat),
        n < usize::MAX - 8,
    ensures
        k <= v@.len(),
        byte_len(v@.take(k as int)) == n,
{
    let ghost kk = choose|j: int| 0 <= j <= v@.len() && #[trigger] byte_len(v@.take(j)) == n;
    let len = v.len();
    let mut j: usize = 0;
    let mut total: usize = 0;
    while total < n
        invariant
            len == v@.len(),
            0 <= kk <= v@.len(),
            j <= kk,
            total == byte_len(v@.take(j as int)),
            byte_len(v@.take(kk)) == n,
            n < usize::MAX - 8,
        decreases kk - j,
    {
        proof {
            if j == kk {
                assert(false);
            }
            lemma_byte_len_take_mono(v@, j + 1, kk);
        }
        assert(v@.take(j + 1).drop_last() =~= v@.take(j as int));
        total = total + char_utf8_len(v[j]);
        j += 1;
    }
    proof {
        if j < kk {
            lemma_byte_len_take_mono(v@, j as int, kk);
        }
    }
    j
}

} // verus!
verus! {

/// `str::replace`: every occurrence of `p`, from left to right and without
/// overlap, replaced by `w`.
pub open spec fn replace_all(s: Seq<char>, p: Seq<char>, w: Seq<char>) -> Seq<char>
    decreases s.len(),
{
    match find_first(s, p) {
        Some(i) => if p.len() > 0 && 0 <= i && i + p.len() <= s.len() {
            s.take(i) + w + replace_all(s.skip(i + p.len()), p, w)
        } else {
            s
        },
        None => s,
    }
}

pub fn replace_str(s: &str, p: &str, w: &str) -> (r: String)
    requires
        p@.len() > 0,
    ensures
        r@ == replace_all(s@, p@, w@),
{
    let v = chars_of(s);
    let pv = chars_of(p);
    let mut out = String::new();
    let mut pos: usize = 0;
    let n = v.len();
    assert(v@.skip(0) =~= v@);
    assert(out@ + replace_all(v@.skip(0), p@, w@) =~= replace_all(s@, p@, w@));
    loop
        invariant
            v@ == s@,
            pv@ == p@,
            p@.len() > 0,
            n == v@.len(),
            pos <= n,
            out@ + replace_all(v@.skip(pos as int), p@, w@) == replace_all(s@, p@, w@),
        decreases n - pos,
    {
        let ghost rest = v@.skip(pos as int);
        match find_from(&v, &pv, pos) {
            None => {
                let tail = string_of_range(&v, pos, n);
                assert(tail@ =~= rest);
                out.append(tail.as_str());
                return out;
            },
            Some(i) => {
                proof {
                    lemma_find_first_bounds(rest, p@);
                }
                let before = string_of_range(&v, pos, i);
                assert(before@ =~= rest.take(i - pos));
                let ghost o = out@;
                out.append(before.as_str());
                out.append(w);
                assert(rest.skip(i - pos + p@.len()) =~= v@.skip(i + pv@.len()));
                pos = i + pv.len();
                assert(o + replace_all(rest, p@, w@) =~= out@ + replace_all(v@.skip(pos as int), p@, w@));
            },
        }
    }
}

} // verus!
verus! {

/// The first `n` bytes of `s` (all of it when shorter), as `&s[..n.min(len)]`.
pub open spec fn byte_prefix(s: Seq<char>, n: nat) -> Seq<char> {
    if byte_len(s) <= n {
        s
    } else {
        s.take(choose|k: int| 0 <= k <= s.len() && #[trigger] byte_len(s.take(k)) == n)
    }
}

/// `s` can be cut after `n` bytes: the cut falls between characters, or the
/// string is no longer than that.
pub open spec fn cuttable(s: Seq<char>, n: nat) -> bool {
    char_boundary(s, n) || byte_len(s) <= n
}

pub fn take_bytes(s: &str, n: usize) -> (r: String)
    requires
        cuttable(s@, n as nat),
        n < usize::MAX - 8,
    ensures
        r@ == byte_prefix(s@, n as nat),
{
    let v = chars_of(s);
    let (total, k) = byte_len_upto(&v, n + 1);
    proof {
        if k < v@.len() {
            lemma_byte_len_take_mono(v@, k as int, v@.len() as int);
        }
        assert(v@.take(v@.len() as int) =~= v@);
    }
    if k == v.len() && total <= n {
        return s.to_owned();
    }
    let j = char_index_of_byte(&v, n);
    proof {
        let kk = choose|q: int| 0 <= q <= v@.len() && #[trigger] byte_len(v@.take(q)) == n;
        lemma_byte_prefix_unique(v@, j as int, kk);
    }
    let p = string_of_range(&v, 0, j);
    assert(v@.subrange(0, j as int) =~= v@.take(j as int));
    p
}

/// Append an owned string to a list of strings.
pub fn push_string(out: &mut Vec<String>, s: String)
    ensures
        strs_view(final(out)@) == strs_view(old(out)@).push(s@),
{
    let ghost sv = s@;
    out.push(s);
    assert(strs_view(out@) =~= strs_view(old(out)@).push(sv));
}

/// Append a copy of `s` to a list of strings.
pub fn push_str(out: &mut Vec<String>, s: &str)
    ensures
        strs_view(final(out)@) == strs_view(old(out)@).push(s@),
{
    push_string(out, String::from_str(s));
}

/// An optional string, by its view.
pub open spec fn opt_view(o: Option<String>) -> Option<Seq<char>> {
    match o {
        Some(s) => Some(s@),
        None => None,
    }
}

} // verus!
