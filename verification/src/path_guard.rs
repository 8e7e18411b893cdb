//! Checking a host path against the allowlist before it is mounted.
//!
//! Resolving symlinks needs the file system, so the caller hands in the
//! canonical forms; what is decided from them is verified here.

use vstd::prelude::*;
use crate::host_paths::has_parent_dir;
use crate::text::{chars_of, split_char, split_char_ranges, str_eq, string_of_range, strs_view};

verus! {

/// The component that `Path::components` puts first: the root `/` for an
/// absolute path, a leading `.` for a relative one, else none.
pub open spec fn leading_component(p: Seq<char>) -> Seq<Seq<char>> {
    if p.len() > 0 && p[0] == '/' {
        seq!["/"@]
    } else if split_char(p, '/')[0] == "."@ {
        seq!["."@]
    } else {
        Seq::empty()
    }
}

/// The pieces between slashes that are real components: not empty, not `.`.
pub open spec fn normal_pieces(pieces: Seq<Seq<char>>) -> Seq<Seq<char>>
    decreases pieces.len(),
{
    if pieces.len() == 0 {
        Seq::empty()
    } else {
        let rest = normal_pieces(pieces.drop_last());
        let last = pieces.last();
        if last.len() > 0 && last != "."@ {
            rest.push(last)
        } else {
            rest
        }
    }
}

/// The components of a path, as `Path::components` yields them on Unix.
pub open spec fn path_components(p: Seq<char>) -> Seq<Seq<char>> {
    leading_component(p) + normal_pieces(split_char(p, '/'))
}

/// `Path::starts_with`: the components of `base` begin those of `p`.
pub open spec fn path_starts_with(p: Seq<char>, base: Seq<char>) -> bool {
    path_components(base).is_prefix_of(path_components(p))
}

/// An absolute path starts at the root.
pub open spec fn is_absolute(p: Seq<char>) -> bool {
    p.len() > 0 && p[0] == '/'
}

/// The components of `s`.
pub fn components_of(s: &str) -> (r: Vec<String>)
    ensures
        strs_view(r@) == path_components(s@),
{
    let v = chars_of(s);
    let ranges = split_char_ranges(&v, '/');
    let ghost pieces = split_char(s@, '/');
    let mut out: Vec<String> = Vec::new();
    assert(pieces.len() >= 1);
    if v.len() > 0 && v[0] == '/' {
        let root = String::from_str("/");
        proof {
            reveal_strlit("/");
        }
        out.push(root);
        assert(strs_view(out@) =~= seq!["/"@]);
    } else {
        let first = string_of_range(&v, ranges[0].0, ranges[0].1);
        assert(first@ == pieces[0]);
        if str_eq(first.as_str(), ".") {
            out.push(first);
            assert(strs_view(out@) =~= seq!["."@]);
        } else {
            assert(strs_view(out@) =~= Seq::<Seq<char>>::empty());
        }
    }
    let ghost lead = strs_view(out@);
    assert(lead == leading_component(s@));
    let mut i: usize = 0;
    assert(pieces.take(0) =~= Seq::<Seq<char>>::empty());
    while i < ranges.len()
        invariant
            v@ == s@,
            pieces == split_char(s@, '/'),
            Seq::new(ranges@.len(), |q: int| v@.subrange(ranges@[q].0 as int, ranges@[q].1 as int))
                == pieces,
            forall|q: int| 0 <= q < ranges@.len() ==> #[trigger] ranges@[q].0 <= ranges@[q].1 <= v@.len(),
            i <= ranges@.len(),
            strs_view(out@) == lead + normal_pieces(pieces.take(i as int)),
        decreases ranges@.len() - i,
    {
        let (a, b) = ranges[i];
        let piece = string_of_range(&v, a, b);
        assert(piece@ == pieces[i as int]);
        let ghost before = strs_view(out@);
        assert(pieces.take(i + 1).drop_last() =~= pieces.take(i as int));
        assert(pieces.take(i + 1).last() == pieces[i as int]);
        if a < b && !str_eq(piece.as_str(), ".") {
            out.push(piece);
            assert(strs_view(out@) =~= before.push(pieces[i as int]));
        } else {
            assert(strs_view(out@) =~= before);
        }
        i += 1;
    }
    assert(pieces.take(ranges@.len() as int) =~= pieces);
    out
}

/// Whether the path `p` lies under `base`, component by component.
pub fn starts_with_path(p: &str, base: &str) -> (r: bool)
    ensures
        r == path_starts_with(p@, base@),
{
    let pc = components_of(p);
    let bc = components_of(base);
    let ghost ps = strs_view(pc@);
    let ghost bs = strs_view(bc@);
    if bc.len() > pc.len() {
        return false;
    }
    let mut i: usize = 0;
    while i < bc.len()
        invariant
            ps == strs_view(pc@),
            bs == strs_view(bc@),
            bc@.len() <= pc@.len(),
            ps == path_components(p@),
            bs == path_components(base@),
            i <= bc@.len(),
            forall|k: int| 0 <= k < i ==> #[trigger] bs[k] == ps[k],
        decreases bc@.len() - i,
    {
        if !str_eq(pc[i].as_str(), bc[i].as_str()) {
            assert(bs[i as int] == bc@[i as int]@ && ps[i as int] == pc@[i as int]@);
            assert(ps.subrange(0, bs.len() as int)[i as int] == ps[i as int]);
            assert(bs != ps.subrange(0, bs.len() as int));
            assert(!path_starts_with(p@, base@));
            return false;
        }
        i += 1;
    }
    assert(bs =~= ps.subrange(0, bs.len() as int));
    true
}

/// What `format!("{:?}", list)` writes for a list of strings: the strings
/// quoted and escaped, between brackets.
pub uninterp spec fn debug_string_list(items: Seq<Seq<char>>) -> Seq<char>;

/// `<Vec<String> as Debug>::fmt`, through `format!`. The contract names the
/// text and leaves the escaping rules of `str::escape_debug` unstated.
#[verifier::external_body]
pub(crate) fn debug_list(v: &Vec<String>) -> (r: String)
    ensures
        r@ == debug_string_list(strs_view(v@)),
{
    format!("{:?}", v)
}

/// The allowlist entry `entry`, resolved to `resolved`, admits `candidate`:
/// the entry is absolute, it could be resolved, and `candidate` lies under it.
pub open spec fn root_admits(entry: Seq<char>, resolved: Option<String>, candidate: Seq<char>) -> bool {
    is_absolute(entry) && match resolved {
        Some(r) => path_starts_with(candidate, r@),
        None => false,
    }
}

/// Some entry of the allowlist admits `candidate`.
pub open spec fn allowed_by(
    allowed: Seq<String>,
    resolved: Seq<Option<String>>,
    candidate: Seq<char>,
) -> bool {
    exists|i: int| 0 <= i < allowed.len() && #[trigger] root_admits(allowed[i]@, resolved[i], candidate)
}

/// The message for a path outside the allowlist.
pub open spec fn not_allowed_message(path: Seq<char>, allowed: Seq<Seq<char>>) -> Seq<char> {
    "Path '"@ + path + "' is not in the allowed paths: "@ + debug_string_list(allowed)
}

/// The outcome of checking `path`: it must be absolute, hold no `..`
/// component, resolve (`candidate`, or the error met while resolving it), and
/// lie under some resolved allowlist entry.
pub open spec fn path_verdict(
    path: Seq<char>,
    allowed: Seq<String>,
    resolved: Seq<Option<String>>,
    candidate: Result<String, String>,
) -> Result<(), Seq<char>> {
    if !is_absolute(path) {
        Err("Path must be absolute: "@ + path)
    } else if has_parent_dir(path) {
        Err("Path traversal detected: "@ + path)
    } else {
        match candidate {
            Err(e) => Err(e@),
            Ok(c) => if allowed_by(allowed, resolved, c@) {
                Ok(())
            } else {
                Err(not_allowed_message(path, strs_view(allowed)))
            },
        }
    }
}

/// An executable result carries the outcome `s`.
pub open spec fn same_outcome(r: Result<(), String>, s: Result<(), Seq<char>>) -> bool {
    match (r, s) {
        (Ok(_), Ok(_)) => true,
        (Err(a), Err(b)) => a@ == b,
        _ => false,
    }
}

/// Whether the path has a `..` component.
pub fn has_parent_component(s: &str) -> (r: bool)
    ensures
        r == has_parent_dir(s@),
{
    let v = chars_of(s);
    let ranges = split_char_ranges(&v, '/');
    let ghost pieces = split_char(s@, '/');
    let mut i: usize = 0;
    while i < ranges.len()
        invariant
            v@ == s@,
            pieces == split_char(s@, '/'),
            Seq::new(ranges@.len(), |q: int| v@.subrange(ranges@[q].0 as int, ranges@[q].1 as int))
                == pieces,
            forall|q: int| 0 <= q < ranges@.len() ==> #[trigger] ranges@[q].0 <= ranges@[q].1 <= v@.len(),
            i <= ranges@.len(),
            forall|q: int| 0 <= q < i ==> pieces[q] != ".."@,
        decreases ranges@.len() - i,
    {
        let piece = string_of_range(&v, ranges[i].0, ranges[i].1);
        assert(piece@ == pieces[i as int]);
        if str_eq(piece.as_str(), "..") {
            assert(pieces.contains(".."@));
            return true;
        }
        i += 1;
    }
    false
}

/// Check a host path against the allowlist (`validate_path`).
///
/// `resolved_allowed[i]` is the canonical form of `allowed_paths[i]` (or of
/// its nearest existing ancestor), `None` where it could not be resolved;
/// `resolved_candidate` is the canonical form of `path_str`, or the error met
/// while resolving it.
pub fn validate_path(
    path_str: &str,
    allowed_paths: &Vec<String>,
    resolved_allowed: &Vec<Option<String>>,
    resolved_candidate: &Result<String, String>,
) -> (r: Result<(), String>)
    requires
        resolved_allowed@.len() == allowed_paths@.len(),
    ensures
        same_outcome(r, path_verdict(path_str@, allowed_paths@, resolved_allowed@, *resolved_candidate)),
{
    let v = chars_of(path_str);
    if !(v.len() > 0 && v[0] == '/') {
        let mut m = String::from_str("Path must be absolute: ");
        m.append(path_str);
        return Err(m);
    }
    if has_parent_component(path_str) {
        let mut m = String::from_str("Path traversal detected: ");
        m.append(path_str);
        return Err(m);
    }
    let candidate = match resolved_candidate {
        Err(e) => {
            return Err(e.clone());
        },
        Ok(c) => c,
    };
    let mut i: usize = 0;
    while i < allowed_paths.len()
        invariant
            resolved_allowed@.len() == allowed_paths@.len(),
            is_absolute(path_str@),
            !has_parent_dir(path_str@),
            *resolved_candidate == Ok::<String, String>(*candidate),
            i <= allowed_paths@.len(),
            forall|k: int| 0 <= k < i ==> !#[trigger] root_admits(allowed_paths@[k]@, resolved_allowed@[k], candidate@),
        decreases allowed_paths@.len() - i,
    {
        let entry = chars_of(allowed_paths[i].as_str());
        if entry.len() > 0 && entry[0] == '/' {
            match &resolved_allowed[i] {
                Some(root) => {
                    if starts_with_path(candidate.as_str(), root.as_str()) {
                        assert(root_admits(allowed_paths@[i as int]@, resolved_allowed@[i as int], candidate@));
                        return Ok(());
                    }
                },
                None => {},
            }
        }
        i += 1;
    }
    let mut m = String::from_str("Path '");
    m.append(path_str);
    m.append("' is not in the allowed paths: ");
    let listed = debug_list(allowed_paths);
    m.append(listed.as_str());
    Err(m)
}

/// A storage volume of a capsule manifest. A volume named `bind:<path>`
/// mounts the host path `<path>`.
#[derive(Debug, Clone)]
pub struct StorageVolume {
    pub name: String,
    pub mount_path: String,
    pub read_only: bool,
    pub size_bytes: u64,
    pub use_thin: Option<bool>,
    pub encrypted: bool,
}

/// The host path of a bind volume: what follows the `bind:` prefix.
pub open spec fn bind_source(name: Seq<char>) -> Option<Seq<char>> {
    if "bind:"@.is_prefix_of(name) {
        Some(name.skip(5))
    } else {
        None
    }
}

/// What is wrong with one volume, whose source resolved to `source`.
pub open spec fn volume_error(
    vol: StorageVolume,
    allowed: Seq<String>,
    resolved: Seq<Option<String>>,
    source: Result<String, String>,
) -> Option<Seq<char>> {
    match bind_source(vol.name@) {
        None => None,
        Some(p) => match path_verdict(p, allowed, resolved, source) {
            Ok(_) => None,
            Err(e) => Some("Volume source error: "@ + e),
        },
    }
}

/// The first error among the volumes from index `i` on.
pub open spec fn first_volume_error(
    vols: Seq<StorageVolume>,
    allowed: Seq<String>,
    resolved: Seq<Option<String>>,
    sources: Seq<Result<String, String>>,
    i: nat,
) -> Option<Seq<char>>
    decreases vols.len() - i,
{
    if i >= vols.len() {
        None
    } else {
        match volume_error(vols[i as int], allowed, resolved, sources[i as int]) {
            Some(e) => Some(e),
            None => first_volume_error(vols, allowed, resolved, sources, i + 1),
        }
    }
}

/// The host path of a bind volume, if `name` names one.
pub fn bind_source_of(name: &str) -> (r: Option<String>)
    ensures
        match (r, bind_source(name@)) {
            (Some(a), Some(b)) => a@ == b,
            (None, None) => true,
            _ => false,
        },
{
    let v = chars_of(name);
    proof {
        reveal_strlit("bind:");
    }
    if v.len() >= 5 && v[0] == 'b' && v[1] == 'i' && v[2] == 'n' && v[3] == 'd' && v[4] == ':' {
        assert("bind:"@ =~= v@.subrange(0, 5));
        Some(string_of_range(&v, 5, v.len()))
    } else {
        proof {
            if "bind:"@.is_prefix_of(name@) {
                assert(v@.subrange(0, 5) =~= "bind:"@);
                assert(v@[0] == "bind:"@[0]);
                assert(v@[1] == "bind:"@[1]);
                assert(v@[2] == "bind:"@[2]);
                assert(v@[3] == "bind:"@[3]);
                assert(v@[4] == "bind:"@[4]);
            }
        }
        None
    }
}

/// Check the bind volumes of a manifest against the allowlist
/// (`validate_mounts`); the first failing volume decides the error.
///
/// `resolved_sources[i]` is, for a bind volume, the canonical form of its
/// host path or the error met while resolving it; other volumes ignore it.
pub fn validate_mounts(
    volumes: &Vec<StorageVolume>,
    allowed_paths: &Vec<String>,
    resolved_allowed: &Vec<Option<String>>,
    resolved_sources: &Vec<Result<String, String>>,
) -> (r: Result<(), String>)
    requires
        resolved_allowed@.len() == allowed_paths@.len(),
        resolved_sources@.len() == volumes@.len(),
    ensures
        match (r, first_volume_error(volumes@, allowed_paths@, resolved_allowed@, resolved_sources@, 0)) {
            (Ok(_), None) => true,
            (Err(a), Some(b)) => a@ == b,
            _ => false,
        },
{
    let mut i: usize = 0;
    while i < volumes.len()
        invariant
            resolved_allowed@.len() == allowed_paths@.len(),
            resolved_sources@.len() == volumes@.len(),
            i <= volumes@.len(),
            first_volume_error(volumes@, allowed_paths@, resolved_allowed@, resolved_sources@, 0)
                == first_volume_error(volumes@, allowed_paths@, resolved_allowed@, resolved_sources@, i as nat),
        decreases volumes@.len() - i,
    {
        let ghost here = volume_error(volumes@[i as int], allowed_paths@, resolved_allowed@, resolved_sources@[i as int]);
        assert(first_volume_error(volumes@, allowed_paths@, resolved_allowed@, resolved_sources@, i as nat)
            == match here {
                Some(e) => Some(e),
                None => first_volume_error(volumes@, allowed_paths@, resolved_allowed@, resolved_sources@, (i + 1) as nat),
            });
        match bind_source_of(volumes[i].name.as_str()) {
            Some(path) => {
                match validate_path(path.as_str(), allowed_paths, resolved_allowed, &resolved_sources[i]) {
                    Err(e) => {
                        let mut m = String::from_str("Volume source error: ");
                        m.append(e.as_str());
                        assert(here == Some(m@));
                        return Err(m);
                    },
                    Ok(_) => {
                        assert(here is None);
                    },
                }
            },
            None => {
                assert(here is None);
            },
        }
        i += 1;
    }
    Ok(())
}

/// A path that passes the check is absolute, free of `..` components,
/// resolved, and under some entry of the allowlist.
pub proof fn lemma_accepted_path_is_contained(
    path: Seq<char>,
    allowed: Seq<String>,
    resolved: Seq<Option<String>>,
    candidate: Result<String, String>,
)
    requires
        path_verdict(path, allowed, resolved, candidate) is Ok,
    ensures
        is_absolute(path),
        !has_parent_dir(path),
        candidate matches Ok(c) && allowed_by(allowed, resolved, c@),
{
}

} // verus!
