//! Hydrating a bundle from its lockfile: where each staged artifact goes,
//! which staged artifacts serve as package caches, and the command lines
//! of the Python and Node installers.

use vstd::prelude::*;
use crate::lockfile::UrlEntry;
use crate::path_guard::{components_of, path_components};
use crate::text::{opt_view, push_str, str_eq, strs_view};

verus! {

// ---------------------------------------------------------------------------
// Artifact paths

/// What `url::Url::parse` followed by the last of `path_segments` gives for
/// a text: the parser's message, or the last segment (`None` for a URL that
/// cannot be a base and so has no segments).
pub uninterp spec fn url_last_segment(s: Seq<char>) -> Result<Option<Seq<char>>, Seq<char>>;

/// The plain view of a segment lookup.
pub open spec fn segment_view(r: Result<Option<String>, String>) -> Result<Option<Seq<char>>, Seq<char>> {
    match r {
        Ok(Some(s)) => Ok(Some(s@)),
        Ok(None) => Ok(None),
        Err(e) => Err(e@),
    }
}

/// `url::Url::parse` on `s`, then the last item of `Url::path_segments`. The
/// result is a function of `s` alone, named `url_last_segment`.
#[verifier::external_body]
fn last_url_segment(s: &str) -> (r: Result<Option<String>, String>)
    ensures
        segment_view(r) == url_last_segment(s@),
{
    match url::Url::parse(s) {
        Ok(u) => Ok(u.path_segments().and_then(|mut p| p.next_back()).map(|x| x.to_owned())),
        Err(e) => Err(e.to_string()),
    }
}

/// Where an artifact sits below the bundle's artifact directory (and below
/// the cache): its non-empty `filename`, else the last segment of its URL's
/// path, which must be non-empty.
pub open spec fn artifact_path_spec(
    url: Seq<char>,
    filename: Option<Seq<char>>,
    segment: Result<Option<Seq<char>>, Seq<char>>,
) -> Result<Seq<char>, Seq<char>> {
    match filename {
        Some(f) if f.len() > 0 => Ok(f),
        _ => match segment {
            Err(e) => Err("Invalid artifact URL "@ + url + ": "@ + e),
            Ok(Some(seg)) if seg.len() > 0 => Ok(seg),
            _ => Err("Artifact URL missing filename: "@ + url),
        },
    }
}

/// Whether a `Result<String, String>` is a given plain result.
pub open spec fn string_result_is(r: Result<String, String>, s: Result<Seq<char>, Seq<char>>) -> bool {
    match (r, s) {
        (Ok(a), Ok(b)) => a@ == b,
        (Err(a), Err(b)) => a@ == b,
        _ => false,
    }
}

/// The relative path of an artifact (see `artifact_path_spec`).
pub fn artifact_relative_path(entry: &UrlEntry) -> (r: Result<String, String>)
    ensures
        string_result_is(
            r,
            artifact_path_spec(entry.url@, opt_view(entry.filename), url_last_segment(entry.url@)),
        ),
{
    match &entry.filename {
        Some(f) => {
            if !f.as_str().is_empty() {
                return Ok(f.clone());
            }
        },
        None => {},
    }
    match last_url_segment(entry.url.as_str()) {
        Err(e) => {
            let mut m = String::from_str("Invalid artifact URL ");
            m.append(entry.url.as_str());
            m.append(": ");
            m.append(e.as_str());
            Err(m)
        },
        Ok(Some(seg)) => {
            if seg.as_str().is_empty() {
                let mut m = String::from_str("Artifact URL missing filename: ");
                m.append(entry.url.as_str());
                Err(m)
            } else {
                Ok(seg)
            }
        },
        Ok(None) => {
            let mut m = String::from_str("Artifact URL missing filename: ");
            m.append(entry.url.as_str());
            Err(m)
        },
    }
}

// ---------------------------------------------------------------------------
// Package caches among the staged artifacts

/// An artifact is a cache of `kind` (`uv-cache`, `pnpm-store`, `yarn-cache`,
/// `bun-cache`) when its type, its filename or its relative path says so.
pub open spec fn artifact_is(entry: UrlEntry, rel: Seq<char>, kind: Seq<char>) -> bool {
    opt_view(entry.artifact_type) == Some(kind) || opt_view(entry.filename) == Some(kind) || rel == kind
}

/// The relative path of the first artifact that is a cache of `kind`.
pub open spec fn first_of_kind(entries: Seq<UrlEntry>, rels: Seq<Seq<char>>, kind: Seq<char>) -> Option<Seq<char>>
    decreases entries.len(),
{
    if entries.len() == 0 || rels.len() == 0 {
        None
    } else if artifact_is(entries[0], rels[0], kind) {
        Some(rels[0])
    } else {
        first_of_kind(entries.drop_first(), rels.drop_first(), kind)
    }
}

/// The staged artifacts that serve as package caches, by relative path.
#[derive(Debug)]
pub struct StagedArtifacts {
    pub python_cache_dir: Option<String>,
    pub pnpm_store_dir: Option<String>,
    pub yarn_cache_dir: Option<String>,
    pub bun_cache_dir: Option<String>,
}

fn opt_str_is(o: &Option<String>, s: &str) -> (r: bool)
    ensures
        r == (opt_view(*o) == Some(s@)),
{
    match o {
        Some(x) => str_eq(x.as_str(), s),
        None => false,
    }
}

fn is_kind(entry: &UrlEntry, rel: &str, kind: &str) -> (r: bool)
    ensures
        r == artifact_is(*entry, rel@, kind@),
{
    opt_str_is(&entry.artifact_type, kind) || opt_str_is(&entry.filename, kind) || str_eq(rel, kind)
}

fn first_kind(entries: &Vec<UrlEntry>, rels: &Vec<String>, kind: &str) -> (r: Option<String>)
    requires
        entries@.len() == rels@.len(),
    ensures
        opt_view(r) == first_of_kind(entries@, strs_view(rels@), kind@),
{
    let ghost rv = strs_view(rels@);
    let mut i: usize = 0;
    assert(entries@.skip(0) =~= entries@);
    assert(rv.skip(0) =~= rv);
    while i < entries.len()
        invariant
            entries@.len() == rels@.len(),
            rv == strs_view(rels@),
            i <= entries@.len(),
            first_of_kind(entries@, rv, kind@) == first_of_kind(entries@.skip(i as int), rv.skip(i as int), kind@),
        decreases entries@.len() - i,
    {
        assert(entries@.skip(i as int)[0] == entries@[i as int]);
        assert(rv.skip(i as int)[0] == rels@[i as int]@);
        if is_kind(&entries[i], rels[i].as_str(), kind) {
            return Some(rels[i].clone());
        }
        assert(entries@.skip(i as int).drop_first() =~= entries@.skip(i + 1));
        assert(rv.skip(i as int).drop_first() =~= rv.skip(i + 1));
        i += 1;
    }
    None
}

/// Which staged artifacts are the caches: for each kind, the first artifact
/// of that kind, given the artifacts and their relative paths.
pub fn staged_artifacts(entries: &Vec<UrlEntry>, rels: &Vec<String>) -> (r: StagedArtifacts)
    requires
        entries@.len() == rels@.len(),
    ensures
        opt_view(r.python_cache_dir) == first_of_kind(entries@, strs_view(rels@), "uv-cache"@),
        opt_view(r.pnpm_store_dir) == first_of_kind(entries@, strs_view(rels@), "pnpm-store"@),
        opt_view(r.yarn_cache_dir) == first_of_kind(entries@, strs_view(rels@), "yarn-cache"@),
        opt_view(r.bun_cache_dir) == first_of_kind(entries@, strs_view(rels@), "bun-cache"@),
{
    StagedArtifacts {
        python_cache_dir: first_kind(entries, rels, "uv-cache"),
        pnpm_store_dir: first_kind(entries, rels, "pnpm-store"),
        yarn_cache_dir: first_kind(entries, rels, "yarn-cache"),
        bun_cache_dir: first_kind(entries, rels, "bun-cache"),
    }
}

// ---------------------------------------------------------------------------
// Node

/// `Path::file_name`: the last component when it is a name (not the root,
/// `.` or `..`).
pub open spec fn file_name_of(p: Seq<char>) -> Option<Seq<char>> {
    let c = path_components(p);
    if c.len() > 0 && c.last() != "/"@ && c.last() != "."@ && c.last() != ".."@ {
        Some(c.last())
    } else {
        None
    }
}

/// The name of the Node lockfile: the file name of its path, else
/// `pnpm-lock.yaml`.
pub open spec fn node_lockfile_name_spec(path: Seq<char>) -> Seq<char> {
    match file_name_of(path) {
        Some(n) => n,
        None => "pnpm-lock.yaml"@,
    }
}

/// The file name of the Node lockfile's path, else `pnpm-lock.yaml`.
pub fn node_lockfile_name(path: &str) -> (r: String)
    ensures
        r@ == node_lockfile_name_spec(path@),
{
    let c = components_of(path);
    let n = c.len();
    if n > 0 {
        let last = &c[n - 1];
        if !str_eq(last.as_str(), "/") && !str_eq(last.as_str(), ".") && !str_eq(last.as_str(), "..") {
            return last.clone();
        }
    }
    "pnpm-lock.yaml".to_owned()
}

/// The Node package manager that installs a bundle's dependencies.
#[derive(Debug, Clone, Copy, PartialEq, Eq, Structural)]
pub enum NodeInstaller {
    Yarn,
    Bun,
    Pnpm,
}

/// The package manager for a lockfile name: `yarn.lock` is Yarn's,
/// `bun.lock` and `bun.lockb` are Bun's, anything else is pnpm's.
pub open spec fn installer_for(name: Seq<char>) -> NodeInstaller {
    if name == "yarn.lock"@ {
        NodeInstaller::Yarn
    } else if name == "bun.lock"@ || name == "bun.lockb"@ {
        NodeInstaller::Bun
    } else {
        NodeInstaller::Pnpm
    }
}

/// The package manager for a lockfile name.
pub fn node_installer(lockfile_name: &str) -> (r: NodeInstaller)
    ensures
        r == installer_for(lockfile_name@),
{
    if str_eq(lockfile_name, "yarn.lock") {
        NodeInstaller::Yarn
    } else if str_eq(lockfile_name, "bun.lock") || str_eq(lockfile_name, "bun.lockb") {
        NodeInstaller::Bun
    } else {
        NodeInstaller::Pnpm
    }
}

/// The arguments of `yarn install` after the program's own prefix: a frozen
/// lockfile, and the staged cache folder where there is one.
pub open spec fn yarn_install_args_spec(cache: Option<Seq<char>>) -> Seq<Seq<char>> {
    seq!["install"@, "--frozen-lockfile"@] + match cache {
        Some(c) => seq!["--cache-folder"@, c],
        None => Seq::empty(),
    }
}

/// The arguments of `yarn install`.
pub fn yarn_install_args(cache: &Option<String>) -> (r: Vec<String>)
    ensures
        strs_view(r@) == yarn_install_args_spec(opt_view(*cache)),
{
    let mut out: Vec<String> = Vec::new();
    push_str(&mut out, "install");
    push_str(&mut out, "--frozen-lockfile");
    match cache {
        Some(c) => {
            push_str(&mut out, "--cache-folder");
            push_str(&mut out, c.as_str());
        },
        None => {},
    }
    assert(strs_view(out@) =~= yarn_install_args_spec(opt_view(*cache)));
    out
}

/// The arguments of `bun install`; a staged cache goes to the environment
/// (`BUN_INSTALL_CACHE_DIR`), not the arguments.
pub fn bun_install_args() -> (r: Vec<String>)
    ensures
        strs_view(r@) == seq!["install"@, "--frozen-lockfile"@],
{
    let mut out: Vec<String> = Vec::new();
    push_str(&mut out, "install");
    push_str(&mut out, "--frozen-lockfile");
    assert(strs_view(out@) =~= seq!["install"@, "--frozen-lockfile"@]);
    out
}

/// The store pnpm uses: the staged store, else `pnpm-store` in the cache.
pub open spec fn pnpm_store_spec(staged: Option<Seq<char>>, default_store: Seq<char>) -> Seq<char> {
    match staged {
        Some(s) => s,
        None => default_store,
    }
}

/// The arguments of `pnpm fetch`, which fills the store first when no store
/// was staged (`None` when one was).
pub open spec fn pnpm_fetch_args_spec(staged: Option<Seq<char>>, store: Seq<char>) -> Option<Seq<Seq<char>>> {
    match staged {
        Some(_) => None,
        None => Some(seq!["fetch"@, "--store-dir"@, store]),
    }
}

/// The arguments of `pnpm install`: scripts ignored, a frozen lockfile,
/// forced, the store; offline when the store was staged.
pub open spec fn pnpm_install_args_spec(staged: bool, store: Seq<char>) -> Seq<Seq<char>> {
    seq!["install"@, "--ignore-scripts"@, "--frozen-lockfile"@, "--force"@, "--store-dir"@, store] + if staged {
        seq!["--offline"@]
    } else {
        Seq::empty()
    }
}

/// pnpm's store, and the `fetch` and `install` arguments that use it.
pub fn pnpm_commands(staged: &Option<String>, default_store: &str) -> (r: (String, Option<Vec<String>>, Vec<String>))
    ensures
        r.0@ == pnpm_store_spec(opt_view(*staged), default_store@),
        match (r.1, pnpm_fetch_args_spec(opt_view(*staged), r.0@)) {
            (Some(a), Some(b)) => strs_view(a@) == b,
            (None, None) => true,
            _ => false,
        },
        strs_view(r.2@) == pnpm_install_args_spec(staged is Some, r.0@),
{
    let store = match staged {
        Some(s) => s.clone(),
        None => default_store.to_owned(),
    };
    let fetch = match staged {
        Some(_) => None,
        None => {
            let mut f: Vec<String> = Vec::new();
            push_str(&mut f, "fetch");
            push_str(&mut f, "--store-dir");
            push_str(&mut f, store.as_str());
            assert(strs_view(f@) =~= seq!["fetch"@, "--store-dir"@, store@]);
            Some(f)
        },
    };
    let mut install: Vec<String> = Vec::new();
    push_str(&mut install, "install");
    push_str(&mut install, "--ignore-scripts");
    push_str(&mut install, "--frozen-lockfile");
    push_str(&mut install, "--force");
    push_str(&mut install, "--store-dir");
    push_str(&mut install, store.as_str());
    if staged.is_some() {
        push_str(&mut install, "--offline");
    }
    assert(strs_view(install@) =~= pnpm_install_args_spec(staged is Some, store@));
    (store, fetch, install)
}

// ---------------------------------------------------------------------------
// Python

/// The arguments of `uv sync` for a project with a `pyproject.toml`:
/// frozen, without installing the project, offline when a cache was staged.
pub open spec fn uv_sync_args_spec(offline: bool) -> Seq<Seq<char>> {
    seq!["sync"@, "--frozen"@, "--no-install-project"@] + if offline {
        seq!["--offline"@]
    } else {
        Seq::empty()
    }
}

/// The arguments of `uv sync`.
pub fn uv_sync_args(offline: bool) -> (r: Vec<String>)
    ensures
        strs_view(r@) == uv_sync_args_spec(offline),
{
    let mut out: Vec<String> = Vec::new();
    push_str(&mut out, "sync");
    push_str(&mut out, "--frozen");
    push_str(&mut out, "--no-install-project");
    if offline {
        push_str(&mut out, "--offline");
    }
    assert(strs_view(out@) =~= uv_sync_args_spec(offline));
    out
}

/// The arguments of `uv venv` for a project with only a `uv.lock`: offline
/// when a cache was staged, the existing environment allowed, the Python
/// runtime where one was fetched, then the environment's path.
pub open spec fn uv_venv_args_spec(offline: bool, python: Option<Seq<char>>, venv: Seq<char>) -> Seq<Seq<char>> {
    (if offline {
        seq!["--offline"@]
    } else {
        Seq::empty()
    }) + seq!["venv"@, "--allow-existing"@] + match python {
        Some(p) => seq!["--python"@, p],
        None => Seq::empty(),
    } + seq![venv]
}

/// The arguments of `uv venv`.
pub fn uv_venv_args(offline: bool, python: &Option<String>, venv: &str) -> (r: Vec<String>)
    ensures
        strs_view(r@) == uv_venv_args_spec(offline, opt_view(*python), venv@),
{
    let mut out: Vec<String> = Vec::new();
    if offline {
        push_str(&mut out, "--offline");
    }
    push_str(&mut out, "venv");
    push_str(&mut out, "--allow-existing");
    match python {
        Some(p) => {
            push_str(&mut out, "--python");
            push_str(&mut out, p.as_str());
        },
        None => {},
    }
    push_str(&mut out, venv);
    assert(strs_view(out@) =~= uv_venv_args_spec(offline, opt_view(*python), venv@));
    out
}

/// The arguments of `uv pip sync`: offline when a cache was staged, then
/// the lockfile and the environment's interpreter.
pub open spec fn uv_pip_sync_args_spec(offline: bool, lock: Seq<char>, python: Seq<char>) -> Seq<Seq<char>> {
    (if offline {
        seq!["--offline"@]
    } else {
        Seq::empty()
    }) + seq!["pip"@, "sync"@, lock, "--python"@, python]
}

/// The arguments of `uv pip sync`.
pub fn uv_pip_sync_args(offline: bool, lock: &str, python: &str) -> (r: Vec<String>)
    ensures
        strs_view(r@) == uv_pip_sync_args_spec(offline, lock@, python@),
{
    let mut out: Vec<String> = Vec::new();
    if offline {
        push_str(&mut out, "--offline");
    }
    push_str(&mut out, "pip");
    push_str(&mut out, "sync");
    push_str(&mut out, lock);
    push_str(&mut out, "--python");
    push_str(&mut out, python);
    assert(strs_view(out@) =~= uv_pip_sync_args_spec(offline, lock@, python@));
    out
}

/// The interpreter inside a virtual environment, relative to it:
/// `Scripts/python.exe` on Windows, `bin/python` elsewhere.
pub fn venv_python_parts(windows: bool) -> (r: (String, String))
    ensures
        windows ==> r.0@ == "Scripts"@ && r.1@ == "python.exe"@,
        !windows ==> r.0@ == "bin"@ && r.1@ == "python"@,
{
    if windows {
        ("Scripts".to_owned(), "python.exe".to_owned())
    } else {
        ("bin".to_owned(), "python".to_owned())
    }
}

} // verus!
