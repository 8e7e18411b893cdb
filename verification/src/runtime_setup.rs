//! Resolving the `[runtime]` section of the configuration into a concrete
//! runtime: its kind, its binary and its directories.

use vstd::prelude::*;
use crate::runtime::{
    kind_binaries, parse_runtime_kind, RuntimeConfig, RuntimeError, RuntimeKind, RuntimeSection,
    DEFAULT_HOOK_RETRY_ATTEMPTS,
};
use crate::runtime_config::which_binary;
use crate::sandbox::{path_parent, path_parent_of};
use crate::storage::{join_path, path_join};
use crate::text::{chars_of, contains_seq, find_from, opt_view, push_str, strs_view};

verus! {

/// What `std::path::Path::file_stem` gives for a path, as text: the file
/// name without its last extension, `None` where there is no file name.
pub uninterp spec fn path_file_stem_of(p: Seq<char>) -> Option<Seq<char>>;

/// `Path::file_stem`, on a path held as text; the result is named, not spelled out.
#[verifier::external_body]
fn path_file_stem(p: &str) -> (r: Option<String>)
    ensures
        opt_view(r) == path_file_stem_of(p@),
{
    std::path::Path::new(p).file_stem().map(|s| s.to_string_lossy().into_owned())
}

/// What `format!("{:?}", Path::new(p))` writes: the path quoted and escaped.
pub uninterp spec fn path_debug_of(p: Seq<char>) -> Seq<char>;

/// The `Debug` text of a path; the escaping rules are not spelled out.
#[verifier::external_body]
fn path_debug(p: &str) -> (r: String)
    ensures
        r@ == path_debug_of(p@),
{
    format!("{:?}", std::path::Path::new(p))
}

/// The kind a binary's path names: a file stem of `mock_runtime`, or a kind
/// name (`infer_kind_from_path`).
pub open spec fn kind_of_path(path: Seq<char>) -> Option<RuntimeKind> {
    match path_file_stem_of(path) {
        Some(stem) => if stem == "mock_runtime"@ {
            Some(RuntimeKind::Mock)
        } else {
            parse_runtime_kind(stem)
        },
        None => None,
    }
}

/// The kind of a binary: from its name, or `Mock` where the path mentions `mock_runtime`.
pub open spec fn inferred_kind(path: Seq<char>) -> Option<RuntimeKind> {
    match kind_of_path(path) {
        Some(k) => Some(k),
        None => if contains_seq(path, "mock_runtime"@) {
            Some(RuntimeKind::Mock)
        } else {
            None
        },
    }
}

/// The kind a binary's path names.
pub fn infer_kind_from_path(path: &str) -> (r: Option<RuntimeKind>)
    ensures
        r == kind_of_path(path@),
{
    match path_file_stem(path) {
        Some(stem) => {
            if crate::text::str_eq(stem.as_str(), "mock_runtime") {
                Some(RuntimeKind::Mock)
            } else {
                RuntimeKind::from_str(stem.as_str())
            }
        },
        None => None,
    }
}

/// What a search of the `PATH` found for each kind's binary.
#[derive(Debug)]
pub struct FoundBinaries {
    pub youki: Option<String>,
    pub runc: Option<String>,
    pub mock: Option<String>,
}

/// What was found for a kind; the internal kinds have no binary.
pub open spec fn found_for(kind: RuntimeKind, found: FoundBinaries) -> Option<Seq<char>> {
    match kind {
        RuntimeKind::Youki => opt_view(found.youki),
        RuntimeKind::Runc => opt_view(found.runc),
        RuntimeKind::Mock => opt_view(found.mock),
        _ => None,
    }
}

/// Where the runtime's directories go by default: the parent of a
/// configured bundle root, else `$CAPSULED_HOME` (`home`), else
/// `capsuled` in the temporary directory.
pub open spec fn base_dir(bundle_root: Option<Seq<char>>, home: Option<Seq<char>>, temp_dir: Seq<char>) -> Seq<char> {
    match bundle_root {
        Some(b) => match path_parent_of(b) {
            Some(p) => p,
            None => match home {
                Some(h) => h,
                None => path_join(temp_dir, "capsuled"@),
            },
        },
        None => match home {
            Some(h) => h,
            None => path_join(temp_dir, "capsuled"@),
        },
    }
}

/// A configured directory, or `name` under the base directory.
pub open spec fn dir_or(configured: Option<Seq<char>>, base: Seq<char>, name: Seq<char>) -> Seq<char> {
    match configured {
        Some(d) => d,
        None => path_join(base, name),
    }
}

/// A failure of resolution, by views.
pub enum SetupFailure {
    NotFound(Seq<Seq<char>>),
    Invalid(Seq<char>),
}

/// The kind and binary: the preferred kind with the configured binary
/// (which must exist), the preferred kind with its binary found on the
/// `PATH`, the configured binary (which must exist) with the kind its name
/// tells, or else the first of youki, runc and the mock runtime found.
pub open spec fn kind_and_binary(
    preferred: Option<RuntimeKind>,
    binary: Option<Seq<char>>,
    binary_exists: bool,
    found: FoundBinaries,
) -> Result<(RuntimeKind, Seq<char>), SetupFailure> {
    match (preferred, binary) {
        (Some(k), Some(p)) => if binary_exists {
            Ok((k, p))
        } else {
            Err(SetupFailure::NotFound(seq![p]))
        },
        (Some(k), None) => match found_for(k, found) {
            Some(p) => Ok((k, p)),
            None => Err(SetupFailure::NotFound(kind_binaries(k))),
        },
        (None, Some(p)) => if !binary_exists {
            Err(SetupFailure::NotFound(seq![p]))
        } else {
            match inferred_kind(p) {
                Some(k) => Ok((k, p)),
                None => Err(
                    SetupFailure::Invalid(
                        "Failed to infer runtime kind from binary path "@ + path_debug_of(p)
                            + ". Specify runtime.preferred"@,
                    ),
                ),
            }
        },
        (None, None) => match opt_view(found.youki) {
            Some(p) => Ok((RuntimeKind::Youki, p)),
            None => match opt_view(found.runc) {
                Some(p) => Ok((RuntimeKind::Runc, p)),
                None => match opt_view(found.mock) {
                    Some(p) => Ok((RuntimeKind::Mock, p)),
                    None => Err(SetupFailure::NotFound(seq!["youki"@, "runc"@, "mock_runtime"@])),
                },
            },
        },
    }
}

/// A section field, by its view.
pub open spec fn field(s: Option<RuntimeSection>, f: spec_fn(RuntimeSection) -> Option<String>) -> Option<Seq<char>> {
    match s {
        Some(sec) => opt_view(f(sec)),
        None => None,
    }
}

/// A runtime configuration carries the resolved values.
pub open spec fn config_is(
    c: RuntimeConfig,
    section: Option<RuntimeSection>,
    kind: RuntimeKind,
    binary: Seq<char>,
    home: Option<Seq<char>>,
    temp_dir: Seq<char>,
) -> bool {
    let base = base_dir(field(section, |s: RuntimeSection| s.bundle_root), home, temp_dir);
    &&& c.kind == kind
    &&& c.binary_path@ == binary
    &&& c.bundle_root@ == dir_or(field(section, |s: RuntimeSection| s.bundle_root), base, "bundles"@)
    &&& c.state_root@ == dir_or(field(section, |s: RuntimeSection| s.state_root), base, "state"@)
    &&& c.log_dir@ == dir_or(field(section, |s: RuntimeSection| s.log_dir), base, "logs"@)
    &&& c.hook_retry_attempts == match section {
        Some(s) => match s.hook_retry_attempts {
            Some(n) => n,
            None => DEFAULT_HOOK_RETRY_ATTEMPTS,
        },
        None => DEFAULT_HOOK_RETRY_ATTEMPTS,
    }
}

/// The resolved configuration, or the error, as the section and the file
/// system and `PATH` lookups determine it.
pub open spec fn setup_outcome(
    r: Result<RuntimeConfig, RuntimeError>,
    section: Option<RuntimeSection>,
    binary_exists: bool,
    found: FoundBinaries,
    home: Option<Seq<char>>,
    temp_dir: Seq<char>,
) -> bool {
    let preferred = match section {
        Some(s) => match s.preferred {
            Some(p) => parse_runtime_kind(p@),
            None => None,
        },
        None => None,
    };
    match kind_and_binary(preferred, field(section, |s: RuntimeSection| s.binary_path), binary_exists, found) {
        Ok((k, b)) => r matches Ok(c) && config_is(c, section, k, b, home, temp_dir),
        Err(SetupFailure::NotFound(tried)) => r matches Err(RuntimeError::BinaryNotFound { tried: t })
            && strs_view(t@) == tried,
        Err(SetupFailure::Invalid(m)) => r matches Err(RuntimeError::InvalidConfig(msg)) && msg@ == m,
    }
}

/// The outcome is the resolution for what some `PATH` lookups found.
pub open spec fn setup_for_some_lookup(
    r: Result<RuntimeConfig, RuntimeError>,
    section: Option<RuntimeSection>,
    binary_exists: bool,
    home: Option<Seq<char>>,
    temp_dir: Seq<char>,
) -> bool {
    exists|found: FoundBinaries| #[trigger] setup_outcome(r, section, binary_exists, found, home, temp_dir)
}

fn copy_opt(o: &Option<String>) -> (r: Option<String>)
    ensures
        opt_view(r) == opt_view(*o),
{
    match o {
        Some(s) => Some(s.clone()),
        None => None,
    }
}

fn not_found(tried: &str) -> (r: RuntimeError)
    ensures
        r matches RuntimeError::BinaryNotFound { tried: t } && strs_view(t@) == seq![tried@],
{
    let mut t: Vec<String> = Vec::new();
    push_str(&mut t, tried);
    assert(strs_view(t@) =~= seq![tried@]);
    RuntimeError::BinaryNotFound { tried: t }
}

fn kind_lookup(kind: RuntimeKind, found: &FoundBinaries) -> (r: Option<String>)
    ensures
        opt_view(r) == found_for(kind, *found),
{
    match kind {
        RuntimeKind::Youki => copy_opt(&found.youki),
        RuntimeKind::Runc => copy_opt(&found.runc),
        RuntimeKind::Mock => copy_opt(&found.mock),
        _ => None,
    }
}

impl RuntimeConfig {
    /// Resolve the runtime configuration, given whether the configured
    /// binary exists, what the `PATH` holds for each kind's binary,
    /// `$CAPSULED_HOME` and the temporary directory.
    pub fn from_section_found(
        section: Option<&RuntimeSection>,
        binary_exists: bool,
        found: &FoundBinaries,
        capsuled_home: Option<String>,
        temp_dir: &str,
    ) -> (r: Result<RuntimeConfig, RuntimeError>)
        ensures
            setup_outcome(
                r,
                match section {
                    Some(s) => Some(*s),
                    None => None,
                },
                binary_exists,
                *found,
                opt_view(capsuled_home),
                temp_dir@,
            ),
    {
        let ghost sec = match section {
            Some(s) => Some(*s),
            None => None,
        };
        let preferred = match section {
            Some(s) => match &s.preferred {
                Some(p) => RuntimeKind::from_str(p.as_str()),
                None => None,
            },
            None => None,
        };
        let explicit: Option<String> = match section {
            Some(s) => copy_opt(&s.binary_path),
            None => None,
        };
        assert(opt_view(explicit) == field(sec, |s: RuntimeSection| s.binary_path));
        let (kind, binary) = match (preferred, explicit) {
            (Some(k), Some(p)) => {
                if binary_exists {
                    (k, p)
                } else {
                    return Err(not_found(p.as_str()));
                }
            },
            (Some(k), None) => match kind_lookup(k, found) {
                Some(p) => (k, p),
                None => {
                    let names = k.binary_candidates();
                    let mut t: Vec<String> = Vec::new();
                    let mut i: usize = 0;
                    while i < names.len()
                        invariant
                            i <= names@.len(),
                            names@.len() == kind_binaries(k).len(),
                            forall|j: int| 0 <= j < names@.len() ==> #[trigger] names@[j]@ == kind_binaries(k)[j],
                            strs_view(t@) == kind_binaries(k).take(i as int),
                        decreases names@.len() - i,
                    {
                        push_str(&mut t, names[i]);
                        assert(strs_view(t@) =~= kind_binaries(k).take(i + 1));
                        i += 1;
                    }
                    assert(kind_binaries(k).take(names@.len() as int) =~= kind_binaries(k));
                    return Err(RuntimeError::BinaryNotFound { tried: t });
                },
            },
            (None, Some(p)) => {
                if !binary_exists {
                    return Err(not_found(p.as_str()));
                }
                let k = match infer_kind_from_path(p.as_str()) {
                    Some(k) => k,
                    None => {
                        let v = chars_of(p.as_str());
                        let needle = chars_of("mock_runtime");
                        assert(v@.skip(0) =~= v@);
                        if find_from(&v, &needle, 0).is_some() {
                            RuntimeKind::Mock
                        } else {
                            let mut m = String::from_str("Failed to infer runtime kind from binary path ");
                            let d = path_debug(p.as_str());
                            m.append(d.as_str());
                            m.append(". Specify runtime.preferred");
                            return Err(RuntimeError::InvalidConfig(m));
                        }
                    },
                };
                (k, p)
            },
            (None, None) => match copy_opt(&found.youki) {
                Some(p) => (RuntimeKind::Youki, p),
                None => match copy_opt(&found.runc) {
                    Some(p) => (RuntimeKind::Runc, p),
                    None => match copy_opt(&found.mock) {
                        Some(p) => (RuntimeKind::Mock, p),
                        None => {
                            let mut t: Vec<String> = Vec::new();
                            push_str(&mut t, "youki");
                            push_str(&mut t, "runc");
                            push_str(&mut t, "mock_runtime");
                            assert(strs_view(t@) =~= seq!["youki"@, "runc"@, "mock_runtime"@]);
                            return Err(RuntimeError::BinaryNotFound { tried: t });
                        },
                    },
                },
            },
        };
        let configured_bundle: Option<String> = match section {
            Some(s) => copy_opt(&s.bundle_root),
            None => None,
        };
        let fallback = match &capsuled_home {
            Some(h) => h.clone(),
            None => join_path(temp_dir, "capsuled"),
        };
        let base = match &configured_bundle {
            Some(b) => match path_parent(b.as_str()) {
                Some(p) => p,
                None => fallback,
            },
            None => fallback,
        };
        let bundle_root = match configured_bundle {
            Some(b) => b,
            None => join_path(base.as_str(), "bundles"),
        };
        let state_root = match section {
            Some(s) => match &s.state_root {
                Some(d) => d.clone(),
                None => join_path(base.as_str(), "state"),
            },
            None => join_path(base.as_str(), "state"),
        };
        let log_dir = match section {
            Some(s) => match &s.log_dir {
                Some(d) => d.clone(),
                None => join_path(base.as_str(), "logs"),
            },
            None => join_path(base.as_str(), "logs"),
        };
        let hook_retry_attempts = match section {
            Some(s) => match s.hook_retry_attempts {
                Some(n) => n,
                None => DEFAULT_HOOK_RETRY_ATTEMPTS,
            },
            None => DEFAULT_HOOK_RETRY_ATTEMPTS,
        };
        Ok(RuntimeConfig { kind, binary_path: binary, bundle_root, state_root, log_dir, hook_retry_attempts })
    }

    /// Resolve the runtime configuration (`from_section`). The names
    /// `youki`, `runc` and `mock_runtime` are looked up on the `PATH` and the
    /// result is `from_section_found` for what those lookups gave; whether
    /// the configured binary exists, `$CAPSULED_HOME` and the temporary
    /// directory are given. What a lookup finds depends on the environment,
    /// so the contract holds for every outcome of the three lookups.
    pub fn from_section(
        section: Option<&RuntimeSection>,
        binary_exists: bool,
        capsuled_home: Option<String>,
        temp_dir: &str,
    ) -> (r: Result<RuntimeConfig, RuntimeError>)
        ensures
            setup_for_some_lookup(
                r,
                match section {
                    Some(s) => Some(*s),
                    None => None,
                },
                binary_exists,
                opt_view(capsuled_home),
                temp_dir@,
            ),
    {
        let found = FoundBinaries {
            youki: which_binary("youki"),
            runc: which_binary("runc"),
            mock: which_binary("mock_runtime"),
        };
        let r = Self::from_section_found(section, binary_exists, &found, capsuled_home, temp_dir);
        r
    }
}

} // verus!
