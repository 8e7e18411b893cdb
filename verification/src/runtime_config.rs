//! The runtime configuration of a bundle (`config.json`) and how its
//! services are started: paths resolved against the bundle, start order and
//! health checks.

use vstd::prelude::*;
use crate::deps::{dependency_order, names_ascending, no_deps, deps_known, gview, has_cycle, is_dependency_order, is_genuine_error, names_distinct, resolve_order};
use crate::readiness::{parse_u16, parse_u16_exec};
use crate::storage::{join_path, path_join};
use crate::strmap::{keys_distinct, StrMap};
use crate::text::{
    chars_of, contains_seq, copy_strings, find_from, matches_at, starts_with, string_of_range, strs_view, trim,
    trim_str, find_first, lemma_find_first_bounds,
};

verus! {

#[derive(Debug)]
pub struct RuntimeConfig {
    pub version: String,
    pub services: StrMap<ServiceConfig>,
    pub sandbox: SandboxConfig,
    pub metadata: Option<MetadataConfig>,
}

#[derive(Debug)]
pub struct ServiceConfig {
    pub executable: String,
    pub args: Vec<String>,
    pub cwd: Option<String>,
    pub env: Option<StrMap<String>>,
    pub signals: Option<SignalsConfig>,
    pub depends_on: Option<Vec<String>>,
    pub health_check: Option<HealthCheck>,
    pub ports: Option<StrMap<u16>>,
}

#[derive(Debug)]
pub struct SignalsConfig {
    pub stop: String,
    pub kill: String,
}

#[derive(Debug)]
pub struct HealthCheck {
    pub http_get: Option<String>,
    pub tcp_connect: Option<String>,
    pub port: String,
    pub interval_secs: Option<u32>,
    pub timeout_secs: Option<u32>,
}

#[derive(Debug)]
pub struct SandboxConfig {
    pub enabled: bool,
    pub filesystem: Option<FilesystemConfig>,
    pub network: NetworkConfig,
    pub development_mode: Option<bool>,
}

#[derive(Debug)]
pub struct FilesystemConfig {
    pub read_only: Option<Vec<String>>,
    pub read_write: Option<Vec<String>>,
}

#[derive(Debug)]
pub struct NetworkConfig {
    pub enabled: bool,
    pub allow_domains: Option<Vec<String>>,
    pub enforcement: String,
    pub egress: Option<EgressConfig>,
}

#[derive(Debug)]
pub struct EgressConfig {
    pub mode: String,
    pub rules: Option<Vec<EgressRuleEntry>>,
}

#[derive(Debug)]
pub struct EgressRuleEntry {
    pub rule_type: String,
    pub value: String,
}

#[derive(Debug)]
pub struct MetadataConfig {
    pub name: Option<String>,
    pub version: Option<String>,
    pub generated_at: Option<String>,
    pub generated_by: Option<String>,
    pub source_manifest: Option<String>,
}

// ---------------------------------------------------------------------------
// Start order

pub open spec fn config_deps(s: ServiceConfig) -> Seq<Seq<char>> {
    match s.depends_on {
        Some(v) => strs_view(v@),
        None => Seq::empty(),
    }
}

/// The dependency graph of the configured services, in entry order.
pub open spec fn config_graph(m: StrMap<ServiceConfig>) -> Seq<(Seq<char>, Seq<Seq<char>>)> {
    Seq::new(m.entries().len(), |i: int| (m.entries()[i].0@, config_deps(m.entries()[i].1)))
}

/// The order in which to start the services: dependencies first; an unknown
/// or circular dependency is an error.
pub fn resolve_dependencies(services: &StrMap<ServiceConfig>) -> (r: Result<Vec<String>, String>)
    ensures
        r is Ok <==> deps_known(config_graph(*services)) && !has_cycle(config_graph(*services)),
        r matches Ok(v) ==> is_dependency_order(config_graph(*services), strs_view(v@)),
        r matches Err(m) ==> is_genuine_error(config_graph(*services), m@),
        no_deps(config_graph(*services)) ==> (r matches Ok(v) && names_ascending(strs_view(v@))),
        dependency_order(config_graph(*services)) == match r {
            Ok(v) => Ok::<Seq<Seq<char>>, Seq<char>>(strs_view(v@)),
            Err(m) => Err(m@),
        },
{
    let n = services.len();
    let ghost e = services.entries();
    let mut g: Vec<(String, Vec<String>)> = Vec::new();
    let mut i: usize = 0;
    while i < n
        invariant
            n == e.len(),
            e == services.entries(),
            i <= n,
            g@.len() == i,
            forall|k: int| 0 <= k < i ==> (#[trigger] g@[k]).0@ == e[k].0@ && strs_view(g@[k].1@) == config_deps(e[k].1),
        decreases n - i,
    {
        let (name, spec) = services.entry_at(i);
        let deps = match &spec.depends_on {
            Some(d) => copy_strings(d),
            None => Vec::new(),
        };
        assert(strs_view(deps@) =~= config_deps(*spec));
        let ghost g0 = g@;
        g.push((name.clone(), deps));
        assert(g@ == g0.push(g@[i as int]));
        i += 1;
    }
    assert(gview(g@) =~= config_graph(*services));
    assert(names_distinct(gview(g@))) by {
        assert forall|a: int, b: int|
            0 <= a < gview(g@).len() && 0 <= b < gview(g@).len() && a != b implies #[trigger] gview(
            g@,
        )[a].0 != #[trigger] gview(g@)[b].0 by {
            assert(e[a].0@ != e[b].0@);
        }
    }
    resolve_order(&g)
}

// ---------------------------------------------------------------------------
// Paths in the bundle

/// `which::which`: the first executable of that name on the `PATH`, if any.
/// The answer depends on the environment and the file system, so nothing is
/// stated of it.
#[verifier::external_body]
pub(crate) fn which_binary(name: &str) -> (r: Option<String>) {
    match which::which(name) {
        Ok(p) => Some(p.to_string_lossy().into_owned()),
        Err(_) => None,
    }
}

/// A path from the configuration, given what a search of the `PATH` found
/// for it: absolute paths stay; a bare name found on the `PATH` is that
/// binary; anything else lies in the bundle.
pub open spec fn resolved_path(bundle_root: Seq<char>, path: Seq<char>, found: Option<Seq<char>>) -> Seq<char> {
    let t = trim(path);
    if starts_with(t, "/"@) {
        t
    } else if !contains_seq(t, seq!['/']) && found is Some {
        found.unwrap()
    } else {
        path_join(bundle_root, t)
    }
}

fn has_slash(s: &str) -> (b: bool)
    ensures
        b == contains_seq(s@, seq!['/']),
{
    let v = chars_of(s);
    let c = vec!['/'];
    assert(c@ =~= seq!['/']);
    assert(v@.skip(0) =~= v@);
    find_from(&v, &c, 0).is_some()
}

fn starts_with_str(s: &str, p: &str) -> (b: bool)
    ensures
        b == starts_with(s@, p@),
{
    let v = chars_of(s);
    let pv = chars_of(p);
    assert(v@.skip(0) =~= v@);
    matches_at(&v, 0, &pv)
}

/// A bare executable name (no `/` anywhere once trimmed) is the binary the
/// `PATH` search found for it, when it found one; only when nothing was
/// found does it lie in the bundle.
pub proof fn lemma_bare_name_taken_from_path(bundle_root: Seq<char>, path: Seq<char>, f: Seq<char>)
    requires
        forall|i: int| 0 <= i < trim(path).len() ==> trim(path)[i] != '/',
    ensures
        resolved_path(bundle_root, path, Some(f)) == f,
        resolved_path(bundle_root, path, None) == path_join(bundle_root, trim(path)),
{
    let t = trim(path);
    reveal_strlit("/");
    if starts_with(t, "/"@) {
        assert(t.take(1)[0] == t[0]);
    }
    lemma_find_first_bounds(t, seq!['/']);
    if contains_seq(t, seq!['/']) {
        let k = find_first(t, seq!['/']).unwrap();
        assert(t.subrange(k, k + 1)[0] == t[k]);
    }
}

/// An absolute path is kept as written (trimmed), and a relative path with
/// a `/` lies in the bundle, whatever the `PATH` search found.
pub proof fn lemma_paths_with_slash_ignore_search(
    bundle_root: Seq<char>,
    path: Seq<char>,
    found: Option<Seq<char>>,
    k: int,
)
    requires
        0 <= k < trim(path).len(),
        trim(path)[k] == '/',
    ensures
        trim(path)[0] == '/' ==> resolved_path(bundle_root, path, found) == trim(path),
        trim(path)[0] != '/' ==> resolved_path(bundle_root, path, found) == path_join(bundle_root, trim(path)),
{
    let t = trim(path);
    reveal_strlit("/");
    if t[0] == '/' {
        assert(t.take(1) =~= "/"@);
    } else {
        if starts_with(t, "/"@) {
            assert(t.take(1)[0] == t[0]);
        }
        assert(find_first(t, seq!['/']) is Some) by {
            lemma_first_slash_found(t, k);
        }
    }
}

proof fn lemma_first_slash_found(t: Seq<char>, k: int)
    requires
        0 <= k < t.len(),
        t[k] == '/',
    ensures
        find_first(t, seq!['/']) is Some,
    decreases t.len(),
{
    if t.take(1) =~= seq!['/'] {
    } else {
        assert(k > 0) by {
            if k == 0 {
                assert(t.take(1) =~= seq!['/']);
            }
        }
        lemma_first_slash_found(t.drop_first(), k - 1);
    }
}

/// Whether the trimmed path is a bare name that the `PATH` is searched for.
pub open spec fn searched_on_path(path: Seq<char>) -> bool {
    !starts_with(trim(path), "/"@) && !contains_seq(trim(path), seq!['/'])
}

pub fn resolve_path_given(bundle_root: &str, path: &str, found: Option<&str>) -> (r: String)
    ensures
        r@ == resolved_path(bundle_root@, path@, match found {
            Some(f) => Some(f@),
            None => None,
        }),
{
    let t = trim_str(path);
    if starts_with_str(t.as_str(), "/") {
        return t;
    }
    if !has_slash(t.as_str()) {
        if let Some(f) = found {
            return f.to_owned();
        }
    }
    join_path(bundle_root, t.as_str())
}

/// Resolve a path from the configuration, searching the `PATH` for a bare
/// name.
pub fn resolve_path(bundle_root: &str, path: &str) -> (r: String)
    ensures
        !searched_on_path(path@) ==> r@ == resolved_path(bundle_root@, path@, None),
        searched_on_path(path@) ==> (r@ == resolved_path(bundle_root@, path@, None) || exists|f: Seq<char>|
            r@ == resolved_path(bundle_root@, path@, Some(f))),
{
    let t = trim_str(path);
    let found = if !starts_with_str(t.as_str(), "/") && !has_slash(t.as_str()) {
        which_binary(t.as_str())
    } else {
        None
    };
    match found {
        Some(f) => resolve_path_given(bundle_root, path, Some(f.as_str())),
        None => resolve_path_given(bundle_root, path, None),
    }
}

/// `str::trim_start_matches("./")`: every leading `./` removed.
pub open spec fn strip_dot_slash(s: Seq<char>) -> Seq<char>
    decreases s.len(),
{
    if s.len() >= 2 && s[0] == '.' && s[1] == '/' {
        strip_dot_slash(s.skip(2))
    } else {
        s
    }
}

fn strip_dot_slash_exec(s: &str) -> (r: String)
    ensures
        r@ == strip_dot_slash(s@),
{
    let v = chars_of(s);
    let n = v.len();
    let mut i: usize = 0;
    assert(v@.skip(0) =~= v@);
    while i < n && n - i >= 2 && v[i] == '.' && v[i + 1] == '/'
        invariant
            n == v@.len(),
            i <= n,
            strip_dot_slash(v@) == strip_dot_slash(v@.skip(i as int)),
        decreases n - i,
    {
        assert(v@.skip(i as int).skip(2) =~= v@.skip(i + 2));
        i += 2;
    }
    let r = string_of_range(&v, i, n);
    assert(r@ =~= v@.skip(i as int));
    r
}

/// Where a service's executable is, given whether the bare name exists in
/// the working directory (`in_cwd`) and what a search of the `PATH` found:
/// absolute paths stay; `source/...` and `runtime/...` lie in the bundle;
/// `./...` lies in the working directory; a bare name is the file in the
/// working directory, else the binary found on the `PATH`; anything else
/// lies in the bundle.
pub open spec fn resolved_with_cwd(
    bundle_root: Seq<char>,
    cwd: Seq<char>,
    path: Seq<char>,
    in_cwd: bool,
    found: Option<Seq<char>>,
) -> Seq<char> {
    let t = trim(path);
    if starts_with(t, "/"@) {
        t
    } else if bundle_relative(t) {
        path_join(bundle_root, t)
    } else if starts_with(t, "./"@) {
        path_join(cwd, strip_dot_slash(t))
    } else if !contains_seq(t, seq!['/']) && in_cwd {
        path_join(cwd, t)
    } else if !contains_seq(t, seq!['/']) && found is Some {
        found.unwrap()
    } else {
        path_join(bundle_root, t)
    }
}

/// The file a bare executable name would be in the working directory.
pub fn cwd_candidate(cwd: &str, path: &str) -> (r: String)
    ensures
        r@ == path_join(cwd@, trim(path@)),
{
    let t = trim_str(path);
    join_path(cwd, t.as_str())
}

/// Resolve a service's executable (see `resolved_with_cwd`).
pub fn resolve_path_with_cwd_given(
    bundle_root: &str,
    cwd: &str,
    path: &str,
    in_cwd: bool,
    found: Option<&str>,
) -> (r: String)
    ensures
        r@ == resolved_with_cwd(bundle_root@, cwd@, path@, in_cwd, match found {
            Some(f) => Some(f@),
            None => None,
        }),
{
    let t = trim_str(path);
    if starts_with_str(t.as_str(), "/") {
        return t;
    }
    if starts_with_str(t.as_str(), "source/") || starts_with_str(t.as_str(), "runtime/") {
        return join_path(bundle_root, t.as_str());
    }
    if starts_with_str(t.as_str(), "./") {
        proof {
            reveal_strlit("./");
        }
        let rest = strip_dot_slash_exec(t.as_str());
        return join_path(cwd, rest.as_str());
    }
    if !has_slash(t.as_str()) {
        if in_cwd {
            return join_path(cwd, t.as_str());
        }
        if let Some(f) = found {
            return f.to_owned();
        }
    }
    join_path(bundle_root, t.as_str())
}

/// Resolve a service's executable, searching the `PATH` for a bare name
/// that is not in the working directory.
pub fn resolve_path_with_cwd(bundle_root: &str, cwd: &str, path: &str, in_cwd: bool) -> (r: String)
    ensures
        exists|f: Option<Seq<char>>| r@ == #[trigger] resolved_with_cwd(bundle_root@, cwd@, path@, in_cwd, f),
{
    let t = trim_str(path);
    let found = if !in_cwd && !has_slash(t.as_str()) {
        which_binary(t.as_str())
    } else {
        None
    };
    match found {
        Some(f) => {
            let r = resolve_path_with_cwd_given(bundle_root, cwd, path, in_cwd, Some(f.as_str()));
            assert(r@ == resolved_with_cwd(bundle_root@, cwd@, path@, in_cwd, Some(f@)));
            r
        },
        None => {
            let r = resolve_path_with_cwd_given(bundle_root, cwd, path, in_cwd, None);
            assert(r@ == resolved_with_cwd(bundle_root@, cwd@, path@, in_cwd, None));
            r
        },
    }
}

/// Paths into the bundle start with `source/` or `runtime/`.
pub open spec fn bundle_relative(s: Seq<char>) -> bool {
    starts_with(s, "source/"@) || starts_with(s, "runtime/"@)
}

/// An argument or environment value: trimmed, and resolved against the
/// bundle when it points into it.
pub open spec fn resolved_value(bundle_root: Seq<char>, value: Seq<char>) -> Seq<char> {
    let t = trim(value);
    if bundle_relative(t) {
        path_join(bundle_root, t)
    } else {
        t
    }
}

/// Resolve an argument of a service's command.
pub fn resolve_arg(bundle_root: &str, arg: &str) -> (r: String)
    ensures
        r@ == resolved_value(bundle_root@, arg@),
{
    let t = trim_str(arg);
    if starts_with_str(t.as_str(), "source/") || starts_with_str(t.as_str(), "runtime/") {
        proof {
            reveal_strlit("source/");
            reveal_strlit("runtime/");
            reveal_strlit("/");
            if starts_with(t@, "source/"@) {
                assert(t@.take(7)[0] == 's');
            } else {
                assert(t@.take(8)[0] == 'r');
            }
            assert(t@.take(1)[0] != "/"@[0]);
        }
        return resolve_path_given(bundle_root, arg, None);
    }
    t
}

/// Resolve an environment value of a service.
pub fn resolve_env_value(bundle_root: &str, value: &str) -> (r: String)
    ensures
        r@ == resolved_value(bundle_root@, value@),
{
    resolve_arg(bundle_root, value)
}

// ---------------------------------------------------------------------------
// Health checks

/// The port of a health check.
pub fn health_check_port(hc: &HealthCheck, service: &str) -> (r: Result<u16, String>)
    ensures
        match parse_u16(trim(hc.port@)) {
            Some(p) => r == Ok::<u16, String>(p),
            None => r matches Err(m) && m@ == "Invalid health_check.port for '"@ + service@ + "': "@
                + hc.port@,
        },
{
    let t = trim_str(hc.port.as_str());
    match parse_u16_exec(t.as_str()) {
        Some(p) => Ok(p),
        None => {
            let mut m = String::from_str("Invalid health_check.port for '");
            m.append(service);
            m.append("': ");
            m.append(hc.port.as_str());
            Err(m)
        },
    }
}

/// Seconds to wait for readiness (30 unless configured) and between
/// attempts (1 unless configured, and at least 1).
pub fn health_check_timing(hc: &HealthCheck) -> (r: (u64, u64))
    ensures
        r.0 == match hc.timeout_secs {
            Some(t) => t as u64,
            None => 30,
        },
        r.1 == match hc.interval_secs {
            Some(i) => if i < 1 { 1 } else { i as u64 },
            None => 1,
        },
{
    let timeout: u64 = match hc.timeout_secs {
        Some(t) => t as u64,
        None => 30,
    };
    let interval: u64 = match hc.interval_secs {
        Some(i) => if i < 1 { 1 } else { i as u64 },
        None => 1,
    };
    (timeout, interval)
}

} // verus!
