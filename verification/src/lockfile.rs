//! The bundle lockfile (`capsule.lock`): the URLs it lists, the platform
//! keys it is indexed by, and the allowlist of hosts those URLs may point to.

use vstd::prelude::*;
use crate::strmap::StrMap;
use crate::text::{str_eq, strs_view};

verus! {

#[derive(Debug)]
pub struct CapsuleLock {
    pub allowlist: Option<Vec<String>>,
    pub tools: Option<ToolSection>,
    pub runtimes: Option<RuntimeSection>,
    pub targets: StrMap<TargetEntry>,
}

#[derive(Debug)]
pub struct ToolSection {
    pub uv: Option<ToolTargets>,
    pub pnpm: Option<ToolTargets>,
    pub yarn: Option<ToolTargets>,
    pub bun: Option<ToolTargets>,
}

#[derive(Debug)]
pub struct ToolTargets {
    pub targets: StrMap<UrlEntry>,
}

#[derive(Debug)]
pub struct RuntimeSection {
    pub python: Option<RuntimeEntry>,
    pub node: Option<RuntimeEntry>,
    pub java: Option<RuntimeEntry>,
    pub dotnet: Option<RuntimeEntry>,
}

#[derive(Debug)]
pub struct RuntimeEntry {
    pub provider: Option<String>,
    pub version: Option<String>,
    pub targets: StrMap<UrlEntry>,
}

#[derive(Debug)]
pub struct TargetEntry {
    pub python_lockfile: Option<String>,
    pub node_lockfile: Option<String>,
    pub artifacts: Vec<UrlEntry>,
    pub compiled: Option<CompiledEntry>,
}

#[derive(Debug)]
pub struct CompiledEntry {
    pub artifacts: UrlEntry,
}

#[derive(Debug)]
pub struct UrlEntry {
    pub url: String,
    pub sha256: Option<String>,
    pub filename: Option<String>,
    pub artifact_type: Option<String>,
}

// ---------------------------------------------------------------------------
// URLs

pub open spec fn entry_urls(e: Seq<(String, UrlEntry)>) -> Seq<Seq<char>> {
    Seq::new(e.len(), |i: int| e[i].1.url@)
}

pub open spec fn tool_urls(t: Option<ToolTargets>) -> Seq<Seq<char>> {
    match t {
        Some(x) => entry_urls(x.targets.entries()),
        None => Seq::empty(),
    }
}

pub open spec fn runtime_urls(r: Option<RuntimeEntry>) -> Seq<Seq<char>> {
    match r {
        Some(x) => entry_urls(x.targets.entries()),
        None => Seq::empty(),
    }
}

pub open spec fn artifact_urls(a: Seq<UrlEntry>) -> Seq<Seq<char>> {
    Seq::new(a.len(), |i: int| a[i].url@)
}

/// URLs of one target: its artifacts, then its compiled artifact.
pub open spec fn target_urls(t: TargetEntry) -> Seq<Seq<char>> {
    artifact_urls(t.artifacts@) + match t.compiled {
        Some(c) => seq![c.artifacts.url@],
        None => Seq::empty(),
    }
}

pub open spec fn targets_urls(e: Seq<(String, TargetEntry)>) -> Seq<Seq<char>>
    decreases e.len(),
{
    if e.len() == 0 {
        Seq::empty()
    } else {
        targets_urls(e.drop_last()) + target_urls(e.last().1)
    }
}

/// Every URL of a lockfile: the tools (uv, pnpm, yarn, bun), the runtimes
/// (python, node, java, dotnet), then each target's artifacts.
pub open spec fn lock_urls(l: CapsuleLock) -> Seq<Seq<char>> {
    tools_urls(l.tools) + runtimes_urls(l.runtimes) + targets_urls(l.targets.entries())
}

pub open spec fn tools_urls(t: Option<ToolSection>) -> Seq<Seq<char>> {
    match t {
        Some(t) => tool_urls(t.uv) + tool_urls(t.pnpm) + tool_urls(t.yarn) + tool_urls(t.bun),
        None => Seq::empty(),
    }
}

pub open spec fn runtimes_urls(r: Option<RuntimeSection>) -> Seq<Seq<char>> {
    match r {
        Some(r) => runtime_urls(r.python) + runtime_urls(r.node) + runtime_urls(r.java)
            + runtime_urls(r.dotnet),
        None => Seq::empty(),
    }
}

fn push_entry_urls(out: &mut Vec<String>, m: &StrMap<UrlEntry>)
    ensures
        strs_view(final(out)@) == strs_view(old(out)@) + entry_urls(m.entries()),
{
    let n = m.len();
    let ghost start = strs_view(out@);
    let mut i: usize = 0;
    while i < n
        invariant
            n == m.entries().len(),
            i <= n,
            strs_view(out@) == start + entry_urls(m.entries()).take(i as int),
        decreases n - i,
    {
        let (_k, e) = m.entry_at(i);
        let ghost o = strs_view(out@);
        out.push(e.url.clone());
        assert(strs_view(out@) =~= o.push(e.url@));
        assert(entry_urls(m.entries()).take(i + 1) =~= entry_urls(m.entries()).take(i as int).push(e.url@));
        i += 1;
    }
    assert(entry_urls(m.entries()).take(n as int) =~= entry_urls(m.entries()));
}

fn push_opt_tool(out: &mut Vec<String>, t: &Option<ToolTargets>)
    ensures
        strs_view(final(out)@) == strs_view(old(out)@) + tool_urls(*t),
{
    match t {
        Some(x) => push_entry_urls(out, &x.targets),
        None => {
            assert(strs_view(out@) + Seq::<Seq<char>>::empty() =~= strs_view(out@));
        },
    }
}

fn push_opt_runtime(out: &mut Vec<String>, r: &Option<RuntimeEntry>)
    ensures
        strs_view(final(out)@) == strs_view(old(out)@) + runtime_urls(*r),
{
    match r {
        Some(x) => push_entry_urls(out, &x.targets),
        None => {
            assert(strs_view(out@) + Seq::<Seq<char>>::empty() =~= strs_view(out@));
        },
    }
}

fn push_target_urls(out: &mut Vec<String>, t: &TargetEntry)
    ensures
        strs_view(final(out)@) == strs_view(old(out)@) + target_urls(*t),
{
    let ghost start = strs_view(out@);
    let mut i: usize = 0;
    while i < t.artifacts.len()
        invariant
            i <= t.artifacts@.len(),
            strs_view(out@) == start + artifact_urls(t.artifacts@).take(i as int),
        decreases t.artifacts@.len() - i,
    {
        let ghost o = strs_view(out@);
        out.push(t.artifacts[i].url.clone());
        assert(strs_view(out@) =~= o.push(t.artifacts@[i as int].url@));
        assert(artifact_urls(t.artifacts@).take(i + 1) =~= artifact_urls(t.artifacts@).take(i as int).push(t.artifacts@[i as int].url@));
        i += 1;
    }
    assert(artifact_urls(t.artifacts@).take(t.artifacts@.len() as int) =~= artifact_urls(t.artifacts@));
    let ghost mid = strs_view(out@);
    match &t.compiled {
        Some(c) => {
            out.push(c.artifacts.url.clone());
            assert(strs_view(out@) =~= mid.push(c.artifacts.url@));
        },
        None => {},
    }
    assert(strs_view(out@) =~= start + target_urls(*t));
}

impl CapsuleLock {
    /// Every URL the lockfile lists.
    pub fn collect_urls(&self) -> (r: Vec<String>)
        ensures
            strs_view(r@) == lock_urls(*self),
    {
        let mut urls: Vec<String> = Vec::new();
        assert(strs_view(urls@) =~= Seq::<Seq<char>>::empty());
        match &self.tools {
            Some(t) => {
                push_opt_tool(&mut urls, &t.uv);
                push_opt_tool(&mut urls, &t.pnpm);
                push_opt_tool(&mut urls, &t.yarn);
                push_opt_tool(&mut urls, &t.bun);
            },
            None => {},
        }
        let ghost after_tools = strs_view(urls@);
        match &self.runtimes {
            Some(r) => {
                push_opt_runtime(&mut urls, &r.python);
                push_opt_runtime(&mut urls, &r.node);
                push_opt_runtime(&mut urls, &r.java);
                push_opt_runtime(&mut urls, &r.dotnet);
            },
            None => {},
        }
        let ghost after_runtimes = strs_view(urls@);
        let n = self.targets.len();
        let ghost e = self.targets.entries();
        let mut i: usize = 0;
        while i < n
            invariant
                n == e.len(),
                e == self.targets.entries(),
                i <= n,
                strs_view(urls@) == after_runtimes + targets_urls(e.take(i as int)),
            decreases n - i,
        {
            let (_k, t) = self.targets.entry_at(i);
            push_target_urls(&mut urls, t);
            assert(e.take(i + 1).drop_last() =~= e.take(i as int));
            i += 1;
        }
        assert(e.take(n as int) =~= e);
        proof {
            assert(after_tools =~= tools_urls(self.tools));
            assert(after_runtimes =~= tools_urls(self.tools) + runtimes_urls(self.runtimes));
            assert(strs_view(urls@) =~= tools_urls(self.tools) + runtimes_urls(self.runtimes) + targets_urls(e));
        }
        urls
    }
}

// ---------------------------------------------------------------------------
// The allowlist

/// What looking up one URL gave: the parser's message, or the host if any.
pub type HostLookup = Result<Option<String>, String>;

/// The plain view of one lookup.
pub open spec fn lookup_view(h: HostLookup) -> Result<Option<Seq<char>>, Seq<char>> {
    match h {
        Ok(Some(s)) => Ok(Some(s@)),
        Ok(None) => Ok(None),
        Err(e) => Err(e@),
    }
}

/// The plain views of several lookups.
pub open spec fn lookups_view(hs: Seq<HostLookup>) -> Seq<Result<Option<Seq<char>>, Seq<char>>> {
    hs.map_values(|h: HostLookup| lookup_view(h))
}

/// What `url::Url::parse` followed by `host_str` gives for a text: the
/// parser's message, or the host (`None` for a URL without one).
pub uninterp spec fn url_host_lookup(s: Seq<char>) -> Result<Option<Seq<char>>, Seq<char>>;

/// `url::Url::parse` on `s`, then `Url::host_str` of the parsed URL. The
/// result is a function of `s` alone, named `url_host_lookup`.
#[verifier::external_body]
fn url_host(s: &str) -> (r: HostLookup)
    ensures
        lookup_view(r) == url_host_lookup(s@),
{
    match url::Url::parse(s) {
        Ok(u) => Ok(u.host_str().map(|h| h.to_owned())),
        Err(e) => Err(e.to_string()),
    }
}

/// The verdict for `urls`, given their looked-up hosts: the first URL that
/// does not parse, has no host or has a host outside the allowlist is
/// refused.
pub open spec fn allowlist_verdict(
    urls: Seq<Seq<char>>,
    hosts: Seq<Result<Option<Seq<char>>, Seq<char>>>,
    allowlist: Seq<Seq<char>>,
) -> Result<(), Seq<char>>
    decreases urls.len(),
{
    if urls.len() == 0 || hosts.len() == 0 {
        Ok(())
    } else {
        match hosts[0] {
            Err(e) => Err("Invalid URL in capsule.lock ("@ + urls[0] + "): "@ + e),
            Ok(None) => Err("URL missing host in capsule.lock: "@ + urls[0]),
            Ok(Some(h)) => if allowlist.contains(h) {
                allowlist_verdict(urls.drop_first(), hosts.drop_first(), allowlist)
            } else {
                Err("URL not in allowlist: "@ + urls[0])
            },
        }
    }
}

/// The lookups of a list of URLs.
pub open spec fn url_lookups(urls: Seq<Seq<char>>) -> Seq<Result<Option<Seq<char>>, Seq<char>>> {
    urls.map_values(|u: Seq<char>| url_host_lookup(u))
}

/// Whether a `Result<(), String>` agrees with a verdict.
pub open spec fn verdict_matches(r: Result<(), String>, v: Result<(), Seq<char>>) -> bool {
    match (r, v) {
        (Ok(_), Ok(_)) => true,
        (Err(a), Err(b)) => a@ == b,
        _ => false,
    }
}

/// Check URLs against the allowlist, given what looking up each URL gave.
pub fn check_hosts(urls: &Vec<String>, hosts: &Vec<HostLookup>, allowlist: &Vec<String>) -> (r: Result<(), String>)
    requires
        urls@.len() == hosts@.len(),
    ensures
        verdict_matches(r, allowlist_verdict(strs_view(urls@), lookups_view(hosts@), strs_view(allowlist@))),
{
    let ghost uv = strs_view(urls@);
    let ghost hv = lookups_view(hosts@);
    let ghost av = strs_view(allowlist@);
    let mut i: usize = 0;
    assert(uv.skip(0) =~= uv);
    assert(hv.skip(0) =~= hv);
    while i < urls.len()
        invariant
            uv == strs_view(urls@),
            hv == lookups_view(hosts@),
            av == strs_view(allowlist@),
            urls@.len() == hosts@.len(),
            i <= urls@.len(),
            allowlist_verdict(uv, hv, av) == allowlist_verdict(uv.skip(i as int), hv.skip(i as int), av),
        decreases urls@.len() - i,
    {
        assert(uv.skip(i as int)[0] == urls@[i as int]@);
        assert(hv.skip(i as int)[0] == lookup_view(hosts@[i as int]));
        match &hosts[i] {
            Err(e) => {
                let mut m = String::from_str("Invalid URL in capsule.lock (");
                m.append(urls[i].as_str());
                m.append("): ");
                m.append(e.as_str());
                return Err(m);
            },
            Ok(None) => {
                let mut m = String::from_str("URL missing host in capsule.lock: ");
                m.append(urls[i].as_str());
                return Err(m);
            },
            Ok(Some(h)) => {
                if !crate::text::vec_contains_str(allowlist, h.as_str()) {
                    proof {
                        if av.contains(h@) {
                            let k = choose|k: int| 0 <= k < av.len() && av[k] == h@;
                            assert(allowlist@[k]@ == h@);
                        }
                    }
                    let mut m = String::from_str("URL not in allowlist: ");
                    m.append(urls[i].as_str());
                    return Err(m);
                }
                proof {
                    let k = choose|k: int| 0 <= k < allowlist@.len() && #[trigger] allowlist@[k]@ == h@;
                    assert(av[k] == h@);
                }
            },
        }
        assert(uv.skip(i as int).drop_first() =~= uv.skip(i + 1));
        assert(hv.skip(i as int).drop_first() =~= hv.skip(i + 1));
        i += 1;
    }
    Ok(())
}

/// Enforce the lockfile's allowlist: with a non-empty allowlist, every URL
/// the lockfile lists must parse and point to an allowed host; the first
/// that does not is named in the error.
pub fn check_lockfile_allowlist(lock: &CapsuleLock) -> (r: Result<(), String>)
    ensures
        (lock.allowlist is None || lock.allowlist.unwrap()@.len() == 0) ==> r is Ok,
        (lock.allowlist is Some && lock.allowlist.unwrap()@.len() > 0) ==> verdict_matches(
            r,
            allowlist_verdict(
                lock_urls(*lock),
                url_lookups(lock_urls(*lock)),
                strs_view(lock.allowlist.unwrap()@),
            ),
        ),
{
    let allowlist = match &lock.allowlist {
        Some(a) => {
            if a.len() == 0 {
                return Ok(());
            }
            a
        },
        None => {
            return Ok(());
        },
    };
    let urls = lock.collect_urls();
    let mut hosts: Vec<HostLookup> = Vec::new();
    let mut i: usize = 0;
    while i < urls.len()
        invariant
            i <= urls@.len(),
            hosts@.len() == i,
            forall|k: int| 0 <= k < i ==> lookup_view(#[trigger] hosts@[k]) == url_host_lookup(urls@[k]@),
        decreases urls@.len() - i,
    {
        let h = url_host(urls[i].as_str());
        hosts.push(h);
        i += 1;
    }
    let r = check_hosts(&urls, &hosts, allowlist);
    proof {
        assert(lookups_view(hosts@) =~= url_lookups(strs_view(urls@)));
    }
    r
}

// ---------------------------------------------------------------------------
// Platforms

pub open spec fn os_name(os: Seq<char>) -> Option<Seq<char>> {
    if os == "linux"@ || os == "macos"@ || os == "windows"@ {
        Some(os)
    } else {
        None
    }
}

/// The key a lockfile indexes targets by: `<os>-<arch>`, with `arm64` for
/// 64-bit ARM.
pub open spec fn target_key(os: Seq<char>, arch: Seq<char>) -> Result<Seq<char>, Seq<char>> {
    match os_name(os) {
        None => Err("Unsupported OS"@),
        Some(o) => if arch == "x86_64"@ {
            Ok(o + "-"@ + "x86_64"@)
        } else if arch == "aarch64"@ {
            Ok(o + "-"@ + "arm64"@)
        } else {
            Err("Unsupported architecture"@)
        },
    }
}

pub fn platform_target_key(os: &str, arch: &str) -> (r: Result<String, String>)
    ensures
        match (r, target_key(os@, arch@)) {
            (Ok(a), Ok(b)) => a@ == b,
            (Err(a), Err(b)) => a@ == b,
            _ => false,
        },
{
    if !(str_eq(os, "linux") || str_eq(os, "macos") || str_eq(os, "windows")) {
        return Err("Unsupported OS".to_owned());
    }
    let a = if str_eq(arch, "x86_64") {
        "x86_64"
    } else if str_eq(arch, "aarch64") {
        "arm64"
    } else {
        return Err("Unsupported architecture".to_owned());
    };
    let mut r = os.to_owned();
    r.append("-");
    r.append(a);
    Ok(r)
}

/// The target triple of a platform.
pub open spec fn triple_of(os: Seq<char>, arch: Seq<char>) -> Result<Seq<char>, Seq<char>> {
    if os_name(os) is None {
        Err("Unsupported OS"@)
    } else if !(arch == "x86_64"@ || arch == "aarch64"@) {
        Err("Unsupported architecture"@)
    } else if os == "linux"@ && arch == "x86_64"@ {
        Ok("x86_64-unknown-linux-gnu"@)
    } else if os == "linux"@ {
        Ok("aarch64-unknown-linux-gnu"@)
    } else if os == "macos"@ && arch == "x86_64"@ {
        Ok("x86_64-apple-darwin"@)
    } else if os == "macos"@ {
        Ok("aarch64-apple-darwin"@)
    } else if arch == "x86_64"@ {
        Ok("x86_64-pc-windows-msvc"@)
    } else {
        Ok("aarch64-pc-windows-msvc"@)
    }
}

pub fn platform_triple(os: &str, arch: &str) -> (r: Result<String, String>)
    ensures
        match (r, triple_of(os@, arch@)) {
            (Ok(a), Ok(b)) => a@ == b,
            (Err(a), Err(b)) => a@ == b,
            _ => false,
        },
{
    let linux = str_eq(os, "linux");
    let macos = str_eq(os, "macos");
    if !(linux || macos || str_eq(os, "windows")) {
        return Err("Unsupported OS".to_owned());
    }
    let x86 = str_eq(arch, "x86_64");
    if !(x86 || str_eq(arch, "aarch64")) {
        return Err("Unsupported architecture".to_owned());
    }
    let t = if linux && x86 {
        "x86_64-unknown-linux-gnu"
    } else if linux {
        "aarch64-unknown-linux-gnu"
    } else if macos && x86 {
        "x86_64-apple-darwin"
    } else if macos {
        "aarch64-apple-darwin"
    } else if x86 {
        "x86_64-pc-windows-msvc"
    } else {
        "aarch64-pc-windows-msvc"
    };
    Ok(t.to_owned())
}

} // verus!
