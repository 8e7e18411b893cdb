//! Where a language runtime is downloaded from: versions normalised, the
//! archive's URL, its checksum file, and where it lands in the cache; and
//! reading the expected SHA-256 out of a checksum file. The downloads
//! themselves are the caller's.

use vstd::prelude::*;
use crate::digest::hex_value;
use crate::storage::{join_path, path_join};
use crate::text::{
    ascii_lower, chars_of, contains_seq, find_from, is_ws, is_ws_exec, split_char, split_char_ranges,
    str_eq, string_of, string_of_range, strs_view, to_ascii_lower, trim, trim_str, starts_with, push_string,
};
use crate::toolchain::RuntimeFetcher;

verus! {

/// `v` with the prefix `p` and the whitespace after it removed, where it starts with `p`.
pub open spec fn strip_step(v: Seq<char>, p: Seq<char>) -> Seq<char> {
    if starts_with(v, p) {
        trim(v.skip(p.len() as int))
    } else {
        v
    }
}

/// `v` after the version prefixes `bun-v`, `v`, `^`, `>=`, `==`, `=`, `~=`
/// are stripped in that order.
pub open spec fn strip_version_prefixes(v: Seq<char>) -> Seq<char> {
    strip_step(
        strip_step(
            strip_step(strip_step(strip_step(strip_step(strip_step(v, "bun-v"@), "v"@), "^"@), ">="@), "=="@),
            "="@,
        ),
        "~="@,
    )
}

/// A digit or a dot.
pub open spec fn is_version_char(c: char) -> bool {
    ('0' <= c && c <= '9') || c == '.'
}

/// Length of the leading run of digits and dots.
pub open spec fn version_run(s: Seq<char>) -> nat
    decreases s.len(),
{
    if s.len() > 0 && is_version_char(s[0]) {
        1 + version_run(s.drop_first())
    } else {
        0
    }
}

/// A loose version (`v18`, `^1.2.3`, `bun-v1.1.0`) as dotted numbers; the
/// trimmed input where no number is left.
pub open spec fn normalized_version(version: Seq<char>) -> Seq<char> {
    let v = strip_version_prefixes(trim(version));
    let out = v.take(version_run(v) as int);
    if out.len() == 0 {
        trim(version)
    } else {
        out
    }
}

fn strip_step_exec(v: String, p: &str) -> (r: String)
    ensures
        r@ == strip_step(v@, p@),
{
    let vv = chars_of(v.as_str());
    let pv = chars_of(p);
    if pv.len() <= vv.len() {
        let mut i: usize = 0;
        while i < pv.len()
            invariant
                vv@ == v@,
                pv@ == p@,
                pv.len() <= vv.len(),
                i <= pv@.len(),
                forall|k: int| 0 <= k < i ==> vv@[k] == pv@[k],
            decreases pv@.len() - i,
        {
            if vv[i] != pv[i] {
                assert(vv@.take(pv@.len() as int)[i as int] != pv@[i as int]);
                assert(!starts_with(v@, p@));
                return v;
            }
            i += 1;
        }
        assert(vv@.take(pv@.len() as int) =~= pv@);
        assert(starts_with(v@, p@));
        let rest = string_of_range(&vv, pv.len(), vv.len());
        assert(rest@ =~= v@.skip(p@.len() as int));
        trim_str(rest.as_str())
    } else {
        assert(!starts_with(v@, p@));
        v
    }
}

impl RuntimeFetcher {
    /// A loose version as dotted numbers (`normalize_semverish`).
    pub fn normalize_semverish(version: &str) -> (r: String)
        ensures
            r@ == normalized_version(version@),
    {
        let t = trim_str(version);
        let mut v = strip_step_exec(t, "bun-v");
        v = strip_step_exec(v, "v");
        v = strip_step_exec(v, "^");
        v = strip_step_exec(v, ">=");
        v = strip_step_exec(v, "==");
        v = strip_step_exec(v, "=");
        v = strip_step_exec(v, "~=");
        let cv = chars_of(v.as_str());
        let mut n: usize = 0;
        assert(cv@.skip(0) =~= cv@);
        while n < cv.len() && (('0' <= cv[n] && cv[n] <= '9') || cv[n] == '.')
            invariant
                n <= cv@.len(),
                version_run(cv@) == n + version_run(cv@.skip(n as int)),
            decreases cv@.len() - n,
        {
            assert(cv@.skip(n as int).drop_first() =~= cv@.skip(n + 1));
            n += 1;
        }
        assert(version_run(cv@.skip(n as int)) == 0);
        if n == 0 {
            trim_str(version)
        } else {
            string_of_range(&cv, 0, n)
        }
    }
}

/// The full Python version of a short one; other versions as given.
pub open spec fn python_full_version(version: Seq<char>) -> Seq<char> {
    if version == "3.11"@ {
        "3.11.10"@
    } else if version == "3.12"@ {
        "3.12.7"@
    } else if version == "3.13"@ {
        "3.13.0rc3"@
    } else {
        version
    }
}

/// The target triple and build variant of a standalone Python build.
pub open spec fn python_triple(os: Seq<char>, arch: Seq<char>) -> Option<(Seq<char>, Seq<char>)> {
    if os == "linux"@ && arch == "x86_64"@ {
        Some(("x86_64-unknown-linux-gnu"@, "install_only"@))
    } else if os == "linux"@ && arch == "aarch64"@ {
        Some(("aarch64-unknown-linux-gnu"@, "install_only"@))
    } else if os == "macos"@ && arch == "x86_64"@ {
        Some(("x86_64-apple-darwin"@, "install_only"@))
    } else if os == "macos"@ && arch == "aarch64"@ {
        Some(("aarch64-apple-darwin"@, "install_only"@))
    } else if os == "windows"@ && arch == "x86_64"@ {
        Some(("x86_64-pc-windows-msvc"@, "shared-install_only"@))
    } else {
        None
    }
}

/// The download URL of a standalone Python build (release `20241002`).
pub open spec fn python_url(version: Seq<char>, os: Seq<char>, arch: Seq<char>) -> Result<Seq<char>, Seq<char>> {
    match python_triple(os, arch) {
        Some((triple, variant)) => Ok(
            "https://github.com/astral-sh/python-build-standalone/releases/download/20241002/cpython-"@
                + python_full_version(version) + "+20241002-"@ + triple + "-"@ + variant + ".tar.gz"@,
        ),
        None => Err("Unsupported platform: "@ + os + " "@ + arch),
    }
}

impl RuntimeFetcher {
    /// The download URL of a standalone Python build for a platform.
    pub fn get_python_download_url(version: &str, os: &str, arch: &str) -> (r: Result<String, String>)
        ensures
            match python_url(version@, os@, arch@) {
                Ok(u) => r matches Ok(x) && x@ == u,
                Err(m) => r matches Err(x) && x@ == m,
            },
    {
        let full = if str_eq(version, "3.11") {
            "3.11.10"
        } else if str_eq(version, "3.12") {
            "3.12.7"
        } else if str_eq(version, "3.13") {
            "3.13.0rc3"
        } else {
            version
        };
        let (triple, variant) = if str_eq(os, "linux") && str_eq(arch, "x86_64") {
            ("x86_64-unknown-linux-gnu", "install_only")
        } else if str_eq(os, "linux") && str_eq(arch, "aarch64") {
            ("aarch64-unknown-linux-gnu", "install_only")
        } else if str_eq(os, "macos") && str_eq(arch, "x86_64") {
            ("x86_64-apple-darwin", "install_only")
        } else if str_eq(os, "macos") && str_eq(arch, "aarch64") {
            ("aarch64-apple-darwin", "install_only")
        } else if str_eq(os, "windows") && str_eq(arch, "x86_64") {
            ("x86_64-pc-windows-msvc", "shared-install_only")
        } else {
            let mut m = String::from_str("Unsupported platform: ");
            m.append(os);
            m.append(" ");
            m.append(arch);
            return Err(m);
        };
        let mut u = String::from_str(
            "https://github.com/astral-sh/python-build-standalone/releases/download/20241002/cpython-",
        );
        u.append(full);
        u.append("+20241002-");
        u.append(triple);
        u.append("-");
        u.append(variant);
        u.append(".tar.gz");
        Ok(u)
    }
}

/// Node's name for an OS, and whether its archives are zip files.
pub open spec fn node_platform(os: Seq<char>) -> Option<(Seq<char>, bool)> {
    if os == "linux"@ {
        Some(("linux"@, false))
    } else if os == "macos"@ {
        Some(("darwin"@, false))
    } else if os == "windows"@ {
        Some(("win"@, true))
    } else {
        None
    }
}

/// Node's name for an architecture.
pub open spec fn node_arch(arch: Seq<char>) -> Option<Seq<char>> {
    if arch == "x86_64"@ {
        Some("x64"@)
    } else if arch == "aarch64"@ {
        Some("arm64"@)
    } else {
        None
    }
}

/// The file name of a Node release archive, and whether it is a zip file.
pub open spec fn node_filename(full_version: Seq<char>, os: Seq<char>, arch: Seq<char>) -> Result<(Seq<char>, bool), Seq<char>> {
    match node_platform(os) {
        None => Err("Unsupported OS for Node: "@ + os),
        Some((platform, is_zip)) => match node_arch(arch) {
            None => Err("Unsupported arch for Node: "@ + arch),
            Some(a) => Ok(
                (
                    "node-v"@ + full_version + "-"@ + platform + "-"@ + a + if is_zip {
                        ".zip"@
                    } else {
                        ".tar.gz"@
                    },
                    is_zip,
                ),
            ),
        },
    }
}

impl RuntimeFetcher {
    /// The file name of a Node release archive for a platform.
    pub fn node_artifact_filename(full_version: &str, os: &str, arch: &str) -> (r: Result<(String, bool), String>)
        ensures
            match node_filename(full_version@, os@, arch@) {
                Ok((f, z)) => r matches Ok((x, y)) && x@ == f && y == z,
                Err(m) => r matches Err(x) && x@ == m,
            },
    {
        let (platform, is_zip) = if str_eq(os, "linux") {
            ("linux", false)
        } else if str_eq(os, "macos") {
            ("darwin", false)
        } else if str_eq(os, "windows") {
            ("win", true)
        } else {
            let mut m = String::from_str("Unsupported OS for Node: ");
            m.append(os);
            return Err(m);
        };
        let a = if str_eq(arch, "x86_64") {
            "x64"
        } else if str_eq(arch, "aarch64") {
            "arm64"
        } else {
            let mut m = String::from_str("Unsupported arch for Node: ");
            m.append(arch);
            return Err(m);
        };
        let mut f = String::from_str("node-v");
        f.append(full_version);
        f.append("-");
        f.append(platform);
        f.append("-");
        f.append(a);
        if is_zip {
            f.append(".zip");
        } else {
            f.append(".tar.gz");
        }
        Ok((f, is_zip))
    }
}

/// How a runtime archive is fetched: from where, which checksum file
/// vouches for it (and under which file name, if it lists several), and
/// where the archive and its extraction go in the cache.
#[derive(Debug)]
pub struct FetchPlan {
    pub download_url: String,
    pub checksum_url: String,
    pub checksum_filename: Option<String>,
    pub archive_path: String,
    pub temp_dir: String,
    pub is_zip: bool,
}

/// A fetch plan holds the given values.
pub open spec fn plan_is(
    p: FetchPlan,
    download_url: Seq<char>,
    checksum_url: Seq<char>,
    checksum_filename: Option<Seq<char>>,
    archive_path: Seq<char>,
    temp_dir: Seq<char>,
    is_zip: bool,
) -> bool {
    &&& p.download_url@ == download_url
    &&& p.checksum_url@ == checksum_url
    &&& match p.checksum_filename {
        Some(f) => checksum_filename == Some(f@),
        None => checksum_filename is None,
    }
    &&& p.archive_path@ == archive_path
    &&& p.temp_dir@ == temp_dir
    &&& p.is_zip == is_zip
}

/// The Deno target triple of a platform.
pub open spec fn deno_target(os: Seq<char>, arch: Seq<char>) -> Option<Seq<char>> {
    match python_triple(os, arch) {
        Some((t, _)) => Some(t),
        None => None,
    }
}

/// The download URL of a Deno release archive.
pub open spec fn deno_url(version: Seq<char>, target: Seq<char>) -> Seq<char> {
    "https://github.com/denoland/deno/releases/download/v"@ + version + "/"@ + ("deno-"@ + target + ".zip"@)
}

/// The Bun archive of a platform.
pub open spec fn bun_filename(os: Seq<char>, arch: Seq<char>) -> Option<Seq<char>> {
    if os == "macos"@ && arch == "x86_64"@ {
        Some("bun-darwin-x64.zip"@)
    } else if os == "macos"@ && arch == "aarch64"@ {
        Some("bun-darwin-aarch64.zip"@)
    } else if os == "linux"@ && arch == "x86_64"@ {
        Some("bun-linux-x64.zip"@)
    } else if os == "linux"@ && arch == "aarch64"@ {
        Some("bun-linux-aarch64.zip"@)
    } else if os == "windows"@ && arch == "x86_64"@ {
        Some("bun-windows-x64.zip"@)
    } else {
        None
    }
}

fn cat(a: &str, b: &str) -> (r: String)
    ensures
        r@ == a@ + b@,
{
    let mut s = String::from_str(a);
    s.append(b);
    s
}

fn cat3(a: &str, b: &str, c: &str) -> (r: String)
    ensures
        r@ == a@ + b@ + c@,
{
    let mut s = String::from_str(a);
    s.append(b);
    s.append(c);
    s
}

impl RuntimeFetcher {
    /// How to fetch a Python runtime: the checksum sits beside the archive.
    pub fn python_fetch_plan(&self, version: &str, os: &str, arch: &str) -> (r: Result<FetchPlan, String>)
        ensures
            match python_url(version@, os@, arch@) {
                Ok(u) => r matches Ok(p) && plan_is(
                    p,
                    u,
                    u + ".sha256"@,
                    None,
                    path_join(self.dir(), "python-"@ + version@ + ".tar.gz"@),
                    path_join(self.dir(), "tmp-python-"@ + version@),
                    false,
                ),
                Err(m) => r matches Err(x) && x@ == m,
            },
    {
        let url = match Self::get_python_download_url(version, os, arch) {
            Ok(u) => u,
            Err(m) => {
                return Err(m);
            },
        };
        let checksum = cat(url.as_str(), ".sha256");
        let archive_name = cat3("python-", version, ".tar.gz");
        let temp_name = cat("tmp-python-", version);
        let archive_path = join_path(self.cache_dir().as_str(), archive_name.as_str());
        let temp_dir = join_path(self.cache_dir().as_str(), temp_name.as_str());
        Ok(FetchPlan { download_url: url, checksum_url: checksum, checksum_filename: None, archive_path, temp_dir, is_zip: false })
    }

    /// How to fetch a Node runtime, given the full version resolved from
    /// the requested one: the release's `SHASUMS256.txt` lists the archive.
    pub fn node_fetch_plan(&self, version: &str, full_version: &str, os: &str, arch: &str) -> (r: Result<FetchPlan, String>)
        ensures
            match node_filename(full_version@, os@, arch@) {
                Ok((f, z)) => r matches Ok(p) && plan_is(
                    p,
                    "https://nodejs.org/dist/v"@ + full_version@ + "/"@ + f,
                    "https://nodejs.org/dist/v"@ + full_version@ + "/SHASUMS256.txt"@,
                    Some(f),
                    path_join(self.dir(), "node-"@ + version@ + if z {
                        ".zip"@
                    } else {
                        ".tar.gz"@
                    }),
                    path_join(self.dir(), "tmp-node-"@ + version@),
                    z,
                ),
                Err(m) => r matches Err(x) && x@ == m,
            },
    {
        let (filename, is_zip) = match Self::node_artifact_filename(full_version, os, arch) {
            Ok(v) => v,
            Err(m) => {
                return Err(m);
            },
        };
        let base = cat("https://nodejs.org/dist/v", full_version);
        let url = cat3(base.as_str(), "/", filename.as_str());
        let checksum = cat(base.as_str(), "/SHASUMS256.txt");
        let archive_name = cat3("node-", version, if is_zip { ".zip" } else { ".tar.gz" });
        let temp_name = cat("tmp-node-", version);
        let archive_path = join_path(self.cache_dir().as_str(), archive_name.as_str());
        let temp_dir = join_path(self.cache_dir().as_str(), temp_name.as_str());
        Ok(FetchPlan { download_url: url, checksum_url: checksum, checksum_filename: Some(filename), archive_path, temp_dir, is_zip })
    }

    /// How to fetch a Deno runtime: a zip per target, with a `.sha256sum` beside it.
    pub fn deno_fetch_plan(&self, version: &str, os: &str, arch: &str) -> (r: Result<FetchPlan, String>)
        ensures
            match deno_target(os@, arch@) {
                Some(t) => r matches Ok(p) && plan_is(
                    p,
                    deno_url(normalized_version(version@), t),
                    deno_url(normalized_version(version@), t) + ".sha256sum"@,
                    Some("deno-"@ + t + ".zip"@),
                    path_join(self.dir(), "deno-"@ + version@ + ".zip"@),
                    path_join(self.dir(), "tmp-deno-"@ + version@),
                    true,
                ),
                None => r matches Err(x) && x@ == "Unsupported platform for Deno: "@ + os@ + " "@ + arch@,
            },
    {
        let dv = Self::normalize_semverish(version);
        let target = if str_eq(os, "linux") && str_eq(arch, "x86_64") {
            "x86_64-unknown-linux-gnu"
        } else if str_eq(os, "linux") && str_eq(arch, "aarch64") {
            "aarch64-unknown-linux-gnu"
        } else if str_eq(os, "macos") && str_eq(arch, "x86_64") {
            "x86_64-apple-darwin"
        } else if str_eq(os, "macos") && str_eq(arch, "aarch64") {
            "aarch64-apple-darwin"
        } else if str_eq(os, "windows") && str_eq(arch, "x86_64") {
            "x86_64-pc-windows-msvc"
        } else {
            let mut m = String::from_str("Unsupported platform for Deno: ");
            m.append(os);
            m.append(" ");
            m.append(arch);
            return Err(m);
        };
        let filename = cat3("deno-", target, ".zip");
        let head = cat3("https://github.com/denoland/deno/releases/download/v", dv.as_str(), "/");
        let url = cat(head.as_str(), filename.as_str());
        let checksum = cat(url.as_str(), ".sha256sum");
        let archive_name = cat3("deno-", version, ".zip");
        let temp_name = cat("tmp-deno-", version);
        let archive_path = join_path(self.cache_dir().as_str(), archive_name.as_str());
        let temp_dir = join_path(self.cache_dir().as_str(), temp_name.as_str());
        Ok(FetchPlan { download_url: url, checksum_url: checksum, checksum_filename: Some(filename), archive_path, temp_dir, is_zip: true })
    }

    /// How to fetch a Bun runtime: a zip per platform, listed in the
    /// release's `SHASUMS256.txt`.
    pub fn bun_fetch_plan(&self, version: &str, os: &str, arch: &str) -> (r: Result<FetchPlan, String>)
        ensures
            match bun_filename(os@, arch@) {
                Some(f) => r matches Ok(p) && plan_is(
                    p,
                    "https://github.com/oven-sh/bun/releases/download/bun-v"@ + normalized_version(version@) + "/"@ + f,
                    "https://github.com/oven-sh/bun/releases/download/bun-v"@ + normalized_version(version@) + "/SHASUMS256.txt"@,
                    Some(f),
                    path_join(self.dir(), "bun-"@ + version@ + ".zip"@),
                    path_join(self.dir(), "tmp-bun-"@ + version@),
                    true,
                ),
                None => r matches Err(x) && x@ == "Unsupported platform for Bun: "@ + os@ + " "@ + arch@,
            },
    {
        let bv = Self::normalize_semverish(version);
        let filename = if str_eq(os, "macos") && str_eq(arch, "x86_64") {
            "bun-darwin-x64.zip"
        } else if str_eq(os, "macos") && str_eq(arch, "aarch64") {
            "bun-darwin-aarch64.zip"
        } else if str_eq(os, "linux") && str_eq(arch, "x86_64") {
            "bun-linux-x64.zip"
        } else if str_eq(os, "linux") && str_eq(arch, "aarch64") {
            "bun-linux-aarch64.zip"
        } else if str_eq(os, "windows") && str_eq(arch, "x86_64") {
            "bun-windows-x64.zip"
        } else {
            let mut m = String::from_str("Unsupported platform for Bun: ");
            m.append(os);
            m.append(" ");
            m.append(arch);
            return Err(m);
        };
        let base = cat("https://github.com/oven-sh/bun/releases/download/bun-v", bv.as_str());
        let url = cat3(base.as_str(), "/", filename);
        let checksum = cat(base.as_str(), "/SHASUMS256.txt");
        let archive_name = cat3("bun-", version, ".zip");
        let temp_name = cat("tmp-bun-", version);
        let archive_path = join_path(self.cache_dir().as_str(), archive_name.as_str());
        let temp_dir = join_path(self.cache_dir().as_str(), temp_name.as_str());
        Ok(FetchPlan { download_url: url, checksum_url: checksum, checksum_filename: Some(String::from_str(filename)), archive_path, temp_dir, is_zip: true })
    }
}

/// The non-empty pieces, in order.
pub open spec fn nonempty_pieces(pieces: Seq<Seq<char>>) -> Seq<Seq<char>>
    decreases pieces.len(),
{
    if pieces.len() == 0 {
        Seq::empty()
    } else if pieces.last().len() > 0 {
        nonempty_pieces(pieces.drop_last()).push(pieces.last())
    } else {
        nonempty_pieces(pieces.drop_last())
    }
}

/// What a Node version hint asks for: a full version, or the first release
/// whose version starts with a prefix.
#[derive(Debug)]
pub enum NodeVersionQuery {
    Full(String),
    Prefix(String),
}

/// The query of a Node version hint: three or more numbers are a full
/// version; one or two make the prefix `major.` or `major.minor.`.
pub open spec fn node_query(hint: Seq<char>) -> Result<(bool, Seq<char>), Seq<char>> {
    let h = normalized_version(hint);
    let parts = nonempty_pieces(split_char(h, '.'));
    if parts.len() >= 3 {
        Ok((true, h))
    } else if parts.len() == 2 {
        Ok((false, parts[0] + "."@ + parts[1] + "."@))
    } else if parts.len() == 1 {
        Ok((false, parts[0] + "."@))
    } else {
        Err("Invalid Node version hint: "@ + hint)
    }
}

/// `s` without its leading `v`s.
pub open spec fn strip_leading_v(s: Seq<char>) -> Seq<char>
    decreases s.len(),
{
    if s.len() > 0 && s[0] == 'v' {
        strip_leading_v(s.drop_first())
    } else {
        s
    }
}

/// The first release of the index, in its order, whose version (its
/// leading `v`s dropped) starts with the prefix.
pub open spec fn first_release(versions: Seq<Option<Seq<char>>>, prefix: Seq<char>) -> Option<Seq<char>>
    decreases versions.len(),
{
    if versions.len() == 0 {
        None
    } else {
        match versions[0] {
            Some(v) => if starts_with(strip_leading_v(v), prefix) {
                Some(strip_leading_v(v))
            } else {
                first_release(versions.drop_first(), prefix)
            },
            None => first_release(versions.drop_first(), prefix),
        }
    }
}

/// Optional strings, by views.
pub open spec fn opts_view(v: Seq<Option<String>>) -> Seq<Option<Seq<char>>> {
    Seq::new(
        v.len(),
        |i: int|
            match v[i] {
                Some(s) => Some(s@),
                None => None,
            },
    )
}

impl RuntimeFetcher {
    /// What a Node version hint asks for.
    pub fn node_version_query(version_hint: &str) -> (r: Result<NodeVersionQuery, String>)
        ensures
            match node_query(version_hint@) {
                Ok((true, v)) => r matches Ok(NodeVersionQuery::Full(x)) && x@ == v,
                Ok((false, p)) => r matches Ok(NodeVersionQuery::Prefix(x)) && x@ == p,
                Err(m) => r matches Err(x) && x@ == m,
            },
    {
        let hint = Self::normalize_semverish(version_hint);
        let hv = chars_of(hint.as_str());
        let ranges = split_char_ranges(&hv, '.');
        let ghost pieces = split_char(hint@, '.');
        let mut parts: Vec<String> = Vec::new();
        let mut i: usize = 0;
        assert(pieces.take(0) =~= Seq::<Seq<char>>::empty());
        while i < ranges.len()
            invariant
                hv@ == hint@,
                pieces == split_char(hint@, '.'),
                Seq::new(ranges@.len(), |q: int| hv@.subrange(ranges@[q].0 as int, ranges@[q].1 as int))
                    == pieces,
                forall|q: int| 0 <= q < ranges@.len() ==> #[trigger] ranges@[q].0 <= ranges@[q].1 <= hv@.len(),
                i <= ranges@.len(),
                strs_view(parts@) == nonempty_pieces(pieces.take(i as int)),
            decreases ranges@.len() - i,
        {
            assert(pieces.take(i + 1).drop_last() =~= pieces.take(i as int));
            let (a, b) = ranges[i];
            let piece = string_of_range(&hv, a, b);
            assert(piece@ == pieces[i as int]);
            if a < b {
                push_string(&mut parts, piece);
            }
            i += 1;
        }
        assert(pieces.take(ranges@.len() as int) =~= pieces);
        if parts.len() >= 3 {
            Ok(NodeVersionQuery::Full(hint))
        } else if parts.len() == 2 {
            let mut p = parts[0].clone();
            p.append(".");
            p.append(parts[1].as_str());
            p.append(".");
            Ok(NodeVersionQuery::Prefix(p))
        } else if parts.len() == 1 {
            let mut p = parts[0].clone();
            p.append(".");
            Ok(NodeVersionQuery::Prefix(p))
        } else {
            let mut m = String::from_str("Invalid Node version hint: ");
            m.append(version_hint);
            Err(m)
        }
    }

    /// The release picked for a prefix from Node's `index.json`, given the
    /// `version` field of each entry (`None` where it is missing or not text).
    pub fn pick_node_release(index_versions: &Vec<Option<String>>, prefix: &str) -> (r: Option<String>)
        ensures
            match (r, first_release(opts_view(index_versions@), prefix@)) {
                (Some(a), Some(b)) => a@ == b,
                (None, None) => true,
                _ => false,
            },
    {
        let ghost vs = opts_view(index_versions@);
        let pv = chars_of(prefix);
        let mut i: usize = 0;
        assert(vs.skip(0) =~= vs);
        while i < index_versions.len()
            invariant
                vs == opts_view(index_versions@),
                pv@ == prefix@,
                i <= index_versions@.len(),
                first_release(vs, prefix@) == first_release(vs.skip(i as int), prefix@),
            decreases index_versions@.len() - i,
        {
            assert(vs.skip(i as int)[0] == vs[i as int]);
            assert(vs.skip(i as int).drop_first() =~= vs.skip(i + 1));
            match &index_versions[i] {
                Some(v) => {
                    let cv = chars_of(v.as_str());
                    let mut k: usize = 0;
                    assert(cv@.skip(0) =~= cv@);
                    while k < cv.len() && cv[k] == 'v'
                        invariant
                            k <= cv@.len(),
                            strip_leading_v(cv@) == strip_leading_v(cv@.skip(k as int)),
                        decreases cv@.len() - k,
                    {
                        assert(cv@.skip(k as int).drop_first() =~= cv@.skip(k + 1));
                        k += 1;
                    }
                    let stripped = string_of_range(&cv, k, cv.len());
                    assert(stripped@ =~= cv@.skip(k as int));
                    assert(stripped@ == strip_leading_v(v@));
                    let sv = chars_of(stripped.as_str());
                    let mut ok = pv.len() <= sv.len();
                    let mut j: usize = 0;
                    while ok && j < pv.len()
                        invariant
                            pv@ == prefix@,
                            sv@ == stripped@,
                            ok ==> pv@.len() <= sv@.len(),
                            j <= pv@.len(),
                            ok ==> forall|q: int| 0 <= q < j ==> sv@[q] == pv@[q],
                            !ok ==> !starts_with(stripped@, prefix@),
                        decreases pv@.len() - j + (if ok { 1int } else { 0int }),
                    {
                        if sv[j] != pv[j] {
                            assert(sv@.take(pv@.len() as int)[j as int] != pv@[j as int]);
                            ok = false;
                        } else {
                            j += 1;
                        }
                    }
                    if ok {
                        assert(sv@.take(pv@.len() as int) =~= pv@);
                        return Some(stripped);
                    }
                },
                None => {},
            }
            i += 1;
        }
        None
    }
}

/// A separator of checksum-file tokens: whitespace, `=`, `(` or `)`.
pub open spec fn is_token_sep(c: char) -> bool {
    is_ws(c) || c == '=' || c == '(' || c == ')'
}

/// The tokens of `s`, after a token `cur` already begun.
pub open spec fn tokens_from(s: Seq<char>, cur: Seq<char>) -> Seq<Seq<char>>
    decreases s.len(),
{
    if s.len() == 0 {
        if cur.len() > 0 {
            seq![cur]
        } else {
            Seq::empty()
        }
    } else if is_token_sep(s[0]) {
        (if cur.len() > 0 {
            seq![cur]
        } else {
            Seq::empty()
        }) + tokens_from(s.drop_first(), Seq::empty())
    } else {
        tokens_from(s.drop_first(), cur.push(s[0]))
    }
}

/// The non-empty runs of non-separators of `s`.
pub open spec fn tokens(s: Seq<char>) -> Seq<Seq<char>> {
    tokens_from(s, Seq::empty())
}

/// Sixty-four hexadecimal digits.
pub open spec fn is_sha256_hex(t: Seq<char>) -> bool {
    t.len() == 64 && forall|i: int| 0 <= i < 64 ==> #[trigger] hex_value(t[i]) is Some
}

/// The first token that is a SHA-256 in hexadecimal.
pub open spec fn first_sha256(toks: Seq<Seq<char>>) -> Option<Seq<char>>
    decreases toks.len(),
{
    if toks.len() == 0 {
        None
    } else if is_sha256_hex(toks[0]) {
        Some(toks[0])
    } else {
        first_sha256(toks.drop_first())
    }
}

/// The first hash on a non-blank line that mentions `name`.
pub open spec fn hinted_sha256(lines: Seq<Seq<char>>, name: Seq<char>) -> Option<Seq<char>>
    decreases lines.len(),
{
    if lines.len() == 0 {
        None
    } else {
        let l = trim(lines[0]);
        if l.len() > 0 && contains_seq(l, name) && first_sha256(tokens(l)) is Some {
            first_sha256(tokens(l))
        } else {
            hinted_sha256(lines.drop_first(), name)
        }
    }
}

/// The expected SHA-256 in a checksum file: on a line naming the file where
/// a name is given, else anywhere; lowercased.
pub open spec fn sha256_in_text(text: Seq<char>, name: Option<Seq<char>>) -> Option<Seq<char>> {
    let hinted = match name {
        Some(n) => hinted_sha256(split_char(text, '\n'), n),
        None => None,
    };
    match hinted {
        Some(h) => Some(ascii_lower(h)),
        None => match first_sha256(tokens(text)) {
            Some(h) => Some(ascii_lower(h)),
            None => None,
        },
    }
}

fn is_token_sep_exec(c: char) -> (r: bool)
    ensures
        r == is_token_sep(c),
{
    is_ws_exec(c) || c == '=' || c == '(' || c == ')'
}

/// The tokens of a text.
pub fn tokens_of(s: &str) -> (r: Vec<String>)
    ensures
        strs_view(r@) == tokens(s@),
{
    let v = chars_of(s);
    let mut out: Vec<String> = Vec::new();
    let mut cur: Vec<char> = Vec::new();
    let mut i: usize = 0;
    assert(v@.skip(0) =~= v@);
    assert(strs_view(out@) + tokens_from(v@.skip(0), cur@) =~= tokens(s@));
    while i < v.len()
        invariant
            v@ == s@,
            i <= v@.len(),
            strs_view(out@) + tokens_from(v@.skip(i as int), cur@) == tokens(s@),
        decreases v@.len() - i,
    {
        let ghost rest = v@.skip(i as int);
        assert(rest[0] == v@[i as int]);
        assert(rest.drop_first() =~= v@.skip(i + 1));
        let ghost before = strs_view(out@);
        let ghost cv = cur@;
        if is_token_sep_exec(v[i]) {
            if cur.len() > 0 {
                let t = string_of(&cur);
                push_string(&mut out, t);
                cur = Vec::new();
                assert(strs_view(out@) + tokens_from(v@.skip(i + 1), cur@) =~= before + tokens_from(rest, cv));
            } else {
                assert(cur@ =~= Seq::<char>::empty());
                assert(strs_view(out@) + tokens_from(v@.skip(i + 1), cur@) =~= before + tokens_from(rest, cur@));
            }
        } else {
            cur.push(v[i]);
        }
        i += 1;
    }
    if cur.len() > 0 {
        let t = string_of(&cur);
        push_string(&mut out, t);
    }
    assert(v@.skip(i as int).len() == 0);
    assert(strs_view(out@) =~= tokens(s@));
    out
}

fn is_sha256_hex_exec(t: &str) -> (r: bool)
    ensures
        r == is_sha256_hex(t@),
{
    let v = chars_of(t);
    if v.len() != 64 {
        return false;
    }
    let mut i: usize = 0;
    while i < 64
        invariant
            v@ == t@,
            v@.len() == 64,
            i <= 64,
            forall|k: int| 0 <= k < i ==> #[trigger] hex_value(v@[k]) is Some,
        decreases 64 - i,
    {
        let c = v[i];
        if !(('0' <= c && c <= '9') || ('a' <= c && c <= 'f') || ('A' <= c && c <= 'F')) {
            assert(hex_value(v@[i as int]) is None);
            return false;
        }
        i += 1;
    }
    true
}

fn first_sha256_of(toks: &Vec<String>) -> (r: Option<String>)
    ensures
        match (r, first_sha256(strs_view(toks@))) {
            (Some(a), Some(b)) => a@ == b,
            (None, None) => true,
            _ => false,
        },
{
    let ghost tv = strs_view(toks@);
    let mut i: usize = 0;
    assert(tv.skip(0) =~= tv);
    while i < toks.len()
        invariant
            tv == strs_view(toks@),
            i <= toks@.len(),
            first_sha256(tv) == first_sha256(tv.skip(i as int)),
        decreases toks@.len() - i,
    {
        assert(tv.skip(i as int)[0] == tv[i as int]);
        assert(tv.skip(i as int).drop_first() =~= tv.skip(i + 1));
        if is_sha256_hex_exec(toks[i].as_str()) {
            return Some(toks[i].clone());
        }
        i += 1;
    }
    None
}

fn hinted_sha256_of(text: &str, name: &str) -> (r: Option<String>)
    ensures
        match (r, hinted_sha256(split_char(text@, '\n'), name@)) {
            (Some(a), Some(b)) => a@ == b,
            (None, None) => true,
            _ => false,
        },
{
    let v = chars_of(text);
    let ranges = split_char_ranges(&v, '\n');
    let ghost lines = split_char(text@, '\n');
    let nv = chars_of(name);
    let mut i: usize = 0;
    assert(lines.skip(0) =~= lines);
    while i < ranges.len()
        invariant
            v@ == text@,
            nv@ == name@,
            lines == split_char(text@, '\n'),
            Seq::new(ranges@.len(), |q: int| v@.subrange(ranges@[q].0 as int, ranges@[q].1 as int))
                == lines,
            forall|q: int| 0 <= q < ranges@.len() ==> #[trigger] ranges@[q].0 <= ranges@[q].1 <= v@.len(),
            i <= ranges@.len(),
            hinted_sha256(lines, name@) == hinted_sha256(lines.skip(i as int), name@),
        decreases ranges@.len() - i,
    {
        assert(lines.skip(i as int)[0] == lines[i as int]);
        assert(lines.skip(i as int).drop_first() =~= lines.skip(i + 1));
        let raw = string_of_range(&v, ranges[i].0, ranges[i].1);
        assert(raw@ == lines[i as int]);
        let line = trim_str(raw.as_str());
        let lv = chars_of(line.as_str());
        assert(lv@.skip(0) =~= lv@);
        if lv.len() > 0 && find_from(&lv, &nv, 0).is_some() {
            let toks = tokens_of(line.as_str());
            match first_sha256_of(&toks) {
                Some(h) => {
                    return Some(h);
                },
                None => {},
            }
        }
        i += 1;
    }
    None
}

impl RuntimeFetcher {
    /// The expected SHA-256 in a checksum file (`SHASUMS256.txt`,
    /// `*.sha256sum`, `SHA256 (<file>) = <hash>` or a lone hash): on a line
    /// naming `filename_hint` where one is given, else the first anywhere;
    /// lowercased.
    pub fn parse_sha256_from_text(text: &str, filename_hint: Option<&str>) -> (r: Result<String, String>)
        ensures
            match sha256_in_text(
                text@,
                match filename_hint {
                    Some(n) => Some(n@),
                    None => None,
                },
            ) {
                Some(h) => r matches Ok(x) && x@ == h,
                None => r matches Err(m) && m@ == "Could not parse sha256 from text"@,
            },
    {
        let hinted: Option<String> = match filename_hint {
            Some(name) => hinted_sha256_of(text, name),
            None => None,
        };
        match hinted {
            Some(h) => Ok(to_ascii_lower(h.as_str())),
            None => {
                let toks = tokens_of(text);
                match first_sha256_of(&toks) {
                    Some(h) => Ok(to_ascii_lower(h.as_str())),
                    None => Err(String::from_str("Could not parse sha256 from text")),
                }
            },
        }
    }
}

} // verus!
