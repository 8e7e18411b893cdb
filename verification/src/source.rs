//! The source runtime: execution mode, configuration, and the container
//! image and command used when a source target runs in a container.

use vstd::prelude::*;
use crate::storage::{path_join, join_path};
use crate::text::{
    ascii_lower, chars_of, split_char, split_char_ranges, starts_with, str_eq, string_of_range,
    strs_view, to_ascii_lower,
};

verus! {

/// How a source target runs.
#[derive(Clone, Copy, Debug, PartialEq, Eq, Structural)]
pub enum SourceRuntimeMode {
    /// On the host, inside the platform sandbox.
    Native,
    /// In an OCI container.
    Containerized,
}

/// Configuration of the source runtime.
#[derive(Debug)]
pub struct SourceRuntimeConfig {
    /// Prefer native execution.
    pub dev_mode: bool,
    pub log_dir: String,
    pub state_dir: String,
}

impl SourceRuntimeConfig {
    /// The default configuration, given the value of `ATO_DEV_MODE` (dev mode
    /// when it is `true` or `1`).
    pub fn with_dev_mode_var(var: Option<&str>) -> (c: Self)
        ensures
            c.dev_mode == (var matches Some(v) && (v@ == "true"@ || v@ == "1"@)),
            c.log_dir@ == "/tmp/capsuled/logs"@,
            c.state_dir@ == "/tmp/capsuled/state"@,
    {
        let dev_mode = match var {
            Some(v) => str_eq(v, "true") || str_eq(v, "1"),
            None => false,
        };
        SourceRuntimeConfig {
            dev_mode,
            log_dir: "/tmp/capsuled/logs".to_owned(),
            state_dir: "/tmp/capsuled/state".to_owned(),
        }
    }

    /// Log file of a workload: `<log_dir>/<id>.log`.
    pub fn workload_log_path(&self, workload_id: &str) -> (r: String)
        ensures
            r@ == path_join(self.log_dir@, workload_id@ + ".log"@),
    {
        let mut name = workload_id.to_owned();
        name.append(".log");
        join_path(self.log_dir.as_str(), name.as_str())
    }
}

/// The mode for a target: native only in dev mode, with a toolchain at hand
/// (local, already fetched, or fetchable on demand) and a native sandbox.
pub open spec fn mode_for(
    dev_mode: bool,
    has_toolchain: bool,
    has_jit_cached: bool,
    jit_enabled: bool,
    sandbox_available: bool,
) -> SourceRuntimeMode {
    if dev_mode && (has_toolchain || has_jit_cached || jit_enabled) && sandbox_available {
        SourceRuntimeMode::Native
    } else {
        SourceRuntimeMode::Containerized
    }
}

pub fn determine_mode(
    dev_mode: bool,
    has_toolchain: bool,
    has_jit_cached: bool,
    jit_enabled: bool,
    sandbox_available: bool,
) -> (m: SourceRuntimeMode)
    ensures
        m == mode_for(dev_mode, has_toolchain, has_jit_cached, jit_enabled, sandbox_available),
{
    if !dev_mode {
        return SourceRuntimeMode::Containerized;
    }
    if has_toolchain || has_jit_cached {
        if sandbox_available {
            SourceRuntimeMode::Native
        } else {
            SourceRuntimeMode::Containerized
        }
    } else if jit_enabled {
        if sandbox_available {
            SourceRuntimeMode::Native
        } else {
            SourceRuntimeMode::Containerized
        }
    } else {
        SourceRuntimeMode::Containerized
    }
}

/// Outside dev mode a source workload always runs containerized, whatever
/// toolchains and sandboxes are at hand.
pub proof fn lemma_production_runs_containerized(
    has_toolchain: bool,
    has_jit_cached: bool,
    jit_enabled: bool,
    sandbox_available: bool,
)
    ensures
        mode_for(false, has_toolchain, has_jit_cached, jit_enabled, sandbox_available)
            == SourceRuntimeMode::Containerized,
{
}

/// In development mode with a native sandbox, a local toolchain, or a
/// cached downloaded one, is enough to run natively, whatever the other
/// inputs; without a sandbox nothing runs natively.
pub proof fn lemma_dev_toolchain_runs_natively(c: bool, j: bool, t: bool, d: bool)
    ensures
        mode_for(true, true, c, j, true) == SourceRuntimeMode::Native,
        mode_for(true, t, true, j, true) == SourceRuntimeMode::Native,
        mode_for(true, t, c, true, true) == SourceRuntimeMode::Native,
        mode_for(d, t, c, j, false) == SourceRuntimeMode::Containerized,
        mode_for(true, false, false, false, true) == SourceRuntimeMode::Containerized,
{
}

pub const PYTHON_IMAGE: &'static str = "python:3.11-slim";
pub const NODE_IMAGE: &'static str = "node:20-slim";
pub const DENO_IMAGE: &'static str = "denoland/deno:latest";
pub const RUBY_IMAGE: &'static str = "ruby:3.2-slim";
pub const PERL_IMAGE: &'static str = "perl:5.38-slim";

/// Language families, by lowercase name.
pub open spec fn is_python(l: Seq<char>) -> bool {
    l == "python"@ || l == "python3"@
}

pub open spec fn is_node(l: Seq<char>) -> bool {
    l == "node"@ || l == "nodejs"@
}

/// The container image for a language and optional version (language names
/// compared in lowercase; Unicode lowercasing agrees with ASCII lowercasing
/// on these names).
pub open spec fn image_for(language: Seq<char>, version: Option<Seq<char>>) -> Seq<char> {
    let l = ascii_lower(language);
    if is_python(l) {
        match version {
            Some(v) => if starts_with(v, "3."@) {
                "python:"@ + v + "-slim"@
            } else {
                PYTHON_IMAGE@
            },
            None => PYTHON_IMAGE@,
        }
    } else if is_node(l) {
        match version {
            Some(v) => "node:"@ + split_char(v, '.')[0] + "-slim"@,
            None => NODE_IMAGE@,
        }
    } else if l == "deno"@ {
        DENO_IMAGE@
    } else if l == "ruby"@ {
        match version {
            Some(v) => "ruby:"@ + v + "-slim"@,
            None => RUBY_IMAGE@,
        }
    } else if l == "perl"@ {
        PERL_IMAGE@
    } else {
        "alpine:latest"@
    }
}

fn three_parts(a: &str, b: &str, c: &str) -> (r: String)
    ensures
        r@ == a@ + b@ + c@,
{
    let mut s = String::from_str(a);
    s.append(b);
    s.append(c);
    s
}

pub fn select_image_for_language(language: &str, version: Option<&str>) -> (r: String)
    ensures
        r@ == image_for(
            language@,
            match version {
                Some(v) => Some(v@),
                None => None,
            },
        ),
{
    let lower = to_ascii_lower(language);
    let l = lower.as_str();
    if str_eq(l, "python") || str_eq(l, "python3") {
        match version {
            Some(v) => {
                let vv = chars_of(v);
                let p = chars_of("3.");
                assert(vv@.skip(0) =~= vv@);
                if crate::text::matches_at(&vv, 0, &p) {
                    three_parts("python:", v, "-slim")
                } else {
                    PYTHON_IMAGE.to_owned()
                }
            },
            None => PYTHON_IMAGE.to_owned(),
        }
    } else if str_eq(l, "node") || str_eq(l, "nodejs") {
        match version {
            Some(v) => {
                let vv = chars_of(v);
                let ranges = split_char_ranges(&vv, '.');
                let major = string_of_range(&vv, ranges[0].0, ranges[0].1);
                three_parts("node:", major.as_str(), "-slim")
            },
            None => NODE_IMAGE.to_owned(),
        }
    } else if str_eq(l, "deno") {
        DENO_IMAGE.to_owned()
    } else if str_eq(l, "ruby") {
        match version {
            Some(v) => three_parts("ruby:", v, "-slim"),
            None => RUBY_IMAGE.to_owned(),
        }
    } else if str_eq(l, "perl") {
        PERL_IMAGE.to_owned()
    } else {
        "alpine:latest".to_owned()
    }
}

/// The command that runs `entrypoint` in a container for a language,
/// followed by the user's arguments.
pub open spec fn entrypoint_for(language: Seq<char>, entrypoint: Seq<char>, args: Seq<Seq<char>>) -> Seq<
    Seq<char>,
> {
    let l = ascii_lower(language);
    let head = if is_python(l) {
        seq!["python3"@, "-u"@, entrypoint]
    } else if is_node(l) {
        seq!["node"@, entrypoint]
    } else if l == "deno"@ {
        seq!["deno"@, "run"@, "--allow-read"@, entrypoint]
    } else if l == "ruby"@ {
        seq!["ruby"@, entrypoint]
    } else if l == "perl"@ {
        seq!["perl"@, entrypoint]
    } else {
        seq!["/bin/sh"@, entrypoint]
    };
    head + args
}

pub fn build_entrypoint(language: &str, entrypoint: &str, args: &Vec<String>) -> (r: Vec<String>)
    ensures
        strs_view(r@) == entrypoint_for(language@, entrypoint@, strs_view(args@)),
{
    let lower = to_ascii_lower(language);
    let l = lower.as_str();
    let mut cmd: Vec<String> = if str_eq(l, "python") || str_eq(l, "python3") {
        vec!["python3".to_owned(), "-u".to_owned(), entrypoint.to_owned()]
    } else if str_eq(l, "node") || str_eq(l, "nodejs") {
        vec!["node".to_owned(), entrypoint.to_owned()]
    } else if str_eq(l, "deno") {
        vec!["deno".to_owned(), "run".to_owned(), "--allow-read".to_owned(), entrypoint.to_owned()]
    } else if str_eq(l, "ruby") {
        vec!["ruby".to_owned(), entrypoint.to_owned()]
    } else if str_eq(l, "perl") {
        vec!["perl".to_owned(), entrypoint.to_owned()]
    } else {
        vec!["/bin/sh".to_owned(), entrypoint.to_owned()]
    };
    let ghost head = strs_view(cmd@);
    let mut i: usize = 0;
    while i < args.len()
        invariant
            i <= args@.len(),
            strs_view(cmd@) == head + strs_view(args@).take(i as int),
        decreases args@.len() - i,
    {
        let ghost old = cmd@;
        let a = args[i].clone();
        cmd.push(a);
        assert(strs_view(cmd@) =~= strs_view(old).push(args@[i as int]@));
        assert(strs_view(args@).take(i + 1) =~= strs_view(args@).take(i as int).push(args@[i as int]@));
        i += 1;
        assert(strs_view(cmd@) =~= head + strs_view(args@).take(i as int));
    }
    assert(strs_view(args@).take(args@.len() as int) =~= strs_view(args@));
    proof {
        let hv = entrypoint_for(language@, entrypoint@, strs_view(args@));
        assert(head + strs_view(args@) =~= hv) by {
            assert(head =~= hv.take(head.len() as int));
        }
    }
    cmd
}

} // verus!
