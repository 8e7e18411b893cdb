//! Sandboxed launches of source workloads: the `bwrap` command line on
//! Linux, the `sandbox-exec` command line and Seatbelt profile on macOS.

use vstd::prelude::*;
use crate::launch_env::{first_value, first_value_of, pairs_view};
use crate::runtime_config::which_binary;
use crate::text::{
    opt_view, byte_prefix, cuttable, push_str, push_string, replace_all, replace_str, str_eq, strs_view, take_bytes,
    to_lowercase, unicode_lower, all_ascii, ascii_lower,
};

verus! {

/// A source workload as the sandboxes run it.
#[derive(Debug)]
pub struct SourceTarget {
    pub language: String,
    pub version: Option<String>,
    pub entrypoint: String,
    pub dependencies: Option<String>,
    /// Arguments given after the entrypoint.
    pub args: Vec<String>,
    pub source_dir: String,
    /// An explicit command (program, then arguments), which replaces the
    /// language's own way of running the entrypoint.
    pub cmd: Option<Vec<String>>,
    pub dev_mode: bool,
}

/// The interpreter's arguments inside `bwrap`, by lowercased language.
pub open spec fn bwrap_language_args(lang: Seq<char>, entrypoint: Seq<char>) -> Seq<Seq<char>> {
    if lang == "python"@ {
        seq!["-B"@, entrypoint]
    } else if lang == "deno"@ {
        seq!["run"@, "--allow-read=/app"@, entrypoint]
    } else {
        seq![entrypoint]
    }
}

/// The `bwrap` arguments: every namespace unshared (the network kept only in
/// development mode), a private `/proc`, `/dev` and `/tmp`, the system and the
/// toolchain bound read-only, the source bound read-only at `/app`; outside
/// development mode a cleared environment and no `/dev/kvm`; then the
/// interpreter, the entrypoint and the workload's arguments.
pub open spec fn bwrap_args_spec(
    dev_mode: bool,
    language_lower: Seq<char>,
    entrypoint: Seq<char>,
    args: Seq<Seq<char>>,
    source_dir: Seq<char>,
    toolchain: Seq<char>,
) -> Seq<Seq<char>> {
    bwrap_namespaces(dev_mode) + bwrap_mounts(source_dir, toolchain) + bwrap_hardening(dev_mode) + seq![
        "--"@,
        toolchain,
    ] + bwrap_language_args(language_lower, entrypoint) + args
}

/// Namespaces: all unshared, the network shared back only in development mode.
pub open spec fn bwrap_namespaces(dev_mode: bool) -> Seq<Seq<char>> {
    if dev_mode {
        seq!["--unshare-all"@, "--share-net"@]
    } else {
        seq!["--unshare-all"@]
    }
}

/// The file system: private `/proc`, `/dev` and `/tmp`, the system, the
/// toolchain and (at `/app`, the working directory) the source read-only; a
/// new session without capabilities.
pub open spec fn bwrap_mounts(source_dir: Seq<char>, toolchain: Seq<char>) -> Seq<Seq<char>> {
    seq![
        "--die-with-parent"@, "--proc"@, "/proc"@, "--dev"@, "/dev"@, "--tmpfs"@, "/tmp"@,
        "--ro-bind"@, "/lib"@, "/lib"@, "--ro-bind"@, "/lib64"@, "/lib64"@, "--ro-bind"@, "/usr"@,
        "/usr"@, "--ro-bind"@, "/etc/resolv.conf"@, "/etc/resolv.conf"@, "--ro-bind"@,
        "/etc/hosts"@, "/etc/hosts"@, "--ro-bind"@, "/etc/ssl"@, "/etc/ssl"@,
    ] + seq!["--ro-bind"@, toolchain, toolchain, "--ro-bind"@, source_dir, "/app"@, "--chdir"@, "/app"@]
        + seq!["--new-session"@, "--cap-drop"@, "ALL"@]
}

/// Outside development mode: a cleared environment with a minimal `PATH`,
/// `HOME` and `LANG`, and no `/dev/kvm`.
pub open spec fn bwrap_hardening(dev_mode: bool) -> Seq<Seq<char>> {
    if !dev_mode {
        seq![
            "--clearenv"@, "--setenv"@, "PATH"@, "/usr/bin:/bin"@, "--setenv"@, "HOME"@, "/tmp"@,
            "--setenv"@, "LANG"@, "C.UTF-8"@, "--ro-bind"@, "/dev/null"@, "/dev/kvm"@,
        ]
    } else {
        Seq::empty()
    }
}

fn push_strs(out: &mut Vec<String>, items: &Vec<&str>)
    ensures
        strs_view(final(out)@) == strs_view(old(out)@) + Seq::new(items@.len(), |k: int| items@[k]@),
{
    let ghost start = strs_view(out@);
    let mut i: usize = 0;
    while i < items.len()
        invariant
            i <= items@.len(),
            strs_view(out@) == start + Seq::new(i as nat, |k: int| items@[k]@),
        decreases items@.len() - i,
    {
        push_str(out, items[i]);
        assert(strs_view(out@) =~= start + Seq::new((i + 1) as nat, |k: int| items@[k]@));
        i += 1;
    }
}

fn bwrap_mounts_args(source_dir: &str, toolchain: &str) -> (r: Vec<String>)
    ensures
        strs_view(r@) == bwrap_mounts(source_dir@, toolchain@),
{
    let mut out: Vec<String> = Vec::new();
    let fixed: Vec<&str> = vec![
        "--die-with-parent", "--proc", "/proc", "--dev", "/dev", "--tmpfs", "/tmp",
        "--ro-bind", "/lib", "/lib", "--ro-bind", "/lib64", "/lib64", "--ro-bind", "/usr",
        "/usr", "--ro-bind", "/etc/resolv.conf", "/etc/resolv.conf", "--ro-bind",
        "/etc/hosts", "/etc/hosts", "--ro-bind", "/etc/ssl", "/etc/ssl",
    ];
    push_strs(&mut out, &fixed);
    assert(strs_view(out@) =~= seq![
        "--die-with-parent"@, "--proc"@, "/proc"@, "--dev"@, "/dev"@, "--tmpfs"@, "/tmp"@,
        "--ro-bind"@, "/lib"@, "/lib"@, "--ro-bind"@, "/lib64"@, "/lib64"@, "--ro-bind"@, "/usr"@,
        "/usr"@, "--ro-bind"@, "/etc/resolv.conf"@, "/etc/resolv.conf"@, "--ro-bind"@,
        "/etc/hosts"@, "/etc/hosts"@, "--ro-bind"@, "/etc/ssl"@, "/etc/ssl"@,
    ]);
    let ghost s0 = strs_view(out@);
    push_str(&mut out, "--ro-bind");
    push_str(&mut out, toolchain);
    push_str(&mut out, toolchain);
    push_str(&mut out, "--ro-bind");
    push_str(&mut out, source_dir);
    push_str(&mut out, "/app");
    push_str(&mut out, "--chdir");
    push_str(&mut out, "/app");
    push_str(&mut out, "--new-session");
    push_str(&mut out, "--cap-drop");
    push_str(&mut out, "ALL");
    assert(strs_view(out@) =~= bwrap_mounts(source_dir@, toolchain@));
    out
}

fn bwrap_hardening_args(dev_mode: bool) -> (r: Vec<String>)
    ensures
        strs_view(r@) == bwrap_hardening(dev_mode),
{
    let mut out: Vec<String> = Vec::new();
    if !dev_mode {
        let items: Vec<&str> = vec![
            "--clearenv", "--setenv", "PATH", "/usr/bin:/bin", "--setenv", "HOME", "/tmp",
            "--setenv", "LANG", "C.UTF-8", "--ro-bind", "/dev/null", "/dev/kvm",
        ];
        push_strs(&mut out, &items);
    }
    assert(strs_view(out@) =~= bwrap_hardening(dev_mode));
    out
}

fn push_all(out: &mut Vec<String>, items: &Vec<String>)
    ensures
        strs_view(final(out)@) == strs_view(old(out)@) + strs_view(items@),
{
    let ghost start = strs_view(out@);
    let mut i: usize = 0;
    while i < items.len()
        invariant
            i <= items@.len(),
            strs_view(out@) == start + strs_view(items@).take(i as int),
        decreases items@.len() - i,
    {
        push_string(out, items[i].clone());
        assert(strs_view(out@) =~= start + strs_view(items@).take(i + 1));
        i += 1;
    }
    assert(strs_view(items@).take(items@.len() as int) =~= strs_view(items@));
}

/// The arguments of `bwrap` for a source workload run by `toolchain`.
pub fn bubblewrap_args(target: &SourceTarget, toolchain: &str) -> (r: Vec<String>)
    ensures
        strs_view(r@) == bwrap_args_spec(
            target.dev_mode,
            unicode_lower(target.language@),
            target.entrypoint@,
            strs_view(target.args@),
            target.source_dir@,
            toolchain@,
        ),
{
    let mut out: Vec<String> = Vec::new();
    push_str(&mut out, "--unshare-all");
    if target.dev_mode {
        push_str(&mut out, "--share-net");
    }
    assert(strs_view(out@) =~= bwrap_namespaces(target.dev_mode));
    let mounts = bwrap_mounts_args(target.source_dir.as_str(), toolchain);
    push_all(&mut out, &mounts);
    let hardening = bwrap_hardening_args(target.dev_mode);
    push_all(&mut out, &hardening);
    let ghost s2 = strs_view(out@);
    push_str(&mut out, "--");
    push_str(&mut out, toolchain);
    let lang = to_lowercase(target.language.as_str());
    if str_eq(lang.as_str(), "python") {
        push_str(&mut out, "-B");
        push_str(&mut out, target.entrypoint.as_str());
    } else if str_eq(lang.as_str(), "deno") {
        push_str(&mut out, "run");
        push_str(&mut out, "--allow-read=/app");
        push_str(&mut out, target.entrypoint.as_str());
    } else {
        push_str(&mut out, target.entrypoint.as_str());
    }
    assert(strs_view(out@) =~= s2 + seq!["--"@, toolchain@] + bwrap_language_args(unicode_lower(target.language@), target.entrypoint@));
    push_all(&mut out, &target.args);
    assert(strs_view(out@) =~= bwrap_args_spec(
        target.dev_mode,
        unicode_lower(target.language@),
        target.entrypoint@,
        strs_view(target.args@),
        target.source_dir@,
        toolchain@,
    ));
    out
}

/// The Seatbelt profile of development mode: everything allowed but writes
/// under `/System` and `/Library`.
pub open spec fn dev_profile() -> Seq<char> {
    "(version 1)\n(allow default)\n\n; Even in dev mode, protect critical system paths\n(deny file-write* (subpath \"/System\") (with send-signal SIGKILL))\n(deny file-write* (subpath \"/Library\") (with send-signal SIGKILL))\n"@
}

/// The Seatbelt profile outside development mode: denied by default; the
/// source directory, the toolchain and the system libraries readable; `/tmp`
/// writable; the network denied.
pub open spec fn strict_profile(source_dir: Seq<char>, toolchain_dir: Seq<char>, toolchain: Seq<char>) -> Seq<char> {
    "(version 1)\n(deny default)\n\n; Allow essential process operations\n(allow process-fork)\n(allow process-exec)\n(allow signal (target self))\n\n; Allow read access to the capsule source directory (read-only)\n(allow file-read* (subpath \""@ + source_dir + "\"))\n\n; Allow read access to the toolchain binary and its directory\n(allow file-read* (subpath \""@ + toolchain_dir + "\"))\n(allow file-read* (literal \""@ + toolchain + "\"))\n\n; Allow read access to essential system libraries\n(allow file-read* (subpath \"/usr/lib\"))\n(allow file-read* (subpath \"/System/Library/Frameworks\"))\n(allow file-read* (subpath \"/Library/Frameworks\"))\n(allow file-read* (subpath \"/opt/homebrew\"))\n(allow file-read* (subpath \"/usr/local\"))\n(allow file-read* (regex \"^/usr/share/.*\"))\n\n; Allow read access to SSL certificates\n(allow file-read* (subpath \"/etc/ssl\"))\n(allow file-read* (subpath \"/private/etc/ssl\"))\n\n; Allow read access to essential runtime files\n(allow file-read* (literal \"/dev/null\"))\n(allow file-read* (literal \"/dev/urandom\"))\n(allow file-read* (literal \"/dev/random\"))\n(allow file-write* (literal \"/dev/null\"))\n\n; Allow tmp directory access (write)\n(allow file-read* (subpath \"/tmp\"))\n(allow file-read* (subpath \"/private/tmp\"))\n(allow file-write* (subpath \"/tmp\"))\n(allow file-write* (subpath \"/private/tmp\"))\n\n; Allow network access only if needed (commented out by default)\n; To enable: uncomment the following line\n; (allow network*)\n\n; Allow mach ports for basic IPC\n(allow mach-lookup)\n\n; Allow sysctl read for basic system info\n(allow sysctl-read)\n\n; Deny all network by default in production\n(deny network*)\n"@
}

/// What `std::path::Path::parent` gives for a path, as text: the path without
/// its last component, `None` for a root or an empty path.
pub uninterp spec fn path_parent_of(p: Seq<char>) -> Option<Seq<char>>;

/// `Path::parent`, on a path held as text; the result is named, not spelled out.
#[verifier::external_body]
pub(crate) fn path_parent(p: &str) -> (r: Option<String>)
    ensures
        match r {
            Some(q) => path_parent_of(p@) == Some(q@),
            None => path_parent_of(p@) is None,
        },
{
    std::path::Path::new(p).parent().map(|q| q.to_string_lossy().into_owned())
}

/// The directory whose contents the strict profile makes readable for a
/// toolchain: its parent, else `/usr/bin`.
pub open spec fn toolchain_dir(toolchain: Seq<char>) -> Seq<char> {
    match path_parent_of(toolchain) {
        Some(d) => d,
        None => "/usr/bin"@,
    }
}

/// The Seatbelt profile for a source workload.
pub open spec fn seatbelt_profile_spec(dev_mode: bool, source_dir: Seq<char>, toolchain: Seq<char>) -> Seq<char> {
    if dev_mode {
        dev_profile()
    } else {
        strict_profile(source_dir, toolchain_dir(toolchain), toolchain)
    }
}

/// Generate the Seatbelt profile that `sandbox-exec` runs a workload under.
pub fn generate_seatbelt_profile(target: &SourceTarget, toolchain: &str) -> (r: String)
    ensures
        r@ == seatbelt_profile_spec(target.dev_mode, target.source_dir@, toolchain@),
{
    if target.dev_mode {
        return String::from_str("(version 1)\n(allow default)\n\n; Even in dev mode, protect critical system paths\n(deny file-write* (subpath \"/System\") (with send-signal SIGKILL))\n(deny file-write* (subpath \"/Library\") (with send-signal SIGKILL))\n");
    }
    let dir = match path_parent(toolchain) {
        Some(d) => d,
        None => String::from_str("/usr/bin"),
    };
    let mut s = String::from_str("(version 1)\n(deny default)\n\n; Allow essential process operations\n(allow process-fork)\n(allow process-exec)\n(allow signal (target self))\n\n; Allow read access to the capsule source directory (read-only)\n(allow file-read* (subpath \"");
    s.append(target.source_dir.as_str());
    s.append("\"))\n\n; Allow read access to the toolchain binary and its directory\n(allow file-read* (subpath \"");
    s.append(dir.as_str());
    s.append("\"))\n(allow file-read* (literal \"");
    s.append(toolchain);
    s.append("\"))\n\n; Allow read access to essential system libraries\n(allow file-read* (subpath \"/usr/lib\"))\n(allow file-read* (subpath \"/System/Library/Frameworks\"))\n(allow file-read* (subpath \"/Library/Frameworks\"))\n(allow file-read* (subpath \"/opt/homebrew\"))\n(allow file-read* (subpath \"/usr/local\"))\n(allow file-read* (regex \"^/usr/share/.*\"))\n\n; Allow read access to SSL certificates\n(allow file-read* (subpath \"/etc/ssl\"))\n(allow file-read* (subpath \"/private/etc/ssl\"))\n\n; Allow read access to essential runtime files\n(allow file-read* (literal \"/dev/null\"))\n(allow file-read* (literal \"/dev/urandom\"))\n(allow file-read* (literal \"/dev/random\"))\n(allow file-write* (literal \"/dev/null\"))\n\n; Allow tmp directory access (write)\n(allow file-read* (subpath \"/tmp\"))\n(allow file-read* (subpath \"/private/tmp\"))\n(allow file-write* (subpath \"/tmp\"))\n(allow file-write* (subpath \"/private/tmp\"))\n\n; Allow network access only if needed (commented out by default)\n; To enable: uncomment the following line\n; (allow network*)\n\n; Allow mach ports for basic IPC\n(allow mach-lookup)\n\n; Allow sysctl read for basic system info\n(allow sysctl-read)\n\n; Deny all network by default in production\n(deny network*)\n");
    s
}

/// The interpreter's arguments under `sandbox-exec`, by lowercased language.
pub open spec fn seatbelt_language_args(lang: Seq<char>, entrypoint: Seq<char>) -> Seq<Seq<char>> {
    if lang == "python"@ || lang == "python3"@ {
        seq!["-B"@, entrypoint]
    } else if lang == "deno"@ {
        seq!["run"@, "--allow-read=."@, entrypoint]
    } else {
        seq![entrypoint]
    }
}

/// Programs that an explicit command runs with the toolchain itself.
pub open spec fn runs_on_toolchain(program: Seq<char>, language: Seq<char>) -> bool {
    program == language || program == "python"@ || program == "python3"@ || program == "node"@
        || program == "ruby"@ || program == "deno"@
}

/// A workload's command line after `prefix`: either the explicit command
/// (its program resolved: the toolchain for an interpreter, else what a
/// search of the `PATH` found, `found`, else the name as given; Python also
/// gets `-B`) or the toolchain with the language's own arguments; then the
/// workload's arguments.
pub open spec fn command_line_spec(
    prefix: Seq<Seq<char>>,
    language: Seq<char>,
    language_lower: Seq<char>,
    entrypoint: Seq<char>,
    args: Seq<Seq<char>>,
    cmd: Option<Seq<Seq<char>>>,
    toolchain: Seq<char>,
    found: Option<Seq<char>>,
) -> Seq<Seq<char>> {
    prefix + match cmd {
        Some(c) => if c.len() > 0 {
            let program = if runs_on_toolchain(c[0], language) {
                toolchain
            } else {
                match found {
                    Some(f) => f,
                    None => c[0],
                }
            };
            seq![program] + (if language == "python"@ {
                seq!["-B"@]
            } else {
                Seq::empty()
            }) + c.skip(1)
        } else {
            Seq::empty()
        },
        None => seq![toolchain] + seatbelt_language_args(language_lower, entrypoint),
    } + args
}

/// The arguments of `sandbox-exec`: `-f` and the profile, then the
/// workload's command line.
pub open spec fn sandbox_exec_args_spec(
    profile_path: Seq<char>,
    language: Seq<char>,
    language_lower: Seq<char>,
    entrypoint: Seq<char>,
    args: Seq<Seq<char>>,
    cmd: Option<Seq<Seq<char>>>,
    toolchain: Seq<char>,
    found: Option<Seq<char>>,
) -> Seq<Seq<char>> {
    command_line_spec(seq!["-f"@, profile_path], language, language_lower, entrypoint, args, cmd, toolchain, found)
}

/// The optional command of a target, by views.
pub open spec fn cmd_view(cmd: Option<Vec<String>>) -> Option<Seq<Seq<char>>> {
    match cmd {
        Some(c) => Some(strs_view(c@)),
        None => None,
    }
}

/// A workload's command line after `prefix`, given what a search of the
/// `PATH` found for the explicit command's program (`None`: nothing found).
pub fn command_line_with(
    prefix: Vec<String>,
    target: &SourceTarget,
    toolchain: &str,
    found: Option<String>,
) -> (r: Vec<String>)
    ensures
        strs_view(r@) == command_line_spec(
            strs_view(prefix@),
            target.language@,
            unicode_lower(target.language@),
            target.entrypoint@,
            strs_view(target.args@),
            cmd_view(target.cmd),
            toolchain@,
            opt_view(found),
        ),
{
    let mut out = prefix;
    let ghost s0 = strs_view(out@);
    match &target.cmd {
        Some(c) => {
            if c.len() > 0 {
                let p = c[0].as_str();
                let on_toolchain = str_eq(p, target.language.as_str()) || str_eq(p, "python") || str_eq(
                    p,
                    "python3",
                ) || str_eq(p, "node") || str_eq(p, "ruby") || str_eq(p, "deno");
                if on_toolchain {
                    push_str(&mut out, toolchain);
                } else {
                    match &found {
                        Some(f) => push_str(&mut out, f.as_str()),
                        None => push_str(&mut out, p),
                    }
                }
                if str_eq(target.language.as_str(), "python") {
                    push_str(&mut out, "-B");
                }
                let ghost s1 = strs_view(out@);
                let mut i: usize = 1;
                while i < c.len()
                    invariant
                        1 <= i <= c@.len(),
                        strs_view(out@) == s1 + strs_view(c@).skip(1).take(i - 1),
                    decreases c@.len() - i,
                {
                    push_string(&mut out, c[i].clone());
                    assert(strs_view(out@) =~= s1 + strs_view(c@).skip(1).take(i as int));
                    i += 1;
                }
                assert(strs_view(c@).skip(1).take(c@.len() - 1) =~= strs_view(c@).skip(1));
            }
        },
        None => {
            push_str(&mut out, toolchain);
            let lang = to_lowercase(target.language.as_str());
            if str_eq(lang.as_str(), "python") || str_eq(lang.as_str(), "python3") {
                push_str(&mut out, "-B");
                push_str(&mut out, target.entrypoint.as_str());
            } else if str_eq(lang.as_str(), "deno") {
                push_str(&mut out, "run");
                push_str(&mut out, "--allow-read=.");
                push_str(&mut out, target.entrypoint.as_str());
            } else {
                push_str(&mut out, target.entrypoint.as_str());
            }
        },
    }
    let ghost s2 = strs_view(out@);
    push_all(&mut out, &target.args);
    assert(strs_view(out@) =~= command_line_spec(
        s0,
        target.language@,
        unicode_lower(target.language@),
        target.entrypoint@,
        strs_view(target.args@),
        cmd_view(target.cmd),
        toolchain@,
        opt_view(found),
    ));
    out
}

/// The arguments of `sandbox-exec`, given what a search of the `PATH` found
/// for the explicit command's program (`None`: nothing found).
pub fn sandbox_exec_args_with(
    profile_path: &str,
    target: &SourceTarget,
    toolchain: &str,
    found: Option<String>,
) -> (r: Vec<String>)
    ensures
        strs_view(r@) == sandbox_exec_args_spec(
            profile_path@,
            target.language@,
            unicode_lower(target.language@),
            target.entrypoint@,
            strs_view(target.args@),
            cmd_view(target.cmd),
            toolchain@,
            opt_view(found),
        ),
{
    let mut prefix: Vec<String> = Vec::new();
    push_str(&mut prefix, "-f");
    push_str(&mut prefix, profile_path);
    proof {
        reveal_strlit("-f");
        assert(strs_view(prefix@) =~= seq!["-f"@, profile_path@]);
    }
    command_line_with(prefix, target, toolchain, found)
}

/// The arguments of `alcless`: `--plain` where the source directory is not
/// marked writable (no `.alcless_writable` in it), then the workload's
/// command line.
pub open spec fn alcless_args_spec(
    writable: bool,
    language: Seq<char>,
    language_lower: Seq<char>,
    entrypoint: Seq<char>,
    args: Seq<Seq<char>>,
    cmd: Option<Seq<Seq<char>>>,
    toolchain: Seq<char>,
    found: Option<Seq<char>>,
) -> Seq<Seq<char>> {
    command_line_spec(
        if writable { Seq::empty() } else { seq!["--plain"@] },
        language,
        language_lower,
        entrypoint,
        args,
        cmd,
        toolchain,
        found,
    )
}

/// The arguments of `alcless` (Alcoholless), given whether the source
/// directory is marked writable and what a search of the `PATH` found for the
/// explicit command's program.
pub fn alcless_args_with(
    writable: bool,
    target: &SourceTarget,
    toolchain: &str,
    found: Option<String>,
) -> (r: Vec<String>)
    ensures
        strs_view(r@) == alcless_args_spec(
            writable,
            target.language@,
            unicode_lower(target.language@),
            target.entrypoint@,
            strs_view(target.args@),
            cmd_view(target.cmd),
            toolchain@,
            opt_view(found),
        ),
{
    let mut prefix: Vec<String> = Vec::new();
    if !writable {
        push_str(&mut prefix, "--plain");
    }
    proof {
        reveal_strlit("--plain");
        if writable {
            assert(strs_view(prefix@) =~= Seq::<Seq<char>>::empty());
        } else {
            assert(strs_view(prefix@) =~= seq!["--plain"@]);
        }
    }
    command_line_with(prefix, target, toolchain, found)
}

/// The program an explicit command names, when the toolchain does not run it
/// (it is then looked up on the `PATH`).
fn program_to_search(target: &SourceTarget) -> (r: Option<&str>)
    ensures
        match r {
            Some(p) => target.cmd matches Some(c) && c@.len() > 0 && p@ == c@[0]@,
            None => !(target.cmd matches Some(c) && c@.len() > 0),
        },
{
    match &target.cmd {
        Some(c) => if c.len() > 0 {
            Some(c[0].as_str())
        } else {
            None
        },
        None => None,
    }
}

/// The arguments of `alcless`; an explicit command's program is looked up on
/// the `PATH`.
pub fn alcless_args(writable: bool, target: &SourceTarget, toolchain: &str) -> (r: Vec<String>)
    ensures
        exists|found: Option<Seq<char>>| strs_view(r@) == #[trigger] alcless_args_spec(
            writable,
            target.language@,
            unicode_lower(target.language@),
            target.entrypoint@,
            strs_view(target.args@),
            cmd_view(target.cmd),
            toolchain@,
            found,
        ),
{
    let found = match program_to_search(target) {
        Some(p) => which_binary(p),
        None => None,
    };
    let ghost fv = opt_view(found);
    let r = alcless_args_with(writable, target, toolchain, found);
    assert(strs_view(r@) == alcless_args_spec(
        writable,
        target.language@,
        unicode_lower(target.language@),
        target.entrypoint@,
        strs_view(target.args@),
        cmd_view(target.cmd),
        toolchain@,
        fv,
    ));
    r
}

/// The arguments are those of some outcome of the `PATH` search.
pub open spec fn sandbox_exec_args_for_some_search(
    r: Seq<Seq<char>>,
    profile_path: Seq<char>,
    target: SourceTarget,
    toolchain: Seq<char>,
) -> bool {
    exists|found: Option<Seq<char>>| r == #[trigger] sandbox_exec_args_spec(
        profile_path,
        target.language@,
        unicode_lower(target.language@),
        target.entrypoint@,
        strs_view(target.args@),
        cmd_view(target.cmd),
        toolchain,
        found,
    )
}

/// The arguments of `sandbox-exec`; an explicit command's program that the
/// toolchain does not run is looked up on the `PATH`.
pub fn sandbox_exec_args(profile_path: &str, target: &SourceTarget, toolchain: &str) -> (r: Vec<String>)
    ensures
        sandbox_exec_args_for_some_search(strs_view(r@), profile_path@, *target, toolchain@),
{
    let found = match &target.cmd {
        Some(c) => if c.len() > 0 {
            which_binary(c[0].as_str())
        } else {
            None
        },
        None => None,
    };
    let ghost fv = opt_view(found);
    let r = sandbox_exec_args_with(profile_path, target, toolchain, found);
    assert(strs_view(r@) == sandbox_exec_args_spec(
        profile_path@,
        target.language@,
        unicode_lower(target.language@),
        target.entrypoint@,
        strs_view(target.args@),
        cmd_view(target.cmd),
        toolchain@,
        fv,
    ));
    r
}

/// The environment a sandboxed source workload gets from the manifest's
/// `execution.env` (its string entries): those, then `PORT` set to
/// `HOST_PORT` where that is given.
pub open spec fn sandbox_env_spec(manifest_env: Seq<(Seq<char>, Seq<char>)>) -> Seq<(Seq<char>, Seq<char>)> {
    manifest_env + match first_value(manifest_env, "HOST_PORT"@) {
        Some(p) => seq![("PORT"@, p)],
        None => Seq::empty(),
    }
}

/// The environment of a sandboxed source workload.
pub fn sandbox_env(manifest_env: &Vec<(String, String)>) -> (r: Vec<(String, String)>)
    ensures
        pairs_view(r@) == sandbox_env_spec(pairs_view(manifest_env@)),
{
    let mut r: Vec<(String, String)> = Vec::new();
    let mut i: usize = 0;
    while i < manifest_env.len()
        invariant
            i <= manifest_env@.len(),
            pairs_view(r@) == pairs_view(manifest_env@).take(i as int),
        decreases manifest_env@.len() - i,
    {
        let k = manifest_env[i].0.clone();
        let v = manifest_env[i].1.clone();
        let ghost before = pairs_view(r@);
        assert((k@, v@) == pairs_view(manifest_env@)[i as int]);
        r.push((k, v));
        assert(pairs_view(r@) =~= before.push(pairs_view(manifest_env@)[i as int]));
        assert(pairs_view(r@) =~= pairs_view(manifest_env@).take(i + 1));
        i += 1;
    }
    assert(pairs_view(manifest_env@).take(manifest_env@.len() as int) =~= pairs_view(manifest_env@));
    let ghost base = pairs_view(r@);
    match first_value_of(manifest_env, "HOST_PORT") {
        Some(p) => {
            let ghost pv = p@;
            r.push((String::from_str("PORT"), p));
            assert(pairs_view(r@) =~= base.push(("PORT"@, pv)));
        },
        None => {},
    }
    assert(pairs_view(r@) =~= sandbox_env_spec(pairs_view(manifest_env@)));
    r
}

/// Outside development mode the sandbox keeps the network unshared: the
/// namespace options are `--unshare-all` alone, and the environment is
/// cleared right after the mounts.
pub proof fn lemma_production_sandbox_isolates(
    language_lower: Seq<char>,
    entrypoint: Seq<char>,
    args: Seq<Seq<char>>,
    source_dir: Seq<char>,
    toolchain: Seq<char>,
)
    ensures
        bwrap_args_spec(false, language_lower, entrypoint, args, source_dir, toolchain)[0] == "--unshare-all"@,
        bwrap_args_spec(false, language_lower, entrypoint, args, source_dir, toolchain)[1] == "--die-with-parent"@,
        bwrap_args_spec(false, language_lower, entrypoint, args, source_dir, toolchain)[37] == "--clearenv"@,
{
    let a = bwrap_args_spec(false, language_lower, entrypoint, args, source_dir, toolchain);
    assert(bwrap_mounts(source_dir, toolchain).len() == 36);
    assert(a[37] == bwrap_hardening(false)[0]);
}


/// The command run inside Windows Sandbox: the toolchain with the
/// language's own arguments, then the workload's arguments joined by spaces.
pub open spec fn wsb_command(language_lower: Seq<char>, toolchain: Seq<char>, entrypoint: Seq<char>, args: Seq<Seq<char>>) -> Seq<char> {
    let command = if language_lower == "python"@ || language_lower == "python3"@ {
        toolchain + " -B "@ + entrypoint
    } else if language_lower == "deno"@ {
        toolchain + " run --allow-read "@ + entrypoint
    } else {
        toolchain + " "@ + entrypoint
    };
    if args.len() == 0 {
        command
    } else {
        command + " "@ + space_joined(args)
    }
}

/// `items` joined with single spaces.
pub open spec fn space_joined(items: Seq<Seq<char>>) -> Seq<char>
    decreases items.len(),
{
    if items.len() == 0 {
        Seq::empty()
    } else if items.len() == 1 {
        items[0]
    } else {
        space_joined(items.drop_last()) + " "@ + items.last()
    }
}

/// The Windows Sandbox configuration: no vGPU, networking on, the source
/// mapped read-only at `C:\Source`, the command (quotes escaped as `&quot;`)
/// run there at logon, 2 GiB of memory, devices and redirections off.
pub open spec fn wsb_config_spec(source_dir: Seq<char>, command: Seq<char>) -> Seq<char> {
    "<Configuration>\n  <vGPU>Disable</vGPU>\n  <Networking>Enable</Networking>\n  <MappedFolders>\n    <MappedFolder>\n      <HostFolder>"@ + source_dir + "</HostFolder>\n      <SandboxFolder>C:\\Source</SandboxFolder>\n      <ReadOnly>true</ReadOnly>\n    </MappedFolder>\n  </MappedFolders>\n  <LogonCommand>\n    <Command>cmd /c \"cd C:\\Source && "@ + replace_all(command, "\""@, "&quot;"@) + "\"</Command>\n  </LogonCommand>\n  <MemoryInMB>2048</MemoryInMB>\n  <AudioInput>Disable</AudioInput>\n  <VideoInput>Disable</VideoInput>\n  <ClipboardRedirection>Disable</ClipboardRedirection>\n  <PrinterRedirection>Disable</PrinterRedirection>\n</Configuration>"@
}

fn join_spaces(items: &Vec<String>) -> (r: String)
    ensures
        r@ == space_joined(strs_view(items@)),
{
    let mut s = String::new();
    let mut i: usize = 0;
    while i < items.len()
        invariant
            i <= items@.len(),
            s@ == space_joined(strs_view(items@).take(i as int)),
        decreases items@.len() - i,
    {
        assert(strs_view(items@).take(i + 1).drop_last() =~= strs_view(items@).take(i as int));
        if i > 0 {
            s.append(" ");
        } else {
            assert(s@ =~= Seq::<char>::empty());
        }
        s.append(items[i].as_str());
        i += 1;
    }
    assert(strs_view(items@).take(items@.len() as int) =~= strs_view(items@));
    s
}

/// Generate the `.wsb` configuration that runs a workload in Windows Sandbox.
pub fn generate_wsb_config(target: &SourceTarget, toolchain: &str) -> (r: String)
    ensures
        all_ascii(target.language@) ==> unicode_lower(target.language@) == ascii_lower(target.language@),
        r@ == wsb_config_spec(
            target.source_dir@,
            wsb_command(unicode_lower(target.language@), toolchain@, target.entrypoint@, strs_view(target.args@)),
        ),
{
    let lang = to_lowercase(target.language.as_str());
    let mut command = String::from_str(toolchain);
    if str_eq(lang.as_str(), "python") || str_eq(lang.as_str(), "python3") {
        command.append(" -B ");
    } else if str_eq(lang.as_str(), "deno") {
        command.append(" run --allow-read ");
    } else {
        command.append(" ");
    }
    command.append(target.entrypoint.as_str());
    if target.args.len() > 0 {
        command.append(" ");
        let joined = join_spaces(&target.args);
        command.append(joined.as_str());
    }
    proof {
        reveal_strlit("\"");
    }
    let escaped = replace_str(command.as_str(), "\"", "&quot;");
    let mut s = String::from_str("<Configuration>\n  <vGPU>Disable</vGPU>\n  <Networking>Enable</Networking>\n  <MappedFolders>\n    <MappedFolder>\n      <HostFolder>");
    s.append(target.source_dir.as_str());
    s.append("</HostFolder>\n      <SandboxFolder>C:\\Source</SandboxFolder>\n      <ReadOnly>true</ReadOnly>\n    </MappedFolder>\n  </MappedFolders>\n  <LogonCommand>\n    <Command>cmd /c \"cd C:\\Source && ");
    s.append(escaped.as_str());
    s.append("\"</Command>\n  </LogonCommand>\n  <MemoryInMB>2048</MemoryInMB>\n  <AudioInput>Disable</AudioInput>\n  <VideoInput>Disable</VideoInput>\n  <ClipboardRedirection>Disable</ClipboardRedirection>\n  <PrinterRedirection>Disable</PrinterRedirection>\n</Configuration>");
    s
}

/// The interpreter's arguments under Sandboxie Plus, by lowercased language.
pub open spec fn sandboxie_language_args(lang: Seq<char>, entrypoint: Seq<char>) -> Seq<Seq<char>> {
    if lang == "python"@ || lang == "python3"@ {
        seq!["-B"@, entrypoint]
    } else if lang == "deno"@ {
        seq!["run"@, "--allow-read"@, entrypoint]
    } else {
        seq![entrypoint]
    }
}

/// The arguments of Sandboxie's `Start.exe`: the box (named after the
/// first eight bytes of the workload id), `/silent`, the toolchain with the
/// language's own arguments, then the workload's arguments.
pub open spec fn sandboxie_args_spec(
    workload_id: Seq<char>,
    language_lower: Seq<char>,
    entrypoint: Seq<char>,
    args: Seq<Seq<char>>,
    toolchain: Seq<char>,
) -> Seq<Seq<char>> {
    seq!["/box:Capsuled_"@ + byte_prefix(workload_id, 8), "/silent"@, toolchain]
        + sandboxie_language_args(language_lower, entrypoint) + args
}

/// The arguments of Sandboxie's `Start.exe` for a workload.
pub fn sandboxie_args(workload_id: &str, target: &SourceTarget, toolchain: &str) -> (r: Vec<String>)
    requires
        cuttable(workload_id@, 8),
    ensures
        strs_view(r@) == sandboxie_args_spec(
            workload_id@,
            unicode_lower(target.language@),
            target.entrypoint@,
            strs_view(target.args@),
            toolchain@,
        ),
{
    let short = take_bytes(workload_id, 8);
    let mut boxed = String::from_str("/box:Capsuled_");
    boxed.append(short.as_str());
    let mut out: Vec<String> = Vec::new();
    push_string(&mut out, boxed);
    push_str(&mut out, "/silent");
    push_str(&mut out, toolchain);
    let lang = to_lowercase(target.language.as_str());
    if str_eq(lang.as_str(), "python") || str_eq(lang.as_str(), "python3") {
        push_str(&mut out, "-B");
        push_str(&mut out, target.entrypoint.as_str());
    } else if str_eq(lang.as_str(), "deno") {
        push_str(&mut out, "run");
        push_str(&mut out, "--allow-read");
        push_str(&mut out, target.entrypoint.as_str());
    } else {
        push_str(&mut out, target.entrypoint.as_str());
    }
    push_all(&mut out, &target.args);
    assert(strs_view(out@) =~= sandboxie_args_spec(
        workload_id@,
        unicode_lower(target.language@),
        target.entrypoint@,
        strs_view(target.args@),
        toolchain@,
    ));
    out
}

} // verus!
