//! The OCI runtime specification of a container workload, as plain values:
//! its process, mounts, root file system, Linux settings and hooks.

use vstd::prelude::*;
use crate::entrypoint::{derive_args, derived_args, shell_words_of};
use crate::launch_env::pairs_view;
use crate::path_guard::{bind_source, bind_source_of, first_volume_error, validate_mounts, StorageVolume};
use crate::resolver::CapsuleExecution;
use crate::text::{push_str, push_string, strs_view};

verus! {

/// A mount of the container.
#[derive(Debug)]
pub struct MountSpec {
    pub destination: String,
    pub typ: String,
    pub source: String,
    pub options: Vec<String>,
}

/// A Linux namespace the container gets.
#[derive(Debug, Clone, Copy, PartialEq, Eq, Structural)]
pub enum NamespaceKind {
    Pid,
    Network,
    Ipc,
    Uts,
    Mount,
}

/// Linux settings of the container.
#[derive(Debug)]
pub struct LinuxSpec {
    /// The namespaces; `None` leaves them to the specification's defaults.
    pub namespaces: Option<Vec<NamespaceKind>>,
    /// The memory limit in bytes.
    pub memory_limit: Option<i64>,
}

/// A hook run by the container runtime.
#[derive(Debug)]
pub struct HookSpec {
    pub path: String,
    pub args: Vec<String>,
}

/// The container's process.
#[derive(Debug)]
pub struct ProcessSpec {
    pub args: Vec<String>,
    /// `KEY=VALUE` entries.
    pub env: Vec<String>,
    pub cwd: String,
    pub no_new_privileges: bool,
}

/// The container's root file system.
#[derive(Debug)]
pub struct RootSpec {
    pub path: String,
    pub readonly: bool,
}

/// An OCI runtime specification.
#[derive(Debug)]
pub struct OciSpec {
    pub version: String,
    pub root: RootSpec,
    pub process: ProcessSpec,
    pub mounts: Vec<MountSpec>,
    pub linux: LinuxSpec,
    /// Hooks run before the workload starts; `None` where there are none.
    pub prestart_hooks: Option<Vec<HookSpec>>,
}

/// Resource requests of a workload.
#[derive(Debug, Clone, Copy)]
pub struct ResourceRequirements {
    pub memory_bytes: Option<u64>,
}

/// A mount, by views: destination, type, source and options.
pub open spec fn mount_view(m: MountSpec) -> (Seq<char>, Seq<char>, Seq<char>, Seq<Seq<char>>) {
    (m.destination@, m.typ@, m.source@, strs_view(m.options@))
}

/// Mounts, by views.
pub open spec fn mounts_view(v: Seq<MountSpec>) -> Seq<(Seq<char>, Seq<char>, Seq<char>, Seq<Seq<char>>)> {
    Seq::new(v.len(), |i: int| mount_view(v[i]))
}

/// The mounts every container gets: `/proc`, `/dev`, `/dev/pts` and a read-only `/sys`.
pub open spec fn default_mounts() -> Seq<(Seq<char>, Seq<char>, Seq<char>, Seq<Seq<char>>)> {
    seq![
        ("/proc"@, "proc"@, "proc"@, seq!["nosuid"@, "noexec"@, "nodev"@]),
        ("/dev"@, "tmpfs"@, "tmpfs"@, seq!["nosuid"@, "strictatime"@, "mode=755"@, "size=65536k"@]),
        (
            "/dev/pts"@,
            "devpts"@,
            "devpts"@,
            seq!["nosuid"@, "noexec"@, "newinstance"@, "ptmxmode=0666"@, "mode=0620"@],
        ),
        ("/sys"@, "sysfs"@, "sysfs"@, seq!["nosuid"@, "noexec"@, "nodev"@, "ro"@]),
    ]
}

/// The bind mounts of the `bind:` volumes, in order: recursive, read-only
/// where the volume is.
pub open spec fn bind_mounts(vols: Seq<StorageVolume>) -> Seq<(Seq<char>, Seq<char>, Seq<char>, Seq<Seq<char>>)>
    decreases vols.len(),
{
    if vols.len() == 0 {
        Seq::empty()
    } else {
        let rest = bind_mounts(vols.drop_last());
        let v = vols.last();
        match bind_source(v.name@) {
            Some(src) => rest.push(
                (
                    v.mount_path@,
                    "bind"@,
                    src,
                    if v.read_only {
                        seq!["rbind"@, "ro"@]
                    } else {
                        seq!["rbind"@]
                    },
                ),
            ),
            None => rest,
        }
    }
}

/// The namespaces a container gets by default.
pub open spec fn default_namespaces() -> Seq<NamespaceKind> {
    seq![NamespaceKind::Pid, NamespaceKind::Network, NamespaceKind::Ipc, NamespaceKind::Uts, NamespaceKind::Mount]
}

/// `items` joined with commas.
pub open spec fn comma_joined(items: Seq<Seq<char>>) -> Seq<char>
    decreases items.len(),
{
    if items.len() == 0 {
        Seq::empty()
    } else if items.len() == 1 {
        items[0]
    } else {
        comma_joined(items.drop_last()) + ","@ + items.last()
    }
}

/// GPUs are requested.
pub open spec fn wants_gpus(gpus: Option<Seq<Seq<char>>>) -> bool {
    gpus matches Some(g) && g.len() > 0
}

/// The process environment: the execution's variables as `KEY=VALUE`, then
/// with GPUs the NVIDIA device list and capabilities.
pub open spec fn process_env_spec(env: Seq<(Seq<char>, Seq<char>)>, gpus: Option<Seq<Seq<char>>>) -> Seq<Seq<char>> {
    Seq::new(env.len(), |i: int| env[i].0 + "="@ + env[i].1) + match gpus {
        Some(g) => if g.len() > 0 {
            seq![
                "NVIDIA_VISIBLE_DEVICES="@ + comma_joined(g),
                "NVIDIA_DRIVER_CAPABILITIES=compute,utility"@,
            ]
        } else {
            Seq::empty()
        },
        None => Seq::empty(),
    }
}

/// A specification holds what `build_oci_spec` puts in it.
pub open spec fn spec_built(
    s: OciSpec,
    rootfs: Seq<char>,
    args: Seq<Seq<char>>,
    env: Seq<(Seq<char>, Seq<char>)>,
    gpus: Option<Seq<Seq<char>>>,
    vols: Seq<StorageVolume>,
    memory_bytes: Option<u64>,
) -> bool {
    &&& s.version@ == "1.0.2"@
    &&& s.root.path@ == rootfs && !s.root.readonly
    &&& strs_view(s.process.args@) == args
    &&& strs_view(s.process.env@) == process_env_spec(env, gpus)
    &&& s.process.cwd@ == "/"@ && s.process.no_new_privileges
    &&& mounts_view(s.mounts@) == default_mounts() + bind_mounts(vols)
    &&& match memory_bytes {
        Some(m) => s.linux.namespaces is None && s.linux.memory_limit == Some(m as i64),
        None => s.linux.namespaces matches Some(n) && n@ == default_namespaces() && s.linux.memory_limit is None,
    }
    &&& if wants_gpus(gpus) {
        s.prestart_hooks matches Some(h) && h@.len() == 1 && h@[0].path@ == "/usr/bin/nvidia-container-runtime-hook"@
            && strs_view(h@[0].args@) == seq!["nvidia-container-runtime-hook"@, "prestart"@]
    } else {
        s.prestart_hooks is None
    }
}

fn make_mount(destination: &str, typ: &str, source: &str, options: Vec<String>) -> (r: MountSpec)
    ensures
        mount_view(r) == (destination@, typ@, source@, strs_view(options@)),
{
    MountSpec {
        destination: String::from_str(destination),
        typ: String::from_str(typ),
        source: String::from_str(source),
        options,
    }
}

fn strings_of(items: &Vec<&str>) -> (r: Vec<String>)
    ensures
        strs_view(r@) == Seq::new(items@.len(), |k: int| items@[k]@),
{
    let mut r: Vec<String> = Vec::new();
    let mut i: usize = 0;
    while i < items.len()
        invariant
            i <= items@.len(),
            strs_view(r@) == Seq::new(i as nat, |k: int| items@[k]@),
        decreases items@.len() - i,
    {
        push_str(&mut r, items[i]);
        assert(strs_view(r@) =~= Seq::new((i + 1) as nat, |k: int| items@[k]@));
        i += 1;
    }
    r
}

fn push_mount(out: &mut Vec<MountSpec>, m: MountSpec)
    ensures
        mounts_view(final(out)@) == mounts_view(old(out)@).push(mount_view(m)),
{
    let ghost mv = mount_view(m);
    out.push(m);
    assert(mounts_view(out@) =~= mounts_view(old(out)@).push(mv));
}

/// The mounts every container gets.
fn build_default_mounts() -> (r: Vec<MountSpec>)
    ensures
        mounts_view(r@) == default_mounts(),
{
    let mut r: Vec<MountSpec> = Vec::new();
    let o1 = strings_of(&vec!["nosuid", "noexec", "nodev"]);
    assert(strs_view(o1@) =~= seq!["nosuid"@, "noexec"@, "nodev"@]);
    push_mount(&mut r, make_mount("/proc", "proc", "proc", o1));
    let o2 = strings_of(&vec!["nosuid", "strictatime", "mode=755", "size=65536k"]);
    assert(strs_view(o2@) =~= seq!["nosuid"@, "strictatime"@, "mode=755"@, "size=65536k"@]);
    push_mount(&mut r, make_mount("/dev", "tmpfs", "tmpfs", o2));
    let o3 = strings_of(&vec!["nosuid", "noexec", "newinstance", "ptmxmode=0666", "mode=0620"]);
    assert(strs_view(o3@) =~= seq!["nosuid"@, "noexec"@, "newinstance"@, "ptmxmode=0666"@, "mode=0620"@]);
    push_mount(&mut r, make_mount("/dev/pts", "devpts", "devpts", o3));
    let o4 = strings_of(&vec!["nosuid", "noexec", "nodev", "ro"]);
    assert(strs_view(o4@) =~= seq!["nosuid"@, "noexec"@, "nodev"@, "ro"@]);
    push_mount(&mut r, make_mount("/sys", "sysfs", "sysfs", o4));
    assert(mounts_view(r@) =~= default_mounts());
    r
}

/// `items` joined with commas.
fn join_commas(items: &Vec<String>) -> (r: String)
    ensures
        r@ == comma_joined(strs_view(items@)),
{
    let mut s = String::new();
    let mut i: usize = 0;
    while i < items.len()
        invariant
            i <= items@.len(),
            s@ == comma_joined(strs_view(items@).take(i as int)),
        decreases items@.len() - i,
    {
        assert(strs_view(items@).take(i + 1).drop_last() =~= strs_view(items@).take(i as int));
        if i > 0 {
            s.append(",");
        } else {
            assert(s@ =~= Seq::<char>::empty());
        }
        s.append(items[i].as_str());
        i += 1;
    }
    assert(strs_view(items@).take(items@.len() as int) =~= strs_view(items@));
    s
}

/// Build the OCI specification of a workload (`build_oci_spec`). The bind
/// volumes are checked against the allowlist first, as `validate_mounts`
/// does, with the same resolved paths; its error is the only failure.
pub fn build_oci_spec(
    rootfs_path: &str,
    execution: &CapsuleExecution,
    env: &Vec<(String, String)>,
    volumes: &Vec<StorageVolume>,
    gpu_uuids: Option<&Vec<String>>,
    allowed_host_paths: &Vec<String>,
    resolved_allowed: &Vec<Option<String>>,
    resolved_sources: &Vec<Result<String, String>>,
    resources: Option<&ResourceRequirements>,
    extra_args: Option<&Vec<String>>,
) -> (r: Result<OciSpec, String>)
    requires
        resolved_allowed@.len() == allowed_host_paths@.len(),
        resolved_sources@.len() == volumes@.len(),
    ensures
        match first_volume_error(volumes@, allowed_host_paths@, resolved_allowed@, resolved_sources@, 0) {
            Some(m) => r matches Err(e) && e@ == m,
            None => r matches Ok(s) && spec_built(
                s,
                rootfs_path@,
                derived_args(
                    execution.runtime,
                    execution.entrypoint@,
                    shell_words_of(execution.entrypoint@),
                    match extra_args {
                        Some(e) => Some(strs_view(e@)),
                        None => None,
                    },
                ),
                pairs_view(env@),
                match gpu_uuids {
                    Some(g) => Some(strs_view(g@)),
                    None => None,
                },
                volumes@,
                match resources {
                    Some(res) => res.memory_bytes,
                    None => None,
                },
            ),
        },
{
    // the process
    let mut penv: Vec<String> = Vec::new();
    let mut i: usize = 0;
    while i < env.len()
        invariant
            i <= env@.len(),
            strs_view(penv@) == Seq::new(i as nat, |k: int| pairs_view(env@)[k].0 + "="@ + pairs_view(env@)[k].1),
        decreases env@.len() - i,
    {
        let mut kv = env[i].0.clone();
        kv.append("=");
        kv.append(env[i].1.as_str());
        push_string(&mut penv, kv);
        assert(strs_view(penv@) =~= Seq::new((i + 1) as nat, |k: int| pairs_view(env@)[k].0 + "="@ + pairs_view(env@)[k].1));
        i += 1;
    }
    let ghost base_env = strs_view(penv@);
    let gpus = match gpu_uuids {
        Some(g) => g.len() > 0,
        None => false,
    };
    if gpus {
        match gpu_uuids {
            Some(g) => {
                let mut dev = String::from_str("NVIDIA_VISIBLE_DEVICES=");
                let joined = join_commas(g);
                dev.append(joined.as_str());
                push_string(&mut penv, dev);
                push_str(&mut penv, "NVIDIA_DRIVER_CAPABILITIES=compute,utility");
            },
            None => {},
        }
    }
    let ghost gv = match gpu_uuids {
        Some(g) => Some(strs_view(g@)),
        None => None,
    };
    assert(strs_view(penv@) =~= process_env_spec(pairs_view(env@), gv));
    let args = derive_args(execution, extra_args);
    let process = ProcessSpec { args, env: penv, cwd: String::from_str("/"), no_new_privileges: true };
    // the hooks
    let hooks = if gpus {
        let mut hargs: Vec<String> = Vec::new();
        push_str(&mut hargs, "nvidia-container-runtime-hook");
        push_str(&mut hargs, "prestart");
        assert(strs_view(hargs@) =~= seq!["nvidia-container-runtime-hook"@, "prestart"@]);
        let mut hs: Vec<HookSpec> = Vec::new();
        hs.push(HookSpec { path: String::from_str("/usr/bin/nvidia-container-runtime-hook"), args: hargs });
        Some(hs)
    } else {
        None
    };
    // the mounts
    let mut mounts = build_default_mounts();
    match validate_mounts(volumes, allowed_host_paths, resolved_allowed, resolved_sources) {
        Err(e) => {
            return Err(e);
        },
        Ok(_) => {},
    }
    let mut j: usize = 0;
    assert(volumes@.take(0) =~= Seq::<StorageVolume>::empty());
    while j < volumes.len()
        invariant
            j <= volumes@.len(),
            mounts_view(mounts@) == default_mounts() + bind_mounts(volumes@.take(j as int)),
        decreases volumes@.len() - j,
    {
        assert(volumes@.take(j + 1).drop_last() =~= volumes@.take(j as int));
        assert(volumes@.take(j + 1).last() == volumes@[j as int]);
        let v = &volumes[j];
        match bind_source_of(v.name.as_str()) {
            Some(src) => {
                let mut opts: Vec<String> = Vec::new();
                push_str(&mut opts, "rbind");
                if v.read_only {
                    push_str(&mut opts, "ro");
                }
                let ghost ov = strs_view(opts@);
                assert(ov =~= if v.read_only {
                    seq!["rbind"@, "ro"@]
                } else {
                    seq!["rbind"@]
                });
                let m = MountSpec { destination: v.mount_path.clone(), typ: String::from_str("bind"), source: src, options: opts };
                push_mount(&mut mounts, m);
                assert(mounts_view(mounts@) =~= default_mounts() + bind_mounts(volumes@.take(j + 1)));
            },
            None => {},
        }
        j += 1;
    }
    assert(volumes@.take(volumes@.len() as int) =~= volumes@);
    // the root and Linux settings
    let root = RootSpec { path: String::from_str(rootfs_path), readonly: false };
    let memory = match resources {
        Some(res) => res.memory_bytes,
        None => None,
    };
    let linux = match memory {
        Some(m) => LinuxSpec { namespaces: None, memory_limit: Some(m as i64) },
        None => {
            let ns: Vec<NamespaceKind> = vec![
                NamespaceKind::Pid,
                NamespaceKind::Network,
                NamespaceKind::Ipc,
                NamespaceKind::Uts,
                NamespaceKind::Mount,
            ];
            assert(ns@ =~= default_namespaces());
            LinuxSpec { namespaces: Some(ns), memory_limit: None }
        },
    };
    Ok(OciSpec { version: String::from_str("1.0.2"), root, process, mounts, linux, prestart_hooks: hooks })
}

} // verus!
