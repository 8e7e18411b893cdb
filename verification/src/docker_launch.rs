//! Planning a `docker run` for a workload: which image, which ports, and the
//! command line. Running it is left to the caller.

use vstd::prelude::*;
use crate::launch_env::{
    env_pairs, env_pairs_of, env_split, first_value, first_value_of, pairs_view, proxy_env,
    proxy_env_for, proxy_url, proxy_url_for, split_env, ENV_KEY_EGRESS_TOKEN,
};
use crate::readiness::{parse_u16, parse_u16_exec};
use crate::runtime::{DockerCliRuntime, RuntimeError};
use crate::text::{push_str, push_string, chars_of, dec, find_first, find_from, lemma_find_first_bounds, str_eq, string_of_range, strs_view, u64_to_string};

verus! {

/// What the Docker runtime reads of a capsule manifest. A field is `None`
/// where the manifest lacks it or holds a value of another JSON type.
#[derive(Debug, Clone)]
pub struct DockerManifestFields {
    /// `compute.image`
    pub compute_image: Option<String>,
    /// `compute.port`
    pub compute_port: Option<u64>,
    /// `execution.entrypoint`
    pub execution_entrypoint: Option<String>,
    /// `execution.port`
    pub execution_port: Option<u64>,
    /// `docker.ports[0].containerPort`
    pub docker_container_port: Option<u64>,
    /// `execution.env.HOST_PORT`
    pub execution_host_port: Option<String>,
    /// The string items of `compute.env`, when it is a list.
    pub compute_env: Option<Vec<String>>,
    /// `(name, mount_path)` of each entry of `storage.volumes` that has both as strings.
    pub volumes: Vec<(String, String)>,
}

/// One environment entry's effect on `(container port, host port)`, where a
/// host port of 0 means none yet: `PORT=<n>` sets the container port;
/// `HOST_PORT=<n>` sets the host port while none is set (when
/// `unprivileged_only`, only to a port above 1024).
pub open spec fn port_step(ports: (u16, u16), e: Seq<char>, unprivileged_only: bool) -> (u16, u16) {
    match env_split(e) {
        None => ports,
        Some((k, v)) => {
            let cp = if k == "PORT"@ && parse_u16(v) is Some {
                parse_u16(v).unwrap()
            } else {
                ports.0
            };
            let hp = if k == "HOST_PORT"@ && ports.1 == 0 && parse_u16(v) is Some && (!unprivileged_only
                || parse_u16(v).unwrap() > 1024) {
                parse_u16(v).unwrap()
            } else {
                ports.1
            };
            (cp, hp)
        },
    }
}

/// The ports after all of `entries`, from `start`.
pub open spec fn ports_after(entries: Seq<Seq<char>>, start: (u16, u16), unprivileged_only: bool) -> (u16, u16)
    decreases entries.len(),
{
    if entries.len() == 0 {
        start
    } else {
        port_step(ports_after(entries.drop_last(), start, unprivileged_only), entries.last(), unprivileged_only)
    }
}

/// A JSON number used as a port, cut to 16 bits as `as u16` does.
pub open spec fn port_bits(n: u64) -> u16 {
    (n % 65536) as u16
}

/// The image: `compute.image`, or `execution.entrypoint` where that is empty or absent.
pub open spec fn manifest_image(m: DockerManifestFields) -> Seq<char> {
    let img = match m.compute_image {
        Some(i) => i@,
        None => Seq::empty(),
    };
    if img.len() == 0 {
        match m.execution_entrypoint {
            Some(e) => e@,
            None => img,
        }
    } else {
        img
    }
}

/// The container port after the manifest's own port fields, in their order.
pub open spec fn manifest_container_port(m: DockerManifestFields, cp: u16) -> u16 {
    let a = match m.compute_port {
        Some(p) => port_bits(p),
        None => cp,
    };
    let b = match m.execution_port {
        Some(p) => port_bits(p),
        None => a,
    };
    match m.docker_container_port {
        Some(p) => port_bits(p),
        None => b,
    }
}

/// `(image, container port, host port)` from the process environment and the
/// manifest; the container port defaults to 80, the host port to 0 (none).
pub open spec fn docker_ports_spec(env: Seq<Seq<char>>, m: DockerManifestFields) -> (Seq<char>, u16, u16) {
    let (cp0, hp0) = ports_after(env, (80, 0), true);
    let cp1 = manifest_container_port(m, cp0);
    let hp1 = if hp0 == 0 {
        match m.execution_host_port {
            Some(s) => match parse_u16(s@) {
                Some(p) => p,
                None => hp0,
            },
            None => hp0,
        }
    } else {
        hp0
    };
    let (cp2, hp2) = if hp1 == 0 || cp1 == 80 {
        match m.compute_env {
            Some(list) => ports_after(strs_view(list@), (cp1, hp1), false),
            None => (cp1, hp1),
        }
    } else {
        (cp1, hp1)
    };
    (manifest_image(m), cp2, hp2)
}

/// Image and ports of a Docker launch, before the image is inspected.
#[derive(Debug)]
pub struct DockerPorts {
    pub image: String,
    pub container_port: u16,
    /// 0 where no host port was given.
    pub host_port: u16,
}

fn port_bits_exec(n: u64) -> (r: u16)
    ensures
        r == port_bits(n),
{
    (n % 65536) as u16
}

/// Apply `entries` to the ports.
fn apply_env_ports(entries: &Vec<String>, start: (u16, u16), unprivileged_only: bool) -> (r: (u16, u16))
    ensures
        r == ports_after(strs_view(entries@), start, unprivileged_only),
{
    let ghost es = strs_view(entries@);
    let mut cp = start.0;
    let mut hp = start.1;
    let mut i: usize = 0;
    assert(es.take(0) =~= Seq::<Seq<char>>::empty());
    while i < entries.len()
        invariant
            es == strs_view(entries@),
            i <= entries@.len(),
            (cp, hp) == ports_after(es.take(i as int), start, unprivileged_only),
        decreases entries@.len() - i,
    {
        assert(es.take(i + 1).drop_last() =~= es.take(i as int));
        assert(es.take(i + 1).last() == entries@[i as int]@);
        match split_env(entries[i].as_str()) {
            Some((k, v)) => {
                let parsed = parse_u16_exec(v.as_str());
                let new_cp = if str_eq(k.as_str(), "PORT") && parsed.is_some() {
                    parsed.unwrap()
                } else {
                    cp
                };
                let new_hp = if str_eq(k.as_str(), "HOST_PORT") && hp == 0 && parsed.is_some() && (
                !unprivileged_only || parsed.unwrap() > 1024) {
                    parsed.unwrap()
                } else {
                    hp
                };
                cp = new_cp;
                hp = new_hp;
            },
            None => {},
        }
        i += 1;
    }
    assert(es.take(entries@.len() as int) =~= es);
    (cp, hp)
}

/// Gather the image and the ports of a Docker launch from the process
/// environment and the manifest. Fails when no image is named.
pub fn docker_ports(process_env: &Vec<String>, manifest: &DockerManifestFields) -> (r: Result<
    DockerPorts,
    RuntimeError,
>)
    ensures
        ({
            let (image, cp, hp) = docker_ports_spec(strs_view(process_env@), *manifest);
            match r {
                Ok(p) => image.len() > 0 && p.image@ == image && p.container_port == cp && p.host_port == hp,
                Err(e) => image.len() == 0 && (e matches RuntimeError::InvalidConfig(msg)
                    && msg@ == "No Docker image specified in manifest"@),
            }
        }),
{
    let (cp0, hp0) = apply_env_ports(process_env, (80, 0), true);
    let mut image = match &manifest.compute_image {
        Some(i) => i.clone(),
        None => String::new(),
    };
    if image.as_str().is_empty() {
        match &manifest.execution_entrypoint {
            Some(e) => {
                image = e.clone();
            },
            None => {},
        }
    }
    let mut cp = cp0;
    match manifest.compute_port {
        Some(p) => {
            cp = port_bits_exec(p);
        },
        None => {},
    }
    match manifest.execution_port {
        Some(p) => {
            cp = port_bits_exec(p);
        },
        None => {},
    }
    match manifest.docker_container_port {
        Some(p) => {
            cp = port_bits_exec(p);
        },
        None => {},
    }
    let mut hp = hp0;
    if hp == 0 {
        match &manifest.execution_host_port {
            Some(s) => match parse_u16_exec(s.as_str()) {
                Some(p) => {
                    hp = p;
                },
                None => {},
            },
            None => {},
        }
    }
    if hp == 0 || cp == 80 {
        match &manifest.compute_env {
            Some(list) => {
                let (c, h) = apply_env_ports(list, (cp, hp), false);
                cp = c;
                hp = h;
            },
            None => {},
        }
    }
    assert(image@ == manifest_image(*manifest));
    if image.as_str().is_empty() {
        return Err(RuntimeError::InvalidConfig(String::from_str("No Docker image specified in manifest")));
    }
    Ok(DockerPorts { image, container_port: cp, host_port: hp })
}

/// The part of an exposed-port key before its first `/` (`"8080/tcp"` gives `"8080"`).
pub open spec fn before_slash(k: Seq<char>) -> Seq<char> {
    match find_first(k, seq!['/']) {
        Some(i) => k.take(i),
        None => k,
    }
}

/// The first exposed port, in key order, that parses and is not 80.
pub open spec fn first_exposed_port(keys: Seq<Seq<char>>) -> Option<u16>
    decreases keys.len(),
{
    if keys.len() == 0 {
        None
    } else {
        match parse_u16(before_slash(keys[0])) {
            Some(p) => if p != 80 {
                Some(p)
            } else {
                first_exposed_port(keys.drop_first())
            },
            None => first_exposed_port(keys.drop_first()),
        }
    }
}

/// The port to use from an image's exposed ports (the keys of
/// `.Config.ExposedPorts`, such as `"8080/tcp"`), other than 80.
pub fn exposed_container_port(keys: &Vec<String>) -> (r: Option<u16>)
    ensures
        r == first_exposed_port(strs_view(keys@)),
{
    let ghost ks = strs_view(keys@);
    let slash: Vec<char> = vec!['/'];
    assert(slash@ =~= seq!['/']);
    let mut i: usize = 0;
    assert(ks.skip(0) =~= ks);
    while i < keys.len()
        invariant
            ks == strs_view(keys@),
            slash@ == seq!['/'],
            i <= keys@.len(),
            first_exposed_port(ks) == first_exposed_port(ks.skip(i as int)),
        decreases keys@.len() - i,
    {
        let v = chars_of(keys[i].as_str());
        assert(v@.skip(0) =~= v@);
        let end = match find_from(&v, &slash, 0) {
            Some(j) => {
                proof {
                    lemma_find_first_bounds(v@, seq!['/']);
                }
                j
            },
            None => v.len(),
        };
        let head = string_of_range(&v, 0, end);
        assert(head@ =~= before_slash(ks[i as int]));
        assert(ks.skip(i as int)[0] == ks[i as int]);
        assert(ks.skip(i as int).drop_first() =~= ks.skip(i + 1));
        match parse_u16_exec(head.as_str()) {
            Some(p) => {
                if p != 80 {
                    return Some(p);
                }
            },
            None => {},
        }
        i += 1;
    }
    None
}

/// The host port to publish: the one given, or else the container port,
/// which must then be above 1024 (a privileged port would collide with the
/// host's own services).
pub open spec fn publish_port(container_port: u16, host_port: u16) -> Result<u16, Seq<char>> {
    if host_port != 0 {
        Ok(host_port)
    } else if container_port <= 1024 {
        Err("HOST_PORT is required for container_port "@ + dec(container_port as nat)
            + " (privileged) to avoid host port collisions"@)
    } else {
        Ok(container_port)
    }
}

/// The host port to publish the container port on.
pub fn host_port_for(container_port: u16, host_port: u16) -> (r: Result<u16, RuntimeError>)
    ensures
        match publish_port(container_port, host_port) {
            Ok(p) => r == Ok::<u16, RuntimeError>(p),
            Err(m) => r matches Err(RuntimeError::InvalidConfig(msg)) && msg@ == m,
        },
{
    if host_port != 0 {
        Ok(host_port)
    } else if container_port <= 1024 {
        let mut m = String::from_str("HOST_PORT is required for container_port ");
        let n = u64_to_string(container_port as u64);
        m.append(n.as_str());
        m.append(" (privileged) to avoid host port collisions");
        Err(RuntimeError::InvalidConfig(m))
    } else {
        Ok(container_port)
    }
}

/// `-e K=V` for each pair.
pub open spec fn env_flags(pairs: Seq<(Seq<char>, Seq<char>)>) -> Seq<Seq<char>>
    decreases pairs.len(),
{
    if pairs.len() == 0 {
        Seq::empty()
    } else {
        env_flags(pairs.drop_last()) + seq!["-e"@, pairs.last().0 + "="@ + pairs.last().1]
    }
}

/// `-v gumball_<workload>_<name>:<mount path>` for each volume.
pub open spec fn volume_flags(workload_id: Seq<char>, vols: Seq<(Seq<char>, Seq<char>)>) -> Seq<Seq<char>>
    decreases vols.len(),
{
    if vols.len() == 0 {
        Seq::empty()
    } else {
        volume_flags(workload_id, vols.drop_last()) + seq![
            "-v"@,
            "gumball_"@ + workload_id + "_"@ + vols.last().0 + ":"@ + vols.last().1,
        ]
    }
}

/// Host name under which a container reaches the host.
pub open spec fn docker_host_alias() -> Seq<char> {
    "host.docker.internal"@
}

/// The proxy flags: with an egress proxy and a token among the variables,
/// the three proxy variables pointing at the proxy through the host alias.
pub open spec fn proxy_flags(
    workload_id: Seq<char>,
    env: Seq<(Seq<char>, Seq<char>)>,
    egress_proxy_port: Option<u16>,
) -> Seq<Seq<char>> {
    match egress_proxy_port {
        Some(port) => match first_value(env, ENV_KEY_EGRESS_TOKEN@) {
            Some(t) => env_flags(proxy_env(proxy_url(workload_id, Some(t), docker_host_alias(), port))),
            None => Seq::empty(),
        },
        None => Seq::empty(),
    }
}

/// The arguments of `docker run`: detached, named after the workload,
/// publishing `host:container`, on Linux mapping the host alias to the
/// gateway, then the variables, the proxy variables, the volumes, the image
/// and the command.
pub open spec fn docker_run_args_spec(
    workload_id: Seq<char>,
    image: Seq<char>,
    container_port: u16,
    host_port: u16,
    env: Seq<(Seq<char>, Seq<char>)>,
    egress_proxy_port: Option<u16>,
    vols: Seq<(Seq<char>, Seq<char>)>,
    command: Seq<Seq<char>>,
    add_host: bool,
) -> Seq<Seq<char>> {
    seq![
        "run"@,
        "-d"@,
        "--name"@,
        workload_id,
        "-p"@,
        dec(host_port as nat) + ":"@ + dec(container_port as nat),
    ] + (if add_host {
        seq!["--add-host"@, docker_host_alias() + ":host-gateway"@]
    } else {
        Seq::empty()
    }) + env_flags(env) + proxy_flags(workload_id, env, egress_proxy_port) + volume_flags(workload_id, vols)
        + seq![image] + command
}

fn push_env_flags(out: &mut Vec<String>, pairs: &Vec<(String, String)>)
    ensures
        strs_view(final(out)@) == strs_view(old(out)@) + env_flags(pairs_view(pairs@)),
{
    let ghost start = strs_view(out@);
    let ghost ps = pairs_view(pairs@);
    let mut i: usize = 0;
    assert(ps.take(0) =~= Seq::<(Seq<char>, Seq<char>)>::empty());
    assert(start + env_flags(ps.take(0)) =~= start);
    while i < pairs.len()
        invariant
            ps == pairs_view(pairs@),
            i <= pairs@.len(),
            strs_view(out@) == start + env_flags(ps.take(i as int)),
        decreases pairs@.len() - i,
    {
        let ghost before = strs_view(out@);
        assert(ps.take(i + 1).drop_last() =~= ps.take(i as int));
        assert(ps.take(i + 1).last() == ps[i as int]);
        push_str(out, "-e");
        let mut kv = pairs[i].0.clone();
        kv.append("=");
        kv.append(pairs[i].1.as_str());
        assert(kv@ == ps[i as int].0 + "="@ + ps[i as int].1);
        push_string(out, kv);
        assert(env_flags(ps.take(i + 1)) == env_flags(ps.take(i as int)) + seq!["-e"@, ps[i as int].0 + "="@ + ps[i as int].1]);
        assert(strs_view(out@) =~= start + env_flags(ps.take(i + 1)));
        i += 1;
    }
    assert(ps.take(pairs@.len() as int) =~= ps);
}

fn push_volume_flags(out: &mut Vec<String>, workload_id: &str, vols: &Vec<(String, String)>)
    ensures
        strs_view(final(out)@) == strs_view(old(out)@) + volume_flags(workload_id@, pairs_view(vols@)),
{
    let ghost start = strs_view(out@);
    let ghost vs = pairs_view(vols@);
    let mut i: usize = 0;
    assert(vs.take(0) =~= Seq::<(Seq<char>, Seq<char>)>::empty());
    assert(start + volume_flags(workload_id@, vs.take(0)) =~= start);
    while i < vols.len()
        invariant
            vs == pairs_view(vols@),
            i <= vols@.len(),
            strs_view(out@) == start + volume_flags(workload_id@, vs.take(i as int)),
        decreases vols@.len() - i,
    {
        assert(vs.take(i + 1).drop_last() =~= vs.take(i as int));
        assert(vs.take(i + 1).last() == vs[i as int]);
        push_str(out, "-v");
        let mut m = String::from_str("gumball_");
        m.append(workload_id);
        m.append("_");
        m.append(vols[i].0.as_str());
        m.append(":");
        m.append(vols[i].1.as_str());
        assert(m@ == "gumball_"@ + workload_id@ + "_"@ + vs[i as int].0 + ":"@ + vs[i as int].1);
        push_string(out, m);
        assert(volume_flags(workload_id@, vs.take(i + 1)) == volume_flags(workload_id@, vs.take(i as int)) + seq![
            "-v"@,
            "gumball_"@ + workload_id@ + "_"@ + vs[i as int].0 + ":"@ + vs[i as int].1,
        ]);
        assert(strs_view(out@) =~= start + volume_flags(workload_id@, vs.take(i + 1)));
        i += 1;
    }
    assert(vs.take(vols@.len() as int) =~= vs);
}

/// The arguments of `docker run` for a workload.
pub fn docker_run_args(
    workload_id: &str,
    image: &str,
    container_port: u16,
    host_port: u16,
    env: &Vec<(String, String)>,
    egress_proxy_port: Option<u16>,
    volumes: &Vec<(String, String)>,
    command: &Vec<String>,
    add_host: bool,
) -> (r: Vec<String>)
    ensures
        strs_view(r@) == docker_run_args_spec(
            workload_id@,
            image@,
            container_port,
            host_port,
            pairs_view(env@),
            egress_proxy_port,
            pairs_view(volumes@),
            strs_view(command@),
            add_host,
        ),
{
    let mut out: Vec<String> = Vec::new();
    push_str(&mut out, "run");
    push_str(&mut out, "-d");
    push_str(&mut out, "--name");
    push_str(&mut out, workload_id);
    push_str(&mut out, "-p");
    let mut ports = u64_to_string(host_port as u64);
    ports.append(":");
    let c = u64_to_string(container_port as u64);
    ports.append(c.as_str());
    push_string(&mut out, ports);
    let ghost head = strs_view(out@);
    assert(head =~= seq![
        "run"@,
        "-d"@,
        "--name"@,
        workload_id@,
        "-p"@,
        dec(host_port as nat) + ":"@ + dec(container_port as nat),
    ]);
    if add_host {
        push_str(&mut out, "--add-host");
        push_str(&mut out, "host.docker.internal:host-gateway");
        proof {
            reveal_strlit("host.docker.internal:host-gateway");
            reveal_strlit("host.docker.internal");
            reveal_strlit(":host-gateway");
        }
        assert("host.docker.internal:host-gateway"@ =~= docker_host_alias() + ":host-gateway"@);
    }
    let ghost with_host = strs_view(out@);
    assert(with_host =~= head + (if add_host {
        seq!["--add-host"@, docker_host_alias() + ":host-gateway"@]
    } else {
        Seq::empty()
    }));
    push_env_flags(&mut out, env);
    let ghost with_env = strs_view(out@);
    match egress_proxy_port {
        Some(port) => {
            let token = first_value_of(env, ENV_KEY_EGRESS_TOKEN);
            match token {
                Some(_) => {
                    let url = proxy_url_for(workload_id, &token, "host.docker.internal", port);
                    let pe = proxy_env_for(url.as_str());
                    push_env_flags(&mut out, &pe);
                },
                None => {},
            }
        },
        None => {},
    }
    assert(strs_view(out@) =~= with_env + proxy_flags(workload_id@, pairs_view(env@), egress_proxy_port));
    push_volume_flags(&mut out, workload_id, volumes);
    push_str(&mut out, image);
    let ghost before_cmd = strs_view(out@);
    let mut i: usize = 0;
    while i < command.len()
        invariant
            i <= command@.len(),
            strs_view(out@) == before_cmd + strs_view(command@).take(i as int),
        decreases command@.len() - i,
    {
        push_string(&mut out, command[i].clone());
        assert(strs_view(out@) =~= before_cmd + strs_view(command@).take(i + 1));
        i += 1;
    }
    assert(strs_view(command@).take(command@.len() as int) =~= strs_view(command@));
    out
}

/// A planned `docker run`.
#[derive(Debug)]
pub struct DockerRunPlan {
    pub image: String,
    pub container_port: u16,
    pub host_port: u16,
    /// The arguments that follow `docker`.
    pub args: Vec<String>,
}

/// The whole plan: `(image, container port, host port, arguments)`, or the
/// message of the configuration error. An image whose container port is
/// still 80 takes the first other port it exposes.
pub open spec fn docker_plan(
    workload_id: Seq<char>,
    env: Seq<Seq<char>>,
    command: Seq<Seq<char>>,
    m: DockerManifestFields,
    exposed: Seq<Seq<char>>,
    egress_proxy_port: Option<u16>,
    add_host: bool,
) -> Result<(Seq<char>, u16, u16, Seq<Seq<char>>), Seq<char>> {
    let (image, cp0, hp0) = docker_ports_spec(env, m);
    if image.len() == 0 {
        Err("No Docker image specified in manifest"@)
    } else {
        let cp = if cp0 == 80 {
            match first_exposed_port(exposed) {
                Some(p) => p,
                None => cp0,
            }
        } else {
            cp0
        };
        match publish_port(cp, hp0) {
            Err(e) => Err(e),
            Ok(hp) => Ok(
                (
                    image,
                    cp,
                    hp,
                    docker_run_args_spec(
                        workload_id,
                        image,
                        cp,
                        hp,
                        env_pairs(env),
                        egress_proxy_port,
                        pairs_view(m.volumes@),
                        command,
                        add_host,
                    ),
                ),
            ),
        }
    }
}

impl DockerCliRuntime {
    /// Plan the launch of a workload with `docker run`.
    ///
    /// `process_env` and `process_args` are the environment and arguments of
    /// the workload's process; `exposed_ports` lists the ports the image
    /// exposes (consulted only while the container port is still 80); with
    /// `add_host` the host alias is mapped to the gateway, as Linux needs.
    pub fn plan_launch(
        &self,
        workload_id: &str,
        process_env: &Vec<String>,
        process_args: &Vec<String>,
        manifest: &DockerManifestFields,
        exposed_ports: &Vec<String>,
        add_host: bool,
    ) -> (r: Result<DockerRunPlan, RuntimeError>)
        ensures
            match docker_plan(
                workload_id@,
                strs_view(process_env@),
                strs_view(process_args@),
                *manifest,
                strs_view(exposed_ports@),
                self.egress_proxy_port,
                add_host,
            ) {
                Ok((image, cp, hp, args)) => r matches Ok(p) && p.image@ == image && p.container_port == cp
                    && p.host_port == hp && strs_view(p.args@) == args,
                Err(m) => r matches Err(RuntimeError::InvalidConfig(msg)) && msg@ == m,
            },
    {
        let ports = match docker_ports(process_env, manifest) {
            Ok(p) => p,
            Err(e) => {
                return Err(e);
            },
        };
        let mut cp = ports.container_port;
        if cp == 80 {
            match exposed_container_port(exposed_ports) {
                Some(p) => {
                    cp = p;
                },
                None => {},
            }
        }
        let hp = match host_port_for(cp, ports.host_port) {
            Ok(h) => h,
            Err(e) => {
                return Err(e);
            },
        };
        let env = env_pairs_of(process_env);
        let args = docker_run_args(
            workload_id,
            ports.image.as_str(),
            cp,
            hp,
            &env,
            self.egress_proxy_port,
            &manifest.volumes,
            process_args,
            add_host,
        );
        Ok(DockerRunPlan { image: ports.image, container_port: cp, host_port: hp, args })
    }
}

/// Without an explicit host port, a launch never publishes a privileged
/// port on the host: the port it publishes is above 1024.
pub proof fn lemma_no_implicit_privileged_publish(
    workload_id: Seq<char>,
    env: Seq<Seq<char>>,
    command: Seq<Seq<char>>,
    m: DockerManifestFields,
    exposed: Seq<Seq<char>>,
    egress_proxy_port: Option<u16>,
    add_host: bool,
)
    requires
        docker_ports_spec(env, m).2 == 0,
        docker_plan(workload_id, env, command, m, exposed, egress_proxy_port, add_host) is Ok,
    ensures
        docker_plan(workload_id, env, command, m, exposed, egress_proxy_port, add_host)->Ok_0.2 > 1024,
{
}

} // verus!
