//! Planning the launch of a native runtime: which binary, which arguments,
//! which environment. Finding files and spawning are left to the caller.

use vstd::prelude::*;
use crate::entrypoint::{entry_words, shell_words_of, split_words};
use crate::launch_env::{
    env_pairs, env_pairs_of, pairs_view, proxy_env, proxy_env_for, proxy_url, proxy_url_for,
    ENV_KEY_EGRESS_TOKEN,
};
use crate::resolver::{CapsuleExecution, RuntimeType};
use crate::runtime::{NativeRuntime, RuntimeError};
use crate::storage::{join_path, path_join};
use crate::strmap::StrMap;
use crate::text::{
    chars_of, find_first, find_from, lemma_find_first_bounds, replace_all, replace_str, str_eq,
    string_of_range, strs_view, trim, trim_str,
};

verus! {

/// The manifest of a launch request, as read from its JSON.
#[derive(Debug)]
pub enum ManifestRead {
    /// The request carries no manifest.
    Absent,
    /// The manifest JSON does not parse.
    Invalid,
    /// The manifest's execution section.
    Parsed(CapsuleExecution),
}

/// Where the binary of a native runtime comes from.
#[derive(Debug, Clone, Copy, PartialEq, Eq, Structural)]
pub enum NativeBinary {
    /// `/usr/bin/env`, standing in for the MLX runtime.
    EnvShim,
    /// The MLX start script, under the home directory or the development tree.
    MlxScript,
    /// The runtime's own path where it exists, else the artifact manager.
    PathOrArtifact,
    /// The artifact manager.
    Artifact,
}

/// The binary source for a runtime name.
pub open spec fn binary_choice(name: Seq<char>) -> NativeBinary {
    if name == "mlx-mock"@ {
        NativeBinary::EnvShim
    } else if name == "mlx"@ {
        NativeBinary::MlxScript
    } else if name.len() > 0 && name[0] == '/' {
        NativeBinary::PathOrArtifact
    } else {
        NativeBinary::Artifact
    }
}

/// `name@version` split at the first `@`; without one the version is `latest`.
pub open spec fn name_and_version(runtime_id: Seq<char>) -> (Seq<char>, Seq<char>) {
    match find_first(runtime_id, seq!['@']) {
        Some(i) => (runtime_id.take(i), runtime_id.skip(i + 1)),
        None => (runtime_id, "latest"@),
    }
}

/// The environment a native workload gets from its process entries: later
/// entries win, and a blank `HOST` is dropped.
pub open spec fn native_env_map(pairs: Seq<(Seq<char>, Seq<char>)>) -> Map<Seq<char>, Seq<char>>
    decreases pairs.len(),
{
    if pairs.len() == 0 {
        Map::empty()
    } else {
        let m = native_env_map(pairs.drop_last());
        let (k, v) = pairs.last();
        if k == "HOST"@ && trim(v).len() == 0 {
            m
        } else {
            m.insert(k, v)
        }
    }
}

/// The arguments before substitution: the process arguments after the
/// program, when the process has any; else the entrypoint's own arguments.
pub open spec fn effective_args(process_args: Option<Seq<Seq<char>>>, entry_args: Seq<Seq<char>>) -> Seq<Seq<char>> {
    match process_args {
        Some(a) => if a.len() > 0 {
            a.skip(1)
        } else {
            entry_args
        },
        None => entry_args,
    }
}

/// One argument with `${PORT}` and `${GUMBALL_MODELS_DIR}` substituted.
pub open spec fn substitute(arg: Seq<char>, port: Seq<char>, models_dir: Seq<char>) -> Seq<char> {
    replace_all(replace_all(arg, "${PORT}"@, port), "${GUMBALL_MODELS_DIR}"@, models_dir)
}

/// The models directory under a home directory.
pub open spec fn models_dir(home: Seq<char>) -> Seq<char> {
    path_join(path_join(home, ".gumball"@), "models"@)
}

/// A planned native launch.
#[derive(Debug)]
pub struct NativeLaunchPlan {
    pub name: String,
    pub version: String,
    pub binary: NativeBinary,
    pub args: Vec<String>,
    pub env: StrMap<String>,
    /// The proxy variables, set after `env`.
    pub proxy_env: Vec<(String, String)>,
}

/// The plan, as `(name, version, binary, args, env, proxy env)`, or the
/// message of the configuration error.
pub open spec fn native_plan(
    manifest: ManifestRead,
    words: Option<Seq<Seq<char>>>,
    process_env: Seq<Seq<char>>,
    process_args: Option<Seq<Seq<char>>>,
    home: Seq<char>,
    workload_id: Seq<char>,
    egress_proxy_port: Option<u16>,
) -> Result<
    (
        Seq<char>,
        Seq<char>,
        NativeBinary,
        Seq<Seq<char>>,
        Map<Seq<char>, Seq<char>>,
        Seq<(Seq<char>, Seq<char>)>,
    ),
    Seq<char>,
> {
    match manifest {
        ManifestRead::Absent => Err("Missing native execution config"@),
        ManifestRead::Invalid => Err("Failed to parse manifest JSON"@),
        ManifestRead::Parsed(ex) => if ex.runtime != RuntimeType::Native {
            Err("Missing native execution config"@)
        } else {
            let parts = entry_words(ex.entrypoint@, words);
            if parts.len() == 0 {
                Err("Empty entrypoint"@)
            } else {
                let (name, version) = name_and_version(parts[0]);
                let env = native_env_map(env_pairs(process_env));
                let port = if env.dom().contains("PORT"@) {
                    env["PORT"@]
                } else {
                    "0"@
                };
                let args = effective_args(process_args, parts.skip(1));
                let final_args = Seq::new(args.len(), |i: int| substitute(args[i], port, models_dir(home)));
                let proxy = match egress_proxy_port {
                    Some(p) => proxy_env(
                        proxy_url(
                            workload_id,
                            if env.dom().contains(ENV_KEY_EGRESS_TOKEN@) {
                                Some(env[ENV_KEY_EGRESS_TOKEN@])
                            } else {
                                None
                            },
                            "127.0.0.1"@,
                            p,
                        ),
                    ),
                    None => Seq::empty(),
                };
                Ok((name, version, binary_choice(name), final_args, env, proxy))
            }
        },
    }
}

/// The binary source for a runtime name.
pub fn binary_choice_of(name: &str) -> (r: NativeBinary)
    ensures
        r == binary_choice(name@),
{
    if str_eq(name, "mlx-mock") {
        NativeBinary::EnvShim
    } else if str_eq(name, "mlx") {
        NativeBinary::MlxScript
    } else {
        let v = chars_of(name);
        if v.len() > 0 && v[0] == '/' {
            NativeBinary::PathOrArtifact
        } else {
            NativeBinary::Artifact
        }
    }
}

/// Split a runtime id into name and version.
pub fn split_runtime_id(runtime_id: &str) -> (r: (String, String))
    ensures
        (r.0@, r.1@) == name_and_version(runtime_id@),
{
    let v = chars_of(runtime_id);
    let at: Vec<char> = vec!['@'];
    assert(at@ =~= seq!['@']);
    assert(v@.skip(0) =~= v@);
    match find_from(&v, &at, 0) {
        Some(i) => {
            proof {
                lemma_find_first_bounds(v@, seq!['@']);
            }
            assert(i < v.len());
            let name = string_of_range(&v, 0, i);
            let version = string_of_range(&v, i + 1, v.len());
            assert(name@ =~= v@.take(i as int));
            assert(version@ =~= v@.skip(i + 1));
            (name, version)
        },
        None => (runtime_id.to_owned(), String::from_str("latest")),
    }
}

/// The environment map of a native workload.
pub fn native_env(process_env: &Vec<String>) -> (r: StrMap<String>)
    ensures
        r.view_map().dom() == native_env_map(env_pairs(strs_view(process_env@))).dom(),
        forall|k: Seq<char>| #[trigger] r.view_map().dom().contains(k) ==> r.view_map()[k]@
            == native_env_map(env_pairs(strs_view(process_env@)))[k],
{
    let pairs = env_pairs_of(process_env);
    let ghost ps = pairs_view(pairs@);
    let mut m: StrMap<String> = StrMap::new();
    let mut i: usize = 0;
    assert(ps.take(0) =~= Seq::<(Seq<char>, Seq<char>)>::empty());
    while i < pairs.len()
        invariant
            ps == pairs_view(pairs@),
            i <= pairs@.len(),
            m.view_map().dom() == native_env_map(ps.take(i as int)).dom(),
            forall|k: Seq<char>| #[trigger] m.view_map().dom().contains(k) ==> m.view_map()[k]@
                == native_env_map(ps.take(i as int))[k],
        decreases pairs@.len() - i,
    {
        assert(ps.take(i + 1).drop_last() =~= ps.take(i as int));
        assert(ps.take(i + 1).last() == ps[i as int]);
        let k = &pairs[i].0;
        let v = &pairs[i].1;
        let tv = trim_str(v.as_str());
        if str_eq(k.as_str(), "HOST") && tv.as_str().is_empty() {
        } else {
            let ghost before = m.view_map();
            m.insert(k.clone(), v.clone());
            assert(m.view_map().dom() =~= native_env_map(ps.take(i + 1)).dom());
        }
        i += 1;
    }
    assert(ps.take(pairs@.len() as int) =~= ps);
    m
}

/// The value of an environment map at `key`, by views.
pub open spec fn env_lookup(m: Map<Seq<char>, Seq<char>>, key: Seq<char>) -> Option<Seq<char>> {
    if m.dom().contains(key) {
        Some(m[key])
    } else {
        None
    }
}

/// A plan carries the planned values.
pub open spec fn plan_matches(
    p: NativeLaunchPlan,
    v: (
        Seq<char>,
        Seq<char>,
        NativeBinary,
        Seq<Seq<char>>,
        Map<Seq<char>, Seq<char>>,
        Seq<(Seq<char>, Seq<char>)>,
    ),
) -> bool {
    &&& p.name@ == v.0
    &&& p.version@ == v.1
    &&& p.binary == v.2
    &&& strs_view(p.args@) == v.3
    &&& p.env.view_map().dom() == v.4.dom()
    &&& forall|k: Seq<char>| #[trigger] p.env.view_map().dom().contains(k) ==> p.env.view_map()[k]@ == v.4[k]
    &&& pairs_view(p.proxy_env@) == v.5
}

fn lookup_env(m: &StrMap<String>, key: &str) -> (r: Option<String>)
    ensures
        match r {
            Some(v) => m.view_map().dom().contains(key@) && v@ == m.view_map()[key@]@,
            None => !m.view_map().dom().contains(key@),
        },
{
    match m.get(key) {
        Some(v) => Some(v.clone()),
        None => None,
    }
}

impl NativeRuntime {
    /// Plan a native launch, given the entrypoint's shell words (`None` where
    /// they did not split). `home` is the home directory (`.` when unknown).
    pub fn plan_launch_with_words(
        &self,
        manifest: &ManifestRead,
        words: Option<Vec<String>>,
        process_env: &Vec<String>,
        process_args: Option<&Vec<String>>,
        home: &str,
        workload_id: &str,
    ) -> (r: Result<NativeLaunchPlan, RuntimeError>)
        ensures
            match native_plan(
                *manifest,
                match words {
                    Some(w) => Some(strs_view(w@)),
                    None => None,
                },
                strs_view(process_env@),
                match process_args {
                    Some(a) => Some(strs_view(a@)),
                    None => None,
                },
                home@,
                workload_id@,
                self.egress_proxy_port,
            ) {
                Ok(v) => r matches Ok(p) && plan_matches(p, v),
                Err(m) => r matches Err(RuntimeError::InvalidConfig(msg)) && msg@ == m,
            },
    {
        let ex = match manifest {
            ManifestRead::Absent => {
                return Err(RuntimeError::InvalidConfig(String::from_str("Missing native execution config")));
            },
            ManifestRead::Invalid => {
                return Err(RuntimeError::InvalidConfig(String::from_str("Failed to parse manifest JSON")));
            },
            ManifestRead::Parsed(ex) => ex,
        };
        match ex.runtime {
            RuntimeType::Native => {},
            _ => {
                return Err(RuntimeError::InvalidConfig(String::from_str("Missing native execution config")));
            },
        }
        let parts = match words {
            Some(w) => w,
            None => {
                let mut v: Vec<String> = Vec::new();
                v.push(ex.entrypoint.clone());
                assert(strs_view(v@) =~= seq![ex.entrypoint@]);
                v
            },
        };
        let ghost pv = strs_view(parts@);
        if parts.len() == 0 {
            return Err(RuntimeError::InvalidConfig(String::from_str("Empty entrypoint")));
        }
        let (name, version) = split_runtime_id(parts[0].as_str());
        let binary = binary_choice_of(name.as_str());
        let env = native_env(process_env);
        let port = match lookup_env(&env, "PORT") {
            Some(p) => p,
            None => String::from_str("0"),
        };
        let home_dir = join_path(home, ".gumball");
        let models = join_path(home_dir.as_str(), "models");
        // the arguments before substitution: those of the process, else the entrypoint's
        let use_process = match process_args {
            Some(a) => a.len() > 0,
            None => false,
        };
        let src: &Vec<String> = if use_process {
            match process_args {
                Some(a) => a,
                None => &parts,
            }
        } else {
            &parts
        };
        assert(strs_view(src@).skip(1) == effective_args(
            match process_args {
                Some(a) => Some(strs_view(a@)),
                None => None,
            },
            pv.skip(1),
        )) by {
            assert(strs_view(parts@).skip(1) =~= pv.skip(1));
        }
        let ghost eff = strs_view(src@).skip(1);
        let ghost port_v = port@;
        let ghost models_v = models@;
        proof {
            reveal_strlit("${PORT}");
            reveal_strlit("${GUMBALL_MODELS_DIR}");
        }
        let mut args: Vec<String> = Vec::new();
        let mut i: usize = 1;
        while i < src.len()
            invariant
                1 <= i <= src@.len(),
                eff == strs_view(src@).skip(1),
                port@ == port_v,
                models@ == models_v,
                "${PORT}"@.len() > 0,
                "${GUMBALL_MODELS_DIR}"@.len() > 0,
                args@.len() == i - 1,
                forall|k: int| 0 <= k < i - 1 ==> #[trigger] args@[k]@ == substitute(eff[k], port_v, models_v),
            decreases src@.len() - i,
        {
            let a1 = replace_str(src[i].as_str(), "${PORT}", port.as_str());
            let a2 = replace_str(a1.as_str(), "${GUMBALL_MODELS_DIR}", models.as_str());
            assert(eff[i - 1] == src@[i as int]@);
            args.push(a2);
            i += 1;
        }
        let proxy = match self.egress_proxy_port {
            Some(p) => {
                let token = lookup_env(&env, ENV_KEY_EGRESS_TOKEN);
                let url = proxy_url_for(workload_id, &token, "127.0.0.1", p);
                proxy_env_for(url.as_str())
            },
            None => {
                let v: Vec<(String, String)> = Vec::new();
                assert(pairs_view(v@) =~= Seq::<(Seq<char>, Seq<char>)>::empty());
                v
            },
        };
        let ghost final_args = Seq::new(eff.len(), |k: int| substitute(eff[k], port_v, models_v));
        assert(strs_view(args@) =~= final_args);
        Ok(NativeLaunchPlan { name, version, binary, args, env, proxy_env: proxy })
    }

    /// Plan a native launch (the planning half of `launch`): the entrypoint is
    /// split into shell words first.
    pub fn plan_launch(
        &self,
        manifest: &ManifestRead,
        process_env: &Vec<String>,
        process_args: Option<&Vec<String>>,
        home: &str,
        workload_id: &str,
    ) -> (r: Result<NativeLaunchPlan, RuntimeError>)
        ensures
            match native_plan(
                *manifest,
                match *manifest {
                    ManifestRead::Parsed(ex) => shell_words_of(ex.entrypoint@),
                    _ => None,
                },
                strs_view(process_env@),
                match process_args {
                    Some(a) => Some(strs_view(a@)),
                    None => None,
                },
                home@,
                workload_id@,
                self.egress_proxy_port,
            ) {
                Ok(v) => r matches Ok(p) && plan_matches(p, v),
                Err(m) => r matches Err(RuntimeError::InvalidConfig(msg)) && msg@ == m,
            },
    {
        let words = match manifest {
            ManifestRead::Parsed(ex) => split_words(ex.entrypoint.as_str()),
            _ => None,
        };
        self.plan_launch_with_words(manifest, words, process_env, process_args, home, workload_id)
    }
}

} // verus!
