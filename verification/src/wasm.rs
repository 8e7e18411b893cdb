//! The WebAssembly runtime: its limits, and what a launch hands the
//! component and makes of its outcome. Running the component is the
//! caller's.

use vstd::prelude::*;
use crate::launch_env::pairs_view;
use crate::runtime::{LaunchResult, RuntimeError};
use crate::storage::{join_path, path_join};
use crate::text::{dec, push_str, push_string, strs_view, u64_to_string};

verus! {

/// Memory a component may use by default (512 MiB).
pub const DEFAULT_MEMORY_LIMIT: usize = 536870912;

/// Table elements a component may use by default.
pub const DEFAULT_TABLE_ELEMENTS: u32 = 10_000;

/// Instances a component may create by default.
pub const DEFAULT_INSTANCE_LIMIT: usize = 10;

/// The component to load: the one the request names, else `main.wasm` in the bundle.
pub open spec fn component_path_spec(requested: Option<Seq<char>>, bundle_root: Seq<char>) -> Seq<char> {
    match requested {
        Some(p) => p,
        None => path_join(bundle_root, "main.wasm"@),
    }
}

/// The component file to load.
pub fn component_path(requested: &Option<String>, bundle_root: &str) -> (r: String)
    ensures
        r@ == component_path_spec(
            match *requested {
                Some(p) => Some(p@),
                None => None,
            },
            bundle_root@,
        ),
{
    match requested {
        Some(p) => p.clone(),
        None => join_path(bundle_root, "main.wasm"),
    }
}

/// The component's environment: the request's variables, then with an
/// egress proxy `HTTP_PROXY` and `HTTPS_PROXY` pointing at it.
pub open spec fn wasm_env_spec(env: Option<Seq<(Seq<char>, Seq<char>)>>, egress_proxy_port: Option<u16>) -> Seq<(Seq<char>, Seq<char>)> {
    (match env {
        Some(e) => e,
        None => Seq::empty(),
    }) + match egress_proxy_port {
        Some(p) => seq![
            ("HTTP_PROXY"@, "http://127.0.0.1:"@ + dec(p as nat)),
            ("HTTPS_PROXY"@, "http://127.0.0.1:"@ + dec(p as nat)),
        ],
        None => Seq::empty(),
    }
}

/// The environment variables of a component (`build_env_vars`).
pub fn build_env_vars(env: &Option<Vec<(String, String)>>, egress_proxy_port: Option<u16>) -> (r: Vec<(String, String)>)
    ensures
        pairs_view(r@) == wasm_env_spec(
            match *env {
                Some(e) => Some(pairs_view(e@)),
                None => None,
            },
            egress_proxy_port,
        ),
{
    let mut r: Vec<(String, String)> = Vec::new();
    match env {
        Some(e) => {
            let mut i: usize = 0;
            while i < e.len()
                invariant
                    i <= e@.len(),
                    pairs_view(r@) == pairs_view(e@).take(i as int),
                decreases e@.len() - i,
            {
                let k = e[i].0.clone();
                let v = e[i].1.clone();
                let ghost before = pairs_view(r@);
                r.push((k, v));
                assert(pairs_view(r@) =~= before.push(pairs_view(e@)[i as int]));
                assert(pairs_view(r@) =~= pairs_view(e@).take(i + 1));
                i += 1;
            }
            assert(pairs_view(e@).take(e@.len() as int) =~= pairs_view(e@));
        },
        None => {
            assert(pairs_view(r@) =~= Seq::<(Seq<char>, Seq<char>)>::empty());
        },
    }
    let ghost base = pairs_view(r@);
    match egress_proxy_port {
        Some(p) => {
            let mut url = String::from_str("http://127.0.0.1:");
            let n = u64_to_string(p as u64);
            url.append(n.as_str());
            let ghost uv = url@;
            r.push((String::from_str("HTTP_PROXY"), url.clone()));
            r.push((String::from_str("HTTPS_PROXY"), url));
            assert(pairs_view(r@) =~= base + seq![("HTTP_PROXY"@, uv), ("HTTPS_PROXY"@, uv)]);
        },
        None => {
            assert(pairs_view(r@) =~= base + Seq::<(Seq<char>, Seq<char>)>::empty());
        },
    }
    r
}

/// The component's arguments: the workload id as `argv[0]`, then the request's.
pub fn component_argv(workload_id: &str, args: &Option<Vec<String>>) -> (r: Vec<String>)
    ensures
        strs_view(r@) == seq![workload_id@] + match *args {
            Some(a) => strs_view(a@),
            None => Seq::empty(),
        },
{
    let mut r: Vec<String> = Vec::new();
    push_str(&mut r, workload_id);
    match args {
        Some(a) => {
            let mut i: usize = 0;
            while i < a.len()
                invariant
                    i <= a@.len(),
                    strs_view(r@) == seq![workload_id@] + strs_view(a@).take(i as int),
                decreases a@.len() - i,
            {
                push_string(&mut r, a[i].clone());
                assert(strs_view(r@) =~= seq![workload_id@] + strs_view(a@).take(i + 1));
                i += 1;
            }
            assert(strs_view(a@).take(a@.len() as int) =~= strs_view(a@));
        },
        None => {
            assert(strs_view(r@) =~= seq![workload_id@] + Seq::<Seq<char>>::empty());
        },
    }
    r
}

/// How a component's run ended.
#[derive(Debug)]
pub enum ComponentOutcome {
    /// `wasi:cli/run` returned success.
    Completed,
    /// `wasi:cli/run` returned an error.
    ExitedWithError,
    /// The component trapped, with the engine's message.
    Trapped(String),
}

/// What a launch reports for a component's outcome: success with the log
/// path and no process, or the failure.
pub fn component_result(workload_id: &str, outcome: ComponentOutcome, log_path: String) -> (r: Result<
    LaunchResult,
    RuntimeError,
>)
    ensures
        match outcome {
            ComponentOutcome::Completed => r matches Ok(l) && l.pid is None && l.bundle_path is None
                && l.log_path == Some(log_path) && l.port is None,
            ComponentOutcome::ExitedWithError => r matches Err(RuntimeError::ExecutionFailed(m))
                && m@ == "Component "@ + workload_id@ + " exited with error"@,
            ComponentOutcome::Trapped(e) => r matches Err(RuntimeError::ExecutionFailed(m)) && m@
                == "Component "@ + workload_id@ + " trapped: "@ + e@,
        },
{
    match outcome {
        ComponentOutcome::Completed => Ok(
            LaunchResult { pid: None, bundle_path: None, log_path: Some(log_path), port: None },
        ),
        ComponentOutcome::ExitedWithError => {
            let mut m = String::from_str("Component ");
            m.append(workload_id);
            m.append(" exited with error");
            Err(RuntimeError::ExecutionFailed(m))
        },
        ComponentOutcome::Trapped(e) => {
            let mut m = String::from_str("Component ");
            m.append(workload_id);
            m.append(" trapped: ");
            m.append(e.as_str());
            Err(RuntimeError::ExecutionFailed(m))
        },
    }
}

/// The bytes of `=== STDOUT ===` and a newline.
pub open spec fn stdout_header() -> Seq<u8> {
    seq![61u8, 61u8, 61u8, 32u8, 83u8, 84u8, 68u8, 79u8, 85u8, 84u8, 32u8, 61u8, 61u8, 61u8, 10u8]
}

/// The bytes of `=== STDERR ===` and a newline.
pub open spec fn stderr_header() -> Seq<u8> {
    seq![61u8, 61u8, 61u8, 32u8, 83u8, 84u8, 68u8, 69u8, 82u8, 82u8, 32u8, 61u8, 61u8, 61u8, 10u8]
}

/// The log of a run: each non-empty stream under its header, followed by a newline.
pub open spec fn component_log(stdout: Seq<u8>, stderr: Seq<u8>) -> Seq<u8> {
    (if stdout.len() > 0 {
        stdout_header() + stdout + seq![10u8]
    } else {
        Seq::empty()
    }) + (if stderr.len() > 0 {
        stderr_header() + stderr + seq![10u8]
    } else {
        Seq::empty()
    })
}

fn append_bytes(out: &mut Vec<u8>, b: &[u8])
    ensures
        final(out)@ == old(out)@ + b@,
{
    let mut i: usize = 0;
    while i < b.len()
        invariant
            i <= b@.len(),
            out@ == old(out)@ + b@.take(i as int),
        decreases b@.len() - i,
    {
        out.push(b[i]);
        assert(out@ =~= old(out)@ + b@.take(i + 1));
        i += 1;
    }
    assert(b@.take(b@.len() as int) =~= b@);
}

/// The bytes written to a component's log file (`write_logs`).
pub fn component_log_bytes(stdout: &[u8], stderr: &[u8]) -> (r: Vec<u8>)
    ensures
        r@ == component_log(stdout@, stderr@),
{
    let mut r: Vec<u8> = Vec::new();
    if stdout.len() > 0 {
        let h: Vec<u8> = vec![61u8, 61u8, 61u8, 32u8, 83u8, 84u8, 68u8, 79u8, 85u8, 84u8, 32u8, 61u8, 61u8, 61u8, 10u8];
        append_bytes(&mut r, h.as_slice());
        append_bytes(&mut r, stdout);
        r.push(10u8);
    }
    let ghost mid = r@;
    assert(mid =~= (if stdout@.len() > 0 {
        stdout_header() + stdout@ + seq![10u8]
    } else {
        Seq::empty()
    }));
    if stderr.len() > 0 {
        let h: Vec<u8> = vec![61u8, 61u8, 61u8, 32u8, 83u8, 84u8, 68u8, 69u8, 82u8, 82u8, 32u8, 61u8, 61u8, 61u8, 10u8];
        append_bytes(&mut r, h.as_slice());
        append_bytes(&mut r, stderr);
        r.push(10u8);
    }
    assert(r@ =~= component_log(stdout@, stderr@));
    r
}

} // verus!
