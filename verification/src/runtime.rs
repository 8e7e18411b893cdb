//! Runtime kinds, runtime configuration and the runtimes' plain state.

use vstd::prelude::*;
use crate::path_guard::{debug_list, debug_string_list};
use crate::text::{ascii_lower, contains_seq, dec, str_eq, strs_view, to_ascii_lower, chars_of, find_from, u64_to_string};

verus! {

/// Hook retries when the configuration names none.
pub const DEFAULT_HOOK_RETRY_ATTEMPTS: u32 = 1;

/// Runtime implementation used to launch a workload.
#[derive(Clone, Copy, Debug, PartialEq, Eq, Hash, Structural)]
pub enum RuntimeKind {
    Youki,
    Runc,
    Mock,
    Native,
    Wasm,
    Source,
}

/// The kind named `s`, ignoring ASCII case.
pub open spec fn parse_runtime_kind(s: Seq<char>) -> Option<RuntimeKind> {
    let l = ascii_lower(s);
    if l == "youki"@ {
        Some(RuntimeKind::Youki)
    } else if l == "runc"@ {
        Some(RuntimeKind::Runc)
    } else if l == "mock"@ {
        Some(RuntimeKind::Mock)
    } else if l == "native"@ {
        Some(RuntimeKind::Native)
    } else if l == "wasm"@ {
        Some(RuntimeKind::Wasm)
    } else {
        None
    }
}

/// Binaries that implement a kind; internal kinds have none.
pub open spec fn kind_binaries(k: RuntimeKind) -> Seq<Seq<char>> {
    match k {
        RuntimeKind::Youki => seq!["youki"@],
        RuntimeKind::Runc => seq!["runc"@],
        RuntimeKind::Mock => seq!["mock_runtime"@],
        _ => Seq::empty(),
    }
}

/// Debug name of a kind.
pub open spec fn kind_debug(k: RuntimeKind) -> Seq<char> {
    match k {
        RuntimeKind::Youki => "Youki"@,
        RuntimeKind::Runc => "Runc"@,
        RuntimeKind::Mock => "Mock"@,
        RuntimeKind::Native => "Native"@,
        RuntimeKind::Wasm => "Wasm"@,
        RuntimeKind::Source => "Source"@,
    }
}

impl RuntimeKind {
    pub fn from_str(input: &str) -> (r: Option<RuntimeKind>)
        ensures
            r == parse_runtime_kind(input@),
    {
        let l = to_ascii_lower(input);
        let l = l.as_str();
        if str_eq(l, "youki") {
            Some(RuntimeKind::Youki)
        } else if str_eq(l, "runc") {
            Some(RuntimeKind::Runc)
        } else if str_eq(l, "mock") {
            Some(RuntimeKind::Mock)
        } else if str_eq(l, "native") {
            Some(RuntimeKind::Native)
        } else if str_eq(l, "wasm") {
            Some(RuntimeKind::Wasm)
        } else {
            None
        }
    }

    pub fn binary_candidates(self) -> (r: Vec<&'static str>)
        ensures
            r@.len() == kind_binaries(self).len(),
            forall|i: int| 0 <= i < r@.len() ==> #[trigger] r@[i]@ == kind_binaries(self)[i],
    {
        match self {
            RuntimeKind::Youki => vec!["youki"],
            RuntimeKind::Runc => vec!["runc"],
            RuntimeKind::Mock => vec!["mock_runtime"],
            _ => Vec::new(),
        }
    }

    /// Debug name of the kind.
    pub fn debug_name(&self) -> (r: &'static str)
        ensures
            r@ == kind_debug(*self),
    {
        match self {
            RuntimeKind::Youki => "Youki",
            RuntimeKind::Runc => "Runc",
            RuntimeKind::Mock => "Mock",
            RuntimeKind::Native => "Native",
            RuntimeKind::Wasm => "Wasm",
            RuntimeKind::Source => "Source",
        }
    }
}

/// The `[runtime]` section of the engine configuration.
#[derive(Debug)]
pub struct RuntimeSection {
    pub preferred: Option<String>,
    pub binary_path: Option<String>,
    pub bundle_root: Option<String>,
    pub state_root: Option<String>,
    pub log_dir: Option<String>,
    pub hook_retry_attempts: Option<u32>,
}

/// Concrete runtime configuration after defaults and binary detection.
#[derive(Debug)]
pub struct RuntimeConfig {
    pub kind: RuntimeKind,
    pub binary_path: String,
    pub bundle_root: String,
    pub state_root: String,
    pub log_dir: String,
    pub hook_retry_attempts: u32,
}

/// What a launch reports.
#[derive(Debug)]
pub struct LaunchResult {
    /// Process id (none for Wasm components).
    pub pid: Option<u32>,
    pub bundle_path: Option<String>,
    pub log_path: Option<String>,
    /// Allocated port, for network services.
    pub port: Option<u16>,
}

/// Errors of the runtime launcher.
#[derive(Debug)]
pub enum RuntimeError {
    BinaryNotFound { tried: Vec<String> },
    InvalidConfig(String),
    CommandFailure { operation: String, exit_code: Option<i32>, stderr: String },
    Internal(String),
    ExecutionFailed(String),
}

/// The runtime's stderr points at a failing hook (an OCI hook or the NVIDIA
/// container hook).
pub open spec fn is_hook_failure(stderr: Seq<char>) -> bool {
    contains_seq(ascii_lower(stderr), "hook"@) || contains_seq(ascii_lower(stderr), "nvidia"@)
}

pub fn hook_related_failure(stderr: &str) -> (b: bool)
    ensures
        b == is_hook_failure(stderr@),
{
    let lower = to_ascii_lower(stderr);
    let v = chars_of(lower.as_str());
    let hook = chars_of("hook");
    let nvidia = chars_of("nvidia");
    assert(v@.skip(0) =~= v@);
    find_from(&v, &hook, 0).is_some() || find_from(&v, &nvidia, 0).is_some()
}

/// Container runtime that launches workloads with runc or youki.
#[derive(Debug)]
pub struct ContainerRuntime {
    config: RuntimeConfig,
}

impl ContainerRuntime {
    pub fn new(config: RuntimeConfig) -> (r: Self)
        ensures
            r.config_view() == config,
    {
        ContainerRuntime { config }
    }

    pub closed spec fn config_view(&self) -> RuntimeConfig {
        self.config
    }

    pub fn config(&self) -> (r: &RuntimeConfig)
        ensures
            *r == self.config_view(),
    {
        &self.config
    }
}

/// Runtime that runs containers through the `docker` command.
#[derive(Debug)]
pub struct DockerCliRuntime {
    pub egress_proxy_port: Option<u16>,
}

impl DockerCliRuntime {
    pub fn new(egress_proxy_port: Option<u16>) -> (r: Self)
        ensures
            r.egress_proxy_port == egress_proxy_port,
    {
        DockerCliRuntime { egress_proxy_port }
    }
}

impl Default for DockerCliRuntime {
    fn default() -> (r: Self)
        ensures
            r.egress_proxy_port is None,
    {
        DockerCliRuntime::new(None)
    }
}

/// Runtime that executes binaries directly on the host.
#[derive(Debug)]
pub struct NativeRuntime {
    pub egress_proxy_port: Option<u16>,
}

impl NativeRuntime {
    pub fn new(egress_proxy_port: Option<u16>) -> (r: Self)
        ensures
            r.egress_proxy_port == egress_proxy_port,
    {
        NativeRuntime { egress_proxy_port }
    }
}

/// `Debug` text of an optional exit code: `Some(<n>)` or `None`.
pub open spec fn exit_code_debug(c: Option<i32>) -> Seq<char> {
    match c {
        Some(n) => "Some("@ + (if n < 0 {
            "-"@ + dec((-n) as nat)
        } else {
            dec(n as nat)
        }) + ")"@,
        None => "None"@,
    }
}

/// The message of a runtime error.
pub open spec fn runtime_error_message(e: RuntimeError) -> Seq<char> {
    match e {
        RuntimeError::BinaryNotFound { tried } => "runtime binary not found. tried: "@ + debug_string_list(
            strs_view(tried@),
        ),
        RuntimeError::InvalidConfig(m) => "invalid runtime configuration: "@ + m@,
        RuntimeError::CommandFailure { operation, exit_code, stderr } => "runtime command failed: "@
            + operation@ + " (exit="@ + exit_code_debug(exit_code) + "): "@ + stderr@,
        RuntimeError::Internal(m) => "internal runtime error: "@ + m@,
        RuntimeError::ExecutionFailed(m) => "execution failed: "@ + m@,
    }
}

fn exit_code_text(c: Option<i32>) -> (r: String)
    ensures
        r@ == exit_code_debug(c),
{
    match c {
        Some(n) => {
            let mut s = String::from_str("Some(");
            if n < 0 {
                s.append("-");
                let m: i64 = -(n as i64);
                let t = u64_to_string(m as u64);
                s.append(t.as_str());
            } else {
                let t = u64_to_string(n as u64);
                s.append(t.as_str());
            }
            s.append(")");
            s
        },
        None => String::from_str("None"),
    }
}

impl RuntimeError {
    /// The error's message.
    pub fn to_string(&self) -> (r: String)
        ensures
            r@ == runtime_error_message(*self),
    {
        match self {
            RuntimeError::BinaryNotFound { tried } => {
                let mut s = String::from_str("runtime binary not found. tried: ");
                let l = debug_list(tried);
                s.append(l.as_str());
                s
            },
            RuntimeError::InvalidConfig(m) => {
                let mut s = String::from_str("invalid runtime configuration: ");
                s.append(m.as_str());
                s
            },
            RuntimeError::CommandFailure { operation, exit_code, stderr } => {
                let mut s = String::from_str("runtime command failed: ");
                s.append(operation.as_str());
                s.append(" (exit=");
                let c = exit_code_text(*exit_code);
                s.append(c.as_str());
                s.append("): ");
                s.append(stderr.as_str());
                s
            },
            RuntimeError::Internal(m) => {
                let mut s = String::from_str("internal runtime error: ");
                s.append(m.as_str());
                s
            },
            RuntimeError::ExecutionFailed(m) => {
                let mut s = String::from_str("execution failed: ");
                s.append(m.as_str());
                s
            },
        }
    }
}

} // verus!
