//! Starting a self-extracting bundle: the decisions about its main service's
//! directory and its network sandbox. Extraction, the sandbox itself and
//! the services are the caller's.

use vstd::prelude::*;
use crate::text::{dec, str_eq, u64_to_string};

verus! {

/// The main service's working directory: a `source` directory that the
/// bundle lacks becomes the bundle root.
pub open spec fn main_cwd(cwd: Option<Seq<char>>, source_is_dir: bool) -> Option<Seq<char>> {
    match cwd {
        Some(c) => if c == "source"@ && !source_is_dir {
            Some("."@)
        } else {
            Some(c)
        },
        None => None,
    }
}

/// The main service's working directory, given whether `source` is a
/// directory of the extracted bundle.
pub fn main_service_cwd(cwd: &Option<String>, source_is_dir: bool) -> (r: Option<String>)
    ensures
        match (r, main_cwd(
            match *cwd {
                Some(c) => Some(c@),
                None => None,
            },
            source_is_dir,
        )) {
            (Some(a), Some(b)) => a@ == b,
            (None, None) => true,
            _ => false,
        },
{
    match cwd {
        Some(c) => if str_eq(c.as_str(), "source") && !source_is_dir {
            Some(String::from_str("."))
        } else {
            Some(c.clone())
        },
        None => None,
    }
}

/// How the bundle's network sandbox is to be handled.
#[derive(Debug, Clone, Copy)]
pub struct SandboxPlan {
    /// Enforcement is strict: a sandbox failure stops the bundle.
    pub strict: bool,
    /// The sandbox is to be prepared before the services start.
    pub prepare: bool,
}

/// The egress mode, `allow_all` where none is configured.
pub open spec fn egress_mode_or_default(mode: Option<Seq<char>>) -> Seq<char> {
    match mode {
        Some(m) => m,
        None => "allow_all"@,
    }
}

/// The sandbox plan: strict enforcement needs the network enabled; the
/// sandbox is prepared when the network is enabled and egress is limited
/// or enforcement is strict.
pub open spec fn sandbox_plan_spec(network_enabled: bool, egress_mode: Seq<char>, enforcement: Seq<char>) -> Result<(bool, bool), Seq<char>> {
    let strict = enforcement == "strict"@;
    if strict && !network_enabled {
        Err("Strict sandbox enforcement requires sandbox.network.enabled=true"@)
    } else {
        Ok((strict, network_enabled && (egress_mode != "allow_all"@ || strict)))
    }
}

/// Plan the bundle's network sandbox from its configuration.
pub fn plan_sandbox(network_enabled: bool, egress_mode: Option<&str>, enforcement: &str) -> (r: Result<SandboxPlan, String>)
    ensures
        match sandbox_plan_spec(
            network_enabled,
            egress_mode_or_default(
                match egress_mode {
                    Some(m) => Some(m@),
                    None => None,
                },
            ),
            enforcement@,
        ) {
            Ok((strict, prepare)) => r matches Ok(p) && p.strict == strict && p.prepare == prepare,
            Err(m) => r matches Err(e) && e@ == m,
        },
{
    let strict = str_eq(enforcement, "strict");
    if strict && !network_enabled {
        return Err(String::from_str("Strict sandbox enforcement requires sandbox.network.enabled=true"));
    }
    let limited = match egress_mode {
        Some(m) => !str_eq(m, "allow_all"),
        None => false,
    };
    proof {
        reveal_strlit("allow_all");
    }
    Ok(SandboxPlan { strict, prepare: network_enabled && (limited || strict) })
}

/// Whether the egress rules are pushed to a prepared sandbox: with the
/// network enabled, egress limited, the sandbox up, and rules to push or
/// everything denied.
pub open spec fn rules_update_needed(
    network_enabled: bool,
    egress_mode: Seq<char>,
    sandbox_enabled: bool,
    has_rules: bool,
) -> bool {
    network_enabled && egress_mode != "allow_all"@ && sandbox_enabled && (has_rules || egress_mode
        == "deny_all"@)
}

/// Whether the egress rules are to be pushed to the sandbox.
pub fn should_update_rules(network_enabled: bool, egress_mode: &str, sandbox_enabled: bool, has_rules: bool) -> (r: bool)
    ensures
        r == rules_update_needed(network_enabled, egress_mode@, sandbox_enabled, has_rules),
{
    network_enabled && !str_eq(egress_mode, "allow_all") && sandbox_enabled && (has_rules || str_eq(
        egress_mode,
        "deny_all",
    ))
}

/// The job id of a bundle run by process `pid`.
pub fn job_id(pid: u32) -> (r: String)
    ensures
        r@ == "job-"@ + dec(pid as nat),
{
    let mut s = String::from_str("job-");
    let n = u64_to_string(pid as u64);
    s.append(n.as_str());
    s
}

/// Strict enforcement is only planned with the network enabled, and then
/// the sandbox is always prepared.
pub proof fn lemma_strict_plan_prepares_sandbox(network_enabled: bool, egress_mode: Seq<char>, enforcement: Seq<char>)
    requires
        sandbox_plan_spec(network_enabled, egress_mode, enforcement) matches Ok((strict, _)) && strict,
    ensures
        network_enabled,
        sandbox_plan_spec(network_enabled, egress_mode, enforcement)->Ok_0.1,
{
}

} // verus!
