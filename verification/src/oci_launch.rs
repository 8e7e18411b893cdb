//! Launching a bundle with an OCI runtime (runc, youki): the runtime's
//! command lines, and the create-and-start loop that retries failures of
//! container hooks.

use vstd::prelude::*;
use crate::runtime::{hook_related_failure, is_hook_failure};
use crate::text::{push_str, strs_view};

verus! {

/// `<runtime> create --root <state> --bundle <bundle> --pid-file <pid>
/// --log <log> --log-format json <id>`.
pub open spec fn create_args_spec(
    state_root: Seq<char>,
    bundle: Seq<char>,
    pid_file: Seq<char>,
    log: Seq<char>,
    id: Seq<char>,
) -> Seq<Seq<char>> {
    seq![
        "create"@,
        "--root"@,
        state_root,
        "--bundle"@,
        bundle,
        "--pid-file"@,
        pid_file,
        "--log"@,
        log,
        "--log-format"@,
        "json"@,
        id,
    ]
}

/// The arguments of the runtime's `create`.
pub fn create_args(state_root: &str, bundle: &str, pid_file: &str, log: &str, id: &str) -> (r: Vec<String>)
    ensures
        strs_view(r@) == create_args_spec(state_root@, bundle@, pid_file@, log@, id@),
{
    let mut out: Vec<String> = Vec::new();
    push_str(&mut out, "create");
    push_str(&mut out, "--root");
    push_str(&mut out, state_root);
    push_str(&mut out, "--bundle");
    push_str(&mut out, bundle);
    push_str(&mut out, "--pid-file");
    push_str(&mut out, pid_file);
    push_str(&mut out, "--log");
    push_str(&mut out, log);
    push_str(&mut out, "--log-format");
    push_str(&mut out, "json");
    push_str(&mut out, id);
    assert(strs_view(out@) =~= create_args_spec(state_root@, bundle@, pid_file@, log@, id@));
    out
}

/// `<runtime> <verb> --root <state> <id>` for `start` and `state`, and
/// `<runtime> delete --force --root <state> <id>`.
pub open spec fn verb_args_spec(verb: Seq<char>, state_root: Seq<char>, id: Seq<char>) -> Seq<Seq<char>> {
    if verb == "delete"@ {
        seq!["delete"@, "--force"@, "--root"@, state_root, id]
    } else {
        seq![verb, "--root"@, state_root, id]
    }
}

/// The arguments of the runtime's `start`, `state` or `delete`.
pub fn verb_args(verb: &str, state_root: &str, id: &str) -> (r: Vec<String>)
    ensures
        strs_view(r@) == verb_args_spec(verb@, state_root@, id@),
{
    let mut out: Vec<String> = Vec::new();
    if crate::text::str_eq(verb, "delete") {
        push_str(&mut out, "delete");
        push_str(&mut out, "--force");
    } else {
        push_str(&mut out, verb);
    }
    push_str(&mut out, "--root");
    push_str(&mut out, state_root);
    push_str(&mut out, id);
    assert(strs_view(out@) =~= verb_args_spec(verb@, state_root@, id@));
    out
}

/// How one create-and-start attempt ended.
#[derive(Debug)]
pub enum AttemptOutcome {
    /// The container runs with this PID.
    Started(u32),
    /// A runtime command failed, with this stderr.
    CommandFailed(String),
    /// Anything else went wrong (the command could not run, the state could
    /// not be read, ...).
    OtherError,
}

/// What the launch does after an attempt.
#[derive(Debug, PartialEq, Eq, Structural)]
pub enum LaunchAction {
    /// Report the running container.
    Done(u32),
    /// Delete what the attempt left and try again.
    CleanupAndRetry,
    /// Delete what the attempt left and report the error.
    CleanupAndFail,
}

/// The create-and-start loop: attempts made so far, and the number of
/// retries granted to hook failures.
#[derive(Debug)]
pub struct LaunchLoop {
    pub attempts: u32,
    pub hook_retry_attempts: u32,
}

/// An attempt that failed is tried again when a runtime command failed
/// because of a hook and the attempt was within the retries granted.
pub open spec fn retries(attempt: int, hook_retry_attempts: int, outcome: AttemptOutcome) -> bool {
    outcome matches AttemptOutcome::CommandFailed(stderr) && attempt <= hook_retry_attempts + 1
        && is_hook_failure(stderr@)
}

impl LaunchLoop {
    /// A loop before its first attempt.
    pub fn new(hook_retry_attempts: u32) -> (l: Self)
        ensures
            l.attempts == 0,
            l.hook_retry_attempts == hook_retry_attempts,
    {
        LaunchLoop { attempts: 0, hook_retry_attempts }
    }

    /// Record the outcome of the next attempt and decide what follows.
    pub fn step(&mut self, outcome: AttemptOutcome) -> (a: LaunchAction)
        requires
            old(self).attempts <= old(self).hook_retry_attempts + 1,
            old(self).hook_retry_attempts < u32::MAX - 1,
        ensures
            final(self).attempts == old(self).attempts + 1,
            final(self).hook_retry_attempts == old(self).hook_retry_attempts,
            match outcome {
                AttemptOutcome::Started(pid) => a == LaunchAction::Done(pid),
                _ => if retries(final(self).attempts as int, old(self).hook_retry_attempts as int, outcome) {
                    a == LaunchAction::CleanupAndRetry
                } else {
                    a == LaunchAction::CleanupAndFail
                },
            },
            a == LaunchAction::CleanupAndRetry ==> final(self).attempts <= final(self).hook_retry_attempts + 1,
    {
        self.attempts = self.attempts + 1;
        match outcome {
            AttemptOutcome::Started(pid) => LaunchAction::Done(pid),
            AttemptOutcome::CommandFailed(stderr) => {
                if self.attempts <= self.hook_retry_attempts + 1 && hook_related_failure(stderr.as_str()) {
                    LaunchAction::CleanupAndRetry
                } else {
                    LaunchAction::CleanupAndFail
                }
            },
            AttemptOutcome::OtherError => LaunchAction::CleanupAndFail,
        }
    }
}

/// However the attempts go, the loop makes at most `hook_retry_attempts + 2`
/// of them: an attempt is retried only while it is within the retries
/// granted, so the attempt after the last granted retry ends the loop.
pub proof fn lemma_launch_attempts_bounded(attempts: u32, hook_retry_attempts: u32, outcome: AttemptOutcome)
    requires
        attempts == hook_retry_attempts + 2,
    ensures
        !retries(attempts as int, hook_retry_attempts as int, outcome),
{
}

} // verus!
