//! Job phases and the errors of the job history store.

use vstd::prelude::*;
use crate::text::{ascii_lower, str_eq, to_ascii_lower};

verus! {

/// Execution phase of a job.
#[derive(Clone, Copy, Debug, PartialEq, Eq, Structural)]
pub enum JobPhase {
    /// Queued, not yet started.
    Pending,
    /// Running.
    Running,
    /// Completed successfully.
    Succeeded,
    /// Failed with an error.
    Failed,
    /// Cancelled by a user or the system.
    Cancelled,
}

/// The stored name of a phase.
pub open spec fn phase_name(p: JobPhase) -> Seq<char> {
    match p {
        JobPhase::Pending => "pending"@,
        JobPhase::Running => "running"@,
        JobPhase::Succeeded => "succeeded"@,
        JobPhase::Failed => "failed"@,
        JobPhase::Cancelled => "cancelled"@,
    }
}

/// The phase whose name is `s`, case-insensitively.
///
/// Lowercasing by ASCII rules gives the same outcome as full Unicode
/// lowercasing here: no non-ASCII character lowercases to a letter of
/// these names.
pub open spec fn parse_phase(s: Seq<char>) -> Option<JobPhase> {
    let l = ascii_lower(s);
    if l == "pending"@ {
        Some(JobPhase::Pending)
    } else if l == "running"@ {
        Some(JobPhase::Running)
    } else if l == "succeeded"@ {
        Some(JobPhase::Succeeded)
    } else if l == "failed"@ {
        Some(JobPhase::Failed)
    } else if l == "cancelled"@ {
        Some(JobPhase::Cancelled)
    } else {
        None
    }
}

pub open spec fn is_terminal_phase(p: JobPhase) -> bool {
    p is Succeeded || p is Failed || p is Cancelled
}

/// Debug name of a phase.
pub open spec fn phase_debug(p: JobPhase) -> Seq<char> {
    match p {
        JobPhase::Pending => "Pending"@,
        JobPhase::Running => "Running"@,
        JobPhase::Succeeded => "Succeeded"@,
        JobPhase::Failed => "Failed"@,
        JobPhase::Cancelled => "Cancelled"@,
    }
}

impl JobPhase {
    pub fn as_str(&self) -> (r: &'static str)
        ensures
            r@ == phase_name(*self),
    {
        match self {
            JobPhase::Pending => "pending",
            JobPhase::Running => "running",
            JobPhase::Succeeded => "succeeded",
            JobPhase::Failed => "failed",
            JobPhase::Cancelled => "cancelled",
        }
    }

    pub fn from_str(s: &str) -> (r: Option<JobPhase>)
        ensures
            r == parse_phase(s@),
    {
        let l = to_ascii_lower(s);
        let l = l.as_str();
        if str_eq(l, "pending") {
            Some(JobPhase::Pending)
        } else if str_eq(l, "running") {
            Some(JobPhase::Running)
        } else if str_eq(l, "succeeded") {
            Some(JobPhase::Succeeded)
        } else if str_eq(l, "failed") {
            Some(JobPhase::Failed)
        } else if str_eq(l, "cancelled") {
            Some(JobPhase::Cancelled)
        } else {
            None
        }
    }

    /// A terminal phase: succeeded, failed or cancelled.
    pub fn is_terminal(&self) -> (b: bool)
        ensures
            b == is_terminal_phase(*self),
    {
        match self {
            JobPhase::Succeeded | JobPhase::Failed | JobPhase::Cancelled => true,
            _ => false,
        }
    }

    fn debug_name(&self) -> (r: &'static str)
        ensures
            r@ == phase_debug(*self),
    {
        match self {
            JobPhase::Pending => "Pending",
            JobPhase::Running => "Running",
            JobPhase::Succeeded => "Succeeded",
            JobPhase::Failed => "Failed",
            JobPhase::Cancelled => "Cancelled",
        }
    }
}

/// Reading the stored name of a phase gives the phase back.
pub proof fn lemma_phase_name_round_trip(p: JobPhase)
    ensures
        parse_phase(phase_name(p)) == Some(p),
{
    reveal_strlit("pending");
    reveal_strlit("running");
    reveal_strlit("succeeded");
    reveal_strlit("failed");
    reveal_strlit("cancelled");
    assert(ascii_lower("pending"@) =~= "pending"@);
    assert(ascii_lower("running"@) =~= "running"@);
    assert(ascii_lower("succeeded"@) =~= "succeeded"@);
    assert(ascii_lower("failed"@) =~= "failed"@);
    assert(ascii_lower("cancelled"@) =~= "cancelled"@);
    assert("running"@[0] != "pending"@[0]);
    assert("succeeded"@[0] != "pending"@[0] && "succeeded"@[0] != "running"@[0]);
    assert("failed"@[0] != "pending"@[0] && "failed"@[0] != "running"@[0] && "failed"@[0] != "succeeded"@[0]);
    assert("cancelled"@[0] != "pending"@[0] && "cancelled"@[0] != "running"@[0] && "cancelled"@[0] != "succeeded"@[0] && "cancelled"@[0] != "failed"@[0]);
}

/// Errors of job history operations.
#[derive(Debug)]
pub enum JobHistoryError {
    DatabaseError(String),
    NotFound(String),
    InvalidTransition { from: JobPhase, to: JobPhase },
    SerializationError(String),
}

pub open spec fn job_error_message(e: JobHistoryError) -> Seq<char> {
    match e {
        JobHistoryError::DatabaseError(m) => "Database error: "@ + m@,
        JobHistoryError::NotFound(m) => "Job not found: "@ + m@,
        JobHistoryError::InvalidTransition { from, to } => "Invalid phase transition: "@
            + phase_debug(from) + " -> "@ + phase_debug(to),
        JobHistoryError::SerializationError(m) => "Serialization error: "@ + m@,
    }
}

impl JobHistoryError {
    /// The error's message.
    pub fn message(&self) -> (r: String)
        ensures
            r@ == job_error_message(*self),
    {
        match self {
            JobHistoryError::DatabaseError(m) => {
                let mut s = String::from_str("Database error: ");
                s.append(m.as_str());
                s
            },
            JobHistoryError::NotFound(m) => {
                let mut s = String::from_str("Job not found: ");
                s.append(m.as_str());
                s
            },
            JobHistoryError::InvalidTransition { from, to } => {
                let mut s = String::from_str("Invalid phase transition: ");
                s.append(from.debug_name());
                s.append(" -> ");
                s.append(to.debug_name());
                s
            },
            JobHistoryError::SerializationError(m) => {
                let mut s = String::from_str("Serialization error: ");
                s.append(m.as_str());
                s
            },
        }
    }
}

/// A job in the history; times are Unix seconds.
#[derive(Debug)]
pub struct JobRecord {
    pub job_id: String,
    pub capsule_name: String,
    pub capsule_version: String,
    pub phase: JobPhase,
    pub error_message: Option<String>,
    pub exit_code: Option<i32>,
    pub created_at: i64,
    pub started_at: Option<i64>,
    pub finished_at: Option<i64>,
    pub duration_secs: Option<u64>,
    pub resource_usage_json: Option<String>,
}

/// Seconds from `start` to `now`, none when `now` is earlier.
pub open spec fn elapsed(start: i64, now: i64) -> u64 {
    if now >= start {
        (now - start) as u64
    } else {
        0
    }
}

impl JobRecord {
    /// Move the job to `phase` at time `now`. A terminal phase records the
    /// error message and exit code given, the finish time and the run's
    /// duration (from its start, where it has one); entering `Running`
    /// records the start; any other phase changes only the phase.
    pub fn update_phase(&mut self, phase: JobPhase, error_message: Option<String>, exit_code: Option<i32>, now: i64)
        ensures
            final(self).phase == phase,
            final(self).job_id == old(self).job_id,
            final(self).capsule_name == old(self).capsule_name,
            final(self).capsule_version == old(self).capsule_version,
            final(self).created_at == old(self).created_at,
            final(self).resource_usage_json == old(self).resource_usage_json,
            is_terminal_phase(phase) ==> {
                &&& final(self).error_message == error_message
                &&& final(self).exit_code == exit_code
                &&& final(self).finished_at == Some(now)
                &&& final(self).started_at == old(self).started_at
                &&& final(self).duration_secs == match old(self).started_at {
                    Some(s) => Some(elapsed(s, now)),
                    None => None::<u64>,
                }
            },
            phase == JobPhase::Running ==> {
                &&& final(self).started_at == Some(now)
                &&& final(self).error_message == old(self).error_message
                &&& final(self).exit_code == old(self).exit_code
                &&& final(self).finished_at == old(self).finished_at
                &&& final(self).duration_secs == old(self).duration_secs
            },
            !is_terminal_phase(phase) && phase != JobPhase::Running ==> {
                &&& final(self).started_at == old(self).started_at
                &&& final(self).error_message == old(self).error_message
                &&& final(self).exit_code == old(self).exit_code
                &&& final(self).finished_at == old(self).finished_at
                &&& final(self).duration_secs == old(self).duration_secs
            },
    {
        if phase.is_terminal() {
            let duration = match self.started_at {
                Some(s) => {
                    if now >= s {
                        let d: i128 = now as i128 - s as i128;
                        Some(d as u64)
                    } else {
                        Some(0u64)
                    }
                },
                None => None,
            };
            self.error_message = error_message;
            self.exit_code = exit_code;
            self.finished_at = Some(now);
            self.duration_secs = duration;
        } else if phase == JobPhase::Running {
            self.started_at = Some(now);
        }
        self.phase = phase;
    }
}

} // verus!
