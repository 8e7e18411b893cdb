use nacelle::job_history::{JobPhase, JobRecord};
use nacelle::socket::inherit_plan;

fn record() -> JobRecord {
    JobRecord {
        job_id: "job-1".to_string(),
        capsule_name: "demo".to_string(),
        capsule_version: "1.0.0".to_string(),
        phase: JobPhase::Pending,
        error_message: None,
        exit_code: None,
        created_at: 100,
        started_at: None,
        finished_at: None,
        duration_secs: None,
        resource_usage_json: None,
    }
}

#[test]
fn running_then_failed_records_times() {
    let mut r = record();
    r.update_phase(JobPhase::Running, None, None, 110);
    assert_eq!(r.phase, JobPhase::Running);
    assert_eq!(r.started_at, Some(110));
    assert_eq!(r.finished_at, None);
    r.update_phase(JobPhase::Failed, Some("boom".to_string()), Some(2), 175);
    assert_eq!(r.phase, JobPhase::Failed);
    assert_eq!(r.error_message.as_deref(), Some("boom"));
    assert_eq!(r.exit_code, Some(2));
    assert_eq!(r.finished_at, Some(175));
    assert_eq!(r.duration_secs, Some(65));
}

#[test]
fn terminal_without_start_has_no_duration_and_clock_skew_gives_zero() {
    let mut r = record();
    r.update_phase(JobPhase::Cancelled, None, None, 50);
    assert_eq!(r.duration_secs, None);
    assert_eq!(r.finished_at, Some(50));
    let mut r = record();
    r.update_phase(JobPhase::Running, None, None, 200);
    r.update_phase(JobPhase::Succeeded, None, Some(0), 150);
    assert_eq!(r.duration_secs, Some(0));
}

#[test]
fn pending_changes_only_the_phase() {
    let mut r = record();
    r.update_phase(JobPhase::Running, None, None, 110);
    r.update_phase(JobPhase::Pending, Some("ignored".to_string()), Some(1), 120);
    assert_eq!(r.phase, JobPhase::Pending);
    assert_eq!(r.started_at, Some(110));
    assert_eq!(r.error_message, None);
    assert_eq!(r.exit_code, None);
}

#[test]
fn socket_inheritance_plan() {
    let p = inherit_plan(7, 4242);
    assert_eq!(
        p.env,
        vec![
            ("LISTEN_FDS".to_string(), "1".to_string()),
            ("LISTEN_PID".to_string(), "4242".to_string())
        ]
    );
    assert!(p.duplicate);
    assert!(!inherit_plan(3, 1).duplicate);
}

use nacelle::oci_launch::{create_args, verb_args, AttemptOutcome, LaunchAction, LaunchLoop};

#[test]
fn oci_runtime_command_lines() {
    assert_eq!(
        create_args("/run/state", "/b/w1", "/run/state/w1.pid", "/logs/w1.log", "w1"),
        vec![
            "create", "--root", "/run/state", "--bundle", "/b/w1", "--pid-file", "/run/state/w1.pid", "--log",
            "/logs/w1.log", "--log-format", "json", "w1"
        ]
    );
    assert_eq!(verb_args("start", "/s", "w1"), vec!["start", "--root", "/s", "w1"]);
    assert_eq!(verb_args("state", "/s", "w1"), vec!["state", "--root", "/s", "w1"]);
    assert_eq!(verb_args("delete", "/s", "w1"), vec!["delete", "--force", "--root", "/s", "w1"]);
}

#[test]
fn hook_failures_are_retried_within_the_budget() {
    let mut l = LaunchLoop::new(1);
    let hook = || AttemptOutcome::CommandFailed("error running hook #0: NVIDIA".to_string());
    assert_eq!(l.step(hook()), LaunchAction::CleanupAndRetry);
    assert_eq!(l.step(hook()), LaunchAction::CleanupAndRetry);
    assert_eq!(l.step(hook()), LaunchAction::CleanupAndFail);
    assert_eq!(l.attempts, 3);
}

#[test]
fn other_failures_end_the_launch_and_success_reports_the_pid() {
    let mut l = LaunchLoop::new(3);
    assert_eq!(l.step(AttemptOutcome::CommandFailed("permission denied".to_string())), LaunchAction::CleanupAndFail);
    let mut l = LaunchLoop::new(3);
    assert_eq!(l.step(AttemptOutcome::OtherError), LaunchAction::CleanupAndFail);
    let mut l = LaunchLoop::new(0);
    assert_eq!(l.step(AttemptOutcome::CommandFailed("hook failed".to_string())), LaunchAction::CleanupAndRetry);
    assert_eq!(l.step(AttemptOutcome::Started(42)), LaunchAction::Done(42));
}

use nacelle::readiness::{readiness_timeout_message, ReadinessWait, WaitStep};

#[test]
fn readiness_wait_rounds() {
    let w = ReadinessWait::new(1_000, 30_000);
    assert_eq!(w.deadline_ms, 31_000);
    assert_eq!(w.step(1_500, false), WaitStep::Sleep);
    assert_eq!(w.step(2_500, true), WaitStep::Ready);
    assert_eq!(w.step(31_000, true), WaitStep::Ready);
    assert_eq!(w.step(31_001, true), WaitStep::TimedOut);
    assert!(!w.needs_probe(40_000));
    assert_eq!(readiness_timeout_message("web"), "Readiness probe timed out for 'web'");
}

use nacelle::runtime_config::{cwd_candidate, resolve_path_with_cwd_given};

#[test]
fn executables_resolve_against_bundle_cwd_and_path() {
    let r = |p: &str, in_cwd: bool, found: Option<&str>| resolve_path_with_cwd_given("/b", "/b/source", p, in_cwd, found);
    assert_eq!(r(" /usr/bin/python ", false, None), "/usr/bin/python");
    assert_eq!(r("source/app.py", true, None), "/b/source/app.py");
    assert_eq!(r("runtime/bin/node", false, None), "/b/runtime/bin/node");
    assert_eq!(r("././run.sh", false, None), "/b/source/run.sh");
    assert_eq!(r("app", true, Some("/usr/bin/app")), "/b/source/app");
    assert_eq!(r("python3", false, Some("/usr/bin/python3")), "/usr/bin/python3");
    assert_eq!(r("python3", false, None), "/b/python3");
    assert_eq!(r("bin/tool", true, Some("/x")), "/b/bin/tool");
    assert_eq!(cwd_candidate("/b/source", " app "), "/b/source/app");
}
