use nacelle::cas::parse_digest;
use nacelle::host_paths::parse_allowed_host_paths_csv;
use nacelle::job_history::{JobHistoryError, JobPhase};
use nacelle::logs::LogStreamType;
use nacelle::macos::is_native_available;
use nacelle::socket::SocketConfig;
use nacelle::status::{sanitize_endpoint, Backoff};
use nacelle::wasm::{DEFAULT_INSTANCE_LIMIT, DEFAULT_MEMORY_LIMIT, DEFAULT_TABLE_ELEMENTS};
use std::time::Duration;

#[test]
fn test_log_stream_type_to_string() {
    assert_eq!(LogStreamType::Stdout.to_string(), "stdout");
    assert_eq!(LogStreamType::Stderr.to_string(), "stderr");
}

#[test]
fn test_socket_config_default() {
    let config = SocketConfig::default();
    assert_eq!(config.port, 8000);
    assert_eq!(config.host, "0.0.0.0");
    assert!(config.enabled);
}

#[test]
fn test_parse_digest() {
    let (algo, hash) = parse_digest("sha256:abc123").unwrap();
    assert_eq!(algo, "sha256");
    assert_eq!(hash, "abc123");

    assert!(parse_digest("invalid").is_err());
}

#[test]
fn parse_digest_splits_at_first_colon_only() {
    let (algo, hash) = parse_digest("sha512:a:b").unwrap();
    assert_eq!(algo, "sha512");
    assert_eq!(hash, "a:b");
}

#[test]
fn test_native_available() {
    assert!(is_native_available());
}

#[test]
fn windows_sandbox_needs_one_of_two() {
    assert!(nacelle::windows::is_native_available(false, true));
    assert!(!nacelle::windows::is_native_available(false, false));
}

#[test]
fn test_default_constants() {
    assert_eq!(DEFAULT_MEMORY_LIMIT, 512 * 1024 * 1024);
    assert_eq!(DEFAULT_TABLE_ELEMENTS, 10_000);
    assert_eq!(DEFAULT_INSTANCE_LIMIT, 10);
}

#[test]
fn parse_allowed_host_paths_csv_trims_normalizes_and_dedupes() {
    let v = parse_allowed_host_paths_csv(" /var/lib/gumball/ ,/tmp,/var/lib/gumball");
    assert_eq!(v, vec!["/tmp".to_string(), "/var/lib/gumball".to_string()]);
}

#[test]
fn parse_allowed_host_paths_csv_drops_relative_and_traversal() {
    let v = parse_allowed_host_paths_csv("relative/path,/opt/models/../etc,/opt/models");
    assert_eq!(v, vec!["/opt/models".to_string()]);
}

#[test]
fn parse_allowed_host_paths_csv_keeps_root_and_drops_empties() {
    let v = parse_allowed_host_paths_csv("/,,  ,//,/b/,/a");
    assert_eq!(v, vec!["/".to_string(), "/a".to_string(), "/b".to_string()]);
}

#[test]
fn test_sanitize_endpoint() {
    assert_eq!(
        sanitize_endpoint("http://localhost:50052".to_string()),
        "http://localhost:50052"
    );
    assert_eq!(
        sanitize_endpoint("https://example".to_string()),
        "https://example"
    );
    assert_eq!(
        sanitize_endpoint("localhost:50052".to_string()),
        "http://localhost:50052"
    );
}

#[test]
fn test_backoff_progression_and_reset() {
    let mut backoff = Backoff::new(
        Duration::from_millis(10).as_nanos(),
        Duration::from_millis(40).as_nanos(),
    );
    assert_eq!(backoff.next_delay(), Duration::from_millis(10).as_nanos());
    assert_eq!(backoff.next_delay(), Duration::from_millis(20).as_nanos());
    assert_eq!(backoff.next_delay(), Duration::from_millis(40).as_nanos());
    assert_eq!(backoff.next_delay(), Duration::from_millis(40).as_nanos());
    backoff.reset();
    assert_eq!(backoff.next_delay(), Duration::from_millis(10).as_nanos());
}

#[test]
fn default_backoff_starts_at_one_second_and_caps_at_a_minute() {
    let mut backoff = Backoff::with_defaults();
    let mut last = 0;
    for _ in 0..10 {
        last = backoff.next_delay();
    }
    assert_eq!(last, Duration::from_secs(60).as_nanos());
    backoff.reset();
    assert_eq!(backoff.next_delay(), Duration::from_secs(1).as_nanos());
}

#[test]
fn job_phase_names_round_trip() {
    for p in [
        JobPhase::Pending,
        JobPhase::Running,
        JobPhase::Succeeded,
        JobPhase::Failed,
        JobPhase::Cancelled,
    ] {
        assert_eq!(JobPhase::from_str(p.as_str()), Some(p));
    }
    assert_eq!(JobPhase::from_str("RUNNING"), Some(JobPhase::Running));
    assert_eq!(JobPhase::from_str("paused"), None);
    assert!(JobPhase::Cancelled.is_terminal());
    assert!(!JobPhase::Running.is_terminal());
}

#[test]
fn job_history_error_messages() {
    assert_eq!(
        JobHistoryError::NotFound("job-1".to_string()).message(),
        "Job not found: job-1"
    );
    assert_eq!(
        JobHistoryError::InvalidTransition {
            from: JobPhase::Succeeded,
            to: JobPhase::Running
        }
        .message(),
        "Invalid phase transition: Succeeded -> Running"
    );
}

use nacelle::status::{is_retryable_status, GrpcCode};

#[test]
fn test_retryable_status_detection() {
    assert!(is_retryable_status(GrpcCode::Unavailable));
    assert!(!is_retryable_status(GrpcCode::InvalidArgument));
    assert!(is_retryable_status(GrpcCode::Cancelled));
    assert!(!is_retryable_status(GrpcCode::NotFound));
}

use nacelle::logs::{lines_of, LogCollector};

#[test]
fn test_get_logs_empty_file() {
    let collector = LogCollector::new();
    let logs = collector.get_logs("", None, 0);
    assert_eq!(logs.len(), 0);
}

#[test]
fn test_get_logs_with_content() {
    let collector = LogCollector::new();
    let text = "Line 1\nLine 2\nLine 3\n";
    let logs = collector.get_logs(text, None, 7);
    assert_eq!(logs.len(), 3);
    assert_eq!(logs[0].line, "Line 1");
    assert_eq!(logs[1].line, "Line 2");
    assert_eq!(logs[2].line, "Line 3");
    assert_eq!(logs[2].timestamp, 7);
    assert_eq!(logs[0].stream, LogStreamType::Stdout);
}

#[test]
fn test_get_logs_tail() {
    let collector = LogCollector::new();
    let mut text = String::new();
    for i in 1..=10 {
        text.push_str(&format!("Line {}\n", i));
    }
    let logs = collector.get_logs(&text, Some(3), 0);
    assert_eq!(logs.len(), 3);
    assert_eq!(logs[0].line, "Line 8");
    assert_eq!(logs[1].line, "Line 9");
    assert_eq!(logs[2].line, "Line 10");
    assert_eq!(collector.get_logs(&text, Some(50), 0).len(), 10);
}

#[test]
fn lines_follow_bufread_rules() {
    assert_eq!(lines_of("a\r\nb\r"), vec!["a".to_string(), "b\r".to_string()]);
    assert_eq!(lines_of("a\n\nb"), vec!["a".to_string(), "".to_string(), "b".to_string()]);
    assert!(lines_of("").is_empty());
}

#[test]
fn parse_allowed_host_paths_csv_keeps_a_root_of_repeated_slashes() {
    assert_eq!(parse_allowed_host_paths_csv("//"), vec!["/".to_string()]);
    assert_eq!(parse_allowed_host_paths_csv(" /// ,/x//"), vec!["/".to_string(), "/x".to_string()]);
}
