use nacelle::ingest::{fetch_decision, FetchStep, FetcherConfig, ResourceFetchRequest};
use nacelle::validator::{file_first_target, validate_file_first};
use nacelle::fetch_plan::{tokens_of, NodeVersionQuery};
use nacelle::toolchain::RuntimeFetcher;

#[test]
fn semverish_versions_are_normalized() {
    assert_eq!(RuntimeFetcher::normalize_semverish(" v18.17.0 "), "18.17.0");
    assert_eq!(RuntimeFetcher::normalize_semverish("bun-v1.1.3"), "1.1.3");
    assert_eq!(RuntimeFetcher::normalize_semverish(">= 3.11"), "3.11");
    assert_eq!(RuntimeFetcher::normalize_semverish("^1.2.3-beta"), "1.2.3");
    assert_eq!(RuntimeFetcher::normalize_semverish("latest"), "latest");
    assert_eq!(RuntimeFetcher::normalize_semverish("~=2.0"), "2.0");
}

#[test]
fn python_download_urls() {
    assert_eq!(
        RuntimeFetcher::get_python_download_url("3.11", "linux", "x86_64").unwrap(),
        "https://github.com/astral-sh/python-build-standalone/releases/download/20241002/cpython-3.11.10+20241002-x86_64-unknown-linux-gnu-install_only.tar.gz"
    );
    assert_eq!(
        RuntimeFetcher::get_python_download_url("3.12.1", "windows", "x86_64").unwrap(),
        "https://github.com/astral-sh/python-build-standalone/releases/download/20241002/cpython-3.12.1+20241002-x86_64-pc-windows-msvc-shared-install_only.tar.gz"
    );
    assert_eq!(
        RuntimeFetcher::get_python_download_url("3.11", "freebsd", "x86_64").unwrap_err(),
        "Unsupported platform: freebsd x86_64"
    );
}

#[test]
fn node_artifact_names() {
    assert_eq!(
        RuntimeFetcher::node_artifact_filename("20.11.1", "macos", "aarch64").unwrap(),
        ("node-v20.11.1-darwin-arm64.tar.gz".to_string(), false)
    );
    assert_eq!(
        RuntimeFetcher::node_artifact_filename("20.11.1", "windows", "x86_64").unwrap(),
        ("node-v20.11.1-win-x64.zip".to_string(), true)
    );
    assert_eq!(
        RuntimeFetcher::node_artifact_filename("20", "linux", "riscv").unwrap_err(),
        "Unsupported arch for Node: riscv"
    );
    assert_eq!(
        RuntimeFetcher::node_artifact_filename("20", "plan9", "x86_64").unwrap_err(),
        "Unsupported OS for Node: plan9"
    );
}

#[test]
fn fetch_plans_for_each_runtime() {
    let f = RuntimeFetcher::with_cache_dir("/cache".to_string());
    let p = f.python_fetch_plan("3.12", "linux", "aarch64").unwrap();
    assert!(p.download_url.ends_with("cpython-3.12.7+20241002-aarch64-unknown-linux-gnu-install_only.tar.gz"));
    assert_eq!(p.checksum_url, format!("{}.sha256", p.download_url));
    assert_eq!(p.checksum_filename, None);
    assert_eq!(p.archive_path, "/cache/python-3.12.tar.gz");
    assert_eq!(p.temp_dir, "/cache/tmp-python-3.12");

    let n = f.node_fetch_plan("20", "20.11.1", "linux", "x86_64").unwrap();
    assert_eq!(n.download_url, "https://nodejs.org/dist/v20.11.1/node-v20.11.1-linux-x64.tar.gz");
    assert_eq!(n.checksum_url, "https://nodejs.org/dist/v20.11.1/SHASUMS256.txt");
    assert_eq!(n.checksum_filename, Some("node-v20.11.1-linux-x64.tar.gz".to_string()));
    assert_eq!(n.archive_path, "/cache/node-20.tar.gz");

    let d = f.deno_fetch_plan("v1.40.0", "macos", "x86_64").unwrap();
    assert_eq!(d.download_url, "https://github.com/denoland/deno/releases/download/v1.40.0/deno-x86_64-apple-darwin.zip");
    assert_eq!(d.checksum_url, "https://github.com/denoland/deno/releases/download/v1.40.0/deno-x86_64-apple-darwin.zip.sha256sum");
    assert_eq!(d.archive_path, "/cache/deno-v1.40.0.zip");
    assert!(d.is_zip);

    let b = f.bun_fetch_plan("1.1.0", "linux", "aarch64").unwrap();
    assert_eq!(b.download_url, "https://github.com/oven-sh/bun/releases/download/bun-v1.1.0/bun-linux-aarch64.zip");
    assert_eq!(b.checksum_url, "https://github.com/oven-sh/bun/releases/download/bun-v1.1.0/SHASUMS256.txt");
    assert_eq!(f.bun_fetch_plan("1", "windows", "aarch64").unwrap_err(), "Unsupported platform for Bun: windows aarch64");
}

#[test]
fn node_version_queries() {
    assert!(matches!(RuntimeFetcher::node_version_query("v20.11.1"), Ok(NodeVersionQuery::Full(v)) if v == "20.11.1"));
    assert!(matches!(RuntimeFetcher::node_version_query("20"), Ok(NodeVersionQuery::Prefix(p)) if p == "20."));
    assert!(matches!(RuntimeFetcher::node_version_query("^18.2"), Ok(NodeVersionQuery::Prefix(p)) if p == "18.2."));
    assert!(matches!(RuntimeFetcher::node_version_query("lts"), Ok(NodeVersionQuery::Prefix(p)) if p == "lts."));
    assert_eq!(
        RuntimeFetcher::node_version_query("...").unwrap_err(),
        "Invalid Node version hint: ..."
    );
    let index = vec![Some("v21.0.0".to_string()), None, Some("v20.11.1".to_string()), Some("v20.10.0".to_string())];
    assert_eq!(RuntimeFetcher::pick_node_release(&index, "20."), Some("20.11.1".to_string()));
    assert_eq!(RuntimeFetcher::pick_node_release(&index, "19."), None);
}

#[test]
fn sha256_is_read_from_checksum_files() {
    let a = "a".repeat(64);
    let b = "B".repeat(64);
    let text = format!("{a}  other.tar.gz\r\n{b}  node-v20-linux-x64.tar.gz\n");
    assert_eq!(
        RuntimeFetcher::parse_sha256_from_text(&text, Some("node-v20-linux-x64.tar.gz")).unwrap(),
        "b".repeat(64)
    );
    assert_eq!(RuntimeFetcher::parse_sha256_from_text(&text, None).unwrap(), a);
    let bsd = format!("SHA256 (deno.zip) = {b}");
    assert_eq!(RuntimeFetcher::parse_sha256_from_text(&bsd, Some("deno.zip")).unwrap(), "b".repeat(64));
    assert_eq!(
        RuntimeFetcher::parse_sha256_from_text(&format!("{a}\n"), Some("missing.zip")).unwrap(),
        a
    );
    assert_eq!(
        RuntimeFetcher::parse_sha256_from_text("no hash here", None).unwrap_err(),
        "Could not parse sha256 from text"
    );
    assert_eq!(tokens_of("SHA256 (x) = y"), vec!["SHA256", "x", "y"]);
}

use nacelle::validator::{check_entrypoint_file, entrypoint_target, validate_cmd};

/// Simulated file system: `/caps/main.py` and `/caps/app.rb` exist.
fn file_first(cmd: &[&str]) -> Result<(), String> {
    let cmd: Vec<String> = cmd.iter().map(|s| s.to_string()).collect();
    let entry = validate_cmd(&cmd, false)?;
    match entry {
        None => Ok(()),
        Some(arg) => {
            let target = entrypoint_target(&arg, "/caps");
            let resolved = if target == "/caps/../../../etc/passwd" { "/etc/passwd".to_string() } else { target.clone() };
            let exists = target == "/caps/main.py" || target == "/caps/app.rb" || resolved == "/etc/passwd";
            check_entrypoint_file(&arg, &target, "/caps", &resolved, exists, exists)
        }
    }
}

#[test]
fn test_valid_python_command() {
    assert!(file_first(&["python3", "main.py"]).is_ok());
}

#[test]
fn test_valid_ruby_command() {
    assert!(file_first(&["ruby", "app.rb"]).is_ok());
}

#[test]
fn test_path_traversal_rejected() {
    let err = file_first(&["python3", "../../../etc/passwd"]).unwrap_err();
    assert!(err.starts_with("Security Violation: Path traversal detected."));
}

#[test]
fn test_missing_file_rejected() {
    let err = file_first(&["python3", "nonexistent.py"]).unwrap_err();
    assert!(err.contains("file not found") || err.contains("Entrypoint"));
    assert_eq!(
        err,
        "Security Violation: Entrypoint file not found.\nExpected file: 'nonexistent.py' (resolved: '/caps/nonexistent.py')\nAll executed code must be in a file within the capsule."
    );
}

#[test]
fn entrypoint_directory_rejected() {
    let err = check_entrypoint_file("lib", "/caps/lib", "/caps", "/caps/lib", true, false).unwrap_err();
    assert_eq!(err, "Security Violation: Entrypoint is not a file.\n'/caps/lib' exists but is a directory or special file.");
}

#[test]
fn inline_code_message_cuts_before_a_split_character() {
    let cmd = vec!["python3".to_string(), format!("import {}", "é".repeat(30))];
    let err = nacelle::validator::validate_cmd(&cmd, false).unwrap_err();
    assert!(err.contains("Inline code execution detected"));
    assert!(err.ends_with(&format!("'import {}...'", "é".repeat(21))));
}

#[test]
fn file_first_rule_composed() {
    let cmd = |v: &[&str]| v.iter().map(|s| s.to_string()).collect::<Vec<String>>();
    assert!(validate_file_first(&cmd(&["python3"]), "/cap", "/cap", "", false, false).is_ok());
    let c = cmd(&["python3", "../../../etc/passwd"]);
    let (arg, target) = file_first_target(&c, "/cap").unwrap();
    assert_eq!(arg, "../../../etc/passwd");
    assert_eq!(target, "/cap/../../../etc/passwd");
    let err = validate_file_first(&c, "/cap", "/cap", "/etc/passwd", true, true).unwrap_err();
    assert!(err.contains("Path traversal detected"));
    let c = cmd(&["python3", "nonexistent.py"]);
    let err = validate_file_first(&c, "/cap", "/cap", "/cap/nonexistent.py", false, false).unwrap_err();
    assert!(err.contains("Entrypoint file not found"));
    let c = cmd(&["python3", "main.py"]);
    assert!(validate_file_first(&c, "/cap", "/cap", "/cap/main.py", true, true).is_ok());
}

fn fetch_cfg() -> FetcherConfig {
    FetcherConfig { cache_dir: "/cache".to_string(), allowed_host_paths: vec!["/cache".to_string()] }
}

fn fetch_req(id: &str, expected: Option<&str>) -> ResourceFetchRequest {
    ResourceFetchRequest {
        resource_id: id.to_string(),
        url: "https://example.com/files/model.bin?x=1".to_string(),
        expected_sha256: expected.map(|s| s.to_string()),
    }
}

#[test]
fn fetch_decision_follows_cache_and_policy() {
    let cfg = fetch_cfg();
    let roots = vec![Some("/cache".to_string())];
    let inside: Result<String, String> = Ok("/cache/r1/model.bin".to_string());
    match fetch_decision(&fetch_req("r1", None), &cfg, &roots, &inside, &None) {
        FetchStep::Download(p) => assert_eq!(p, "/cache/r1/model.bin"),
        other => panic!("unexpected {:?}", other),
    }
    match fetch_decision(&fetch_req("r1", None), &cfg, &roots, &inside, &Some(b"abc".to_vec())) {
        FetchStep::UseCached(p) => assert_eq!(p, "/cache/r1/model.bin"),
        other => panic!("unexpected {:?}", other),
    }
    // sha256("abc")
    let good = "BA7816BF8F01CFEA414140DE5DAE2223B00361A396177A9CB410FF61F20015AD";
    match fetch_decision(&fetch_req("r1", Some(good)), &cfg, &roots, &inside, &Some(b"abc".to_vec())) {
        FetchStep::UseCached(_) => {}
        other => panic!("unexpected {:?}", other),
    }
    match fetch_decision(&fetch_req("r1", Some("00ff")), &cfg, &roots, &inside, &Some(b"abc".to_vec())) {
        FetchStep::Download(_) => {}
        other => panic!("unexpected {:?}", other),
    }
}

#[test]
fn fetch_decision_refusals() {
    let cfg = fetch_cfg();
    let roots = vec![Some("/cache".to_string())];
    let inside: Result<String, String> = Ok("/cache/r1/model.bin".to_string());
    match fetch_decision(&fetch_req("  ", None), &cfg, &roots, &inside, &None) {
        FetchStep::Refuse(m) => assert_eq!(m, "resource_id is required"),
        other => panic!("unexpected {:?}", other),
    }
    let outside: Result<String, String> = Ok("/etc/passwd".to_string());
    match fetch_decision(&fetch_req("r1", None), &cfg, &roots, &outside, &None) {
        FetchStep::Refuse(m) => assert!(m.starts_with("Invalid destination path: ")),
        other => panic!("unexpected {:?}", other),
    }
}
