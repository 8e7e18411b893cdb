use nacelle::audit::{AuditEvent, AuditLogger, AuditOperation, AuditStatus};
use nacelle::bundle_boot::{job_id, main_service_cwd, plan_sandbox, should_update_rules};
use nacelle::manifest_verify::{verify_l1_source_policy, L1PolicyError, SourceEntry};
use nacelle::oci_bundle::{build_oci_spec, NamespaceKind, ResourceRequirements};
use nacelle::path_guard::StorageVolume;
use nacelle::resolver::{CapsuleExecution, RuntimeType};
use nacelle::runtime::{LaunchResult, RuntimeError, RuntimeKind, RuntimeSection, DEFAULT_HOOK_RETRY_ATTEMPTS};
use nacelle::runtime_setup::{infer_kind_from_path, FoundBinaries};
use nacelle::runtime::RuntimeConfig;
use nacelle::sandbox::{
    bubblewrap_args, generate_seatbelt_profile, generate_wsb_config, sandbox_env, sandbox_exec_args_with,
    SourceTarget,
};
use nacelle::wasm::{build_env_vars, component_argv, component_log_bytes, component_path, component_result, ComponentOutcome};

fn strings(v: &[&str]) -> Vec<String> {
    v.iter().map(|s| s.to_string()).collect()
}

fn python_target(dev_mode: bool) -> SourceTarget {
    SourceTarget {
        language: "python".to_string(),
        version: Some("3.11".to_string()),
        entrypoint: "main.py".to_string(),
        dependencies: None,
        args: vec![],
        source_dir: "/Users/test/project".to_string(),
        cmd: None,
        dev_mode,
    }
}

#[test]
fn test_seatbelt_profile_generation_dev_mode() {
    let target = python_target(true);
    let profile = generate_seatbelt_profile(&target, "/usr/bin/python3");
    assert!(profile.contains("(version 1)"));
    assert!(profile.contains("(allow default)"));
}

#[test]
fn test_seatbelt_profile_generation_production_mode() {
    let target = python_target(false);
    let profile = generate_seatbelt_profile(&target, "/usr/bin/python3");
    assert!(profile.contains("(version 1)"));
    assert!(profile.contains("(deny default)"));
    assert!(profile.contains("/Users/test/project"));
    assert!(profile.contains("/usr/bin"));
    assert!(profile.contains("(deny network*)"));
    assert!(profile.contains("(allow file-read* (subpath \"/usr/bin\"))"));
    assert!(profile.contains("(allow file-read* (literal \"/usr/bin/python3\"))"));
}

#[test]
fn seatbelt_profile_without_toolchain_parent_reads_usr_bin() {
    let profile = generate_seatbelt_profile(&python_target(false), "/");
    assert!(profile.contains("(allow file-read* (subpath \"/usr/bin\"))"));
}

#[test]
fn test_wsb_config_generation() {
    let mut target = python_target(false);
    target.args = vec!["--debug".to_string()];
    target.source_dir = r"C:\Users\test\project".to_string();
    let config = generate_wsb_config(&target, r"C:\Python311\python.exe");
    assert!(config.contains("<Configuration>"));
    assert!(config.contains("<vGPU>Disable</vGPU>"));
    assert!(config.contains(r"C:\Users\test\project"));
    assert!(config.contains("python.exe"));
    assert!(config.contains("--debug"));
    assert!(config.contains(r#"<Command>cmd /c "cd C:\Source && C:\Python311\python.exe -B main.py --debug"</Command>"#));
}

#[test]
fn wsb_command_escapes_quotes() {
    let mut target = python_target(false);
    target.language = "ruby".to_string();
    target.entrypoint = "a\"b.rb".to_string();
    let config = generate_wsb_config(&target, "ruby.exe");
    assert!(config.contains("ruby.exe a&quot;b.rb"));
}

#[test]
fn test_bubblewrap_command_construction() {
    let mut target = python_target(false);
    target.args = vec!["--flag".to_string()];
    let args = bubblewrap_args(&target, "/usr/bin/python3");
    assert_eq!(args[0], "--unshare-all");
    assert_eq!(args[1], "--die-with-parent");
    assert!(args.contains(&"--clearenv".to_string()));
    assert!(!args.contains(&"--share-net".to_string()));
    let tail: Vec<String> = args[args.len() - 5..].to_vec();
    assert_eq!(tail, strings(&["--", "/usr/bin/python3", "-B", "main.py", "--flag"]));
    let dev = bubblewrap_args(&python_target(true), "/usr/bin/python3");
    assert_eq!(&dev[0..3], &strings(&["--unshare-all", "--share-net", "--die-with-parent"])[..]);
    assert!(!dev.contains(&"--clearenv".to_string()));
}

#[test]
fn sandbox_exec_arguments() {
    let target = python_target(false);
    let args = sandbox_exec_args_with("/s/w.sb", &target, "/usr/bin/python3", None);
    assert_eq!(args, strings(&["-f", "/s/w.sb", "/usr/bin/python3", "-B", "main.py"]));
    let mut explicit = python_target(false);
    explicit.cmd = Some(strings(&["gunicorn", "app:app"]));
    let args = sandbox_exec_args_with("/p", &explicit, "/tc", Some("/usr/local/bin/gunicorn".to_string()));
    assert_eq!(args, strings(&["-f", "/p", "/usr/local/bin/gunicorn", "-B", "app:app"]));
    let args = sandbox_exec_args_with("/p", &explicit, "/tc", None);
    assert_eq!(args[2], "gunicorn");
    explicit.cmd = Some(strings(&["python3", "x.py"]));
    let args = sandbox_exec_args_with("/p", &explicit, "/tc", None);
    assert_eq!(args, strings(&["-f", "/p", "/tc", "-B", "x.py"]));
    let env = sandbox_env(&vec![("HOST_PORT".to_string(), "4000".to_string())]);
    assert_eq!(env[1], ("PORT".to_string(), "4000".to_string()));
}

#[test]
fn test_infer_kind_from_path() {
    assert_eq!(infer_kind_from_path("/usr/bin/youki"), Some(RuntimeKind::Youki));
    assert_eq!(infer_kind_from_path("/usr/bin/runc"), Some(RuntimeKind::Runc));
    assert_eq!(infer_kind_from_path("/usr/bin/unknown"), None);
    assert_eq!(infer_kind_from_path("/x/mock_runtime.sh"), Some(RuntimeKind::Mock));
}

#[test]
fn test_runtime_config_defaults() {
    match RuntimeConfig::from_section(None, false, None, "/tmp") {
        Ok(cfg) => {
            assert!(!cfg.binary_path.is_empty());
            assert!(cfg.bundle_root.contains("bundles"));
            assert!(cfg.state_root.contains("state"));
            assert!(cfg.log_dir.contains("logs"));
            assert_eq!(cfg.hook_retry_attempts, DEFAULT_HOOK_RETRY_ATTEMPTS);
        }
        Err(e) => assert!(e.to_string().contains("not found")),
    }
}

fn no_binaries() -> FoundBinaries {
    FoundBinaries { youki: None, runc: None, mock: None }
}

#[test]
fn runtime_config_resolution_cases() {
    let found = FoundBinaries { youki: None, runc: Some("/usr/bin/runc".to_string()), mock: None };
    let cfg = RuntimeConfig::from_section_found(None, false, &found, Some("/var/capsuled".to_string()), "/tmp").unwrap();
    assert_eq!(cfg.kind, RuntimeKind::Runc);
    assert_eq!(cfg.binary_path, "/usr/bin/runc");
    assert_eq!(cfg.bundle_root, "/var/capsuled/bundles");
    assert_eq!(cfg.log_dir, "/var/capsuled/logs");

    let section = RuntimeSection {
        preferred: Some("YOUKI".to_string()),
        binary_path: None,
        bundle_root: Some("/data/b".to_string()),
        state_root: None,
        log_dir: Some("/l".to_string()),
        hook_retry_attempts: Some(3),
    };
    match RuntimeConfig::from_section_found(Some(&section), false, &no_binaries(), None, "/tmp") {
        Err(RuntimeError::BinaryNotFound { tried }) => assert_eq!(tried, strings(&["youki"])),
        other => panic!("unexpected {:?}", other),
    }
    let found = FoundBinaries { youki: Some("/y".to_string()), runc: None, mock: None };
    let cfg = RuntimeConfig::from_section_found(Some(&section), false, &found, None, "/tmp").unwrap();
    assert_eq!(cfg.state_root, "/data/state");
    assert_eq!(cfg.bundle_root, "/data/b");
    assert_eq!(cfg.log_dir, "/l");
    assert_eq!(cfg.hook_retry_attempts, 3);

    let explicit = RuntimeSection {
        preferred: None,
        binary_path: Some("/opt/tools/engine".to_string()),
        bundle_root: None,
        state_root: None,
        log_dir: None,
        hook_retry_attempts: None,
    };
    match RuntimeConfig::from_section_found(Some(&explicit), true, &no_binaries(), None, "/tmp") {
        Err(RuntimeError::InvalidConfig(m)) => assert_eq!(
            m,
            "Failed to infer runtime kind from binary path \"/opt/tools/engine\". Specify runtime.preferred"
        ),
        other => panic!("unexpected {:?}", other),
    }
    match RuntimeConfig::from_section_found(Some(&explicit), false, &no_binaries(), None, "/tmp") {
        Err(RuntimeError::BinaryNotFound { tried }) => assert_eq!(tried, strings(&["/opt/tools/engine"])),
        other => panic!("unexpected {:?}", other),
    }
    match RuntimeConfig::from_section_found(None, false, &no_binaries(), None, "/tmp") {
        Err(RuntimeError::BinaryNotFound { tried }) => assert_eq!(tried, strings(&["youki", "runc", "mock_runtime"])),
        other => panic!("unexpected {:?}", other),
    }
    let cfg = RuntimeConfig::from_section_found(None, false, &FoundBinaries { youki: None, runc: None, mock: Some("/m".to_string()) }, None, "/tmp").unwrap();
    assert_eq!(cfg.kind, RuntimeKind::Mock);
    assert_eq!(cfg.bundle_root, "/tmp/capsuled/bundles");
}

#[test]
fn test_runtime_error_display() {
    let err = RuntimeError::BinaryNotFound { tried: strings(&["youki", "runc"]) };
    assert!(err.to_string().contains("not found"));
    assert!(err.to_string().contains("youki"));
    assert_eq!(err.to_string(), "runtime binary not found. tried: [\"youki\", \"runc\"]");
    let err = RuntimeError::InvalidConfig("test error".to_string());
    assert!(err.to_string().contains("invalid runtime configuration"));
    let err = RuntimeError::CommandFailure {
        operation: "create".to_string(),
        exit_code: Some(1),
        stderr: "error message".to_string(),
    };
    assert!(err.to_string().contains("create"));
    assert!(err.to_string().contains("error message"));
    assert_eq!(err.to_string(), "runtime command failed: create (exit=Some(1)): error message");
    let err = RuntimeError::CommandFailure { operation: "x".to_string(), exit_code: Some(-2), stderr: String::new() };
    assert_eq!(err.to_string(), "runtime command failed: x (exit=Some(-2)): ");
}

#[test]
fn test_launch_result_fields() {
    let result = LaunchResult {
        pid: Some(12345),
        bundle_path: Some("/path/to/bundle".to_string()),
        log_path: Some("/path/to/log".to_string()),
        port: None,
    };
    assert_eq!(result.pid, Some(12345));
    assert_eq!(result.bundle_path, Some("/path/to/bundle".to_string()));
    assert_eq!(result.log_path, Some("/path/to/log".to_string()));
}

#[test]
fn wasm_launch_pieces() {
    assert_eq!(component_path(&None, "/b"), "/b/main.wasm");
    assert_eq!(component_path(&Some("/x.wasm".to_string()), "/b"), "/x.wasm");
    let env = build_env_vars(&Some(vec![("A".to_string(), "1".to_string())]), Some(8888));
    assert_eq!(env.len(), 3);
    assert_eq!(env[1], ("HTTP_PROXY".to_string(), "http://127.0.0.1:8888".to_string()));
    assert_eq!(env[2].0, "HTTPS_PROXY");
    assert!(build_env_vars(&None, None).is_empty());
    assert_eq!(component_argv("w", &Some(strings(&["a"]))), strings(&["w", "a"]));
    match component_result("w", ComponentOutcome::Trapped("oops".to_string()), "/l".to_string()) {
        Err(RuntimeError::ExecutionFailed(m)) => assert_eq!(m, "Component w trapped: oops"),
        _ => panic!("expected failure"),
    }
    let ok = component_result("w", ComponentOutcome::Completed, "/l".to_string()).unwrap();
    assert_eq!(ok.log_path, Some("/l".to_string()));
    assert_eq!(ok.pid, None);
    assert_eq!(component_log_bytes(b"hi", b""), b"=== STDOUT ===\nhi\n".to_vec());
    assert_eq!(component_log_bytes(b"", b""), Vec::<u8>::new());
}

#[test]
fn bundle_boot_decisions() {
    assert_eq!(main_service_cwd(&Some("source".to_string()), false), Some(".".to_string()));
    assert_eq!(main_service_cwd(&Some("source".to_string()), true), Some("source".to_string()));
    assert_eq!(
        plan_sandbox(false, None, "strict").unwrap_err(),
        "Strict sandbox enforcement requires sandbox.network.enabled=true"
    );
    let p = plan_sandbox(true, None, "strict").unwrap();
    assert!(p.strict && p.prepare);
    let p = plan_sandbox(true, None, "best_effort").unwrap();
    assert!(!p.strict && !p.prepare);
    let p = plan_sandbox(true, Some("deny_all"), "best_effort").unwrap();
    assert!(p.prepare);
    assert!(should_update_rules(true, "deny_all", true, false));
    assert!(!should_update_rules(true, "proxy", true, false));
    assert!(!should_update_rules(true, "allow_all", true, true));
    assert_eq!(job_id(42), "job-42");
}

#[test]
fn build_oci_spec_sets_ro_option_for_readonly_mount() {
    let exec = CapsuleExecution { runtime: RuntimeType::Source, entrypoint: "/bin/echo".to_string() };
    let vols = vec![StorageVolume {
        name: "bind:/tmp/gumball/cache".to_string(),
        mount_path: "/data/models".to_string(),
        read_only: true,
        size_bytes: 0,
        use_thin: None,
        encrypted: false,
    }];
    let allowed = strings(&["/tmp"]);
    let resolved = vec![Some("/tmp".to_string())];
    let sources = vec![Ok("/tmp/gumball/cache".to_string())];
    let spec = build_oci_spec("/rootfs", &exec, &vec![], &vols, None, &allowed, &resolved, &sources, None, None)
        .expect("build_oci_spec should succeed");
    let data_mount = spec
        .mounts
        .iter()
        .find(|m| m.destination == "/data/models")
        .expect("expected /data/models mount");
    assert!(data_mount.options.iter().any(|o| o == "ro"));
    assert_eq!(data_mount.source, "/tmp/gumball/cache");
    assert_eq!(spec.process.args, strings(&["/bin/echo"]));
    assert_eq!(spec.mounts.len(), 5);
    assert_eq!(spec.linux.namespaces.as_ref().unwrap()[1], NamespaceKind::Network);
    assert!(spec.prestart_hooks.is_none());
}

#[test]
fn build_oci_spec_gpus_memory_and_denied_mounts() {
    let exec = CapsuleExecution { runtime: RuntimeType::Docker, entrypoint: "img".to_string() };
    let gpus = strings(&["GPU-1", "GPU-2"]);
    let env = vec![("A".to_string(), "b".to_string())];
    let res = ResourceRequirements { memory_bytes: Some(1024) };
    let spec = build_oci_spec("/r", &exec, &env, &vec![], Some(&gpus), &vec![], &vec![], &vec![], Some(&res), None).unwrap();
    assert_eq!(
        spec.process.env,
        strings(&["A=b", "NVIDIA_VISIBLE_DEVICES=GPU-1,GPU-2", "NVIDIA_DRIVER_CAPABILITIES=compute,utility"])
    );
    assert!(spec.process.args.is_empty());
    assert_eq!(spec.linux.memory_limit, Some(1024));
    assert!(spec.linux.namespaces.is_none());
    assert_eq!(spec.prestart_hooks.as_ref().unwrap()[0].path, "/usr/bin/nvidia-container-runtime-hook");
    let vols = vec![StorageVolume {
        name: "bind:/etc".to_string(),
        mount_path: "/e".to_string(),
        read_only: false,
        size_bytes: 0,
        use_thin: None,
        encrypted: false,
    }];
    let err = build_oci_spec(
        "/r",
        &exec,
        &env,
        &vols,
        None,
        &strings(&["/opt"]),
        &vec![Some("/opt".to_string())],
        &vec![Ok("/etc".to_string())],
        None,
        None,
    )
    .unwrap_err();
    assert!(err.starts_with("Volume source error: Path '/etc' is not in the allowed paths"));
}

#[test]
fn test_event_hash_computation() {
    let mut event = AuditEvent {
        operation: AuditOperation::DeployCapsule,
        status: AuditStatus::Success,
        timestamp: 1700000000,
        capsule_id: Some("test-capsule".to_string()),
        user_id: None,
        details: Some("test details".to_string()),
        content_hash: None,
    };
    event.compute_hash();
    assert!(event.content_hash.is_some());
    assert_eq!(event.content_hash.as_ref().unwrap().len(), 64);
}

#[test]
fn test_compute_merkle_root() {
    let hashes = vec!["a".repeat(64), "b".repeat(64), "c".repeat(64)];
    let root = AuditLogger::compute_merkle_root(&hashes);
    assert_eq!(root.len(), 64);
}

#[test]
fn merkle_root_known_values() {
    // SHA-256 of "empty"
    assert_eq!(
        AuditLogger::compute_merkle_root(&vec![]),
        "2e1cfa82b035c26cbbbdae632cea070514eb8b773f616aaeaf668e2f0be8f10d"
    );
    let one = "ab".repeat(32);
    assert_eq!(AuditLogger::compute_merkle_root(&vec![one.clone()]), one);
    // an undecodable leaf counts as zeros
    assert_eq!(AuditLogger::compute_merkle_root(&vec!["zz".to_string()]), "00".repeat(32));
    let two = AuditLogger::compute_merkle_root(&vec!["00".repeat(32), "00".repeat(32)]);
    assert_eq!(two, "f5a5fd42d16a20302798ef6ed309979b43003d2320d9f0e8ea9831a92759fb4b");
}

#[test]
fn test_nonexistent_path_fails() {
    let result = verify_l1_source_policy("/nonexistent/path", false, vec![], &vec!["py"]);
    assert!(matches!(result, Err(L1PolicyError::BlobNotFound(_))));
}

fn file(path: &str, ext: &str, content: &str) -> SourceEntry {
    SourceEntry::File { path: path.to_string(), extension: Some(ext.to_string()), content: Ok(content.to_string()) }
}

#[test]
fn test_clean_source_passes() {
    let r = verify_l1_source_policy("/src", true, vec![file("/src/main.py", "py", "def main():\n    print('Hello, World!')")], &vec!["py"]);
    assert!(r.is_ok());
}

#[test]
fn test_obfuscated_eval_fails() {
    let r = verify_l1_source_policy("/src", true, vec![file("/src/malicious.py", "py", "eval(some_user_input)")], &vec!["py"]);
    assert!(matches!(r, Err(L1PolicyError::ObfuscationDetected { .. })));
}

#[test]
fn test_curl_pipe_fails() {
    let r = verify_l1_source_policy("/src", true, vec![file("/src/setup.sh", "sh", "curl https://example.com/install.sh | sh")], &vec!["sh"]);
    assert!(matches!(r, Err(L1PolicyError::ObfuscationDetected { .. })));
}

#[test]
fn test_base64_decode_fails() {
    let r = verify_l1_source_policy("/src", true, vec![file("/src/install.sh", "sh", "echo 'payload' | base64 -d | bash")], &vec!["sh"]);
    match r {
        Err(L1PolicyError::ObfuscationDetected { pattern, file }) => {
            assert_eq!(pattern, "base64 -d");
            assert_eq!(file, "/src/install.sh");
        }
        _ => panic!("expected detection"),
    }
}

#[test]
fn l1_policy_skips_other_extensions_and_reports_read_errors() {
    let entries = vec![
        file("/src/notes.md", "md", "eval("),
        SourceEntry::File {
            path: "/src/a.py".to_string(),
            extension: Some("py".to_string()),
            content: Err(std::io::Error::new(std::io::ErrorKind::Other, "denied")),
        },
    ];
    let r = verify_l1_source_policy("/src", true, entries, &vec!["py"]);
    assert!(matches!(r, Err(L1PolicyError::IoError(_))));
}
