use nacelle::toolchain::{
    detect_from_probes, parse_version, version_compatible, version_gte, version_matches, RuntimeFetcher,
    ToolchainInfo, ToolchainLookup, ToolchainManager,
};
use nacelle::validator::{find_entrypoint, validate_binary, validate_cmd};

#[test]
fn test_parse_python_version() {
    assert_eq!(
        parse_version("python", "Python 3.11.4"),
        Some("3.11.4".to_string())
    );
}

#[test]
fn test_parse_node_version() {
    assert_eq!(
        parse_version("node", "v18.17.0"),
        Some("18.17.0".to_string())
    );
}

#[test]
fn parse_version_of_ruby_and_perl() {
    assert_eq!(
        parse_version("ruby", "ruby 3.2.0 (2022-12-25 revision a528908271) [x86_64-linux]"),
        Some("3.2.0".to_string())
    );
    assert_eq!(
        parse_version("perl", "This is perl 5, version 36, subversion 0 (v5.36.0)"),
        Some("5.36".to_string())
    );
    assert_eq!(parse_version("python", "3.11"), None);
}

#[test]
fn test_version_gte() {
    assert!(version_gte("3.11.4", "3.11"));
    assert!(version_gte("3.11.4", "3.11.4"));
    assert!(version_gte("3.12.0", "3.11.4"));
    assert!(!version_gte("3.10.0", "3.11"));
}

#[test]
fn test_version_compatible() {
    assert!(version_compatible("3.11.4", "3.11"));
    assert!(version_compatible("3.12.0", "3.11"));
    assert!(!version_compatible("4.0.0", "3.11"));
    assert!(!version_compatible("3.10.0", "3.11"));
}

#[test]
fn test_version_matches() {
    assert!(version_matches("3.11.4", None));

    assert!(version_matches("3.11.4", Some("3.11.4")));
    assert!(version_matches("3.11.4", Some("3.11")));

    assert!(version_matches("3.11.4", Some("^3.11")));
    assert!(!version_matches("3.10.0", Some("^3.11")));

    assert!(version_matches("3.11.4", Some(">=3.11")));
    assert!(!version_matches("3.10.0", Some(">=3.11")));
}

#[test]
fn version_comparisons_count_trailing_parts() {
    // More parts with equal leading parts make a greater version.
    assert!(version_matches("3.11.0", Some(">3.11")));
    assert!(!version_matches("3.11", Some(">3.11")));
    assert!(version_matches("3.11", Some("<=3.11")));
    assert!(!version_matches("3.11.0", Some("<3.11")));
    assert!(version_matches("3.9", Some("<3.11")));
    assert!(version_matches(" 3.11.2", Some(" 3.11")) == false);
}

#[test]
fn toolchain_cache_answers_after_detection() {
    let mut tm = ToolchainManager::new();
    assert!(matches!(tm.find_toolchain("python", None), ToolchainLookup::Detect));
    let info = ToolchainInfo {
        language: "python".to_string(),
        version: "3.11.4".to_string(),
        path: "/usr/bin/python3".to_string(),
    };
    let found = tm.record_detection("python", Some(info), Some("^3.11"));
    assert_eq!(found.unwrap().path, "/usr/bin/python3");
    assert!(matches!(tm.find_toolchain("python", Some("3.11")), ToolchainLookup::Found(_)));
    assert!(matches!(tm.find_toolchain("python", Some("3.12")), ToolchainLookup::Detect));
    tm.record_detection("ruby", None, None);
    assert!(matches!(tm.find_toolchain("ruby", None), ToolchainLookup::Missing));
}

#[test]
fn runtime_fetcher_paths() {
    let f = RuntimeFetcher::with_cache_dir("/cache".to_string());
    assert_eq!(f.get_runtime_path("python", "3.11"), "/cache/python-3.11");
    assert_eq!(f.lock_path("python", "3.11/x"), "/cache/.locks/python-3.11_x.lock");
    assert_eq!(RuntimeFetcher::canonical_fetcher_key("NodeJS"), Some("node"));
    assert_eq!(RuntimeFetcher::canonical_fetcher_key("ruby"), None);
}

#[test]
fn test_binary_allowlist() {
    assert!(validate_binary("python3", false).is_ok());
    assert!(validate_binary("ruby", false).is_ok());
    assert!(validate_binary("node", false).is_ok());
    assert!(validate_binary("bash", false).is_err());
    assert!(validate_binary("sh", false).is_err());
    assert!(validate_binary("arbitrary_binary", false).is_err());
}

#[test]
fn test_dev_only_binary() {
    assert!(validate_binary("npx", false).is_err());
    assert!(validate_binary("npx", true).is_ok());
}

#[test]
fn test_inline_script_rejected() {
    let cmd = vec![
        "python3".to_string(),
        "-c".to_string(),
        "import os; os.system('cat /etc/passwd')".to_string(),
    ];
    let result = validate_cmd(&cmd, false);
    assert!(result.is_err());
    assert!(result.unwrap_err().contains("Dangerous flag"));
}

#[test]
fn test_node_inspect_rejected_in_prod() {
    let cmd = vec![
        "node".to_string(),
        "--inspect=0.0.0.0:9229".to_string(),
        "main.js".to_string(),
    ];
    assert!(validate_cmd(&cmd, false).is_err());
}

#[test]
fn test_node_inspect_allowed_in_dev() {
    let cmd = vec![
        "node".to_string(),
        "--inspect".to_string(),
        "main.js".to_string(),
    ];
    assert_eq!(validate_cmd(&cmd, true).unwrap(), Some("main.js".to_string()));
}

#[test]
fn inline_code_is_rejected_with_a_short_excerpt() {
    let cmd = vec!["ruby".to_string(), "puts 'hello'".to_string()];
    let err = validate_cmd(&cmd, false).unwrap_err();
    assert!(err.contains("Inline code execution detected"));
    assert!(err.ends_with("'puts 'hello''"));
}

#[test]
fn entrypoint_is_the_last_file_like_argument() {
    let cmd = vec!["python3".to_string(), "main.py".to_string(), "--port".to_string(), "8000".to_string()];
    assert_eq!(find_entrypoint(&cmd), Some("main.py".to_string()));
    let cmd = vec!["deno".to_string(), "serve".to_string()];
    assert_eq!(find_entrypoint(&cmd), Some("serve".to_string()));
    assert!(validate_cmd(&vec![], false).is_err());
}

#[test]
fn detection_takes_first_binary_that_reports_a_version() {
    let probes = vec![
        None,
        Some(("/usr/bin/python".to_string(), "Python 3.11.4\n".to_string())),
    ];
    let info = detect_from_probes("python", &probes).expect("python found");
    assert_eq!(info.language, "python");
    assert_eq!(info.version, "3.11.4");
    assert_eq!(info.path, "/usr/bin/python");

    let garbled = vec![
        Some(("/usr/bin/python3".to_string(), "garbage".to_string())),
        Some(("/usr/bin/python".to_string(), "Python 3.12.1".to_string())),
    ];
    let info = detect_from_probes("Python", &garbled).expect("second binary");
    assert_eq!(info.path, "/usr/bin/python");
    assert_eq!(info.version, "3.12.1");
    assert_eq!(info.language, "Python");

    let node = vec![Some(("/opt/node".to_string(), "v18.17.0".to_string()))];
    assert_eq!(detect_from_probes("nodejs", &node).expect("node").version, "18.17.0");
}

#[test]
fn detection_of_unknown_language_finds_nothing() {
    let probes = vec![Some(("/usr/bin/cobc".to_string(), "cobc 3.1".to_string()))];
    assert!(detect_from_probes("cobol", &probes).is_none());
    assert!(detect_from_probes("python", &Vec::new()).is_none());
}

#[test]
fn flag_check_looks_at_every_argument_but_the_binary() {
    let v = |xs: &[&str]| xs.iter().map(|s| s.to_string()).collect::<Vec<String>>();
    // The binary itself is never taken for a flag.
    assert_eq!(validate_cmd(&v(&["--eval", "app.js"]), false).unwrap(), Some("app.js".to_string()));
    // A dangerous flag anywhere after it is refused, also in its `=` form.
    assert!(validate_cmd(&v(&["node", "app.js", "--eval=1"]), false).is_err());
    assert!(validate_cmd(&v(&["python3", "main.py", "x", "-c"]), false).is_err());
    // Development mode allows only its own flags.
    assert!(validate_cmd(&v(&["node", "--inspect=9229", "main.js"]), true).is_ok());
    assert!(validate_cmd(&v(&["node", "--inspect=9229", "main.js"]), false).is_err());
    assert!(validate_cmd(&v(&["node", "-e", "main.js"]), true).is_err());
}
