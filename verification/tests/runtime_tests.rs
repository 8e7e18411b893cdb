use nacelle::resolver::{
    detect_current_platform, resolve_runtime, CapsuleExecution, CapsuleManifestV1, OciTarget,
    ResolveContext, ResolveError, ResolvedTarget, RuntimeType, SourceTarget, TargetsConfig,
    WasmTarget,
};
use nacelle::runtime::{hook_related_failure, RuntimeKind};
use nacelle::source::{
    build_entrypoint, determine_mode, select_image_for_language, SourceRuntimeConfig,
    SourceRuntimeMode, DENO_IMAGE, NODE_IMAGE, PYTHON_IMAGE,
};

fn test_context() -> ResolveContext {
    ResolveContext::with_all_runtimes(detect_current_platform("macos", "aarch64"))
}

fn test_manifest_with_targets() -> CapsuleManifestV1 {
    CapsuleManifestV1 {
        name: "test-capsule".to_string(),
        version: "1.0.0".to_string(),
        execution: CapsuleExecution {
            runtime: RuntimeType::Oci,
            entrypoint: "/app/main".to_string(),
        },
        targets: Some(TargetsConfig {
            preference: vec!["wasm".to_string(), "oci".to_string()],
            wasm: Some(WasmTarget {
                digest: "sha256:abc123".to_string(),
                world: "wasi:cli/command".to_string(),
            }),
            source: None,
            oci: Some(OciTarget {
                image: "python:3.11-slim".to_string(),
                digest: Some("sha256:def456".to_string()),
                cmd: vec!["python".to_string(), "main.py".to_string()],
            }),
        }),
    }
}

fn test_manifest_legacy() -> CapsuleManifestV1 {
    CapsuleManifestV1 {
        name: "test-legacy".to_string(),
        version: "1.0.0".to_string(),
        execution: CapsuleExecution {
            runtime: RuntimeType::Oci,
            entrypoint: "python:3.11-slim".to_string(),
        },
        targets: None,
    }
}

#[test]
fn test_runtime_kind_from_str() {
    assert_eq!(RuntimeKind::from_str("youki"), Some(RuntimeKind::Youki));
    assert_eq!(RuntimeKind::from_str("YOUKI"), Some(RuntimeKind::Youki));
    assert_eq!(RuntimeKind::from_str("runc"), Some(RuntimeKind::Runc));
    assert_eq!(RuntimeKind::from_str("RUNC"), Some(RuntimeKind::Runc));
    assert_eq!(RuntimeKind::from_str("invalid"), None);
}

#[test]
fn test_runtime_kind_binary_candidates() {
    assert_eq!(RuntimeKind::Youki.binary_candidates(), &["youki"]);
    assert_eq!(RuntimeKind::Runc.binary_candidates(), &["runc"]);
}

#[test]
fn test_hook_related_failure() {
    assert!(hook_related_failure("Error: hook failed"));
    assert!(hook_related_failure("nvidia hook error"));
    assert!(hook_related_failure("HOOK: failed to execute"));
    assert!(!hook_related_failure("Container failed to start"));
    assert!(!hook_related_failure("Unknown error"));
}

#[test]
fn test_resolve_prefers_wasm_when_available() {
    let manifest = test_manifest_with_targets();
    let context = test_context();

    let result = resolve_runtime(&manifest, &context).unwrap();

    match result {
        ResolvedTarget::Wasm { digest, world, .. } => {
            assert_eq!(digest, "sha256:abc123");
            assert_eq!(world, "wasi:cli/command");
        }
        _ => panic!("Expected Wasm target, got {:?}", result),
    }
}

#[test]
fn test_resolve_falls_back_to_oci_when_wasm_unavailable() {
    let manifest = test_manifest_with_targets();
    let mut context = test_context();
    context.wasm_available = false;
    context.supported_runtimes.retain(|k| *k != RuntimeKind::Wasm);

    let result = resolve_runtime(&manifest, &context).unwrap();

    match result {
        ResolvedTarget::Oci { image, .. } => {
            assert_eq!(image, "python:3.11-slim");
        }
        _ => panic!("Expected OCI target, got {:?}", result),
    }
}

#[test]
fn test_resolve_legacy_when_no_targets() {
    let manifest = test_manifest_legacy();
    let context = test_context();

    let result = resolve_runtime(&manifest, &context).unwrap();

    match result {
        ResolvedTarget::Legacy {
            runtime_type,
            entrypoint,
        } => {
            assert_eq!(runtime_type, RuntimeType::Oci);
            assert_eq!(entrypoint, "python:3.11-slim");
        }
        _ => panic!("Expected Legacy target, got {:?}", result),
    }
}

#[test]
fn test_resolve_error_when_no_compatible_target() {
    let manifest = test_manifest_with_targets();
    let mut context = test_context();
    context.wasm_available = false;
    context.docker_available = false;
    context.supported_runtimes.clear();

    let result = resolve_runtime(&manifest, &context);

    assert!(result.is_err());
    match result.unwrap_err() {
        ResolveError::NoCompatibleTarget { provided, .. } => {
            assert!(provided.contains(&"wasm".to_string()));
            assert!(provided.contains(&"oci".to_string()));
        }
        other => panic!("Expected NoCompatibleTarget, got {:?}", other),
    }
}

#[test]
fn resolve_source_needs_a_version_for_deno() {
    let mut manifest = test_manifest_with_targets();
    manifest.targets = Some(TargetsConfig {
        preference: vec![],
        wasm: None,
        source: Some(SourceTarget {
            language: "deno".to_string(),
            version: Some("  ".to_string()),
            entrypoint: "main.ts".to_string(),
            dependencies: None,
            args: vec![],
        }),
        oci: None,
    });
    let context = test_context();
    assert!(resolve_runtime(&manifest, &context).is_err());
    if let Some(t) = manifest.targets.as_mut() {
        t.source.as_mut().unwrap().version = Some("1.40".to_string());
    }
    match resolve_runtime(&manifest, &context).unwrap() {
        ResolvedTarget::Source { language, version, .. } => {
            assert_eq!(language, "deno");
            assert_eq!(version, Some("1.40".to_string()));
        }
        other => panic!("Expected Source target, got {:?}", other),
    }
}

#[test]
fn test_detect_platform() {
    let platform = detect_current_platform("macos", "aarch64");
    assert!(!platform.is_empty());
    assert_eq!(platform, "darwin-arm64");
    assert_eq!(detect_current_platform("linux", "x86_64"), "linux-amd64");
    assert_eq!(detect_current_platform("freebsd", "x86_64"), "unknown");
}

#[test]
fn test_resolved_target_runtime_kind() {
    let wasm = ResolvedTarget::Wasm {
        digest: "test".to_string(),
        world: "test".to_string(),
        component_path: None,
    };
    assert_eq!(wasm.runtime_kind(), RuntimeKind::Wasm);

    let oci = ResolvedTarget::Oci {
        image: "test".to_string(),
        digest: None,
        cmd: vec![],
    };
    assert_eq!(oci.runtime_kind(), RuntimeKind::Youki);
    assert_eq!(oci.target_type_name(), "oci");
}

#[test]
fn test_context_has_toolchain() {
    let context = test_context();
    assert!(context.has_toolchain("python"));
    assert!(context.has_toolchain("Python"));
    assert!(context.has_toolchain("python3"));
    assert!(context.has_toolchain("node"));
    assert!(context.has_toolchain("nodejs"));
    assert!(!context.has_toolchain("ruby"));
}

#[test]
fn test_image_selection() {
    assert_eq!(select_image_for_language("python", None), PYTHON_IMAGE);
    assert_eq!(
        select_image_for_language("python", Some("3.10")),
        "python:3.10-slim"
    );
    assert_eq!(select_image_for_language("node", None), NODE_IMAGE);
    assert_eq!(
        select_image_for_language("node", Some("18.17.0")),
        "node:18-slim"
    );
    assert_eq!(select_image_for_language("deno", None), DENO_IMAGE);
}

#[test]
fn test_entrypoint_construction() {
    let entry = build_entrypoint("python", "main.py", &vec!["--debug".to_string()]);
    assert_eq!(entry, vec!["python3", "-u", "main.py", "--debug"]);

    let entry = build_entrypoint("node", "app.js", &vec![]);
    assert_eq!(entry, vec!["node", "app.js"]);

    let entry = build_entrypoint("deno", "server.ts", &vec![]);
    assert_eq!(entry, vec!["deno", "run", "--allow-read", "server.ts"]);
}

#[test]
fn test_determine_mode_without_dev_mode() {
    assert_eq!(determine_mode(false, true, true, true, true), SourceRuntimeMode::Containerized);
    assert_eq!(determine_mode(true, false, false, true, true), SourceRuntimeMode::Native);
    assert_eq!(determine_mode(true, true, false, false, false), SourceRuntimeMode::Containerized);
}

#[test]
fn test_workload_log_path() {
    let mut config = SourceRuntimeConfig::with_dev_mode_var(None);
    config.log_dir = "/var/log/capsuled".to_string();
    assert_eq!(config.workload_log_path("test-123"), "/var/log/capsuled/test-123.log");
    assert!(!config.dev_mode);
    assert!(SourceRuntimeConfig::with_dev_mode_var(Some("1")).dev_mode);
}
