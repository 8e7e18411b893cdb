use nacelle::path_guard::{
    bind_source_of, components_of, has_parent_component, starts_with_path, validate_mounts,
    validate_path, StorageVolume,
};

fn strings(v: &[&str]) -> Vec<String> {
    v.iter().map(|s| s.to_string()).collect()
}

/// Each allowlist entry resolved to itself, as for existing, symlink-free directories.
fn resolved_as_given(v: &[String]) -> Vec<Option<String>> {
    v.iter().map(|s| Some(s.clone())).collect()
}

fn bind_volume(source: &str) -> StorageVolume {
    StorageVolume {
        name: format!("bind:{source}"),
        mount_path: "/mnt".to_string(),
        read_only: true,
        size_bytes: 0,
        use_thin: None,
        encrypted: false,
    }
}

#[test]
fn validate_path_allows_path_in_allowlist() {
    let allowed_paths = strings(&["/opt/models", "/mnt/cache", "/tmp"]);
    let resolved = resolved_as_given(&allowed_paths);

    assert!(validate_path(
        "/opt/models/llama-3.gguf",
        &allowed_paths,
        &resolved,
        &Ok("/opt/models/llama-3.gguf".to_string())
    )
    .is_ok());
    assert!(validate_path(
        "/mnt/cache/output",
        &allowed_paths,
        &resolved,
        &Ok("/mnt/cache/output".to_string())
    )
    .is_ok());
}

#[test]
fn validate_path_denies_path_not_in_allowlist() {
    let allowed_paths = strings(&["/opt/models"]);
    let resolved = resolved_as_given(&allowed_paths);

    let err = validate_path(
        "/etc/shadow",
        &allowed_paths,
        &resolved,
        &Ok("/etc/shadow".to_string()),
    )
    .unwrap_err();
    assert!(err.contains("not in the allowed paths"));
}

#[test]
fn validate_path_denies_relative_paths() {
    let allowed_paths = strings(&["/opt/models"]);
    let resolved = resolved_as_given(&allowed_paths);

    let err = validate_path(
        "relative/path",
        &allowed_paths,
        &resolved,
        &Err("unresolved".to_string()),
    )
    .unwrap_err();
    assert!(err.contains("must be absolute"));
}

#[test]
fn validate_path_denies_traversal_components() {
    let allowed_paths = strings(&["/opt/models"]);
    let resolved = resolved_as_given(&allowed_paths);

    let err = validate_path(
        "/opt/models/../etc/passwd",
        &allowed_paths,
        &resolved,
        &Ok("/etc/passwd".to_string()),
    )
    .unwrap_err();
    assert!(err.contains("Path traversal detected"));
}

#[test]
fn validate_path_denies_symlink_escape_when_path_exists() {
    // `/srv/t/allowed/link` is a symlink to `/srv/t/outside`.
    let allowed_paths = strings(&["/srv/t/allowed"]);
    let resolved = resolved_as_given(&allowed_paths);

    let err = validate_path(
        "/srv/t/allowed/link/secret.txt",
        &allowed_paths,
        &resolved,
        &Ok("/srv/t/outside/secret.txt".to_string()),
    )
    .unwrap_err();
    assert!(err.contains("not in the allowed paths"));
}

#[test]
fn validate_path_reports_full_denial_message() {
    let allowed_paths = strings(&["/opt/models", "/tmp"]);
    let resolved = resolved_as_given(&allowed_paths);
    let err = validate_path("/etc/shadow", &allowed_paths, &resolved, &Ok("/etc/shadow".to_string()))
        .unwrap_err();
    assert_eq!(
        err,
        "Path '/etc/shadow' is not in the allowed paths: [\"/opt/models\", \"/tmp\"]"
    );
    let err = validate_path("rel", &allowed_paths, &resolved, &Ok("/x".to_string())).unwrap_err();
    assert_eq!(err, "Path must be absolute: rel");
}

#[test]
fn validate_path_passes_on_resolution_error() {
    let allowed_paths = strings(&["/opt/models"]);
    let resolved = resolved_as_given(&allowed_paths);
    let err = validate_path(
        "/opt/models/x",
        &allowed_paths,
        &resolved,
        &Err("Failed to canonicalize '/opt/models/x': denied".to_string()),
    )
    .unwrap_err();
    assert_eq!(err, "Failed to canonicalize '/opt/models/x': denied");
}

#[test]
fn validate_path_ignores_relative_and_unresolved_entries() {
    let allowed_paths = strings(&["opt", "/data"]);
    let resolved = vec![Some("/opt".to_string()), None];
    let r = validate_path("/opt/a", &allowed_paths, &resolved, &Ok("/opt/a".to_string()));
    assert!(r.unwrap_err().contains("not in the allowed paths"));
}

#[test]
fn validate_path_matches_whole_components() {
    let allowed_paths = strings(&["/opt/models"]);
    let resolved = resolved_as_given(&allowed_paths);
    let r = validate_path(
        "/opt/models2/x",
        &allowed_paths,
        &resolved,
        &Ok("/opt/models2/x".to_string()),
    );
    assert!(r.is_err());
    let r = validate_path("/opt/models", &allowed_paths, &resolved, &Ok("/opt/models".to_string()));
    assert!(r.is_ok());
}

#[test]
fn path_components_follow_path_rules() {
    assert_eq!(components_of("/a//b/./c/"), strings(&["/", "a", "b", "c"]));
    assert_eq!(components_of("./a/."), strings(&[".", "a"]));
    assert_eq!(components_of("a/../b"), strings(&["a", "..", "b"]));
    assert!(starts_with_path("/opt/models/x", "/opt/models/"));
    assert!(!starts_with_path("/opt/modelsx", "/opt/models"));
    assert!(starts_with_path("/anything", "/"));
    assert!(has_parent_component("/a/../b"));
    assert!(!has_parent_component("/a/..b"));
}

#[test]
fn bind_prefix_is_stripped() {
    assert_eq!(bind_source_of("bind:/opt/x"), Some("/opt/x".to_string()));
    assert_eq!(bind_source_of("data"), None);
    assert_eq!(bind_source_of("bind"), None);
}

#[test]
fn validate_mounts_allows_bind_mount_when_in_allowlist() {
    let allowed = strings(&["/opt/models"]);
    let resolved = resolved_as_given(&allowed);
    let vols = vec![bind_volume("/opt/models/llama.gguf")];
    let sources = vec![Ok("/opt/models/llama.gguf".to_string())];
    assert!(validate_mounts(&vols, &allowed, &resolved, &sources).is_ok());
}

#[test]
fn validate_mounts_denies_bind_mount_when_not_in_allowlist() {
    let allowed = strings(&["/opt/models"]);
    let resolved = resolved_as_given(&allowed);
    let vols = vec![bind_volume("/etc/shadow")];
    let sources = vec![Ok("/etc/shadow".to_string())];
    let err = validate_mounts(&vols, &allowed, &resolved, &sources).unwrap_err();
    assert!(err.contains("not in the allowed paths"));
}

#[test]
fn validate_mounts_denies_traversal_components() {
    let allowed = strings(&["/opt/models"]);
    let resolved = resolved_as_given(&allowed);
    let vols = vec![bind_volume("/opt/models/../etc/passwd")];
    let sources = vec![Ok("/etc/passwd".to_string())];
    let err = validate_mounts(&vols, &allowed, &resolved, &sources).unwrap_err();
    assert!(err.contains("Path traversal detected"));
}

#[test]
fn validate_mounts_ok_when_no_volumes() {
    let allowed: Vec<String> = vec![];
    let resolved: Vec<Option<String>> = vec![];
    assert!(validate_mounts(&vec![], &allowed, &resolved, &vec![]).is_ok());
}

#[test]
fn validate_mounts_skips_named_volumes_and_prefixes_errors() {
    let allowed = strings(&["/opt/models"]);
    let resolved = resolved_as_given(&allowed);
    let mut named = bind_volume("x");
    named.name = "cache".to_string();
    let vols = vec![named, bind_volume("rel/path")];
    let sources = vec![Err("unused".to_string()), Err("unused".to_string())];
    let err = validate_mounts(&vols, &allowed, &resolved, &sources).unwrap_err();
    assert_eq!(err, "Volume source error: Path must be absolute: rel/path");
}
