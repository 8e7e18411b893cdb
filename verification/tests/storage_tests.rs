use nacelle::storage::{StorageConfig, StorageError, StorageManager, StorageResult};
use std::io;

#[test]
fn test_error_display() {
    let err = StorageError::VolumeNotFound("test_vol".to_string());
    assert_eq!(err.to_string(), "Volume not found: test_vol");

    let err = StorageError::VolumeAlreadyExists("existing_vol".to_string());
    assert_eq!(err.to_string(), "Volume already exists: existing_vol");

    let err = StorageError::InvalidVolumeName("bad@name".to_string());
    assert_eq!(err.to_string(), "Invalid volume name: bad@name");

    let err = StorageError::InsufficientSpace {
        required: 1000,
        available: 500,
    };
    assert_eq!(
        err.to_string(),
        "Insufficient space: required 1000, available 500"
    );
}

#[test]
fn test_command_failed_error() {
    let err = StorageError::CommandFailed("lvcreate failed".to_string());
    assert!(err.to_string().contains("Command execution failed"));
}

#[test]
fn test_encryption_errors() {
    let err = StorageError::EncryptionError("LUKS format failed".to_string());
    assert!(err.to_string().contains("Encryption error"));

    let err = StorageError::KeyManagementError("Key not found".to_string());
    assert!(err.to_string().contains("Key management error"));
}

#[test]
fn test_snapshot_error() {
    let err = StorageError::SnapshotError("COW allocation failed".to_string());
    assert!(err.to_string().contains("Snapshot error"));
}

#[test]
fn test_io_error_conversion() {
    let io_err = io::Error::new(io::ErrorKind::NotFound, "file not found");
    let storage_err: StorageError = io_err.into();
    assert!(storage_err.to_string().contains("IO error"));
    assert!(storage_err.to_string().contains("file not found"));
}

#[test]
fn test_parse_error() {
    let err = StorageError::ParseError("Invalid size format".to_string());
    assert!(err.to_string().contains("Parse error"));
}

#[test]
fn test_permission_denied() {
    let err = StorageError::PermissionDenied("Root required".to_string());
    assert!(err.to_string().contains("Permission denied"));
}

#[test]
fn test_volume_busy() {
    let err = StorageError::VolumeBusy("/dev/vg/lv".to_string());
    assert!(err.to_string().contains("Volume is busy"));
}

fn returns_ok() -> StorageResult<String> {
    Ok("success".to_string())
}

fn returns_err() -> StorageResult<String> {
    Err(StorageError::VolumeNotFound("test".to_string()))
}

#[test]
fn test_result_type() {
    assert!(returns_ok().is_ok());
    assert!(returns_err().is_err());
}

#[test]
fn test_sanitize_dir_name() {
    assert_eq!(
        StorageManager::sanitize_dir_name("my-capsule"),
        "my-capsule"
    );
    assert_eq!(
        StorageManager::sanitize_dir_name("my_capsule"),
        "my_capsule"
    );
    assert_eq!(
        StorageManager::sanitize_dir_name("my capsule"),
        "my_capsule"
    );
    assert_eq!(
        StorageManager::sanitize_dir_name("my.capsule"),
        "my_capsule"
    );
    assert_eq!(
        StorageManager::sanitize_dir_name("-capsule"),
        "capsule_-capsule"
    );
    assert_eq!(StorageManager::sanitize_dir_name(".hidden"), "_hidden");
    assert_eq!(StorageManager::sanitize_dir_name(""), "capsule_unnamed");
}

#[test]
fn test_storage_config_default() {
    let config = StorageConfig::default();
    assert!(!config.enabled);
    assert_eq!(config.default_size_bytes, 10 * 1024 * 1024 * 1024);
}

#[test]
fn storage_paths_join_the_sanitized_name() {
    let manager = StorageManager::with_defaults();
    assert_eq!(
        manager.get_storage_path("my capsule"),
        "/var/lib/capsuled/storage/my_capsule"
    );
    let found = manager.get_capsule_storage("abc", true).unwrap().unwrap();
    assert_eq!(found.capsule_id, "abc");
    assert_eq!(found.storage_path, "/var/lib/capsuled/storage/abc");
    assert_eq!(found.mount_point, Some("/var/lib/capsuled/storage/abc".to_string()));
    assert!(manager.get_capsule_storage("abc", false).unwrap().is_none());
}

#[test]
fn provisioning_record_uses_default_size() {
    let manager = StorageManager::new(StorageConfig {
        enabled: true,
        storage_base: "/tmp/base/".to_string(),
        default_size_bytes: 1024,
        default_vg: "unused".to_string(),
    });
    let rec = manager.capsule_storage_record("test-capsule", None);
    assert_eq!(rec.size_limit_bytes, 1024);
    assert_eq!(rec.storage_path, "/tmp/base/test-capsule");
    let rec = manager.capsule_storage_record("x", Some(7));
    assert_eq!(rec.size_limit_bytes, 7);
}
