use nacelle::lockfile::{CapsuleLock, TargetEntry, UrlEntry};
use nacelle::oci_cache::{CacheError, LayerCache};
use nacelle::storage::{total_size, StorageConfig, StorageError, StorageManager};
use nacelle::strmap::StrMap;
use nacelle::supervisor_mode::SupervisorModeRunOptions;
use nacelle::toolchain::RuntimeFetcher;

fn manager() -> StorageManager {
    StorageManager::new(StorageConfig {
        enabled: true,
        storage_base: "/var/lib/s".to_string(),
        default_size_bytes: 1024,
        default_vg: "unused".to_string(),
    })
}

#[test]
fn allowlist_rejects_unknown_host() {
    let mut targets = StrMap::new();
    targets.insert(
        "linux-x86_64".to_string(),
        TargetEntry {
            python_lockfile: None,
            node_lockfile: None,
            artifacts: vec![UrlEntry {
                url: "https://nodejs.org/dist/v1.0.0/node.tar.gz".to_string(),
                sha256: None,
                filename: None,
                artifact_type: None,
            }],
            compiled: None,
        },
    );
    let lock = CapsuleLock {
        allowlist: Some(vec!["example.com".to_string()]),
        tools: None,
        runtimes: None,
        targets,
    };
    let urls = lock.collect_urls();
    assert!(urls.iter().any(|u| u.contains("nodejs.org")));
}

#[test]
fn used_bytes_add_up_file_sizes() {
    let m = manager();
    assert_eq!(m.get_used_bytes("c", false, Ok(vec![5])).unwrap(), 0);
    assert_eq!(m.get_used_bytes("c", true, Ok(vec![5, 7, 0])).unwrap(), 12);
    let e = m.get_used_bytes("c", true, Err(StorageError::CommandFailed("x".to_string())));
    assert!(matches!(e, Err(StorageError::CommandFailed(_))));
    assert!(m.storage_exists("c", true).unwrap());
    assert!(!m.storage_exists("c", false).unwrap());
    assert_eq!(total_size(&vec![]), 0);
}

#[test]
fn layer_cache_size() {
    let c = LayerCache::new("/cache".to_string());
    assert_eq!(c.cache_size(false, Ok(vec![1])).unwrap(), 0);
    assert_eq!(c.cache_size(true, Ok(vec![1, 2, 3])).unwrap(), 6);
    let e = c.cache_size(true, Err(CacheError::NotFound("l".to_string())));
    assert!(matches!(e, Err(CacheError::NotFound(_))));
}

#[test]
fn supervisor_mode_run_option_defaults() {
    let o = SupervisorModeRunOptions::default();
    assert_eq!(o.readiness_timeout, 30_000);
    assert_eq!(o.readiness_interval, 200);
    assert_eq!(o.shutdown_grace, 2_000);
    assert_eq!(o.kill_wait, 250);
}

#[test]
fn runtime_cache_check_follows_directory() {
    let f = RuntimeFetcher::with_cache_dir("/c".to_string());
    assert_eq!(f.get_runtime_path("node", "20.1.0"), "/c/node-20.1.0");
    let on_disk = vec!["/c/node-20.1.0".to_string(), "/c/python-3.12".to_string()];
    assert!(f.is_cached("node", "20.1.0", &on_disk));
    assert!(f.is_cached("python", "3.12", &on_disk));
    assert!(!f.is_cached("node", "18.0.0", &on_disk));
    assert!(!f.is_cached("deno", "1.40", &Vec::new()));
}

use nacelle::process::{ProcessState, ProcessTable, ShutdownStep};

#[test]
fn process_table_start_stop_register() {
    let mut t = ProcessTable::new();
    assert!(t.check_start("web").is_ok());
    t.record_start("web".to_string(), 100);
    assert_eq!(t.check_start("web").unwrap_err(), "Process 'web' already exists");
    assert_eq!(t.register("job".to_string(), 7), None);
    assert_eq!(t.register("job".to_string(), 8), Some(7));
    assert_eq!(t.len(), 2);
    let st = t.status();
    assert_eq!(st.len(), 2);
    assert!(st.iter().all(|s| s.state == ProcessState::Running));
    assert_eq!(t.shutdown_step(0), ShutdownStep::Poll);
    assert_eq!(t.shutdown_step(5_000), ShutdownStep::ForceKill);
    assert_eq!(t.take_for_stop("web").unwrap(), 100);
    assert_eq!(t.take_for_stop("web").unwrap_err(), "Process 'web' not found");
    assert_eq!(t.unregister("job"), Some(8));
    assert_eq!(t.unregister("job"), None);
    assert_eq!(t.shutdown_step(0), ShutdownStep::Done);
    assert!(t.names().is_empty());
}

#[test]
fn lru_eviction_order_is_stable() {
    let order = LayerCache::eviction_order(&vec![30, 10, 20, 10]);
    assert_eq!(order, vec![1, 3, 2, 0]);
    assert_eq!(LayerCache::bytes_to_free(100, 40), 60);
    assert_eq!(LayerCache::bytes_to_free(10, 40), 0);
    assert!(LayerCache::eviction_order(&vec![]).is_empty());
}
