use nacelle::hydrate::{
    artifact_relative_path, bun_install_args, node_installer, node_lockfile_name, pnpm_commands,
    staged_artifacts, uv_pip_sync_args, uv_sync_args, uv_venv_args, venv_python_parts, yarn_install_args,
    NodeInstaller,
};
use nacelle::lockfile::{check_lockfile_allowlist, CapsuleLock, TargetEntry, UrlEntry};
use nacelle::sandbox::{alcless_args_with, sandboxie_args, SourceTarget};
use nacelle::strmap::StrMap;

fn entry(url: &str, filename: Option<&str>, kind: Option<&str>) -> UrlEntry {
    UrlEntry {
        url: url.to_string(),
        sha256: None,
        filename: filename.map(|s| s.to_string()),
        artifact_type: kind.map(|s| s.to_string()),
    }
}

fn lock_with(urls: &[&str], allowlist: Option<Vec<&str>>) -> CapsuleLock {
    let mut targets = StrMap::new();
    targets.insert(
        "linux-x86_64".to_string(),
        TargetEntry {
            python_lockfile: None,
            node_lockfile: None,
            artifacts: urls.iter().map(|u| entry(u, None, None)).collect(),
            compiled: None,
        },
    );
    CapsuleLock {
        allowlist: allowlist.map(|a| a.into_iter().map(|s| s.to_string()).collect()),
        tools: None,
        runtimes: None,
        targets,
    }
}

#[test]
fn allowlist_refuses_host_outside_it() {
    let lock = lock_with(&["https://nodejs.org/dist/v1.0.0/node.tar.gz"], Some(vec!["example.com"]));
    assert_eq!(
        check_lockfile_allowlist(&lock).unwrap_err(),
        "URL not in allowlist: https://nodejs.org/dist/v1.0.0/node.tar.gz"
    );
}

#[test]
fn allowlist_accepts_listed_hosts() {
    let lock = lock_with(
        &["https://nodejs.org/dist/a.tgz", "https://example.com/b.zip"],
        Some(vec!["example.com", "nodejs.org"]),
    );
    assert!(check_lockfile_allowlist(&lock).is_ok());
}

#[test]
fn allowlist_empty_or_absent_allows_everything() {
    assert!(check_lockfile_allowlist(&lock_with(&["not a url"], None)).is_ok());
    assert!(check_lockfile_allowlist(&lock_with(&["not a url"], Some(vec![]))).is_ok());
}

#[test]
fn allowlist_reports_unparsable_and_hostless_urls() {
    let bad = check_lockfile_allowlist(&lock_with(&["not a url"], Some(vec!["example.com"]))).unwrap_err();
    assert!(bad.starts_with("Invalid URL in capsule.lock (not a url): "));
    let hostless = check_lockfile_allowlist(&lock_with(&["data:text/plain,hi"], Some(vec!["example.com"])));
    assert_eq!(hostless.unwrap_err(), "URL missing host in capsule.lock: data:text/plain,hi");
}

#[test]
fn artifact_path_prefers_filename_then_url_segment() {
    assert_eq!(
        artifact_relative_path(&entry("https://x.org/a/b.tgz", Some("uv-cache"), None)).unwrap(),
        "uv-cache"
    );
    assert_eq!(artifact_relative_path(&entry("https://x.org/a/b.tgz", Some(""), None)).unwrap(), "b.tgz");
    assert_eq!(
        artifact_relative_path(&entry("https://x.org/a/", None, None)).unwrap_err(),
        "Artifact URL missing filename: https://x.org/a/"
    );
    assert_eq!(
        artifact_relative_path(&entry("mailto:someone@x.org", None, None)).unwrap_err(),
        "Artifact URL missing filename: mailto:someone@x.org"
    );
    assert!(artifact_relative_path(&entry("::", None, None))
        .unwrap_err()
        .starts_with("Invalid artifact URL ::: "));
}

#[test]
fn staged_caches_take_the_first_of_each_kind() {
    let entries = vec![
        entry("https://x.org/one.tgz", None, Some("pnpm-store")),
        entry("https://x.org/two.tgz", Some("uv-cache"), None),
        entry("https://x.org/three.tgz", None, None),
        entry("https://x.org/four.tgz", None, Some("pnpm-store")),
    ];
    let rels = vec![
        "one.tgz".to_string(),
        "uv-cache".to_string(),
        "bun-cache".to_string(),
        "four.tgz".to_string(),
    ];
    let staged = staged_artifacts(&entries, &rels);
    assert_eq!(staged.python_cache_dir.as_deref(), Some("uv-cache"));
    assert_eq!(staged.pnpm_store_dir.as_deref(), Some("one.tgz"));
    assert_eq!(staged.yarn_cache_dir, None);
    assert_eq!(staged.bun_cache_dir.as_deref(), Some("bun-cache"));
}

#[test]
fn node_lockfile_picks_the_installer() {
    assert_eq!(node_lockfile_name("locks/yarn.lock"), "yarn.lock");
    assert_eq!(node_lockfile_name("bun.lockb"), "bun.lockb");
    assert_eq!(node_lockfile_name("locks/.."), "pnpm-lock.yaml");
    assert_eq!(node_lockfile_name("/"), "pnpm-lock.yaml");
    assert_eq!(node_installer("yarn.lock"), NodeInstaller::Yarn);
    assert_eq!(node_installer("bun.lock"), NodeInstaller::Bun);
    assert_eq!(node_installer("bun.lockb"), NodeInstaller::Bun);
    assert_eq!(node_installer("pnpm-lock.yaml"), NodeInstaller::Pnpm);
    assert_eq!(node_installer("package-lock.json"), NodeInstaller::Pnpm);
}

#[test]
fn node_install_command_lines() {
    assert_eq!(yarn_install_args(&None), vec!["install", "--frozen-lockfile"]);
    assert_eq!(
        yarn_install_args(&Some("/c/yarn".to_string())),
        vec!["install", "--frozen-lockfile", "--cache-folder", "/c/yarn"]
    );
    assert_eq!(bun_install_args(), vec!["install", "--frozen-lockfile"]);
    let (store, fetch, install) = pnpm_commands(&None, "/c/pnpm-store");
    assert_eq!(store, "/c/pnpm-store");
    assert_eq!(fetch.unwrap(), vec!["fetch", "--store-dir", "/c/pnpm-store"]);
    assert_eq!(
        install,
        vec!["install", "--ignore-scripts", "--frozen-lockfile", "--force", "--store-dir", "/c/pnpm-store"]
    );
    let (store, fetch, install) = pnpm_commands(&Some("/c/staged".to_string()), "/c/pnpm-store");
    assert_eq!(store, "/c/staged");
    assert!(fetch.is_none());
    assert_eq!(install.last().unwrap(), "--offline");
}

#[test]
fn python_install_command_lines() {
    assert_eq!(uv_sync_args(false), vec!["sync", "--frozen", "--no-install-project"]);
    assert_eq!(uv_sync_args(true), vec!["sync", "--frozen", "--no-install-project", "--offline"]);
    assert_eq!(
        uv_venv_args(true, &Some("/py/bin/python3".to_string()), "/src/.venv"),
        vec!["--offline", "venv", "--allow-existing", "--python", "/py/bin/python3", "/src/.venv"]
    );
    assert_eq!(uv_venv_args(false, &None, ".venv"), vec!["venv", "--allow-existing", ".venv"]);
    assert_eq!(
        uv_pip_sync_args(false, "uv.lock", ".venv/bin/python"),
        vec!["pip", "sync", "uv.lock", "--python", ".venv/bin/python"]
    );
    assert_eq!(venv_python_parts(true), ("Scripts".to_string(), "python.exe".to_string()));
    assert_eq!(venv_python_parts(false), ("bin".to_string(), "python".to_string()));
}

fn target(language: &str, cmd: Option<Vec<&str>>) -> SourceTarget {
    SourceTarget {
        language: language.to_string(),
        version: None,
        entrypoint: "main.py".to_string(),
        dependencies: None,
        args: vec!["--port".to_string(), "80".to_string()],
        source_dir: "/src".to_string(),
        cmd: cmd.map(|c| c.into_iter().map(|s| s.to_string()).collect()),
        dev_mode: false,
    }
}

#[test]
fn alcless_command_lines() {
    assert_eq!(
        alcless_args_with(false, &target("Python", None), "/tc/python3", None),
        vec!["--plain", "/tc/python3", "-B", "main.py", "--port", "80"]
    );
    assert_eq!(
        alcless_args_with(true, &target("python", Some(vec!["python3", "app.py"])), "/tc/python3", None),
        vec!["/tc/python3", "-B", "app.py", "--port", "80"]
    );
    assert_eq!(
        alcless_args_with(
            true,
            &target("node", Some(vec!["npx", "serve"])),
            "/tc/node",
            Some("/usr/bin/npx".to_string())
        ),
        vec!["/usr/bin/npx", "serve", "--port", "80"]
    );
}

#[test]
fn sandboxie_command_lines() {
    assert_eq!(
        sandboxie_args("0123456789abcdef", &target("deno", None), "C:\\deno.exe"),
        vec![
            "/box:Capsuled_01234567",
            "/silent",
            "C:\\deno.exe",
            "run",
            "--allow-read",
            "main.py",
            "--port",
            "80"
        ]
    );
    assert_eq!(sandboxie_args("abc", &target("ruby", None), "ruby.exe")[0], "/box:Capsuled_abc");
}
