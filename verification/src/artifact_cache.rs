//! The local cache of runtime artifacts, laid out by name, version and
//! platform.

use vstd::prelude::*;
use crate::storage::{join_path, path_join};

verus! {

#[derive(Debug)]
pub struct CachedRuntime {
    pub name: String,
    pub version: String,
    pub platform: String,
    pub path: String,
    /// Last use, in seconds since the Unix epoch.
    pub last_used_secs: u64,
    pub size_bytes: u64,
}

#[derive(Debug)]
pub struct ArtifactCache {
    pub base_path: String,
}

impl ArtifactCache {
    pub fn new(base_path: String) -> (c: Self)
        ensures
            c.base_path == base_path,
    {
        ArtifactCache { base_path }
    }

    /// `<base>/<name>/<version>/<platform>`.
    pub fn get_runtime_path(&self, name: &str, version: &str, platform: &str) -> (r: String)
        ensures
            r@ == path_join(path_join(path_join(self.base_path@, name@), version@), platform@),
    {
        let a = join_path(self.base_path.as_str(), name);
        let b = join_path(a.as_str(), version);
        join_path(b.as_str(), platform)
    }

    /// The marker file that records a runtime's binary.
    pub fn binary_marker_path(&self, name: &str, version: &str, platform: &str) -> (r: String)
        ensures
            r@ == path_join(
                path_join(path_join(path_join(self.base_path@, name@), version@), platform@),
                ".binary_path"@,
            ),
    {
        let p = self.get_runtime_path(name, version, platform);
        join_path(p.as_str(), ".binary_path")
    }
}

} // verus!
