//! The image manager: where an image's root filesystem lives.

use vstd::prelude::*;
use crate::oci_cache::LayerCache;
use crate::oci_layer::LayerExtractor;
use crate::storage::{join_path, path_join};
use crate::text::{byte_prefix, cuttable, replace_all, replace_str, take_bytes};

verus! {

/// A pulled image.
#[derive(Debug)]
pub struct PulledImage {
    pub image_ref: String,
    pub rootfs_path: String,
    pub digest: String,
    pub layer_count: usize,
    pub total_size: u64,
}

/// Size of the layer cache.
#[derive(Debug)]
pub struct CacheStats {
    pub total_size_bytes: u64,
}

/// Pulls images and prepares their root filesystems.
#[derive(Debug)]
pub struct ImageManager {
    pub cache: LayerCache,
    pub extractor: LayerExtractor,
    pub rootfs_dir: String,
}

/// Root filesystem directory name of an image: `rootfs_` and the first 12
/// bytes of its digest without `sha256:`.
pub open spec fn rootfs_name(digest: Seq<char>) -> Seq<char> {
    "rootfs_"@ + byte_prefix(replace_all(digest, "sha256:"@, Seq::empty()), 12)
}

pub open spec fn rootfs_name_ok(digest: Seq<char>) -> bool {
    cuttable(replace_all(digest, "sha256:"@, Seq::empty()), 12)
}

impl ImageManager {
    pub fn new(cache_dir: String, rootfs_dir: String) -> (m: Self)
        ensures
            m.cache.cache_dir@ == cache_dir@,
            m.cache.max_size_bytes == 50 * 1024 * 1024 * 1024,
            m.extractor.cache_dir@ == cache_dir@,
            m.rootfs_dir == rootfs_dir,
    {
        let c2 = cache_dir.clone();
        ImageManager {
            cache: LayerCache::new(cache_dir),
            extractor: LayerExtractor::new(c2),
            rootfs_dir,
        }
    }

    pub fn generate_rootfs_name(&self, digest: &str) -> (r: String)
        requires
            rootfs_name_ok(digest@),
        ensures
            r@ == rootfs_name(digest@),
    {
        proof {
            reveal_strlit("sha256:");
            reveal_strlit("");
            assert(""@ =~= Seq::<char>::empty());
        }
        let clean = replace_str(digest, "sha256:", "");
        let p = take_bytes(clean.as_str(), 12);
        let mut r = String::from_str("rootfs_");
        r.append(p.as_str());
        r
    }

    /// Where the root filesystem of an image with this digest lives.
    pub fn rootfs_path(&self, digest: &str) -> (r: String)
        requires
            rootfs_name_ok(digest@),
        ensures
            r@ == path_join(self.rootfs_dir@, rootfs_name(digest@)),
    {
        let name = self.generate_rootfs_name(digest);
        join_path(self.rootfs_dir.as_str(), name.as_str())
    }

    /// Whether an image's root filesystem is prepared; without its manifest
    /// the digest is unknown, so the answer is no.
    pub fn is_image_prepared(&self, _image: &str) -> (b: bool)
        ensures
            !b,
    {
        false
    }

    /// The root filesystem of an image, given whether its directory exists.
    pub fn get_rootfs(&self, digest: &str, exists: bool) -> (r: Option<String>)
        requires
            rootfs_name_ok(digest@),
        ensures
            exists ==> (r matches Some(p) && p@ == path_join(self.rootfs_dir@, rootfs_name(digest@))),
            !exists ==> r is None,
    {
        if exists {
            Some(self.rootfs_path(digest))
        } else {
            None
        }
    }
}

} // verus!
