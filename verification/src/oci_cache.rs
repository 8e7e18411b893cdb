//! The content-addressed cache of image layers: where a layer lives, which
//! file holds it, and the check of its digest.

use vstd::prelude::*;
use crate::digest::{sha256_reference, sha256_reference_of};
use crate::storage::{join_path, path_join, sum_sizes, total_size};
use crate::text::{byte_prefix, cuttable, replace_all, replace_str, str_eq, take_bytes};

verus! {

/// Errors of the layer cache.
#[derive(Debug)]
pub enum CacheError {
    Io(std::io::Error),
    DigestMismatch { expected: String, actual: String },
    NotFound(String),
}

pub type CacheResult<T> = Result<T, CacheError>;

/// Content-addressed layer cache rooted at a directory.
#[derive(Debug)]
pub struct LayerCache {
    pub cache_dir: String,
    pub max_size_bytes: u64,
}

/// The digest without its `sha256:` markers.
pub open spec fn clean_digest(digest: Seq<char>) -> Seq<char> {
    replace_all(digest, "sha256:"@, Seq::empty())
}

/// The digest's directory: `<cache>/layers/sha256/<first two bytes>/<digest>`.
pub open spec fn layer_dir(cache_dir: Seq<char>, digest: Seq<char>) -> Seq<char> {
    let c = clean_digest(digest);
    path_join(path_join(path_join(path_join(cache_dir, "layers"@), "sha256"@), byte_prefix(c, 2)), c)
}

/// The digest can be cut after two bytes (it can, unless a character of more
/// than one byte straddles that point).
pub open spec fn prefix_cuttable(digest: Seq<char>) -> bool {
    cuttable(clean_digest(digest), 2)
}

impl LayerCache {
    /// A cache with the default size limit of 50 GiB.
    pub fn new(cache_dir: String) -> (c: Self)
        ensures
            c.cache_dir == cache_dir,
            c.max_size_bytes == 50 * 1024 * 1024 * 1024,
    {
        LayerCache { cache_dir, max_size_bytes: 50 * 1024 * 1024 * 1024 }
    }

    pub fn with_max_size(cache_dir: String, max_size_bytes: u64) -> (c: Self)
        ensures
            c.cache_dir == cache_dir,
            c.max_size_bytes == max_size_bytes,
    {
        LayerCache { cache_dir, max_size_bytes }
    }

    /// The directory of a cached layer.
    pub fn layer_path(&self, digest: &str) -> (r: String)
        requires
            prefix_cuttable(digest@),
        ensures
            r@ == layer_dir(self.cache_dir@, digest@),
    {
        proof {
            reveal_strlit("sha256:");
            reveal_strlit("");
            assert(""@ =~= Seq::<char>::empty());
        }
        let clean = replace_str(digest, "sha256:", "");
        let prefix = take_bytes(clean.as_str(), 2);
        let a = join_path(self.cache_dir.as_str(), "layers");
        let b = join_path(a.as_str(), "sha256");
        let c = join_path(b.as_str(), prefix.as_str());
        join_path(c.as_str(), clean.as_str())
    }

    /// The cached file of a layer, given which of its two possible files
    /// exist: the compressed one first, then the plain tar.
    pub fn get_layer(&self, digest: &str, gz_exists: bool, tar_exists: bool) -> (r: CacheResult<String>)
        requires
            prefix_cuttable(digest@),
        ensures
            gz_exists ==> (r matches Ok(p) && p@ == path_join(
                layer_dir(self.cache_dir@, digest@),
                "layer.tar.gz"@,
            )),
            !gz_exists && tar_exists ==> (r matches Ok(p) && p@ == path_join(
                layer_dir(self.cache_dir@, digest@),
                "layer.tar"@,
            )),
            !gz_exists && !tar_exists ==> (r matches Err(CacheError::NotFound(d)) && d@ == digest@),
    {
        let base = self.layer_path(digest);
        if gz_exists {
            return Ok(join_path(base.as_str(), "layer.tar.gz"));
        }
        if tar_exists {
            return Ok(join_path(base.as_str(), "layer.tar"));
        }
        Err(CacheError::NotFound(digest.to_owned()))
    }

    /// Whether a layer is cached, given which of its files exist.
    pub fn has_layer(&self, gz_exists: bool, tar_exists: bool) -> (b: bool)
        ensures
            b == (gz_exists || tar_exists),
    {
        gz_exists || tar_exists
    }

    /// The directory whose size is the size of the cache.
    pub fn layers_dir(&self) -> (r: String)
        ensures
            r@ == path_join(self.cache_dir@, "layers"@),
    {
        join_path(self.cache_dir.as_str(), "layers")
    }
}

/// Data starting with the gzip magic bytes.
pub open spec fn is_gzip(data: Seq<u8>) -> bool {
    data.len() >= 2 && data[0] == 0x1f && data[1] == 0x8b
}

/// Name of the file a layer is stored in.
pub open spec fn layer_file_name(data: Seq<u8>) -> Seq<char> {
    if is_gzip(data) {
        "layer.tar.gz"@
    } else {
        "layer.tar"@
    }
}

/// Check the data against its digest and name the file it goes into: a
/// mismatch is refused before anything is written.
pub fn check_layer(digest: &str, data: &[u8]) -> (r: CacheResult<&'static str>)
    ensures
        sha256_reference(data@) == digest@ ==> (r matches Ok(f) && f@ == layer_file_name(data@)),
        sha256_reference(data@) != digest@ ==> (r matches Err(CacheError::DigestMismatch {
            expected,
            actual,
        }) && expected@ == digest@ && actual@ == sha256_reference(data@)),
{
    let actual = sha256_reference_of(data);
    if !str_eq(actual.as_str(), digest) {
        return Err(CacheError::DigestMismatch { expected: digest.to_owned(), actual });
    }
    if data.len() >= 2 && data[0] == 0x1f && data[1] == 0x8b {
        Ok("layer.tar.gz")
    } else {
        Ok("layer.tar")
    }
}

impl LayerCache {
    /// Bytes the cached layers take: nothing where the layers directory
    /// (`layers_dir`) does not exist, else the total of the sizes of the
    /// files under it, or the error met while listing them.
    pub fn cache_size(&self, layers_dir_exists: bool, file_sizes: CacheResult<Vec<u64>>) -> (r: CacheResult<u64>)
        requires
            file_sizes matches Ok(v) ==> sum_sizes(v@) <= u64::MAX,
        ensures
            !layers_dir_exists ==> (r matches Ok(n) && n == 0),
            layers_dir_exists ==> match file_sizes {
                Ok(v) => r matches Ok(n) && n == sum_sizes(v@),
                Err(e) => r == Err::<u64, CacheError>(e),
            },
    {
        if !layers_dir_exists {
            return Ok(0);
        }
        match file_sizes {
            Ok(v) => Ok(total_size(&v)),
            Err(e) => Err(e),
        }
    }
}

/// Bytes to free to bring the cache down to `target_size`.
pub open spec fn excess(current_size: u64, target_size: u64) -> u64 {
    if current_size <= target_size {
        0
    } else {
        (current_size - target_size) as u64
    }
}

/// `order` lists each entry below `n` exactly once.
pub open spec fn is_permutation(order: Seq<usize>, n: nat) -> bool {
    &&& order.len() == n
    &&& forall|i: int| 0 <= i < order.len() ==> #[trigger] order[i] < n
    &&& forall|i: int, j: int| 0 <= i < j < order.len() ==> #[trigger] order[i] != #[trigger] order[j]
}

/// `order` puts entries from the least recently accessed on, and entries
/// accessed at the same time in their listed order.
pub open spec fn is_lru_order(order: Seq<usize>, accessed: Seq<i64>) -> bool {
    &&& forall|i: int| 0 <= i < order.len() ==> #[trigger] order[i] < accessed.len()
    &&& forall|i: int, j: int|
        0 <= i < j < order.len() ==> accessed[#[trigger] order[i] as int] <= accessed[#[trigger] order[j] as int]
    &&& forall|i: int, j: int|
        0 <= i < j < order.len() && accessed[order[i] as int] == accessed[order[j] as int] ==> #[trigger] order[i]
            < #[trigger] order[j]
}

impl LayerCache {
    /// Bytes an eviction must free: how far the cache is above the target.
    pub fn bytes_to_free(current_size: u64, target_size: u64) -> (r: u64)
        ensures
            r == excess(current_size, target_size),
    {
        if current_size <= target_size {
            0
        } else {
            current_size - target_size
        }
    }

    /// The order in which cached layers are evicted, given when each was
    /// last accessed: least recently accessed first, ties in listed order
    /// (a stable sort of the entries by access time).
    pub fn eviction_order(accessed: &Vec<i64>) -> (r: Vec<usize>)
        ensures
            is_permutation(r@, accessed@.len()),
            is_lru_order(r@, accessed@),
    {
        let mut order: Vec<usize> = Vec::new();
        let mut k: usize = 0;
        while k < accessed.len()
            invariant
                k <= accessed@.len(),
                order@.len() == k,
                forall|i: int| 0 <= i < order@.len() ==> #[trigger] order@[i] < k,
                forall|i: int, j: int| 0 <= i < j < order@.len() ==> #[trigger] order@[i] != #[trigger] order@[j],
                is_lru_order(order@, accessed@),
            decreases accessed@.len() - k,
        {
            let key = accessed[k];
            // the place of `k`: after every entry accessed no later
            let mut p: usize = 0;
            while p < order.len() && accessed[order[p]] <= key
                invariant
                    p <= order@.len(),
                    forall|i: int| 0 <= i < order@.len() ==> #[trigger] order@[i] < k,
                    k < accessed@.len(),
                    key == accessed@[k as int],
                    forall|i: int| 0 <= i < p ==> accessed@[#[trigger] order@[i] as int] <= key,
                decreases order@.len() - p,
            {
                p += 1;
            }
            let ghost before = order@;
            proof {
                // everything after `p` was accessed later than `k`
                assert forall|i: int| p <= i < before.len() implies accessed@[#[trigger] before[i] as int] > key by {
                    if i > p {
                        assert(accessed@[before[p as int] as int] <= accessed@[before[i] as int]);
                    }
                }
            }
            order.insert(p, k);
            let ghost after = order@;
            assert(after =~= before.insert(p as int, k));
            proof {
                assert forall|i: int| 0 <= i < after.len() implies #[trigger] after[i] < k + 1 by {
                    if i < p {
                    } else if i > p {
                        assert(after[i] == before[i - 1]);
                    }
                }
                assert forall|i: int, j: int| 0 <= i < j < after.len() implies #[trigger] after[i] != #[trigger] after[j] by {
                    if j < p {
                    } else if j == p {
                        assert(after[i] == before[i]);
                    } else if i == p {
                        assert(after[j] == before[j - 1]);
                    } else if i < p {
                        assert(after[j] == before[j - 1]);
                    } else {
                        assert(after[i] == before[i - 1]);
                        assert(after[j] == before[j - 1]);
                    }
                }
                assert forall|i: int| 0 <= i < after.len() implies #[trigger] after[i] < accessed@.len() by {
                    if i < p {
                    } else if i > p {
                        assert(after[i] == before[i - 1]);
                    }
                }
                assert forall|i: int, j: int|
                    0 <= i < j < after.len() implies accessed@[#[trigger] after[i] as int] <= accessed@[#[trigger] after[j] as int] by {
                    if j < p {
                    } else if j == p {
                        assert(after[i] == before[i]);
                    } else if i == p {
                        assert(after[j] == before[j - 1]);
                    } else if i < p {
                        assert(after[j] == before[j - 1]);
                        assert(accessed@[before[i] as int] <= key);
                    } else {
                        assert(after[i] == before[i - 1]);
                        assert(after[j] == before[j - 1]);
                    }
                }
                assert forall|i: int, j: int|
                    0 <= i < j < after.len() && accessed@[after[i] as int] == accessed@[after[j] as int] implies #[trigger] after[i]
                        < #[trigger] after[j] by {
                    if j < p {
                    } else if j == p {
                        assert(after[i] == before[i]);
                    } else if i == p {
                        assert(after[j] == before[j - 1]);
                    } else if i < p {
                        assert(after[j] == before[j - 1]);
                        assert(accessed@[before[i] as int] <= key);
                    } else {
                        assert(after[i] == before[i - 1]);
                        assert(after[j] == before[j - 1]);
                    }
                }
            }
            k += 1;
        }
        order
    }
}

} // verus!
