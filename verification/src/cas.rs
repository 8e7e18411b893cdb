//! Content-addressable storage: digests, blob locations and blob checks.

use vstd::prelude::*;
use crate::digest::{to_hex_lower, hex_lower, sha256_digest, sha256_of};
use crate::storage::{join_path, path_join};
use crate::text::{opt_view, chars_of, find_first, find_from, str_eq, string_of_range, lemma_find_first_bounds};

verus! {

/// Errors of CAS operations.
#[derive(Debug)]
pub enum CasError {
    NotFound { digest: String },
    HashMismatch { expected: String, actual: String },
    Io(std::io::Error),
    Http(String),
    InvalidDigest(String),
}

pub type CasResult<T> = Result<T, CasError>;

/// A digest `algorithm:hash`, split at its first colon.
pub open spec fn digest_parts(d: Seq<char>) -> Option<(Seq<char>, Seq<char>)> {
    match find_first(d, seq![':']) {
        Some(i) => Some((d.take(i), d.skip(i + 1))),
        None => None,
    }
}

pub open spec fn invalid_digest_message(d: Seq<char>) -> Seq<char> {
    "Expected format 'algorithm:hash', got '"@ + d + "'"@
}

/// Split a digest `algorithm:hash` at its first colon.
pub fn parse_digest(digest: &str) -> (r: CasResult<(String, String)>)
    ensures
        match digest_parts(digest@) {
            Some((a, h)) => r matches Ok((x, y)) && x@ == a && y@ == h,
            None => r matches Err(CasError::InvalidDigest(m)) && m@ == invalid_digest_message(
                digest@,
            ),
        },
{
    let v = chars_of(digest);
    let n = v.len();
    let colon = vec![':'];
    assert(colon@ =~= seq![':']);
    assert(v@.skip(0) =~= v@);
    match find_from(&v, &colon, 0) {
        Some(i) => {
            proof {
                lemma_find_first_bounds(v@, seq![':']);
                assert(find_first(v@, seq![':']) == Some(i as int));
            }
            let a = string_of_range(&v, 0, i);
            let h = string_of_range(&v, i + 1, n);
            assert(a@ =~= v@.take(i as int));
            assert(h@ =~= v@.skip(i + 1));
            Ok((a, h))
        },
        None => {
            let mut m = String::from_str("Expected format 'algorithm:hash', got '");
            m.append(digest);
            m.append("'");
            Err(CasError::InvalidDigest(m))
        },
    }
}

/// CAS on the local filesystem: blobs live in `<root>/blobs/<algorithm>-<hash>`.
#[derive(Debug)]
pub struct LocalCasClient {
    pub root: String,
    pub blobs_dir: String,
}

impl LocalCasClient {
    /// A client rooted at `root`; creating the blobs directory is left to the
    /// caller.
    pub fn new(root: &str) -> (c: Self)
        ensures
            c.root@ == root@,
            c.blobs_dir@ == path_join(root@, "blobs"@),
    {
        LocalCasClient { root: root.to_owned(), blobs_dir: join_path(root, "blobs") }
    }

    /// Where a blob is stored.
    pub fn blob_path(&self, algorithm: &str, hash: &str) -> (r: String)
        ensures
            r@ == path_join(self.blobs_dir@, algorithm@ + "-"@ + hash@),
    {
        let mut name = algorithm.to_owned();
        name.append("-");
        name.append(hash);
        join_path(self.blobs_dir.as_str(), name.as_str())
    }

    /// Where the blob of a digest is stored.
    pub fn blob_location(&self, digest: &str) -> (r: CasResult<String>)
        ensures
            match digest_parts(digest@) {
                Some((a, h)) => r matches Ok(p) && p@ == path_join(self.blobs_dir@, a + "-"@ + h),
                None => r matches Err(CasError::InvalidDigest(m)) && m@ == invalid_digest_message(
                    digest@,
                ),
            },
    {
        match parse_digest(digest) {
            Ok((a, h)) => Ok(self.blob_path(a.as_str(), h.as_str())),
            Err(e) => Err(e),
        }
    }

    /// Check a blob's content against the hash it is stored under: only
    /// SHA-256 is supported, and the hex digest must match.
    pub fn verify_digest(&self, data: &[u8], algorithm: &str, expected_hash: &str) -> (r: CasResult<()>)
        ensures
            algorithm@ != "sha256"@ ==> (r matches Err(CasError::InvalidDigest(m)) && m@
                == "Unsupported algorithm: "@ + algorithm@),
            algorithm@ == "sha256"@ && hex_lower(sha256_of(data@)) == expected_hash@ ==> r is Ok,
            algorithm@ == "sha256"@ && hex_lower(sha256_of(data@)) != expected_hash@ ==> (r matches Err(
                CasError::HashMismatch { expected, actual },
            ) && expected@ == expected_hash@ && actual@ == hex_lower(sha256_of(data@))),
    {
        if !str_eq(algorithm, "sha256") {
            let mut m = String::from_str("Unsupported algorithm: ");
            m.append(algorithm);
            return Err(CasError::InvalidDigest(m));
        }
        let d = sha256_digest(data);
        let actual = to_hex_lower(d.as_slice());
        if !str_eq(actual.as_str(), expected_hash) {
            return Err(CasError::HashMismatch { expected: expected_hash.to_owned(), actual });
        }
        Ok(())
    }

    /// The digest a blob is stored under: `sha256:` and its hex digest.
    pub fn digest_of(&self, data: &[u8]) -> (r: String)
        ensures
            r@ == "sha256:"@ + hex_lower(sha256_of(data@)),
    {
        let d = sha256_digest(data);
        let h = to_hex_lower(d.as_slice());
        let mut r = String::from_str("sha256:");
        r.append(h.as_str());
        r
    }
}

// ---------------------------------------------------------------------------
// Choosing the client

/// Which CAS client to use, and where.
#[derive(Debug)]
pub enum CasConfig {
    /// Remote CAS over HTTP, with a local cache.
    Http { endpoint: String, cache_dir: String },
    /// CAS in a local directory.
    Local { root: String },
}

/// A directory under `.capsuled` in the home directory (`/tmp` without one).
pub open spec fn capsuled_dir(home: Option<Seq<char>>, name: Seq<char>) -> Seq<char> {
    path_join(
        path_join(
            match home {
                Some(h) => h,
                None => "/tmp"@,
            },
            ".capsuled"@,
        ),
        name,
    )
}

/// A set variable, else a default.
pub open spec fn var_or(v: Option<Seq<char>>, default: Seq<char>) -> Seq<char> {
    match v {
        Some(x) => x,
        None => default,
    }
}

/// The client that the environment asks for: `ATO_CAS_TYPE` `http` gives
/// the HTTP client (`ATO_CAS_ENDPOINT`, else `https://cas.ato.cloud`; cache
/// `ATO_CAS_CACHE`, else `~/.capsuled/cas-cache`); any other type, or none,
/// gives the local one (`ATO_CAS_ROOT`, else `~/.capsuled/cas`).
pub open spec fn cas_config_spec(
    cas_type: Option<Seq<char>>,
    endpoint: Option<Seq<char>>,
    cache: Option<Seq<char>>,
    root: Option<Seq<char>>,
    home: Option<Seq<char>>,
    c: CasConfig,
) -> bool {
    if cas_type == Some("http"@) {
        c matches CasConfig::Http { endpoint: e, cache_dir: d } && e@ == var_or(endpoint, "https://cas.ato.cloud"@)
            && d@ == var_or(cache, capsuled_dir(home, "cas-cache"@))
    } else {
        c matches CasConfig::Local { root: r } && r@ == var_or(root, capsuled_dir(home, "cas"@))
    }
}

fn opt_or(v: &Option<String>, default: String) -> (r: String)
    ensures
        r@ == var_or(opt_view(*v), default@),
{
    match v {
        Some(x) => x.clone(),
        None => default,
    }
}

/// The directory `name` under `.capsuled` in `home` (`/tmp` without one).
fn capsuled_path(home: &Option<String>, name: &str) -> (r: String)
    ensures
        r@ == capsuled_dir(opt_view(*home), name@),
{
    let base = match home {
        Some(h) => h.clone(),
        None => "/tmp".to_owned(),
    };
    let c = join_path(base.as_str(), ".capsuled");
    join_path(c.as_str(), name)
}

/// The CAS client configuration, from the values of `ATO_CAS_TYPE`,
/// `ATO_CAS_ENDPOINT`, `ATO_CAS_CACHE`, `ATO_CAS_ROOT` and the home
/// directory (`None` where unset).
pub fn cas_config_from_env(
    cas_type: &Option<String>,
    endpoint: &Option<String>,
    cache: &Option<String>,
    root: &Option<String>,
    home: &Option<String>,
) -> (c: CasConfig)
    ensures
        cas_config_spec(
            opt_view(*cas_type),
            opt_view(*endpoint),
            opt_view(*cache),
            opt_view(*root),
            opt_view(*home),
            c,
        ),
{
    let is_http = match cas_type {
        Some(t) => str_eq(t.as_str(), "http"),
        None => false,
    };
    if is_http {
        let e = opt_or(endpoint, "https://cas.ato.cloud".to_owned());
        let d = opt_or(cache, capsuled_path(home, "cas-cache"));
        CasConfig::Http { endpoint: e, cache_dir: d }
    } else {
        let r = opt_or(root, capsuled_path(home, "cas"));
        CasConfig::Local { root: r }
    }
}

} // verus!
