//! Image references and the registry's manifest and blob addresses; the
//! manifest documents a registry returns.

use vstd::prelude::*;
use crate::digest::{sha256_reference, sha256_reference_of};
use crate::text::{
    chars_of, contains_seq, find_first, find_from, lemma_find_first_bounds, str_eq, string_of_range,
};

verus! {

/// Errors of registry access.
#[derive(Debug)]
pub enum RegistryError {
    AuthFailed(String),
    ManifestNotFound(String),
    BlobNotFound(String),
    DigestMismatch { expected: String, actual: String },
    Parse(String),
}

pub type RegistryResult<T> = Result<T, RegistryError>;

/// An image reference such as `docker.io/library/nginx:latest`.
#[derive(Debug)]
pub struct ImageRef {
    pub registry: String,
    pub repository: String,
    pub tag: String,
}

/// `s` split at its first `c`: what comes before, and what comes after if
/// `c` occurs.
pub open spec fn split_once(s: Seq<char>, c: char) -> (Seq<char>, Option<Seq<char>>) {
    match find_first(s, seq![c]) {
        Some(i) => (s.take(i), Some(s.skip(i + 1))),
        None => (s, None),
    }
}

pub open spec fn docker_hub() -> Seq<char> {
    "registry-1.docker.io"@
}

/// Registry and `repository[:tag]` of a reference: without a `/` the image
/// is an official Docker Hub image; a first part with a `.` or `:` names a
/// registry; otherwise the whole reference is a Docker Hub repository.
pub open spec fn registry_and_rest(image: Seq<char>) -> (Seq<char>, Seq<char>) {
    let (first, rest) = split_once(image, '/');
    match rest {
        None => (docker_hub(), "library/"@ + first),
        Some(r) => if contains_seq(first, seq!['.']) || contains_seq(first, seq![':']) {
            (first, r)
        } else {
            (docker_hub(), image)
        },
    }
}

pub open spec fn image_ref_of(image: Seq<char>) -> (Seq<char>, Seq<char>, Seq<char>) {
    let (registry, repo_tag) = registry_and_rest(image);
    let (repository, tag) = split_once(repo_tag, ':');
    (
        registry,
        repository,
        match tag {
            Some(t) => t,
            None => "latest"@,
        },
    )
}

/// Split at the first `c`.
fn split_once_exec(s: &str, c: char) -> (r: (String, Option<String>))
    ensures
        r.0@ == split_once(s@, c).0,
        match (r.1, split_once(s@, c).1) {
            (Some(a), Some(b)) => a@ == b,
            (None, None) => true,
            _ => false,
        },
{
    let v = chars_of(s);
    let n = v.len();
    let sep = vec![c];
    assert(sep@ =~= seq![c]);
    assert(v@.skip(0) =~= v@);
    match find_from(&v, &sep, 0) {
        Some(i) => {
            proof {
                lemma_find_first_bounds(v@, seq![c]);
                assert(find_first(v@, seq![c]) == Some(i as int));
            }
            let a = string_of_range(&v, 0, i);
            let b = string_of_range(&v, i + 1, n);
            assert(a@ =~= v@.take(i as int));
            assert(b@ =~= v@.skip(i + 1));
            (a, Some(b))
        },
        None => (s.to_owned(), None),
    }
}

fn has_char(s: &str, c: char) -> (b: bool)
    ensures
        b == contains_seq(s@, seq![c]),
{
    let v = chars_of(s);
    let sep = vec![c];
    assert(sep@ =~= seq![c]);
    assert(v@.skip(0) =~= v@);
    find_from(&v, &sep, 0).is_some()
}

impl ImageRef {
    /// Parse an image reference; the tag defaults to `latest`.
    pub fn parse(image: &str) -> (r: RegistryResult<ImageRef>)
        ensures
            r matches Ok(x) && x.registry@ == image_ref_of(image@).0 && x.repository@
                == image_ref_of(image@).1 && x.tag@ == image_ref_of(image@).2,
    {
        let (first, rest) = split_once_exec(image, '/');
        let (registry, repo_tag) = match rest {
            None => {
                let mut rt = String::from_str("library/");
                rt.append(first.as_str());
                ("registry-1.docker.io".to_owned(), rt)
            },
            Some(r) => {
                if has_char(first.as_str(), '.') || has_char(first.as_str(), ':') {
                    (first, r)
                } else {
                    ("registry-1.docker.io".to_owned(), image.to_owned())
                }
            },
        };
        let (repository, tag) = split_once_exec(repo_tag.as_str(), ':');
        let tag = match tag {
            Some(t) => t,
            None => "latest".to_owned(),
        };
        Ok(ImageRef { registry, repository, tag })
    }

    /// `https://<registry>/v2/<repository>/manifests/<tag>`.
    pub fn manifest_url(&self) -> (r: String)
        ensures
            r@ == "https://"@ + self.registry@ + "/v2/"@ + self.repository@ + "/manifests/"@
                + self.tag@,
    {
        let mut s = String::from_str("https://");
        s.append(self.registry.as_str());
        s.append("/v2/");
        s.append(self.repository.as_str());
        s.append("/manifests/");
        s.append(self.tag.as_str());
        s
    }

    /// `https://<registry>/v2/<repository>/blobs/<digest>`.
    pub fn blob_url(&self, digest: &str) -> (r: String)
        ensures
            r@ == "https://"@ + self.registry@ + "/v2/"@ + self.repository@ + "/blobs/"@ + digest@,
    {
        let mut s = String::from_str("https://");
        s.append(self.registry.as_str());
        s.append("/v2/");
        s.append(self.repository.as_str());
        s.append("/blobs/");
        s.append(digest);
        s
    }
}

/// An image manifest.
#[derive(Debug)]
pub struct ImageManifest {
    pub schema_version: i32,
    pub media_type: String,
    pub config: ManifestConfig,
    pub layers: Vec<ManifestLayer>,
}

/// A manifest list of a multi-platform image.
#[derive(Debug)]
pub struct ManifestList {
    pub schema_version: i32,
    pub media_type: String,
    pub manifests: Vec<ManifestPlatform>,
}

#[derive(Debug)]
pub struct ManifestPlatform {
    pub media_type: String,
    pub size: u64,
    pub digest: String,
    pub platform: Platform,
}

#[derive(Debug)]
pub struct Platform {
    pub architecture: String,
    pub os: String,
    pub variant: Option<String>,
}

#[derive(Debug)]
pub struct ManifestConfig {
    pub media_type: String,
    pub size: u64,
    pub digest: String,
}

#[derive(Debug)]
pub struct ManifestLayer {
    pub media_type: String,
    pub size: u64,
    pub digest: String,
}

/// A client of an image registry: the bearer token it holds once
/// authenticated. The HTTP connection is the caller's.
#[derive(Debug)]
pub struct RegistryClient {
    pub auth_token: Option<String>,
}

/// The value of `param="..."` in an authentication header: what follows the
/// first `param="` up to the next quote.
pub open spec fn auth_param(header: Seq<char>, param: Seq<char>) -> Option<Seq<char>> {
    let search = param + "=\""@;
    match find_first(header, search) {
        Some(i) => {
            let rest = header.skip(i + search.len());
            match find_first(rest, "\""@) {
                Some(j) => Some(rest.take(j)),
                None => None,
            }
        },
        None => None,
    }
}

/// The token endpoint of a `Bearer` challenge for pulling a repository.
pub open spec fn token_url_spec(header: Seq<char>, repository: Seq<char>) -> Option<Seq<char>> {
    match auth_param(header, "realm"@) {
        Some(realm) => Some(
            realm + "?service="@ + match auth_param(header, "service"@) {
                Some(s) => s,
                None => Seq::empty(),
            } + "&scope=repository:"@ + repository + ":pull"@,
        ),
        None => None,
    }
}

/// The manifest is for linux/arm64.
pub open spec fn is_linux_arm64(m: ManifestPlatform) -> bool {
    m.platform.architecture@ == "arm64"@ && m.platform.os@ == "linux"@
}

/// The first linux/arm64 manifest from position `i` on.
pub open spec fn first_linux_arm64(ms: Seq<ManifestPlatform>, i: int) -> Option<int>
    decreases ms.len() - i,
{
    if i < 0 || i >= ms.len() {
        None
    } else if is_linux_arm64(ms[i]) {
        Some(i)
    } else {
        first_linux_arm64(ms, i + 1)
    }
}

/// The platform picked from a manifest list: the first linux/arm64 one,
/// else the first.
pub open spec fn platform_choice(ms: Seq<ManifestPlatform>) -> Option<int> {
    match first_linux_arm64(ms, 0) {
        Some(i) => Some(i),
        None => if ms.len() > 0 {
            Some(0)
        } else {
            None
        },
    }
}

impl RegistryClient {
    /// A client without a token.
    pub fn new() -> (r: Self)
        ensures
            r.auth_token is None,
    {
        RegistryClient { auth_token: None }
    }

    /// The value of a parameter of an authentication header.
    pub fn extract_param(header: &str, param: &str) -> (r: Option<String>)
        ensures
            match (r, auth_param(header@, param@)) {
                (Some(a), Some(b)) => a@ == b,
                (None, None) => true,
                _ => false,
            },
    {
        let hv = chars_of(header);
        let mut search = String::from_str(param);
        search.append("=\"");
        let sv = chars_of(search.as_str());
        assert(hv@.skip(0) =~= hv@);
        match find_from(&hv, &sv, 0) {
            Some(start) => {
                proof {
                    lemma_find_first_bounds(hv@, sv@);
                }
                assert(start + sv.len() <= hv.len());
                let value_start = start + sv.len();
                let quote: Vec<char> = vec!['"'];
                proof {
                    reveal_strlit("\"");
                }
                assert(quote@ =~= "\""@);
                match find_from(&hv, &quote, value_start) {
                    Some(end) => {
                        assert(hv@.skip(value_start as int) =~= hv@.skip(start as int + sv@.len()));
                        proof {
                            lemma_find_first_bounds(hv@.skip(value_start as int), quote@);
                        }
                        let v = string_of_range(&hv, value_start, end);
                        assert(v@ =~= hv@.skip(value_start as int).take(end - value_start));
                        Some(v)
                    },
                    None => None,
                }
            },
            None => None,
        }
    }

    /// The URL to request a pull token from, for a `Bearer` challenge.
    pub fn token_request_url(auth_header: &str, image_ref: &ImageRef) -> (r: RegistryResult<String>)
        ensures
            match token_url_spec(auth_header@, image_ref.repository@) {
                Some(u) => r matches Ok(x) && x@ == u,
                None => r matches Err(RegistryError::AuthFailed(m)) && m@ == "Missing realm in auth header"@,
            },
    {
        let realm = match Self::extract_param(auth_header, "realm") {
            Some(r) => r,
            None => {
                return Err(RegistryError::AuthFailed(String::from_str("Missing realm in auth header")));
            },
        };
        let service = match Self::extract_param(auth_header, "service") {
            Some(s) => s,
            None => String::new(),
        };
        let mut u = realm;
        u.append("?service=");
        u.append(service.as_str());
        u.append("&scope=repository:");
        u.append(image_ref.repository.as_str());
        u.append(":pull");
        Ok(u)
    }

    /// Keep the token of a token response (`None` where it holds none).
    pub fn accept_token(&mut self, token: Option<String>) -> (r: RegistryResult<()>)
        ensures
            match token {
                Some(t) => r is Ok && final(self).auth_token == Some(t),
                None => (r matches Err(RegistryError::AuthFailed(m)) && m@ == "No token in response"@)
                    && final(self).auth_token == old(self).auth_token,
            },
    {
        match token {
            Some(t) => {
                self.auth_token = Some(t);
                Ok(())
            },
            None => Err(RegistryError::AuthFailed(String::from_str("No token in response"))),
        }
    }

    /// The `Authorization` header value, once authenticated.
    pub fn authorization(&self) -> (r: Option<String>)
        ensures
            match (r, self.auth_token) {
                (Some(a), Some(t)) => a@ == "Bearer "@ + t@,
                (None, None) => true,
                _ => false,
            },
    {
        match &self.auth_token {
            Some(t) => {
                let mut s = String::from_str("Bearer ");
                s.append(t.as_str());
                Some(s)
            },
            None => None,
        }
    }

    /// The platform to pull from a manifest list.
    pub fn select_platform(list: &ManifestList) -> (r: RegistryResult<usize>)
        ensures
            match platform_choice(list.manifests@) {
                Some(i) => r matches Ok(k) && k == i,
                None => r matches Err(RegistryError::Parse(m)) && m@ == "No suitable platform found"@,
            },
    {
        let ms = &list.manifests;
        let mut i: usize = 0;
        while i < ms.len()
            invariant
                ms@ == list.manifests@,
                i <= ms@.len(),
                first_linux_arm64(ms@, 0) == first_linux_arm64(ms@, i as int),
            decreases ms@.len() - i,
        {
            if str_eq(ms[i].platform.architecture.as_str(), "arm64") && str_eq(ms[i].platform.os.as_str(), "linux") {
                assert(is_linux_arm64(ms@[i as int]));
                assert(first_linux_arm64(ms@, i as int) == Some(i as int));
                return Ok(i);
            }
            assert(!is_linux_arm64(ms@[i as int]));
            i += 1;
        }
        if ms.len() > 0 {
            Ok(0)
        } else {
            Err(RegistryError::Parse(String::from_str("No suitable platform found")))
        }
    }

    /// The URL of a manifest, by tag or digest.
    pub fn manifest_request_url(image_ref: &ImageRef, reference: &str) -> (r: String)
        ensures
            r@ == "https://"@ + image_ref.registry@ + "/v2/"@ + image_ref.repository@ + "/manifests/"@
                + reference@,
    {
        let mut s = String::from_str("https://");
        s.append(image_ref.registry.as_str());
        s.append("/v2/");
        s.append(image_ref.repository.as_str());
        s.append("/manifests/");
        s.append(reference);
        s
    }

    /// Check a downloaded blob against its digest (`sha256:<hex>`).
    pub fn check_blob(digest: &str, bytes: &[u8]) -> (r: RegistryResult<()>)
        ensures
            sha256_reference(bytes@) == digest@ ==> r is Ok,
            sha256_reference(bytes@) != digest@ ==> (r matches Err(RegistryError::DigestMismatch { expected, actual })
                && expected@ == digest@ && actual@ == sha256_reference(bytes@)),
    {
        let actual = sha256_reference_of(bytes);
        if str_eq(actual.as_str(), digest) {
            Ok(())
        } else {
            Err(RegistryError::DigestMismatch { expected: String::from_str(digest), actual })
        }
    }
}

} // verus!
