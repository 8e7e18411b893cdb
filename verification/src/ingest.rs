//! Fetching a resource into the cache: request checks, the destination
//! file, and the checks of the file's SHA-256 digest.

use vstd::prelude::*;
use crate::digest::{to_hex_lower, hex_lower, sha256_digest, sha256_of};
use crate::path_guard::{path_verdict, validate_path};
use crate::storage::{join_path, path_join};
use crate::text::{
    ascii_lower, chars_of, split_char, split_char_ranges, str_eq, string_of_range, to_ascii_lower,
    trim, trim_str,
};

verus! {

#[derive(Debug)]
pub struct ResourceFetchRequest {
    pub resource_id: String,
    pub url: String,
    pub expected_sha256: Option<String>,
}

#[derive(Debug)]
pub struct FetcherConfig {
    pub cache_dir: String,
    pub allowed_host_paths: Vec<String>,
}

#[derive(Debug)]
pub struct ResourceFetchResult {
    pub local_path: String,
    pub cached: bool,
    pub bytes_downloaded: u64,
}

/// The last non-empty piece of a list.
pub open spec fn last_nonempty(pieces: Seq<Seq<char>>) -> Option<Seq<char>>
    decreases pieces.len(),
{
    if pieces.len() == 0 {
        None
    } else if pieces.last().len() > 0 {
        Some(pieces.last())
    } else {
        last_nonempty(pieces.drop_last())
    }
}

/// The file name a URL names: its last non-empty path segment, ignoring the
/// fragment and the query.
pub open spec fn url_file_name(url: Seq<char>) -> Option<Seq<char>> {
    let no_frag = split_char(url, '#')[0];
    let no_query = split_char(no_frag, '?')[0];
    last_nonempty(split_char(no_query, '/'))
}

fn first_piece(s: &str, c: char) -> (r: String)
    ensures
        r@ == split_char(s@, c)[0],
{
    let v = chars_of(s);
    let ranges = split_char_ranges(&v, c);
    string_of_range(&v, ranges[0].0, ranges[0].1)
}

pub fn filename_from_url(url: &str) -> (r: Option<String>)
    ensures
        match (r, url_file_name(url@)) {
            (Some(a), Some(b)) => a@ == b,
            (None, None) => true,
            _ => false,
        },
{
    let no_frag = first_piece(url, '#');
    let no_query = first_piece(no_frag.as_str(), '?');
    let v = chars_of(no_query.as_str());
    let ranges = split_char_ranges(&v, '/');
    let ghost pieces = split_char(no_query@, '/');
    let mut i: usize = ranges.len();
    assert(forall|q: int| 0 <= q < ranges@.len() ==> #[trigger] ranges@[q].0 <= ranges@[q].1 <= v@.len());
    assert(Seq::new(ranges@.len(), |q: int| v@.subrange(ranges@[q].0 as int, ranges@[q].1 as int)).len() == pieces.len());
    assert(pieces.take(i as int) =~= pieces);
    while i > 0
        invariant
            v@ == no_query@,
            pieces == split_char(no_query@, '/'),
            url_file_name(url@) == last_nonempty(pieces),
            Seq::new(ranges@.len(), |q: int| v@.subrange(ranges@[q].0 as int, ranges@[q].1 as int))
                == pieces,
            forall|q: int| 0 <= q < ranges@.len() ==> #[trigger] ranges@[q].0 <= ranges@[q].1 <= v@.len(),
            i <= ranges@.len(),
            last_nonempty(pieces) == last_nonempty(pieces.take(i as int)),
        decreases i,
    {
        let (a, b) = ranges[i - 1];
        assert(pieces.take(i as int).last() == pieces[i - 1]);
        assert(pieces.take(i as int).drop_last() =~= pieces.take(i - 1));
        assert(pieces[i - 1] == v@.subrange(a as int, b as int));
        if b > a {
            let r = string_of_range(&v, a, b);
            assert(pieces.take(i as int).last().len() > 0);
            assert(last_nonempty(pieces.take(i as int)) == Some(pieces[i - 1]));
            return Some(r);
        }
        i -= 1;
    }
    None
}

/// `str::trim` followed by ASCII lowercasing.
pub open spec fn normalized_hex(v: Seq<char>) -> Seq<char> {
    ascii_lower(trim(v))
}

pub fn normalize_hex(value: &str) -> (r: String)
    ensures
        r@ == normalized_hex(value@),
{
    let t = trim_str(value);
    to_ascii_lower(t.as_str())
}

/// Where a fetched resource is stored: `<cache>/<resource id>/<file name>`,
/// the file name taken from the URL (`resource.bin` when it names none).
pub open spec fn fetch_destination(req: ResourceFetchRequest, cfg: FetcherConfig) -> Seq<char> {
    path_join(
        path_join(cfg.cache_dir@, req.resource_id@),
        match url_file_name(req.url@) {
            Some(f) => f,
            None => "resource.bin"@,
        },
    )
}

/// Check a request and compute where its resource goes.
pub fn fetch_destination_of(req: &ResourceFetchRequest, cfg: &FetcherConfig) -> (r: Result<String, String>)
    ensures
        trim(req.resource_id@).len() == 0 ==> (r matches Err(m) && m@ == "resource_id is required"@),
        trim(req.resource_id@).len() > 0 && trim(req.url@).len() == 0 ==> (r matches Err(m) && m@
            == "url is required"@),
        trim(req.resource_id@).len() > 0 && trim(req.url@).len() > 0 ==> (r matches Ok(p) && p@
            == fetch_destination(*req, *cfg)),
{
    let id_t = trim_str(req.resource_id.as_str());
    if chars_of(id_t.as_str()).len() == 0 {
        return Err("resource_id is required".to_owned());
    }
    let url_t = trim_str(req.url.as_str());
    if chars_of(url_t.as_str()).len() == 0 {
        return Err("url is required".to_owned());
    }
    let name = match filename_from_url(req.url.as_str()) {
        Some(f) => f,
        None => "resource.bin".to_owned(),
    };
    let dir = join_path(cfg.cache_dir.as_str(), req.resource_id.as_str());
    Ok(join_path(dir.as_str(), name.as_str()))
}

/// The expected digest, when one is given and not blank.
pub open spec fn expected_digest(expected: Option<Seq<char>>) -> Option<Seq<char>> {
    match expected {
        Some(e) => if trim(e).len() > 0 {
            Some(normalized_hex(e))
        } else {
            None
        },
        None => None,
    }
}

fn expected_of(expected: &Option<String>) -> (r: Option<String>)
    ensures
        match (r, expected_digest(match *expected {
            Some(e) => Some(e@),
            None => None,
        })) {
            (Some(a), Some(b)) => a@ == b,
            (None, None) => true,
            _ => false,
        },
{
    match expected {
        Some(e) => {
            let t = trim_str(e.as_str());
            if chars_of(t.as_str()).len() > 0 {
                Some(normalize_hex(e.as_str()))
            } else {
                None
            }
        },
        None => None,
    }
}

/// A file already in the cache is used when no digest is expected, or when
/// its digest is the expected one.
pub fn cached_file_usable(req: &ResourceFetchRequest, data: &[u8]) -> (b: bool)
    ensures
        b == match expected_digest(match req.expected_sha256 {
            Some(e) => Some(e@),
            None => None,
        }) {
            Some(x) => x == hex_lower(sha256_of(data@)),
            None => true,
        },
{
    match expected_of(&req.expected_sha256) {
        Some(x) => {
            let d = sha256_digest(data);
            let actual = to_hex_lower(d.as_slice());
            str_eq(x.as_str(), actual.as_str())
        },
        None => true,
    }
}

/// Check a downloaded file against the expected digest.
pub fn check_download(req: &ResourceFetchRequest, data: &[u8]) -> (r: Result<(), String>)
    ensures
        match expected_digest(match req.expected_sha256 {
            Some(e) => Some(e@),
            None => None,
        }) {
            Some(x) => if x == hex_lower(sha256_of(data@)) {
                r is Ok
            } else {
                r matches Err(m) && m@ == "sha256 mismatch: expected="@ + x + ", actual="@
                    + hex_lower(sha256_of(data@))
            },
            None => r is Ok,
        },
{
    match expected_of(&req.expected_sha256) {
        Some(x) => {
            let d = sha256_digest(data);
            let actual = to_hex_lower(d.as_slice());
            if str_eq(x.as_str(), actual.as_str()) {
                Ok(())
            } else {
                let mut m = String::from_str("sha256 mismatch: expected=");
                m.append(x.as_str());
                m.append(", actual=");
                m.append(actual.as_str());
                Err(m)
            }
        },
        None => Ok(()),
    }
}

/// A cached file is usable: no digest is expected, or its digest is the
/// expected one.
pub open spec fn cache_usable(req: ResourceFetchRequest, data: Seq<u8>) -> bool {
    match expected_digest(match req.expected_sha256 {
        Some(e) => Some(e@),
        None => None,
    }) {
        Some(x) => x == hex_lower(sha256_of(data)),
        None => true,
    }
}

/// What fetching a resource does next.
#[derive(Debug)]
pub enum FetchStep {
    /// The request or its destination is refused, with this message.
    Refuse(String),
    /// The file already at this path is used.
    UseCached(String),
    /// The file is downloaded to this path (and then checked).
    Download(String),
}

/// Decide how a resource is fetched. `resolved_allowed` and
/// `resolved_candidate` are what the file system gave for the allowed roots
/// and the destination (see `validate_path`); `cached` holds the bytes of the
/// file already at the destination, if there is one.
pub fn fetch_decision(
    req: &ResourceFetchRequest,
    cfg: &FetcherConfig,
    resolved_allowed: &Vec<Option<String>>,
    resolved_candidate: &Result<String, String>,
    cached: &Option<Vec<u8>>,
) -> (r: FetchStep)
    requires
        resolved_allowed@.len() == cfg.allowed_host_paths@.len(),
    ensures
        trim(req.resource_id@).len() == 0 ==> (r matches FetchStep::Refuse(m) && m@ == "resource_id is required"@),
        trim(req.resource_id@).len() > 0 && trim(req.url@).len() == 0 ==> (r matches FetchStep::Refuse(m)
            && m@ == "url is required"@),
        trim(req.resource_id@).len() > 0 && trim(req.url@).len() > 0 ==> match path_verdict(
            fetch_destination(*req, *cfg),
            cfg.allowed_host_paths@,
            resolved_allowed@,
            *resolved_candidate,
        ) {
            Err(e) => r matches FetchStep::Refuse(m) && m@ == "Invalid destination path: "@ + e,
            Ok(_) => if (cached matches Some(data) && cache_usable(*req, data@)) {
                r matches FetchStep::UseCached(p) && p@ == fetch_destination(*req, *cfg)
            } else {
                r matches FetchStep::Download(p) && p@ == fetch_destination(*req, *cfg)
            },
        },
{
    let dest = match fetch_destination_of(req, cfg) {
        Ok(d) => d,
        Err(m) => {
            return FetchStep::Refuse(m);
        },
    };
    match validate_path(dest.as_str(), &cfg.allowed_host_paths, resolved_allowed, resolved_candidate) {
        Err(e) => {
            let mut m = String::from_str("Invalid destination path: ");
            m.append(e.as_str());
            return FetchStep::Refuse(m);
        },
        Ok(()) => {},
    }
    match cached {
        Some(data) => {
            if cached_file_usable(req, data.as_slice()) {
                FetchStep::UseCached(dest)
            } else {
                FetchStep::Download(dest)
            }
        },
        None => FetchStep::Download(dest),
    }
}

} // verus!
