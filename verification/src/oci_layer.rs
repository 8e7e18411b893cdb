//! Extraction of image layers: the extractor and the check of a layer's
//! digest.

use vstd::prelude::*;
use crate::digest::{sha256_reference, sha256_reference_of};
use crate::text::{chars_of, contains_seq, find_from, matches_at, starts_with, str_eq, string_of_range};

verus! {

/// Errors of layer extraction.
#[derive(Debug)]
pub enum LayerError {
    Io(std::io::Error),
    Archive(String),
    DigestMismatch { expected: String, actual: String },
    Whiteout(String),
}

pub type LayerResult<T> = Result<T, LayerError>;

/// Extracts layers into a root filesystem.
#[derive(Debug)]
pub struct LayerExtractor {
    pub cache_dir: String,
}

impl LayerExtractor {
    pub fn new(cache_dir: String) -> (e: Self)
        ensures
            e.cache_dir == cache_dir,
    {
        LayerExtractor { cache_dir }
    }

    /// Check a layer's content against its expected `sha256:` digest.
    pub fn verify_layer_digest(&self, data: &[u8], expected_digest: &str) -> (r: LayerResult<bool>)
        ensures
            sha256_reference(data@) == expected_digest@ ==> r matches Ok(true),
            sha256_reference(data@) != expected_digest@ ==> (r matches Err(
                LayerError::DigestMismatch { expected, actual },
            ) && expected@ == expected_digest@ && actual@ == sha256_reference(data@)),
    {
        let actual = sha256_reference_of(data);
        if !str_eq(actual.as_str(), expected_digest) {
            return Err(
                LayerError::DigestMismatch { expected: expected_digest.to_owned(), actual },
            );
        }
        Ok(true)
    }
}

/// What extraction does with one entry of a layer archive.
#[derive(Debug)]
pub enum EntryAction {
    /// `.wh..wh..opq`: empty the entry's directory.
    OpaqueWhiteout,
    /// `.wh.<name>`: delete `<name>` next to the entry.
    Whiteout(String),
    /// A path that climbs out of the root filesystem.
    SkipTraversal,
    /// Unpack the entry.
    Extract,
}

/// The entry's file name marks a whiteout.
pub open spec fn whiteout_name(file_name: Option<&str>) -> bool {
    file_name matches Some(f) && starts_with(f@, ".wh."@)
}

/// The entry's path climbs out of the root.
pub open spec fn climbs_out(path: Seq<char>) -> bool {
    starts_with(path, ".."@) || contains_seq(path, "/../"@)
}

/// Classify an archive entry by its path and file name.
pub fn classify_layer_entry(path: &str, file_name: Option<&str>) -> (r: EntryAction)
    ensures
        whiteout_name(file_name) ==> (if file_name.unwrap()@ == ".wh..wh..opq"@ {
            r is OpaqueWhiteout
        } else {
            r matches EntryAction::Whiteout(n) && n@ == file_name.unwrap()@.skip(4)
        }),
        !whiteout_name(file_name) && climbs_out(path@) ==> r is SkipTraversal,
        !whiteout_name(file_name) && !climbs_out(path@) ==> r is Extract,
{
    proof {
        reveal_strlit(".wh.");
    }
    if let Some(f) = file_name {
        let fv = chars_of(f);
        let wh = chars_of(".wh.");
        assert(fv@.skip(0) =~= fv@);
        if matches_at(&fv, 0, &wh) {
            if str_eq(f, ".wh..wh..opq") {
                return EntryAction::OpaqueWhiteout;
            }
            let rest = string_of_range(&fv, 4, fv.len());
            assert(rest@ =~= fv@.skip(4));
            return EntryAction::Whiteout(rest);
        }
    }
    let pv = chars_of(path);
    let dd = chars_of("..");
    let sep = chars_of("/../");
    assert(pv@.skip(0) =~= pv@);
    if matches_at(&pv, 0, &dd) || find_from(&pv, &sep, 0).is_some() {
        EntryAction::SkipTraversal
    } else {
        EntryAction::Extract
    }
}

} // verus!
