//! Manifest signatures: the signature file format, the check that a
//! signature comes from the trusted signer, and the L1 source policy's scan
//! for obfuscated code.

use vstd::prelude::*;
use base64::Engine;
use crate::signing::base64_standard_decode;
use crate::text::{all_ascii, contains_seq, str_eq, unicode_lower, to_lowercase, to_ascii_lower, ascii_lower, chars_of, find_from};

verus! {

/// The base64 character of a 6-bit value (standard alphabet).
pub open spec fn b64_char(v: int) -> char {
    if v < 26 {
        (65 + v) as char
    } else if v < 52 {
        (97 + v - 26) as char
    } else if v < 62 {
        (48 + v - 52) as char
    } else if v == 62 {
        '+'
    } else {
        '/'
    }
}

/// Standard base64 with `=` padding.
pub open spec fn b64_encode(b: Seq<u8>) -> Seq<char>
    decreases b.len(),
{
    if b.len() == 0 {
        Seq::empty()
    } else if b.len() == 1 {
        seq![b64_char((b[0] / 4) as int), b64_char((b[0] % 4) * 16), '=', '=']
    } else if b.len() == 2 {
        seq![
            b64_char((b[0] / 4) as int),
            b64_char((b[0] % 4) * 16 + b[1] / 16),
            b64_char((b[1] % 16) * 4),
            '=',
        ]
    } else {
        seq![
            b64_char((b[0] / 4) as int),
            b64_char((b[0] % 4) * 16 + b[1] / 16),
            b64_char((b[1] % 16) * 4 + b[2] / 64),
            b64_char((b[2] % 64) as int),
        ] + b64_encode(b.skip(3))
    }
}

/// `base64::engine::general_purpose::STANDARD.encode`: standard alphabet,
/// `=` padding; decoding it with the same engine gives the bytes back (the
/// engine's documented round trip).
#[verifier::external_body]
pub(crate) fn base64_encode(b: &[u8]) -> (r: String)
    ensures
        r@ == b64_encode(b@),
        base64_standard_decode(r@) == Some(b@),
{
    base64::engine::general_purpose::STANDARD.encode(b)
}

/// Whether bytes parse as one JSON value.
pub uninterp spec fn json_value_parses(bytes: Seq<u8>) -> bool;

/// `serde_json::from_slice::<serde_json::Value>`: whether the bytes hold a
/// JSON value; the parser's error message is left unsaid.
#[verifier::external_body]
fn parse_json_value(bytes: &[u8]) -> (r: Result<(), String>)
    ensures
        r is Ok <==> json_value_parses(bytes@),
{
    match serde_json::from_slice::<serde_json::Value>(bytes) {
        Ok(_) => Ok(()),
        Err(e) => Err(e.to_string()),
    }
}

/// A parsed signature file: version and key type bytes, the 32-byte public
/// key, the 64-byte signature and the JSON metadata.
#[derive(Debug)]
pub struct SignatureFile {
    pub version: u8,
    pub key_type: u8,
    pub public_key: Vec<u8>,
    pub signature: Vec<u8>,
    pub metadata: Vec<u8>,
}

/// Length of the metadata, stored big-endian at bytes 98 and 99.
pub open spec fn metadata_len(d: Seq<u8>) -> int {
    d[98] * 256 + d[99]
}

/// The layout of a signature file: version, key type, key, signature,
/// metadata length and metadata.
pub open spec fn signature_file_layout(d: Seq<u8>) -> Result<(u8, u8, Seq<u8>, Seq<u8>, Seq<u8>), Seq<char>> {
    if d.len() < 100 {
        Err("signature file too short"@)
    } else if d.len() < 100 + metadata_len(d) {
        Err("signature metadata length out of bounds"@)
    } else {
        Ok((d[0], d[1], d.subrange(2, 34), d.subrange(34, 98), d.subrange(100, 100 + metadata_len(d))))
    }
}

fn copy_range(d: &[u8], a: usize, b: usize) -> (r: Vec<u8>)
    requires
        a <= b <= d@.len(),
    ensures
        r@ == d@.subrange(a as int, b as int),
{
    let mut r: Vec<u8> = Vec::new();
    let mut i: usize = a;
    while i < b
        invariant
            a <= i <= b <= d@.len(),
            r@ == d@.subrange(a as int, i as int),
        decreases b - i,
    {
        r.push(d[i]);
        i += 1;
        assert(r@ =~= d@.subrange(a as int, i as int));
    }
    r
}

/// Parse a signature file.
pub fn parse_signature_bytes(data: &[u8]) -> (r: Result<SignatureFile, String>)
    ensures
        match signature_file_layout(data@) {
            Err(m) => r matches Err(e) && e@ == m,
            Ok((v, k, pk, sig, meta)) => if json_value_parses(meta) {
                r matches Ok(f) && f.version == v && f.key_type == k && f.public_key@ == pk
                    && f.signature@ == sig && f.metadata@ == meta
            } else {
                r matches Err(e) && e@.len() >= 41 && e@.take(41)
                    == "failed to parse signature metadata JSON: "@
            },
        },
{
    if data.len() < 100 {
        return Err("signature file too short".to_owned());
    }
    let version = data[0];
    let key_type = data[1];
    let public_key = copy_range(data, 2, 34);
    let signature = copy_range(data, 34, 98);
    let len: usize = (data[98] as usize) * 256 + (data[99] as usize);
    if data.len() - 100 < len {
        return Err("signature metadata length out of bounds".to_owned());
    }
    let metadata = copy_range(data, 100, 100 + len);
    match parse_json_value(metadata.as_slice()) {
        Ok(()) => {},
        Err(e) => {
            let mut m = String::from_str("failed to parse signature metadata JSON: ");
            proof {
                reveal_strlit("failed to parse signature metadata JSON: ");
            }
            m.append(e.as_str());
            assert(m@.take(41) =~= "failed to parse signature metadata JSON: "@);
            return Err(m);
        },
    }
    Ok(SignatureFile { version, key_type, public_key, signature, metadata })
}

/// Verifies manifests against a trusted signer key.
#[derive(Debug)]
pub struct ManifestVerifier {
    /// Trusted signer, as `ed25519:<base64 key>`; none skips verification.
    pub public_key_fingerprint: Option<String>,
    pub enforce: bool,
}

/// The fingerprint of a signature file's key.
pub open spec fn key_fingerprint(public_key: Seq<u8>) -> Seq<char> {
    "ed25519:"@ + b64_encode(public_key)
}

impl ManifestVerifier {
    pub fn new(public_key_fingerprint: Option<String>, enforce: bool) -> (v: Self)
        ensures
            v.public_key_fingerprint == public_key_fingerprint,
            v.enforce == enforce,
    {
        ManifestVerifier { public_key_fingerprint, enforce }
    }

    /// Whether a signature file comes from the trusted signer. Without a
    /// configured signer nothing is checked. The message of a failure is the
    /// one the caller reports.
    pub fn check_signer(&self, signature_bytes: &[u8]) -> (r: Result<Option<SignatureFile>, String>)
        ensures
            self.public_key_fingerprint is None ==> r matches Ok(None),
            self.public_key_fingerprint matches Some(t) ==> match signature_file_layout(signature_bytes@) {
                Err(m) => r matches Err(e) && e@ == "Invalid signature format: "@ + m,
                Ok((_, _, pk, _, meta)) => if !json_value_parses(meta) {
                    r is Err
                } else if key_fingerprint(pk) == t@ {
                    r matches Ok(Some(f)) && f.public_key@ == pk
                } else {
                    r matches Err(e) && e@ == "Signature key "@ + key_fingerprint(pk)
                        + " is not the trusted signer "@ + t@
                },
            },
    {
        let trusted = match &self.public_key_fingerprint {
            Some(k) => k,
            None => {
                return Ok(None);
            },
        };
        let sig_file = match parse_signature_bytes(signature_bytes) {
            Ok(f) => f,
            Err(e) => {
                let mut m = String::from_str("Invalid signature format: ");
                m.append(e.as_str());
                return Err(m);
            },
        };
        let enc = base64_encode(sig_file.public_key.as_slice());
        let mut fp = String::from_str("ed25519:");
        fp.append(enc.as_str());
        if !str_eq(fp.as_str(), trusted.as_str()) {
            let mut m = String::from_str("Signature key ");
            m.append(fp.as_str());
            m.append(" is not the trusted signer ");
            m.append(trusted.as_str());
            return Err(m);
        }
        Ok(Some(sig_file))
    }
}

// ---------------------------------------------------------------------------
// L1 source policy

/// Errors of the L1 source policy.
#[derive(Debug)]
pub enum L1PolicyError {
    CasUnavailable(String),
    BlobNotFound(String),
    ObfuscationDetected { pattern: String, file: String },
    InvalidSourceRef(String),
    IoError(std::io::Error),
}

/// Patterns that betray obfuscated or injected code.
pub open spec fn dangerous_patterns() -> Seq<Seq<char>> {
    seq![
        "base64 -d"@, "base64 --decode"@, "eval("@, "exec("@, "| sh"@, "|sh"@, "| bash"@,
        "|bash"@, "__import__"@, "importlib.import_module"@, "subprocess.Popen"@, "os.system("@,
        "os.popen("@,
    ]
}

/// The first dangerous pattern, from position `k` on, that the lowercased
/// content holds (patterns lowercased too; they are ASCII).
pub open spec fn first_pattern(content_lower: Seq<char>, k: int) -> Option<int>
    decreases dangerous_patterns().len() - k,
{
    if k < 0 || k >= dangerous_patterns().len() {
        None
    } else if contains_seq(content_lower, ascii_lower(dangerous_patterns()[k])) {
        Some(k)
    } else {
        first_pattern(content_lower, k + 1)
    }
}

/// Scan a source file's content for dangerous patterns (case-insensitive).
pub fn scan_content_for_patterns(content: &str, file: &str) -> (r: Result<(), L1PolicyError>)
    ensures
        all_ascii(content@) ==> unicode_lower(content@) == ascii_lower(content@),
        match first_pattern(unicode_lower(content@), 0) {
            Some(k) => r matches Err(L1PolicyError::ObfuscationDetected { pattern, file: f })
                && pattern@ == dangerous_patterns()[k] && f@ == file@,
            None => r is Ok,
        },
{
    let lower = to_lowercase(content);
    let lv = chars_of(lower.as_str());
    let patterns: Vec<&'static str> = vec![
        "base64 -d", "base64 --decode", "eval(", "exec(", "| sh", "|sh", "| bash", "|bash",
        "__import__", "importlib.import_module", "subprocess.Popen", "os.system(", "os.popen(",
    ];
    assert(patterns@.len() == dangerous_patterns().len());
    assert(lv@.skip(0) =~= lv@);
    let mut k: usize = 0;
    while k < patterns.len()
        invariant
            lv@ == unicode_lower(content@),
            all_ascii(content@) ==> unicode_lower(content@) == ascii_lower(content@),
            lv@.skip(0) == lv@,
            patterns@.len() == dangerous_patterns().len(),
            forall|i: int| 0 <= i < patterns@.len() ==> #[trigger] patterns@[i]@ == dangerous_patterns()[i],
            k <= patterns@.len(),
            first_pattern(unicode_lower(content@), 0) == first_pattern(unicode_lower(content@), k as int),
        decreases patterns@.len() - k,
    {
        let p = to_ascii_lower(patterns[k]);
        let pv = chars_of(p.as_str());
        if find_from(&lv, &pv, 0).is_some() {
            return Err(
                L1PolicyError::ObfuscationDetected {
                    pattern: patterns[k].to_owned(),
                    file: file.to_owned(),
                },
            );
        }
        k += 1;
    }
    Ok(())
}

/// Directories the scan leaves out.
pub open spec fn skipped_dir(name: Seq<char>) -> bool {
    name == "node_modules"@ || name == ".git"@ || name == "__pycache__"@ || name == ".venv"@
        || name == "target"@ || name == "build"@ || name == "dist"@
}

pub fn is_skipped_dir(name: &str) -> (b: bool)
    ensures
        b == skipped_dir(name@),
{
    str_eq(name, "node_modules") || str_eq(name, ".git") || str_eq(name, "__pycache__") || str_eq(
        name,
        ".venv",
    ) || str_eq(name, "target") || str_eq(name, "build") || str_eq(name, "dist")
}

/// A file with one of the given extensions is scanned.
pub fn should_scan(extension: &str, extensions: &Vec<&str>) -> (b: bool)
    ensures
        b == exists|i: int| 0 <= i < extensions@.len() && #[trigger] extensions@[i]@ == extension@,
{
    let mut i: usize = 0;
    while i < extensions.len()
        invariant
            i <= extensions@.len(),
            forall|q: int| 0 <= q < i ==> #[trigger] extensions@[q]@ != extension@,
        decreases extensions@.len() - i,
    {
        if str_eq(extensions[i], extension) {
            return true;
        }
        i += 1;
    }
    false
}

/// An entry met while walking a source tree (skipped directories left out).
#[derive(Debug)]
pub enum SourceEntry {
    /// A file, with its extension and what reading it gave; files that are
    /// not scanned need not be read.
    File { path: String, extension: Option<String>, content: Result<String, std::io::Error> },
    /// A directory or entry that could not be listed.
    Unreadable(std::io::Error),
}

/// The extension is among those scanned.
pub open spec fn scanned_ext(extension: Option<String>, extensions: Seq<&str>) -> bool {
    match extension {
        Some(e) => exists|i: int| 0 <= i < extensions.len() && #[trigger] extensions[i]@ == e@,
        None => false,
    }
}

/// The entry fails the policy: it could not be listed or read, or it is a
/// scanned file holding a dangerous pattern.
pub open spec fn entry_fails(e: SourceEntry, extensions: Seq<&str>) -> bool {
    match e {
        SourceEntry::Unreadable(_) => true,
        SourceEntry::File { path, extension, content } => scanned_ext(extension, extensions) && match content {
            Err(_) => true,
            Ok(c) => first_pattern(unicode_lower(c@), 0) is Some,
        },
    }
}

/// The error that a failing entry gives.
pub open spec fn entry_error(e: SourceEntry, r: L1PolicyError) -> bool {
    match e {
        SourceEntry::Unreadable(io) => r == L1PolicyError::IoError(io),
        SourceEntry::File { path, extension, content } => match content {
            Err(io) => r == L1PolicyError::IoError(io),
            Ok(c) => match first_pattern(unicode_lower(c@), 0) {
                Some(k) => r matches L1PolicyError::ObfuscationDetected { pattern, file }
                    && pattern@ == dangerous_patterns()[k] && file@ == path@,
                None => false,
            },
        },
    }
}

/// Verify a source tree against the L1 policy (`verify_l1_source_policy`):
/// it must exist, and every file with a scanned extension must be readable
/// and free of dangerous patterns. `entries` are what a walk of the tree met,
/// in order; the first failing entry decides the error.
#[verifier::loop_isolation(false)]
pub fn verify_l1_source_policy(
    source_path: &str,
    source_exists: bool,
    entries: Vec<SourceEntry>,
    scan_extensions: &Vec<&str>,
) -> (r: Result<(), L1PolicyError>)
    ensures
        !source_exists ==> (r matches Err(L1PolicyError::BlobNotFound(m)) && m@ == source_path@),
        source_exists ==> (r is Ok <==> (forall|i: int|
            0 <= i < entries@.len() ==> !#[trigger] entry_fails(entries@[i], scan_extensions@))),
        source_exists && r is Err ==> exists|j: int|
            0 <= j < entries@.len() && #[trigger] entry_fails(entries@[j], scan_extensions@)
                && (forall|i: int| 0 <= i < j ==> !#[trigger] entry_fails(entries@[i], scan_extensions@))
                && entry_error(entries@[j], r->Err_0),
{
    if !source_exists {
        return Err(L1PolicyError::BlobNotFound(source_path.to_owned()));
    }
    let ghost all = entries@;
    let n = entries.len();
    assert(all.len() == n);
    let mut rest = entries;
    let mut done: usize = 0;
    while rest.len() > 0
        invariant
            done + rest@.len() == all.len(),
            all.len() <= usize::MAX,
            rest@ == all.skip(done as int),
            forall|i: int| 0 <= i < done ==> !#[trigger] entry_fails(all[i], scan_extensions@),
        decreases rest@.len(),
    {
        let e = rest.remove(0);
        assert(e == all[done as int]);
        match e {
            SourceEntry::Unreadable(io) => {
                let r = Err(L1PolicyError::IoError(io));
                assert(entry_fails(all[done as int], scan_extensions@));
                assert(entry_error(all[done as int], r->Err_0));
                return r;
            },
            SourceEntry::File { path, extension, content } => {
                let scanned = match &extension {
                    Some(x) => should_scan(x.as_str(), scan_extensions),
                    None => false,
                };
                if scanned {
                    match content {
                        Err(io) => {
                            let r = Err(L1PolicyError::IoError(io));
                            assert(entry_fails(all[done as int], scan_extensions@));
                            assert(entry_error(all[done as int], r->Err_0));
                            return r;
                        },
                        Ok(c) => {
                            match scan_content_for_patterns(c.as_str(), path.as_str()) {
                                Err(err) => {
                                    let r: Result<(), L1PolicyError> = Err(err);
                                    assert(entry_fails(all[done as int], scan_extensions@));
                                    assert(entry_error(all[done as int], r->Err_0));
                                    return r;
                                },
                                Ok(_) => {},
                            }
                        },
                    }
                }
            },
        }
        assert(rest@ =~= all.skip(done + 1));
        done += 1;
    }
    Ok(())
}

} // verus!
