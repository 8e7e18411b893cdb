//! Directory-based storage for capsules: errors, configuration and the
//! naming of each capsule's storage directory.

use vstd::prelude::*;
use crate::text::{dec, u64_to_string, chars_of, push_char};

verus! {

#[verifier::external_type_specification]
#[verifier::external_body]
pub struct ExIoError(std::io::Error);

/// `<std::io::Error as Display>::to_string`: the error's message. Nothing is
/// stated of the text, which depends on the error's kind and payload.
#[verifier::external_body]
fn io_error_text(e: &std::io::Error) -> String {
    e.to_string()
}

/// Errors of storage operations.
#[derive(Debug)]
pub enum StorageError {
    CommandFailed(String),
    VolumeNotFound(String),
    VolumeAlreadyExists(String),
    InvalidVolumeName(String),
    InvalidSize(String),
    EncryptionError(String),
    KeyManagementError(String),
    InsufficientSpace { required: u64, available: u64 },
    SnapshotError(String),
    IoError(std::io::Error),
    ParseError(String),
    PermissionDenied(String),
    VolumeBusy(String),
}

/// Result of a storage operation.
pub type StorageResult<T> = Result<T, StorageError>;

/// The message of an error, except for I/O errors, whose message is that of
/// the underlying error after the prefix `"IO error: "`.
pub open spec fn storage_error_message(e: StorageError) -> Seq<char> {
    match e {
        StorageError::CommandFailed(m) => "Command execution failed: "@ + m@,
        StorageError::VolumeNotFound(m) => "Volume not found: "@ + m@,
        StorageError::VolumeAlreadyExists(m) => "Volume already exists: "@ + m@,
        StorageError::InvalidVolumeName(m) => "Invalid volume name: "@ + m@,
        StorageError::InvalidSize(m) => "Invalid size specification: "@ + m@,
        StorageError::EncryptionError(m) => "Encryption error: "@ + m@,
        StorageError::KeyManagementError(m) => "Key management error: "@ + m@,
        StorageError::InsufficientSpace { required, available } => "Insufficient space: required "@
            + dec(required as nat) + ", available "@ + dec(available as nat),
        StorageError::SnapshotError(m) => "Snapshot error: "@ + m@,
        StorageError::IoError(_) => "IO error: "@,
        StorageError::ParseError(m) => "Parse error: "@ + m@,
        StorageError::PermissionDenied(m) => "Permission denied: "@ + m@,
        StorageError::VolumeBusy(m) => "Volume is busy: "@ + m@,
    }
}

fn prefixed(prefix: &str, m: &String) -> (r: String)
    ensures
        r@ == prefix@ + m@,
{
    let mut s = String::from_str(prefix);
    s.append(m.as_str());
    s
}

impl StorageError {
    /// The error's message.
    pub fn to_string(&self) -> (r: String)
        ensures
            !(self is IoError) ==> r@ == storage_error_message(*self),
            self is IoError ==> r@.take(10) == storage_error_message(*self),
    {
        match self {
            StorageError::CommandFailed(m) => prefixed("Command execution failed: ", m),
            StorageError::VolumeNotFound(m) => prefixed("Volume not found: ", m),
            StorageError::VolumeAlreadyExists(m) => prefixed("Volume already exists: ", m),
            StorageError::InvalidVolumeName(m) => prefixed("Invalid volume name: ", m),
            StorageError::InvalidSize(m) => prefixed("Invalid size specification: ", m),
            StorageError::EncryptionError(m) => prefixed("Encryption error: ", m),
            StorageError::KeyManagementError(m) => prefixed("Key management error: ", m),
            StorageError::InsufficientSpace { required, available } => {
                let mut s = String::from_str("Insufficient space: required ");
                let r = u64_to_string(*required);
                s.append(r.as_str());
                s.append(", available ");
                let a = u64_to_string(*available);
                s.append(a.as_str());
                s
            },
            StorageError::SnapshotError(m) => prefixed("Snapshot error: ", m),
            StorageError::IoError(e) => {
                let t = io_error_text(e);
                let s = prefixed("IO error: ", &t);
                proof {
                    reveal_strlit("IO error: ");
                    assert(s@.take(10) =~= "IO error: "@);
                }
                s
            },
            StorageError::ParseError(m) => prefixed("Parse error: ", m),
            StorageError::PermissionDenied(m) => prefixed("Permission denied: ", m),
            StorageError::VolumeBusy(m) => prefixed("Volume is busy: ", m),
        }
    }
}

impl From<std::io::Error> for StorageError {
    fn from(e: std::io::Error) -> (r: StorageError) {
        StorageError::IoError(e)
    }
}

impl vstd::std_specs::convert::FromSpecImpl<std::io::Error> for StorageError {
    open spec fn obeys_from_spec() -> bool {
        true
    }

    open spec fn from_spec(e: std::io::Error) -> StorageError {
        StorageError::IoError(e)
    }
}

// ---------------------------------------------------------------------------
// Configuration and directories

/// Information about provisioned capsule storage.
#[derive(Debug)]
pub struct CapsuleStorage {
    /// Capsule this storage belongs to.
    pub capsule_id: String,
    /// Storage directory.
    pub storage_path: String,
    /// Size limit in bytes (advisory).
    pub size_limit_bytes: u64,
    /// Mount point (the storage directory itself).
    pub mount_point: Option<String>,
}

/// Configuration of the storage manager.
#[derive(Debug)]
pub struct StorageConfig {
    pub enabled: bool,
    /// Base directory for capsule storage.
    pub storage_base: String,
    /// Default size limit in bytes (advisory).
    pub default_size_bytes: u64,
    /// Volume group name, kept for compatibility and unused.
    pub default_vg: String,
}

impl Default for StorageConfig {
    fn default() -> (c: Self)
        ensures
            !c.enabled,
            c.storage_base@ == "/var/lib/capsuled/storage"@,
            c.default_size_bytes == 10 * 1024 * 1024 * 1024,
            c.default_vg@ == "unused"@,
    {
        StorageConfig {
            enabled: false,
            storage_base: "/var/lib/capsuled/storage".to_owned(),
            default_size_bytes: 10 * 1024 * 1024 * 1024,
            default_vg: "unused".to_owned(),
        }
    }
}

/// `Path::join` (with `/` as separator): an absolute path replaces the base;
/// otherwise the separator is added unless the base is empty or already ends
/// with one.
pub open spec fn path_join(base: Seq<char>, rel: Seq<char>) -> Seq<char> {
    if rel.len() > 0 && rel[0] == '/' {
        rel
    } else if base.len() == 0 {
        rel
    } else if base.last() == '/' {
        base + rel
    } else {
        base + seq!['/'] + rel
    }
}

pub fn join_path(base: &str, rel: &str) -> (r: String)
    ensures
        r@ == path_join(base@, rel@),
{
    let rv = chars_of(rel);
    if rv.len() > 0 && rv[0] == '/' {
        return rel.to_owned();
    }
    let b = chars_of(base);
    if b.len() == 0 {
        return rel.to_owned();
    }
    let mut s = base.to_owned();
    if b[b.len() - 1] != '/' {
        push_char(&mut s, '/');
    }
    s.append(rel);
    s
}

/// `char::is_alphanumeric` of a character (Unicode alphabetic or numeric).
pub uninterp spec fn unicode_alphanumeric(c: char) -> bool;

/// An ASCII letter or digit.
pub open spec fn ascii_alphanumeric(c: char) -> bool {
    ('a' <= c && c <= 'z') || ('A' <= c && c <= 'Z') || ('0' <= c && c <= '9')
}

/// `char::is_alphanumeric`: whether the character is Unicode alphabetic or
/// numeric. The answer is named; on ASCII it is stated (letters and digits
/// are alphanumeric, every other ASCII character is not), as the
/// documentation of `is_alphabetic` and `is_numeric` shows.
#[verifier::external_body]
fn is_alphanumeric(c: char) -> (r: bool)
    ensures
        r == unicode_alphanumeric(c),
        (c as u32) < 128 ==> (r <==> ascii_alphanumeric(c)),
{
    c.is_alphanumeric()
}

/// Characters kept in a directory name; others become `_`.
pub open spec fn dir_char(c: char) -> char {
    if unicode_alphanumeric(c) || c == '_' || c == '-' {
        c
    } else {
        '_'
    }
}

/// `dir_char` on ASCII: letters, digits, `_` and `-` stay, every other
/// character becomes `_`.
pub open spec fn ascii_dir_char(c: char) -> char {
    if ascii_alphanumeric(c) || c == '_' || c == '-' {
        c
    } else {
        '_'
    }
}

/// `sanitized_name` of an ASCII id.
pub open spec fn sanitized_ascii_name(id: Seq<char>) -> Seq<char> {
    let m = Seq::new(id.len(), |i: int| ascii_dir_char(id[i]));
    if m.len() > 0 && (m[0] == '.' || m[0] == '-') {
        "capsule_"@ + m
    } else if m.len() == 0 {
        "capsule_unnamed"@
    } else {
        m
    }
}

/// A capsule id turned into a directory name.
pub open spec fn sanitized_name(id: Seq<char>) -> Seq<char> {
    let m = Seq::new(id.len(), |i: int| dir_char(id[i]));
    if m.len() > 0 && (m[0] == '.' || m[0] == '-') {
        "capsule_"@ + m
    } else if m.len() == 0 {
        "capsule_unnamed"@
    } else {
        m
    }
}

/// Directory-based storage manager.
#[derive(Debug)]
pub struct StorageManager {
    pub config: StorageConfig,
}

impl StorageManager {
    /// A manager over the given configuration. Creating the base directory,
    /// where storage is enabled, is left to the caller.
    pub fn new(config: StorageConfig) -> (m: Self)
        ensures
            m.config == config,
    {
        StorageManager { config }
    }

    /// A manager over the default configuration (storage disabled).
    pub fn with_defaults() -> (m: Self)
        ensures
            !m.config.enabled,
            m.config.storage_base@ == "/var/lib/capsuled/storage"@,
            m.config.default_size_bytes == 10 * 1024 * 1024 * 1024,
            m.config.default_vg@ == "unused"@,
    {
        StorageManager::new(StorageConfig::default())
    }

    /// Directory name for a capsule id: characters other than alphanumerics,
    /// `_` and `-` become `_`; a leading `-` gets the prefix `capsule_`; an
    /// empty id becomes `capsule_unnamed`.
    pub fn sanitize_dir_name(capsule_id: &str) -> (r: String)
        ensures
            r@ == sanitized_name(capsule_id@),
            forall|k: int| 0 <= k < r@.len() ==> #[trigger] r@[k] != '/' && r@[k] != '.',
            crate::text::all_ascii(capsule_id@) ==> r@ == sanitized_ascii_name(capsule_id@),
    {
        let v = chars_of(capsule_id);
        let ghost m = Seq::new(v@.len(), |i: int| dir_char(v@[i]));
        let mut s = String::new();
        let mut i: usize = 0;
        while i < v.len()
            invariant
                v@ == capsule_id@,
                m == Seq::new(v@.len(), |i: int| dir_char(v@[i])),
                i <= v@.len(),
                s@ == m.take(i as int),
                forall|k: int| 0 <= k < i ==> #[trigger] m[k] != '/' && m[k] != '.',
                forall|k: int| 0 <= k < i && (v@[k] as u32) < 128 ==> #[trigger] m[k] == ascii_dir_char(v@[k]),
            decreases v@.len() - i,
        {
            let c = v[i];
            let d = if is_alphanumeric(c) || c == '_' || c == '-' {
                c
            } else {
                '_'
            };
            assert(d == m[i as int]);
            assert(d != '/' && d != '.');
            push_char(&mut s, d);
            i += 1;
            assert(s@ =~= m.take(i as int));
        }
        assert(m.take(v@.len() as int) =~= m);
        proof {
            if crate::text::all_ascii(capsule_id@) {
                assert(m =~= Seq::new(v@.len(), |i: int| ascii_dir_char(v@[i]))) by {
                    assert forall|k: int| 0 <= k < m.len() implies m[k] == ascii_dir_char(v@[k]) by {
                        assert((v@[k] as u32) < 128);
                    }
                }
            }
        }
        let sv = chars_of(s.as_str());
        proof {
            reveal_strlit("capsule_");
            reveal_strlit("capsule_unnamed");
        }
        if sv.len() > 0 && (sv[0] == '.' || sv[0] == '-') {
            let mut r = String::from_str("capsule_");
            r.append(s.as_str());
            assert forall|k: int| 0 <= k < r@.len() implies #[trigger] r@[k] != '/' && r@[k] != '.' by {
                if k >= 8 {
                    assert(r@[k] == m[k - 8]);
                }
            }
            r
        } else if sv.len() == 0 {
            String::from_str("capsule_unnamed")
        } else {
            s
        }
    }

    /// The storage directory of a capsule.
    pub fn get_storage_path(&self, capsule_id: &str) -> (r: String)
        ensures
            r@ == path_join(self.config.storage_base@, sanitized_name(capsule_id@)),
    {
        let name = StorageManager::sanitize_dir_name(capsule_id);
        join_path(self.config.storage_base.as_str(), name.as_str())
    }

    /// Storage information of a capsule, given whether its directory exists.
    pub fn get_capsule_storage(&self, capsule_id: &str, exists: bool) -> (r: StorageResult<
        Option<CapsuleStorage>,
    >)
        ensures
            r matches Ok(o) && (o is Some <==> exists) && (o matches Some(c) ==> {
                &&& c.capsule_id@ == capsule_id@
                &&& c.storage_path@ == path_join(self.config.storage_base@, sanitized_name(capsule_id@))
                &&& c.size_limit_bytes == self.config.default_size_bytes
                &&& c.mount_point matches Some(p) && p@ == c.storage_path@
            }),
    {
        if exists {
            let path = self.get_storage_path(capsule_id);
            let mount = path.clone();
            Ok(
                Some(
                    CapsuleStorage {
                        capsule_id: capsule_id.to_owned(),
                        storage_path: path,
                        size_limit_bytes: self.config.default_size_bytes,
                        mount_point: Some(mount),
                    },
                ),
            )
        } else {
            Ok(None)
        }
    }

    /// What provisioning records for a capsule: its id, directory and size
    /// limit (the given one, or the default).
    pub fn capsule_storage_record(&self, capsule_id: &str, size_bytes: Option<u64>) -> (r:
        CapsuleStorage)
        ensures
            r.capsule_id@ == capsule_id@,
            r.storage_path@ == path_join(self.config.storage_base@, sanitized_name(capsule_id@)),
            r.size_limit_bytes == match size_bytes {
                Some(s) => s,
                None => self.config.default_size_bytes,
            },
            r.mount_point matches Some(p) && p@ == r.storage_path@,
    {
        let size = match size_bytes {
            Some(s) => s,
            None => self.config.default_size_bytes,
        };
        let path = self.get_storage_path(capsule_id);
        let mount = path.clone();
        CapsuleStorage {
            capsule_id: capsule_id.to_owned(),
            storage_path: path,
            size_limit_bytes: size,
            mount_point: Some(mount),
        }
    }
}

/// The total of a list of sizes.
pub open spec fn sum_sizes(s: Seq<u64>) -> int
    decreases s.len(),
{
    if s.len() == 0 {
        0
    } else {
        sum_sizes(s.drop_last()) + s.last()
    }
}

/// A prefix of the sizes adds up to no more than all of them.
pub proof fn lemma_sum_sizes_prefix(s: Seq<u64>, i: int)
    requires
        0 <= i <= s.len(),
    ensures
        0 <= sum_sizes(s.take(i)) <= sum_sizes(s),
    decreases s.len() - i,
{
    if i < s.len() {
        lemma_sum_sizes_prefix(s, i + 1);
        assert(s.take(i + 1).drop_last() =~= s.take(i));
    } else {
        assert(s.take(i) =~= s);
    }
    lemma_sum_sizes_nonneg(s.take(i));
}

/// Sizes add up to no less than zero.
pub proof fn lemma_sum_sizes_nonneg(s: Seq<u64>)
    ensures
        sum_sizes(s) >= 0,
    decreases s.len(),
{
    if s.len() > 0 {
        lemma_sum_sizes_nonneg(s.drop_last());
    }
}

/// The total of the sizes of the files found under a directory.
pub fn total_size(sizes: &Vec<u64>) -> (r: u64)
    requires
        sum_sizes(sizes@) <= u64::MAX,
    ensures
        r == sum_sizes(sizes@),
{
    let mut total: u64 = 0;
    let mut i: usize = 0;
    assert(sizes@.take(0) =~= Seq::<u64>::empty());
    while i < sizes.len()
        invariant
            i <= sizes@.len(),
            sum_sizes(sizes@) <= u64::MAX,
            total == sum_sizes(sizes@.take(i as int)),
        decreases sizes@.len() - i,
    {
        proof {
            lemma_sum_sizes_prefix(sizes@, i + 1);
        }
        assert(sizes@.take(i + 1).drop_last() =~= sizes@.take(i as int));
        total = total + sizes[i];
        i += 1;
    }
    assert(sizes@.take(sizes@.len() as int) =~= sizes@);
    total
}

impl StorageManager {
    /// Whether a capsule has storage, given whether its directory
    /// (`get_storage_path`) exists.
    pub fn storage_exists(&self, capsule_id: &str, dir_exists: bool) -> (r: StorageResult<bool>)
        ensures
            r matches Ok(b) && b == dir_exists,
    {
        Ok(dir_exists)
    }

    /// Bytes a capsule's storage uses: nothing where its directory
    /// (`get_storage_path`) does not exist, else the total of the sizes of
    /// the files under it, or the error met while listing them.
    pub fn get_used_bytes(
        &self,
        capsule_id: &str,
        dir_exists: bool,
        file_sizes: StorageResult<Vec<u64>>,
    ) -> (r: StorageResult<u64>)
        requires
            file_sizes matches Ok(v) ==> sum_sizes(v@) <= u64::MAX,
        ensures
            !dir_exists ==> (r matches Ok(n) && n == 0),
            dir_exists ==> match file_sizes {
                Ok(v) => r matches Ok(n) && n == sum_sizes(v@),
                Err(e) => r == Err::<u64, StorageError>(e),
            },
    {
        if !dir_exists {
            return Ok(0);
        }
        match file_sizes {
            Ok(v) => Ok(total_size(&v)),
            Err(e) => Err(e),
        }
    }
}

} // verus!
