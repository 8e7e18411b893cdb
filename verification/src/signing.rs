//! Signatures of capsule manifests (Ed25519) and the set of trusted keys.

use vstd::prelude::*;
use base64::Engine;
use ed25519_dalek::{Signer, Verifier};
use crate::manifest_verify::{b64_encode, base64_encode};
use crate::digest::{to_hex_lower, hex_lower, sha256_digest, sha256_of};
use crate::strmap::{keys_distinct, lemma_entry_in_map, StrMap};
use crate::text::{str_eq, strs_view};

verus! {

/// What standard base64 decoding (with padding) gives for a text, if it is
/// valid base64.
pub uninterp spec fn base64_standard_decode(s: Seq<char>) -> Option<Seq<u8>>;

/// The message of the decoder's error for a text that is not valid base64.
pub uninterp spec fn base64_decode_error(s: Seq<char>) -> Seq<char>;

/// `base64::engine::general_purpose::STANDARD.decode`: the decoded bytes, or
/// the decoder's error message, both named.
#[verifier::external_body]
fn base64_decode(s: &str) -> (r: Result<Vec<u8>, String>)
    ensures
        r is Ok <==> base64_standard_decode(s@) is Some,
        r matches Ok(v) ==> base64_standard_decode(s@) == Some(v@),
        r matches Err(e) ==> e@ == base64_decode_error(s@),
{
    base64::engine::general_purpose::STANDARD.decode(s).map_err(|e| e.to_string())
}

/// Whether 32 bytes are the compressed encoding of a valid Ed25519 point.
pub uninterp spec fn ed25519_point_valid(bytes: Seq<u8>) -> bool;

/// The message of the error for 32 bytes that encode no valid point.
pub uninterp spec fn ed25519_key_error(bytes: Seq<u8>) -> Seq<char>;

/// `ed25519_dalek::VerifyingKey::from_bytes`: whether the 32 bytes decompress
/// to a point, and the error's message where they do not.
#[verifier::external_body]
fn check_verifying_key(bytes: &[u8]) -> (r: Result<(), String>)
    requires
        bytes@.len() == 32,
    ensures
        r is Ok <==> ed25519_point_valid(bytes@),
        r matches Err(e) ==> e@ == ed25519_key_error(bytes@),
{
    let arr: [u8; 32] = bytes.try_into().unwrap();
    ed25519_dalek::VerifyingKey::from_bytes(&arr).map(|_k| ()).map_err(|e| e.to_string())
}

/// `ed25519_dalek::Signature::from_slice`: succeeds exactly for 64 bytes (the
/// crate converts the slice to a 64-byte array); the error, made without a
/// source, displays as `signature error`.
#[verifier::external_body]
fn check_signature_bytes(bytes: &[u8]) -> (r: Result<(), String>)
    ensures
        r is Ok <==> bytes@.len() == 64,
        r matches Err(e) ==> e@ == "signature error"@,
{
    ed25519_dalek::Signature::from_slice(bytes).map(|_s| ()).map_err(|e| e.to_string())
}

/// Whether `sig` is a valid Ed25519 signature of `message` under the key
/// encoded by `key` (as `VerifyingKey::verify` decides).
pub uninterp spec fn ed25519_verifies(key: Seq<u8>, message: Seq<u8>, sig: Seq<u8>) -> bool;

/// The message of the error for a signature that does not verify.
pub uninterp spec fn ed25519_verify_error(key: Seq<u8>, message: Seq<u8>, sig: Seq<u8>) -> Seq<char>;

/// `ed25519_dalek::VerifyingKey::verify` (through the `Verifier` trait), on
/// the key and signature decoded from their bytes: the outcome and the
/// error's message are named.
#[verifier::external_body]
fn verify_signature(key: &[u8], message: &[u8], sig: &[u8]) -> (r: Result<(), String>)
    requires
        key@.len() == 32,
        ed25519_point_valid(key@),
        sig@.len() == 64,
    ensures
        r is Ok <==> ed25519_verifies(key@, message@, sig@),
        r matches Err(e) ==> e@ == ed25519_verify_error(key@, message@, sig@),
{
    let arr: [u8; 32] = key.try_into().unwrap();
    let vk = ed25519_dalek::VerifyingKey::from_bytes(&arr).unwrap();
    let s = ed25519_dalek::Signature::from_slice(sig).unwrap();
    vk.verify(message, &s).map_err(|e| e.to_string())
}

/// The encoded public key of an Ed25519 secret key.
pub uninterp spec fn ed25519_public(secret: Seq<u8>) -> Seq<u8>;

/// `SigningKey::from_bytes(secret).verifying_key().to_bytes()`: the public
/// key, named; it is 32 bytes that encode a valid point (a verifying key holds
/// the decompressed point it was made from).
#[verifier::external_body]
fn public_key_of(secret: &[u8]) -> (r: Vec<u8>)
    requires
        secret@.len() == 32,
    ensures
        r@ == ed25519_public(secret@),
        r@.len() == 32,
        ed25519_point_valid(r@),
{
    let arr: [u8; 32] = secret.try_into().unwrap();
    ed25519_dalek::SigningKey::from_bytes(&arr).verifying_key().to_bytes().to_vec()
}

/// The Ed25519 signature of a message under a secret key.
pub uninterp spec fn ed25519_signature(secret: Seq<u8>, message: Seq<u8>) -> Seq<u8>;

/// `Signer::sign` on `SigningKey::from_bytes(secret)`, as 64 bytes: the
/// signature is named, and it verifies under the key's own public key (what a
/// signature scheme promises of its signatures).
#[verifier::external_body]
fn sign_message(secret: &[u8], message: &[u8]) -> (r: Vec<u8>)
    requires
        secret@.len() == 32,
    ensures
        r@ == ed25519_signature(secret@, message@),
        r@.len() == 64,
        ed25519_verifies(ed25519_public(secret@), message@, r@),
{
    let arr: [u8; 32] = secret.try_into().unwrap();
    ed25519_dalek::SigningKey::from_bytes(&arr).sign(message).to_bytes().to_vec()
}

/// `SigningKey::generate` with `rand::thread_rng()`: a fresh random secret
/// key, as its 32 bytes. Only the length is stated.
#[verifier::external_body]
fn random_secret() -> (r: Vec<u8>)
    ensures
        r@.len() == 32,
{
    let mut rng = rand::thread_rng();
    ed25519_dalek::SigningKey::generate(&mut rng).to_bytes().to_vec()
}

/// `SystemTime::now().duration_since(UNIX_EPOCH)` in whole seconds, or the
/// error's message for a clock set before the epoch. Nothing is stated of
/// the time.
#[verifier::external_body]
fn unix_now_secs() -> (r: Result<u64, String>) {
    std::time::SystemTime::now()
        .duration_since(std::time::UNIX_EPOCH)
        .map(|d| d.as_secs())
        .map_err(|e| e.to_string())
}

/// Signature metadata of a capsule.
#[derive(Debug)]
pub struct CapsuleSignature {
    /// Signature algorithm (`ed25519`).
    pub algorithm: String,
    /// Base64 signature.
    pub signature: String,
    /// Hex SHA-256 of the signed content.
    pub content_hash: String,
    /// Base64 public key.
    pub public_key: String,
    pub signer: String,
    /// When it was signed (Unix seconds).
    pub signed_at: u64,
    pub transparency_log_url: Option<String>,
}

// ---------------------------------------------------------------------------
// Signing

/// Signs capsule content with an Ed25519 secret key.
#[derive(Debug)]
pub struct CapsuleSigner {
    signing_key: Vec<u8>,
    signer_name: String,
}

impl CapsuleSigner {
    #[verifier::type_invariant]
    spec fn key_is_secret(self) -> bool {
        self.signing_key@.len() == 32
    }

    /// The 32 bytes of the secret key.
    pub closed spec fn secret(&self) -> Seq<u8> {
        self.signing_key@
    }

    /// The signer's name.
    pub closed spec fn name(&self) -> Seq<char> {
        self.signer_name@
    }

    /// A signer with a fresh random key.
    pub fn new(signer_name: &str) -> (s: Self)
        ensures
            s.name() == signer_name@,
            s.secret().len() == 32,
    {
        let k = random_secret();
        CapsuleSigner { signing_key: k, signer_name: signer_name.to_owned() }
    }

    /// A signer with the given secret key.
    pub fn from_key(signing_key: [u8; 32], signer_name: &str) -> (s: Self)
        ensures
            s.secret() == signing_key@,
            s.name() == signer_name@,
    {
        let mut k: Vec<u8> = Vec::new();
        let mut i: usize = 0;
        while i < 32
            invariant
                i <= 32,
                k@ == signing_key@.take(i as int),
            decreases 32 - i,
        {
            k.push(signing_key[i]);
            assert(k@ =~= signing_key@.take(i + 1));
            i += 1;
        }
        assert(signing_key@.take(32) =~= signing_key@);
        CapsuleSigner { signing_key: k, signer_name: signer_name.to_owned() }
    }

    /// The base64 public key, for distribution.
    pub fn public_key(&self) -> (r: String)
        ensures
            r@ == b64_encode(ed25519_public(self.secret())),
            base64_standard_decode(r@) == Some(ed25519_public(self.secret())),
    {
        proof {
            use_type_invariant(self);
        }
        let pk = public_key_of(self.signing_key.as_slice());
        base64_encode(pk.as_slice())
    }

    /// The secret key's bytes.
    pub fn export_private_key_bytes(&self) -> (r: Vec<u8>)
        ensures
            r@ == self.secret(),
    {
        self.signing_key.clone()
    }

    /// Sign `content`: its SHA-256 in hex, the Ed25519 signature of the
    /// content and the public key (both base64), the signer's name and the
    /// time. Such a signature is accepted by every verifier that trusts this
    /// signer's key, for this content. Reading the clock is the only step
    /// that can fail (see `sign_at`).
    pub fn sign(&self, content: &[u8]) -> (r: Result<CapsuleSignature, String>)
        ensures
            r matches Ok(sig) ==> signed_by(sig, self.secret(), self.name(), content@),
    {
        let now = unix_now_secs();
        self.sign_at(content, now)
    }

    /// Sign `content` at the time `now` read from the clock (or the clock's
    /// error, which is passed on).
    pub fn sign_at(&self, content: &[u8], now: Result<u64, String>) -> (r: Result<CapsuleSignature, String>)
        ensures
            match now {
                Ok(t) => r matches Ok(sig) && signed_by(sig, self.secret(), self.name(), content@)
                    && sig.signed_at == t,
                Err(e) => r matches Err(m) && m@ == e@,
            },
    {
        proof {
            use_type_invariant(self);
        }
        let d = sha256_digest(content);
        let content_hash = to_hex_lower(d.as_slice());
        let sig_bytes = sign_message(self.signing_key.as_slice(), content);
        let pk = public_key_of(self.signing_key.as_slice());
        let public_key = base64_encode(pk.as_slice());
        let signature = base64_encode(sig_bytes.as_slice());
        let t = match now {
            Ok(t) => t,
            Err(e) => return Err(e),
        };
        let sig = CapsuleSignature {
            algorithm: "ed25519".to_owned(),
            signature,
            content_hash,
            public_key,
            signer: self.signer_name.clone(),
            signed_at: t,
            transparency_log_url: None,
        };
        proof {
            reveal_strlit("ed25519");
        }
        Ok(sig)
    }
}

/// `sig` is the signature of `content` by the key `secret` of the signer
/// `name`: its fields, and that every verifier trusting the key accepts it
/// for this content.
pub open spec fn signed_by(sig: CapsuleSignature, secret: Seq<u8>, name: Seq<char>, content: Seq<u8>) -> bool {
    &&& sig.algorithm@ == "ed25519"@
    &&& sig.content_hash@ == hex_lower(sha256_of(content))
    &&& sig.signature@ == b64_encode(ed25519_signature(secret, content))
    &&& sig.public_key@ == b64_encode(ed25519_public(secret))
    &&& sig.signer@ == name
    &&& sig.transparency_log_url is None
    &&& forall|trusted: Seq<Seq<u8>>|
        #[trigger] trusted.contains(ed25519_public(secret)) ==> verify_verdict(trusted, content, sig) is Ok
}

// ---------------------------------------------------------------------------
// Verification

/// Checks signatures against a set of trusted keys.
#[derive(Debug)]
pub struct CapsuleVerifier {
    /// Encodings of the trusted keys, each a valid point.
    pub trusted_keys: Vec<Vec<u8>>,
}

/// Every trusted key decodes and is a valid 32-byte key.
pub open spec fn keys_accepted(keys: Seq<String>) -> bool {
    forall|i: int|
        0 <= i < keys.len() ==> match #[trigger] base64_standard_decode(keys[i]@) {
            Some(b) => b.len() == 32 && ed25519_point_valid(b),
            None => false,
        }
}

/// The byte encodings of a list of base64 keys.
pub open spec fn key_bytes(keys: Seq<String>) -> Seq<Seq<u8>> {
    Seq::new(keys.len(), |i: int| base64_standard_decode(keys[i]@).unwrap())
}

/// The first refusal among `keys`, if any: a key that is no base64, is not 32
/// bytes long or encodes no valid point.
pub open spec fn keys_verdict(keys: Seq<String>) -> Result<(), Seq<char>>
    decreases keys.len(),
{
    if keys.len() == 0 {
        Ok(())
    } else {
        match key_verdict(keys[0]@) {
            Err(e) => Err(e),
            Ok(_) => keys_verdict(keys.drop_first()),
        }
    }
}

/// Whether one base64 key is accepted, and the refusal if not.
pub open spec fn key_verdict(key: Seq<char>) -> Result<Seq<u8>, Seq<char>> {
    match base64_standard_decode(key) {
        None => Err("Invalid base64 public key: "@ + base64_decode_error(key)),
        Some(b) => if b.len() != 32 {
            Err("Public key must be 32 bytes"@)
        } else if !ed25519_point_valid(b) {
            Err("Invalid Ed25519 public key: "@ + ed25519_key_error(b))
        } else {
            Ok(b)
        },
    }
}

/// The views of a verifier's trusted keys.
pub open spec fn trusted_view(keys: Seq<Vec<u8>>) -> Seq<Seq<u8>> {
    keys.map_values(|k: Vec<u8>| k@)
}

/// What verifying `sig` of `content` against the `trusted` key encodings
/// gives: the algorithm must be `ed25519`, the content hash must match, the
/// public key must decode to a valid key among the trusted, and the signature
/// must decode to 64 bytes that verify; the first check that fails is
/// reported.
pub open spec fn verify_verdict(trusted: Seq<Seq<u8>>, content: Seq<u8>, sig: CapsuleSignature) -> Result<
    (),
    Seq<char>,
> {
    verify_fields_verdict(trusted, content, sig.algorithm@, sig.content_hash@, sig.public_key@, sig.signature@)
}

/// `verify_verdict` over the fields of the signature that it reads.
pub open spec fn verify_fields_verdict(
    trusted: Seq<Seq<u8>>,
    content: Seq<u8>,
    algorithm: Seq<char>,
    content_hash: Seq<char>,
    public_key: Seq<char>,
    signature: Seq<char>,
) -> Result<(), Seq<char>> {
    if algorithm != "ed25519"@ {
        Err("Unsupported signature algorithm: "@ + algorithm)
    } else if hex_lower(sha256_of(content)) != content_hash {
        Err("Content hash mismatch"@)
    } else {
        match key_verdict(public_key) {
            Err(e) => Err(e),
            Ok(k) => if !trusted.contains(k) {
                Err("Public key not in trusted set"@)
            } else {
                match base64_standard_decode(signature) {
                    None => Err("Invalid base64 signature: "@ + base64_decode_error(signature)),
                    Some(s) => if s.len() != 64 {
                        Err("Invalid signature format: "@ + "signature error"@)
                    } else if !ed25519_verifies(k, content, s) {
                        Err("Signature verification failed: "@ + ed25519_verify_error(k, content, s))
                    } else {
                        Ok(())
                    },
                }
            },
        }
    }
}

/// Whether a `Result<(), String>` agrees with a verdict.
pub open spec fn outcome_is(r: Result<(), String>, v: Result<(), Seq<char>>) -> bool {
    match (r, v) {
        (Ok(_), Ok(_)) => true,
        (Err(a), Err(b)) => a@ == b,
        _ => false,
    }
}

/// Check one base64 key, giving its bytes.
fn accept_key(key: &str) -> (r: Result<Vec<u8>, String>)
    ensures
        match (r, key_verdict(key@)) {
            (Ok(b), Ok(c)) => b@ == c,
            (Err(a), Err(c)) => a@ == c,
            _ => false,
        },
{
    let b = match base64_decode(key) {
        Ok(b) => b,
        Err(e) => {
            let mut m = String::from_str("Invalid base64 public key: ");
            m.append(e.as_str());
            return Err(m);
        },
    };
    if b.len() != 32 {
        return Err("Public key must be 32 bytes".to_owned());
    }
    match check_verifying_key(b.as_slice()) {
        Ok(()) => Ok(b),
        Err(e) => {
            let mut m = String::from_str("Invalid Ed25519 public key: ");
            m.append(e.as_str());
            Err(m)
        },
    }
}

impl CapsuleVerifier {
    /// A verifier trusting the given base64 keys; the first key that does not
    /// decode, is not 32 bytes long or is no valid point is refused.
    pub fn new(trusted_public_keys: Vec<String>) -> (r: Result<CapsuleVerifier, String>)
        ensures
            r is Ok <==> keys_accepted(trusted_public_keys@),
            r matches Err(e) ==> keys_verdict(trusted_public_keys@) == Err::<(), Seq<char>>(e@),
            r matches Ok(v) ==> trusted_view(v.trusted_keys@) == key_bytes(trusted_public_keys@),
    {
        let ghost keys = trusted_public_keys@;
        let mut out: Vec<Vec<u8>> = Vec::new();
        let mut i: usize = 0;
        assert(keys.skip(0) =~= keys);
        while i < trusted_public_keys.len()
            invariant
                keys == trusted_public_keys@,
                i <= keys.len(),
                out@.len() == i,
                forall|k: int|
                    0 <= k < i ==> match #[trigger] base64_standard_decode(keys[k]@) {
                        Some(b) => b.len() == 32 && ed25519_point_valid(b),
                        None => false,
                    },
                forall|k: int| 0 <= k < i ==> (#[trigger] out@[k])@ == key_bytes(keys)[k],
                keys_verdict(keys) == keys_verdict(keys.skip(i as int)),
            decreases keys.len() - i,
        {
            assert(keys.skip(i as int)[0] == keys[i as int]);
            assert(keys.skip(i as int).drop_first() =~= keys.skip(i + 1));
            let b = match accept_key(trusted_public_keys[i].as_str()) {
                Ok(b) => b,
                Err(e) => {
                    proof {
                        assert(!(base64_standard_decode(keys[i as int]@) matches Some(c) && c.len() == 32
                            && ed25519_point_valid(c)));
                    }
                    return Err(e);
                },
            };
            out.push(b);
            i += 1;
        }
        assert(trusted_view(out@) =~= key_bytes(keys));
        Ok(CapsuleVerifier { trusted_keys: out })
    }

    /// Verify a capsule signature of `content` (see `verify_verdict`).
    pub fn verify(&self, content: &[u8], sig: &CapsuleSignature) -> (r: Result<(), String>)
        ensures
            outcome_is(r, verify_verdict(trusted_view(self.trusted_keys@), content@, *sig)),
    {
        if !str_eq(sig.algorithm.as_str(), "ed25519") {
            let mut m = String::from_str("Unsupported signature algorithm: ");
            m.append(sig.algorithm.as_str());
            return Err(m);
        }
        let d = sha256_digest(content);
        let computed = to_hex_lower(d.as_slice());
        if !str_eq(computed.as_str(), sig.content_hash.as_str()) {
            return Err("Content hash mismatch".to_owned());
        }
        let kb = match accept_key(sig.public_key.as_str()) {
            Ok(b) => b,
            Err(e) => return Err(e),
        };
        let trusted = contains_bytes(&self.trusted_keys, kb.as_slice());
        proof {
            let tv = trusted_view(self.trusted_keys@);
            if tv.contains(kb@) {
                let j = choose|j: int| 0 <= j < tv.len() && tv[j] == kb@;
                assert(self.trusted_keys@[j]@ == kb@);
            }
            if trusted {
                let j = choose|j: int| 0 <= j < self.trusted_keys@.len() && #[trigger] self.trusted_keys@[j]@ == kb@;
                assert(tv[j] == kb@);
            }
        }
        if !trusted {
            return Err("Public key not in trusted set".to_owned());
        }
        let sb = match base64_decode(sig.signature.as_str()) {
            Ok(b) => b,
            Err(e) => {
                let mut m = String::from_str("Invalid base64 signature: ");
                m.append(e.as_str());
                return Err(m);
            },
        };
        match check_signature_bytes(sb.as_slice()) {
            Ok(()) => {},
            Err(e) => {
                let mut m = String::from_str("Invalid signature format: ");
                m.append(e.as_str());
                return Err(m);
            },
        }
        match verify_signature(kb.as_slice(), content, sb.as_slice()) {
            Ok(()) => Ok(()),
            Err(e) => {
                let mut m = String::from_str("Signature verification failed: ");
                m.append(e.as_str());
                Err(m)
            },
        }
    }

    /// Same as `verify`.
    pub fn verify_with_discovery(&self, content: &[u8], sig: &CapsuleSignature) -> (r: Result<(), String>)
        ensures
            outcome_is(r, verify_verdict(trusted_view(self.trusted_keys@), content@, *sig)),
    {
        self.verify(content, sig)
    }
}

fn contains_bytes(list: &Vec<Vec<u8>>, b: &[u8]) -> (r: bool)
    ensures
        r == exists|i: int| 0 <= i < list@.len() && #[trigger] list@[i]@ == b@,
{
    let mut i: usize = 0;
    while i < list.len()
        invariant
            i <= list@.len(),
            forall|q: int| 0 <= q < i ==> #[trigger] list@[q]@ != b@,
        decreases list@.len() - i,
    {
        if bytes_eq(list[i].as_slice(), b) {
            return true;
        }
        i += 1;
    }
    false
}

fn bytes_eq(a: &[u8], b: &[u8]) -> (r: bool)
    ensures
        r == (a@ == b@),
{
    if a.len() != b.len() {
        return false;
    }
    let mut i: usize = 0;
    while i < a.len()
        invariant
            a@.len() == b@.len(),
            i <= a@.len(),
            forall|k: int| 0 <= k < i ==> a@[k] == b@[k],
        decreases a@.len() - i,
    {
        if a[i] != b[i] {
            return false;
        }
        i += 1;
    }
    assert(a@ =~= b@);
    true
}

// ---------------------------------------------------------------------------
// Trusted publishers

/// Public keys of trusted publishers, by publisher name.
#[derive(Debug)]
pub struct TrustedKeyStore {
    keys: StrMap<String>,
}

impl TrustedKeyStore {
    /// The keys by publisher.
    pub closed spec fn publishers(&self) -> Map<Seq<char>, String> {
        self.keys.view_map()
    }

    /// The keys, in the order their publishers were first added.
    pub closed spec fn key_list(&self) -> Seq<Seq<char>> {
        Seq::new(self.keys.entries().len(), |i: int| self.keys.entries()[i].1@)
    }

    pub fn new() -> (s: Self)
        ensures
            s.publishers() == Map::<Seq<char>, String>::empty(),
            s.key_list() == Seq::<Seq<char>>::empty(),
    {
        let s = TrustedKeyStore { keys: StrMap::new() };
        assert(s.key_list() =~= Seq::<Seq<char>>::empty());
        s
    }

    /// Trust `public_key` for publisher `name` (replacing an earlier key).
    pub fn add_publisher(&mut self, name: &str, public_key: &str)
        ensures
            final(self).publishers().dom() == old(self).publishers().dom().insert(name@),
            final(self).publishers()[name@]@ == public_key@,
            forall|p: Seq<char>| p != name@ && #[trigger] old(self).publishers().dom().contains(p) ==> final(self).publishers()[p] == old(self).publishers()[p],
            !old(self).publishers().dom().contains(name@) ==> final(self).key_list() == old(self).key_list().push(
                public_key@,
            ),
            old(self).publishers().dom().contains(name@) ==> exists|i: int|
                0 <= i < old(self).key_list().len() && final(self).key_list()
                    == #[trigger] old(self).key_list().update(i, public_key@),
    {
        let ghost e0 = self.keys.entries();
        let k = name.to_owned();
        let v = public_key.to_owned();
        let ghost kg = k;
        let ghost vg = v;
        self.keys.insert(k, v);
        proof {
            let e1 = self.keys.entries();
            if !old(self).publishers().dom().contains(name@) {
                assert(self.key_list() =~= old(self).key_list().push(public_key@));
            } else {
                let i = choose|i: int|
                    0 <= i < e0.len() && (#[trigger] e0[i]).0@ == kg@ && e1 == e0.update(i, (kg, vg));
                assert(self.key_list() =~= old(self).key_list().update(i, public_key@));
            }
        }
    }

    /// All trusted keys.
    pub fn get_all_keys(&self) -> (r: Vec<String>)
        ensures
            strs_view(r@) == self.key_list(),
    {
        let n = self.keys.len();
        let mut r: Vec<String> = Vec::new();
        let mut i: usize = 0;
        while i < n
            invariant
                n == self.keys.entries().len(),
                i <= n,
                r@.len() == i,
                forall|k: int| 0 <= k < i ==> #[trigger] r@[k]@ == self.keys.entries()[k].1@,
            decreases n - i,
        {
            let (_name, key) = self.keys.entry_at(i);
            r.push(key.clone());
            i += 1;
        }
        assert(strs_view(r@) =~= self.key_list());
        r
    }

    /// Whether some publisher has this key.
    pub fn is_trusted(&self, public_key: &str) -> (b: bool)
        ensures
            b == self.key_list().contains(public_key@),
            b == exists|p: Seq<char>|
                #[trigger] self.publishers().dom().contains(p) && self.publishers()[p]@ == public_key@,
    {
        let n = self.keys.len();
        let ghost e = self.keys.entries();
        let mut i: usize = 0;
        while i < n
            invariant
                n == self.keys.entries().len(),
                e == self.keys.entries(),
                keys_distinct(e),
                i <= n,
                forall|k: int| 0 <= k < i ==> #[trigger] self.keys.entries()[k].1@ != public_key@,
            decreases n - i,
        {
            let (_name, key) = self.keys.entry_at(i);
            if str_eq(key.as_str(), public_key) {
                assert(self.key_list()[i as int] == public_key@);
                proof {
                    lemma_entry_in_map(e, i as int);
                    assert(self.publishers().dom().contains(e[i as int].0@));
                }
                return true;
            }
            i += 1;
        }
        proof {
            if self.key_list().contains(public_key@) {
                let k = choose|k: int| 0 <= k < self.key_list().len() && self.key_list()[k] == public_key@;
                assert(self.keys.entries()[k].1@ == public_key@);
            }
            if exists|p: Seq<char>| #[trigger] self.publishers().dom().contains(p) && self.publishers()[p]@ == public_key@ {
                let p = choose|p: Seq<char>| #[trigger] self.publishers().dom().contains(p) && self.publishers()[p]@ == public_key@;
                let j = choose|j: int| 0 <= j < e.len() && e[j].0@ == p;
                lemma_entry_in_map(e, j);
            }
        }
        false
    }
}

impl Default for TrustedKeyStore {
    fn default() -> (s: Self)
        ensures
            s.publishers() == Map::<Seq<char>, String>::empty(),
    {
        TrustedKeyStore::new()
    }
}

} // verus!
