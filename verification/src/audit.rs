//! Audit events of security-relevant operations, with a content hash that
//! makes tampering evident.

use vstd::prelude::*;
use vstd::utf8::encode_utf8;
use crate::digest::{hex_decode, hex_decode_error, hex_decoded, to_hex_lower, hex_lower, sha256_digest, sha256_of};
use crate::manifest_verify::b64_encode;
use crate::signing::{
    ed25519_public, ed25519_signature, trusted_view, verify_fields_verdict, CapsuleSignature,
    CapsuleSigner, CapsuleVerifier,
};
use crate::text::{dec, push_string, strs_view, u64_to_string};

verus! {

#[derive(Clone, Copy, Debug, PartialEq, Eq, Structural)]
pub enum AuditOperation {
    CapsuleStart,
    StartCapsule,
    CapsuleStop,
    StopCapsule,
    CapsuleDelete,
    DeployCapsule,
    FileAccess,
    NetworkAccess,
    APIKeyUsed,
    SignatureVerified,
    SignatureRejected,
    EgressRulesApplied,
    StorageProvisioned,
    StorageCleanedUp,
    VramScrubbed,
}

/// The logged name of an operation; the two spellings of start and of stop
/// log alike.
pub open spec fn operation_name(o: AuditOperation) -> Seq<char> {
    match o {
        AuditOperation::CapsuleStart | AuditOperation::StartCapsule => "capsule_start"@,
        AuditOperation::CapsuleStop | AuditOperation::StopCapsule => "capsule_stop"@,
        AuditOperation::CapsuleDelete => "capsule_delete"@,
        AuditOperation::DeployCapsule => "deploy_capsule"@,
        AuditOperation::FileAccess => "file_access"@,
        AuditOperation::NetworkAccess => "network_access"@,
        AuditOperation::APIKeyUsed => "api_key_used"@,
        AuditOperation::SignatureVerified => "signature_verified"@,
        AuditOperation::SignatureRejected => "signature_rejected"@,
        AuditOperation::EgressRulesApplied => "egress_rules_applied"@,
        AuditOperation::StorageProvisioned => "storage_provisioned"@,
        AuditOperation::StorageCleanedUp => "storage_cleaned_up"@,
        AuditOperation::VramScrubbed => "vram_scrubbed"@,
    }
}

impl AuditOperation {
    pub fn as_str(&self) -> (r: &'static str)
        ensures
            r@ == operation_name(*self),
    {
        match self {
            AuditOperation::CapsuleStart | AuditOperation::StartCapsule => "capsule_start",
            AuditOperation::CapsuleStop | AuditOperation::StopCapsule => "capsule_stop",
            AuditOperation::CapsuleDelete => "capsule_delete",
            AuditOperation::DeployCapsule => "deploy_capsule",
            AuditOperation::FileAccess => "file_access",
            AuditOperation::NetworkAccess => "network_access",
            AuditOperation::APIKeyUsed => "api_key_used",
            AuditOperation::SignatureVerified => "signature_verified",
            AuditOperation::SignatureRejected => "signature_rejected",
            AuditOperation::EgressRulesApplied => "egress_rules_applied",
            AuditOperation::StorageProvisioned => "storage_provisioned",
            AuditOperation::StorageCleanedUp => "storage_cleaned_up",
            AuditOperation::VramScrubbed => "vram_scrubbed",
        }
    }

    pub fn to_string(&self) -> (r: String)
        ensures
            r@ == operation_name(*self),
    {
        self.as_str().to_owned()
    }
}

#[derive(Clone, Copy, Debug, PartialEq, Eq, Structural)]
pub enum AuditStatus {
    Success,
    Failure,
}

pub open spec fn status_name(s: AuditStatus) -> Seq<char> {
    match s {
        AuditStatus::Success => "success"@,
        AuditStatus::Failure => "failure"@,
    }
}

impl AuditStatus {
    pub fn as_str(&self) -> (r: &'static str)
        ensures
            r@ == status_name(*self),
    {
        match self {
            AuditStatus::Success => "success",
            AuditStatus::Failure => "failure",
        }
    }

    pub fn to_string(&self) -> (r: String)
        ensures
            r@ == status_name(*self),
    {
        self.as_str().to_owned()
    }
}

#[derive(Debug)]
pub struct AuditEvent {
    pub operation: AuditOperation,
    pub status: AuditStatus,
    pub timestamp: u64,
    pub capsule_id: Option<String>,
    pub user_id: Option<String>,
    pub details: Option<String>,
    pub content_hash: Option<String>,
}

pub open spec fn opt_text(s: Option<String>) -> Seq<char> {
    match s {
        Some(x) => x@,
        None => Seq::empty(),
    }
}

/// The hashed content of an event:
/// `timestamp|operation|status|capsule id|details`.
pub open spec fn event_content(e: AuditEvent) -> Seq<char> {
    dec(e.timestamp as nat) + "|"@ + operation_name(e.operation) + "|"@ + status_name(e.status)
        + "|"@ + opt_text(e.capsule_id) + "|"@ + opt_text(e.details)
}

fn append_opt(s: &mut String, o: &Option<String>)
    ensures
        final(s)@ == old(s)@ + opt_text(*o),
{
    match o {
        Some(x) => s.append(x.as_str()),
        None => {
            assert(s@ + Seq::<char>::empty() =~= s@);
        },
    }
}

impl AuditEvent {
    /// Set the content hash: the hex SHA-256 of the event's content in
    /// UTF-8.
    pub fn compute_hash(&mut self)
        ensures
            final(self).content_hash matches Some(h) && h@ == hex_lower(
                sha256_of(encode_utf8(event_content(*old(self)))),
            ),
            final(self).operation == old(self).operation,
            final(self).status == old(self).status,
            final(self).timestamp == old(self).timestamp,
            final(self).capsule_id == old(self).capsule_id,
            final(self).user_id == old(self).user_id,
            final(self).details == old(self).details,
    {
        let mut content = u64_to_string(self.timestamp);
        content.append("|");
        content.append(self.operation.as_str());
        content.append("|");
        content.append(self.status.as_str());
        content.append("|");
        append_opt(&mut content, &self.capsule_id);
        content.append("|");
        append_opt(&mut content, &self.details);
        assert(content@ =~= event_content(*self));
        let bytes = content.as_str().as_bytes();
        let digest = sha256_digest(bytes);
        self.content_hash = Some(to_hex_lower(digest.as_slice()));
    }
}

/// The audit log of a node. The events it keeps, and the keys it signs
/// daily batches with, live in the caller's store.
#[derive(Debug)]
pub struct AuditLogger {
    pub log_path: String,
    pub key_path: String,
    pub node_id: String,
}

/// The bytes of `empty`, hashed for a root over no events.
pub open spec fn empty_marker() -> Seq<u8> {
    seq![101u8, 109u8, 112u8, 116u8, 121u8]
}

/// Thirty-two zero bytes.
pub open spec fn zero_hash() -> Seq<u8> {
    Seq::new(32, |i: int| 0u8)
}

/// A leaf of the tree: the 32 bytes a hexadecimal hash stands for, or zero
/// bytes where it does not decode to 32 bytes.
pub open spec fn merkle_leaf(h: Seq<char>) -> Seq<u8> {
    match hex_decoded(h) {
        Some(b) => if b.len() == 32 {
            b
        } else {
            zero_hash()
        },
        None => zero_hash(),
    }
}

/// The level above: each pair hashed together, a last odd node with itself.
pub open spec fn parent_level(level: Seq<Seq<u8>>) -> Seq<Seq<u8>>
    decreases level.len(),
{
    if level.len() == 0 {
        Seq::empty()
    } else if level.len() == 1 {
        seq![sha256_of(level[0] + level[0])]
    } else {
        seq![sha256_of(level[0] + level[1])] + parent_level(level.skip(2))
    }
}

/// A level of `n` nodes has `n / 2` parents, rounded up.
pub proof fn lemma_parent_level_len(level: Seq<Seq<u8>>)
    ensures
        parent_level(level).len() == (level.len() + 1) / 2,
    decreases level.len(),
{
    if level.len() >= 2 {
        lemma_parent_level_len(level.skip(2));
    }
}

/// Each parent hashes its pair of nodes, left then right: parent `i` is
/// `sha256(level[2i] + level[2i+1])`, and a last odd node is paired with
/// itself.
pub proof fn lemma_parent_hashes_pairs(level: Seq<Seq<u8>>, i: int)
    requires
        0 <= i,
        2 * i < level.len(),
    ensures
        2 * i + 1 < level.len() ==> parent_level(level)[i] == sha256_of(level[2 * i] + level[2 * i + 1]),
        2 * i + 1 == level.len() ==> parent_level(level)[i] == sha256_of(level[2 * i] + level[2 * i]),
    decreases i,
{
    if i > 0 {
        let rest = level.skip(2);
        lemma_parent_hashes_pairs(rest, i - 1);
        assert(rest[2 * (i - 1)] == level[2 * i]);
        if 2 * i + 1 < level.len() {
            assert(rest[2 * (i - 1) + 1] == level[2 * i + 1]);
        }
        lemma_parent_level_len(rest);
        assert(parent_level(level)[i] == parent_level(rest)[i - 1]);
    }
}

/// The root over two event hashes is the hash of the first leaf followed by
/// the second, so it changes with either event.
pub proof fn lemma_two_leaf_root(a: Seq<char>, b: Seq<char>, x: Seq<u8>, y: Seq<u8>)
    requires
        hex_decoded(a) == Some(x),
        hex_decoded(b) == Some(y),
        x.len() == 32,
        y.len() == 32,
    ensures
        merkle_root(seq![a, b]) == hex_lower(sha256_of(x + y)),
{
    let leaves = Seq::new(2, |i: int| merkle_leaf(seq![a, b][i]));
    assert(leaves[0] == x);
    assert(leaves[1] == y);
    assert(leaves.len() == 2);
    assert(leaves.skip(2) =~= Seq::<Seq<u8>>::empty());
    assert(parent_level(leaves.skip(2)) =~= Seq::<Seq<u8>>::empty());
    let p = parent_level(leaves);
    assert(p =~= seq![sha256_of(x + y)]);
    assert(merkle_top(p) == sha256_of(x + y));
    assert(merkle_top(leaves) == merkle_top(p));
}

/// The top of the tree over a level.
pub open spec fn merkle_top(level: Seq<Seq<u8>>) -> Seq<u8>
    decreases level.len(),
{
    if level.len() <= 1 {
        level[0]
    } else {
        proof {
            lemma_parent_level_len(level);
        }
        merkle_top(parent_level(level))
    }
}

/// The Merkle root of a day's event hashes, in hexadecimal: over no hashes,
/// the hash of `empty`.
pub open spec fn merkle_root(hashes: Seq<Seq<char>>) -> Seq<char> {
    if hashes.len() == 0 {
        hex_lower(sha256_of(empty_marker()))
    } else {
        hex_lower(merkle_top(Seq::new(hashes.len(), |i: int| merkle_leaf(hashes[i]))))
    }
}

/// Byte strings, by views.
pub open spec fn bytes_view(v: Seq<Vec<u8>>) -> Seq<Seq<u8>> {
    Seq::new(v.len(), |i: int| v[i]@)
}

fn zeros32() -> (r: Vec<u8>)
    ensures
        r@ == zero_hash(),
{
    let mut r: Vec<u8> = Vec::new();
    let mut i: usize = 0;
    while i < 32
        invariant
            i <= 32,
            r@ == Seq::new(i as nat, |k: int| 0u8),
        decreases 32 - i,
    {
        r.push(0u8);
        assert(r@ =~= Seq::new((i + 1) as nat, |k: int| 0u8));
        i += 1;
    }
    r
}

fn concat_bytes(a: &Vec<u8>, b: &Vec<u8>) -> (r: Vec<u8>)
    ensures
        r@ == a@ + b@,
{
    let mut r: Vec<u8> = Vec::new();
    let mut i: usize = 0;
    while i < a.len()
        invariant
            i <= a@.len(),
            r@ == a@.take(i as int),
        decreases a@.len() - i,
    {
        r.push(a[i]);
        assert(r@ =~= a@.take(i + 1));
        i += 1;
    }
    let mut j: usize = 0;
    assert(a@.take(a@.len() as int) =~= a@);
    while j < b.len()
        invariant
            j <= b@.len(),
            r@ == a@ + b@.take(j as int),
        decreases b@.len() - j,
    {
        r.push(b[j]);
        assert(r@ =~= a@ + b@.take(j + 1));
        j += 1;
    }
    assert(b@.take(b@.len() as int) =~= b@);
    r
}

fn push_bytes(out: &mut Vec<Vec<u8>>, b: Vec<u8>)
    ensures
        bytes_view(final(out)@) == bytes_view(old(out)@).push(b@),
{
    let ghost bv = b@;
    out.push(b);
    assert(bytes_view(out@) =~= bytes_view(old(out)@).push(bv));
}

fn next_level(level: &Vec<Vec<u8>>) -> (r: Vec<Vec<u8>>)
    ensures
        bytes_view(r@) == parent_level(bytes_view(level@)),
{
    let ghost lv = bytes_view(level@);
    let mut next: Vec<Vec<u8>> = Vec::new();
    let mut k: usize = 0;
    assert(lv.skip(0) =~= lv);
    assert(Seq::<Seq<u8>>::empty() + parent_level(lv) =~= parent_level(lv));
    while k < level.len()
        invariant
            lv == bytes_view(level@),
            k <= level@.len(),
            bytes_view(next@) + parent_level(lv.skip(k as int)) == parent_level(lv),
        decreases level@.len() - k,
    {
        let ghost rest = lv.skip(k as int);
        let ghost before = bytes_view(next@);
        if k + 1 < level.len() {
            let joined = concat_bytes(&level[k], &level[k + 1]);
            let h = sha256_digest(joined.as_slice());
            assert(rest[0] == lv[k as int] && rest[1] == lv[k + 1]);
            assert(rest.skip(2) =~= lv.skip(k + 2));
            push_bytes(&mut next, h);
            assert(bytes_view(next@) + parent_level(lv.skip(k + 2)) =~= before + parent_level(rest));
            k += 2;
        } else {
            let joined = concat_bytes(&level[k], &level[k]);
            let h = sha256_digest(joined.as_slice());
            assert(rest.len() == 1 && rest[0] == lv[k as int]);
            assert(lv.skip(k + 1).len() == 0);
            push_bytes(&mut next, h);
            assert(bytes_view(next@) + parent_level(lv.skip(k + 1)) =~= before + parent_level(rest));
            k += 1;
        }
    }
    assert(lv.skip(k as int).len() == 0);
    assert(bytes_view(next@) + parent_level(lv.skip(k as int)) =~= bytes_view(next@));
    next
}

impl AuditLogger {
    /// The Merkle root of a day's event hashes (hexadecimal SHA-256): leaves
    /// are the hashes' bytes, pairs are hashed level by level, a last odd
    /// node with itself.
    pub fn compute_merkle_root(hashes: &Vec<String>) -> (r: String)
        ensures
            r@ == merkle_root(strs_view(hashes@)),
    {
        if hashes.len() == 0 {
            let marker: Vec<u8> = vec![101u8, 109u8, 112u8, 116u8, 121u8];
            assert(marker@ =~= empty_marker());
            let d = sha256_digest(marker.as_slice());
            return to_hex_lower(d.as_slice());
        }
        let ghost hv = strs_view(hashes@);
        let mut level: Vec<Vec<u8>> = Vec::new();
        let mut i: usize = 0;
        while i < hashes.len()
            invariant
                hv == strs_view(hashes@),
                i <= hashes@.len(),
                bytes_view(level@) == Seq::new(i as nat, |k: int| merkle_leaf(hv[k])),
            decreases hashes@.len() - i,
        {
            let leaf = match hex_decode(hashes[i].as_str()) {
                Ok(b) => if b.len() == 32 {
                    b
                } else {
                    zeros32()
                },
                Err(_) => zeros32(),
            };
            assert(leaf@ == merkle_leaf(hv[i as int]));
            push_bytes(&mut level, leaf);
            assert(bytes_view(level@) =~= Seq::new((i + 1) as nat, |k: int| merkle_leaf(hv[k])));
            i += 1;
        }
        let ghost leaves = bytes_view(level@);
        while level.len() > 1
            invariant
                level@.len() >= 1,
                merkle_top(bytes_view(level@)) == merkle_top(leaves),
            decreases level@.len(),
        {
            let ghost lv = bytes_view(level@);
            proof {
                lemma_parent_level_len(lv);
            }
            let next = next_level(&level);
            assert(merkle_top(lv) == merkle_top(parent_level(lv)));
            level = next;
        }
        assert(bytes_view(level@)[0] == level@[0]@);
        to_hex_lower(level[0].as_slice())
    }
}

// ---------------------------------------------------------------------------
// Daily batches

/// The content hashes of a day's events (id, hash), in order.
pub open spec fn event_hashes(events: Seq<(i64, String)>) -> Seq<Seq<char>> {
    events.map_values(|e: (i64, String)| e.1@)
}

/// A day's batch of audit events: how many, the first and last event ids,
/// and the Merkle root of their hashes.
#[derive(Debug)]
pub struct DailyBatch {
    pub date: String,
    pub events_count: usize,
    pub first_event_id: i64,
    pub last_event_id: i64,
    pub merkle_root: String,
}

impl AuditLogger {
    /// The batch for `date` from its events (id and content hash, by id);
    /// a day without events has no batch.
    pub fn daily_batch(date: &str, events: &Vec<(i64, String)>) -> (r: Result<DailyBatch, String>)
        ensures
            r is Err <==> events@.len() == 0,
            r matches Err(e) ==> e@ == "No events for date "@ + date@,
            r matches Ok(b) ==> {
                &&& b.date@ == date@
                &&& b.events_count == events@.len()
                &&& b.first_event_id == events@[0].0
                &&& b.last_event_id == events@.last().0
                &&& b.merkle_root@ == merkle_root(event_hashes(events@))
            },
    {
        if events.len() == 0 {
            let mut m = String::from_str("No events for date ");
            m.append(date);
            return Err(m);
        }
        let mut hashes: Vec<String> = Vec::new();
        let mut i: usize = 0;
        while i < events.len()
            invariant
                i <= events@.len(),
                strs_view(hashes@) == event_hashes(events@).take(i as int),
            decreases events@.len() - i,
        {
            let (_id, h) = &events[i];
            let hc = h.clone();
            assert(hc@ == event_hashes(events@)[i as int]);
            push_string(&mut hashes, hc);
            assert(strs_view(hashes@) =~= event_hashes(events@).take(i + 1));
            i += 1;
        }
        assert(event_hashes(events@).take(events@.len() as int) =~= event_hashes(events@));
        let root = AuditLogger::compute_merkle_root(&hashes);
        let n = events.len();
        Ok(DailyBatch {
            date: date.to_owned(),
            events_count: n,
            first_event_id: events[0].0,
            last_event_id: events[n - 1].0,
            merkle_root: root,
        })
    }

    /// Sign a batch's Merkle root (its bytes) with `signer`: the base64
    /// signature and the signer's fingerprint (`ed25519:` and its base64
    /// public key).
    pub fn sign_batch_root(merkle_root: &str, signer: &CapsuleSigner) -> (r: Result<(String, String), String>)
        ensures
            hex_decoded(merkle_root@) is None ==> (r matches Err(e) && e@ == "Invalid merkle root hex: "@
                + hex_decode_error(merkle_root@)),
            r matches Ok((sig, fingerprint)) ==> {
                &&& hex_decoded(merkle_root@) matches Some(b)
                &&& sig@ == b64_encode(ed25519_signature(signer.secret(), b))
                &&& fingerprint@ == "ed25519:"@ + b64_encode(ed25519_public(signer.secret()))
            },
    {
        let bytes = match hex_decode(merkle_root) {
            Ok(b) => b,
            Err(e) => {
                let mut m = String::from_str("Invalid merkle root hex: ");
                m.append(e.as_str());
                return Err(m);
            },
        };
        let signature = match signer.sign(bytes.as_slice()) {
            Ok(s) => s,
            Err(e) => {
                let mut m = String::from_str("Signing failed: ");
                m.append(e.as_str());
                return Err(m);
            },
        };
        let mut fingerprint = String::from_str("ed25519:");
        let pk = signer.public_key();
        fingerprint.append(pk.as_str());
        Ok((signature.signature, fingerprint))
    }

    /// Check a stored batch signature: the root's bytes are verified against
    /// `verifier` as a signature whose content hash is the root itself and
    /// whose public key is empty.
    pub fn check_batch_signature(merkle_root: &str, signature_b64: &str, verifier: &CapsuleVerifier) -> (r: Result<
        (),
        String,
    >)
        ensures
            match hex_decoded(merkle_root@) {
                None => r matches Err(e) && e@ == "Invalid merkle root: "@ + hex_decode_error(merkle_root@),
                Some(b) => match verify_fields_verdict(
                    trusted_view(verifier.trusted_keys@),
                    b,
                    "ed25519"@,
                    merkle_root@,
                    Seq::empty(),
                    signature_b64@,
                ) {
                    Ok(_) => r is Ok,
                    Err(e) => r matches Err(m) && m@ == "Signature verification failed: "@ + e,
                },
            },
    {
        let bytes = match hex_decode(merkle_root) {
            Ok(b) => b,
            Err(e) => {
                let mut m = String::from_str("Invalid merkle root: ");
                m.append(e.as_str());
                return Err(m);
            },
        };
        let sig = CapsuleSignature {
            algorithm: "ed25519".to_owned(),
            signature: signature_b64.to_owned(),
            content_hash: merkle_root.to_owned(),
            public_key: String::new(),
            signer: String::new(),
            signed_at: 0,
            transparency_log_url: None,
        };
        proof {
            reveal_strlit("");
            assert(sig.public_key@ =~= Seq::<char>::empty());
        }
        match verifier.verify(bytes.as_slice(), &sig) {
            Ok(()) => Ok(()),
            Err(e) => {
                let mut m = String::from_str("Signature verification failed: ");
                m.append(e.as_str());
                Err(m)
            },
        }
    }
}

} // verus!
