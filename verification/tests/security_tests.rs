use nacelle::audit::AuditLogger;
use nacelle::signing::{CapsuleSigner, CapsuleVerifier};

const H1: &str = "0000000000000000000000000000000000000000000000000000000000000001";
const H2: &str = "0000000000000000000000000000000000000000000000000000000000000002";

#[test]
fn daily_batch_needs_events() {
    assert_eq!(
        AuditLogger::daily_batch("2024-01-01", &vec![]).unwrap_err(),
        "No events for date 2024-01-01"
    );
}

#[test]
fn daily_batch_summarises_the_day() {
    let events = vec![(4i64, H1.to_string()), (9i64, H2.to_string())];
    let batch = AuditLogger::daily_batch("2024-01-02", &events).unwrap();
    assert_eq!(batch.date, "2024-01-02");
    assert_eq!(batch.events_count, 2);
    assert_eq!(batch.first_event_id, 4);
    assert_eq!(batch.last_event_id, 9);
    assert_eq!(
        batch.merkle_root,
        AuditLogger::compute_merkle_root(&vec![H1.to_string(), H2.to_string()])
    );
}

#[test]
fn batch_root_signing() {
    let signer = CapsuleSigner::from_key([3u8; 32], "node");
    assert!(AuditLogger::sign_batch_root("zz", &signer)
        .unwrap_err()
        .starts_with("Invalid merkle root hex: "));
    let root = AuditLogger::compute_merkle_root(&vec![H1.to_string()]);
    let (sig, fingerprint) = AuditLogger::sign_batch_root(&root, &signer).unwrap();
    assert_eq!(sig.len(), 88);
    assert_eq!(fingerprint, format!("ed25519:{}", signer.public_key()));
    let again = AuditLogger::sign_batch_root(&root, &signer).unwrap();
    assert_eq!(again.0, sig);
}

#[test]
fn batch_signature_check_compares_the_root_as_content_hash() {
    let signer = CapsuleSigner::from_key([3u8; 32], "node");
    let verifier = CapsuleVerifier::new(vec![signer.public_key()]).unwrap();
    assert!(AuditLogger::check_batch_signature("xyz", "", &verifier)
        .unwrap_err()
        .starts_with("Invalid merkle root: "));
    let root = AuditLogger::compute_merkle_root(&vec![H1.to_string(), H2.to_string()]);
    let (sig, _) = AuditLogger::sign_batch_root(&root, &signer).unwrap();
    assert_eq!(
        AuditLogger::check_batch_signature(&root, &sig, &verifier).unwrap_err(),
        "Signature verification failed: Content hash mismatch"
    );
}

use nacelle::cas::{cas_config_from_env, CasConfig};

fn some(s: &str) -> Option<String> {
    Some(s.to_string())
}

#[test]
fn cas_client_from_environment() {
    match cas_config_from_env(&some("http"), &None, &None, &None, &some("/home/u")) {
        CasConfig::Http { endpoint, cache_dir } => {
            assert_eq!(endpoint, "https://cas.ato.cloud");
            assert_eq!(cache_dir, "/home/u/.capsuled/cas-cache");
        }
        other => panic!("unexpected {:?}", other),
    }
    match cas_config_from_env(&some("http"), &some("https://c.example"), &some("/c"), &None, &None) {
        CasConfig::Http { endpoint, cache_dir } => {
            assert_eq!(endpoint, "https://c.example");
            assert_eq!(cache_dir, "/c");
        }
        other => panic!("unexpected {:?}", other),
    }
    match cas_config_from_env(&None, &None, &None, &None, &None) {
        CasConfig::Local { root } => assert_eq!(root, "/tmp/.capsuled/cas"),
        other => panic!("unexpected {:?}", other),
    }
    match cas_config_from_env(&some("s3"), &None, &None, &some("/data/cas"), &some("/home/u")) {
        CasConfig::Local { root } => assert_eq!(root, "/data/cas"),
        other => panic!("unexpected {:?}", other),
    }
}

#[test]
fn signing_at_a_given_time() {
    let signer = CapsuleSigner::from_key([5u8; 32], "pub");
    let sig = signer.sign_at(b"abc", Ok(1_700_000_000)).unwrap();
    assert_eq!(sig.signed_at, 1_700_000_000);
    assert_eq!(sig.signer, "pub");
    assert_eq!(sig.signature, signer.sign(b"abc").unwrap().signature);
    let verifier = CapsuleVerifier::new(vec![signer.public_key()]).unwrap();
    assert!(verifier.verify(b"abc", &sig).is_ok());
    assert_eq!(signer.sign_at(b"abc", Err("clock".to_string())).unwrap_err(), "clock");
}
