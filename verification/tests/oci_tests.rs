use nacelle::artifact_cache::ArtifactCache;
use nacelle::image::ImageManager;
use nacelle::ingest::{filename_from_url, normalize_hex};
use nacelle::oci_cache::{check_layer, CacheError, LayerCache};
use nacelle::oci_layer::{classify_layer_entry, EntryAction};
use nacelle::registry::ImageRef;
use nacelle::signing::{CapsuleSigner, CapsuleVerifier, TrustedKeyStore};

#[test]
fn test_image_ref_parse_simple() {
    let img = ImageRef::parse("nginx").unwrap();
    assert_eq!(img.registry, "registry-1.docker.io");
    assert_eq!(img.repository, "library/nginx");
    assert_eq!(img.tag, "latest");
}

#[test]
fn test_image_ref_parse_with_tag() {
    let img = ImageRef::parse("nginx:1.25").unwrap();
    assert_eq!(img.registry, "registry-1.docker.io");
    assert_eq!(img.repository, "library/nginx");
    assert_eq!(img.tag, "1.25");
}

#[test]
fn test_image_ref_parse_with_namespace() {
    let img = ImageRef::parse("myuser/myimage:v1.0").unwrap();
    assert_eq!(img.registry, "registry-1.docker.io");
    assert_eq!(img.repository, "myuser/myimage");
    assert_eq!(img.tag, "v1.0");
}

#[test]
fn test_image_ref_parse_custom_registry() {
    let img = ImageRef::parse("ghcr.io/owner/repo:sha-abc123").unwrap();
    assert_eq!(img.registry, "ghcr.io");
    assert_eq!(img.repository, "owner/repo");
    assert_eq!(img.tag, "sha-abc123");
}

#[test]
fn test_image_ref_parse_localhost() {
    let img = ImageRef::parse("localhost:5000/myimage:dev").unwrap();
    assert_eq!(img.registry, "localhost:5000");
    assert_eq!(img.repository, "myimage");
    assert_eq!(img.tag, "dev");
}

#[test]
fn image_ref_urls() {
    let img = ImageRef::parse("nginx:1.25").unwrap();
    assert_eq!(
        img.manifest_url(),
        "https://registry-1.docker.io/v2/library/nginx/manifests/1.25"
    );
    assert_eq!(
        img.blob_url("sha256:abc"),
        "https://registry-1.docker.io/v2/library/nginx/blobs/sha256:abc"
    );
}

#[test]
fn test_generate_rootfs_name() {
    let manager = ImageManager::new("/tmp/cache".to_string(), "/tmp/rootfs".to_string());
    let name = manager.generate_rootfs_name("sha256:abc123def456789");
    assert_eq!(name, "rootfs_abc123def456");
}

#[test]
fn test_get_rootfs_nonexistent() {
    let manager = ImageManager::new("/tmp/cache".to_string(), "/tmp/rootfs".to_string());
    assert!(manager.get_rootfs("sha256:nonexistent", false).is_none());
    assert_eq!(
        manager.get_rootfs("sha256:abc", true),
        Some("/tmp/rootfs/rootfs_abc".to_string())
    );
}

#[test]
fn test_cache_layer_path() {
    let cache = LayerCache::new("/tmp/c".to_string());
    let path = cache.layer_path("sha256:abc123def456");
    assert!(path.contains("sha256"));
    assert!(path.contains("ab"));
    assert!(path.contains("abc123def456"));
    assert_eq!(path, "/tmp/c/layers/sha256/ab/abc123def456");
}

#[test]
fn layers_are_checked_against_their_digest() {
    let data = b"test layer content";
    let digest = "sha256:f5b0a4d5e5c9f1a3a1d0b7f1c2e4d6c8b3a2e1f0d9c8b7a6e5f4d3c2b1a0e9f8";
    match check_layer(digest, data) {
        Err(CacheError::DigestMismatch { expected, actual }) => {
            assert_eq!(expected, digest);
            assert!(actual.starts_with("sha256:"));
            assert_eq!(actual.len(), 71);
            assert_eq!(check_layer(&actual, data).ok(), Some("layer.tar"));
        }
        _ => panic!("expected a digest mismatch"),
    }
}

#[test]
fn get_layer_prefers_the_compressed_file() {
    let cache = LayerCache::new("/c".to_string());
    assert_eq!(
        cache.get_layer("sha256:abcd", true, true).ok(),
        Some("/c/layers/sha256/ab/abcd/layer.tar.gz".to_string())
    );
    assert_eq!(
        cache.get_layer("sha256:abcd", false, true).ok(),
        Some("/c/layers/sha256/ab/abcd/layer.tar".to_string())
    );
    assert!(matches!(cache.get_layer("sha256:abcd", false, false), Err(CacheError::NotFound(_))));
}

#[test]
fn whiteouts_and_traversal_are_recognised() {
    assert!(matches!(classify_layer_entry("etc/.wh..wh..opq", Some(".wh..wh..opq")), EntryAction::OpaqueWhiteout));
    match classify_layer_entry("etc/.wh.passwd", Some(".wh.passwd")) {
        EntryAction::Whiteout(n) => assert_eq!(n, "passwd"),
        other => panic!("unexpected {:?}", other),
    }
    assert!(matches!(classify_layer_entry("../etc/passwd", Some("passwd")), EntryAction::SkipTraversal));
    assert!(matches!(classify_layer_entry("usr/bin/env", Some("env")), EntryAction::Extract));
}

#[test]
fn artifact_cache_layout() {
    let c = ArtifactCache::new("/rt".to_string());
    assert_eq!(c.get_runtime_path("python", "3.11", "linux-x64"), "/rt/python/3.11/linux-x64");
}

#[test]
fn file_names_from_urls() {
    assert_eq!(filename_from_url("https://h/a/model.bin?x=1#f"), Some("model.bin".to_string()));
    assert_eq!(filename_from_url("https://h/a/b/"), Some("b".to_string()));
    assert_eq!(normalize_hex("  ABCdef "), "abcdef");
}

#[test]
fn test_trusted_key_store() {
    let mut store = TrustedKeyStore::new();

    let signer1 = CapsuleSigner::new("publisher1");
    let signer2 = CapsuleSigner::new("publisher2");

    store.add_publisher("publisher1", &signer1.public_key());
    store.add_publisher("publisher2", &signer2.public_key());

    assert!(store.is_trusted(&signer1.public_key()));
    assert!(store.is_trusted(&signer2.public_key()));

    let unknown_key = "unknown_key_base64";
    assert!(!store.is_trusted(unknown_key));

    let all_keys = store.get_all_keys();
    assert_eq!(all_keys.len(), 2);
}

#[test]
fn trusted_key_store_replaces_a_publishers_key() {
    let mut store = TrustedKeyStore::new();
    store.add_publisher("publisher1", "key-one");
    store.add_publisher("publisher2", "key-two");
    assert_eq!(store.get_all_keys(), vec!["key-one".to_string(), "key-two".to_string()]);
    store.add_publisher("publisher1", "key-three");
    assert!(!store.is_trusted("key-one"));
    assert!(store.is_trusted("key-three"));
}

#[test]
fn test_sign_and_verify() {
    let signer = CapsuleSigner::new("test-publisher");
    let content = b"capsule manifest content";

    let signature = signer.sign(content).unwrap();

    assert_eq!(signature.algorithm, "ed25519");
    assert_eq!(signature.signer, "test-publisher");
    assert!(!signature.signature.is_empty());
    assert!(!signature.content_hash.is_empty());

    let verifier = CapsuleVerifier::new(vec![signature.public_key.clone()]).unwrap();
    let result = verifier.verify(content, &signature);
    assert!(result.is_ok());
}

#[test]
fn test_verify_tampered_content() {
    let signer = CapsuleSigner::new("test-publisher");
    let content = b"original content";
    let signature = signer.sign(content).unwrap();

    let verifier = CapsuleVerifier::new(vec![signature.public_key.clone()]).unwrap();

    let tampered = b"tampered content";
    let result = verifier.verify(tampered, &signature);

    assert!(result.is_err());
    assert!(result.unwrap_err().to_string().contains("hash mismatch"));
}

#[test]
fn test_verify_untrusted_key() {
    let signer = CapsuleSigner::new("untrusted-publisher");
    let content = b"content";
    let signature = signer.sign(content).unwrap();

    let other_signer = CapsuleSigner::new("trusted-publisher");
    let verifier = CapsuleVerifier::new(vec![other_signer.public_key()]).unwrap();

    let result = verifier.verify(content, &signature);
    assert!(result.is_err());
    assert!(result.unwrap_err().to_string().contains("not in trusted set"));
}

#[test]
fn test_multiple_trusted_keys() {
    let signer1 = CapsuleSigner::new("publisher1");
    let signer2 = CapsuleSigner::new("publisher2");

    let content = b"content";
    let sig1 = signer1.sign(content).unwrap();
    let sig2 = signer2.sign(content).unwrap();

    let verifier = CapsuleVerifier::new(vec![signer1.public_key(), signer2.public_key()]).unwrap();

    assert!(verifier.verify(content, &sig1).is_ok());
    assert!(verifier.verify(content, &sig2).is_ok());
}

#[test]
fn signer_from_key_is_deterministic_and_checked() {
    let key = [7u8; 32];
    let a = CapsuleSigner::from_key(key, "fixed");
    let b = CapsuleSigner::from_key(key, "fixed");
    assert_eq!(a.public_key(), b.public_key());
    assert_eq!(a.export_private_key_bytes(), key.to_vec());
    let sa = a.sign(b"abc").unwrap();
    let sb = b.sign(b"abc").unwrap();
    assert_eq!(sa.signature, sb.signature);
    assert_eq!(
        sa.content_hash,
        "ba7816bf8f01cfea414140de5dae2223b00361a396177a9cb410ff61f20015ad"
    );
    assert_eq!(sa.public_key.len(), 44);
    assert_eq!(sa.signature.len(), 88);
}

#[test]
fn verifier_refuses_malformed_keys_and_signatures() {
    assert_eq!(
        CapsuleVerifier::new(vec!["AAAA".to_string()]).err().unwrap(),
        "Public key must be 32 bytes"
    );
    assert!(CapsuleVerifier::new(vec!["not base64!".to_string()])
        .err()
        .unwrap()
        .starts_with("Invalid base64 public key: "));
    let signer = CapsuleSigner::new("p");
    let mut sig = signer.sign(b"x").unwrap();
    let verifier = CapsuleVerifier::new(vec![signer.public_key()]).unwrap();
    sig.algorithm = "rsa".to_string();
    assert_eq!(
        verifier.verify(b"x", &sig).unwrap_err(),
        "Unsupported signature algorithm: rsa"
    );
    sig.algorithm = "ed25519".to_string();
    sig.signature = "AAAA".to_string();
    assert!(verifier
        .verify(b"x", &sig)
        .unwrap_err()
        .starts_with("Invalid signature format: "));
    let other = CapsuleSigner::new("q").sign(b"x").unwrap();
    sig.signature = other.signature;
    assert!(verifier
        .verify(b"x", &sig)
        .unwrap_err()
        .starts_with("Signature verification failed: "));
}

use nacelle::registry::{ManifestList, ManifestPlatform, Platform, RegistryClient, RegistryError};

fn platform(os: &str, arch: &str) -> ManifestPlatform {
    ManifestPlatform {
        media_type: "m".to_string(),
        size: 1,
        digest: format!("sha256:{os}-{arch}"),
        platform: Platform { architecture: arch.to_string(), os: os.to_string(), variant: None },
    }
}

#[test]
fn registry_bearer_challenge() {
    let h = r#"Bearer realm="https://auth.docker.io/token",service="registry.docker.io",scope="x""#;
    assert_eq!(RegistryClient::extract_param(h, "realm"), Some("https://auth.docker.io/token".to_string()));
    assert_eq!(RegistryClient::extract_param(h, "nope"), None);
    let img = nacelle::registry::ImageRef::parse("nginx").unwrap();
    assert_eq!(
        RegistryClient::token_request_url(h, &img).unwrap(),
        "https://auth.docker.io/token?service=registry.docker.io&scope=repository:library/nginx:pull"
    );
    assert!(matches!(RegistryClient::token_request_url("Basic", &img), Err(RegistryError::AuthFailed(_))));
    let mut c = RegistryClient::new();
    assert!(c.authorization().is_none());
    assert!(c.accept_token(None).is_err());
    c.accept_token(Some("tok".to_string())).unwrap();
    assert_eq!(c.authorization(), Some("Bearer tok".to_string()));
}

#[test]
fn registry_platform_selection_prefers_linux_arm64() {
    let list = ManifestList {
        schema_version: 2,
        media_type: "l".to_string(),
        manifests: vec![platform("linux", "amd64"), platform("linux", "arm64")],
    };
    assert_eq!(RegistryClient::select_platform(&list).unwrap(), 1);
    let list = ManifestList { schema_version: 2, media_type: "l".to_string(), manifests: vec![platform("windows", "amd64")] };
    assert_eq!(RegistryClient::select_platform(&list).unwrap(), 0);
    let list = ManifestList { schema_version: 2, media_type: "l".to_string(), manifests: vec![] };
    assert!(matches!(RegistryClient::select_platform(&list), Err(RegistryError::Parse(_))));
    assert!(RegistryClient::check_blob("sha256:e3b0c44298fc1c149afbf4c8996fb92427ae41e4649b934ca495991b7852b855", b"").is_ok());
    assert!(matches!(RegistryClient::check_blob("sha256:00", b""), Err(RegistryError::DigestMismatch { .. })));
}
