use base64::engine::general_purpose::STANDARD;
use base64::Engine;

use sentinel_agent::security::compress::{compress, decompress, should_compress};
use sentinel_agent::security::file_keystore::EncryptedFileKeyStore;
use sentinel_agent::security::keystore::{KeyStore, KeyStoreError};
use sentinel_agent::security::os_keystore::OsKeyStore;
use sentinel_agent::security::signer::HmacSigner;

#[test]
fn compress_decompress_roundtrip() {
    let input = b"hello world repeated ".repeat(100);
    let compressed = compress(&input);
    let restored = decompress(&compressed).unwrap();
    assert_eq!(input.as_slice(), restored.as_slice());
}

#[test]
fn compression_reduces_size() {
    let data = b"aaaaaaaaaa".repeat(200);
    let compressed = compress(&data);
    assert!(compressed.len() < data.len());
}

#[test]
fn gzip_header_and_garbage() {
    let compressed = compress(b"x");
    assert_eq!(&compressed[0..2], &[0x1f, 0x8b]);
    assert!(decompress(b"definitely not gzip").is_err());
}

#[test]
fn threshold_check() {
    assert!(!should_compress(&[0u8; 512]));
    assert!(should_compress(&[0u8; 1024]));
    assert!(!should_compress(&[0u8; 1023]));
}

#[test]
fn os_keystore_roundtrip() {
    let mut ks = OsKeyStore::new();
    ks.store("agent-1", b"secret").unwrap();
    assert_eq!(ks.load("agent-1").unwrap(), b"secret");
}

#[test]
fn missing_returns_not_found() {
    let ks = OsKeyStore::new();
    assert!(matches!(ks.load("nope"), Err(KeyStoreError::NotFound)));
}

#[test]
fn delete_removes() {
    let mut ks = OsKeyStore::new();
    ks.store("agent-1", b"secret").unwrap();
    ks.delete("agent-1").unwrap();
    assert!(matches!(ks.load("agent-1"), Err(KeyStoreError::NotFound)));
}

#[test]
fn os_keystore_replaces_and_keeps_others() {
    let mut ks = OsKeyStore::new();
    ks.store("a", b"one").unwrap();
    ks.store("b", b"two").unwrap();
    ks.store("a", b"three").unwrap();
    assert_eq!(ks.load("a").unwrap(), b"three");
    assert_eq!(ks.load("b").unwrap(), b"two");
    ks.delete("missing").unwrap();
    assert_eq!(ks.load("b").unwrap(), b"two");
}

#[test]
fn os_keystore_through_the_trait() {
    fn use_store(ks: &mut dyn KeyStore) -> Vec<u8> {
        ks.store("k", b"v").unwrap();
        ks.load("k").unwrap()
    }
    let mut ks = OsKeyStore::new();
    assert_eq!(use_store(&mut ks), b"v");
}

#[test]
fn signer_sign_and_verify() {
    let signer = HmacSigner::new(b"my-secret-key");
    let data = b"batch payload bytes";
    let sig = signer.sign(data);
    assert!(signer.verify(data, &sig));
}

#[test]
fn reject_tampered_data() {
    let signer = HmacSigner::new(b"my-secret-key");
    let sig = signer.sign(b"original");
    assert!(!signer.verify(b"tampered", &sig));
}

#[test]
fn reject_wrong_key() {
    let signer_a = HmacSigner::new(b"key-a");
    let signer_b = HmacSigner::new(b"key-b");
    let sig = signer_a.sign(b"data");
    assert!(!signer_b.verify(b"data", &sig));
}

#[test]
fn base64_encoding() {
    let signer = HmacSigner::new(b"secret");
    let encoded = signer.sign_base64(b"payload");
    let decoded = STANDARD.decode(&encoded).unwrap();
    assert!(signer.verify(b"payload", &decoded));
    assert_eq!(encoded.len(), 44);
    assert!(encoded.ends_with('='));
}

fn mk_store(key: u8) -> EncryptedFileKeyStore {
    EncryptedFileKeyStore { dir: "/var/lib/sentinel/keys".to_string(), master_key: [key; 32] }
}

#[test]
fn roundtrip_store_load() {
    let ks = mk_store(0xAB);
    let blob = ks.encrypt(b"my-secret").unwrap();
    assert_eq!(ks.decrypt(&blob).unwrap(), b"my-secret");
}

#[test]
fn fresh_nonce_per_encryption() {
    let ks = mk_store(0xAB);
    let a = ks.encrypt(b"same").unwrap();
    let b = ks.encrypt(b"same").unwrap();
    assert_ne!(a, b);
    assert_eq!(ks.decrypt(&a).unwrap(), ks.decrypt(&b).unwrap());
}

#[test]
fn tampered_data_rejected() {
    let ks = mk_store(0xAB);
    let mut data = ks.encrypt(b"secret").unwrap();
    if let Some(b) = data.last_mut() {
        *b ^= 0xFF;
    }
    assert!(ks.decrypt(&data).is_err());
    assert!(matches!(ks.decrypt(&data), Err(KeyStoreError::Crypto(_))));
}

#[test]
fn short_data_rejected() {
    match mk_store(1).decrypt(&[0u8; 11]) {
        Err(KeyStoreError::Crypto(m)) => assert_eq!(m, "data too short"),
        other => panic!("expected a crypto error, got {other:?}"),
    }
}

#[test]
fn key_file_named_after_agent() {
    assert_eq!(mk_store(0).path_for("agent-1"), "/var/lib/sentinel/keys/agent-1.key");
}

#[test]
fn os_keystore_trait_delete_and_missing() {
    fn run(ks: &mut dyn KeyStore) {
        ks.store("x", b"1").unwrap();
        ks.delete("x").unwrap();
        assert!(matches!(ks.load("x"), Err(KeyStoreError::NotFound)));
    }
    let mut ks = OsKeyStore::new();
    run(&mut ks);
}
