use ajar_gateway::harvester::{HarvestCollector, HarvestRecord, HarvesterError};
use ajar_gateway::signer::{KeyStore, SignatureProvider, SignerError, SigningKeyHandle};
use ajar_gateway::store::{StorageBackend, StoreError, StoreKey};
use std::collections::BTreeMap;
use std::sync::Mutex;

struct TestHarvestCollector;

impl HarvestCollector for TestHarvestCollector {
    fn collect(&self) -> Result<Vec<HarvestRecord>, HarvesterError> {
        Ok(vec![HarvestRecord {
            source_id: "test-source".to_owned(),
            payload: b"{}".to_vec(),
        }])
    }
}

#[test]
fn test_double_collects_records() -> Result<(), HarvesterError> {
    let collector = TestHarvestCollector;

    let records = collector.collect()?;

    assert_eq!(records.len(), 1);
    assert_eq!(records[0].source_id, "test-source");
    Ok(())
}

struct TestKeyStore {
    key_id: String,
}

impl KeyStore for TestKeyStore {
    fn resolve_key(&self, key_id: &str) -> Result<SigningKeyHandle, SignerError> {
        if key_id == self.key_id {
            Ok(SigningKeyHandle {
                key_id: key_id.to_owned(),
            })
        } else {
            Err(SignerError::KeyNotFound)
        }
    }
}

struct TestSignatureProvider;

impl SignatureProvider for TestSignatureProvider {
    fn sign(&self, key_id: &str, message: &[u8]) -> Result<Vec<u8>, SignerError> {
        let mut signature = key_id.as_bytes().to_vec();
        signature.extend_from_slice(b":");
        signature.extend_from_slice(message);
        Ok(signature)
    }
}

#[test]
fn test_double_resolves_configured_key() -> Result<(), SignerError> {
    let store = TestKeyStore {
        key_id: "test-key".to_owned(),
    };

    let key = store.resolve_key("test-key")?;

    assert_eq!(key.key_id, "test-key");
    Ok(())
}

#[test]
fn unknown_key_is_denied() {
    let store = TestKeyStore {
        key_id: "test-key".to_owned(),
    };

    assert_eq!(store.resolve_key("other-key"), Err(SignerError::KeyNotFound));
}

#[test]
fn test_double_signs_without_private_key_material() -> Result<(), SignerError> {
    let signer = TestSignatureProvider;

    let signature = signer.sign("test-key", b"message")?;

    assert_eq!(signature, b"test-key:message");
    Ok(())
}

struct TestStorageBackend {
    records: Mutex<BTreeMap<(String, String), Vec<u8>>>,
}

impl TestStorageBackend {
    fn new() -> Self {
        Self {
            records: Mutex::new(BTreeMap::new()),
        }
    }
}

impl StorageBackend for TestStorageBackend {
    fn read(&self, key: &StoreKey) -> Result<Vec<u8>, StoreError> {
        let records = self
            .records
            .lock()
            .map_err(|_| StoreError::BackendUnavailable)?;
        records
            .get(&(key.namespace.clone(), key.key.clone()))
            .cloned()
            .ok_or(StoreError::NotFound)
    }

    fn write(&mut self, key: &StoreKey, value: &[u8]) -> Result<(), StoreError> {
        let mut records = self
            .records
            .lock()
            .map_err(|_| StoreError::BackendUnavailable)?;
        records.insert((key.namespace.clone(), key.key.clone()), value.to_vec());
        Ok(())
    }
}

#[test]
fn test_double_round_trips_bytes() -> Result<(), StoreError> {
    let mut backend = TestStorageBackend::new();
    let key = StoreKey {
        namespace: "prepared".to_owned(),
        key: "home".to_owned(),
    };

    backend.write(&key, b"view")?;
    let value = backend.read(&key)?;

    assert_eq!(value, b"view");
    Ok(())
}

#[test]
fn writing_leaves_other_keys_alone() -> Result<(), StoreError> {
    let mut backend = TestStorageBackend::new();
    let home = StoreKey {
        namespace: "prepared".to_owned(),
        key: "home".to_owned(),
    };
    let about = StoreKey {
        namespace: "prepared".to_owned(),
        key: "about".to_owned(),
    };

    backend.write(&home, b"first")?;
    backend.write(&home, b"second")?;

    assert_eq!(backend.read(&home)?, b"second");
    assert_eq!(backend.read(&about), Err(StoreError::NotFound));
    Ok(())
}
