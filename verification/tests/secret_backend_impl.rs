use wechat_article_exporter_desktop_lib::secret_store::{
    SecretBackend, SecretSlot, SecretStore, SecretStoreError,
};

struct LockedBackend;

impl SecretBackend for LockedBackend {
    fn save(&mut self, _slot: SecretSlot, _value: &str) -> Result<(), SecretStoreError> {
        Err(SecretStoreError::LockPoisoned)
    }

    fn read(&self, _slot: SecretSlot) -> Result<Option<String>, SecretStoreError> {
        Err(SecretStoreError::LockPoisoned)
    }

    fn delete(&mut self, _slot: SecretSlot) -> Result<(), SecretStoreError> {
        Err(SecretStoreError::LockPoisoned)
    }
}

#[test]
fn backend_errors_reach_the_caller() {
    let mut store = SecretStore::new(LockedBackend);
    assert_eq!(
        store.save(SecretSlot::OfficialAccountLogin, "x"),
        Err(SecretStoreError::LockPoisoned)
    );
    assert_eq!(store.clear_credentials(), Err(SecretStoreError::LockPoisoned));
    assert_eq!(SecretStoreError::LockPoisoned.message(), "secret store lock was poisoned");
}
