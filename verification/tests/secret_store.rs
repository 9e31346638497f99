use wechat_article_exporter_desktop_lib::secret_store::{
    production_secret_store, MemorySecretBackend, SecretSlot, SecretStore, SecretStoreError,
};

#[test]
fn stores_login_and_reading_credentials_under_distinct_slots() {
    let mut store = SecretStore::new(MemorySecretBackend::default());

    store
        .save(SecretSlot::OfficialAccountLogin, "official-cookie-token")
        .expect("save official account login secret");
    store
        .save(SecretSlot::ArticleReadingCredential, "reading-side-cookie")
        .expect("save article reading credential");

    assert_eq!(
        store
            .read(SecretSlot::OfficialAccountLogin)
            .expect("read official account login secret")
            .as_deref(),
        Some("official-cookie-token")
    );
    assert_eq!(
        store
            .read(SecretSlot::ArticleReadingCredential)
            .expect("read article reading credential")
            .as_deref(),
        Some("reading-side-cookie")
    );
}

#[test]
fn deletes_individual_secret_without_touching_other_credentials() {
    let mut store = SecretStore::new(MemorySecretBackend::default());

    store
        .save(SecretSlot::OfficialAccountLogin, "official-cookie-token")
        .expect("save official account login secret");
    store
        .save(SecretSlot::ArticleReadingCredential, "reading-side-cookie")
        .expect("save article reading credential");

    store
        .delete(SecretSlot::OfficialAccountLogin)
        .expect("delete official account login secret");

    assert_eq!(
        store
            .read(SecretSlot::OfficialAccountLogin)
            .expect("read deleted official account login secret"),
        None
    );
    assert_eq!(
        store
            .read(SecretSlot::ArticleReadingCredential)
            .expect("read article reading credential")
            .as_deref(),
        Some("reading-side-cookie")
    );
}

#[test]
fn clears_all_known_credentials_for_logout_cleanup() {
    let mut store = SecretStore::new(MemorySecretBackend::default());

    store
        .save(SecretSlot::OfficialAccountLogin, "official-cookie-token")
        .expect("save official account login secret");
    store
        .save(SecretSlot::ArticleReadingCredential, "reading-side-cookie")
        .expect("save article reading credential");

    store.clear_credentials().expect("clear credentials");

    assert_eq!(
        store
            .read(SecretSlot::OfficialAccountLogin)
            .expect("read cleared official account login secret"),
        None
    );
    assert_eq!(
        store
            .read(SecretSlot::ArticleReadingCredential)
            .expect("read cleared article reading credential"),
        None
    );
}

#[test]
fn saving_again_replaces_the_slot_value() {
    let mut store = SecretStore::new(MemorySecretBackend::default());
    store.save(SecretSlot::OfficialAccountLogin, "first").expect("save first");
    store.save(SecretSlot::OfficialAccountLogin, "second").expect("save second");
    assert_eq!(
        store.read(SecretSlot::OfficialAccountLogin).expect("read").as_deref(),
        Some("second")
    );
    assert_eq!(store.read(SecretSlot::ArticleReadingCredential).expect("read other"), None);
}

#[test]
fn production_store_without_platform_backend_reports_unsupported_platform() {
    let mut store = production_secret_store();
    assert_eq!(
        store.save(SecretSlot::OfficialAccountLogin, "value"),
        Err(SecretStoreError::UnsupportedPlatform)
    );
    assert_eq!(
        store.read(SecretSlot::OfficialAccountLogin),
        Err(SecretStoreError::UnsupportedPlatform)
    );
    assert_eq!(
        store.delete(SecretSlot::ArticleReadingCredential),
        Err(SecretStoreError::UnsupportedPlatform)
    );
    assert_eq!(store.clear_credentials(), Err(SecretStoreError::UnsupportedPlatform));
    assert_eq!(
        SecretStoreError::UnsupportedPlatform.message(),
        "secret store backend is not configured for this platform"
    );
    assert_eq!(
        SecretStoreError::Backend("locked".to_string()).message(),
        "secret store backend error: locked"
    );
}

#[test]
fn slot_keys_are_stable_storage_names() {
    assert_eq!(SecretSlot::OfficialAccountLogin.key(), "official-account-login");
    assert_eq!(SecretSlot::ArticleReadingCredential.key(), "article-reading-credential");
    assert_eq!(
        SecretSlot::all_credentials(),
        [SecretSlot::OfficialAccountLogin, SecretSlot::ArticleReadingCredential]
    );
}
