use std::sync::{Arc, Mutex};

use wechat_article_exporter_desktop_lib::archive_store::{TargetAccountExport, TargetAccountInput};
use wechat_article_exporter_desktop_lib::official_account_login::{
    serialize_login_secret, OfficialAccountLoginProfile, OfficialAccountLoginSecret,
};
use wechat_article_exporter_desktop_lib::secret_store::{
    MemorySecretBackend, SecretSlot, SecretStore,
};
use wechat_article_exporter_desktop_lib::target_accounts::{
    search_response_from, TargetAccountSearchClient, TargetAccountSearchRequest,
    TargetAccountSearchResponse, TargetAccountSearchTransport,
};
use wechat_article_exporter_desktop_lib::wechat_response::WeChatBaseResponse;

#[test]
fn target_account_import_rejects_unknown_export_format() {
    let error = TargetAccountExport {
        format: "unknown-format".to_string(),
        accounts: vec![target_account("fakeid-1", "Alpha Official")],
    }
    .check_importable()
    .expect_err("unknown export format should fail");

    assert!(error.message().contains("unsupported target account export format"));
}

#[test]
fn exports_are_tagged_with_the_importable_format() {
    let export = TargetAccountExport::from_accounts(vec![
        target_account("fakeid-1", "Alpha Official"),
        target_account("fakeid-2", "Beta Official"),
    ]);
    assert_eq!(export.format, "wechat-article-exporter.target-accounts.v1");
    assert_eq!(export.accounts.len(), 2);
    assert_eq!(export.check_importable(), Ok(()));
}

#[test]
fn target_account_search_uses_stored_official_account_login_secret() {
    let mut secret_store = SecretStore::new(MemorySecretBackend::default());
    let login_secret = OfficialAccountLoginSecret {
        token: "token-123".to_string(),
        cookie_header: "wxuin=1; rand_info=secret".to_string(),
        profile: OfficialAccountLoginProfile {
            nickname: "Operator Official Account".to_string(),
            avatar_url: "https://example.test/operator.png".to_string(),
        },
        expires_at: "2026-05-27T00:00:00Z".to_string(),
    };
    secret_store
        .save(SecretSlot::OfficialAccountLogin, &serialize_login_secret(&login_secret))
        .expect("save login secret");
    let transport =
        FixtureTargetAccountSearchTransport::new().with_response(TargetAccountSearchResponse {
            total: 1,
            list: vec![target_account("fakeid-1", "Alpha Official")],
        });
    let client = TargetAccountSearchClient::new(transport.clone(), secret_store);

    let stored = client.login_secret_text().expect("read login secret");
    assert_eq!(stored, serialize_login_secret(&login_secret));
    let result = client
        .search_with_secret(&login_secret, " alpha ", 0, 5)
        .expect("search target accounts");

    assert_eq!(result.total, 1);
    assert_eq!(result.list[0].fakeid, "fakeid-1");
    let calls = transport.calls.lock().expect("read fixture calls");
    assert_eq!(calls.len(), 1);
    assert_eq!(calls[0].keyword, "alpha");
    assert_eq!(calls[0].begin, 0);
    assert_eq!(calls[0].count, 5);
    assert_eq!(calls[0].token, "token-123");
    assert_eq!(calls[0].cookie_header, "wxuin=1; rand_info=secret");
}

#[test]
fn target_account_search_fails_without_official_account_login() {
    let client = TargetAccountSearchClient::new(
        FixtureTargetAccountSearchTransport::new(),
        SecretStore::new(MemorySecretBackend::default()),
    );

    let error = client
        .login_secret_text()
        .expect_err("missing login should fail");

    assert!(error.message().contains("Official Account Login is required"));
}

#[test]
fn search_responses_check_keyword_status_and_total() {
    let ok = WeChatBaseResponse { ret: 0, err_msg: String::new() };
    assert_eq!(
        search_response_from("  ", Some(&ok), vec![], None),
        Err("search keyword cannot be empty".to_string())
    );
    assert_eq!(
        search_response_from("alpha", None, vec![], None),
        Err("WeChat response did not include base_resp".to_string())
    );
    let failed = WeChatBaseResponse { ret: 200013, err_msg: String::new() };
    assert_eq!(
        search_response_from("alpha", Some(&failed), vec![], None),
        Err("WeChat returned ret=200013".to_string())
    );
    let named = WeChatBaseResponse { ret: -1, err_msg: "freq control".to_string() };
    assert_eq!(
        search_response_from("alpha", Some(&named), vec![], None),
        Err("freq control".to_string())
    );
    let response = search_response_from(
        "alpha",
        Some(&ok),
        vec![target_account("fakeid-1", "Alpha"), target_account("fakeid-2", "Beta")],
        None,
    )
    .expect("search response");
    assert_eq!(response.total, 2);
    let response = search_response_from("alpha", Some(&ok), vec![], Some(9)).expect("total");
    assert_eq!(response.total, 9);
}

fn target_account(fakeid: &str, nickname: &str) -> TargetAccountInput {
    TargetAccountInput {
        fakeid: fakeid.to_string(),
        nickname: nickname.to_string(),
        alias: format!("{fakeid}-alias"),
        round_head_img: format!("https://example.test/{fakeid}.png"),
        service_type: 1,
        signature: format!("{nickname} signature"),
    }
}

#[derive(Clone, Default)]
struct FixtureTargetAccountSearchTransport {
    calls: Arc<Mutex<Vec<TargetAccountSearchRequest>>>,
    response: Arc<Mutex<Option<TargetAccountSearchResponse>>>,
}

impl FixtureTargetAccountSearchTransport {
    fn new() -> Self {
        Self::default()
    }

    fn with_response(self, response: TargetAccountSearchResponse) -> Self {
        *self.response.lock().expect("lock response") = Some(response);
        self
    }
}

impl TargetAccountSearchTransport for FixtureTargetAccountSearchTransport {
    fn search(
        &self,
        request: TargetAccountSearchRequest,
    ) -> Result<TargetAccountSearchResponse, String> {
        self.calls.lock().expect("lock calls").push(request);
        self.response
            .lock()
            .expect("lock response")
            .clone()
            .ok_or_else(|| "fixture response is missing".to_string())
    }
}
