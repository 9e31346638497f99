use std::sync::{Arc, Mutex};

use wechat_article_exporter_desktop_lib::official_account_login::{
    cookie_header_from_set_cookies, extract_quoted_js_value, generate_session_id,
    map_scan_status, merged_cookie_header, new_session_id, profile_from_home_page, qr_code_data_url,
    serialize_login_secret,
    token_from_redirect_url, four_days_from, InMemoryLoginSessionStore, LoginFinalizePayload,
    LoginPollPayload, LoginScanStatus, OfficialAccountLoginClient, OfficialAccountLoginProfile,
    OfficialAccountLoginSecret, OfficialAccountLoginTransport, StartLoginPayload,
};
use wechat_article_exporter_desktop_lib::secret_store::{
    MemorySecretBackend, SecretSlot, SecretStore,
};

#[test]
fn starts_login_session_with_qr_code_from_transport() {
    let transport = FixtureLoginTransport::new()
        .with_started_session("fixture-session", "data:image/png;base64,fixture-qr");
    let secret_store = SecretStore::new(MemorySecretBackend::default());
    let mut client = OfficialAccountLoginClient::new(
        transport,
        InMemoryLoginSessionStore::default(),
        secret_store,
    );

    let session = client.start_login().expect("start login");

    assert_eq!(session.session_id, "fixture-session");
    assert_eq!(session.qr_code_data_url, "data:image/png;base64,fixture-qr");
    assert_eq!(
        session.message,
        "Scan this QR code with a WeChat Official Account operator account."
    );
}

#[test]
fn polls_waiting_confirmed_expired_and_error_states() {
    let transport = FixtureLoginTransport::new()
        .with_started_session("fixture-session", "data:image/png;base64,fixture-qr")
        .with_poll_status(LoginScanStatus::Waiting)
        .with_poll_status(LoginScanStatus::Confirmed { account_count: 1 })
        .with_poll_status(LoginScanStatus::Expired)
        .with_poll_status(LoginScanStatus::Error {
            message: "fixture transport failed".to_string(),
        });
    let secret_store = SecretStore::new(MemorySecretBackend::default());
    let mut client = OfficialAccountLoginClient::new(
        transport,
        InMemoryLoginSessionStore::default(),
        secret_store,
    );
    let session = client.start_login().expect("start login");

    assert_eq!(
        client
            .poll_scan_status(&session.session_id)
            .expect("poll waiting"),
        LoginScanStatus::Waiting
    );
    assert_eq!(
        client
            .poll_scan_status(&session.session_id)
            .expect("poll confirmed"),
        LoginScanStatus::Confirmed { account_count: 1 }
    );
    assert_eq!(
        client
            .poll_scan_status(&session.session_id)
            .expect("poll expired"),
        LoginScanStatus::Expired
    );
    assert_eq!(
        client
            .poll_scan_status(&session.session_id)
            .expect("poll error"),
        LoginScanStatus::Error {
            message: "fixture transport failed".to_string(),
        }
    );
}

fn fixture_secret() -> OfficialAccountLoginSecret {
    OfficialAccountLoginSecret {
        token: "token-123".to_string(),
        cookie_header: "wxuin=1; rand_info=secret".to_string(),
        profile: OfficialAccountLoginProfile {
            nickname: "Fixture Official Account".to_string(),
            avatar_url: "https://example.test/avatar.png".to_string(),
        },
        expires_at: "2026-05-27T00:00:00Z".to_string(),
    }
}

#[test]
fn finalizes_login_and_saves_official_account_secret() {
    let secret_store = SecretStore::new(MemorySecretBackend::default());
    let transport = FixtureLoginTransport::new()
        .with_started_session("fixture-session", "data:image/png;base64,fixture-qr")
        .with_finalized_login(fixture_secret());
    let mut client = OfficialAccountLoginClient::new(
        transport,
        InMemoryLoginSessionStore::default(),
        secret_store,
    );
    let session = client.start_login().expect("start login");

    let account = client
        .finalize_login(&session.session_id)
        .expect("finalize login");

    assert_eq!(account.nickname, "Fixture Official Account");
    assert_eq!(account.avatar_url, "https://example.test/avatar.png");
    let stored_secret = client
        .secret_store()
        .read(SecretSlot::OfficialAccountLogin)
        .expect("read login secret")
        .expect("login secret exists");
    assert!(stored_secret.contains("\"token\":\"token-123\""));
    assert!(stored_secret.contains("\"cookieHeader\":\"wxuin=1; rand_info=secret\""));
    assert!(stored_secret.contains("\"nickname\":\"Fixture Official Account\""));
    assert!(!client.session_store().contains("fixture-session"));
}

#[test]
fn clients_over_one_session_store_and_backend_share_sessions_and_secrets() {
    let mut sessions = InMemoryLoginSessionStore::default();
    let mut backend = MemorySecretBackend::default();
    let transport = FixtureLoginTransport::new()
        .with_started_session("fixture-session", "data:image/png;base64,fixture-qr")
        .with_poll_status(LoginScanStatus::Waiting)
        .with_finalized_login(fixture_secret());
    let session = {
        let mut first = OfficialAccountLoginClient::new(
            transport.clone(),
            &mut sessions,
            SecretStore::new(&mut backend),
        );
        first.start_login().expect("start login")
    };
    assert!(sessions.contains(&session.session_id));
    {
        let mut second = OfficialAccountLoginClient::new(
            transport.clone(),
            &mut sessions,
            SecretStore::new(&mut backend),
        );
        assert_eq!(
            second.poll_scan_status(&session.session_id).expect("poll"),
            LoginScanStatus::Waiting
        );
        second.finalize_login(&session.session_id).expect("finalize login");
    }
    assert!(!sessions.contains(&session.session_id));
    let third = SecretStore::new(&mut backend);
    let stored = third
        .read(SecretSlot::OfficialAccountLogin)
        .expect("read login secret")
        .expect("login secret exists");
    assert!(stored.contains("\"token\":\"token-123\""));
}

#[test]
fn a_session_started_by_one_client_is_known_to_the_next_one() {
    let transport = FixtureLoginTransport::new()
        .with_started_session("fixture-session", "data:image/png;base64,fixture-qr")
        .with_poll_status(LoginScanStatus::Waiting);
    let mut first = OfficialAccountLoginClient::new(
        transport.clone(),
        InMemoryLoginSessionStore::default(),
        SecretStore::new(MemorySecretBackend::default()),
    );
    let session = first.start_login().expect("start login");
    let second = OfficialAccountLoginClient::new(
        transport,
        first.into_session_store(),
        SecretStore::new(MemorySecretBackend::default()),
    );
    assert_eq!(
        second.poll_scan_status(&session.session_id).expect("poll"),
        LoginScanStatus::Waiting
    );
}

#[test]
fn logout_clears_official_account_login_without_touching_reading_credentials() {
    let mut secret_store = SecretStore::new(MemorySecretBackend::default());
    secret_store
        .save(SecretSlot::ArticleReadingCredential, "reading-cookie")
        .expect("save reading credential");
    let transport = FixtureLoginTransport::new()
        .with_started_session("fixture-session", "data:image/png;base64,fixture-qr")
        .with_finalized_login(fixture_secret());
    let mut client = OfficialAccountLoginClient::new(
        transport,
        InMemoryLoginSessionStore::default(),
        secret_store,
    );
    let session = client.start_login().expect("start login");
    client
        .finalize_login(&session.session_id)
        .expect("finalize login");

    client.logout().expect("logout");

    let store = client.secret_store();
    assert_eq!(
        store
            .read(SecretSlot::OfficialAccountLogin)
            .expect("read login secret"),
        None
    );
    assert_eq!(
        store
            .read(SecretSlot::ArticleReadingCredential)
            .expect("read reading credential")
            .as_deref(),
        Some("reading-cookie")
    );
}

#[test]
fn rejects_unknown_or_expired_sessions_before_polling_transport() {
    let transport = FixtureLoginTransport::new();
    let secret_store = SecretStore::new(MemorySecretBackend::default());
    let client = OfficialAccountLoginClient::new(
        transport,
        InMemoryLoginSessionStore::default(),
        secret_store,
    );

    let error = client
        .poll_scan_status("missing-session")
        .expect_err("missing session should fail");

    assert!(error.message().contains("login session was not found"));
    assert_eq!(
        error.message(),
        "login session was not found or has expired: missing-session"
    );
}

#[test]
fn maps_every_platform_scan_code() {
    assert_eq!(map_scan_status(Some(0), 2), LoginScanStatus::Waiting);
    assert_eq!(map_scan_status(Some(1), 2), LoginScanStatus::Confirmed { account_count: 2 });
    assert_eq!(map_scan_status(Some(2), 2), LoginScanStatus::Expired);
    assert_eq!(map_scan_status(Some(3), 2), LoginScanStatus::Expired);
    assert_eq!(map_scan_status(Some(4), 2), LoginScanStatus::Scanned { account_count: 2 });
    assert_eq!(map_scan_status(Some(6), 3), LoginScanStatus::Scanned { account_count: 3 });
    assert_eq!(
        map_scan_status(Some(5), 0),
        LoginScanStatus::Error {
            message: "This WeChat account is not eligible for Official Account platform login."
                .to_string()
        }
    );
    assert_eq!(
        map_scan_status(Some(-7), 0),
        LoginScanStatus::Error { message: "unsupported WeChat scan status: -7".to_string() }
    );
    assert_eq!(
        map_scan_status(None, 0),
        LoginScanStatus::Error {
            message: "WeChat scan response did not include status".to_string()
        }
    );
}

#[test]
fn login_secret_json_escapes_text_as_json() {
    let mut secret = fixture_secret();
    secret.profile.nickname = "Quote \" and \\ and\nline".to_string();
    assert_eq!(
        serialize_login_secret(&secret),
        "{\"token\":\"token-123\",\"cookieHeader\":\"wxuin=1; rand_info=secret\",\"profile\":{\"nickname\":\"Quote \\\" and \\\\ and\\nline\",\"avatarUrl\":\"https://example.test/avatar.png\"},\"expiresAt\":\"2026-05-27T00:00:00Z\"}"
    );
    let mut control = fixture_secret();
    control.token = "\u{1}".to_string();
    assert!(serialize_login_secret(&control).starts_with("{\"token\":\"\\u0001\""));
}

#[test]
fn reads_token_from_relative_and_absolute_redirects() {
    assert_eq!(
        token_from_redirect_url("/cgi-bin/home?t=home/index&lang=zh_CN&token=12345"),
        Ok("12345".to_string())
    );
    assert_eq!(
        token_from_redirect_url("https://mp.weixin.qq.com/cgi-bin/home?token=678"),
        Ok("678".to_string())
    );
    assert_eq!(
        token_from_redirect_url("/cgi-bin/home?token="),
        Err("redirect_url did not include token: /cgi-bin/home?token=".to_string())
    );
    assert_eq!(
        token_from_redirect_url("/cgi-bin/home?lang=zh_CN"),
        Err("redirect_url did not include token: /cgi-bin/home?lang=zh_CN".to_string())
    );
}

#[test]
fn extracts_quoted_script_values() {
    let html = "wx.cgiData.nick_name = \"Operator\"; wx.cgiData.head_img = \"https://img\";";
    assert_eq!(
        extract_quoted_js_value(html, "wx.cgiData.nick_name"),
        Some("Operator".to_string())
    );
    assert_eq!(
        extract_quoted_js_value(html, "wx.cgiData.head_img"),
        Some("https://img".to_string())
    );
    assert_eq!(extract_quoted_js_value(html, "wx.cgiData.missing"), None);
    assert_eq!(extract_quoted_js_value("key = 'single'", "key"), None);
}

#[test]
fn new_session_ids_carry_the_clock_in_milliseconds() {
    let id = new_session_id();
    let millis = id.strip_prefix("desktop-").expect("desktop- prefix");
    assert!(!millis.is_empty());
    assert!(millis.chars().all(|c| c.is_ascii_digit()));
    assert!(millis.parse::<u128>().expect("milliseconds") > 1_600_000_000_000);
}

#[test]
fn reads_the_profile_from_the_home_page() {
    let html = "wx.cgiData.nick_name = \"Operator\"; wx.cgiData.head_img = \"https://img\";";
    assert_eq!(
        profile_from_home_page(html),
        Ok(OfficialAccountLoginProfile {
            nickname: "Operator".to_string(),
            avatar_url: "https://img".to_string(),
        })
    );
    assert_eq!(
        profile_from_home_page("wx.cgiData.nick_name = \"Operator\";"),
        Ok(OfficialAccountLoginProfile {
            nickname: "Operator".to_string(),
            avatar_url: String::new(),
        })
    );
    assert_eq!(
        profile_from_home_page("wx.cgiData.head_img = \"https://img\";"),
        Err("could not extract Official Account nickname".to_string())
    );
}

#[test]
fn builds_cookie_headers_from_set_cookie_values() {
    let header = cookie_header_from_set_cookies(&vec![
        "slave_sid=abc; Path=/; HttpOnly".to_string(),
        "old=EXPIRED; Path=/".to_string(),
        "flag; Secure".to_string(),
        " data_ticket=xyz ; Path=/".to_string(),
    ]);
    assert_eq!(header, "slave_sid=abc; data_ticket=xyz");
    assert_eq!(merged_cookie_header("a=1", ""), "a=1");
    assert_eq!(merged_cookie_header("", "b=2"), "b=2");
    assert_eq!(merged_cookie_header("a=1", "b=2"), "a=1; b=2");
}

#[test]
fn session_ids_expiry_and_qr_data_urls() {
    assert_eq!(generate_session_id(1700000000123), "desktop-1700000000123");
    assert_eq!(four_days_from(1700000000), "unix:1700345600");
    assert_eq!(
        qr_code_data_url(Some("image/jpeg; charset=binary"), b"hi!"),
        "data:image/jpeg;base64,aGkh"
    );
    assert_eq!(qr_code_data_url(None, b"a"), "data:image/png;base64,YQ==");
    assert_eq!(qr_code_data_url(None, b"ab"), "data:image/png;base64,YWI=");
}

#[test]
fn session_store_remembers_started_sessions_until_removed() {
    let mut store = InMemoryLoginSessionStore::new();
    assert!(!store.contains("a"));
    store.insert("a");
    store.insert("b");
    store.insert("a");
    assert!(store.contains("a"));
    assert!(store.contains("b"));
    store.remove("a");
    assert!(!store.contains("a"));
    assert!(store.contains("b"));
}

#[derive(Clone, Default)]
struct FixtureLoginTransport {
    state: Arc<Mutex<FixtureLoginTransportState>>,
}

#[derive(Default)]
struct FixtureLoginTransportState {
    start: Option<StartLoginPayload>,
    polls: Vec<LoginScanStatus>,
    finalized: Option<LoginFinalizePayload>,
}

impl FixtureLoginTransport {
    fn new() -> Self {
        Self::default()
    }

    fn with_started_session(self, session_id: &str, qr_code_data_url: &str) -> Self {
        self.state.lock().expect("lock fixture").start = Some(StartLoginPayload {
            session_id: session_id.to_string(),
            qr_code_data_url: qr_code_data_url.to_string(),
        });
        self
    }

    fn with_poll_status(self, status: LoginScanStatus) -> Self {
        self.state.lock().expect("lock fixture").polls.push(status);
        self
    }

    fn with_finalized_login(self, secret: OfficialAccountLoginSecret) -> Self {
        self.state.lock().expect("lock fixture").finalized = Some(LoginFinalizePayload { secret });
        self
    }
}

impl OfficialAccountLoginTransport for FixtureLoginTransport {
    fn start_login(&self) -> Result<StartLoginPayload, String> {
        self.state
            .lock()
            .expect("lock fixture")
            .start
            .clone()
            .ok_or_else(|| "fixture start response is missing".to_string())
    }

    fn poll_scan_status(&self, _session_id: &str) -> Result<LoginPollPayload, String> {
        let status = self.state.lock().expect("lock fixture").polls.remove(0);

        Ok(LoginPollPayload { status })
    }

    fn finalize_login(&self, _session_id: &str) -> Result<LoginFinalizePayload, String> {
        self.state
            .lock()
            .expect("lock fixture")
            .finalized
            .clone()
            .ok_or_else(|| "fixture finalized response is missing".to_string())
    }
}
