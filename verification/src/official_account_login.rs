//! Official Account login by QR code: the sessions a client has started, the scan status
//! codes of the platform, and what a finished login keeps in the secret store.
use vstd::prelude::*;

use crate::secret_store::{SecretBackend, SecretSlot, SecretStore, SecretStoreError};
use crate::text::{chars_of, string_of};
use crate::json_text::{json_string, push_json_string};
use crate::text::{find_from, skip_whitespace};
use crate::web_url::{parse_url, url_parse};

verus! {

/// The message shown beside the login QR code.
pub const OFFICIAL_ACCOUNT_LOGIN_MESSAGE: &'static str =
    "Scan this QR code with a WeChat Official Account operator account.";

/// The message of a scan that the platform refuses for the account.
pub const NOT_ELIGIBLE_MESSAGE: &'static str =
    "This WeChat account is not eligible for Official Account platform login.";

#[derive(Debug, Clone, Eq, PartialEq)]
pub enum OfficialAccountLoginError {
    InvalidResponse(String),
    LoginSessionNotFound(String),
    SecretStore(SecretStoreError),
    Serialization(String),
    Transport(String),
}

impl OfficialAccountLoginError {
    /// The message shown for the error.
    pub fn message(&self) -> (r: String)
        ensures
            self matches OfficialAccountLoginError::InvalidResponse(m) ==> r@
                == "invalid WeChat login response: "@ + m@,
            self matches OfficialAccountLoginError::LoginSessionNotFound(id) ==> r@
                == "login session was not found or has expired: "@ + id@,
            self matches OfficialAccountLoginError::Serialization(m) ==> r@
                == "login secret serialization failed: "@ + m@,
            self matches OfficialAccountLoginError::Transport(m) ==> r@
                == "WeChat login transport failed: "@ + m@,
    {
        let (prefix, detail) = match self {
            OfficialAccountLoginError::InvalidResponse(m) => (
                chars_of("invalid WeChat login response: "),
                chars_of(m.as_str()),
            ),
            OfficialAccountLoginError::LoginSessionNotFound(id) => (
                chars_of("login session was not found or has expired: "),
                chars_of(id.as_str()),
            ),
            OfficialAccountLoginError::SecretStore(e) => (Vec::new(), chars_of(
                e.message().as_str(),
            )),
            OfficialAccountLoginError::Serialization(m) => (
                chars_of("login secret serialization failed: "),
                chars_of(m.as_str()),
            ),
            OfficialAccountLoginError::Transport(m) => (
                chars_of("WeChat login transport failed: "),
                chars_of(m.as_str()),
            ),
        };
        let mut out = prefix;
        crate::text::push_all(&mut out, &detail);
        string_of(out.as_slice())
    }
}

#[derive(Clone, Debug, Eq, PartialEq)]
pub struct OfficialAccountLoginSession {
    pub session_id: String,
    pub qr_code_data_url: String,
    pub message: String,
}

#[derive(Clone, Debug, Eq, PartialEq)]
pub struct StartLoginPayload {
    pub session_id: String,
    pub qr_code_data_url: String,
}

#[derive(Clone, Debug, Eq, PartialEq)]
pub struct LoginPollPayload {
    pub status: LoginScanStatus,
}

#[derive(Clone, Debug, Eq, PartialEq)]
pub struct LoginFinalizePayload {
    pub secret: OfficialAccountLoginSecret,
}

#[derive(Clone, Debug, Eq, PartialEq)]
pub struct OfficialAccountLoginAccount {
    pub nickname: String,
    pub avatar_url: String,
    pub expires_at: String,
}

#[derive(Clone, Debug, Eq, PartialEq)]
pub struct OfficialAccountLoginSecret {
    pub token: String,
    pub cookie_header: String,
    pub profile: OfficialAccountLoginProfile,
    pub expires_at: String,
}

#[derive(Clone, Debug, Eq, PartialEq)]
pub struct OfficialAccountLoginProfile {
    pub nickname: String,
    pub avatar_url: String,
}

#[derive(Clone, Debug, Eq, PartialEq)]
pub enum LoginScanStatus {
    Waiting,
    Scanned { account_count: u32 },
    Confirmed { account_count: u32 },
    Expired,
    Error { message: String },
}

/// How the platform's scan status code reads.
pub open spec fn scan_status_of(status: Option<i64>, account_count: u32) -> LoginScanStatus {
    match status {
        Some(code) => if code == 0 {
            LoginScanStatus::Waiting
        } else if code == 1 {
            LoginScanStatus::Confirmed { account_count }
        } else if code == 2 || code == 3 {
            LoginScanStatus::Expired
        } else if code == 4 || code == 6 {
            LoginScanStatus::Scanned { account_count }
        } else {
            LoginScanStatus::Error { message: arbitrary() }
        },
        None => LoginScanStatus::Error { message: arbitrary() },
    }
}

/// The message of a scan status that is an error.
pub open spec fn scan_error_message(status: Option<i64>) -> Seq<char> {
    match status {
        Some(code) => if code == 5 {
            NOT_ELIGIBLE_MESSAGE@
        } else {
            "unsupported WeChat scan status: "@ + crate::numbers::signed_decimal(code as int)
        },
        None => "WeChat scan response did not include status"@,
    }
}

/// Whether the code is one of the known non-error codes.
pub open spec fn is_known_scan_code(status: Option<i64>) -> bool {
    match status {
        Some(code) => 0 <= code <= 6 && code != 5,
        None => false,
    }
}

/// The scan status for the platform's code and account count.
pub fn map_scan_status(status: Option<i64>, account_count: u32) -> (r: LoginScanStatus)
    ensures
        is_known_scan_code(status) ==> r == scan_status_of(status, account_count),
        !is_known_scan_code(status) ==> (r matches LoginScanStatus::Error { message }
            && message@ == scan_error_message(status)),
{
    match status {
        Some(code) => {
            if code == 0 {
                LoginScanStatus::Waiting
            } else if code == 1 {
                LoginScanStatus::Confirmed { account_count }
            } else if code == 2 || code == 3 {
                LoginScanStatus::Expired
            } else if code == 4 || code == 6 {
                LoginScanStatus::Scanned { account_count }
            } else if code == 5 {
                LoginScanStatus::Error { message: String::from_str(NOT_ELIGIBLE_MESSAGE) }
            } else {
                let mut out = chars_of("unsupported WeChat scan status: ");
                crate::text::push_all(&mut out, &crate::numbers::i64_to_decimal(code));
                LoginScanStatus::Error { message: string_of(out.as_slice()) }
            }
        },
        None => LoginScanStatus::Error {
            message: String::from_str("WeChat scan response did not include status"),
        },
    }
}

/// The scan status of a poll response: the mapped code when the response status is success,
/// otherwise an error with the response's message.
pub fn scan_status_from_response(
    base_resp: Option<&crate::wechat_response::WeChatBaseResponse>,
    status: Option<i64>,
    account_count: u32,
) -> (r: LoginScanStatus)
    ensures
        crate::wechat_response::base_response_error(crate::wechat_response::base_response_view(
            match base_resp {
                Some(b) => Some(*b),
                None => None,
            },
        )) matches Some(e) ==> (r matches LoginScanStatus::Error { message } && message@ == e),
        crate::wechat_response::base_response_error(crate::wechat_response::base_response_view(
            match base_resp {
                Some(b) => Some(*b),
                None => None,
            },
        )) is None ==> (is_known_scan_code(status) ==> r == scan_status_of(status, account_count))
            && (!is_known_scan_code(status) ==> (r matches LoginScanStatus::Error { message }
            && message@ == scan_error_message(status))),
{
    match crate::wechat_response::ensure_base_response_ok(base_resp) {
        Ok(()) => map_scan_status(status, account_count),
        Err(message) => LoginScanStatus::Error { message },
    }
}

/// The login transport: the platform's start, poll and finish of a QR login. Each
/// `*_answer_allowed` says which answers the transport may give; a transport that describes
/// nothing may give any.
pub trait OfficialAccountLoginTransport {
    open spec fn start_answer_allowed(&self, answer: Result<StartLoginPayload, String>) -> bool {
        true
    }

    open spec fn poll_answer_allowed(
        &self,
        session_id: Seq<char>,
        answer: Result<LoginPollPayload, String>,
    ) -> bool {
        true
    }

    open spec fn finalize_answer_allowed(
        &self,
        session_id: Seq<char>,
        answer: Result<LoginFinalizePayload, String>,
    ) -> bool {
        true
    }

    fn start_login(&self) -> (r: Result<StartLoginPayload, String>)
        ensures
            self.start_answer_allowed(r),
    ;

    fn poll_scan_status(&self, session_id: &str) -> (r: Result<LoginPollPayload, String>)
        ensures
            self.poll_answer_allowed(session_id@, r),
    ;

    fn finalize_login(&self, session_id: &str) -> (r: Result<LoginFinalizePayload, String>)
        ensures
            self.finalize_answer_allowed(session_id@, r),
    ;
}

/// Where the ids of started, unfinished login sessions are kept.
pub trait LoginSessionStore {
    /// Whether the session `id` is kept.
    spec fn has_session(&self, id: Seq<char>) -> bool;

    fn contains(&self, session_id: &str) -> (r: bool)
        ensures
            r == self.has_session(session_id@),
    ;

    fn insert(&mut self, session_id: &str)
        ensures
            forall|id: Seq<char>|
                #[trigger] final(self).has_session(id) == (old(self).has_session(id) || id
                    == session_id@),
    ;

    fn remove(&mut self, session_id: &str)
        ensures
            forall|id: Seq<char>|
                #[trigger] final(self).has_session(id) == (old(self).has_session(id) && id
                    != session_id@),
    ;
}

/// The ids of the login sessions that were started and not yet finished. Clients that are
/// built one after another over `&mut` the same store share its sessions.
#[derive(Debug)]
pub struct InMemoryLoginSessionStore {
    sessions: Vec<String>,
}

impl InMemoryLoginSessionStore {
    /// Whether the store holds `id`.
    pub closed spec fn holds(&self, id: Seq<char>) -> bool {
        exists|i: int| 0 <= i < self.sessions@.len() && #[trigger] self.sessions@[i]@ == id
    }

    pub fn new() -> (r: Self)
        ensures
            forall|id: Seq<char>| !r.holds(id),
    {
        InMemoryLoginSessionStore { sessions: Vec::new() }
    }

    /// Whether the store holds `session_id`.
    pub fn contains(&self, session_id: &str) -> (r: bool)
        ensures
            r == self.holds(session_id@),
    {
        let mut k: usize = 0;
        while k < self.sessions.len()
            invariant
                k <= self.sessions@.len(),
                forall|i: int| 0 <= i < k ==> #[trigger] self.sessions@[i]@ != session_id@,
            decreases self.sessions.len() - k,
        {
            if crate::archive_store::str_eq(self.sessions[k].as_str(), session_id) {
                return true;
            }
            k = k + 1;
        }
        false
    }

    /// Adds `session_id`.
    pub fn insert(&mut self, session_id: &str)
        ensures
            forall|id: Seq<char>| final(self).holds(id) == (old(self).holds(id) || id == session_id@),
    {
        if !self.contains(session_id) {
            self.sessions.push(String::from_str(session_id));
            let ghost n = self.sessions@.len() - 1;
            assert forall|id: Seq<char>| self.holds(id) == (old(self).holds(id) || id
                == session_id@) by {
                if old(self).holds(id) {
                    let i = choose|i: int|
                        0 <= i < old(self).sessions@.len() && #[trigger] old(self).sessions@[i]@
                            == id;
                    assert(self.sessions@[i] == old(self).sessions@[i]);
                }
                if id == session_id@ {
                    assert(self.sessions@[n]@ == id);
                }
                if self.holds(id) {
                    let i = choose|i: int|
                        0 <= i < self.sessions@.len() && #[trigger] self.sessions@[i]@ == id;
                    if i < n {
                        assert(old(self).sessions@[i] == self.sessions@[i]);
                    }
                }
            }
        }
    }

    /// Removes `session_id`.
    pub fn remove(&mut self, session_id: &str)
        ensures
            forall|id: Seq<char>| final(self).holds(id) == (old(self).holds(id) && id != session_id@),
    {
        let mut kept: Vec<String> = Vec::new();
        let mut k: usize = 0;
        while k < self.sessions.len()
            invariant
                k <= self.sessions@.len(),
                forall|i: int| 0 <= i < kept@.len() ==> #[trigger] kept@[i]@ != session_id@,
                forall|i: int|
                    0 <= i < kept@.len() ==> exists|j: int|
                        0 <= j < k && #[trigger] self.sessions@[j]@ == #[trigger] kept@[i]@,
                forall|j: int|
                    0 <= j < k && #[trigger] self.sessions@[j]@ != session_id@ ==> exists|i: int|
                        0 <= i < kept@.len() && #[trigger] kept@[i]@ == self.sessions@[j]@,
            decreases self.sessions.len() - k,
        {
            let s = &self.sessions[k];
            if !crate::archive_store::str_eq(s.as_str(), session_id) {
                let c = s.clone();
                let ghost prev = kept@;
                kept.push(c);
                let ghost n = kept@.len() - 1;
                assert(kept@[n]@ == self.sessions@[k as int]@);
                assert forall|i: int| 0 <= i < kept@.len() implies exists|j: int|
                    0 <= j < k + 1 && #[trigger] self.sessions@[j]@ == #[trigger] kept@[i]@ by {
                    if i == n {
                        assert(self.sessions@[k as int]@ == kept@[i]@);
                    } else {
                        assert(kept@[i] == prev[i]);
                        let j = choose|j: int|
                            0 <= j < k && #[trigger] self.sessions@[j]@ == #[trigger] prev[i]@;
                        assert(self.sessions@[j]@ == kept@[i]@);
                    }
                }
                assert forall|j: int|
                    0 <= j < k + 1 && #[trigger] self.sessions@[j]@ != session_id@ implies exists|
                    i: int,
                | 0 <= i < kept@.len() && #[trigger] kept@[i]@ == self.sessions@[j]@ by {
                    if j == k {
                        assert(kept@[n]@ == self.sessions@[j]@);
                    } else {
                        let i = choose|i: int|
                            0 <= i < prev.len() && #[trigger] prev[i]@ == self.sessions@[j]@;
                        assert(kept@[i] == prev[i]);
                        assert(kept@[i]@ == self.sessions@[j]@);
                    }
                }
            }
            k = k + 1;
        }
        let ghost old_sessions = self.sessions@;
        self.sessions = kept;
        assert forall|id: Seq<char>| self.holds(id) == (old(self).holds(id) && id
            != session_id@) by {
            if self.holds(id) {
                let i = choose|i: int|
                    0 <= i < self.sessions@.len() && #[trigger] self.sessions@[i]@ == id;
                let j = choose|j: int|
                    0 <= j < old_sessions.len() && #[trigger] old_sessions[j]@
                        == #[trigger] self.sessions@[i]@;
                assert(old(self).sessions@[j]@ == id);
            }
            if old(self).holds(id) && id != session_id@ {
                let j = choose|j: int|
                    0 <= j < old(self).sessions@.len() && #[trigger] old(self).sessions@[j]@ == id;
                assert(old_sessions[j]@ != session_id@);
                let i = choose|i: int|
                    0 <= i < self.sessions@.len() && #[trigger] self.sessions@[i]@
                        == old_sessions[j]@;
                assert(self.sessions@[i]@ == id);
            }
        }
    }
}

impl LoginSessionStore for InMemoryLoginSessionStore {
    open spec fn has_session(&self, id: Seq<char>) -> bool {
        self.holds(id)
    }

    fn contains(&self, session_id: &str) -> (r: bool) {
        InMemoryLoginSessionStore::contains(self, session_id)
    }

    fn insert(&mut self, session_id: &str) {
        InMemoryLoginSessionStore::insert(self, session_id)
    }

    fn remove(&mut self, session_id: &str) {
        InMemoryLoginSessionStore::remove(self, session_id)
    }
}

/// A session store lent to a client for a while: its sessions are the lent store's.
impl<'a> LoginSessionStore for &'a mut InMemoryLoginSessionStore {
    open spec fn has_session(&self, id: Seq<char>) -> bool {
        (**self).holds(id)
    }

    fn contains(&self, session_id: &str) -> (r: bool) {
        InMemoryLoginSessionStore::contains(&**self, session_id)
    }

    fn insert(&mut self, session_id: &str) {
        InMemoryLoginSessionStore::insert(&mut **self, session_id)
    }

    fn remove(&mut self, session_id: &str) {
        InMemoryLoginSessionStore::remove(&mut **self, session_id)
    }
}

impl Default for InMemoryLoginSessionStore {
    fn default() -> (r: Self)
        ensures
            forall|id: Seq<char>| !r.holds(id),
    {
        InMemoryLoginSessionStore::new()
    }
}

/// The login secret as the JSON text that the secret store keeps: an object with `token`,
/// `cookieHeader`, `profile` (`nickname`, `avatarUrl`) and `expiresAt`, in that order.
pub open spec fn login_secret_json(secret: OfficialAccountLoginSecret) -> Seq<char> {
    "{\"token\":"@ + json_string(secret.token@) + ",\"cookieHeader\":"@ + json_string(
        secret.cookie_header@,
    ) + ",\"profile\":{\"nickname\":"@ + json_string(secret.profile.nickname@)
        + ",\"avatarUrl\":"@ + json_string(secret.profile.avatar_url@) + "},\"expiresAt\":"@
        + json_string(secret.expires_at@) + "}"@
}

/// The JSON text of a login secret.
pub fn serialize_login_secret(secret: &OfficialAccountLoginSecret) -> (r: String)
    ensures
        r@ == login_secret_json(*secret),
{
    let mut out = chars_of("{\"token\":");
    push_json_string(&mut out, secret.token.as_str());
    crate::text::push_all(&mut out, &chars_of(",\"cookieHeader\":"));
    push_json_string(&mut out, secret.cookie_header.as_str());
    crate::text::push_all(&mut out, &chars_of(",\"profile\":{\"nickname\":"));
    push_json_string(&mut out, secret.profile.nickname.as_str());
    crate::text::push_all(&mut out, &chars_of(",\"avatarUrl\":"));
    push_json_string(&mut out, secret.profile.avatar_url.as_str());
    crate::text::push_all(&mut out, &chars_of("},\"expiresAt\":"));
    push_json_string(&mut out, secret.expires_at.as_str());
    crate::text::push_all(&mut out, &chars_of("}"));
    string_of(out.as_slice())
}

/// The account shown for a login secret.
pub open spec fn account_of(secret: OfficialAccountLoginSecret) -> (Seq<char>, Seq<char>, Seq<char>) {
    (secret.profile.nickname@, secret.profile.avatar_url@, secret.expires_at@)
}

/// The view of an account.
pub open spec fn account_view(account: OfficialAccountLoginAccount) -> (Seq<char>, Seq<char>, Seq<
    char,
>) {
    (account.nickname@, account.avatar_url@, account.expires_at@)
}

/// The first query value named `token` in `pairs`, if it is not empty.
pub open spec fn token_in_pairs(pairs: Seq<(Seq<char>, Seq<char>)>) -> Option<Seq<char>>
    decreases pairs.len(),
{
    if pairs.len() == 0 {
        None
    } else if pairs[0].0 == "token"@ {
        if pairs[0].1.len() > 0 {
            Some(pairs[0].1)
        } else {
            None
        }
    } else {
        token_in_pairs(pairs.drop_first())
    }
}

/// The URL that a login redirect is read as: absolute as it stands, otherwise under
/// `http://localhost`.
pub open spec fn redirect_target(redirect_url: Seq<char>) -> Seq<char> {
    if crate::text::starts_with(redirect_url, "http://"@) || crate::text::starts_with(
        redirect_url,
        "https://"@,
    ) {
        redirect_url
    } else {
        "http://localhost"@ + redirect_url
    }
}

/// The session token of a login redirect: the first non-empty `token` query value, or an error.
pub open spec fn redirect_token(redirect_url: Seq<char>) -> Result<Seq<char>, Seq<char>> {
    match url_parse(redirect_target(redirect_url)) {
        Err(e) => Err(e),
        Ok(u) => match token_in_pairs(u.query_pairs) {
            Some(t) => Ok(t),
            None => Err("redirect_url did not include token: "@ + redirect_url),
        },
    }
}

/// The session token named in a login redirect URL.
pub fn token_from_redirect_url(redirect_url: &str) -> (r: Result<String, String>)
    ensures
        r matches Ok(t) ==> redirect_token(redirect_url@) == Ok::<Seq<char>, Seq<char>>(t@),
        r matches Err(e) ==> redirect_token(redirect_url@) == Err::<Seq<char>, Seq<char>>(e@),
{
    let text = chars_of(redirect_url);
    let http = chars_of("http://");
    let https = chars_of("https://");
    let target = if crate::text::matches_at_exec(&text, 0, &http) || crate::text::matches_at_exec(
        &text,
        0,
        &https,
    ) {
        String::from_str(redirect_url)
    } else {
        let mut t = chars_of("http://localhost");
        crate::text::push_all(&mut t, &text);
        string_of(t.as_slice())
    };
    assert(target@ == redirect_target(redirect_url@));
    let url = match parse_url(target.as_str()) {
        Ok(url) => url,
        Err(e) => {
            return Err(e);
        },
    };
    let ghost pairs = url@.query_pairs;
    let mut msg = chars_of("redirect_url did not include token: ");
    crate::text::push_all(&mut msg, &text);
    let missing = string_of(msg.as_slice());
    assert(pairs.subrange(0, pairs.len() as int) =~= pairs);
    let mut k: usize = 0;
    while k < url.query_pairs.len()
        invariant
            k <= url.query_pairs@.len(),
            pairs == url@.query_pairs,
            pairs.len() == url.query_pairs@.len(),
            url_parse(redirect_target(redirect_url@)) == Ok::<crate::web_url::ParsedUrlView, Seq<char>>(url@),
            missing@ == "redirect_url did not include token: "@ + redirect_url@,
            token_in_pairs(pairs) == token_in_pairs(pairs.subrange(k as int, pairs.len() as int)),
        decreases url.query_pairs.len() - k,
    {
        let ghost rest = pairs.subrange(k as int, pairs.len() as int);
        assert(rest[0] == (url.query_pairs@[k as int].0@, url.query_pairs@[k as int].1@));
        assert(rest.drop_first() =~= pairs.subrange(k + 1, pairs.len() as int));
        let (key, value) = (&url.query_pairs[k].0, &url.query_pairs[k].1);
        if crate::archive_store::str_eq(key.as_str(), "token") {
            if value.as_str().unicode_len() > 0 {
                return Ok(value.clone());
            } else {
                return Err(missing);
            }
        }
        k = k + 1;
    }
    assert(pairs.subrange(k as int, pairs.len() as int).len() == 0);
    Err(missing)
}

/// What a page's script assigns to `key` as a double-quoted string: the text between the
/// first `"` after the first `=` that follows `key` (white space may stand before the `"`,
/// nothing else), and the next `"`.
pub open spec fn quoted_js_value(html: Seq<char>, key: Seq<char>) -> Option<Seq<char>> {
    match find_from(html, key, 0) {
        None => None,
        Some(p) => match find_from(html, seq!['='], p + key.len()) {
            None => None,
            Some(e) => {
                let t = skip_whitespace(html, e + 1);
                if t < html.len() && html[t] == '"' {
                    match find_from(html, seq!['"'], t + 1) {
                        Some(c) => Some(html.subrange(t + 1, c)),
                        None => None,
                    }
                } else {
                    None
                }
            },
        },
    }
}

/// The quoted string that a page's script assigns to `key`.
pub fn extract_quoted_js_value(html: &str, key: &str) -> (r: Option<String>)
    ensures
        r matches Some(v) ==> quoted_js_value(html@, key@) == Some(v@),
        r is None ==> quoted_js_value(html@, key@) is None,
{
    let h = chars_of(html);
    let k = chars_of(key);
    let h_len = h.len();
    let p = match crate::text::find_chars(&h, &k, 0) {
        Some(p) => p,
        None => {
            return None;
        },
    };
    proof {
        crate::text::lemma_find_from(h@, k@, 0);
    }
    let e = match crate::text::find_char(&h, '=', p + k.len()) {
        Some(e) => e,
        None => {
            return None;
        },
    };
    proof {
        crate::text::lemma_find_from(h@, seq!['='], p + k@.len());
        assert(crate::text::matches_at(h@, e as int, seq!['=']));
        assert(seq!['='].len() == 1);
        assert(e < h@.len());
    }
    let t = crate::text::skip_whitespace_exec(&h, e + 1);
    if t < h.len() && h[t] == '"' {
        match crate::text::find_char(&h, '"', t + 1) {
            Some(c) => {
                proof {
                    crate::text::lemma_find_from(h@, seq!['"'], t + 1);
                }
                Some(string_of(crate::text::slice_chars(&h, t + 1, c).as_slice()))
            },
            None => None,
        }
    } else {
        None
    }
}

/// The account profile that the platform's home page states: the nickname is required,
/// the avatar URL is empty when the page does not state one.
pub fn profile_from_home_page(html: &str) -> (r: Result<OfficialAccountLoginProfile, String>)
    ensures
        quoted_js_value(html@, "wx.cgiData.nick_name"@) is None ==> (r matches Err(e) && e@
            == "could not extract Official Account nickname"@),
        quoted_js_value(html@, "wx.cgiData.nick_name"@) matches Some(n) ==> (r matches Ok(p)
            && p.nickname@ == n && p.avatar_url@ == match quoted_js_value(
            html@,
            "wx.cgiData.head_img"@,
        ) {
            Some(a) => a,
            None => Seq::<char>::empty(),
        }),
{
    let nickname = match extract_quoted_js_value(html, "wx.cgiData.nick_name") {
        Some(n) => n,
        None => {
            return Err(String::from_str("could not extract Official Account nickname"));
        },
    };
    let avatar_url = match extract_quoted_js_value(html, "wx.cgiData.head_img") {
        Some(a) => a,
        None => String::new(),
    };
    Ok(OfficialAccountLoginProfile { nickname, avatar_url })
}

/// The cookie a `Set-Cookie` value sets, as `name=value`, unless it expires it or is not a
/// pair: the text before the first `;`, trimmed.
pub open spec fn cookie_pair(set_cookie: Seq<char>) -> Option<Seq<char>> {
    let name_value = crate::text::split_on(set_cookie, ';')[0];
    if crate::text::ends_with(name_value, "=EXPIRED"@) || !name_value.contains('=') {
        None
    } else {
        Some(crate::text::trim(name_value))
    }
}

/// The kept cookie pairs of a sequence of `Set-Cookie` values, in order.
pub open spec fn cookie_pairs(set_cookies: Seq<Seq<char>>) -> Seq<Seq<char>>
    decreases set_cookies.len(),
{
    if set_cookies.len() == 0 {
        Seq::empty()
    } else {
        let rest = cookie_pairs(set_cookies.drop_last());
        match cookie_pair(set_cookies.last()) {
            Some(p) => rest.push(p),
            None => rest,
        }
    }
}

/// The `Cookie` header for the cookies that a response sets, joined with `; `.
pub fn cookie_header_from_set_cookies(set_cookies: &Vec<String>) -> (r: String)
    ensures
        r@ == crate::text::join(
            cookie_pairs(set_cookies@.map_values(|s: String| s@)),
            "; "@,
        ),
{
    let ghost all = set_cookies@.map_values(|s: String| s@);
    let mut values: Vec<Vec<char>> = Vec::new();
    let expired = chars_of("=EXPIRED");
    let mut k: usize = 0;
    while k < set_cookies.len()
        invariant
            k <= set_cookies@.len(),
            all == set_cookies@.map_values(|s: String| s@),
            expired@ == "=EXPIRED"@,
            crate::text::views(values@) == cookie_pairs(all.take(k as int)),
        decreases set_cookies.len() - k,
    {
        assert(all.take(k as int + 1).drop_last() =~= all.take(k as int));
        let cookie = chars_of(set_cookies[k].as_str());
        let pieces = crate::text::split_chars(&cookie, ';');
        assert(crate::text::views(pieces@).len() == pieces@.len());
        let name_value = &pieces[0];
        assert(crate::text::views(pieces@)[0] == name_value@);
        let ends = crate::text::ends_with_exec(name_value, &expired);
        let has_eq = crate::text::find_char(name_value, '=', 0).is_some();
        proof {
            crate::text::lemma_find_from(name_value@, seq!['='], 0);
            if name_value@.contains('=') {
                let i = choose|i: int| 0 <= i < name_value@.len() && name_value@[i] == '=';
                assert(name_value@.subrange(i, i + 1) =~= seq!['=']);
                assert(crate::text::matches_at(name_value@, i, seq!['=']));
            }
            if has_eq {
                let i = crate::text::find_from(name_value@, seq!['='], 0)->0;
                assert(name_value@.subrange(i, i + 1)[0] == '=');
                assert(name_value@[i] == '=');
            }
        }
        if !ends && has_eq {
            values.push(crate::text::trim_chars(name_value));
        }
        k = k + 1;
    }
    assert(all.take(set_cookies@.len() as int) =~= all);
    let sep = chars_of("; ");
    string_of(crate::text::join_chars(&values, &sep).as_slice())
}

/// The cookie header after a response: the existing header, the response's, or both joined
/// with `; `.
pub open spec fn merged_cookies(existing: Seq<char>, response: Seq<char>) -> Seq<char> {
    if response.len() == 0 {
        existing
    } else if existing.len() == 0 {
        response
    } else {
        existing + "; "@ + response
    }
}

/// The cookie header to send after a response that set `response_cookie_header`.
pub fn merged_cookie_header(existing_cookie_header: &str, response_cookie_header: &str) -> (r: String)
    ensures
        r@ == merged_cookies(existing_cookie_header@, response_cookie_header@),
{
    if response_cookie_header.unicode_len() == 0 {
        String::from_str(existing_cookie_header)
    } else if existing_cookie_header.unicode_len() == 0 {
        String::from_str(response_cookie_header)
    } else {
        let mut out = chars_of(existing_cookie_header);
        crate::text::push_all(&mut out, &chars_of("; "));
        crate::text::push_all(&mut out, &chars_of(response_cookie_header));
        string_of(out.as_slice())
    }
}

/// The id of a login session started at `unix_millis`.
pub fn generate_session_id(unix_millis: u128) -> (r: String)
    ensures
        r@ == "desktop-"@ + crate::numbers::decimal(unix_millis as nat),
{
    let mut out = chars_of("desktop-");
    crate::text::push_all(&mut out, &crate::numbers::u128_to_decimal(unix_millis));
    string_of(out.as_slice())
}

/// Four days in seconds.
pub const LOGIN_SECRET_LIFETIME_SECONDS: u64 = 345600;

/// When a login made at `unix_seconds` expires: `unix:<seconds four days later>`.
pub fn four_days_from(unix_seconds: u64) -> (r: String)
    requires
        unix_seconds + LOGIN_SECRET_LIFETIME_SECONDS <= u64::MAX,
    ensures
        r@ == "unix:"@ + crate::numbers::decimal((unix_seconds + LOGIN_SECRET_LIFETIME_SECONDS) as nat),
{
    let mut out = chars_of("unix:");
    crate::text::push_all(
        &mut out,
        &crate::numbers::u128_to_decimal((unix_seconds + LOGIN_SECRET_LIFETIME_SECONDS) as u128),
    );
    string_of(out.as_slice())
}

/// The milliseconds since the Unix epoch by the system clock (0 before the epoch). Nothing is
/// stated of the value: it is the time.
#[verifier::external_body]
fn current_unix_millis() -> u128 {
    std::time::SystemTime::now().duration_since(std::time::UNIX_EPOCH).unwrap_or_default().as_millis()
}

/// The id of a login session started now: `desktop-` and the clock's milliseconds.
pub fn new_session_id() -> (r: String)
    ensures
        exists|millis: nat| r@ == "desktop-"@ + crate::numbers::decimal(millis),
{
    generate_session_id(current_unix_millis())
}

/// The expiry of a login made now: `unix:` and a number of seconds.
pub fn four_days_from_now() -> (r: String)
    ensures
        exists|seconds: nat| r@ == "unix:"@ + crate::numbers::decimal(seconds),
{
    let now = crate::article_reading_enrichment::current_unix_seconds();
    let seconds: u64 = if now < 0 {
        0
    } else {
        now as u64
    };
    if seconds <= u64::MAX - LOGIN_SECRET_LIFETIME_SECONDS {
        four_days_from(seconds)
    } else {
        four_days_from(u64::MAX - LOGIN_SECRET_LIFETIME_SECONDS)
    }
}

/// The Base64 alphabet of the standard engine.
pub open spec fn base64_char(v: int) -> char {
    if v < 26 {
        (65 + v) as char
    } else if v < 52 {
        (71 + v) as char
    } else if v < 62 {
        (v - 4) as char
    } else if v == 62 {
        '+'
    } else {
        '/'
    }
}

/// Standard Base64 with `=` padding.
pub open spec fn base64_standard(b: Seq<u8>) -> Seq<char>
    decreases b.len(),
{
    if b.len() == 0 {
        Seq::empty()
    } else if b.len() == 1 {
        let n = b[0] as int * 65536;
        seq![base64_char(n / 262144), base64_char((n / 4096) % 64), '=', '=']
    } else if b.len() == 2 {
        let n = b[0] as int * 65536 + b[1] as int * 256;
        seq![base64_char(n / 262144), base64_char((n / 4096) % 64), base64_char((n / 64) % 64), '=']
    } else {
        let n = b[0] as int * 65536 + b[1] as int * 256 + b[2] as int;
        seq![
            base64_char(n / 262144),
            base64_char((n / 4096) % 64),
            base64_char((n / 64) % 64),
            base64_char(n % 64),
        ] + base64_standard(b.skip(3))
    }
}

/// `base64::engine::general_purpose::STANDARD.encode`: standard Base64 with padding, which
/// the contract states in full.
#[verifier::external_body]
fn base64_encode(bytes: &[u8]) -> (r: String)
    ensures
        r@ == base64_standard(bytes@),
{
    base64::Engine::encode(&base64::engine::general_purpose::STANDARD, bytes)
}

/// The media type of a QR code response: the `Content-Type` value up to its first `;`, or
/// `image/png` when there is none.
pub open spec fn qr_media_type(content_type: Option<Seq<char>>) -> Seq<char> {
    match content_type {
        Some(t) => crate::text::split_on(t, ';')[0],
        None => "image/png"@,
    }
}

/// The `data:` URL of a QR code image.
pub fn qr_code_data_url(content_type: Option<&str>, bytes: &[u8]) -> (r: String)
    ensures
        r@ == "data:"@ + qr_media_type(
            match content_type {
                Some(t) => Some(t@),
                None => None,
            },
        ) + ";base64,"@ + base64_standard(bytes@),
{
    let media = match content_type {
        Some(t) => {
            let pieces = crate::text::split_chars(&chars_of(t), ';');
            assert(crate::text::views(pieces@).len() == pieces@.len());
            assert(crate::text::views(pieces@)[0] == pieces@[0]@);
            pieces[0].clone()
        },
        None => chars_of("image/png"),
    };
    let mut out = chars_of("data:");
    crate::text::push_all(&mut out, &media);
    crate::text::push_all(&mut out, &chars_of(";base64,"));
    crate::text::push_all(&mut out, &chars_of(base64_encode(bytes).as_str()));
    string_of(out.as_slice())
}

/// The check a started login passes: a success status and a session cookie.
pub fn check_started_login(
    base_resp: Option<&crate::wechat_response::WeChatBaseResponse>,
    start_cookies: &str,
) -> (r: Result<(), String>)
    ensures
        crate::wechat_response::base_response_error(crate::wechat_response::base_response_view(
            match base_resp {
                Some(b) => Some(*b),
                None => None,
            },
        )) matches Some(e) ==> (r matches Err(m) && m@ == e),
        crate::wechat_response::base_response_error(crate::wechat_response::base_response_view(
            match base_resp {
                Some(b) => Some(*b),
                None => None,
            },
        )) is None ==> (start_cookies@.len() == 0 ==> (r matches Err(m) && m@
            == "WeChat did not return a login session cookie"@)) && (start_cookies@.len() > 0
            ==> r is Ok),
{
    crate::wechat_response::ensure_base_response_ok(base_resp)?;
    if start_cookies.unicode_len() == 0 {
        return Err(String::from_str("WeChat did not return a login session cookie"));
    }
    Ok(())
}

/// The login session a started login gives back, or the transport's error.
pub fn login_session_from_start(payload: Result<StartLoginPayload, String>) -> (r: Result<
    OfficialAccountLoginSession,
    OfficialAccountLoginError,
>)
    ensures
        payload matches Ok(p) ==> (r matches Ok(s) && s.session_id == p.session_id
            && s.qr_code_data_url == p.qr_code_data_url && s.message@
            == OFFICIAL_ACCOUNT_LOGIN_MESSAGE@),
        payload matches Err(e) ==> r == Err::<OfficialAccountLoginSession, OfficialAccountLoginError>(
            OfficialAccountLoginError::Transport(e),
        ),
{
    match payload {
        Ok(p) => Ok(
            OfficialAccountLoginSession {
                session_id: p.session_id,
                qr_code_data_url: p.qr_code_data_url,
                message: String::from_str(OFFICIAL_ACCOUNT_LOGIN_MESSAGE),
            },
        ),
        Err(e) => Err(OfficialAccountLoginError::Transport(e)),
    }
}

/// The account shown for a finished login.
pub fn account_from_secret(secret: &OfficialAccountLoginSecret) -> (r: OfficialAccountLoginAccount)
    ensures
        account_view(r) == account_of(*secret),
{
    OfficialAccountLoginAccount {
        nickname: secret.profile.nickname.clone(),
        avatar_url: secret.profile.avatar_url.clone(),
        expires_at: secret.expires_at.clone(),
    }
}

/// Drives a QR login: starts sessions, polls them, and keeps the secret of a finished one.
pub struct OfficialAccountLoginClient<T, S, B> {
    transport: T,
    session_store: S,
    secret_store: SecretStore<B>,
}

impl<T: OfficialAccountLoginTransport, S: LoginSessionStore, B: SecretBackend> OfficialAccountLoginClient<
    T,
    S,
    B,
> {
    pub closed spec fn sessions(&self) -> S {
        self.session_store
    }

    pub closed spec fn secrets(&self) -> Map<SecretSlot, Seq<char>> {
        self.secret_store.stored()
    }

    /// The transport the client logs in through.
    pub closed spec fn transport(&self) -> T {
        self.transport
    }

    pub fn new(transport: T, session_store: S, secret_store: SecretStore<B>) -> (r: Self)
        ensures
            r.sessions() == session_store,
            r.secrets() == secret_store.stored(),
            r.transport() == transport,
    {
        OfficialAccountLoginClient { transport, session_store, secret_store }
    }

    /// The sessions the client knows.
    pub fn session_store(&self) -> (r: &S)
        ensures
            *r == self.sessions(),
    {
        &self.session_store
    }

    /// The secret store the client writes to.
    pub fn secret_store(&self) -> (r: &SecretStore<B>)
        ensures
            r.stored() == self.secrets(),
    {
        &self.secret_store
    }

    /// Ends the client and hands back its session store, with the sessions it now holds, so
    /// that the next client can be built over it.
    pub fn into_session_store(self) -> (r: S)
        ensures
            r == self.sessions(),
    {
        self.session_store
    }

    /// Starts a login and remembers its session: the session the transport started, or the
    /// transport's error.
    pub fn start_login(&mut self) -> (r: Result<OfficialAccountLoginSession, OfficialAccountLoginError>)
        ensures
            r matches Ok(s) ==> s.message@ == OFFICIAL_ACCOUNT_LOGIN_MESSAGE@ && forall|id: Seq<char>|
                #[trigger] final(self).sessions().has_session(id) == (old(self).sessions().has_session(id) || id
                    == s.session_id@),
            r matches Ok(s) ==> exists|p: StartLoginPayload|
                #[trigger] old(self).transport().start_answer_allowed(Ok(p)) && p.session_id
                    == s.session_id && p.qr_code_data_url == s.qr_code_data_url,
            r matches Err(e) ==> e is Transport && final(self).sessions() == old(self).sessions(),
            r matches Err(OfficialAccountLoginError::Transport(m)) ==> old(self).transport().start_answer_allowed(
                Err(m),
            ),
            final(self).secrets() == old(self).secrets(),
            final(self).transport() == old(self).transport(),
    {
        let payload = self.transport.start_login();
        let ghost answer = payload;
        let ghost before = *self;
        let session = login_session_from_start(payload);
        if let Ok(s) = &session {
            self.session_store.insert(s.session_id.as_str());
            proof {
                let p = answer->Ok_0;
                assert(before.transport().start_answer_allowed(Ok(p)));
            }
        }
        session
    }

    /// An error unless the session was started here and not yet finished.
    pub fn ensure_session_exists(&self, session_id: &str) -> (r: Result<(), OfficialAccountLoginError>)
        ensures
            r is Ok <==> self.sessions().has_session(session_id@),
            r matches Err(e) ==> (e matches OfficialAccountLoginError::LoginSessionNotFound(id)
                && id@ == session_id@),
    {
        if self.session_store.contains(session_id) {
            Ok(())
        } else {
            Err(OfficialAccountLoginError::LoginSessionNotFound(String::from_str(session_id)))
        }
    }

    /// The scan status of a started session, as the transport reports it for that session.
    pub fn poll_scan_status(&self, session_id: &str) -> (r: Result<LoginScanStatus, OfficialAccountLoginError>)
        ensures
            !self.sessions().has_session(session_id@) ==> (r matches Err(
                OfficialAccountLoginError::LoginSessionNotFound(id),
            ) && id@ == session_id@),
            self.sessions().has_session(session_id@) ==> (r is Ok || r matches Err(
                OfficialAccountLoginError::Transport(_),
            )),
            r matches Ok(status) ==> exists|p: LoginPollPayload|
                #[trigger] self.transport().poll_answer_allowed(session_id@, Ok(p)) && p.status
                    == status,
            r matches Err(OfficialAccountLoginError::Transport(m)) ==> self.transport().poll_answer_allowed(
                session_id@,
                Err(m),
            ),
    {
        self.ensure_session_exists(session_id)?;
        match self.transport.poll_scan_status(session_id) {
            Ok(payload) => {
                assert(self.transport().poll_answer_allowed(session_id@, Ok(payload)));
                Ok(payload.status)
            },
            Err(e) => Err(OfficialAccountLoginError::Transport(e)),
        }
    }

    /// Finishes a started login: keeps the secret the transport finished it with in the login
    /// slot, forgets the session and returns the account.
    pub fn finalize_login(&mut self, session_id: &str) -> (r: Result<
        OfficialAccountLoginAccount,
        OfficialAccountLoginError,
    >)
        ensures
            !old(self).sessions().has_session(session_id@) ==> (r matches Err(
                OfficialAccountLoginError::LoginSessionNotFound(id),
            ) && id@ == session_id@),
            old(self).sessions().has_session(session_id@) ==> !(r matches Err(
                OfficialAccountLoginError::LoginSessionNotFound(_),
            )),
            r matches Ok(a) ==> exists|p: LoginFinalizePayload|
                #[trigger] old(self).transport().finalize_answer_allowed(session_id@, Ok(p))
                    && account_of(p.secret) == account_view(a) && (B::obeys_store_laws()
                    ==> final(self).secrets() == old(self).secrets().insert(
                    SecretSlot::OfficialAccountLogin,
                    login_secret_json(p.secret),
                )),
            r matches Err(OfficialAccountLoginError::Transport(m)) ==> old(self).transport().finalize_answer_allowed(
                session_id@,
                Err(m),
            ),
            r is Ok ==> forall|id: Seq<char>|
                #[trigger] final(self).sessions().has_session(id) == (old(self).sessions().has_session(id) && id
                    != session_id@),
            r is Err ==> final(self).sessions() == old(self).sessions(),
            B::obeys_store_laws() ==> (r is Err ==> final(self).secrets() == old(self).secrets()),
            final(self).transport() == old(self).transport(),
    {
        self.ensure_session_exists(session_id)?;
        let payload = match self.transport.finalize_login(session_id) {
            Ok(payload) => payload,
            Err(e) => {
                return Err(OfficialAccountLoginError::Transport(e));
            },
        };
        let account = account_from_secret(&payload.secret);
        let serialized = serialize_login_secret(&payload.secret);
        match self.secret_store.save(SecretSlot::OfficialAccountLogin, serialized.as_str()) {
            Ok(()) => {},
            Err(e) => {
                return Err(OfficialAccountLoginError::SecretStore(e));
            },
        }
        self.session_store.remove(session_id);
        assert(old(self).transport().finalize_answer_allowed(session_id@, Ok(payload)));
        Ok(account)
    }

    /// Forgets the stored login.
    pub fn logout(&mut self) -> (r: Result<(), OfficialAccountLoginError>)
        ensures
            B::obeys_store_laws() ==> (r is Ok ==> final(self).secrets() == old(self).secrets().remove(
                SecretSlot::OfficialAccountLogin,
            )),
            r matches Err(e) ==> e is SecretStore,
            B::obeys_store_laws() ==> (r is Err ==> final(self).secrets() == old(self).secrets()),
            B::always_succeeds() ==> r is Ok,
            final(self).sessions() == old(self).sessions(),
    {
        match self.secret_store.delete(SecretSlot::OfficialAccountLogin) {
            Ok(()) => Ok(()),
            Err(e) => Err(OfficialAccountLoginError::SecretStore(e)),
        }
    }
}

} // verus!
