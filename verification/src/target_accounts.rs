//! Searching the platform for Official Accounts to follow.
use vstd::prelude::*;

use crate::archive_store::TargetAccountInput;
use crate::official_account_login::OfficialAccountLoginSecret;
use crate::secret_store::{SecretBackend, SecretSlot, SecretStore, SecretStoreError};
use crate::text::{chars_of, string_of, trim};
use crate::wechat_response::{base_response_error, base_response_view, WeChatBaseResponse};

verus! {

#[derive(Debug, Clone, Eq, PartialEq)]
pub enum TargetAccountSearchError {
    MissingOfficialAccountLogin,
    SecretStore(SecretStoreError),
    Serialization(String),
    Transport(String),
}

impl TargetAccountSearchError {
    /// The message shown for the error.
    pub fn message(&self) -> (r: String)
        ensures
            self is MissingOfficialAccountLogin ==> r@
                == "Official Account Login is required before searching Target Official Accounts"@,
            self matches TargetAccountSearchError::Serialization(e) ==> r@
                == "login secret parse failed: "@ + e@,
            self matches TargetAccountSearchError::Transport(e) ==> r@
                == "target account search failed: "@ + e@,
    {
        let (prefix, detail) = match self {
            TargetAccountSearchError::MissingOfficialAccountLogin => {
                return String::from_str(
                    "Official Account Login is required before searching Target Official Accounts",
                );
            },
            TargetAccountSearchError::SecretStore(e) => {
                return e.message();
            },
            TargetAccountSearchError::Serialization(e) => ("login secret parse failed: ", e.as_str()),
            TargetAccountSearchError::Transport(e) => ("target account search failed: ", e.as_str()),
        };
        let mut out = chars_of(prefix);
        crate::text::push_all(&mut out, &chars_of(detail));
        string_of(out.as_slice())
    }
}

#[derive(Clone, Debug, Eq, PartialEq)]
pub struct TargetAccountSearchRequest {
    pub keyword: String,
    pub begin: u32,
    pub count: u32,
    pub token: String,
    pub cookie_header: String,
}

#[derive(Clone, Debug, Eq, PartialEq)]
pub struct TargetAccountSearchResponse {
    pub total: u32,
    pub list: Vec<TargetAccountInput>,
}

/// Searches the platform's account directory.
pub trait TargetAccountSearchTransport {
    /// Whether the transport may answer `request` with `answer`. A transport that describes
    /// nothing may answer anything.
    open spec fn search_answer_allowed(
        &self,
        request: TargetAccountSearchRequest,
        answer: Result<TargetAccountSearchResponse, String>,
    ) -> bool {
        true
    }

    fn search(&self, request: TargetAccountSearchRequest) -> (r: Result<TargetAccountSearchResponse, String>)
        ensures
            self.search_answer_allowed(request, r),
    ;
}

/// `request` is the search request for `keyword` (trimmed), `begin` and `count`, signed
/// with `secret`.
pub open spec fn is_search_request(
    request: TargetAccountSearchRequest,
    secret: OfficialAccountLoginSecret,
    keyword: Seq<char>,
    begin: u32,
    count: u32,
) -> bool {
    &&& request.keyword@ == trim(keyword)
    &&& request.begin == begin
    &&& request.count == count
    &&& request.token@ == secret.token@
    &&& request.cookie_header@ == secret.cookie_header@
}

/// The search request for `keyword` (trimmed), signed with the login secret.
pub fn search_request(
    secret: &OfficialAccountLoginSecret,
    keyword: &str,
    begin: u32,
    count: u32,
) -> (r: TargetAccountSearchRequest)
    ensures
        r.keyword@ == trim(keyword@),
        r.begin == begin,
        r.count == count,
        r.token@ == secret.token@,
        r.cookie_header@ == secret.cookie_header@,
{
    TargetAccountSearchRequest {
        keyword: string_of(crate::text::trim_chars(&chars_of(keyword)).as_slice()),
        begin,
        count,
        token: secret.token.clone(),
        cookie_header: secret.cookie_header.clone(),
    }
}

/// The search result of a platform response: its error unless the keyword holds more than
/// white space and the status is success; otherwise its accounts and its total (the number
/// of accounts where the platform gives none).
pub fn search_response_from(
    keyword: &str,
    base_resp: Option<&WeChatBaseResponse>,
    list: Vec<TargetAccountInput>,
    total: Option<u32>,
) -> (r: Result<TargetAccountSearchResponse, String>)
    ensures
        trim(keyword@).len() == 0 ==> (r matches Err(e) && e@ == "search keyword cannot be empty"@),
        trim(keyword@).len() > 0 ==> (base_response_error(base_response_view(
            match base_resp {
                Some(b) => Some(*b),
                None => None,
            },
        )) matches Some(e) ==> (r matches Err(m) && m@ == e)),
        trim(keyword@).len() > 0 && base_response_error(base_response_view(
            match base_resp {
                Some(b) => Some(*b),
                None => None,
            },
        )) is None ==> (r matches Ok(resp) && resp.list == list && resp.total == match total {
            Some(t) => t,
            None => list@.len() as u32,
        }),
{
    if crate::text::trim_chars(&chars_of(keyword)).len() == 0 {
        return Err(String::from_str("search keyword cannot be empty"));
    }
    crate::wechat_response::ensure_base_response_ok(base_resp)?;
    let t = match total {
        Some(t) => t,
        None => list.len() as u32,
    };
    Ok(TargetAccountSearchResponse { total: t, list })
}

/// The login secret text that a read of the login slot gives: the text it holds, the error
/// for an empty slot, or the store's error.
pub fn login_secret_from_read(read: Result<Option<String>, SecretStoreError>) -> (r: Result<
    String,
    TargetAccountSearchError,
>)
    ensures
        read matches Ok(Some(s)) ==> r == Ok::<String, TargetAccountSearchError>(s),
        read matches Ok(None) ==> r == Err::<String, TargetAccountSearchError>(TargetAccountSearchError::MissingOfficialAccountLogin),
        read matches Err(e) ==> r == Err::<String, TargetAccountSearchError>(TargetAccountSearchError::SecretStore(e)),
{
    match read {
        Ok(Some(s)) => Ok(s),
        Ok(None) => Err(TargetAccountSearchError::MissingOfficialAccountLogin),
        Err(e) => Err(TargetAccountSearchError::SecretStore(e)),
    }
}

/// Searches accounts through a transport, signed with the stored login.
pub struct TargetAccountSearchClient<T, B> {
    transport: T,
    secret_store: SecretStore<B>,
}

impl<T: TargetAccountSearchTransport, B: SecretBackend> TargetAccountSearchClient<T, B> {
    pub closed spec fn secrets(&self) -> Map<SecretSlot, Seq<char>> {
        self.secret_store.stored()
    }

    /// The transport the client searches through.
    pub closed spec fn transport(&self) -> T {
        self.transport
    }

    pub fn new(transport: T, secret_store: SecretStore<B>) -> (r: Self)
        ensures
            r.secrets() == secret_store.stored(),
    {
        TargetAccountSearchClient { transport, secret_store }
    }

    /// The stored login secret text, or the error when there is none.
    pub fn login_secret_text(&self) -> (r: Result<String, TargetAccountSearchError>)
        ensures
            B::obeys_store_laws() ==> (r matches Ok(s) ==> self.secrets().contains_key(SecretSlot::OfficialAccountLogin)
                && s@ == self.secrets()[SecretSlot::OfficialAccountLogin]),
            r is Err ==> (r matches Err(TargetAccountSearchError::MissingOfficialAccountLogin)
                || r matches Err(TargetAccountSearchError::SecretStore(_))),
            B::obeys_store_laws() ==> (!self.secrets().contains_key(SecretSlot::OfficialAccountLogin) ==> r is Err),
            B::obeys_store_laws() && B::always_succeeds() ==> (self.secrets().contains_key(
                SecretSlot::OfficialAccountLogin,
            ) ==> (r matches Ok(s) && s@ == self.secrets()[SecretSlot::OfficialAccountLogin])),
            B::obeys_store_laws() && B::always_succeeds() ==> (!self.secrets().contains_key(
                SecretSlot::OfficialAccountLogin,
            ) ==> r == Err::<String, TargetAccountSearchError>(TargetAccountSearchError::MissingOfficialAccountLogin)),
            r matches Err(TargetAccountSearchError::SecretStore(_)) ==> !B::always_succeeds(),
    {
        login_secret_from_read(self.secret_store.read(SecretSlot::OfficialAccountLogin))
    }

    /// Searches for `keyword` (trimmed) with the login secret.
    pub fn search_with_secret(
        &self,
        secret: &OfficialAccountLoginSecret,
        keyword: &str,
        begin: u32,
        count: u32,
    ) -> (r: Result<TargetAccountSearchResponse, TargetAccountSearchError>)
        ensures
            r matches Err(e) ==> e is Transport,
            r matches Ok(v) ==> exists|request: TargetAccountSearchRequest|
                #[trigger] is_search_request(request, *secret, keyword@, begin, count)
                    && self.transport().search_answer_allowed(request, Ok(v)),
            r matches Err(TargetAccountSearchError::Transport(m)) ==> exists|
                request: TargetAccountSearchRequest,
            |
                #[trigger] is_search_request(request, *secret, keyword@, begin, count)
                    && self.transport().search_answer_allowed(request, Err(m)),
    {
        let request = search_request(secret, keyword, begin, count);
        let ghost sent = request;
        assert(is_search_request(sent, *secret, keyword@, begin, count));
        match self.transport.search(request) {
            Ok(v) => Ok(v),
            Err(e) => Err(TargetAccountSearchError::Transport(e)),
        }
    }
}

} // verus!
