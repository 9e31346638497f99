//! Downloading an article's HTML and the assets it references: which URLs count as assets,
//! where each file goes in the archive, and how fetches are retried.
use vstd::prelude::*;

use crate::archive_store::{
    ArchiveArticle, ArchiveArticleInput, ArchiveStoreError, CollectionTaskItemInput,
    TargetArticleInput,
};
use crate::json_text::{json_string, push_json_string};
use crate::secret_store::{SecretBackend, SecretSlot, SecretStore, SecretStoreError};
use crate::single_article_workflow::{safe_id_segment, safe_id_segment_exec};
use crate::text::{chars_of, find_from, starts_with, string_of, trim};
use crate::web_url::{parse_url, path_segments, url_parse, url_path_segments};

verus! {

/// The referer sent with an article page request.
pub const MP_REFERER: &'static str = "https://mp.weixin.qq.com/";

/// The user agent sent with every download request.
pub const MP_USER_AGENT: &'static str =
    "Mozilla/5.0 (Macintosh; Intel Mac OS X 10_15_7) AppleWebKit/537.36 (KHTML, like Gecko) Chrome/117.0.0.0 Safari/537.36 WAE/1.0";

/// How many times a resource is requested before its download fails.
pub const MAX_DOWNLOAD_ATTEMPTS: usize = 3;

#[derive(Debug, Clone, Eq, PartialEq)]
pub enum ArticleHtmlDownloadError {
    ArchiveStore(ArchiveStoreError),
    ArticleNotFound { fakeid: String, article_id: String },
    Io(String),
    MissingOfficialAccountLogin,
    Parse(String),
    SecretStore(SecretStoreError),
    Transport(String),
}

impl ArticleHtmlDownloadError {
    /// The message shown for the error.
    pub fn message(&self) -> (r: String)
        ensures
            self matches ArticleHtmlDownloadError::ArticleNotFound { fakeid, article_id } ==> r@
                == "target article was not found in the local archive: "@ + fakeid@ + "/"@
                + article_id@,
            self matches ArticleHtmlDownloadError::Io(e) ==> r@
                == "article html archive write failed: "@ + e@,
            self is MissingOfficialAccountLogin ==> r@
                == "Official Account Login is required before downloading article HTML"@,
            self matches ArticleHtmlDownloadError::Parse(e) ==> r@
                == "article html download parse failed: "@ + e@,
            self matches ArticleHtmlDownloadError::Transport(e) ==> r@
                == "article html download transport failed: "@ + e@,
    {
        let mut out: Vec<char>;
        match self {
            ArticleHtmlDownloadError::ArchiveStore(e) => {
                return e.message();
            },
            ArticleHtmlDownloadError::ArticleNotFound { fakeid, article_id } => {
                proof {
                    reveal_strlit("/");
                }
                out = chars_of("target article was not found in the local archive: ");
                crate::text::push_all(&mut out, &chars_of(fakeid.as_str()));
                out.push('/');
                crate::text::push_all(&mut out, &chars_of(article_id.as_str()));
            },
            ArticleHtmlDownloadError::Io(e) => {
                out = chars_of("article html archive write failed: ");
                crate::text::push_all(&mut out, &chars_of(e.as_str()));
            },
            ArticleHtmlDownloadError::MissingOfficialAccountLogin => {
                return String::from_str(
                    "Official Account Login is required before downloading article HTML",
                );
            },
            ArticleHtmlDownloadError::Parse(e) => {
                out = chars_of("article html download parse failed: ");
                crate::text::push_all(&mut out, &chars_of(e.as_str()));
            },
            ArticleHtmlDownloadError::SecretStore(e) => {
                return e.message();
            },
            ArticleHtmlDownloadError::Transport(e) => {
                out = chars_of("article html download transport failed: ");
                crate::text::push_all(&mut out, &chars_of(e.as_str()));
            },
        }
        string_of(out.as_slice())
    }
}

#[derive(Clone, Debug, Eq, PartialEq)]
pub struct NetworkProxySetting {
    pub url: String,
    pub authorization: Option<String>,
}

#[derive(Clone, Debug, Eq, PartialEq)]
pub struct ArticleHtmlDownloadRequest {
    pub fakeid: String,
    pub article_id: String,
    pub proxy: Option<NetworkProxySetting>,
}

#[derive(Clone, Debug, Eq, PartialEq)]
pub struct SingleArticleHtmlDownloadRequest {
    pub article_id: String,
    pub proxy: Option<NetworkProxySetting>,
}

#[derive(Clone, Debug, Eq, PartialEq)]
pub struct ArticleHtmlDownloadResourceRequest {
    pub url: String,
    pub referer: String,
    pub user_agent: String,
    pub cookie_header: Option<String>,
    pub proxy: Option<NetworkProxySetting>,
    pub is_article_html: bool,
}

#[derive(Clone, Debug, Eq, PartialEq)]
pub struct ArticleHtmlDownloadResourceResponse {
    pub bytes: Vec<u8>,
    pub content_type: Option<String>,
}

#[derive(Clone, Debug, Eq, PartialEq)]
pub struct ArticleHtmlDownloadOutcome {
    pub article_id: String,
    pub target_account_id: String,
    pub source_url: String,
    pub html_file: String,
    pub asset_files: Vec<String>,
}

/// A proxy setting as plain values.
pub open spec fn proxy_view(p: Option<NetworkProxySetting>) -> Option<(Seq<char>, Option<Seq<char>>)> {
    match p {
        Some(s) => Some((
            s.url@,
            match s.authorization {
                Some(a) => Some(a@),
                None => None,
            },
        )),
        None => None,
    }
}

/// A copy of a proxy setting.
pub fn copy_proxy(p: &Option<NetworkProxySetting>) -> (r: Option<NetworkProxySetting>)
    ensures
        r == *p,
        proxy_view(r) == proxy_view(*p),
{
    match p {
        Some(s) => Some(
            NetworkProxySetting {
                url: s.url.clone(),
                authorization: match &s.authorization {
                    Some(a) => Some(a.clone()),
                    None => None,
                },
            },
        ),
        None => None,
    }
}

/// A copy of a resource request.
pub fn copy_resource_request(request: &ArticleHtmlDownloadResourceRequest) -> (r:
    ArticleHtmlDownloadResourceRequest)
    ensures
        r == *request,
{
    ArticleHtmlDownloadResourceRequest {
        url: request.url.clone(),
        referer: request.referer.clone(),
        user_agent: request.user_agent.clone(),
        cookie_header: match &request.cookie_header {
            Some(c) => Some(c.clone()),
            None => None,
        },
        proxy: copy_proxy(&request.proxy),
        is_article_html: request.is_article_html,
    }
}

/// Fetches one resource of an article.
pub trait ArticleHtmlDownloadTransport {
    /// Whether the transport may answer `request` with `answer`. A transport that describes
    /// nothing may answer anything.
    open spec fn resource_answer_allowed(
        &self,
        request: ArticleHtmlDownloadResourceRequest,
        answer: Result<ArticleHtmlDownloadResourceResponse, String>,
    ) -> bool {
        true
    }

    fn fetch(&self, request: ArticleHtmlDownloadResourceRequest) -> (r: Result<
        ArticleHtmlDownloadResourceResponse,
        String,
    >)
        ensures
            self.resource_answer_allowed(request, r),
    ;
}

/// Whether `r` is what fetching `request` through `transport` may report: a response the
/// transport may give to that request, as it came, or an error text it may give, as a
/// transport error.
pub open spec fn download_answer_allowed<T: ArticleHtmlDownloadTransport>(
    transport: T,
    request: ArticleHtmlDownloadResourceRequest,
    r: Result<ArticleHtmlDownloadResourceResponse, ArticleHtmlDownloadError>,
) -> bool {
    match r {
        Ok(response) => transport.resource_answer_allowed(request, Ok(response)),
        Err(ArticleHtmlDownloadError::Transport(m)) => transport.resource_answer_allowed(
            request,
            Err(m),
        ),
        Err(_) => false,
    }
}

/// The proxy a download uses: the one asked for if its URL holds more than white space,
/// otherwise the one in the settings.
pub fn resolve_download_proxy_setting(
    explicit_proxy: Option<NetworkProxySetting>,
    settings_proxy: Option<NetworkProxySetting>,
) -> (r: Option<NetworkProxySetting>)
    ensures
        (explicit_proxy matches Some(p) && trim(p.url@).len() > 0) ==> r == explicit_proxy,
        !(explicit_proxy matches Some(p) && trim(p.url@).len() > 0) ==> r == settings_proxy,
{
    let usable = match &explicit_proxy {
        Some(p) => crate::text::trim_chars(&chars_of(p.url.as_str())).len() > 0,
        None => false,
    };
    if usable {
        explicit_proxy
    } else {
        settings_proxy
    }
}

/// What a download reports after the transport gave `answers`, one per attempt, to
/// `request`: at least one and at most `MAX_DOWNLOAD_ATTEMPTS` attempts, each but the last a
/// failure, fewer than the maximum only when the last succeeded; the last answer is reported,
/// a failure as a transport error.
pub open spec fn retried_download<T: ArticleHtmlDownloadTransport>(
    transport: T,
    request: ArticleHtmlDownloadResourceRequest,
    answers: Seq<Result<ArticleHtmlDownloadResourceResponse, String>>,
    r: Result<ArticleHtmlDownloadResourceResponse, ArticleHtmlDownloadError>,
) -> bool {
    &&& 1 <= answers.len() <= MAX_DOWNLOAD_ATTEMPTS
    &&& forall|i: int| 0 <= i < answers.len() - 1 ==> #[trigger] answers[i] is Err
    &&& answers.len() < MAX_DOWNLOAD_ATTEMPTS ==> answers.last() is Ok
    &&& forall|i: int|
        0 <= i < answers.len() ==> transport.resource_answer_allowed(request, #[trigger] answers[i])
    &&& r == match answers.last() {
        Ok(response) => Ok::<ArticleHtmlDownloadResourceResponse, ArticleHtmlDownloadError>(response),
        Err(m) => Err(ArticleHtmlDownloadError::Transport(m)),
    }
}

/// Fetches a resource, asking the transport at most `MAX_DOWNLOAD_ATTEMPTS` times; the last
/// error is kept.
pub fn fetch_with_retries<T: ArticleHtmlDownloadTransport>(
    transport: &T,
    request: &ArticleHtmlDownloadResourceRequest,
) -> (r: Result<ArticleHtmlDownloadResourceResponse, ArticleHtmlDownloadError>)
    ensures
        r matches Err(e) ==> e is Transport,
        download_answer_allowed(*transport, *request, r),
        exists|answers: Seq<Result<ArticleHtmlDownloadResourceResponse, String>>|
            #[trigger] retried_download(*transport, *request, answers, r),
{
    let mut last_error: Option<String> = None;
    let mut attempt: usize = 0;
    let ghost mut answers: Seq<Result<ArticleHtmlDownloadResourceResponse, String>> = Seq::empty();
    while attempt < MAX_DOWNLOAD_ATTEMPTS
        invariant
            attempt <= MAX_DOWNLOAD_ATTEMPTS,
            answers.len() == attempt,
            forall|i: int| 0 <= i < answers.len() ==> #[trigger] answers[i] is Err,
            forall|i: int|
                0 <= i < answers.len() ==> transport.resource_answer_allowed(
                    *request,
                    #[trigger] answers[i],
                ),
            attempt > 0 ==> (last_error matches Some(m) && answers.last() == Err::<
                ArticleHtmlDownloadResourceResponse,
                String,
            >(m)),
        decreases MAX_DOWNLOAD_ATTEMPTS - attempt,
    {
        match transport.fetch(copy_resource_request(request)) {
            Ok(response) => {
                proof {
                    let done = answers.push(Ok(response));
                    assert(done.last() == Ok::<ArticleHtmlDownloadResourceResponse, String>(response));
                    assert forall|i: int| 0 <= i < done.len() - 1 implies #[trigger] done[i] is Err by {
                        assert(done[i] == answers[i]);
                    }
                    assert forall|i: int| 0 <= i < done.len() implies transport.resource_answer_allowed(
                        *request,
                        #[trigger] done[i],
                    ) by {
                        if i < answers.len() {
                            assert(done[i] == answers[i]);
                        }
                    }
                    assert(retried_download(*transport, *request, done, Ok(response)));
                }
                return Ok(response);
            },
            Err(error) => {
                proof {
                    let before = answers;
                    answers = answers.push(Err(error));
                    assert forall|i: int| 0 <= i < answers.len() implies #[trigger] answers[i] is Err by {
                        if i < before.len() {
                            assert(answers[i] == before[i]);
                        }
                    }
                    assert forall|i: int| 0 <= i < answers.len() implies transport.resource_answer_allowed(
                        *request,
                        #[trigger] answers[i],
                    ) by {
                        if i < before.len() {
                            assert(answers[i] == before[i]);
                        }
                    }
                }
                last_error = Some(error);
            },
        }
        attempt = attempt + 1;
    }
    match last_error {
        Some(e) => {
            proof {
                assert(retried_download(*transport, *request, answers, Err(ArticleHtmlDownloadError::Transport(e))));
            }
            Err(ArticleHtmlDownloadError::Transport(e))
        },
        None => Err(ArticleHtmlDownloadError::Transport(String::from_str("unknown transport error"))),
    }
}

/// The archive record of a target article that has not been downloaded yet.
pub fn archive_article_from_target_article(article: TargetArticleInput) -> (r: ArchiveArticle)
    ensures
        r.article_id == article.article_id,
        r.target_account_id == article.target_account_id,
        r.title == article.title,
        r.source_url == article.source_url,
        r.html_file is None,
        r.markdown_file is None,
        r.reading_enrichment is None,
        r.reading_comments@.len() == 0,
{
    ArchiveArticle {
        article_id: article.article_id,
        target_account_id: article.target_account_id,
        title: article.title,
        source_url: article.source_url,
        html_file: None,
        markdown_file: None,
        reading_enrichment: None,
        reading_comments: Vec::new(),
    }
}

/// The request for an article's page.
pub fn article_page_request(
    article: &ArchiveArticle,
    cookie_header: &str,
    proxy: &Option<NetworkProxySetting>,
) -> (r: ArticleHtmlDownloadResourceRequest)
    ensures
        r.url == article.source_url,
        r.referer@ == MP_REFERER@,
        r.user_agent@ == MP_USER_AGENT@,
        r.cookie_header matches Some(c) && c@ == cookie_header@,
        proxy_view(r.proxy) == proxy_view(*proxy),
        r.is_article_html,
{
    ArticleHtmlDownloadResourceRequest {
        url: article.source_url.clone(),
        referer: String::from_str(MP_REFERER),
        user_agent: String::from_str(MP_USER_AGENT),
        cookie_header: Some(String::from_str(cookie_header)),
        proxy: copy_proxy(proxy),
        is_article_html: true,
    }
}

/// The request for an asset of an article's page.
pub fn article_asset_request(
    article: &ArchiveArticle,
    asset_url: &str,
    cookie_header: &str,
    proxy: &Option<NetworkProxySetting>,
) -> (r: ArticleHtmlDownloadResourceRequest)
    ensures
        r.url@ == asset_url@,
        r.referer == article.source_url,
        r.user_agent@ == MP_USER_AGENT@,
        r.cookie_header matches Some(c) && c@ == cookie_header@,
        proxy_view(r.proxy) == proxy_view(*proxy),
        !r.is_article_html,
{
    ArticleHtmlDownloadResourceRequest {
        url: String::from_str(asset_url),
        referer: article.source_url.clone(),
        user_agent: String::from_str(MP_USER_AGENT),
        cookie_header: Some(String::from_str(cookie_header)),
        proxy: copy_proxy(proxy),
        is_article_html: false,
    }
}

/// A path segment made from `value` (`item` for nothing usable).
pub fn safe_path_segment(value: &str) -> (r: String)
    ensures
        r@ == safe_id_segment(value@, "item"@),
{
    safe_id_segment_exec(value, "item")
}

/// Where an article's page is kept: `articles/<account>/<article>.html`.
pub open spec fn html_file_path(target_account_id: Seq<char>, article_id: Seq<char>) -> Seq<char> {
    "articles/"@ + safe_id_segment(target_account_id, "item"@) + "/"@ + safe_id_segment(
        article_id,
        "item"@,
    ) + ".html"@
}

/// The archive path of an article's page.
pub fn article_html_file_path(target_account_id: &str, article_id: &str) -> (r: String)
    ensures
        r@ == html_file_path(target_account_id@, article_id@),
{
    proof {
        reveal_strlit("/");
    }
    let mut out = chars_of("articles/");
    crate::text::push_all(&mut out, &chars_of(safe_path_segment(target_account_id).as_str()));
    out.push('/');
    crate::text::push_all(&mut out, &chars_of(safe_path_segment(article_id).as_str()));
    crate::text::push_all(&mut out, &chars_of(".html"));
    string_of(out.as_slice())
}

/// The file extension for a response's media type, where the archive knows one.
pub open spec fn content_type_extension(content_type: Option<Seq<char>>) -> Option<Seq<char>> {
    match content_type {
        None => None,
        Some(t) => {
            let media = trim(crate::text::split_on(t, ';')[0]);
            if media == "image/jpeg"@ {
                Some("jpg"@)
            } else if media == "image/png"@ {
                Some("png"@)
            } else if media == "image/gif"@ {
                Some("gif"@)
            } else if media == "image/webp"@ {
                Some("webp"@)
            } else if media == "text/css"@ {
                Some("css"@)
            } else {
                None
            }
        },
    }
}

/// A media type with no parameters is read as itself.
proof fn lemma_plain_media_type(t: Seq<char>)
    requires
        t.len() > 0,
        forall|i: int| 0 <= i < t.len() ==> 'a' <= #[trigger] t[i] <= 'z' || t[i] == '/',
    ensures
        trim(crate::text::split_on(t, ';')[0]) == t,
{
    crate::text::lemma_split_without_separator(t, ';');
    assert(t[0] == t[0]);
    assert(t[t.len() - 1] == t[t.len() - 1]);
    crate::text::lemma_trim_without_edge_space(t);
}

/// Each media type the archive knows has an extension of its own: JPEG images `jpg`, PNG
/// images `png`, GIF images `gif`, WebP images `webp` and style sheets `css`; no other type
/// gets one of these from another.
pub proof fn law_known_media_types_have_their_extensions()
    ensures
        content_type_extension(Some("image/jpeg"@)) == Some("jpg"@),
        content_type_extension(Some("image/png"@)) == Some("png"@),
        content_type_extension(Some("image/gif"@)) == Some("gif"@),
        content_type_extension(Some("image/webp"@)) == Some("webp"@),
        content_type_extension(Some("text/css"@)) == Some("css"@),
{
    reveal_strlit("image/jpeg");
    reveal_strlit("image/png");
    reveal_strlit("image/gif");
    reveal_strlit("image/webp");
    reveal_strlit("text/css");
    reveal_strlit("jpg");
    reveal_strlit("png");
    reveal_strlit("gif");
    reveal_strlit("webp");
    reveal_strlit("css");
    lemma_plain_media_type("image/jpeg"@);
    lemma_plain_media_type("image/png"@);
    lemma_plain_media_type("image/gif"@);
    lemma_plain_media_type("image/webp"@);
    lemma_plain_media_type("text/css"@);
}

/// The file extension for a response's `Content-Type`, if it is one the archive knows.
pub fn extension_from_content_type(content_type: Option<&str>) -> (r: Option<String>)
    ensures
        r matches Some(e) ==> content_type_extension(
            match content_type {
                Some(t) => Some(t@),
                None => None,
            },
        ) == Some(e@),
        r is None ==> content_type_extension(
            match content_type {
                Some(t) => Some(t@),
                None => None,
            },
        ) is None,
{
    let t = match content_type {
        Some(t) => t,
        None => {
            return None;
        },
    };
    let pieces = crate::text::split_chars(&chars_of(t), ';');
    assert(crate::text::views(pieces@).len() == pieces@.len());
    assert(crate::text::views(pieces@)[0] == pieces@[0]@);
    let media = string_of(crate::text::trim_chars(&pieces[0]).as_slice());
    let m = media.as_str();
    if crate::archive_store::str_eq(m, "image/jpeg") {
        Some(String::from_str("jpg"))
    } else if crate::archive_store::str_eq(m, "image/png") {
        Some(String::from_str("png"))
    } else if crate::archive_store::str_eq(m, "image/gif") {
        Some(String::from_str("gif"))
    } else if crate::archive_store::str_eq(m, "image/webp") {
        Some(String::from_str("webp"))
    } else if crate::archive_store::str_eq(m, "text/css") {
        Some(String::from_str("css"))
    } else {
        None
    }
}

/// The name an asset's URL gives it: its last path segment made safe, when the URL parses,
/// has path segments and the last one is not blank.
pub open spec fn url_file_name(asset_url: Seq<char>) -> Option<Seq<char>> {
    match url_parse(asset_url) {
        Ok(u) => match path_segments(u.path) {
            Some(segments) => if trim(segments.last()).len() > 0 {
                Some(safe_id_segment(segments.last(), "item"@))
            } else {
                None
            },
            None => None,
        },
        Err(_) => None,
    }
}

/// The file name of an asset: the safe last path segment of its URL, or `asset.<ext>`; with
/// `.<ext>` added when the name has no `.`. The extension comes from the media type, else
/// `bin`.
pub open spec fn asset_file_name(asset_url: Seq<char>, content_type: Option<Seq<char>>) -> Seq<char> {
    let ext = match content_type_extension(content_type) {
        Some(e) => e,
        None => "bin"@,
    };
    let name = match url_file_name(asset_url) {
        Some(n) => n,
        None => "asset."@ + ext,
    };
    if name.contains('.') {
        name
    } else {
        name + "."@ + ext
    }
}

/// `stem` with the extension `ext`.
pub open spec fn with_extension(stem: Seq<char>, ext: Seq<char>) -> Seq<char> {
    stem + "."@ + ext
}

/// An asset's file name follows its content type: named with a content type the archive
/// knows, it is the name it gets with no content type, except that a stem without an
/// extension of its own gets the type's extension where it would otherwise get `bin`.
pub proof fn law_asset_names_take_the_content_type_extension(
    asset_url: Seq<char>,
    content_type: Option<Seq<char>>,
)
    requires
        content_type_extension(content_type) is Some,
    ensures
        asset_file_name(asset_url, content_type) == asset_file_name(asset_url, None)
            || exists|stem: Seq<char>|
            !stem.contains('.') && #[trigger] with_extension(stem, content_type_extension(content_type)->0)
                == asset_file_name(asset_url, content_type) && asset_file_name(asset_url, None)
                == with_extension(stem, "bin"@),
        url_file_name(asset_url) matches Some(n) ==> (!n.contains('.') ==> asset_file_name(
            asset_url,
            content_type,
        ) == with_extension(n, content_type_extension(content_type)->0)),
        url_file_name(asset_url) matches Some(n) ==> (n.contains('.') ==> asset_file_name(
            asset_url,
            content_type,
        ) == n),
        url_file_name(asset_url) is None ==> asset_file_name(asset_url, content_type)
            == with_extension("asset"@, content_type_extension(content_type)->0),
{
    let e = content_type_extension(content_type)->0;
    let from_url = url_file_name(asset_url);
    match from_url {
        Some(n) => {
            if !n.contains('.') {
                assert(with_extension(n, e) == asset_file_name(asset_url, content_type));
            }
        },
        None => {
            let stem = "asset"@;
            reveal_strlit("asset");
            reveal_strlit("asset.");
            reveal_strlit(".");
            reveal_strlit("bin");
            assert(("asset."@ + e) =~= with_extension(stem, e));
            assert(("asset."@ + "bin"@) =~= with_extension(stem, "bin"@));
            assert(("asset."@ + e).contains('.')) by {
                assert(("asset."@ + e)[5] == '.');
            }
            assert(("asset."@ + "bin"@).contains('.')) by {
                assert(("asset."@ + "bin"@)[5] == '.');
            }
            assert(!stem.contains('.')) by {
                if stem.contains('.') {
                    let i = choose|i: int| 0 <= i < stem.len() && stem[i] == '.';
                    assert(stem[i] != '.');
                }
            }
            assert(with_extension(stem, e) == asset_file_name(asset_url, content_type));
        },
    }
}

/// A PNG image whose URL names it without an extension, as WeChat's image URLs do, is kept
/// as that name with `.png`.
pub proof fn law_png_assets_are_named_png(asset_url: Seq<char>, n: Seq<char>)
    requires
        url_file_name(asset_url) == Some(n),
        !n.contains('.'),
    ensures
        asset_file_name(asset_url, Some("image/png"@)) == with_extension(n, "png"@),
{
    law_known_media_types_have_their_extensions();
    law_asset_names_take_the_content_type_extension(asset_url, Some("image/png"@));
}

/// The file name an asset is kept under.
pub fn asset_filename(asset_url: &str, content_type: Option<&str>) -> (r: String)
    ensures
        r@ == asset_file_name(
            asset_url@,
            match content_type {
                Some(t) => Some(t@),
                None => None,
            },
        ),
{
    let ghost ct = match content_type {
        Some(t) => Some(t@),
        None => None::<Seq<char>>,
    };
    let ext = match extension_from_content_type(content_type) {
        Some(e) => chars_of(e.as_str()),
        None => chars_of("bin"),
    };
    assert(ext@ == match content_type_extension(ct) {
        Some(e) => e,
        None => "bin"@,
    });
    let ghost spec_from_url = match url_parse(asset_url@) {
        Ok(u) => match path_segments(u.path) {
            Some(segments) => if trim(segments.last()).len() > 0 {
                Some(safe_id_segment(segments.last(), "item"@))
            } else {
                None
            },
            None => None,
        },
        Err(_) => None,
    };
    let mut from_url: Option<Vec<char>> = None;
    match parse_url(asset_url) {
        Ok(url) => {
            let path = chars_of(url.path.as_str());
            match url_path_segments(&path) {
                Some(segments) => {
                    assert(crate::text::views(segments@).len() == segments@.len());
                    let last = &segments[segments.len() - 1];
                    assert(crate::text::views(segments@).last() == last@);
                    if crate::text::trim_chars(last).len() > 0 {
                        from_url = Some(chars_of(
                            safe_path_segment(string_of(last.as_slice()).as_str()).as_str(),
                        ));
                    }
                },
                None => {},
            }
        },
        Err(_) => {},
    }
    assert(match from_url {
        Some(n) => spec_from_url == Some(n@),
        None => spec_from_url is None,
    });
    let name = match from_url {
        Some(n) => n,
        None => {
            let mut n = chars_of("asset.");
            crate::text::push_all(&mut n, &ext);
            n
        },
    };
    assert(name@ == match spec_from_url {
        Some(n) => n,
        None => "asset."@ + ext@,
    });
    let has_dot = crate::text::find_char(&name, '.', 0).is_some();
    proof {
        reveal_strlit(".");
    }
    proof {
        crate::text::lemma_find_from(name@, seq!['.'], 0);
        if name@.contains('.') {
            let i = choose|i: int| 0 <= i < name@.len() && name@[i] == '.';
            assert(name@.subrange(i, i + 1) =~= seq!['.']);
            assert(crate::text::matches_at(name@, i, seq!['.']));
        }
        if has_dot {
            let i = find_from(name@, seq!['.'], 0)->0;
            assert(name@.subrange(i, i + 1)[0] == '.');
            assert(name@[i] == '.');
        }
        assert(has_dot == name@.contains('.'));
    }
    if has_dot {
        string_of(name.as_slice())
    } else {
        let mut out = name;
        out.push('.');
        crate::text::push_all(&mut out, &ext);
        assert(out@ =~= name@ + "."@ + ext@);
        string_of(out.as_slice())
    }
}

/// `text` padded with `0` on the left to at least three characters.
pub open spec fn pad3(text: Seq<char>) -> Seq<char> {
    if text.len() >= 3 {
        text
    } else if text.len() == 2 {
        seq!['0'] + text
    } else {
        seq!['0', '0'] + text
    }
}

/// Where an asset is kept: `assets/<account>/<article>/<index, three digits>-<file name>`.
pub open spec fn asset_file_path(
    target_account_id: Seq<char>,
    article_id: Seq<char>,
    index: nat,
    asset_url: Seq<char>,
    content_type: Option<Seq<char>>,
) -> Seq<char> {
    "assets/"@ + safe_id_segment(target_account_id, "item"@) + "/"@ + safe_id_segment(
        article_id,
        "item"@,
    ) + "/"@ + pad3(crate::numbers::decimal(index)) + "-"@ + asset_file_name(
        asset_url,
        content_type,
    )
}

/// The archive path of the `index`-th asset of an article.
pub fn article_asset_file_path(
    target_account_id: &str,
    article_id: &str,
    index: usize,
    asset_url: &str,
    content_type: Option<&str>,
) -> (r: String)
    ensures
        r@ == asset_file_path(
            target_account_id@,
            article_id@,
            index as nat,
            asset_url@,
            match content_type {
                Some(t) => Some(t@),
                None => None,
            },
        ),
{
    proof {
        reveal_strlit("/");
        reveal_strlit("-");
    }
    let mut out = chars_of("assets/");
    crate::text::push_all(&mut out, &chars_of(safe_path_segment(target_account_id).as_str()));
    out.push('/');
    crate::text::push_all(&mut out, &chars_of(safe_path_segment(article_id).as_str()));
    out.push('/');
    let digits = crate::numbers::u128_to_decimal(index as u128);
    if digits.len() == 1 {
        out.push('0');
        out.push('0');
    } else if digits.len() == 2 {
        out.push('0');
    }
    crate::text::push_all(&mut out, &digits);
    proof {
        crate::numbers::lemma_decimal_nonempty(index as nat);
    }
    out.push('-');
    crate::text::push_all(&mut out, &chars_of(asset_filename(asset_url, content_type).as_str()));
    string_of(out.as_slice())
}

/// An asset URL as the archive fetches it: trimmed, absolute `http(s)` as it stands, `//`
/// given `https:`; none for anything else.
pub open spec fn normalized_asset_url(value: Seq<char>) -> Option<Seq<char>> {
    let t = trim(value);
    if starts_with(t, "http://"@) || starts_with(t, "https://"@) {
        Some(t)
    } else if starts_with(t, "//"@) {
        Some("https:"@ + t)
    } else {
        None
    }
}

/// The fetchable form of an asset URL.
pub fn normalize_asset_url(value: &str) -> (r: Option<String>)
    ensures
        r matches Some(u) ==> normalized_asset_url(value@) == Some(u@),
        r is None ==> normalized_asset_url(value@) is None,
{
    let t = crate::text::trim_chars(&chars_of(value));
    let http = chars_of("http://");
    let https = chars_of("https://");
    let slashes = chars_of("//");
    if crate::text::matches_at_exec(&t, 0, &http) || crate::text::matches_at_exec(&t, 0, &https) {
        Some(string_of(t.as_slice()))
    } else if crate::text::matches_at_exec(&t, 0, &slashes) {
        let mut out = chars_of("https:");
        crate::text::push_all(&mut out, &t);
        Some(string_of(out.as_slice()))
    } else {
        None
    }
}

/// The quoted value that starts at `i` in `s`: the text up to the matching quote (`"` or `'`)
/// and the position after that quote.
pub open spec fn quoted_value_at(s: Seq<char>, i: int) -> Option<(Seq<char>, int)> {
    if 0 <= i < s.len() && (s[i] == '"' || s[i] == '\'') {
        match find_from(s, seq![s[i]], i + 1) {
            Some(e) => Some((s.subrange(i + 1, e), e + 1)),
            None => None,
        }
    } else {
        None
    }
}

/// The value of a quoted attribute at the start of `input`, and how many characters it takes
/// with its quotes.
pub fn read_quoted_attribute_value(input: &Vec<char>, at: usize) -> (r: Option<(String, usize)>)
    requires
        at <= input@.len(),
    ensures
        r matches Some((v, end)) ==> quoted_value_at(input@, at as int) == Some((v@, end as int)),
        r is None ==> quoted_value_at(input@, at as int) is None,
{
    if at >= input.len() {
        return None;
    }
    let quote = input[at];
    if quote != '"' && quote != '\'' {
        return None;
    }
    match crate::text::find_char(input, quote, at + 1) {
        Some(e) => {
            proof {
                crate::text::lemma_find_from(input@, seq![quote], at + 1);
            }
            Some((string_of(crate::text::slice_chars(input, at + 1, e).as_slice()), e + 1))
        },
        None => None,
    }
}

/// `urls` with `u` added unless it is already there.
pub open spec fn add_unique(urls: Seq<Seq<char>>, u: Seq<char>) -> Seq<Seq<char>> {
    if urls.contains(u) {
        urls
    } else {
        urls.push(u)
    }
}

/// The asset URLs found after `start` for one attribute pattern (`<name>=`), added to `urls`
/// in order of appearance.
pub open spec fn scan_attribute(html: Seq<char>, pattern: Seq<char>, start: int, urls: Seq<Seq<char>>) -> Seq<Seq<char>>
    decreases html.len() - start,
{
    if start < 0 || start > html.len() || pattern.len() == 0 {
        urls
    } else {
        match find_from(html, pattern, start) {
            None => urls,
            Some(p) => {
                let after = p + pattern.len();
                if after <= start || after > html.len() {
                    urls
                } else {
                    match quoted_value_at(html, after) {
                        None => scan_attribute(html, pattern, after, urls),
                        Some((v, end)) => {
                            let next = match normalized_asset_url(v) {
                                Some(u) => add_unique(urls, u),
                                None => urls,
                            };
                            if end <= start || end > html.len() {
                                next
                            } else {
                                scan_attribute(html, pattern, end, next)
                            }
                        },
                    }
                }
            },
        }
    }
}

/// The assets an article page references: the quoted values of `data-src=` and then of
/// `src=`, normalised, each URL once, in order of first appearance.
pub open spec fn asset_urls_of(html: Seq<char>) -> Seq<Seq<char>> {
    scan_attribute(html, "src="@, 0, scan_attribute(html, "data-src="@, 0, Seq::empty()))
}

fn contains_string(urls: &Vec<String>, u: &str) -> (r: bool)
    ensures
        r == urls@.map_values(|s: String| s@).contains(u@),
{
    let ghost vs = urls@.map_values(|s: String| s@);
    let mut k: usize = 0;
    while k < urls.len()
        invariant
            k <= urls@.len(),
            vs == urls@.map_values(|s: String| s@),
            forall|i: int| 0 <= i < k ==> vs[i] != u@,
        decreases urls.len() - k,
    {
        if crate::archive_store::str_eq(urls[k].as_str(), u) {
            assert(vs[k as int] == u@);
            return true;
        }
        k = k + 1;
    }
    false
}

fn scan_attribute_exec(html: &Vec<char>, pattern: &Vec<char>, urls: &mut Vec<String>)
    requires
        pattern@.len() > 0,
    ensures
        final(urls)@.map_values(|s: String| s@) == scan_attribute(
            html@,
            pattern@,
            0,
            old(urls)@.map_values(|s: String| s@),
        ),
{
    let h_len = html.len();
    let mut start: usize = 0;
    while start <= html.len()
        invariant
            start <= html@.len(),
            h_len == html@.len(),
            pattern@.len() > 0,
            scan_attribute(html@, pattern@, 0, old(urls)@.map_values(|s: String| s@))
                == scan_attribute(html@, pattern@, start as int, urls@.map_values(|s: String| s@)),
        decreases html.len() - start,
    {
        let ghost cur = urls@.map_values(|s: String| s@);
        let p = match crate::text::find_chars(html, pattern, start) {
            Some(p) => p,
            None => {
                return;
            },
        };
        proof {
            crate::text::lemma_find_from(html@, pattern@, start as int);
        }
        let after = p + pattern.len();
        match read_quoted_attribute_value(html, after) {
            None => {
                start = after;
            },
            Some((v, end)) => {
                proof {
                    crate::text::lemma_find_from(html@, seq![html@[after as int]], after + 1);
                }
                if let Some(u) = normalize_asset_url(v.as_str()) {
                    if !contains_string(urls, u.as_str()) {
                        urls.push(u);
                        assert(urls@.map_values(|s: String| s@) =~= cur.push(
                            normalized_asset_url(v@)->0,
                        ));
                    }
                }
                start = end;
            },
        }
    }
}

/// The asset URLs that an article page references.
pub fn discover_asset_urls(html: &str) -> (r: Vec<String>)
    ensures
        r@.map_values(|s: String| s@) == asset_urls_of(html@),
{
    let h = chars_of(html);
    let mut urls: Vec<String> = Vec::new();
    assert(urls@.map_values(|s: String| s@) =~= Seq::<Seq<char>>::empty());
    proof {
        reveal_strlit("data-src=");
        reveal_strlit("src=");
    }
    scan_attribute_exec(&h, &chars_of("data-src="), &mut urls);
    scan_attribute_exec(&h, &chars_of("src="), &mut urls);
    urls
}

/// The record an article has after its page was downloaded to `html_file`.
pub fn downloaded_article_input(article: &ArchiveArticle, html_file: &str) -> (r: ArchiveArticleInput)
    ensures
        r.article_id == article.article_id,
        r.target_account_id == article.target_account_id,
        r.title == article.title,
        r.source_url == article.source_url,
        r.html_file matches Some(h) && h@ == html_file@,
        r.markdown_file == article.markdown_file,
{
    ArchiveArticleInput {
        article_id: article.article_id.clone(),
        target_account_id: article.target_account_id.clone(),
        title: article.title.clone(),
        source_url: article.source_url.clone(),
        html_file: Some(String::from_str(html_file)),
        markdown_file: article.markdown_file.clone(),
    }
}

/// A proxy setting as JSON: `null`, or an object with `url` and `authorization`.
pub open spec fn proxy_json(p: Option<(Seq<char>, Option<Seq<char>>)>) -> Seq<char> {
    match p {
        None => "null"@,
        Some((url, auth)) => "{\"url\":"@ + json_string(url) + ",\"authorization\":"@ + match auth {
            Some(a) => json_string(a),
            None => "null"@,
        } + "}"@,
    }
}

fn push_proxy_json(out: &mut Vec<char>, p: &Option<NetworkProxySetting>)
    ensures
        final(out)@ == old(out)@ + proxy_json(proxy_view(*p)),
{
    match p {
        None => crate::text::push_all(out, &chars_of("null")),
        Some(s) => {
            crate::text::push_all(out, &chars_of("{\"url\":"));
            push_json_string(out, s.url.as_str());
            crate::text::push_all(out, &chars_of(",\"authorization\":"));
            match &s.authorization {
                Some(a) => push_json_string(out, a.as_str()),
                None => crate::text::push_all(out, &chars_of("null")),
            }
            crate::text::push_all(out, &chars_of("}"));
        },
    }
}

/// The JSON payload of a download task item for an account's article.
pub open spec fn download_request_json(
    fakeid: Seq<char>,
    article_id: Seq<char>,
    proxy: Option<(Seq<char>, Option<Seq<char>>)>,
) -> Seq<char> {
    "{\"fakeid\":"@ + json_string(fakeid) + ",\"articleId\":"@ + json_string(article_id)
        + ",\"proxy\":"@ + proxy_json(proxy) + "}"@
}

/// The JSON payload of a download task item for a single article.
pub open spec fn single_download_request_json(
    article_id: Seq<char>,
    proxy: Option<(Seq<char>, Option<Seq<char>>)>,
) -> Seq<char> {
    "{\"articleId\":"@ + json_string(article_id) + ",\"proxy\":"@ + proxy_json(proxy) + "}"@
}

impl ArticleHtmlDownloadRequest {
    /// The request as JSON.
    pub fn to_json(&self) -> (r: String)
        ensures
            r@ == download_request_json(self.fakeid@, self.article_id@, proxy_view(self.proxy)),
    {
        let mut out = chars_of("{\"fakeid\":");
        push_json_string(&mut out, self.fakeid.as_str());
        crate::text::push_all(&mut out, &chars_of(",\"articleId\":"));
        push_json_string(&mut out, self.article_id.as_str());
        crate::text::push_all(&mut out, &chars_of(",\"proxy\":"));
        push_proxy_json(&mut out, &self.proxy);
        crate::text::push_all(&mut out, &chars_of("}"));
        string_of(out.as_slice())
    }
}

impl SingleArticleHtmlDownloadRequest {
    /// The request as JSON.
    pub fn to_json(&self) -> (r: String)
        ensures
            r@ == single_download_request_json(self.article_id@, proxy_view(self.proxy)),
    {
        let mut out = chars_of("{\"articleId\":");
        push_json_string(&mut out, self.article_id.as_str());
        crate::text::push_all(&mut out, &chars_of(",\"proxy\":"));
        push_proxy_json(&mut out, &self.proxy);
        crate::text::push_all(&mut out, &chars_of("}"));
        string_of(out.as_slice())
    }
}

/// The task item of an article's download: the article id, the item type, and the request as
/// JSON.
pub fn download_task_item(
    fakeid: &str,
    article_id: &str,
    proxy: &Option<NetworkProxySetting>,
) -> (r: CollectionTaskItemInput)
    ensures
        r.item_id@ == article_id@,
        r.item_type@ == "article-html"@,
        r.payload_json@ == download_request_json(fakeid@, article_id@, proxy_view(*proxy)),
{
    let request = ArticleHtmlDownloadRequest {
        fakeid: String::from_str(fakeid),
        article_id: String::from_str(article_id),
        proxy: copy_proxy(proxy),
    };
    CollectionTaskItemInput {
        item_id: String::from_str(article_id),
        item_type: String::from_str("article-html"),
        payload_json: request.to_json(),
    }
}

/// The task item of a single article's download.
pub fn single_download_task_item(article_id: &str, proxy: &Option<NetworkProxySetting>) -> (r:
    CollectionTaskItemInput)
    ensures
        r.item_id@ == article_id@,
        r.item_type@ == "single-article-html"@,
        r.payload_json@ == single_download_request_json(article_id@, proxy_view(*proxy)),
{
    let request = SingleArticleHtmlDownloadRequest {
        article_id: String::from_str(article_id),
        proxy: copy_proxy(proxy),
    };
    CollectionTaskItemInput {
        item_id: String::from_str(article_id),
        item_type: String::from_str("single-article-html"),
        payload_json: request.to_json(),
    }
}

/// The archived article an account's download is for: the first of the account's target
/// articles with the id, as an archive record, or the not-found error.
pub fn find_target_article(
    articles: &Vec<TargetArticleInput>,
    fakeid: &str,
    article_id: &str,
) -> (r: Result<ArchiveArticle, ArticleHtmlDownloadError>)
    ensures
        (exists|i: int| 0 <= i < articles@.len() && #[trigger] articles@[i].article_id@ == article_id@)
            ==> (r matches Ok(a) && a.article_id@ == article_id@ && a.html_file is None
            && a.markdown_file is None && exists|i: int|
            0 <= i < articles@.len() && #[trigger] articles@[i].article_id@ == article_id@
                && a.target_account_id@ == articles@[i].target_account_id@ && a.title@
                == articles@[i].title@ && a.source_url@ == articles@[i].source_url@ && (forall|
                j: int,
            |
                0 <= j < i ==> articles@[j].article_id@ != article_id@)),
        !(exists|i: int| 0 <= i < articles@.len() && #[trigger] articles@[i].article_id@ == article_id@)
            ==> (r matches Err(ArticleHtmlDownloadError::ArticleNotFound { fakeid: f, article_id: a })
            && f@ == fakeid@ && a@ == article_id@),
{
    let mut k: usize = 0;
    while k < articles.len()
        invariant
            k <= articles@.len(),
            forall|j: int| 0 <= j < k ==> #[trigger] articles@[j].article_id@ != article_id@,
        decreases articles.len() - k,
    {
        let a = &articles[k];
        if crate::archive_store::str_eq(a.article_id.as_str(), article_id) {
            let found = ArchiveArticle {
                article_id: a.article_id.clone(),
                target_account_id: a.target_account_id.clone(),
                title: a.title.clone(),
                source_url: a.source_url.clone(),
                html_file: None,
                markdown_file: None,
                reading_enrichment: None,
                reading_comments: Vec::new(),
            };
            assert(articles@[k as int].article_id@ == article_id@);
            return Ok(found);
        }
        k = k + 1;
    }
    Err(
        ArticleHtmlDownloadError::ArticleNotFound {
            fakeid: String::from_str(fakeid),
            article_id: String::from_str(article_id),
        },
    )
}

/// The outcome of a finished download.
pub fn download_outcome(article: &ArchiveArticle, html_file: String, asset_files: Vec<String>) -> (r:
    ArticleHtmlDownloadOutcome)
    ensures
        r.article_id == article.article_id,
        r.target_account_id == article.target_account_id,
        r.source_url == article.source_url,
        r.html_file == html_file,
        r.asset_files == asset_files,
{
    ArticleHtmlDownloadOutcome {
        article_id: article.article_id.clone(),
        target_account_id: article.target_account_id.clone(),
        source_url: article.source_url.clone(),
        html_file,
        asset_files,
    }
}

/// The login secret text that a read of the login slot gives: the text it holds, the error
/// for an empty slot, or the store's error.
pub fn login_secret_from_read(read: Result<Option<String>, SecretStoreError>) -> (r: Result<
    String,
    ArticleHtmlDownloadError,
>)
    ensures
        read matches Ok(Some(s)) ==> r == Ok::<String, ArticleHtmlDownloadError>(s),
        read matches Ok(None) ==> r == Err::<String, ArticleHtmlDownloadError>(ArticleHtmlDownloadError::MissingOfficialAccountLogin),
        read matches Err(e) ==> r == Err::<String, ArticleHtmlDownloadError>(ArticleHtmlDownloadError::SecretStore(e)),
{
    match read {
        Ok(Some(s)) => Ok(s),
        Ok(None) => Err(ArticleHtmlDownloadError::MissingOfficialAccountLogin),
        Err(e) => Err(ArticleHtmlDownloadError::SecretStore(e)),
    }
}

/// Downloads article pages and their assets through a transport.
pub struct ArticleHtmlDownloadClient<T, B> {
    transport: T,
    secret_store: SecretStore<B>,
}

impl<T: ArticleHtmlDownloadTransport, B: SecretBackend> ArticleHtmlDownloadClient<T, B> {
    pub closed spec fn secrets(&self) -> Map<SecretSlot, Seq<char>> {
        self.secret_store.stored()
    }

    /// The transport the client fetches through.
    pub closed spec fn transport(&self) -> T {
        self.transport
    }

    pub fn new(transport: T, secret_store: SecretStore<B>) -> (r: Self)
        ensures
            r.secrets() == secret_store.stored(),
    {
        ArticleHtmlDownloadClient { transport, secret_store }
    }

    /// The stored login secret text, or the error when there is none.
    pub fn login_secret_text(&self) -> (r: Result<String, ArticleHtmlDownloadError>)
        ensures
            B::obeys_store_laws() ==> (r matches Ok(s) ==> self.secrets().contains_key(SecretSlot::OfficialAccountLogin)
                && s@ == self.secrets()[SecretSlot::OfficialAccountLogin]),
            r is Err ==> (r matches Err(ArticleHtmlDownloadError::MissingOfficialAccountLogin)
                || r matches Err(ArticleHtmlDownloadError::SecretStore(_))),
            B::obeys_store_laws() ==> (!self.secrets().contains_key(SecretSlot::OfficialAccountLogin) ==> r is Err),
            B::obeys_store_laws() && B::always_succeeds() ==> (self.secrets().contains_key(
                SecretSlot::OfficialAccountLogin,
            ) ==> (r matches Ok(s) && s@ == self.secrets()[SecretSlot::OfficialAccountLogin])),
            B::obeys_store_laws() && B::always_succeeds() ==> (!self.secrets().contains_key(
                SecretSlot::OfficialAccountLogin,
            ) ==> r == Err::<String, ArticleHtmlDownloadError>(ArticleHtmlDownloadError::MissingOfficialAccountLogin)),
            r matches Err(ArticleHtmlDownloadError::SecretStore(_)) ==> !B::always_succeeds(),
    {
        login_secret_from_read(self.secret_store.read(SecretSlot::OfficialAccountLogin))
    }

    /// One resource, requested up to three times.
    pub fn fetch_resource(&self, request: &ArticleHtmlDownloadResourceRequest) -> (r: Result<
        ArticleHtmlDownloadResourceResponse,
        ArticleHtmlDownloadError,
    >)
        ensures
            r matches Err(e) ==> e is Transport,
            download_answer_allowed(self.transport(), *request, r),
            exists|answers: Seq<Result<ArticleHtmlDownloadResourceResponse, String>>|
                #[trigger] retried_download(self.transport(), *request, answers, r),
    {
        fetch_with_retries(&self.transport, request)
    }
}

/// A proxy setting as JSON text.
pub fn single_download_request_json_proxy(p: &Option<NetworkProxySetting>) -> (r: String)
    ensures
        r@ == proxy_json(proxy_view(*p)),
{
    let mut out: Vec<char> = Vec::new();
    push_proxy_json(&mut out, p);
    assert(out@ =~= proxy_json(proxy_view(*p)));
    string_of(out.as_slice())
}

} // verus!
