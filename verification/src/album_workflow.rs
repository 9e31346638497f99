//! Albums of a target account: the album page response as archive records, paging through an
//! album, and the task items of album downloads and exports.
use vstd::prelude::*;

use crate::archive_store::{
    ArchiveStoreError, CollectionTaskItemInput, TargetArticleAlbumInfo, TargetArticleInput,
};
use crate::article_export::{ArticleExportError, ArticleExportFormat};
use crate::article_html_download::{
    copy_proxy, fetch_with_retries, proxy_json, retried_download, proxy_view, ArticleHtmlDownloadError,
    ArticleHtmlDownloadResourceRequest, ArticleHtmlDownloadResourceResponse,
    ArticleHtmlDownloadTransport, NetworkProxySetting,
};
use crate::article_list_sync::{album_info_view, album_infos_view};
use crate::json_text::{json_string, push_json_string};
use crate::numbers::{parse_i64, signed_decimal};
use crate::secret_store::{SecretBackend, SecretSlot, SecretStore, SecretStoreError};
use crate::text::{chars_of, string_of, trim};
use crate::wechat_response::{base_response_error, base_response_view, WeChatBaseResponse};

verus! {

#[derive(Debug, Clone, Eq, PartialEq)]
pub enum AlbumWorkflowError {
    ArchiveStore(ArchiveStoreError),
    ArticleDownload(ArticleHtmlDownloadError),
    ArticleExport(ArticleExportError),
    ArticleNotDownloaded(String),
    MissingOfficialAccountLogin,
    Parse(String),
    SecretStore(SecretStoreError),
    Transport(String),
}

impl AlbumWorkflowError {
    /// The message shown for the error.
    pub fn message(&self) -> (r: String)
        ensures
            self matches AlbumWorkflowError::ArticleNotDownloaded(id) ==> r@
                == "album article has not been downloaded: "@ + id@,
            self is MissingOfficialAccountLogin ==> r@
                == "Official Account Login is required before fetching album content"@,
            self matches AlbumWorkflowError::Parse(e) ==> r@ == "album response parse failed: "@
                + e@,
            self matches AlbumWorkflowError::Transport(e) ==> r@ == "album transport failed: "@
                + e@,
    {
        let (prefix, detail) = match self {
            AlbumWorkflowError::ArchiveStore(e) => {
                return e.message();
            },
            AlbumWorkflowError::ArticleDownload(e) => {
                return e.message();
            },
            AlbumWorkflowError::ArticleExport(e) => {
                return e.message();
            },
            AlbumWorkflowError::ArticleNotDownloaded(id) => (
                "album article has not been downloaded: ",
                id.as_str(),
            ),
            AlbumWorkflowError::MissingOfficialAccountLogin => {
                return String::from_str(
                    "Official Account Login is required before fetching album content",
                );
            },
            AlbumWorkflowError::Parse(e) => ("album response parse failed: ", e.as_str()),
            AlbumWorkflowError::SecretStore(e) => {
                return e.message();
            },
            AlbumWorkflowError::Transport(e) => ("album transport failed: ", e.as_str()),
        };
        let mut out = chars_of(prefix);
        crate::text::push_all(&mut out, &chars_of(detail));
        string_of(out.as_slice())
    }
}

#[derive(Clone, Debug, Eq, PartialEq)]
pub struct AlbumPageRequest {
    pub fakeid: String,
    pub album_id: String,
    pub begin_msgid: Option<String>,
    pub begin_itemidx: Option<String>,
    pub count: u32,
    pub is_reverse: bool,
    pub cookie_header: String,
}

#[derive(Clone, Debug, Eq, PartialEq)]
pub struct AlbumBaseInfo {
    pub article_count: String,
    pub brand_icon: String,
    pub cover: String,
    pub description: String,
    pub nickname: String,
    pub title: String,
    pub username: String,
}

#[derive(Clone, Debug, Eq, PartialEq)]
pub struct AlbumPage {
    pub album_id: String,
    pub album_title: String,
    pub base_info: AlbumBaseInfo,
    pub articles: Vec<TargetArticleInput>,
    pub has_more: bool,
}

#[derive(Clone, Debug, Eq, PartialEq)]
pub struct AlbumFetchAllOutcome {
    pub album_id: String,
    pub album_title: String,
    pub articles: Vec<TargetArticleInput>,
    pub task_id: String,
}

#[derive(Clone, Debug, Eq, PartialEq)]
pub struct AlbumPageCommandRequest {
    pub fakeid: String,
    pub album_id: String,
    pub album_title: String,
    pub begin_msgid: Option<String>,
    pub begin_itemidx: Option<String>,
    pub count: u32,
    pub is_reverse: bool,
}

#[derive(Clone, Debug, Eq, PartialEq)]
pub struct AlbumFetchAllCommandRequest {
    pub fakeid: String,
    pub album_id: String,
    pub album_title: String,
    pub page_size: u32,
    pub is_reverse: bool,
}

#[derive(Clone, Debug, Eq, PartialEq)]
pub struct AlbumDownloadRequest {
    pub fakeid: String,
    pub album_id: String,
    pub proxy: Option<NetworkProxySetting>,
}

#[derive(Clone, Debug, Eq, PartialEq)]
pub struct AlbumExportRequest {
    pub fakeid: String,
    pub album_id: String,
    pub formats: Vec<ArticleExportFormat>,
    pub output_dir: Option<String>,
}

/// Fetches the raw text of one album page.
pub trait AlbumPageTransport {
    /// Whether the transport may answer `request` with `answer`. A transport that describes
    /// nothing may answer anything.
    open spec fn page_answer_allowed(&self, request: AlbumPageRequest, answer: Result<String, String>) -> bool {
        true
    }

    fn fetch_page(&self, request: AlbumPageRequest) -> (r: Result<String, String>)
        ensures
            self.page_answer_allowed(request, r),
    ;
}

/// Fetches one resource of an album article.
pub trait AlbumArticleDownloadTransport {
    /// Whether the transport may answer `request` with `answer`. A transport that describes
    /// nothing may answer anything.
    open spec fn album_resource_answer_allowed(
        &self,
        request: ArticleHtmlDownloadResourceRequest,
        answer: Result<ArticleHtmlDownloadResourceResponse, String>,
    ) -> bool {
        true
    }

    fn fetch(&self, request: ArticleHtmlDownloadResourceRequest) -> (r: Result<
        ArticleHtmlDownloadResourceResponse,
        String,
    >)
        ensures
            self.album_resource_answer_allowed(request, r),
    ;
}

/// An album article as the platform sends it (every field is text).
#[derive(Clone, Debug, Eq, PartialEq)]
pub struct WeChatAlbumArticle {
    pub cover_img_1_1: String,
    pub create_time: String,
    pub item_show_type: String,
    pub itemidx: String,
    pub msgid: String,
    pub title: String,
    pub url: String,
}

/// The article list of an album page: a list, one article on its own, or nothing.
#[derive(Clone, Debug, Eq, PartialEq)]
pub enum WeChatAlbumArticleList {
    Many(Vec<WeChatAlbumArticle>),
    One(WeChatAlbumArticle),
    Empty,
}

/// The articles of a list.
pub open spec fn list_items(list: WeChatAlbumArticleList) -> Seq<WeChatAlbumArticle> {
    match list {
        WeChatAlbumArticleList::Many(items) => items@,
        WeChatAlbumArticleList::One(item) => seq![item],
        WeChatAlbumArticleList::Empty => Seq::empty(),
    }
}

impl WeChatAlbumArticleList {
    /// The articles of the list, in order.
    pub fn into_items(self) -> (r: Vec<WeChatAlbumArticle>)
        ensures
            r@ == list_items(self),
    {
        match self {
            WeChatAlbumArticleList::Many(items) => items,
            WeChatAlbumArticleList::One(item) => {
                let r = vec![item];
                assert(r@ =~= seq![item]);
                r
            },
            WeChatAlbumArticleList::Empty => Vec::new(),
        }
    }
}

/// The album description as the platform sends it.
#[derive(Clone, Debug, Eq, PartialEq)]
pub struct WeChatAlbumBaseInfo {
    pub article_count: String,
    pub brand_icon: String,
    pub cover: String,
    pub description: String,
    pub nickname: String,
    pub title: String,
    pub username: String,
}

impl WeChatAlbumBaseInfo {
    /// A description with every field empty.
    pub fn empty() -> (r: Self)
        ensures
            r.article_count@.len() == 0,
            r.brand_icon@.len() == 0,
            r.cover@.len() == 0,
            r.description@.len() == 0,
            r.nickname@.len() == 0,
            r.title@.len() == 0,
            r.username@.len() == 0,
    {
        WeChatAlbumBaseInfo {
            article_count: String::new(),
            brand_icon: String::new(),
            cover: String::new(),
            description: String::new(),
            nickname: String::new(),
            title: String::new(),
            username: String::new(),
        }
    }

    /// The description as the archive keeps it.
    pub fn into_album_base_info(self) -> (r: AlbumBaseInfo)
        ensures
            r.article_count == self.article_count,
            r.brand_icon == self.brand_icon,
            r.cover == self.cover,
            r.description == self.description,
            r.nickname == self.nickname,
            r.title == self.title,
            r.username == self.username,
    {
        AlbumBaseInfo {
            article_count: self.article_count,
            brand_icon: self.brand_icon,
            cover: self.cover,
            description: self.description,
            nickname: self.nickname,
            title: self.title,
            username: self.username,
        }
    }
}

/// The `getalbum_resp` part of an album response.
#[derive(Clone, Debug, Eq, PartialEq)]
pub struct WeChatGetAlbumResponse {
    pub article_list: WeChatAlbumArticleList,
    pub base_info: Option<WeChatAlbumBaseInfo>,
    pub continue_flag: String,
}

/// A number read from text, or 0 where it does not parse.
pub open spec fn number_or_zero(s: Seq<char>) -> i64 {
    match parse_i64(s) {
        Some(n) => n,
        None => 0,
    }
}

fn number_or_zero_exec(s: &str) -> (r: i64)
    ensures
        r == number_or_zero(s@),
{
    match crate::numbers::parse_i64_exec(&chars_of(s)) {
        Some(n) => n,
        None => 0,
    }
}

/// The archive record of an album article of account `fakeid`: the id is
/// `<msgid>_<itemidx>`, the numbers are read from text (0 where they do not parse), the
/// update time is the create time, and the only album entry is the album's.
pub open spec fn album_article_of(article: WeChatAlbumArticle, fakeid: Seq<char>) -> (
    Seq<char>,
    Seq<char>,
    Seq<char>,
    Seq<char>,
    Seq<char>,
    Seq<char>,
    Seq<char>,
    (i64, i64, i64, i64, i64, bool, i64),
) {
    let appmsgid = number_or_zero(article.msgid@);
    let itemidx = number_or_zero(article.itemidx@);
    (
        signed_decimal(appmsgid as int) + "_"@ + signed_decimal(itemidx as int),
        fakeid,
        article.title@,
        article.url@,
        Seq::empty(),
        Seq::empty(),
        article.cover_img_1_1@,
        (
            appmsgid,
            itemidx,
            number_or_zero(article.item_show_type@),
            number_or_zero(article.create_time@),
            number_or_zero(article.create_time@),
            false,
            0,
        ),
    )
}

impl WeChatAlbumArticle {
    /// The archive record of this article for account `fakeid` in the album `album_info`.
    pub fn into_target_article(&self, fakeid: &str, album_info: TargetArticleAlbumInfo) -> (r:
        TargetArticleInput)
        ensures
            crate::article_list_sync::target_article_fields(r) == album_article_of(*self, fakeid@),
            album_infos_view(r.album_infos@) == seq![album_info_view(album_info)],
    {
        let appmsgid = number_or_zero_exec(self.msgid.as_str());
        let itemidx = number_or_zero_exec(self.itemidx.as_str());
        let mut id = crate::numbers::i64_to_decimal(appmsgid);
        id.push('_');
        crate::text::push_all(&mut id, &crate::numbers::i64_to_decimal(itemidx));
        proof {
            reveal_strlit("_");
        }
        let ghost info_view = album_info_view(album_info);
        let infos = vec![album_info];
        assert(album_infos_view(infos@) =~= seq![info_view]);
        TargetArticleInput {
            article_id: string_of(id.as_slice()),
            target_account_id: String::from_str(fakeid),
            title: self.title.clone(),
            source_url: self.url.clone(),
            digest: String::new(),
            author_name: String::new(),
            cover: self.cover_img_1_1.clone(),
            appmsgid,
            itemidx,
            item_show_type: number_or_zero_exec(self.item_show_type.as_str()),
            create_time: number_or_zero_exec(self.create_time.as_str()),
            update_time: number_or_zero_exec(self.create_time.as_str()),
            is_deleted: false,
            copyright_type: 0,
            album_infos: infos,
        }
    }
}

/// The title an album page is shown under: the title in its description when that holds
/// anything, otherwise the one the request named.
pub open spec fn resolved_album_title(base_title: Seq<char>, requested: Seq<char>) -> Seq<char> {
    if trim(base_title).len() == 0 {
        requested
    } else {
        base_title
    }
}

/// The album page of a parsed album response for account `fakeid` and album `album_id`:
/// an error unless the response status is success; otherwise the articles as archive records,
/// each in the album, and whether more pages follow (`continue_flag` other than `0`).
pub fn album_page_from_response(
    fakeid: &str,
    album_id: &str,
    album_title: &str,
    base_resp: Option<&WeChatBaseResponse>,
    response: WeChatGetAlbumResponse,
) -> (r: Result<AlbumPage, AlbumWorkflowError>)
    ensures
        base_response_error(base_response_view(
            match base_resp {
                Some(b) => Some(*b),
                None => None,
            },
        )) matches Some(e) ==> (r matches Err(AlbumWorkflowError::Transport(m)) && m@ == e),
        base_response_error(base_response_view(
            match base_resp {
                Some(b) => Some(*b),
                None => None,
            },
        )) is None ==> (r matches Ok(page) && {
            let base_title = match response.base_info {
                Some(b) => b.title@,
                None => Seq::empty(),
            };
            let title = resolved_album_title(base_title, album_title@);
            let items = list_items(response.article_list);
            &&& page.album_id@ == album_id@
            &&& page.album_title@ == title
            &&& page.base_info.title@ == base_title
            &&& response.base_info matches Some(b) ==> {
                &&& page.base_info.article_count == b.article_count
                &&& page.base_info.brand_icon == b.brand_icon
                &&& page.base_info.cover == b.cover
                &&& page.base_info.description == b.description
                &&& page.base_info.nickname == b.nickname
                &&& page.base_info.title == b.title
                &&& page.base_info.username == b.username
            }
            &&& response.base_info is None ==> {
                &&& page.base_info.article_count@.len() == 0
                &&& page.base_info.brand_icon@.len() == 0
                &&& page.base_info.cover@.len() == 0
                &&& page.base_info.description@.len() == 0
                &&& page.base_info.nickname@.len() == 0
                &&& page.base_info.username@.len() == 0
            }
            &&& page.has_more == (trim(response.continue_flag@) != "0"@)
            &&& page.articles@.len() == items.len()
            &&& forall|i: int|
                0 <= i < items.len() ==> crate::article_list_sync::target_article_fields(
                    #[trigger] page.articles@[i],
                ) == album_article_of(items[i], fakeid@) && album_infos_view(
                    page.articles@[i].album_infos@,
                ) == seq![(number_or_zero(album_id@), album_id@, 0i64, title)]
        }),
{
    match crate::wechat_response::ensure_base_response_ok(base_resp) {
        Ok(()) => {},
        Err(e) => {
            return Err(AlbumWorkflowError::Transport(e));
        },
    }
    let base_info = match response.base_info {
        Some(b) => b,
        None => WeChatAlbumBaseInfo::empty(),
    };
    let title = if crate::text::trim_chars(&chars_of(base_info.title.as_str())).len() == 0 {
        String::from_str(album_title)
    } else {
        base_info.title.clone()
    };
    let items = response.article_list.into_items();
    let mut articles: Vec<TargetArticleInput> = Vec::new();
    let album_number = number_or_zero_exec(album_id);
    let mut k: usize = 0;
    while k < items.len()
        invariant
            k <= items@.len(),
            articles@.len() == k,
            forall|i: int|
                0 <= i < k ==> crate::article_list_sync::target_article_fields(
                    #[trigger] articles@[i],
                ) == album_article_of(items@[i], fakeid@) && album_infos_view(
                    articles@[i].album_infos@,
                ) == seq![(album_number, album_id@, 0i64, title@)],
        decreases items.len() - k,
    {
        let info = TargetArticleAlbumInfo {
            album_id: album_number,
            id: String::from_str(album_id),
            tag_source: 0,
            title: title.clone(),
        };
        articles.push(items[k].into_target_article(fakeid, info));
        k = k + 1;
    }
    let flag = crate::text::trim_chars(&chars_of(response.continue_flag.as_str()));
    let zero = chars_of("0");
    let has_more = !crate::text::chars_eq(&flag, &zero);
    Ok(
        AlbumPage {
            album_id: String::from_str(album_id),
            album_title: title,
            base_info: base_info.into_album_base_info(),
            articles,
            has_more,
        },
    )
}

/// The request for one album page: at least one article per page, signed with the login
/// cookie.
pub fn album_page_request(
    fakeid: &str,
    album_id: &str,
    begin_msgid: &Option<String>,
    begin_itemidx: &Option<String>,
    count: u32,
    is_reverse: bool,
    cookie_header: &str,
) -> (r: AlbumPageRequest)
    ensures
        r.fakeid@ == fakeid@,
        r.album_id@ == album_id@,
        crate::article_list_sync::opt_view(r.begin_msgid) == crate::article_list_sync::opt_view(
            *begin_msgid,
        ),
        crate::article_list_sync::opt_view(r.begin_itemidx) == crate::article_list_sync::opt_view(
            *begin_itemidx,
        ),
        r.count == (if count < 1 {
            1
        } else {
            count
        }),
        r.is_reverse == is_reverse,
        r.cookie_header@ == cookie_header@,
{
    AlbumPageRequest {
        fakeid: String::from_str(fakeid),
        album_id: String::from_str(album_id),
        begin_msgid: match begin_msgid {
            Some(m) => Some(m.clone()),
            None => None,
        },
        begin_itemidx: match begin_itemidx {
            Some(i) => Some(i.clone()),
            None => None,
        },
        count: if count < 1 {
            1
        } else {
            count
        },
        is_reverse,
        cookie_header: String::from_str(cookie_header),
    }
}

/// Where a walk through an album stands: the articles taken so far and the position after
/// the last of them.
#[derive(Clone, Debug)]
pub struct AlbumFetchProgress {
    pub begin_msgid: Option<String>,
    pub begin_itemidx: Option<String>,
    pub articles: Vec<TargetArticleInput>,
    pub finished: bool,
}

impl AlbumFetchProgress {
    /// A walk that has taken nothing yet.
    pub fn new() -> (r: Self)
        ensures
            r.begin_msgid is None,
            r.begin_itemidx is None,
            r.articles@.len() == 0,
            !r.finished,
    {
        AlbumFetchProgress { begin_msgid: None, begin_itemidx: None, articles: Vec::new(), finished: false }
    }

    /// Takes in a page whose articles were stored: an empty page ends the walk; otherwise its
    /// articles are appended, the position moves to its last article, and the walk ends when
    /// the page says no more follow.
    pub fn record_page(&mut self, page: AlbumPage)
        requires
            !old(self).finished,
        ensures
            page.articles@.len() == 0 ==> final(self).finished && final(self).articles@
                == old(self).articles@ && crate::article_list_sync::opt_view(
                final(self).begin_msgid,
            ) == crate::article_list_sync::opt_view(old(self).begin_msgid)
                && crate::article_list_sync::opt_view(final(self).begin_itemidx)
                == crate::article_list_sync::opt_view(old(self).begin_itemidx),
            page.articles@.len() > 0 ==> final(self).articles@ == old(self).articles@
                + page.articles@ && final(self).finished == !page.has_more
                && crate::article_list_sync::opt_view(final(self).begin_msgid) == Some(
                signed_decimal(page.articles@.last().appmsgid as int),
            ) && crate::article_list_sync::opt_view(final(self).begin_itemidx) == Some(
                signed_decimal(page.articles@.last().itemidx as int),
            ),
    {
        if page.articles.len() == 0 {
            self.finished = true;
            return;
        }
        let n = page.articles.len();
        let last_msgid = page.articles[n - 1].appmsgid;
        let last_itemidx = page.articles[n - 1].itemidx;
        let has_more = page.has_more;
        let mut incoming = page.articles;
        self.articles.append(&mut incoming);
        self.begin_msgid = Some(string_of(crate::numbers::i64_to_decimal(last_msgid).as_slice()));
        self.begin_itemidx = Some(string_of(crate::numbers::i64_to_decimal(last_itemidx).as_slice()));
        if !has_more {
            self.finished = true;
        }
    }
}

/// The payload of an album article link item: its album, article, account and URL as JSON
/// (keys in sorted order).
pub open spec fn album_link_payload(
    fakeid: Seq<char>,
    album_id: Seq<char>,
    article_id: Seq<char>,
    source_url: Seq<char>,
) -> Seq<char> {
    "{\"albumId\":"@ + json_string(album_id) + ",\"articleId\":"@ + json_string(article_id)
        + ",\"fakeid\":"@ + json_string(fakeid) + ",\"sourceUrl\":"@ + json_string(source_url)
        + "}"@
}

/// The task items that record the articles of a walk through an album, one per article.
pub fn album_link_task_items(fakeid: &str, album_id: &str, articles: &Vec<TargetArticleInput>) -> (r:
    Vec<CollectionTaskItemInput>)
    ensures
        r@.len() == articles@.len(),
        forall|i: int|
            0 <= i < articles@.len() ==> (#[trigger] r@[i]).item_id@ == articles@[i].article_id@
                && r@[i].item_type@ == "album-article-link"@ && r@[i].payload_json@
                == album_link_payload(
                fakeid@,
                album_id@,
                articles@[i].article_id@,
                articles@[i].source_url@,
            ),
{
    let mut items: Vec<CollectionTaskItemInput> = Vec::new();
    let mut k: usize = 0;
    while k < articles.len()
        invariant
            k <= articles@.len(),
            items@.len() == k,
            forall|i: int|
                0 <= i < k ==> (#[trigger] items@[i]).item_id@ == articles@[i].article_id@
                    && items@[i].item_type@ == "album-article-link"@ && items@[i].payload_json@
                    == album_link_payload(
                    fakeid@,
                    album_id@,
                    articles@[i].article_id@,
                    articles@[i].source_url@,
                ),
        decreases articles.len() - k,
    {
        let a = &articles[k];
        let mut out = chars_of("{\"albumId\":");
        push_json_string(&mut out, album_id);
        crate::text::push_all(&mut out, &chars_of(",\"articleId\":"));
        push_json_string(&mut out, a.article_id.as_str());
        crate::text::push_all(&mut out, &chars_of(",\"fakeid\":"));
        push_json_string(&mut out, fakeid);
        crate::text::push_all(&mut out, &chars_of(",\"sourceUrl\":"));
        push_json_string(&mut out, a.source_url.as_str());
        crate::text::push_all(&mut out, &chars_of("}"));
        items.push(
            CollectionTaskItemInput {
                item_id: a.article_id.clone(),
                item_type: String::from_str("album-article-link"),
                payload_json: string_of(out.as_slice()),
            },
        );
        k = k + 1;
    }
    items
}

/// An album download request as JSON.
pub open spec fn album_download_payload(
    fakeid: Seq<char>,
    album_id: Seq<char>,
    proxy: Option<(Seq<char>, Option<Seq<char>>)>,
) -> Seq<char> {
    "{\"fakeid\":"@ + json_string(fakeid) + ",\"albumId\":"@ + json_string(album_id)
        + ",\"proxy\":"@ + proxy_json(proxy) + "}"@
}

impl AlbumDownloadRequest {
    /// The request as JSON.
    pub fn to_json(&self) -> (r: String)
        ensures
            r@ == album_download_payload(self.fakeid@, self.album_id@, proxy_view(self.proxy)),
    {
        let mut out = chars_of("{\"fakeid\":");
        push_json_string(&mut out, self.fakeid.as_str());
        crate::text::push_all(&mut out, &chars_of(",\"albumId\":"));
        push_json_string(&mut out, self.album_id.as_str());
        crate::text::push_all(&mut out, &chars_of(",\"proxy\":"));
        let p = crate::article_html_download::single_download_request_json_proxy(&self.proxy);
        crate::text::push_all(&mut out, &chars_of(p.as_str()));
        crate::text::push_all(&mut out, &chars_of("}"));
        string_of(out.as_slice())
    }
}

/// The name an export format is written under.
pub open spec fn format_name(f: ArticleExportFormat) -> Seq<char> {
    match f {
        ArticleExportFormat::Markdown => "markdown"@,
        ArticleExportFormat::Html => "html"@,
    }
}

/// A list of export formats as a JSON array.
pub open spec fn formats_json(formats: Seq<ArticleExportFormat>) -> Seq<char> {
    "["@ + crate::text::join(formats.map_values(|f: ArticleExportFormat| json_string(format_name(f))), ","@)
        + "]"@
}

/// An album export request as JSON.
pub open spec fn album_export_payload(
    fakeid: Seq<char>,
    album_id: Seq<char>,
    formats: Seq<ArticleExportFormat>,
    output_dir: Option<Seq<char>>,
) -> Seq<char> {
    "{\"fakeid\":"@ + json_string(fakeid) + ",\"albumId\":"@ + json_string(album_id)
        + ",\"formats\":"@ + formats_json(formats) + ",\"outputDir\":"@ + match output_dir {
        Some(d) => json_string(d),
        None => "null"@,
    } + "}"@
}

impl AlbumExportRequest {
    /// The request as JSON.
    pub fn to_json(&self) -> (r: String)
        ensures
            r@ == album_export_payload(
                self.fakeid@,
                self.album_id@,
                self.formats@,
                crate::article_list_sync::opt_view(self.output_dir),
            ),
    {
        let mut out = chars_of("{\"fakeid\":");
        push_json_string(&mut out, self.fakeid.as_str());
        crate::text::push_all(&mut out, &chars_of(",\"albumId\":"));
        push_json_string(&mut out, self.album_id.as_str());
        crate::text::push_all(&mut out, &chars_of(",\"formats\":"));
        let mut names: Vec<Vec<char>> = Vec::new();
        let mut k: usize = 0;
        while k < self.formats.len()
            invariant
                k <= self.formats@.len(),
                crate::text::views(names@) == self.formats@.take(k as int).map_values(
                    |f: ArticleExportFormat| json_string(format_name(f)),
                ),
            decreases self.formats.len() - k,
        {
            let mut name: Vec<char> = Vec::new();
            match self.formats[k] {
                ArticleExportFormat::Markdown => push_json_string(&mut name, "markdown"),
                ArticleExportFormat::Html => push_json_string(&mut name, "html"),
            }
            assert(name@ =~= json_string(format_name(self.formats@[k as int])));
            let ghost prev = names@;
            names.push(name);
            assert(crate::text::views(names@) =~= crate::text::views(prev).push(name@));
            assert(self.formats@.take(k as int + 1) =~= self.formats@.take(k as int).push(self.formats@[k as int]));
            assert(crate::text::views(names@) =~= self.formats@.take(k as int + 1).map_values(
                |f: ArticleExportFormat| json_string(format_name(f)),
            ));
            k = k + 1;
        }
        assert(self.formats@.take(self.formats@.len() as int) =~= self.formats@);
        out.push('[');
        crate::text::push_all(&mut out, &crate::text::join_chars(&names, &chars_of(",")));
        out.push(']');
        crate::text::push_all(&mut out, &chars_of(",\"outputDir\":"));
        match &self.output_dir {
            Some(d) => push_json_string(&mut out, d.as_str()),
            None => crate::text::push_all(&mut out, &chars_of("null")),
        }
        crate::text::push_all(&mut out, &chars_of("}"));
        proof {
            reveal_strlit("[");
            reveal_strlit("]");
        }
        string_of(out.as_slice())
    }
}

/// The task items of an album download or export: one per article, each with the request as
/// its payload.
pub fn album_request_task_items(
    articles: &Vec<TargetArticleInput>,
    item_type: &str,
    payload_json: &str,
) -> (r: Vec<CollectionTaskItemInput>)
    ensures
        r@.len() == articles@.len(),
        forall|i: int|
            0 <= i < articles@.len() ==> (#[trigger] r@[i]).item_id@ == articles@[i].article_id@
                && r@[i].item_type@ == item_type@ && r@[i].payload_json@ == payload_json@,
{
    let mut items: Vec<CollectionTaskItemInput> = Vec::new();
    let mut k: usize = 0;
    while k < articles.len()
        invariant
            k <= articles@.len(),
            items@.len() == k,
            forall|i: int|
                0 <= i < k ==> (#[trigger] items@[i]).item_id@ == articles@[i].article_id@
                    && items@[i].item_type@ == item_type@ && items@[i].payload_json@
                    == payload_json@,
        decreases articles.len() - k,
    {
        items.push(
            CollectionTaskItemInput {
                item_id: articles[k].article_id.clone(),
                item_type: String::from_str(item_type),
                payload_json: String::from_str(payload_json),
            },
        );
        k = k + 1;
    }
    items
}

/// The login secret text that a read of the login slot gives: the text it holds, the error
/// for an empty slot, or the store's error.
pub fn login_secret_from_read(read: Result<Option<String>, SecretStoreError>) -> (r: Result<
    String,
    AlbumWorkflowError,
>)
    ensures
        read matches Ok(Some(s)) ==> r == Ok::<String, AlbumWorkflowError>(s),
        read matches Ok(None) ==> r == Err::<String, AlbumWorkflowError>(AlbumWorkflowError::MissingOfficialAccountLogin),
        read matches Err(e) ==> r == Err::<String, AlbumWorkflowError>(AlbumWorkflowError::SecretStore(e)),
{
    match read {
        Ok(Some(s)) => Ok(s),
        Ok(None) => Err(AlbumWorkflowError::MissingOfficialAccountLogin),
        Err(e) => Err(AlbumWorkflowError::SecretStore(e)),
    }
}

/// Fetches album pages through a transport, signed with the stored login.
pub struct AlbumPageClient<T, B> {
    transport: T,
    secret_store: SecretStore<B>,
}

impl<T: AlbumPageTransport, B: SecretBackend> AlbumPageClient<T, B> {
    pub closed spec fn secrets(&self) -> Map<SecretSlot, Seq<char>> {
        self.secret_store.stored()
    }

    /// The transport the client fetches through.
    pub closed spec fn transport(&self) -> T {
        self.transport
    }

    pub fn new(transport: T, secret_store: SecretStore<B>) -> (r: Self)
        ensures
            r.secrets() == secret_store.stored(),
    {
        AlbumPageClient { transport, secret_store }
    }

    /// The stored login secret text, or the error when there is none.
    pub fn login_secret_text(&self) -> (r: Result<String, AlbumWorkflowError>)
        ensures
            B::obeys_store_laws() ==> (r matches Ok(s) ==> self.secrets().contains_key(SecretSlot::OfficialAccountLogin)
                && s@ == self.secrets()[SecretSlot::OfficialAccountLogin]),
            r is Err ==> (r matches Err(AlbumWorkflowError::MissingOfficialAccountLogin)
                || r matches Err(AlbumWorkflowError::SecretStore(_))),
            B::obeys_store_laws() ==> (!self.secrets().contains_key(SecretSlot::OfficialAccountLogin) ==> r is Err),
            B::obeys_store_laws() && B::always_succeeds() ==> (self.secrets().contains_key(
                SecretSlot::OfficialAccountLogin,
            ) ==> (r matches Ok(s) && s@ == self.secrets()[SecretSlot::OfficialAccountLogin])),
            B::obeys_store_laws() && B::always_succeeds() ==> (!self.secrets().contains_key(
                SecretSlot::OfficialAccountLogin,
            ) ==> r == Err::<String, AlbumWorkflowError>(AlbumWorkflowError::MissingOfficialAccountLogin)),
            r matches Err(AlbumWorkflowError::SecretStore(_)) ==> !B::always_succeeds(),
    {
        login_secret_from_read(self.secret_store.read(SecretSlot::OfficialAccountLogin))
    }

    /// The raw text of one album page, or the transport's error.
    pub fn fetch_raw_page(&self, request: AlbumPageRequest) -> (r: Result<String, AlbumWorkflowError>)
        ensures
            r matches Err(e) ==> e is Transport,
            r matches Ok(raw) ==> self.transport().page_answer_allowed(request, Ok(raw)),
            r matches Err(AlbumWorkflowError::Transport(m)) ==> self.transport().page_answer_allowed(
                request,
                Err(m),
            ),
    {
        match self.transport.fetch_page(request) {
            Ok(raw) => Ok(raw),
            Err(e) => Err(AlbumWorkflowError::Transport(e)),
        }
    }
}

/// An album download transport used where an article download transport is expected.
pub struct AlbumDownloadTransportAdapter<'a, T> {
    pub transport: &'a T,
}

impl<'a, T: AlbumArticleDownloadTransport> ArticleHtmlDownloadTransport for AlbumDownloadTransportAdapter<'a, T> {
    /// The adapter answers as the album transport does.
    open spec fn resource_answer_allowed(
        &self,
        request: ArticleHtmlDownloadResourceRequest,
        answer: Result<ArticleHtmlDownloadResourceResponse, String>,
    ) -> bool {
        self.transport.album_resource_answer_allowed(request, answer)
    }

    fn fetch(&self, request: ArticleHtmlDownloadResourceRequest) -> (r: Result<
        ArticleHtmlDownloadResourceResponse,
        String,
    >) {
        self.transport.fetch(request)
    }
}

/// Downloads the articles of an album through a transport, signed with the stored login.
pub struct AlbumDownloadClient<T, B> {
    transport: T,
    secret_store: SecretStore<B>,
}

impl<T: AlbumArticleDownloadTransport, B: SecretBackend> AlbumDownloadClient<T, B> {
    pub closed spec fn secrets(&self) -> Map<SecretSlot, Seq<char>> {
        self.secret_store.stored()
    }

    /// The transport the client fetches through.
    pub closed spec fn transport(&self) -> T {
        self.transport
    }

    pub fn new(transport: T, secret_store: SecretStore<B>) -> (r: Self)
        ensures
            r.secrets() == secret_store.stored(),
    {
        AlbumDownloadClient { transport, secret_store }
    }

    /// The stored login secret text, or the error when there is none.
    pub fn login_secret_text(&self) -> (r: Result<String, AlbumWorkflowError>)
        ensures
            B::obeys_store_laws() ==> (r matches Ok(s) ==> self.secrets().contains_key(SecretSlot::OfficialAccountLogin)
                && s@ == self.secrets()[SecretSlot::OfficialAccountLogin]),
            r is Err ==> (r matches Err(AlbumWorkflowError::MissingOfficialAccountLogin)
                || r matches Err(AlbumWorkflowError::SecretStore(_))),
            B::obeys_store_laws() ==> (!self.secrets().contains_key(SecretSlot::OfficialAccountLogin) ==> r is Err),
            B::obeys_store_laws() && B::always_succeeds() ==> (self.secrets().contains_key(
                SecretSlot::OfficialAccountLogin,
            ) ==> (r matches Ok(s) && s@ == self.secrets()[SecretSlot::OfficialAccountLogin])),
            B::obeys_store_laws() && B::always_succeeds() ==> (!self.secrets().contains_key(
                SecretSlot::OfficialAccountLogin,
            ) ==> r == Err::<String, AlbumWorkflowError>(AlbumWorkflowError::MissingOfficialAccountLogin)),
            r matches Err(AlbumWorkflowError::SecretStore(_)) ==> !B::always_succeeds(),
    {
        login_secret_from_read(self.secret_store.read(SecretSlot::OfficialAccountLogin))
    }

    /// One resource of an album article, requested up to three times.
    pub fn fetch_resource(&self, request: &ArticleHtmlDownloadResourceRequest) -> (r: Result<
        ArticleHtmlDownloadResourceResponse,
        ArticleHtmlDownloadError,
    >)
        ensures
            r matches Err(e) ==> e is Transport,
            r matches Ok(response) ==> self.transport().album_resource_answer_allowed(
                *request,
                Ok(response),
            ),
            r matches Err(ArticleHtmlDownloadError::Transport(m)) ==> self.transport().album_resource_answer_allowed(
                *request,
                Err(m),
            ),
            exists|answers: Seq<Result<ArticleHtmlDownloadResourceResponse, String>>|
                #[trigger] retried_download(
                    AlbumDownloadTransportAdapter { transport: &self.transport() },
                    *request,
                    answers,
                    r,
                ),
    {
        let adapter = AlbumDownloadTransportAdapter { transport: &self.transport };
        fetch_with_retries(&adapter, request)
    }
}

/// Exports the downloaded articles of an album.
pub struct AlbumWorkflowService;

impl AlbumWorkflowService {
    pub fn new() -> (r: Self) {
        AlbumWorkflowService
    }

    /// An export needs at least one format.
    pub fn check_formats(&self, formats: &Vec<ArticleExportFormat>) -> (r: Result<(), AlbumWorkflowError>)
        ensures
            r is Ok <==> formats@.len() > 0,
            r is Err ==> r == Err::<(), AlbumWorkflowError>(
                AlbumWorkflowError::ArticleExport(ArticleExportError::EmptyFormatList),
            ),
    {
        if formats.len() == 0 {
            Err(AlbumWorkflowError::ArticleExport(ArticleExportError::EmptyFormatList))
        } else {
            Ok(())
        }
    }
}

} // verus!
