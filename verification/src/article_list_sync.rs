//! Synchronising the article list of a target Official Account: the platform's article records
//! as archive records, and the paging through the publish list.
use vstd::prelude::*;

use crate::archive_store::{
    ArchiveStoreError, ArticleListSyncRecord, ArticleListSyncStatus, CollectionTaskItemInput,
    TargetArticleAlbumInfo, TargetArticleInput,
};
use crate::json_text::{json_string, push_json_string};
use crate::numbers::{decimal, parse_i64, signed_decimal};
use crate::official_account_login::OfficialAccountLoginSecret;
use crate::secret_store::{SecretBackend, SecretSlot, SecretStore, SecretStoreError};
use crate::text::{chars_of, string_of, trim};

verus! {

/// The most articles the platform returns per page.
pub const ARTICLE_LIST_PAGE_SIZE_LIMIT: u32 = 20;

/// The task item id and type of a list synchronisation.
pub const ARTICLE_LIST_SYNC_ITEM: &'static str = "article-list-sync";

#[derive(Debug, Clone, Eq, PartialEq)]
pub enum ArticleListSyncError {
    ArchiveStore(ArchiveStoreError),
    MissingOfficialAccountLogin,
    Parse(String),
    SecretStore(SecretStoreError),
    Transport(String),
}

impl ArticleListSyncError {
    /// The message shown for the error.
    pub fn message(&self) -> (r: String)
        ensures
            self is MissingOfficialAccountLogin ==> r@
                == "Official Account Login is required before synchronizing article lists"@,
            self matches ArticleListSyncError::Parse(e) ==> r@
                == "article list response parse failed: "@ + e@,
            self matches ArticleListSyncError::Transport(e) ==> r@
                == "article list sync transport failed: "@ + e@,
    {
        match self {
            ArticleListSyncError::ArchiveStore(e) => e.message(),
            ArticleListSyncError::MissingOfficialAccountLogin => String::from_str(
                "Official Account Login is required before synchronizing article lists",
            ),
            ArticleListSyncError::Parse(e) => {
                let mut out = chars_of("article list response parse failed: ");
                crate::text::push_all(&mut out, &chars_of(e.as_str()));
                string_of(out.as_slice())
            },
            ArticleListSyncError::SecretStore(e) => e.message(),
            ArticleListSyncError::Transport(e) => {
                let mut out = chars_of("article list sync transport failed: ");
                crate::text::push_all(&mut out, &chars_of(e.as_str()));
                string_of(out.as_slice())
            },
        }
    }
}

#[derive(Clone, Debug, Eq, PartialEq)]
pub struct ArticleListSyncRequest {
    pub fakeid: String,
    pub begin: u32,
    pub count: u32,
    pub token: String,
    pub cookie_header: String,
}

#[derive(Clone, Debug, Eq, PartialEq)]
pub struct ArticleListSyncPage {
    pub total_count: Option<u32>,
    pub message_count: u32,
    pub articles: Vec<TargetArticleInput>,
}

/// Fetches one page of an account's publish list.
pub trait ArticleListSyncTransport {
    /// Whether the transport may answer `request` with `answer`. A transport that describes
    /// nothing may answer anything.
    open spec fn sync_page_answer_allowed(
        &self,
        request: ArticleListSyncRequest,
        answer: Result<ArticleListSyncPage, String>,
    ) -> bool {
        true
    }

    fn fetch_page(&self, request: ArticleListSyncRequest) -> (r: Result<ArticleListSyncPage, String>)
        ensures
            self.sync_page_answer_allowed(request, r),
    ;
}

/// An album entry of an article as the platform sends it.
#[derive(Clone, Debug, Eq, PartialEq)]
pub struct WeChatArticleAlbumInfo {
    pub album_id: Option<i64>,
    pub id: Option<String>,
    pub tag_source: i64,
    pub title: Option<String>,
}

/// An article of the publish list as the platform sends it.
#[derive(Clone, Debug, Eq, PartialEq)]
pub struct WeChatArticle {
    pub aid: Option<String>,
    pub album_id: Option<String>,
    pub appmsg_album_infos: Vec<WeChatArticleAlbumInfo>,
    pub appmsgid: Option<i64>,
    pub itemidx: Option<i64>,
    pub title: Option<String>,
    pub link: Option<String>,
    pub digest: Option<String>,
    pub author_name: Option<String>,
    pub cover: Option<String>,
    pub create_time: Option<i64>,
    pub update_time: Option<i64>,
    pub item_show_type: Option<i64>,
    pub is_deleted: Option<bool>,
    pub copyright_type: Option<i64>,
}

/// An optional text as plain values.
pub open spec fn opt_view(s: Option<String>) -> Option<Seq<char>> {
    match s {
        Some(v) => Some(v@),
        None => None,
    }
}

/// An optional number or zero (`unwrap_or_default`).
pub open spec fn or_zero(v: Option<i64>) -> i64 {
    match v {
        Some(n) => n,
        None => 0,
    }
}

/// An optional text or the empty text.
pub open spec fn or_empty(s: Option<String>) -> Seq<char> {
    match s {
        Some(v) => v@,
        None => Seq::empty(),
    }
}

/// An album entry as plain values: album id, id, tag source and title.
pub open spec fn album_info_view(info: TargetArticleAlbumInfo) -> (i64, Seq<char>, i64, Seq<char>) {
    (info.album_id, info.id@, info.tag_source, info.title@)
}

/// The archive album entry for a platform album entry: its id is the trimmed `id` when that
/// holds anything, else the decimal album id; none when it has neither.
pub open spec fn album_info_of(info: WeChatArticleAlbumInfo) -> Option<(i64, Seq<char>, i64, Seq<char>)> {
    let id = match info.id {
        Some(v) => if trim(v@).len() > 0 {
            Some(trim(v@))
        } else {
            None
        },
        None => None,
    };
    let id = match id {
        Some(v) => Some(v),
        None => match info.album_id {
            Some(n) => Some(signed_decimal(n as int)),
            None => None,
        },
    };
    match id {
        Some(v) => Some((or_zero(info.album_id), v, info.tag_source, or_empty(info.title))),
        None => None,
    }
}

impl WeChatArticleAlbumInfo {
    /// The archive album entry for this entry.
    pub fn to_target_article_album_info(&self) -> (r: Option<TargetArticleAlbumInfo>)
        ensures
            r matches Some(i) ==> album_info_of(*self) == Some(album_info_view(i)),
            r is None ==> album_info_of(*self) is None,
    {
        let mut id: Option<Vec<char>> = None;
        if let Some(v) = &self.id {
            let t = crate::text::trim_chars(&chars_of(v.as_str()));
            if t.len() > 0 {
                id = Some(t);
            }
        }
        if id.is_none() {
            if let Some(n) = self.album_id {
                id = Some(crate::numbers::i64_to_decimal(n));
            }
        }
        match id {
            Some(v) => Some(
                TargetArticleAlbumInfo {
                    album_id: match self.album_id {
                        Some(n) => n,
                        None => 0,
                    },
                    id: string_of(v.as_slice()),
                    tag_source: self.tag_source,
                    title: match &self.title {
                        Some(t) => t.clone(),
                        None => String::new(),
                    },
                },
            ),
            None => None,
        }
    }
}

/// The kept album entries of a list of platform entries, in order.
pub open spec fn album_infos_of(infos: Seq<WeChatArticleAlbumInfo>) -> Seq<(i64, Seq<char>, i64, Seq<char>)>
    decreases infos.len(),
{
    if infos.len() == 0 {
        Seq::empty()
    } else {
        let rest = album_infos_of(infos.drop_last());
        match album_info_of(infos.last()) {
            Some(i) => rest.push(i),
            None => rest,
        }
    }
}

/// The album entries of an article: the kept entries of its album list, or, when none is
/// kept, one made from its trimmed `album_id` text (its number where it parses, else 0).
pub open spec fn article_album_infos(article: WeChatArticle) -> Seq<(i64, Seq<char>, i64, Seq<char>)> {
    let listed = album_infos_of(article.appmsg_album_infos@);
    if listed.len() > 0 {
        listed
    } else {
        match article.album_id {
            Some(a) => if trim(a@).len() > 0 {
                seq![
                    (
                        match parse_i64(trim(a@)) {
                            Some(n) => n,
                            None => 0,
                        },
                        trim(a@),
                        0,
                        Seq::empty(),
                    ),
                ]
            } else {
                Seq::empty()
            },
            None => Seq::empty(),
        }
    }
}

/// The views of a list of album entries.
pub open spec fn album_infos_view(v: Seq<TargetArticleAlbumInfo>) -> Seq<(i64, Seq<char>, i64, Seq<char>)> {
    v.map_values(|i: TargetArticleAlbumInfo| album_info_view(i))
}

/// The id of an article: its `aid` when not empty, else `<appmsgid>_<itemidx>`.
pub open spec fn article_id_of(article: WeChatArticle) -> Seq<char> {
    match article.aid {
        Some(a) => if a@.len() > 0 {
            a@
        } else {
            signed_decimal(or_zero(article.appmsgid) as int) + "_"@ + signed_decimal(
                or_zero(article.itemidx) as int,
            )
        },
        None => signed_decimal(or_zero(article.appmsgid) as int) + "_"@ + signed_decimal(
            or_zero(article.itemidx) as int,
        ),
    }
}

impl WeChatArticle {
    /// The album entries of this article.
    pub fn target_article_album_infos(&self) -> (r: Vec<TargetArticleAlbumInfo>)
        ensures
            album_infos_view(r@) == article_album_infos(*self),
    {
        let mut out: Vec<TargetArticleAlbumInfo> = Vec::new();
        let mut k: usize = 0;
        while k < self.appmsg_album_infos.len()
            invariant
                k <= self.appmsg_album_infos@.len(),
                album_infos_view(out@) == album_infos_of(self.appmsg_album_infos@.take(k as int)),
            decreases self.appmsg_album_infos.len() - k,
        {
            assert(self.appmsg_album_infos@.take(k as int + 1).drop_last()
                =~= self.appmsg_album_infos@.take(k as int));
            if let Some(info) = self.appmsg_album_infos[k].to_target_article_album_info() {
                let ghost prev = out@;
                let ghost iv = album_info_view(info);
                out.push(info);
                assert(album_infos_view(out@) =~= album_infos_view(prev).push(iv));
            }
            k = k + 1;
        }
        assert(self.appmsg_album_infos@.take(self.appmsg_album_infos@.len() as int)
            =~= self.appmsg_album_infos@);
        if out.len() == 0 {
            if let Some(a) = &self.album_id {
                let t = crate::text::trim_chars(&chars_of(a.as_str()));
                if t.len() > 0 {
                    let n = match crate::numbers::parse_i64_exec(&t) {
                        Some(n) => n,
                        None => 0,
                    };
                    out.push(
                        TargetArticleAlbumInfo {
                            album_id: n,
                            id: string_of(t.as_slice()),
                            tag_source: 0,
                            title: String::new(),
                        },
                    );
                    assert(album_infos_view(out@) =~= article_album_infos(*self));
                }
            }
        }
        out
    }
}

/// What an archive record of a target article holds, apart from its album entries.
pub open spec fn target_article_fields(a: TargetArticleInput) -> (
    Seq<char>,
    Seq<char>,
    Seq<char>,
    Seq<char>,
    Seq<char>,
    Seq<char>,
    Seq<char>,
    (i64, i64, i64, i64, i64, bool, i64),
) {
    (
        a.article_id@,
        a.target_account_id@,
        a.title@,
        a.source_url@,
        a.digest@,
        a.author_name@,
        a.cover@,
        (a.appmsgid, a.itemidx, a.item_show_type, a.create_time, a.update_time, a.is_deleted, a.copyright_type),
    )
}

/// The archive record of a platform article of account `fakeid`: missing texts are empty,
/// missing numbers zero, missing `is_deleted` false.
pub open spec fn target_article_of(article: WeChatArticle, fakeid: Seq<char>) -> (
    Seq<char>,
    Seq<char>,
    Seq<char>,
    Seq<char>,
    Seq<char>,
    Seq<char>,
    Seq<char>,
    (i64, i64, i64, i64, i64, bool, i64),
) {
    (
        article_id_of(article),
        fakeid,
        or_empty(article.title),
        or_empty(article.link),
        or_empty(article.digest),
        or_empty(article.author_name),
        or_empty(article.cover),
        (
            or_zero(article.appmsgid),
            or_zero(article.itemidx),
            or_zero(article.item_show_type),
            or_zero(article.create_time),
            or_zero(article.update_time),
            match article.is_deleted {
                Some(b) => b,
                None => false,
            },
            or_zero(article.copyright_type),
        ),
    )
}

fn text_or_empty(s: &Option<String>) -> (r: String)
    ensures
        r@ == or_empty(*s),
{
    match s {
        Some(v) => v.clone(),
        None => String::new(),
    }
}

impl WeChatArticle {
    /// The archive record of this article for account `fakeid`.
    pub fn into_target_article(&self, fakeid: &str) -> (r: TargetArticleInput)
        ensures
            target_article_fields(r) == target_article_of(*self, fakeid@),
            album_infos_view(r.album_infos@) == article_album_infos(*self),
    {
        let appmsgid = match self.appmsgid {
            Some(n) => n,
            None => 0,
        };
        let itemidx = match self.itemidx {
            Some(n) => n,
            None => 0,
        };
        let album_infos = self.target_article_album_infos();
        let generated = {
            let mut g = crate::numbers::i64_to_decimal(appmsgid);
            g.push('_');
            crate::text::push_all(&mut g, &crate::numbers::i64_to_decimal(itemidx));
            proof {
                reveal_strlit("_");
            }
            string_of(g.as_slice())
        };
        let article_id = match &self.aid {
            Some(a) => if a.as_str().unicode_len() > 0 {
                a.clone()
            } else {
                generated
            },
            None => generated,
        };
        TargetArticleInput {
            article_id,
            target_account_id: String::from_str(fakeid),
            title: text_or_empty(&self.title),
            source_url: text_or_empty(&self.link),
            digest: text_or_empty(&self.digest),
            author_name: text_or_empty(&self.author_name),
            cover: text_or_empty(&self.cover),
            appmsgid,
            itemidx,
            item_show_type: match self.item_show_type {
                Some(n) => n,
                None => 0,
            },
            create_time: match self.create_time {
                Some(n) => n,
                None => 0,
            },
            update_time: match self.update_time {
                Some(n) => n,
                None => 0,
            },
            is_deleted: match self.is_deleted {
                Some(b) => b,
                None => false,
            },
            copyright_type: match self.copyright_type {
                Some(n) => n,
                None => 0,
            },
            album_infos,
        }
    }
}

/// Whether a publish list item carries no publish information worth reading.
pub fn is_blank_publish_info(publish_info: &str) -> (r: bool)
    ensures
        r == (trim(publish_info@).len() == 0),
{
    crate::text::trim_chars(&chars_of(publish_info)).len() == 0
}

/// How many of `articles` open a message (`itemidx` is 1).
pub open spec fn message_count_of(articles: Seq<WeChatArticle>) -> nat
    decreases articles.len(),
{
    if articles.len() == 0 {
        0
    } else {
        message_count_of(articles.drop_last()) + if or_zero(articles.last().itemidx) == 1 {
            1nat
        } else {
            0nat
        }
    }
}

proof fn lemma_message_count_bound(articles: Seq<WeChatArticle>)
    ensures
        message_count_of(articles) <= articles.len(),
    decreases articles.len(),
{
    if articles.len() > 0 {
        lemma_message_count_bound(articles.drop_last());
    }
}

/// The articles of `messages`, one message after another.
pub open spec fn articles_of_messages(messages: Seq<Seq<WeChatArticle>>) -> Seq<WeChatArticle>
    decreases messages.len(),
{
    if messages.len() == 0 {
        Seq::empty()
    } else {
        articles_of_messages(messages.drop_last()) + messages.last()
    }
}

/// One published message: one or more articles, at positions 1, 2, … in order.
pub open spec fn is_message(articles: Seq<WeChatArticle>) -> bool {
    &&& articles.len() > 0
    &&& forall|j: int| 0 <= j < articles.len() ==> or_zero(#[trigger] articles[j].itemidx) == j + 1
}

proof fn lemma_message_count_append(a: Seq<WeChatArticle>, b: Seq<WeChatArticle>)
    ensures
        message_count_of(a + b) == message_count_of(a) + message_count_of(b),
    decreases b.len(),
{
    if b.len() == 0 {
        assert(a + b =~= a);
    } else {
        lemma_message_count_append(a, b.drop_last());
        assert((a + b).drop_last() =~= a + b.drop_last());
        assert((a + b).last() == b.last());
    }
}

proof fn lemma_one_message_counts_once(m: Seq<WeChatArticle>)
    requires
        is_message(m),
    ensures
        message_count_of(m) == 1,
    decreases m.len(),
{
    if m.len() > 1 {
        let init = m.drop_last();
        assert forall|j: int| 0 <= j < init.len() implies or_zero(#[trigger] init[j].itemidx) == j + 1 by {
            assert(init[j] == m[j]);
        }
        lemma_one_message_counts_once(init);
        assert(or_zero(m[m.len() - 1].itemidx) == m.len());
        assert(m.last() == m[m.len() - 1]);
        assert(message_count_of(m) == message_count_of(init) + 0);
    } else {
        assert(or_zero(m[0].itemidx) == 1);
        assert(m.last() == m[0]);
        assert(m.drop_last() =~= Seq::<WeChatArticle>::empty());
        assert(message_count_of(m.drop_last()) == 0);
    }
}

/// A page counts messages, not articles: the articles of `k` published messages, each made
/// of articles at positions 1 to its size, count as `k` messages, whatever the sizes.
pub proof fn law_page_counts_its_messages(messages: Seq<Seq<WeChatArticle>>)
    requires
        forall|m: int| 0 <= m < messages.len() ==> is_message(#[trigger] messages[m]),
    ensures
        message_count_of(articles_of_messages(messages)) == messages.len(),
    decreases messages.len(),
{
    if messages.len() > 0 {
        let init = messages.drop_last();
        assert forall|m: int| 0 <= m < init.len() implies is_message(#[trigger] init[m]) by {
            assert(init[m] == messages[m]);
        }
        law_page_counts_its_messages(init);
        lemma_message_count_append(articles_of_messages(init), messages.last());
        assert(is_message(messages[messages.len() - 1]));
        lemma_one_message_counts_once(messages.last());
    }
}

/// The page of a publish list: its total, how many messages it holds, and its articles as
/// archive records of account `fakeid`, in order.
pub fn page_from_articles(fakeid: &str, total_count: Option<u32>, articles: &Vec<WeChatArticle>) -> (r:
    ArticleListSyncPage)
    requires
        articles@.len() <= u32::MAX,
    ensures
        r.total_count == total_count,
        r.message_count == message_count_of(articles@),
        r.articles@.len() == articles@.len(),
        forall|i: int|
            0 <= i < articles@.len() ==> target_article_fields(#[trigger] r.articles@[i])
                == target_article_of(articles@[i], fakeid@) && album_infos_view(
                r.articles@[i].album_infos@,
            ) == article_album_infos(articles@[i]),
{
    let mut out: Vec<TargetArticleInput> = Vec::new();
    let mut message_count: u32 = 0;
    let mut k: usize = 0;
    while k < articles.len()
        invariant
            k <= articles@.len(),
            articles@.len() <= u32::MAX,
            message_count == message_count_of(articles@.take(k as int)),
            out@.len() == k,
            forall|i: int|
                0 <= i < k ==> target_article_fields(#[trigger] out@[i]) == target_article_of(
                    articles@[i],
                    fakeid@,
                ) && album_infos_view(out@[i].album_infos@) == article_album_infos(articles@[i]),
        decreases articles.len() - k,
    {
        assert(articles@.take(k as int + 1).drop_last() =~= articles@.take(k as int));
        proof {
            lemma_message_count_bound(articles@.take(k as int));
        }
        let a = &articles[k];
        let is_first = match a.itemidx {
            Some(n) => n == 1,
            None => false,
        };
        if is_first {
            message_count = message_count + 1;
        }
        out.push(a.into_target_article(fakeid));
        k = k + 1;
    }
    assert(articles@.take(articles@.len() as int) =~= articles@);
    ArticleListSyncPage { total_count, message_count, articles: out }
}

/// The page size a synchronisation uses: the requested one within `1..=20`.
pub open spec fn clamped_page_size(page_size: u32) -> u32 {
    if page_size < 1 {
        1
    } else if page_size > ARTICLE_LIST_PAGE_SIZE_LIMIT {
        ARTICLE_LIST_PAGE_SIZE_LIMIT
    } else {
        page_size
    }
}

/// The smaller of two counts.
pub open spec fn min_count(a: int, b: int) -> int {
    if a < b {
        a
    } else {
        b
    }
}

/// Where a synchronisation of at most `max_items` articles stands: the next offset, the
/// total the platform reported first, and how many articles were kept so far.
#[derive(Clone, Debug)]
pub struct ArticleListSyncProgress {
    pub fakeid: String,
    pub max_items: u32,
    pub page_size: u32,
    pub begin: u32,
    pub total_count: Option<u32>,
    pub fetched_count: u32,
    pub finished: bool,
}

impl ArticleListSyncProgress {
    /// The progress is consistent: never more articles than asked for, and an unfinished
    /// synchronisation still owes some.
    pub open spec fn wf(&self) -> bool {
        &&& self.fetched_count <= self.max_items
        &&& 1 <= self.page_size <= ARTICLE_LIST_PAGE_SIZE_LIMIT
        &&& !self.finished ==> self.fetched_count < self.max_items
    }

    /// How many more articles the synchronisation may keep.
    pub open spec fn remaining(&self) -> int {
        self.max_items - self.fetched_count
    }

    /// A synchronisation of at most `max_items` articles of account `fakeid` that has fetched
    /// nothing yet; with nothing asked for it is finished at once.
    pub fn new(fakeid: &str, max_items: u32, page_size: u32) -> (r: Self)
        ensures
            r.wf(),
            r.fakeid@ == fakeid@,
            r.max_items == max_items,
            r.page_size == clamped_page_size(page_size),
            r.begin == 0,
            r.total_count is None,
            r.fetched_count == 0,
            r.finished == (max_items == 0),
    {
        let clamped = if page_size < 1 {
            1
        } else if page_size > ARTICLE_LIST_PAGE_SIZE_LIMIT {
            ARTICLE_LIST_PAGE_SIZE_LIMIT
        } else {
            page_size
        };
        ArticleListSyncProgress {
            fakeid: String::from_str(fakeid),
            max_items,
            page_size: clamped,
            begin: 0,
            total_count: None,
            fetched_count: 0,
            finished: max_items == 0,
        }
    }

    /// The request for the next page, signed with the login secret: it asks for as many
    /// articles as are still owed, at most a page.
    pub fn next_request(&self, secret: &OfficialAccountLoginSecret) -> (r: ArticleListSyncRequest)
        requires
            self.wf(),
        ensures
            r.fakeid@ == self.fakeid@,
            r.begin == self.begin,
            r.count == min_count(self.remaining(), self.page_size as int),
            r.token@ == secret.token@,
            r.cookie_header@ == secret.cookie_header@,
    {
        let remaining = self.max_items - self.fetched_count;
        let count = if remaining < self.page_size {
            remaining
        } else {
            self.page_size
        };
        ArticleListSyncRequest {
            fakeid: self.fakeid.clone(),
            begin: self.begin,
            count,
            token: secret.token.clone(),
            cookie_header: secret.cookie_header.clone(),
        }
    }

    /// How many of the page's articles, from the first, are kept: as many as are still owed.
    pub fn owed_count(&self, page: &ArticleListSyncPage) -> (r: usize)
        requires
            self.wf(),
        ensures
            r == min_count(page.articles@.len() as int, self.remaining()),
    {
        let remaining = self.max_items - self.fetched_count;
        if page.articles.len() < remaining as usize {
            page.articles.len()
        } else {
            remaining as usize
        }
    }

    /// Takes in a fetched page whose owed articles were stored: the first reported total is
    /// kept; the owed articles are counted; an empty page, a page without messages or the
    /// last owed article ends the synchronisation, otherwise the offset moves past the page's
    /// messages.
    pub fn record_page(&mut self, page: &ArticleListSyncPage)
        requires
            old(self).wf(),
            !old(self).finished,
            old(self).begin + page.message_count <= u32::MAX,
        ensures
            final(self).wf(),
            final(self).fakeid == old(self).fakeid,
            final(self).max_items == old(self).max_items,
            final(self).page_size == old(self).page_size,
            final(self).total_count == (match old(self).total_count {
                Some(t) => Some(t),
                None => page.total_count,
            }),
            final(self).fetched_count == old(self).fetched_count + min_count(
                page.articles@.len() as int,
                old(self).remaining(),
            ),
            final(self).finished == (page.articles@.len() == 0 || page.message_count == 0
                || final(self).fetched_count == old(self).max_items),
            final(self).begin == (if page.articles@.len() == 0 || page.message_count == 0 {
                old(self).begin as int
            } else {
                old(self).begin + page.message_count
            }),
    {
        if self.total_count.is_none() {
            self.total_count = page.total_count;
        }
        if page.articles.len() == 0 {
            self.finished = true;
            return;
        }
        let kept = self.owed_count(page);
        self.fetched_count = self.fetched_count + kept as u32;
        if page.message_count == 0 {
            self.finished = true;
            return;
        }
        self.begin = self.begin + page.message_count;
        if self.fetched_count == self.max_items {
            self.finished = true;
        }
    }

    /// Whether the offset can still move past the page's messages.
    pub fn can_record(&self, page: &ArticleListSyncPage) -> (r: bool)
        ensures
            r == (self.begin + page.message_count <= u32::MAX),
    {
        page.message_count <= u32::MAX - self.begin
    }

    /// The record of a synchronisation that ended with `status`: the limit it was asked for,
    /// the articles it kept and the first total the platform reported.
    pub fn record(&self, status: ArticleListSyncStatus, error_message: Option<String>) -> (r:
        ArticleListSyncRecord)
        ensures
            r.target_account_id@ == self.fakeid@,
            r.requested_limit == self.max_items,
            r.fetched_count == self.fetched_count,
            r.total_count == self.total_count,
            r.status == status,
            r.error_message == error_message,
    {
        ArticleListSyncRecord {
            target_account_id: self.fakeid.clone(),
            requested_limit: self.max_items,
            fetched_count: self.fetched_count,
            total_count: self.total_count,
            status,
            error_message,
        }
    }
}

/// The payload of a synchronisation task item: `{"fakeid":..,"pageSize":..}`.
pub open spec fn sync_payload_json(fakeid: Seq<char>, page_size: u32) -> Seq<char> {
    "{\"fakeid\":"@ + json_string(fakeid) + ",\"pageSize\":"@ + decimal(page_size as nat) + "}"@
}

/// The single task item of a synchronisation.
pub fn sync_task_item(fakeid: &str, page_size: u32) -> (r: CollectionTaskItemInput)
    ensures
        r.item_id@ == ARTICLE_LIST_SYNC_ITEM@,
        r.item_type@ == ARTICLE_LIST_SYNC_ITEM@,
        r.payload_json@ == sync_payload_json(fakeid@, page_size),
{
    let mut out = chars_of("{\"fakeid\":");
    push_json_string(&mut out, fakeid);
    crate::text::push_all(&mut out, &chars_of(",\"pageSize\":"));
    crate::text::push_all(&mut out, &crate::numbers::u128_to_decimal(page_size as u128));
    crate::text::push_all(&mut out, &chars_of("}"));
    CollectionTaskItemInput {
        item_id: String::from_str(ARTICLE_LIST_SYNC_ITEM),
        item_type: String::from_str(ARTICLE_LIST_SYNC_ITEM),
        payload_json: string_of(out.as_slice()),
    }
}

/// The login secret text that a read of the login slot gives: the text it holds, the error
/// for an empty slot, or the store's error.
pub fn login_secret_from_read(read: Result<Option<String>, SecretStoreError>) -> (r: Result<
    String,
    ArticleListSyncError,
>)
    ensures
        read matches Ok(Some(s)) ==> r == Ok::<String, ArticleListSyncError>(s),
        read matches Ok(None) ==> r == Err::<String, ArticleListSyncError>(ArticleListSyncError::MissingOfficialAccountLogin),
        read matches Err(e) ==> r == Err::<String, ArticleListSyncError>(ArticleListSyncError::SecretStore(e)),
{
    match read {
        Ok(Some(s)) => Ok(s),
        Ok(None) => Err(ArticleListSyncError::MissingOfficialAccountLogin),
        Err(e) => Err(ArticleListSyncError::SecretStore(e)),
    }
}

/// Synchronises article lists through a transport, signed with the stored login.
pub struct ArticleListSyncClient<T, B> {
    transport: T,
    secret_store: SecretStore<B>,
}

impl<T: ArticleListSyncTransport, B: SecretBackend> ArticleListSyncClient<T, B> {
    pub closed spec fn secrets(&self) -> Map<SecretSlot, Seq<char>> {
        self.secret_store.stored()
    }

    /// The transport the client fetches through.
    pub closed spec fn transport(&self) -> T {
        self.transport
    }

    pub fn new(transport: T, secret_store: SecretStore<B>) -> (r: Self)
        ensures
            r.secrets() == secret_store.stored(),
    {
        ArticleListSyncClient { transport, secret_store }
    }

    /// The stored login secret text, or the error when there is none.
    pub fn login_secret_text(&self) -> (r: Result<String, ArticleListSyncError>)
        ensures
            B::obeys_store_laws() ==> (r matches Ok(s) ==> self.secrets().contains_key(SecretSlot::OfficialAccountLogin)
                && s@ == self.secrets()[SecretSlot::OfficialAccountLogin]),
            r is Err ==> (r matches Err(ArticleListSyncError::MissingOfficialAccountLogin)
                || r matches Err(ArticleListSyncError::SecretStore(_))),
            B::obeys_store_laws() ==> (!self.secrets().contains_key(SecretSlot::OfficialAccountLogin) ==> r is Err),
            B::obeys_store_laws() && B::always_succeeds() ==> (self.secrets().contains_key(
                SecretSlot::OfficialAccountLogin,
            ) ==> (r matches Ok(s) && s@ == self.secrets()[SecretSlot::OfficialAccountLogin])),
            B::obeys_store_laws() && B::always_succeeds() ==> (!self.secrets().contains_key(
                SecretSlot::OfficialAccountLogin,
            ) ==> r == Err::<String, ArticleListSyncError>(ArticleListSyncError::MissingOfficialAccountLogin)),
            r matches Err(ArticleListSyncError::SecretStore(_)) ==> !B::always_succeeds(),
    {
        login_secret_from_read(self.secret_store.read(SecretSlot::OfficialAccountLogin))
    }

    /// One page of the list, as the transport returns it.
    pub fn fetch_page(&self, request: ArticleListSyncRequest) -> (r: Result<ArticleListSyncPage, String>)
        ensures
            self.transport().sync_page_answer_allowed(request, r),
    {
        self.transport.fetch_page(request)
    }
}

} // verus!
